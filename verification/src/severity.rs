//! Health severity of a single check, and its textual and numeric
//! encodings.

use vstd::prelude::*;
use crate::text::{str_eq, owned, concat_str, decimal_string, decimal};

verus! {

/// Health severity level for a single check, ordered from healthy to
/// down.
#[derive(Debug, Clone, Copy, PartialEq, Eq, Structural)]
pub enum Severity {
    Healthy,
    Degraded,
    Down,
}

/// Rejected severity input; carries the text that was offered.
#[derive(Debug, Clone, PartialEq, Eq)]
pub struct SeverityParseError(pub String);

/// The severity a numeric code stands for: 0, 1 and 2 only.
pub open spec fn severity_of_code(v: u8) -> Option<Severity> {
    if v == 0 {
        Some(Severity::Healthy)
    } else if v == 1 {
        Some(Severity::Degraded)
    } else if v == 2 {
        Some(Severity::Down)
    } else {
        None
    }
}

/// The severity a string stands for: its numeric code or its name.
pub open spec fn severity_of_text(s: Seq<char>) -> Option<Severity> {
    if s == "0"@ || s == "healthy"@ {
        Some(Severity::Healthy)
    } else if s == "1"@ || s == "degraded"@ {
        Some(Severity::Degraded)
    } else if s == "2"@ || s == "down"@ {
        Some(Severity::Down)
    } else {
        None
    }
}

/// The numeric code of a severity.
pub open spec fn code_of(s: Severity) -> u8 {
    match s {
        Severity::Healthy => 0,
        Severity::Degraded => 1,
        Severity::Down => 2,
    }
}

/// The lower-case name of a severity.
pub open spec fn name_of(s: Severity) -> Seq<char> {
    match s {
        Severity::Healthy => "healthy"@,
        Severity::Degraded => "degraded"@,
        Severity::Down => "down"@,
    }
}

/// The message a rejected input is reported with.
pub open spec fn parse_error_message(input: Seq<char>) -> Seq<char> {
    "Invalid severity value "@ + input
        + ": must be 0 (healthy), 1 (degraded), or 2 (down)"@
}

impl SeverityParseError {
    /// The rejected input.
    pub fn input(&self) -> (r: &String)
        ensures
            r == &self.0,
    {
        &self.0
    }

    /// Human-readable description of the error.
    pub fn message(&self) -> (r: String)
        ensures
            r@ == parse_error_message(self.0@),
    {
        let head = concat_str("Invalid severity value ", self.0.as_str());
        concat_str(head.as_str(), ": must be 0 (healthy), 1 (degraded), or 2 (down)")
    }
}

impl Severity {
    /// Severity from its numeric code; any code above 2 is rejected,
    /// and the error carries the code in decimal.
    pub fn from_code(value: u8) -> (r: Result<Severity, SeverityParseError>)
        ensures
            match severity_of_code(value) {
                Some(s) => r == Ok::<Severity, SeverityParseError>(s),
                None => r matches Err(e) && e.0@ == decimal(value as nat),
            },
    {
        if value == 0 {
            Ok(Severity::Healthy)
        } else if value == 1 {
            Ok(Severity::Degraded)
        } else if value == 2 {
            Ok(Severity::Down)
        } else {
            Err(SeverityParseError(decimal_string(value as u64)))
        }
    }

    /// Severity from its numeric code ("0", "1", "2") or its name
    /// ("healthy", "degraded", "down"); anything else is rejected with
    /// the input text.
    pub fn parse(s: &str) -> (r: Result<Severity, SeverityParseError>)
        ensures
            match severity_of_text(s@) {
                Some(v) => r == Ok::<Severity, SeverityParseError>(v),
                None => r matches Err(e) && e.0@ == s@,
            },
    {
        if str_eq(s, "0") || str_eq(s, "healthy") {
            Ok(Severity::Healthy)
        } else if str_eq(s, "1") || str_eq(s, "degraded") {
            Ok(Severity::Degraded)
        } else if str_eq(s, "2") || str_eq(s, "down") {
            Ok(Severity::Down)
        } else {
            Err(SeverityParseError(owned(s)))
        }
    }

    /// Numeric code: 0 healthy, 1 degraded, 2 down.
    pub fn code(&self) -> (r: u8)
        ensures
            r == code_of(*self),
    {
        match self {
            Severity::Healthy => 0,
            Severity::Degraded => 1,
            Severity::Down => 2,
        }
    }

    /// Lower-case name, as the severity is displayed.
    pub fn as_str(&self) -> (r: &'static str)
        ensures
            r@ == name_of(*self),
    {
        match self {
            Severity::Healthy => "healthy",
            Severity::Degraded => "degraded",
            Severity::Down => "down",
        }
    }

    /// Lower-case name as an owned string.
    pub fn to_string(&self) -> (r: String)
        ensures
            r@ == name_of(*self),
    {
        owned(self.as_str())
    }
}

impl TryFrom<u8> for Severity {
    type Error = SeverityParseError;

    fn try_from(value: u8) -> (r: Result<Severity, SeverityParseError>)
        ensures
            match severity_of_code(value) {
                Some(s) => r == Ok::<Severity, SeverityParseError>(s),
                None => r matches Err(e) && e.0@ == decimal(value as nat),
            },
    {
        Severity::from_code(value)
    }
}

/// The outcome of `try_from` is stated by its own contract above (that
/// of `Severity::from_code`); the generic `TryFrom` specification, which
/// would fix the error value itself, is not claimed.
impl vstd::std_specs::convert::TryFromSpecImpl<u8> for Severity {
    open spec fn obeys_try_from_spec() -> bool {
        false
    }

    open spec fn try_from_spec(v: u8) -> Result<Severity, SeverityParseError> {
        arbitrary()
    }
}

impl std::str::FromStr for Severity {
    type Err = SeverityParseError;

    fn from_str(s: &str) -> (r: Result<Severity, SeverityParseError>)
        ensures
            match severity_of_text(s@) {
                Some(v) => r == Ok::<Severity, SeverityParseError>(v),
                None => r matches Err(e) && e.0@ == s@,
            },
    {
        Severity::parse(s)
    }
}

/// Every severity is recovered from its own code and from its own
/// name.
pub proof fn lemma_severity_round_trip(s: Severity)
    ensures
        severity_of_code(code_of(s)) == Some(s),
        severity_of_text(name_of(s)) == Some(s),
{
    reveal_strlit("0");
    reveal_strlit("1");
    reveal_strlit("2");
    reveal_strlit("healthy");
    reveal_strlit("degraded");
    reveal_strlit("down");
    assert("0"@.len() == 1 && "1"@.len() == 1 && "2"@.len() == 1);
    assert("healthy"@.len() == 7 && "degraded"@.len() == 8 && "down"@.len() == 4);
    assert("healthy"@ != "degraded"@ && "healthy"@ != "down"@ && "degraded"@ != "down"@) by {
        assert("healthy"@[0] != "degraded"@[0]);
        assert("healthy"@[0] != "down"@[0]);
    }
}

} // verus!
