//! Reading check results in severity mode, and the check's errors.

use vstd::prelude::*;
use crate::severity::Severity;
use crate::text::str_eq;

verus! {

/// How a check command's result is read.
#[derive(Debug, Clone, Copy, PartialEq, Eq, Structural)]
pub enum ResultMode {
    /// The exit code maps onto the unit range (code / 255).
    ExitCode,
    /// The command prints a value between 0 and 1 on stdout.
    Stdout,
    /// The exit code is a severity: 0 healthy, 1 degraded, 2 down.
    ExitCodeSeverity,
}

impl ResultMode {
    /// The result mode with the given kebab-case name, if any.
    pub fn parse(s: &str) -> (r: Option<ResultMode>)
        ensures
            r == (if s@ == "exit-code"@ {
                Some(ResultMode::ExitCode)
            } else if s@ == "stdout"@ {
                Some(ResultMode::Stdout)
            } else if s@ == "exit-code-severity"@ {
                Some(ResultMode::ExitCodeSeverity)
            } else {
                None::<ResultMode>
            }),
    {
        if str_eq(s, "exit-code") {
            Some(ResultMode::ExitCode)
        } else if str_eq(s, "stdout") {
            Some(ResultMode::Stdout)
        } else if str_eq(s, "exit-code-severity") {
            Some(ResultMode::ExitCodeSeverity)
        } else {
            None
        }
    }
}

/// Failures of a check run.
#[derive(Debug)]
pub enum CheckError {
    /// The shell could not be started.
    CheckExecution { name: String, source: std::io::Error },
    /// The command's stdout is not a number.
    CheckInvalidStdout { name: String, output: String },
}

/// The severity that an exit code stands for in severity mode.  The
/// code (2 when the command left none) is capped at 2 and truncated to
/// a byte: 0 is healthy, 1 degraded, anything else down.
pub open spec fn exit_code_severity(code: Option<i32>) -> Severity {
    let c: int = match code {
        Some(c) => if c < 2 { c as int } else { 2 },
        None => 2,
    };
    let b = c % 256;
    if b == 0 {
        Severity::Healthy
    } else if b == 1 {
        Severity::Degraded
    } else {
        Severity::Down
    }
}

/// Severity of a finished check in severity mode (see
/// `exit_code_severity`).
pub fn severity_from_exit_code(code: Option<i32>) -> (r: Severity)
    ensures
        r == exit_code_severity(code),
{
    let c: i64 = match code {
        Some(c) => if c < 2 { c as i64 } else { 2 },
        None => 2,
    };
    let b: i64 = if c >= 0 {
        c % 256
    } else {
        let r = (-c) % 256;
        if r == 0 { 0 } else { 256 - r }
    };
    proof {
        if c < 0 {
            let r = (-c) % 256;
            vstd::arithmetic::div_mod::lemma_fundamental_div_mod(-c as int, 256);
            let q = (-c) / 256;
            if r == 0 {
                vstd::arithmetic::div_mod::lemma_fundamental_div_mod_converse(c as int, 256, -q, 0);
            } else {
                vstd::arithmetic::div_mod::lemma_fundamental_div_mod_converse(c as int, 256, -q - 1, 256 - r);
            }
        }
    }
    if b == 0 {
        Severity::Healthy
    } else if b == 1 {
        Severity::Degraded
    } else {
        Severity::Down
    }
}

} // verus!
