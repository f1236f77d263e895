//! Reading probe and check results: the result modes, the errors, and
//! the classification of a finished command's exit status.

use vstd::prelude::*;
use crate::severity::Severity;
use crate::text::{str_eq, owned};

verus! {

/// std's `io::Error`, the reason a probe's shell could not start; it is
/// carried through opaque, with nothing known of its contents.
#[verifier::external_type_specification]
#[verifier::external_body]
pub struct ExIoError(std::io::Error);

/// How the daemon reads a probe command's result.
#[derive(Debug, Clone, Copy, PartialEq, Eq, Structural)]
pub enum ResultMode {
    /// Exit code 0 is healthy, any other exit code is down.
    ExitCode,
    /// The command prints a value between 0 and 1 on stdout.
    Stdout,
}

/// The kebab-case wire name of a result mode.
pub open spec fn result_mode_name(m: ResultMode) -> Seq<char> {
    match m {
        ResultMode::ExitCode => "exit-code"@,
        ResultMode::Stdout => "stdout"@,
    }
}

impl ResultMode {
    /// The kebab-case wire name.
    pub fn as_str(&self) -> (r: &'static str)
        ensures
            r@ == result_mode_name(*self),
    {
        match self {
            ResultMode::ExitCode => "exit-code",
            ResultMode::Stdout => "stdout",
        }
    }

    /// The result mode with the given wire name, if any.
    pub fn parse(s: &str) -> (r: Option<ResultMode>)
        ensures
            r == (if s@ == "exit-code"@ {
                Some(ResultMode::ExitCode)
            } else if s@ == "stdout"@ {
                Some(ResultMode::Stdout)
            } else {
                None::<ResultMode>
            }),
    {
        if str_eq(s, "exit-code") {
            Some(ResultMode::ExitCode)
        } else if str_eq(s, "stdout") {
            Some(ResultMode::Stdout)
        } else {
            None
        }
    }
}

/// Failures of a probe run.
#[derive(Debug)]
pub enum ProbeError {
    /// The shell could not be started.
    ProbeExecution { heartbeat: String, source: std::io::Error },
    /// The command was killed by a signal and left no exit code.
    ProbeSignaled { heartbeat: String, stderr: String },
    /// The command's stdout is not a number.
    ProbeInvalidStdout { heartbeat: String, output: String, stderr: String },
}

impl ProbeError {
    /// The stderr the failed command produced, where there was a
    /// command to produce any.
    pub fn stderr(&self) -> (r: Option<&String>)
        ensures
            match *self {
                ProbeError::ProbeExecution { .. } => r.is_none(),
                ProbeError::ProbeSignaled { stderr, .. } => r == Some(&stderr),
                ProbeError::ProbeInvalidStdout { stderr, .. } => r == Some(&stderr),
            },
    {
        match self {
            ProbeError::ProbeExecution { .. } => None,
            ProbeError::ProbeSignaled { stderr, .. } => Some(stderr),
            ProbeError::ProbeInvalidStdout { stderr, .. } => Some(stderr),
        }
    }

    /// The heartbeat whose probe failed.
    pub fn heartbeat(&self) -> (r: &String)
        ensures
            match *self {
                ProbeError::ProbeExecution { heartbeat, .. } => r == &heartbeat,
                ProbeError::ProbeSignaled { heartbeat, .. } => r == &heartbeat,
                ProbeError::ProbeInvalidStdout { heartbeat, .. } => r == &heartbeat,
            },
    {
        match self {
            ProbeError::ProbeExecution { heartbeat, .. } => heartbeat,
            ProbeError::ProbeSignaled { heartbeat, .. } => heartbeat,
            ProbeError::ProbeInvalidStdout { heartbeat, .. } => heartbeat,
        }
    }
}

/// Classify a finished exit-code probe: exit code 0 is healthy, any
/// other code is down, and a command killed by a signal (no code) is an
/// error that keeps the probe's stderr.
pub fn classify_exit_code(heartbeat: &str, code: Option<i32>, stderr: String) -> (r: Result<Severity, ProbeError>)
    ensures
        match code {
            None => r matches Err(ProbeError::ProbeSignaled { heartbeat: h, stderr: e }) && h@ == heartbeat@
                && e == stderr,
            Some(c) => r == Ok::<Severity, ProbeError>(if c == 0 { Severity::Healthy } else { Severity::Down }),
        },
{
    match code {
        None => Err(ProbeError::ProbeSignaled { heartbeat: owned(heartbeat), stderr }),
        Some(c) => Ok(if c == 0 { Severity::Healthy } else { Severity::Down }),
    }
}

} // verus!
