use sonify_health::check::{self, severity_from_exit_code};
use sonify_health::probe::{classify_exit_code, ProbeError, ResultMode};
use sonify_health::severity::Severity;

#[test]
fn exit_codes_classify() {
    assert_eq!(classify_exit_code("hb", Some(0), String::new()).unwrap(), Severity::Healthy);
    assert_eq!(classify_exit_code("hb", Some(3), String::new()).unwrap(), Severity::Down);
    match classify_exit_code("hb", None, "killed".to_string()) {
        Err(e @ ProbeError::ProbeSignaled { .. }) => {
            assert_eq!(e.heartbeat(), "hb");
            assert_eq!(e.stderr(), Some(&"killed".to_string()));
        },
        other => panic!("unexpected {other:?}"),
    }
}

#[test]
fn result_mode_names() {
    assert_eq!(ResultMode::parse("exit-code"), Some(ResultMode::ExitCode));
    assert_eq!(ResultMode::parse("stdout"), Some(ResultMode::Stdout));
    assert_eq!(ResultMode::parse("bogus"), None);
    assert_eq!(ResultMode::Stdout.as_str(), "stdout");
}

#[test]
fn severity_mode_exit_codes() {
    assert_eq!(severity_from_exit_code(Some(0)), Severity::Healthy);
    assert_eq!(severity_from_exit_code(Some(1)), Severity::Degraded);
    assert_eq!(severity_from_exit_code(Some(2)), Severity::Down);
    assert_eq!(severity_from_exit_code(Some(77)), Severity::Down);
    assert_eq!(severity_from_exit_code(None), Severity::Down);
    // Negative codes truncate to a byte: -255 is 1 modulo 256.
    assert_eq!(severity_from_exit_code(Some(-255)), Severity::Degraded);
    assert_eq!(severity_from_exit_code(Some(-256)), Severity::Healthy);
    assert_eq!(check::ResultMode::parse("exit-code-severity"), Some(check::ResultMode::ExitCodeSeverity));
    assert_eq!(check::ResultMode::parse("stdout"), Some(check::ResultMode::Stdout));
    assert_eq!(check::ResultMode::parse("exit-code"), Some(check::ResultMode::ExitCode));
    assert_eq!(check::ResultMode::parse("severity"), None);
}

#[test]
fn probe_exit_code_zero_is_healthy() {
    assert_eq!(classify_exit_code("test", Some(0), String::new()).unwrap(), Severity::Healthy);
}

#[test]
fn probe_exit_code_nonzero_is_down() {
    assert_eq!(classify_exit_code("test", Some(1), String::new()).unwrap(), Severity::Down);
}

#[test]
fn exit_code_high_is_down() {
    assert_eq!(classify_exit_code("test", Some(42), String::new()).unwrap(), Severity::Down);
}

#[test]
fn exit_code_missing_binary_is_down() {
    // A shell reports a missing command with exit code 127.
    assert_eq!(classify_exit_code("test", Some(127), String::new()).unwrap(), Severity::Down);
}

#[test]
fn exit_code_severity_zero_is_healthy() {
    assert_eq!(severity_from_exit_code(Some(0)), Severity::Healthy);
}

#[test]
fn exit_code_severity_one_is_degraded() {
    assert_eq!(severity_from_exit_code(Some(1)), Severity::Degraded);
}

#[test]
fn exit_code_severity_two_is_down() {
    assert_eq!(severity_from_exit_code(Some(2)), Severity::Down);
}

#[test]
fn exit_code_severity_high_clamps_to_down() {
    assert_eq!(severity_from_exit_code(Some(127)), Severity::Down);
}

#[test]
fn missing_binary_returns_down_for_severity_mode() {
    assert_eq!(severity_from_exit_code(Some(127)), Severity::Down);
    assert_eq!(severity_from_exit_code(None), Severity::Down);
}
