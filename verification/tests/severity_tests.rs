use sonify_health::severity::Severity;

#[test]
fn round_trip_from_u8() {
    for v in 0..=2u8 {
        let severity = Severity::try_from(v).unwrap();
        assert_eq!(severity as u8, v);
    }
}

#[test]
fn invalid_u8_rejected() {
    assert!(Severity::try_from(3).is_err());
    assert!(Severity::try_from(255).is_err());
}

#[test]
fn round_trip_from_str() {
    for (s, expected) in [
        ("0", Severity::Healthy),
        ("1", Severity::Degraded),
        ("2", Severity::Down),
    ] {
        assert_eq!(s.parse::<Severity>().unwrap(), expected);
    }
}

#[test]
fn named_from_str() {
    assert_eq!("healthy".parse::<Severity>().unwrap(), Severity::Healthy);
    assert_eq!("degraded".parse::<Severity>().unwrap(), Severity::Degraded);
    assert_eq!("down".parse::<Severity>().unwrap(), Severity::Down);
}

#[test]
fn invalid_str_rejected() {
    assert!("3".parse::<Severity>().is_err());
    assert!("bad".parse::<Severity>().is_err());
}

#[test]
fn code_error_carries_decimal_code() {
    let err = Severity::from_code(255).unwrap_err();
    assert_eq!(err.input(), "255");
    assert_eq!(
        err.message(),
        "Invalid severity value 255: must be 0 (healthy), 1 (degraded), or 2 (down)"
    );
}

#[test]
fn text_error_carries_input() {
    let err = Severity::parse("bad").unwrap_err();
    assert_eq!(err.input(), "bad");
}

#[test]
fn severity_names_and_codes() {
    assert_eq!(Severity::Healthy.to_string(), "healthy");
    assert_eq!(Severity::Degraded.as_str(), "degraded");
    assert_eq!(Severity::Down.as_str(), "down");
    assert_eq!(Severity::Down.code(), 2);
    assert_eq!(Severity::Healthy.code(), 0);
}

#[test]
fn name_parses_back_to_the_same_severity() {
    for s in [Severity::Healthy, Severity::Degraded, Severity::Down] {
        assert_eq!(Severity::parse(s.as_str()).unwrap(), s);
        assert_eq!(Severity::from_code(s.code()).unwrap(), s);
    }
}
