use sonify_health::heartbeat_config::Playback;
use sonify_health::web::{apply_mute_request, HealthResponse, MeResponse, MuteRequest};

#[test]
fn health_reports_healthy() {
    assert_eq!(HealthResponse::healthy().status, "healthy");
}

#[test]
fn me_without_auth_is_admin() {
    let me = MeResponse::for_session(false, Some("alice".to_string()));
    assert_eq!(me.name, "admin");
    assert!(!me.auth_enabled);
    let me = MeResponse::for_session(true, Some("alice".to_string()));
    assert_eq!(me.name, "alice");
    assert_eq!(MeResponse::for_session(true, None).name, "anonymous");
}

#[test]
fn mute_requests() {
    let (muted, resp) = apply_mute_request(false, MuteRequest::Put);
    assert!(muted && resp.muted);
    let (muted, resp) = apply_mute_request(true, MuteRequest::Delete);
    assert!(!muted && !resp.muted);
    let (muted, resp) = apply_mute_request(true, MuteRequest::Get);
    assert!(muted && resp.muted);
}

#[test]
fn playback_names_and_legacy_flag() {
    assert_eq!(Playback::default(), Playback::Clock);
    assert_eq!(Playback::parse("loop"), Some(Playback::Loop));
    assert_eq!(Playback::parse("continuous"), Some(Playback::Continuous));
    assert_eq!(Playback::parse("nope"), None);
    assert_eq!(Playback::Clock.as_str(), "clock");
    assert_eq!(Playback::Clock.resolve_legacy_continuous(true), Playback::Continuous);
    assert_eq!(Playback::Loop.resolve_legacy_continuous(true), Playback::Loop);
    assert_eq!(Playback::Clock.resolve_legacy_continuous(false), Playback::Clock);
}

#[test]
fn playback_default_is_clock() {
    assert_eq!(Playback::default(), Playback::Clock);
}
