use sonify_health::heartbeat_config::Playback;
use sonify_health::play::{play_step, run_continues, waits_for_grid, PlayAction, IDLE_MILLIS};

#[test]
fn only_clock_mode_aligns_to_grid() {
    assert!(waits_for_grid(Playback::Clock));
    assert!(!waits_for_grid(Playback::Loop));
    assert!(!waits_for_grid(Playback::Continuous));
}

#[test]
fn play_pass_by_mode() {
    assert_eq!(play_step(true, Some(Playback::Clock), true), PlayAction::OneShot);
    assert_eq!(play_step(true, Some(Playback::Loop), true), PlayAction::Loop);
    assert_eq!(play_step(true, Some(Playback::Continuous), true), PlayAction::Continuous);
    assert_eq!(play_step(true, Some(Playback::Loop), false), PlayAction::Idle { millis: IDLE_MILLIS });
    assert_eq!(play_step(true, None, true), PlayAction::Exit);
    assert_eq!(play_step(false, Some(Playback::Clock), true), PlayAction::Exit);
}

#[test]
fn runs_stop_when_mode_changes() {
    assert!(run_continues(true, Playback::Loop, Playback::Loop, true));
    assert!(!run_continues(true, Playback::Loop, Playback::Clock, true));
    assert!(!run_continues(true, Playback::Loop, Playback::Loop, false));
    assert!(!run_continues(false, Playback::Continuous, Playback::Continuous, true));
}
