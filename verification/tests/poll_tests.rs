use sonify_health::poll::{needs_probe, next_metric, set_override};

#[test]
fn override_does_not_leak_to_other_heartbeats() {
    let mut overrides: Vec<Option<u32>> = vec![None, None];
    assert!(set_override(&mut overrides, 1, Some(1000)));
    assert_eq!(overrides, vec![None, Some(1000)]);
    assert_eq!(next_metric(0, overrides[0], Some(0)), 0);
    assert_eq!(next_metric(0, overrides[1], Some(0)), 1000);
    assert!(!set_override(&mut overrides, 2, Some(5)));
    assert!(set_override(&mut overrides, 1, None));
    assert_eq!(overrides, vec![None, None]);
}

#[test]
fn failed_probe_keeps_previous_metric() {
    assert_eq!(next_metric(7, None, None), 7);
    assert_eq!(next_metric(7, None, Some(3)), 3);
    assert!(needs_probe::<u32>(&None));
    assert!(!needs_probe(&Some(1u32)));
}
