use sonify_health::timing::{millis_until_next, millis_until_next_at, should_wait_for_grid};

#[test]
fn mid_cycle_offset_zero() {
    // 7.5 seconds into a 15-second cycle: 7.5 seconds remaining.
    let r = millis_until_next_at(7_500, 15_000, 0);
    assert_eq!(r, 7_500);
}

#[test]
fn at_boundary_snaps_to_zero() {
    let r = millis_until_next_at(30_000, 15_000, 0);
    assert_eq!(r, 0);
}

#[test]
fn near_boundary_snaps_to_zero() {
    // Within 5 ms of a boundary.
    let r = millis_until_next_at(29_998, 15_000, 0);
    assert_eq!(r, 0);
}

#[test]
fn offset_shifts_grid() {
    // Cycle 15 s, offset 5 s: grid points at 5, 20, 35, ...
    let r = millis_until_next_at(12_000, 15_000, 5_000);
    assert_eq!(r, 8_000);
}

#[test]
fn offset_larger_than_cycle_wraps() {
    // Offset 20 s with a 15 s cycle acts as offset 5 s.
    let r = millis_until_next_at(12_000, 15_000, 20_000);
    assert_eq!(r, 8_000);
}

#[test]
fn just_after_boundary_snaps_to_zero() {
    assert_eq!(millis_until_next_at(30_004, 15_000, 0), 0);
    assert_eq!(millis_until_next_at(30_005, 15_000, 0), 14_995);
}

#[test]
fn live_result_is_bounded() {
    let r = millis_until_next(15_000, 0);
    assert!(r <= 15_000);
}

#[test]
fn waits_only_beyond_snap_distance() {
    assert!(!should_wait_for_grid(0));
    assert!(!should_wait_for_grid(5));
    assert!(should_wait_for_grid(6));
}
