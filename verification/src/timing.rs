//! Wall-clock alignment of clock-mode heartbeats.  Play times fall on
//! the epoch-aligned grid `offset + N * cycle`; all times are in
//! milliseconds.

use vstd::prelude::*;
use vstd::arithmetic::div_mod::{lemma_fundamental_div_mod, lemma_fundamental_div_mod_converse};

verus! {

/// Distance from a grid point within which the wait snaps to zero.
pub const SNAP_MILLIS: u64 = 5;

/// Milliseconds from `now` to the next grid point `offset + N * cycle`,
/// snapped to zero when `now` is within `SNAP_MILLIS` of a grid point
/// on either side.
pub open spec fn grid_wait(now: int, cycle: int, offset: int) -> int {
    let elapsed = (now - offset) % cycle;
    let remaining = cycle - elapsed;
    if remaining < SNAP_MILLIS || elapsed < SNAP_MILLIS {
        0
    } else {
        remaining
    }
}

proof fn lemma_elapsed(now: int, cycle: int, offset: int)
    requires
        now >= 0,
        offset >= 0,
        cycle > 0,
    ensures
        (now % cycle + cycle - offset % cycle) % cycle == (now - offset) % cycle,
        0 <= (now - offset) % cycle < cycle,
{
    let a = now % cycle;
    let b = offset % cycle;
    let q1 = now / cycle;
    let q2 = offset / cycle;
    lemma_fundamental_div_mod(now, cycle);
    lemma_fundamental_div_mod(offset, cycle);
    assert(0 <= a < cycle && 0 <= b < cycle) by {
        vstd::arithmetic::div_mod::lemma_mod_pos_bound(now, cycle);
        vstd::arithmetic::div_mod::lemma_mod_pos_bound(offset, cycle);
    }
    let s = a + cycle - b;
    assert(now - offset == (q1 - q2) * cycle + (a - b)) by (nonlinear_arith)
        requires
            now == cycle * q1 + a,
            offset == cycle * q2 + b,
    ;
    if s >= cycle {
        lemma_fundamental_div_mod_converse(s, cycle, 1, s - cycle);
        lemma_fundamental_div_mod_converse(now - offset, cycle, q1 - q2, s - cycle);
    } else {
        lemma_fundamental_div_mod_converse(s, cycle, 0, s);
        assert(now - offset == (q1 - q2 - 1) * cycle + s) by (nonlinear_arith)
            requires
                now - offset == (q1 - q2) * cycle + (a - b),
                s == a + cycle - b,
        ;
        lemma_fundamental_div_mod_converse(now - offset, cycle, q1 - q2 - 1, s);
    }
}

/// Milliseconds from `now_ms` (milliseconds since the epoch) until the
/// next play time on the grid `offset_ms + N * cycle_ms`; zero when the
/// grid point is less than `SNAP_MILLIS` away on either side.
pub fn millis_until_next_at(now_ms: u64, cycle_ms: u64, offset_ms: u64) -> (r: u64)
    requires
        cycle_ms > 0,
    ensures
        r == grid_wait(now_ms as int, cycle_ms as int, offset_ms as int),
        r < cycle_ms,
{
    let a = now_ms % cycle_ms;
    let b = offset_ms % cycle_ms;
    let elapsed = ((a as u128 + cycle_ms as u128 - b as u128) % (cycle_ms as u128)) as u64;
    proof {
        lemma_elapsed(now_ms as int, cycle_ms as int, offset_ms as int);
    }
    let remaining = cycle_ms - elapsed;
    if remaining < SNAP_MILLIS || elapsed < SNAP_MILLIS {
        0
    } else {
        remaining
    }
}

/// std's `SystemTime`, a reading of the system clock; it is carried
/// through opaque.
#[verifier::external_type_specification]
#[verifier::external_body]
pub struct ExSystemTime(std::time::SystemTime);

/// Reads the system clock (`SystemTime::now`).  Nothing is promised of
/// the reading: it is the time.
#[verifier::external_body]
fn system_now() -> std::time::SystemTime {
    std::time::SystemTime::now()
}

/// The time elapsed from the Unix epoch to `t`
/// (`SystemTime::duration_since(UNIX_EPOCH)`), `None` when `t` lies
/// before the epoch.  Nothing is stated of the duration: `t` is opaque.
#[verifier::external_body]
fn since_epoch(t: std::time::SystemTime) -> Option<std::time::Duration> {
    t.duration_since(std::time::UNIX_EPOCH).ok()
}

/// The whole milliseconds in `d` (`Duration::as_millis`).  Nothing is
/// stated of the value: `d` is opaque.
#[verifier::external_body]
fn whole_millis(d: std::time::Duration) -> u128 {
    d.as_millis()
}

/// std's `Instant`, a reading of the monotonic clock; it is carried
/// through opaque.
#[verifier::external_type_specification]
#[verifier::external_body]
pub struct ExInstant(std::time::Instant);

/// Reads the monotonic clock (`Instant::now`).  Nothing is promised of
/// the reading: it is the time.
#[verifier::external_body]
pub(crate) fn instant_now() -> std::time::Instant {
    std::time::Instant::now()
}

/// The time from `earlier` to `later`, zero when `later` is not after
/// it (`Instant::saturating_duration_since`).  Nothing is stated of the
/// duration: the instants are opaque.
#[verifier::external_body]
fn elapsed_between(later: std::time::Instant, earlier: std::time::Instant) -> std::time::Duration {
    later.saturating_duration_since(earlier)
}

/// Whole milliseconds on the monotonic clock from `origin` to now,
/// saturated at `u64::MAX`.  Nothing is promised of the value: it is
/// the time.
pub(crate) fn millis_since(origin: std::time::Instant) -> (r: u64) {
    let m = whole_millis(elapsed_between(instant_now(), origin));
    if m > u64::MAX as u128 {
        u64::MAX
    } else {
        m as u64
    }
}

/// Milliseconds since the Unix epoch by the system clock: zero when the
/// clock stands before the epoch, saturated at `u64::MAX`.  Nothing is
/// promised of the value: it is the time.
pub(crate) fn now_millis() -> (r: u64) {
    match since_epoch(system_now()) {
        None => 0,
        Some(d) => {
            let m = whole_millis(d);
            if m > u64::MAX as u128 {
                u64::MAX
            } else {
                m as u64
            }
        },
    }
}

/// Milliseconds until the next play time on the grid
/// `offset_ms + N * cycle_ms`, measured from the current wall-clock
/// time: the grid wait (see `grid_wait`) at the moment the clock is
/// read, whatever it reads; so the wait is below one cycle.
pub fn millis_until_next(cycle_ms: u64, offset_ms: u64) -> (r: u64)
    requires
        cycle_ms > 0,
    ensures
        exists|now: u64| r == #[trigger] grid_wait(now as int, cycle_ms as int, offset_ms as int),
        r < cycle_ms,
{
    let now = now_millis();
    let r = millis_until_next_at(now, cycle_ms, offset_ms);
    assert(r == grid_wait(now as int, cycle_ms as int, offset_ms as int));
    r
}

/// The wait before a clock-mode heartbeat's first play is taken only
/// when it exceeds the snap distance.
pub fn should_wait_for_grid(wait_ms: u64) -> (r: bool)
    ensures
        r == (wait_ms > SNAP_MILLIS),
{
    wait_ms > SNAP_MILLIS
}

/// The wait never reaches a full cycle, and a wait of zero means the
/// clock stands within the snap distance of a grid point.
pub proof fn lemma_grid_wait_bounded(now: int, cycle: int, offset: int)
    requires
        now >= 0,
        offset >= 0,
        cycle > 0,
    ensures
        0 <= grid_wait(now, cycle, offset) < cycle,
        grid_wait(now, cycle, offset) == 0 ==> ((now - offset) % cycle < SNAP_MILLIS
            || cycle - (now - offset) % cycle < SNAP_MILLIS),
        grid_wait(now, cycle, offset) != 0 ==> (now + grid_wait(now, cycle, offset) - offset)
            % cycle == 0,
{
    lemma_elapsed(now, cycle, offset);
    let e = (now - offset) % cycle;
    lemma_fundamental_div_mod(now - offset, cycle);
    let q = (now - offset) / cycle;
    if grid_wait(now, cycle, offset) != 0 {
        assert(now + (cycle - e) - offset == (q + 1) * cycle + 0) by (nonlinear_arith)
            requires
                now - offset == cycle * q + e,
        ;
        lemma_fundamental_div_mod_converse(now + (cycle - e) - offset, cycle, q + 1, 0);
    }
}

} // verus!
