//! Decisions of a heartbeat's play thread: whether it aligns to the
//! wall-clock grid before its first play, what it does on each pass,
//! and when a loop or continuous run stops.  The caller renders and
//! sleeps.

use vstd::prelude::*;
use crate::heartbeat_config::Playback;

verus! {

/// How long a play thread idles while its source is silenced.
pub const IDLE_MILLIS: u64 = 200;

/// What a play thread does on one pass.
#[derive(Debug, Clone, Copy, PartialEq, Eq, Structural)]
pub enum PlayAction {
    /// Leave: the daemon stops or the heartbeat is gone.
    Exit,
    /// Stay alive without sound for this many milliseconds.
    Idle { millis: u64 },
    /// Run the continuous renderer until the mode changes.
    Continuous,
    /// Replay the heartbeat back to back until the mode changes.
    Loop,
    /// Play the heartbeat once, then wait for the next grid point.
    OneShot,
}

/// Only clock-mode heartbeats align their first play to the grid;
/// loop and continuous heartbeats start at once.
pub fn waits_for_grid(mode: Playback) -> (r: bool)
    ensures
        r == (mode == Playback::Clock),
{
    match mode {
        Playback::Clock => true,
        _ => false,
    }
}

/// The next pass of a play thread.  `mode` is the heartbeat's playback
/// mode, or `None` when the heartbeat no longer exists; `should_play`
/// tells whether its source currently sounds.
pub fn play_step(running: bool, mode: Option<Playback>, should_play: bool) -> (r: PlayAction)
    ensures
        r == (if !running || mode is None {
            PlayAction::Exit
        } else if !should_play {
            PlayAction::Idle { millis: IDLE_MILLIS }
        } else {
            match mode->Some_0 {
                Playback::Continuous => PlayAction::Continuous,
                Playback::Loop => PlayAction::Loop,
                Playback::Clock => PlayAction::OneShot,
            }
        }),
{
    if !running {
        return PlayAction::Exit;
    }
    match mode {
        None => PlayAction::Exit,
        Some(m) => {
            if !should_play {
                PlayAction::Idle { millis: IDLE_MILLIS }
            } else {
                match m {
                    Playback::Continuous => PlayAction::Continuous,
                    Playback::Loop => PlayAction::Loop,
                    Playback::Clock => PlayAction::OneShot,
                }
            }
        },
    }
}

/// Whether a run in mode `run_mode` goes on for another pass: the
/// daemon still runs, the heartbeat is still in that mode, and some
/// note still resolves to a patch.
pub fn run_continues(running: bool, run_mode: Playback, current: Playback, has_notes: bool) -> (r: bool)
    ensures
        r == (running && current == run_mode && has_notes),
{
    running && current == run_mode && has_notes
}

} // verus!
