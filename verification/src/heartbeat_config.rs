//! Playback modes of a heartbeat.

use vstd::prelude::*;
use crate::text::str_eq;

verus! {

/// How a heartbeat's sound is scheduled.
#[derive(Debug, Clone, Copy, PartialEq, Eq, Structural)]
pub enum Playback {
    /// One play per cycle, aligned to the wall-clock grid.
    Clock,
    /// Back-to-back repetitions crossfaded into each other.
    Loop,
    /// A sustained sound whose controls follow the metric.
    Continuous,
}

/// The kebab-case wire name of a playback mode.
pub open spec fn playback_name(p: Playback) -> Seq<char> {
    match p {
        Playback::Clock => "clock"@,
        Playback::Loop => "loop"@,
        Playback::Continuous => "continuous"@,
    }
}

/// The playback mode with a given wire name.
pub open spec fn playback_of_name(s: Seq<char>) -> Option<Playback> {
    if s == "clock"@ {
        Some(Playback::Clock)
    } else if s == "loop"@ {
        Some(Playback::Loop)
    } else if s == "continuous"@ {
        Some(Playback::Continuous)
    } else {
        None
    }
}

impl Playback {
    /// The kebab-case wire name.
    pub fn as_str(&self) -> (r: &'static str)
        ensures
            r@ == playback_name(*self),
    {
        match self {
            Playback::Clock => "clock",
            Playback::Loop => "loop",
            Playback::Continuous => "continuous",
        }
    }

    /// The playback mode with the given wire name, if any.
    pub fn parse(s: &str) -> (r: Option<Playback>)
        ensures
            r == playback_of_name(s@),
    {
        if str_eq(s, "clock") {
            Some(Playback::Clock)
        } else if str_eq(s, "loop") {
            Some(Playback::Loop)
        } else if str_eq(s, "continuous") {
            Some(Playback::Continuous)
        } else {
            None
        }
    }

    /// The playback mode after upgrading the legacy `continuous = true`
    /// flag: it turns an unset (clock) mode into `Continuous` and leaves
    /// an explicit mode alone.
    pub fn resolve_legacy_continuous(self, continuous: bool) -> (r: Playback)
        ensures
            r == (if continuous && self == Playback::Clock { Playback::Continuous } else { self }),
    {
        if continuous && self == Playback::Clock {
            Playback::Continuous
        } else {
            self
        }
    }
}

impl Default for Playback {
    fn default() -> (r: Playback)
        ensures
            r == Playback::Clock,
    {
        Playback::Clock
    }
}

/// Every mode is read back from its own wire name.
pub proof fn lemma_playback_name_round_trip(p: Playback)
    ensures
        playback_of_name(playback_name(p)) == Some(p),
{
    reveal_strlit("clock");
    reveal_strlit("loop");
    reveal_strlit("continuous");
    assert("clock"@.len() == 5 && "loop"@.len() == 4 && "continuous"@.len() == 10);
    assert("clock"@ != "loop"@);
}

} // verus!
