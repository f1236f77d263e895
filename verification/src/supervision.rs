//! Supervision policy for the per-heartbeat poll and play threads: the
//! rolling failure budget, respawn decisions, play-thread rebalancing,
//! exponential backoff for stream recovery, and the engine's tick
//! cadence.  Times are milliseconds on a monotonic clock.

use vstd::prelude::*;
use crate::text::{concat_str, owned, contains_name};
use crate::timing::{instant_now, millis_since};

verus! {

/// Maximum failures per thread within `FAILURE_WINDOW_MS` before the
/// engine gives up and shuts down.
pub const MAX_FAILURES_PER_THREAD: usize = 5;

/// Rolling window for counting thread failures (five minutes).
pub const FAILURE_WINDOW_MS: u64 = 300_000;

/// How often (in ~100 ms ticks) thread health is checked.
pub const SUPERVISION_CHECK_INTERVAL: u32 = 10;

/// How often (in ~100 ms ticks) audio health stats are reported.
pub const HEALTH_LOG_INTERVAL: u32 = 300;

/// Initial delay between recovery or reconnection attempts.
pub const INITIAL_BACKOFF_MS: u64 = 1_000;

/// Cap on the delay between recovery or reconnection attempts.
pub const MAX_BACKOFF_MS: u64 = 60_000;

/// Which half of a heartbeat a supervised thread runs.
#[derive(Debug, Clone, Copy, PartialEq, Eq, Structural)]
pub enum ThreadRole {
    Poll,
    Play,
}

impl ThreadRole {
    /// Lower-case name of the role, as it is displayed.
    pub fn as_str(&self) -> (r: &'static str)
        ensures
            r@ == (match *self {
                ThreadRole::Poll => "poll"@,
                ThreadRole::Play => "play"@,
            }),
    {
        match self {
            ThreadRole::Poll => "poll",
            ThreadRole::Play => "play",
        }
    }
}

/// What a panicked thread left behind, as far as its message is
/// concerned: a string literal, an owned string, or some other value
/// of which only a description of its type is known.
#[derive(Debug, Clone, PartialEq, Eq)]
pub enum PanicPayload {
    Str(String),
    Owned(String),
    Other(String),
}

/// Human-readable message for a panic payload.
pub open spec fn panic_message_of(p: PanicPayload) -> Seq<char> {
    match p {
        PanicPayload::Str(s) => s@,
        PanicPayload::Owned(s) => s@,
        PanicPayload::Other(t) => "<non-string panic: "@ + t@ + ">"@,
    }
}

/// Extract a human-readable message from a panic payload: the text of
/// a string payload, or a `<non-string panic: ...>` marker naming the
/// payload's type.
pub fn extract_panic_message(payload: &PanicPayload) -> (r: String)
    ensures
        r@ == panic_message_of(*payload),
{
    match payload {
        PanicPayload::Str(s) => owned(s.as_str()),
        PanicPayload::Owned(s) => owned(s.as_str()),
        PanicPayload::Other(t) => {
            let head = concat_str("<non-string panic: ", t.as_str());
            concat_str(head.as_str(), ">")
        },
    }
}

/// Whether a failure recorded at `t` still counts at time `now`
/// (the elapsed time saturates at zero for times after `now`).
pub open spec fn within_window(now: u64, t: u64) -> bool {
    if t >= now {
        true
    } else {
        now - t < FAILURE_WINDOW_MS
    }
}

/// Rolling record of a thread's recent failures.
#[derive(Debug, Clone)]
pub struct FailureBudget {
    pub failures: Vec<u64>,
}

impl FailureBudget {
    /// An empty record.
    pub fn new() -> (r: FailureBudget)
        ensures
            r.failures@ == Seq::<u64>::empty(),
    {
        FailureBudget { failures: Vec::new() }
    }

    /// Record a failure at `now`, pruning entries outside the window.
    /// Returns `true` if the failure budget is exhausted, that is, if
    /// more than `MAX_FAILURES_PER_THREAD` failures remain in the
    /// window.
    pub fn record_failure_at(&mut self, now: u64) -> (exhausted: bool)
        ensures
            final(self).failures@ == old(self).failures@.push(now).filter(
                |t: u64| within_window(now, t),
            ),
            exhausted == (final(self).failures@.len() > MAX_FAILURES_PER_THREAD),
    {
        self.failures.push(now);
        let ghost src = self.failures@;
        let mut kept: Vec<u64> = Vec::new();
        let mut i: usize = 0;
        while i < self.failures.len()
            invariant
                src == self.failures@,
                i <= src.len(),
                kept@ == src.take(i as int).filter(|t: u64| within_window(now, t)),
            decreases src.len() - i,
        {
            let t = self.failures[i];
            let keep = if t >= now {
                true
            } else {
                now - t < FAILURE_WINDOW_MS
            };
            if keep {
                kept.push(t);
            }
            proof {
                reveal(Seq::filter);
                assert(src.take(i + 1).drop_last() =~= src.take(i as int));
            }
            i = i + 1;
        }
        assert(src.take(src.len() as int) =~= src);
        self.failures = kept;
        self.failures.len() > MAX_FAILURES_PER_THREAD
    }
}

/// Book-keeping for one supervised thread.  `H` is the handle of the
/// running thread; it is `None` while the thread has been reaped and
/// not yet respawned.
pub struct SupervisedThread<H> {
    pub handle: Option<H>,
    pub source_name: String,
    pub hb_idx: usize,
    pub role: ThreadRole,
    pub budget: FailureBudget,
    /// The monotonic-clock instant the thread's failure times are
    /// counted from (in milliseconds).
    pub clock_origin: std::time::Instant,
}

impl<H> SupervisedThread<H> {
    /// A freshly spawned thread with no recorded failures; its failure
    /// times count from the monotonic clock's reading now.
    pub fn new(handle: H, source_name: String, hb_idx: usize, role: ThreadRole) -> (r: Self)
        ensures
            r.handle == Some(handle),
            r.source_name == source_name,
            r.hb_idx == hb_idx,
            r.role == role,
            r.budget.failures@ == Seq::<u64>::empty(),
    {
        SupervisedThread {
            handle: Some(handle),
            source_name,
            hb_idx,
            role,
            budget: FailureBudget::new(),
            clock_origin: instant_now(),
        }
    }

    /// Record a failure at `now`; see `FailureBudget::record_failure_at`.
    pub fn record_failure_at(&mut self, now: u64) -> (exhausted: bool)
        ensures
            final(self).budget.failures@ == old(self).budget.failures@.push(now).filter(
                |t: u64| within_window(now, t),
            ),
            exhausted == (final(self).budget.failures@.len() > MAX_FAILURES_PER_THREAD),
            final(self).handle == old(self).handle,
            final(self).source_name == old(self).source_name,
            final(self).hb_idx == old(self).hb_idx,
            final(self).role == old(self).role,
            final(self).clock_origin == old(self).clock_origin,
    {
        self.budget.record_failure_at(now)
    }

    /// Record a failure now (by the monotonic clock, in milliseconds
    /// since `clock_origin`), pruning failures outside the window;
    /// returns whether the budget is exhausted.  Whatever the clock
    /// reads, the budget is updated as `record_failure_at` does at that
    /// time.
    pub fn record_failure(&mut self) -> (exhausted: bool)
        ensures
            exists|now: u64|
                {
                    &&& final(self).budget.failures@ == old(self).budget.failures@.push(now).filter(
                        |t: u64| within_window(now, t),
                    )
                    &&& exhausted == (final(self).budget.failures@.len() > MAX_FAILURES_PER_THREAD)
                },
            final(self).handle == old(self).handle,
            final(self).source_name == old(self).source_name,
            final(self).hb_idx == old(self).hb_idx,
            final(self).role == old(self).role,
            final(self).clock_origin == old(self).clock_origin,
    {
        let now = millis_since(self.clock_origin);
        self.record_failure_at(now)
    }

    /// Record that the thread panicked at `now` and decide what follows:
    /// shutdown when this failure exhausts the budget, otherwise the
    /// respawn decision for the thread's role.
    pub fn on_panic_at(&mut self, now: u64, source_exists: bool, has_mixer: bool) -> (r: SupervisorAction)
        ensures
            final(self).budget.failures@ == old(self).budget.failures@.push(now).filter(
                |t: u64| within_window(now, t),
            ),
            (r == SupervisorAction::Shutdown) == (final(self).budget.failures@.len() > MAX_FAILURES_PER_THREAD),
            r != SupervisorAction::Shutdown ==> r == SupervisorAction::Recover(
                respawn_spec(old(self).role, source_exists, has_mixer),
            ),
            final(self).handle == old(self).handle,
            final(self).source_name == old(self).source_name,
            final(self).hb_idx == old(self).hb_idx,
            final(self).role == old(self).role,
            final(self).clock_origin == old(self).clock_origin,
    {
        let exhausted = self.record_failure_at(now);
        on_thread_panicked(exhausted, self.role, source_exists, has_mixer)
    }

    /// `on_panic_at` at the current monotonic-clock reading (milliseconds
    /// since `clock_origin`), whatever it is.
    pub fn on_panic(&mut self, source_exists: bool, has_mixer: bool) -> (r: SupervisorAction)
        ensures
            exists|now: u64|
                {
                    &&& final(self).budget.failures@ == old(self).budget.failures@.push(now).filter(
                        |t: u64| within_window(now, t),
                    )
                    &&& (r == SupervisorAction::Shutdown) == (final(self).budget.failures@.len()
                        > MAX_FAILURES_PER_THREAD)
                },
            r != SupervisorAction::Shutdown ==> r == SupervisorAction::Recover(
                respawn_spec(old(self).role, source_exists, has_mixer),
            ),
            final(self).handle == old(self).handle,
            final(self).source_name == old(self).source_name,
            final(self).hb_idx == old(self).hb_idx,
            final(self).role == old(self).role,
            final(self).clock_origin == old(self).clock_origin,
    {
        let now = millis_since(self.clock_origin);
        self.on_panic_at(now, source_exists, has_mixer)
    }
}

/// The respawn decision for a thread of `role` that did not spend its
/// budget.
pub open spec fn respawn_spec(role: ThreadRole, source_exists: bool, has_mixer: bool) -> RespawnAction {
    if !source_exists {
        RespawnAction::SourceGone
    } else if role == ThreadRole::Poll {
        RespawnAction::RespawnPoll
    } else if has_mixer {
        RespawnAction::RespawnPlay
    } else {
        RespawnAction::NoMixer
    }
}

/// What to do about a thread that panicked without exhausting its
/// budget.
#[derive(Debug, Clone, Copy, PartialEq, Eq, Structural)]
pub enum RespawnAction {
    /// Start a new poll thread for the same heartbeat.
    RespawnPoll,
    /// Start a new play thread for the same heartbeat.
    RespawnPlay,
    /// The source has been removed in the meantime; leave the slot
    /// empty.
    SourceGone,
    /// A play thread cannot be restarted without a mixer; leave the
    /// slot empty and report the broken startup invariant.
    NoMixer,
}

/// Respawn decision for a panicked thread: nothing is restarted for a
/// source that no longer exists; poll threads always restart; play
/// threads restart only when a mixer is open.
pub fn respawn_action(role: ThreadRole, source_exists: bool, has_mixer: bool) -> (r: RespawnAction)
    ensures
        !source_exists ==> r == RespawnAction::SourceGone,
        source_exists && role == ThreadRole::Poll ==> r == RespawnAction::RespawnPoll,
        source_exists && role == ThreadRole::Play && has_mixer ==> r == RespawnAction::RespawnPlay,
        source_exists && role == ThreadRole::Play && !has_mixer ==> r == RespawnAction::NoMixer,
{
    if !source_exists {
        RespawnAction::SourceGone
    } else {
        match role {
            ThreadRole::Poll => RespawnAction::RespawnPoll,
            ThreadRole::Play => if has_mixer {
                RespawnAction::RespawnPlay
            } else {
                RespawnAction::NoMixer
            },
        }
    }
}

/// What the supervisor does about a thread that panicked.
#[derive(Debug, Clone, Copy, PartialEq, Eq, Structural)]
pub enum SupervisorAction {
    /// The thread spent its failure budget: stop every thread and
    /// shut the daemon down with an error.
    Shutdown,
    /// The budget holds: handle the thread as the respawn decision says.
    Recover(RespawnAction),
}

/// The supervisor's answer to a panicked thread: shut down exactly when
/// the failure budget is exhausted, and otherwise take the respawn
/// decision for the thread's role (see `respawn_action`).
pub fn on_thread_panicked(exhausted: bool, role: ThreadRole, source_exists: bool, has_mixer: bool) -> (r:
    SupervisorAction)
    ensures
        (r == SupervisorAction::Shutdown) == exhausted,
        !exhausted ==> r == SupervisorAction::Recover(respawn_spec(role, source_exists, has_mixer)),
{
    if exhausted {
        SupervisorAction::Shutdown
    } else {
        SupervisorAction::Recover(respawn_action(role, source_exists, has_mixer))
    }
}

/// Whether an entry is a play thread for a source named `name`.
pub open spec fn plays_for<H>(st: SupervisedThread<H>, name: Seq<char>) -> bool {
    st.role == ThreadRole::Play && st.source_name@ == name
}

/// Whether an entry survives rebalancing: poll threads always do, play
/// threads only while their source is still wanted.
pub open spec fn keeps_entry<H>(st: SupervisedThread<H>, names: Seq<Seq<char>>) -> bool {
    st.role != ThreadRole::Play || names.contains(st.source_name@)
}

/// Drop play-thread entries whose source is no longer among `names`
/// (the source names wanted now); poll-thread entries and play threads
/// of wanted sources are kept, in order.
pub fn retain_wanted_play_threads<H>(threads: &mut Vec<SupervisedThread<H>>, names: &Vec<String>)
    ensures
        final(threads)@ == old(threads)@.filter(
            |st: SupervisedThread<H>| keeps_entry(st, names@.map_values(|s: String| s@)),
        ),
{
    let ghost wanted = names@.map_values(|s: String| s@);
    let ghost src = threads@;
    let n = threads.len();
    let mut kept: Vec<SupervisedThread<H>> = Vec::new();
    let mut i: usize = 0;
    while threads.len() > 0
        invariant
            src.len() == n,
            i + threads@.len() == src.len(),
            threads@ =~= src.subrange(i as int, src.len() as int),
            kept@ == src.take(i as int).filter(|st: SupervisedThread<H>| keeps_entry(st, wanted)),
            wanted == names@.map_values(|s: String| s@),
        decreases threads.len(),
    {
        let st = threads.remove(0);
        proof {
            reveal(Seq::filter);
            assert(st == src[i as int]);
            assert(src.take(i + 1).drop_last() =~= src.take(i as int));
        }
        let keep = match st.role {
            ThreadRole::Poll => true,
            ThreadRole::Play => contains_name(names, st.source_name.as_str()),
        };
        if keep {
            kept.push(st);
        }
        i = i + 1;
    }
    assert(src.take(src.len() as int) =~= src);
    *threads = kept;
}

/// A (source, heartbeat) pair that should have a live play thread.
#[derive(Debug, Clone)]
pub struct PlayTarget {
    pub source_name: String,
    pub hb_idx: usize,
}

/// Where a newly spawned play thread is recorded: in an existing entry
/// (by index) or in a new entry appended to the table.
#[derive(Debug, Clone, Copy, PartialEq, Eq, Structural)]
pub enum SpawnSlot {
    Reuse(usize),
    Append,
}

/// One play thread to spawn: the index of its target and its slot.
#[derive(Debug, Clone, Copy, PartialEq, Eq, Structural)]
pub struct PlaySpawn {
    pub target: usize,
    pub slot: SpawnSlot,
}

/// Whether an entry is the play thread of heartbeat `hb` of source
/// `name`.
pub open spec fn is_play_entry<H>(st: SupervisedThread<H>, name: Seq<char>, hb: usize) -> bool {
    st.role == ThreadRole::Play && st.source_name@ == name && st.hb_idx == hb
}

/// Some entry for the pair is a play thread that is still running.
pub open spec fn has_live_play<H>(
    threads: Seq<SupervisedThread<H>>,
    live: Seq<bool>,
    name: Seq<char>,
    hb: usize,
) -> bool {
    exists|i: int| 0 <= i < threads.len() && is_play_entry(threads[i], name, hb) && live[i]
}

/// An earlier target names the same pair as target `k`; the thread
/// spawned (or found) for it serves both.
pub open spec fn repeats_earlier(desired: Seq<PlayTarget>, k: int) -> bool {
    exists|j: int|
        0 <= j < k && desired[j].source_name@ == desired[k].source_name@ && desired[j].hb_idx
            == desired[k].hb_idx
}

/// `i` is the first play entry for the pair.
pub open spec fn is_first_play_entry<H>(
    threads: Seq<SupervisedThread<H>>,
    name: Seq<char>,
    hb: usize,
    i: int,
) -> bool {
    &&& 0 <= i < threads.len()
    &&& is_play_entry(threads[i], name, hb)
    &&& forall|j: int| 0 <= j < i ==> !is_play_entry(threads[j], name, hb)
}

/// The slot a new play thread for the pair goes into: the first
/// existing play entry for it, or a new entry.
pub open spec fn spawn_slot<H>(threads: Seq<SupervisedThread<H>>, name: Seq<char>, hb: usize) -> SpawnSlot {
    if exists|i: int| is_first_play_entry(threads, name, hb, i) {
        SpawnSlot::Reuse((choose|i: int| is_first_play_entry(threads, name, hb, i)) as usize)
    } else {
        SpawnSlot::Append
    }
}

/// The play threads to spawn for the first `k` targets, in order: each
/// target that has no running play thread and does not repeat an
/// earlier target.
pub open spec fn spawn_plan<H>(
    threads: Seq<SupervisedThread<H>>,
    live: Seq<bool>,
    desired: Seq<PlayTarget>,
    k: int,
) -> Seq<PlaySpawn>
    decreases k,
{
    if k <= 0 {
        Seq::empty()
    } else {
        let prev = spawn_plan(threads, live, desired, k - 1);
        let t = desired[k - 1];
        if has_live_play(threads, live, t.source_name@, t.hb_idx) || repeats_earlier(desired, k - 1) {
            prev
        } else {
            prev.push(PlaySpawn { target: (k - 1) as usize, slot: spawn_slot(threads, t.source_name@, t.hb_idx) })
        }
    }
}

fn live_play_exists<H>(threads: &Vec<SupervisedThread<H>>, live: &Vec<bool>, name: &String, hb: usize) -> (r: bool)
    requires
        live.len() == threads.len(),
    ensures
        r == has_live_play(threads@, live@, name@, hb),
{
    let mut i: usize = 0;
    while i < threads.len()
        invariant
            live.len() == threads.len(),
            i <= threads.len(),
            forall|j: int| 0 <= j < i ==> !(is_play_entry(threads@[j], name@, hb) && live@[j]),
        decreases threads.len() - i,
    {
        let st = &threads[i];
        if live[i] && st.hb_idx == hb && st.source_name == *name {
            match st.role {
                ThreadRole::Play => {
                    assert(is_play_entry(threads@[i as int], name@, hb) && live@[i as int]);
                    return true;
                },
                ThreadRole::Poll => {},
            }
        }
        i = i + 1;
    }
    false
}

fn earlier_target_repeats(desired: &Vec<PlayTarget>, k: usize) -> (r: bool)
    requires
        k < desired.len(),
    ensures
        r == repeats_earlier(desired@, k as int),
{
    let mut j: usize = 0;
    while j < k
        invariant
            k < desired.len(),
            j <= k,
            forall|m: int|
                0 <= m < j ==> !(desired@[m].source_name@ == desired@[k as int].source_name@
                    && desired@[m].hb_idx == desired@[k as int].hb_idx),
        decreases k - j,
    {
        if desired[j].hb_idx == desired[k].hb_idx && desired[j].source_name == desired[k].source_name {
            return true;
        }
        j = j + 1;
    }
    false
}

proof fn lemma_first_play_entry_unique<H>(
    threads: Seq<SupervisedThread<H>>,
    name: Seq<char>,
    hb: usize,
    i: int,
    k: int,
)
    requires
        is_first_play_entry(threads, name, hb, i),
        is_first_play_entry(threads, name, hb, k),
    ensures
        i == k,
{
    if i < k {
        assert(!is_play_entry(threads[i], name, hb));
    } else if k < i {
        assert(!is_play_entry(threads[k], name, hb));
    }
}

fn find_spawn_slot<H>(threads: &Vec<SupervisedThread<H>>, name: &String, hb: usize) -> (r: SpawnSlot)
    ensures
        r == spawn_slot(threads@, name@, hb),
{
    let mut i: usize = 0;
    while i < threads.len()
        invariant
            i <= threads.len(),
            forall|j: int| 0 <= j < i ==> !is_play_entry(threads@[j], name@, hb),
        decreases threads.len() - i,
    {
        let st = &threads[i];
        if st.hb_idx == hb && st.source_name == *name {
            match st.role {
                ThreadRole::Play => {
                    proof {
                        assert(is_first_play_entry(threads@, name@, hb, i as int));
                        let k = choose|k: int| is_first_play_entry(threads@, name@, hb, k);
                        lemma_first_play_entry_unique(threads@, name@, hb, i as int, k);
                    }
                    return SpawnSlot::Reuse(i);
                },
                ThreadRole::Poll => {},
            }
        }
        i = i + 1;
    }
    assert(!exists|k: int| is_first_play_entry(threads@, name@, hb, k));
    SpawnSlot::Append
}

proof fn lemma_first_play_entry_exists<H>(threads: Seq<SupervisedThread<H>>, name: Seq<char>, hb: usize, n: int)
    requires
        0 <= n <= threads.len(),
        exists|i: int| 0 <= i < n && is_play_entry(threads[i], name, hb),
    ensures
        exists|i: int| is_first_play_entry(threads, name, hb, i),
    decreases n,
{
    if exists|i: int| 0 <= i < n - 1 && is_play_entry(threads[i], name, hb) {
        lemma_first_play_entry_exists(threads, name, hb, n - 1);
    } else {
        assert(is_first_play_entry(threads, name, hb, n - 1));
    }
}

/// What a planned spawn must be: its target is a pair with no running
/// play thread, and its slot is the first play entry of that pair, or a
/// new entry when the pair has none.
spec fn spawn_fits<H>(threads: Seq<SupervisedThread<H>>, live: Seq<bool>, desired: Seq<PlayTarget>, s: PlaySpawn) -> bool {
    let t = s.target as int;
    let name = desired[t].source_name@;
    let hb = desired[t].hb_idx;
    &&& t < desired.len()
    &&& forall|i: int|
        #![trigger threads[i]]
        0 <= i < threads.len() && threads[i].role == ThreadRole::Play && threads[i].source_name@ == name
            && threads[i].hb_idx == hb ==> !live[i]
    &&& match s.slot {
        SpawnSlot::Reuse(i) => {
            &&& i < threads.len()
            &&& threads[i as int].role == ThreadRole::Play
            &&& threads[i as int].source_name@ == name
            &&& threads[i as int].hb_idx == hb
            &&& forall|j: int|
                #![trigger threads[j]]
                0 <= j < i ==> !(threads[j].role == ThreadRole::Play && threads[j].source_name@ == name
                    && threads[j].hb_idx == hb)
        },
        SpawnSlot::Append => forall|i: int|
            #![trigger threads[i]]
            0 <= i < threads.len() ==> !(threads[i].role == ThreadRole::Play && threads[i].source_name@ == name
                && threads[i].hb_idx == hb),
    }
}

/// Whether target `t` needs a new thread: no play thread for its pair is
/// running and no earlier target names the same pair.
spec fn needs_spawn<H>(threads: Seq<SupervisedThread<H>>, live: Seq<bool>, desired: Seq<PlayTarget>, t: int) -> bool {
    &&& forall|i: int|
        #![trigger threads[i]]
        0 <= i < threads.len() && threads[i].role == ThreadRole::Play && threads[i].source_name@
            == desired[t].source_name@ && threads[i].hb_idx == desired[t].hb_idx ==> !live[i]
    &&& forall|j: int|
        #![trigger desired[j]]
        0 <= j < t ==> !(desired[j].source_name@ == desired[t].source_name@ && desired[j].hb_idx
            == desired[t].hb_idx)
}

proof fn lemma_spawn_plan_prefix<H>(
    threads: Seq<SupervisedThread<H>>,
    live: Seq<bool>,
    desired: Seq<PlayTarget>,
    k: int,
)
    requires
        live.len() == threads.len(),
        0 <= k <= desired.len(),
        desired.len() <= usize::MAX,
        threads.len() <= usize::MAX,
    ensures
        forall|p: int|
            0 <= p < spawn_plan(threads, live, desired, k).len() ==> (#[trigger] spawn_plan(
                threads,
                live,
                desired,
                k,
            )[p]).target < k && spawn_fits(threads, live, desired, spawn_plan(threads, live, desired, k)[p]),
        forall|p: int, q: int|
            0 <= p < q < spawn_plan(threads, live, desired, k).len() ==> (#[trigger] spawn_plan(
                threads,
                live,
                desired,
                k,
            )[p]).target < (#[trigger] spawn_plan(threads, live, desired, k)[q]).target,
        forall|t: int|
            0 <= t < k ==> ((exists|p: int|
                0 <= p < spawn_plan(threads, live, desired, k).len() && spawn_plan(threads, live, desired, k)[p].target
                    == t) <==> #[trigger] needs_spawn(threads, live, desired, t)),
    decreases k,
{
    if k > 0 {
        lemma_spawn_plan_prefix(threads, live, desired, k - 1);
        let prev = spawn_plan(threads, live, desired, k - 1);
        let plan = spawn_plan(threads, live, desired, k);
        let t = desired[k - 1];
        let name = t.source_name@;
        let hb = t.hb_idx;
        let cond = has_live_play(threads, live, name, hb) || repeats_earlier(desired, k - 1);
        assert(needs_spawn(threads, live, desired, k - 1) <==> !cond) by {
            if has_live_play(threads, live, name, hb) {
                let i = choose|i: int| 0 <= i < threads.len() && is_play_entry(threads[i], name, hb) && live[i];
                assert(threads[i] == threads[i]);
            }
            if repeats_earlier(desired, k - 1) {
                let j = choose|j: int|
                    0 <= j < k - 1 && desired[j].source_name@ == name && desired[j].hb_idx == hb;
                assert(desired[j] == desired[j]);
            }
        }
        if cond {
            assert(plan == prev);
            assert forall|p: int| 0 <= p < plan.len() implies plan[p].target != k - 1 by {}
        } else {
            let slot = spawn_slot(threads, name, hb);
            let s = PlaySpawn { target: (k - 1) as usize, slot };
            assert(plan == prev.push(s));
            assert(spawn_fits(threads, live, desired, s)) by {
                assert forall|i: int|
                    #![trigger threads[i]]
                    0 <= i < threads.len() && threads[i].role == ThreadRole::Play && threads[i].source_name@ == name
                        && threads[i].hb_idx == hb implies !live[i] by {
                    if live[i] {
                        assert(is_play_entry(threads[i], name, hb) && live[i]);
                    }
                }
                if exists|i: int| is_first_play_entry(threads, name, hb, i) {
                    let i = choose|i: int| is_first_play_entry(threads, name, hb, i);
                    assert(slot == SpawnSlot::Reuse(i as usize));
                    assert forall|j: int| 0 <= j < i implies !(threads[j].role == ThreadRole::Play
                        && threads[j].source_name@ == name && threads[j].hb_idx == hb) by {
                        assert(!is_play_entry(threads[j], name, hb));
                    }
                } else {
                    assert(slot == SpawnSlot::Append);
                    assert forall|i: int| 0 <= i < threads.len() implies !(threads[i].role == ThreadRole::Play
                        && threads[i].source_name@ == name && threads[i].hb_idx == hb) by {
                        if is_play_entry(threads[i], name, hb) {
                            lemma_first_play_entry_exists(threads, name, hb, threads.len() as int);
                        }
                    }
                }
            }
            assert(plan[prev.len() as int] == s);
            assert forall|p: int| 0 <= p < prev.len() implies plan[p] == prev[p] by {}
            assert forall|t2: int| 0 <= t2 < k implies ((exists|p: int|
                0 <= p < plan.len() && plan[p].target == t2) <==> #[trigger] needs_spawn(
                threads,
                live,
                desired,
                t2,
            )) by {
                if t2 < k - 1 {
                    if exists|p: int| 0 <= p < plan.len() && plan[p].target == t2 {
                        let p = choose|p: int| 0 <= p < plan.len() && plan[p].target == t2;
                        assert(p < prev.len());
                        assert(prev[p].target == t2);
                    }
                    if exists|p: int| 0 <= p < prev.len() && prev[p].target == t2 {
                        let p = choose|p: int| 0 <= p < prev.len() && prev[p].target == t2;
                        assert(plan[p].target == t2);
                    }
                } else {
                    assert(plan[prev.len() as int].target == t2);
                }
            }
        }
    }
}

/// The plan of play threads to spawn is exactly what the pairs need:
/// it names, in order, each target whose pair has no running play thread
/// and that no earlier target already names, and nothing else; each new
/// thread is recorded in the first existing entry that is a play thread
/// of that same source and heartbeat, or in a new entry when there is
/// none (never in a poll thread's entry, nor in another pair's).
pub proof fn lemma_play_spawn_plan<H>(
    threads: Seq<SupervisedThread<H>>,
    live: Seq<bool>,
    desired: Seq<PlayTarget>,
)
    requires
        live.len() == threads.len(),
        desired.len() <= usize::MAX,
        threads.len() <= usize::MAX,
    ensures
        forall|p: int|
            0 <= p < spawn_plan(threads, live, desired, desired.len() as int).len() ==> ({
                let s = #[trigger] spawn_plan(threads, live, desired, desired.len() as int)[p];
                let t = s.target as int;
                let name = desired[t].source_name@;
                let hb = desired[t].hb_idx;
                &&& t < desired.len()
                &&& forall|i: int|
                    #![trigger threads[i]]
                    0 <= i < threads.len() && threads[i].role == ThreadRole::Play && threads[i].source_name@ == name
                        && threads[i].hb_idx == hb ==> !live[i]
                &&& match s.slot {
                    SpawnSlot::Reuse(i) => {
                        &&& i < threads.len()
                        &&& threads[i as int].role == ThreadRole::Play
                        &&& threads[i as int].source_name@ == name
                        &&& threads[i as int].hb_idx == hb
                        &&& forall|j: int|
                            #![trigger threads[j]]
                            0 <= j < i ==> !(threads[j].role == ThreadRole::Play && threads[j].source_name@ == name
                                && threads[j].hb_idx == hb)
                    },
                    SpawnSlot::Append => forall|i: int|
                        #![trigger threads[i]]
                        0 <= i < threads.len() ==> !(threads[i].role == ThreadRole::Play && threads[i].source_name@
                            == name && threads[i].hb_idx == hb),
                }
            }),
        forall|p: int, q: int|
            0 <= p < q < spawn_plan(threads, live, desired, desired.len() as int).len() ==> (#[trigger] spawn_plan(
                threads,
                live,
                desired,
                desired.len() as int,
            )[p]).target < (#[trigger] spawn_plan(threads, live, desired, desired.len() as int)[q]).target,
        forall|t: int|
            #![trigger desired[t]]
            0 <= t < desired.len() ==> ((exists|p: int|
                0 <= p < spawn_plan(threads, live, desired, desired.len() as int).len() && spawn_plan(
                    threads,
                    live,
                    desired,
                    desired.len() as int,
                )[p].target == t) <==> {
                &&& forall|i: int|
                    #![trigger threads[i]]
                    0 <= i < threads.len() && threads[i].role == ThreadRole::Play && threads[i].source_name@
                        == desired[t].source_name@ && threads[i].hb_idx == desired[t].hb_idx ==> !live[i]
                &&& forall|j: int|
                    #![trigger desired[j]]
                    0 <= j < t ==> !(desired[j].source_name@ == desired[t].source_name@ && desired[j].hb_idx
                        == desired[t].hb_idx)
            }),
{
    let plan = spawn_plan(threads, live, desired, desired.len() as int);
    lemma_spawn_plan_prefix(threads, live, desired, desired.len() as int);
    assert forall|t: int| #![trigger desired[t]] 0 <= t < desired.len() implies ((exists|p: int|
        0 <= p < plan.len() && plan[p].target == t) <==> needs_spawn(threads, live, desired, t)) by {}
}

/// Plan which play threads to spawn so that every wanted (source,
/// heartbeat) pair has a running play thread.  `live[i]` tells whether
/// the thread of entry `i` is still running.  A pair that already has
/// a running play thread, or that repeats an earlier pair, needs
/// nothing; any other pair gets a new thread, recorded in its first
/// existing play entry or in a new entry.
pub fn plan_play_spawns<H>(
    threads: &Vec<SupervisedThread<H>>,
    live: &Vec<bool>,
    desired: &Vec<PlayTarget>,
) -> (plan: Vec<PlaySpawn>)
    requires
        live.len() == threads.len(),
    ensures
        plan@ == spawn_plan(threads@, live@, desired@, desired@.len() as int),
{
    let mut plan: Vec<PlaySpawn> = Vec::new();
    let mut k: usize = 0;
    while k < desired.len()
        invariant
            live.len() == threads.len(),
            k <= desired.len(),
            plan@ == spawn_plan(threads@, live@, desired@, k as int),
        decreases desired.len() - k,
    {
        let t = &desired[k];
        let running = live_play_exists(threads, live, &t.source_name, t.hb_idx);
        let repeated = earlier_target_repeats(desired, k);
        if !running && !repeated {
            let slot = find_spawn_slot(threads, &t.source_name, t.hb_idx);
            plan.push(PlaySpawn { target: k, slot });
        }
        k = k + 1;
    }
    plan
}

/// Twice the delay, capped at `MAX_BACKOFF_MS`.
pub open spec fn doubled_delay(d: u64) -> u64 {
    if 2 * d <= MAX_BACKOFF_MS {
        (2 * d) as u64
    } else {
        MAX_BACKOFF_MS
    }
}

/// Delay between attempts, doubling after each failure up to a cap.
#[derive(Debug, Clone, Copy, PartialEq, Eq, Structural)]
pub struct Backoff {
    pub delay_ms: u64,
}

impl Backoff {
    /// The delay stays between the initial delay and the cap.
    pub open spec fn wf(self) -> bool {
        INITIAL_BACKOFF_MS <= self.delay_ms <= MAX_BACKOFF_MS
    }

    /// The initial delay.
    pub fn initial() -> (r: Backoff)
        ensures
            r.delay_ms == INITIAL_BACKOFF_MS,
            r.wf(),
    {
        Backoff { delay_ms: INITIAL_BACKOFF_MS }
    }

    /// Double the delay, up to the cap.
    pub fn advance(&mut self)
        requires
            old(self).wf(),
        ensures
            final(self).wf(),
            final(self).delay_ms == doubled_delay(old(self).delay_ms),
    {
        let doubled = self.delay_ms * 2;
        self.delay_ms = if doubled <= MAX_BACKOFF_MS { doubled } else { MAX_BACKOFF_MS };
    }

    /// Back to the initial delay.
    pub fn reset(&mut self)
        ensures
            final(self).delay_ms == INITIAL_BACKOFF_MS,
            final(self).wf(),
    {
        self.delay_ms = INITIAL_BACKOFF_MS;
    }
}

/// Exponential-backoff state for re-establishing a failed audio stream.
#[derive(Debug, Clone, Copy, PartialEq, Eq, Structural)]
pub struct AudioRecoveryState {
    pub backoff: Backoff,
    pub next_at: Option<u64>,
    pub attempts: u64,
}

impl AudioRecoveryState {
    /// The backoff stays within its bounds.
    pub open spec fn wf(self) -> bool {
        self.backoff.wf()
    }

    /// Whether a retry is due at `now`.
    pub open spec fn retry_due(self, now: u64) -> bool {
        match self.next_at {
            None => true,
            Some(t) => now >= t,
        }
    }

    /// The state after a failed attempt at `now`.
    pub open spec fn after_failure(self, now: u64) -> AudioRecoveryState {
        AudioRecoveryState {
            backoff: Backoff { delay_ms: doubled_delay(self.backoff.delay_ms) },
            next_at: Some((now + self.backoff.delay_ms) as u64),
            attempts: self.attempts,
        }
    }

    /// The state after a successful attempt.
    pub open spec fn after_success(self) -> AudioRecoveryState {
        AudioRecoveryState {
            backoff: Backoff { delay_ms: INITIAL_BACKOFF_MS },
            next_at: None,
            attempts: self.attempts,
        }
    }

    /// A healthy stream: initial backoff, no retry scheduled.
    pub fn new() -> (r: AudioRecoveryState)
        ensures
            r == recovery_after(Seq::empty()),
            r.wf(),
            r.backoff.delay_ms == INITIAL_BACKOFF_MS,
            r.next_at.is_none(),
            r.attempts == 0,
    {
        AudioRecoveryState { backoff: Backoff::initial(), next_at: None, attempts: 0 }
    }

    /// True when no retry is scheduled or its time has come.
    pub fn should_try(&self, now: u64) -> (r: bool)
        ensures
            r == self.retry_due(now),
    {
        match self.next_at {
            None => true,
            Some(t) => now >= t,
        }
    }

    /// Count one more recovery attempt.
    pub fn note_attempt(&mut self)
        requires
            old(self).attempts < u64::MAX,
        ensures
            final(self).attempts == old(self).attempts + 1,
            final(self).backoff == old(self).backoff,
            final(self).next_at == old(self).next_at,
    {
        self.attempts = self.attempts + 1;
    }

    /// Reset to "stream healthy" after a successful recovery; the
    /// attempt count is kept.
    pub fn on_success(&mut self)
        ensures
            final(self).wf(),
            *final(self) == old(self).after_success(),
    {
        self.backoff.reset();
        self.next_at = None;
    }

    /// Schedule the next retry one backoff delay after `now`, then
    /// double the delay up to the cap.
    pub fn on_failure(&mut self, now: u64)
        requires
            old(self).wf(),
            now <= u64::MAX - old(self).backoff.delay_ms,
        ensures
            final(self).wf(),
            *final(self) == old(self).after_failure(now),
    {
        self.next_at = Some(now + self.backoff.delay_ms);
        self.backoff.advance();
    }
}

/// After a failed recovery at `now`, a retry is due exactly from one
/// backoff delay later; after a successful one, a retry is due at once.
pub proof fn lemma_retry_waits_for_backoff(s: AudioRecoveryState, now: u64, later: u64)
    requires
        s.wf(),
        now <= u64::MAX - s.backoff.delay_ms,
    ensures
        s.after_failure(now).wf(),
        s.after_failure(now).retry_due(later) <==> later >= now + s.backoff.delay_ms,
        s.after_success().retry_due(later),
{
}

/// One outcome of a stream-recovery attempt.
#[derive(Debug, Clone, Copy, PartialEq, Eq, Structural)]
pub enum RecoveryEvent {
    /// The attempt failed at this time (milliseconds).
    Failed(u64),
    /// The attempt succeeded.
    Succeeded,
}

/// The recovery state after `events`, starting from a healthy stream
/// (initial delay, no retry scheduled, no attempts).
pub open spec fn recovery_after(events: Seq<RecoveryEvent>) -> AudioRecoveryState
    decreases events.len(),
{
    if events.len() == 0 {
        AudioRecoveryState { backoff: Backoff { delay_ms: INITIAL_BACKOFF_MS }, next_at: None, attempts: 0 }
    } else {
        let prev = recovery_after(events.drop_last());
        match events.last() {
            RecoveryEvent::Failed(now) => prev.after_failure(now),
            RecoveryEvent::Succeeded => prev.after_success(),
        }
    }
}

/// Whatever failures and successes a stream's recovery has been through:
/// the delay stays between one second and the one-minute cap; a failure
/// at `now` schedules the next retry one delay later and doubles the
/// delay up to the cap; a success resets the delay and makes a retry
/// due at once.
pub proof fn lemma_recovery_over_any_history(events: Seq<RecoveryEvent>, now: u64, later: u64)
    requires
        now <= u64::MAX - recovery_after(events).backoff.delay_ms,
    ensures
        recovery_after(events).wf(),
        ({
            let r = recovery_after(events);
            &&& r.after_failure(now).next_at == Some((now + r.backoff.delay_ms) as u64)
            &&& r.after_failure(now).backoff.delay_ms == (if 2 * r.backoff.delay_ms <= MAX_BACKOFF_MS {
                2 * r.backoff.delay_ms
            } else {
                MAX_BACKOFF_MS as int
            })
            &&& r.after_failure(now).retry_due(later) <==> later >= now + r.backoff.delay_ms
            &&& r.after_success().backoff.delay_ms == INITIAL_BACKOFF_MS
            &&& r.after_success().next_at is None
            &&& r.after_success().retry_due(later)
        }),
{
    lemma_recovery_wf(events);
}

proof fn lemma_recovery_wf(events: Seq<RecoveryEvent>)
    ensures
        recovery_after(events).wf(),
    decreases events.len(),
{
    if events.len() > 0 {
        lemma_recovery_wf(events.drop_last());
    }
}

/// Whether the thread-health check runs on this tick.
pub fn is_supervision_tick(tick: u32) -> (r: bool)
    ensures
        r == (tick % SUPERVISION_CHECK_INTERVAL == 0),
{
    tick % SUPERVISION_CHECK_INTERVAL == 0
}

/// Whether audio health stats are reported on this tick (never on the
/// first tick).
pub fn is_health_log_tick(tick: u32) -> (r: bool)
    ensures
        r == (tick > 0 && tick % HEALTH_LOG_INTERVAL == 0),
{
    tick > 0 && tick % HEALTH_LOG_INTERVAL == 0
}

/// The tick after `tick`, wrapping around at `u32::MAX`.
pub fn next_tick(tick: u32) -> (r: u32)
    ensures
        r == if tick == u32::MAX { 0 } else { (tick + 1) as u32 },
{
    if tick == u32::MAX { 0 } else { tick + 1 }
}

} // verus!
