//! The mixer's slot table: which graph plays in which slot, how a
//! replacement crossfades from the old graph, and how stream errors
//! are throttled.  `G` is the renderer's graph type.

use vstd::prelude::*;

verus! {

/// Number of stream errors after which the error callback throttles
/// and the stream is considered failed.
pub const STREAM_ERROR_THRESHOLD: u64 = 10;

/// The graph being faded out of a slot.
pub struct Crossfade<G> {
    pub graph: G,
    pub remaining_frames: usize,
    pub total_frames: usize,
}

/// One occupied slot: the graph playing now and, during a replacement,
/// the graph fading out.
pub struct Slot<G> {
    pub graph: G,
    pub prev: Option<Crossfade<G>>,
}

/// Whether a slot is occupied.
pub open spec fn occupied<G>(s: Option<Slot<G>>) -> bool {
    s is Some
}

/// The first empty slot, if any.
pub open spec fn is_first_empty<G>(slots: Seq<Option<Slot<G>>>, i: int) -> bool {
    &&& 0 <= i < slots.len()
    &&& slots[i] is None
    &&& forall|j: int| 0 <= j < i ==> slots[j] is Some
}

/// The number of occupied slots among the first `k`.
pub open spec fn count_occupied<G>(slots: Seq<Option<Slot<G>>>, k: int) -> nat
    decreases k,
{
    if k <= 0 || k > slots.len() {
        0
    } else {
        count_occupied(slots, k - 1) + if slots[k - 1] is Some { 1nat } else { 0nat }
    }
}

/// The number of frames a replacement crossfades over: at least one.
pub open spec fn crossfade_len(frames: usize) -> usize {
    if frames == 0 { 1 } else { frames }
}

/// The mixer's slots, indexed by slot id.
pub struct SlotTable<G> {
    pub slots: Vec<Option<Slot<G>>>,
}

impl<G> SlotTable<G> {
    /// An empty table.
    pub fn new() -> (r: SlotTable<G>)
        ensures
            r.slots@.len() == 0,
    {
        SlotTable { slots: Vec::new() }
    }

    /// Add a graph and return its slot id: the first empty slot is
    /// reused, otherwise a new slot is appended.
    pub fn add(&mut self, graph: G) -> (id: usize)
        ensures
            (exists|i: int| is_first_empty(old(self).slots@, i)) ==> {
                &&& is_first_empty(old(self).slots@, id as int)
                &&& final(self).slots@ == old(self).slots@.update(id as int, Some(Slot { graph, prev: None }))
            },
            !(exists|i: int| is_first_empty(old(self).slots@, i)) ==> {
                &&& id == old(self).slots@.len()
                &&& final(self).slots@ == old(self).slots@.push(Some(Slot { graph, prev: None }))
            },
    {
        let mut i: usize = 0;
        while i < self.slots.len()
            invariant
                self.slots@ == old(self).slots@,
                i <= self.slots@.len(),
                forall|j: int| 0 <= j < i ==> self.slots@[j] is Some,
            decreases self.slots@.len() - i,
        {
            if self.slots[i].is_none() {
                proof {
                    assert(is_first_empty(old(self).slots@, i as int));
                    assert forall|k: int| is_first_empty(old(self).slots@, k) implies k == i by {
                        if k < i {
                        } else if k > i {
                            assert(old(self).slots@[i as int] is Some);
                        }
                    }
                }
                self.slots.set(i, Some(Slot { graph, prev: None }));
                return i;
            }
            i = i + 1;
        }
        self.slots.push(Some(Slot { graph, prev: None }));
        self.slots.len() - 1
    }

    /// Silence the slot `id` (no effect for an id past the table).
    pub fn remove(&mut self, id: usize)
        ensures
            id < old(self).slots@.len() ==> final(self).slots@ == old(self).slots@.update(
                id as int,
                None,
            ),
            id >= old(self).slots@.len() ==> final(self).slots@ == old(self).slots@,
    {
        if id < self.slots.len() {
            self.slots.set(id, None);
        }
    }

    /// Replace the graph in slot `id`, crossfading from the graph that
    /// played there (if any) over `crossfade_frames` frames (at least
    /// one).  A slot past the table grows the table with empty slots.
    pub fn replace(&mut self, id: usize, graph: G, crossfade_frames: usize)
        ensures
            id < old(self).slots@.len() ==> final(self).slots@ == old(self).slots@.update(
                id as int,
                Some(
                    Slot {
                        graph,
                        prev: match old(self).slots@[id as int] {
                            Some(s) => Some(
                                Crossfade {
                                    graph: s.graph,
                                    remaining_frames: crossfade_len(crossfade_frames),
                                    total_frames: crossfade_len(crossfade_frames),
                                },
                            ),
                            None => None,
                        },
                    },
                ),
            ),
            id >= old(self).slots@.len() ==> {
                &&& final(self).slots@.len() == id + 1
                &&& forall|j: int| 0 <= j < old(self).slots@.len() ==> final(self).slots@[j] == old(self).slots@[j]
                &&& forall|j: int| old(self).slots@.len() <= j < id ==> final(self).slots@[j] is None
                &&& final(self).slots@[id as int] == Some(Slot { graph, prev: None })
            },
    {
        let frames = if crossfade_frames == 0 { 1 } else { crossfade_frames };
        if id < self.slots.len() {
            let old_slot = self.slots.remove(id);
            let prev = match old_slot {
                Some(s) => Some(Crossfade { graph: s.graph, remaining_frames: frames, total_frames: frames }),
                None => None,
            };
            self.slots.insert(id, Some(Slot { graph, prev }));
            assert(self.slots@ =~= old(self).slots@.update(
                id as int,
                Some(
                    Slot {
                        graph,
                        prev: match old(self).slots@[id as int] {
                            Some(s) => Some(
                                Crossfade {
                                    graph: s.graph,
                                    remaining_frames: crossfade_len(crossfade_frames),
                                    total_frames: crossfade_len(crossfade_frames),
                                },
                            ),
                            None => None,
                        },
                    },
                ),
            ));
        } else {
            while self.slots.len() < id
                invariant
                    old(self).slots@.len() <= self.slots@.len() <= id,
                    forall|j: int| 0 <= j < old(self).slots@.len() ==> self.slots@[j] == old(self).slots@[j],
                    forall|j: int| old(self).slots@.len() <= j < self.slots@.len() ==> self.slots@[j] is None,
                decreases id - self.slots.len(),
            {
                self.slots.push(None);
            }
            self.slots.push(Some(Slot { graph, prev: None }));
        }
    }

    /// Remove every graph.
    pub fn clear(&mut self)
        ensures
            final(self).slots@.len() == 0,
    {
        self.slots.clear();
    }

    /// Number of occupied slots.
    pub fn active_count(&self) -> (r: usize)
        ensures
            r == count_occupied(self.slots@, self.slots@.len() as int),
    {
        let mut n: usize = 0;
        let mut i: usize = 0;
        while i < self.slots.len()
            invariant
                i <= self.slots@.len(),
                n == count_occupied(self.slots@, i as int),
                n <= i,
            decreases self.slots@.len() - i,
        {
            if self.slots[i].is_some() {
                n = n + 1;
            }
            i = i + 1;
        }
        n
    }
}

impl<G> Crossfade<G> {
    /// Advance the fade by one frame; returns whether it has finished
    /// (no frames remain).
    pub fn step(&mut self) -> (done: bool)
        ensures
            final(self).graph == old(self).graph,
            final(self).total_frames == old(self).total_frames,
            final(self).remaining_frames == if old(self).remaining_frames > 0 {
                (old(self).remaining_frames - 1) as usize
            } else {
                0
            },
            done == (final(self).remaining_frames == 0),
    {
        if self.remaining_frames > 0 {
            self.remaining_frames = self.remaining_frames - 1;
        }
        self.remaining_frames == 0
    }
}

/// What the stream-error callback does about one more error.
#[derive(Debug, Clone, Copy, PartialEq, Eq, Structural)]
pub struct ErrorReaction {
    /// The error count including this error.
    pub count: u64,
    /// Whether this error is logged individually.
    pub log: bool,
    /// Whether the stream is now considered failed (and the callback
    /// throttles).
    pub fail: bool,
}

/// The reaction to a stream error when `previous` errors came before
/// it: the first `STREAM_ERROR_THRESHOLD` errors are logged, and from
/// the threshold on the stream is marked failed.  The counter wraps
/// like the atomic it mirrors.
pub fn on_stream_error(previous: u64) -> (r: ErrorReaction)
    ensures
        r.count == if previous == u64::MAX { 0 } else { (previous + 1) as u64 },
        r.log == (r.count <= STREAM_ERROR_THRESHOLD),
        r.fail == (r.count >= STREAM_ERROR_THRESHOLD),
{
    let count = if previous == u64::MAX { 0 } else { previous + 1 };
    ErrorReaction { count, log: count <= STREAM_ERROR_THRESHOLD, fail: count >= STREAM_ERROR_THRESHOLD }
}

/// When every slot before `id` is occupied, silencing slot `id` makes
/// it the slot the next graph added goes into.
pub proof fn lemma_removed_slot_is_reused_first<G>(slots: Seq<Option<Slot<G>>>, id: int)
    requires
        0 <= id < slots.len(),
        forall|j: int| 0 <= j < id ==> slots[j] is Some,
    ensures
        is_first_empty(slots.update(id, None), id),
        forall|i: int| is_first_empty(slots.update(id, None), i) ==> i == id,
{
    let after = slots.update(id, None);
    assert forall|i: int| is_first_empty(after, i) implies i == id by {
        if i < id {
            assert(after[i] == slots[i]);
        } else if i > id {
            assert(after[id] is None);
        }
    }
}

} // verus!
