//! A map from names to values that keeps its entries in insertion
//! order, with at most one entry per name.

use vstd::prelude::*;
use crate::text::{str_eq, owned};

verus! {

/// Entries keyed by name, in insertion order; no name occurs twice.
pub struct NamedMap<T> {
    entries: Vec<(String, T)>,
}

/// Whether some entry carries the name `k`.
pub open spec fn has_key<T>(entries: Seq<(String, T)>, k: Seq<char>) -> bool {
    exists|i: int| 0 <= i < entries.len() && entries[i].0@ == k
}

/// No name occurs twice among the entries.
pub open spec fn keys_unique<T>(entries: Seq<(String, T)>) -> bool {
    forall|i: int, j: int| 0 <= i < j < entries.len() ==> entries[i].0@ != entries[j].0@
}

/// The map the entries stand for.
pub open spec fn entries_map<T>(entries: Seq<(String, T)>) -> Map<Seq<char>, T> {
    Map::new(
        |k: Seq<char>| has_key(entries, k),
        |k: Seq<char>| entries[choose|i: int| 0 <= i < entries.len() && entries[i].0@ == k].1,
    )
}

/// An entry's value is what the map holds under its name.
pub proof fn lemma_entry_in_map<T>(entries: Seq<(String, T)>, i: int)
    requires
        keys_unique(entries),
        0 <= i < entries.len(),
    ensures
        entries_map(entries).contains_key(entries[i].0@),
        entries_map(entries)[entries[i].0@] == entries[i].1,
{
    let k = entries[i].0@;
    assert(has_key(entries, k));
    let c = choose|c: int| 0 <= c < entries.len() && entries[c].0@ == k;
    if c != i {
        if c < i {
            assert(entries[c].0@ != entries[i].0@);
        } else {
            assert(entries[i].0@ != entries[c].0@);
        }
    }
}

/// Replacing the value at one position keeps the names unique and
/// stores the new value under that position's name.
pub proof fn lemma_update_value<T>(entries: Seq<(String, T)>, i: int, v: T)
    requires
        keys_unique(entries),
        0 <= i < entries.len(),
    ensures
        keys_unique(entries.update(i, (entries[i].0, v))),
        entries_map(entries.update(i, (entries[i].0, v))) == entries_map(entries).insert(entries[i].0@, v),
{
    let after = entries.update(i, (entries[i].0, v));
    lemma_entry_in_map(entries, i);
    assert forall|a: int, b: int| 0 <= a < b < after.len() implies after[a].0@ != after[b].0@ by {
        assert(after[a].0 == entries[a].0);
        assert(after[b].0 == entries[b].0);
    }
    assert forall|key: Seq<char>| has_key(after, key) == has_key(entries, key) by {
        if has_key(entries, key) {
            let w = choose|w: int| 0 <= w < entries.len() && entries[w].0@ == key;
            assert(after[w].0 == entries[w].0);
        }
        if has_key(after, key) {
            let w = choose|w: int| 0 <= w < after.len() && after[w].0@ == key;
            assert(after[w].0 == entries[w].0);
        }
    }
    assert forall|key: Seq<char>| #[trigger] entries_map(after).contains_key(key) implies entries_map(after)[key]
        == entries_map(entries).insert(entries[i].0@, v)[key] by {
        let w = choose|w: int| 0 <= w < after.len() && after[w].0@ == key;
        lemma_entry_in_map(after, w);
        if w != i {
            lemma_entry_in_map(entries, w);
        }
    }
    assert(entries_map(after) =~= entries_map(entries).insert(entries[i].0@, v));
}

impl<T> NamedMap<T> {
    /// The entries, in order.
    pub closed spec fn entries(&self) -> Seq<(String, T)> {
        self.entries@
    }

    /// The map from names to values.
    pub open spec fn view(&self) -> Map<Seq<char>, T> {
        entries_map(self.entries())
    }

    /// Names are unique.
    pub open spec fn wf(&self) -> bool {
        keys_unique(self.entries())
    }

    /// An empty map.
    pub fn new() -> (r: NamedMap<T>)
        ensures
            r.wf(),
            r.entries() == Seq::<(String, T)>::empty(),
            r.view() == Map::<Seq<char>, T>::empty(),
    {
        let r = NamedMap { entries: Vec::new() };
        assert(r.view() =~= Map::<Seq<char>, T>::empty());
        r
    }

    /// Number of entries.
    pub fn len(&self) -> (r: usize)
        ensures
            r == self.entries().len(),
    {
        self.entries.len()
    }

    /// The entry at position `i`.
    pub fn entry(&self, i: usize) -> (r: &(String, T))
        requires
            i < self.entries().len(),
        ensures
            *r == self.entries()[i as int],
    {
        &self.entries[i]
    }

    /// Position of the entry named `k`, if any.
    pub fn position(&self, k: &str) -> (r: Option<usize>)
        requires
            self.wf(),
        ensures
            match r {
                Some(i) => i < self.entries().len() && self.entries()[i as int].0@ == k@,
                None => !has_key(self.entries(), k@),
            },
            r is Some <==> self.view().contains_key(k@),
    {
        let mut i: usize = 0;
        while i < self.entries.len()
            invariant
                i <= self.entries@.len(),
                forall|j: int| 0 <= j < i ==> self.entries@[j].0@ != k@,
            decreases self.entries@.len() - i,
        {
            if str_eq(self.entries[i].0.as_str(), k) {
                return Some(i);
            }
            i = i + 1;
        }
        None
    }

    /// Mutable access to the value at position `i`; its name stays.
    pub fn value_at_mut(&mut self, i: usize) -> (r: &mut T)
        requires
            i < old(self).entries().len(),
        ensures
            *r == old(self).entries()[i as int].1,
            final(self).entries() == old(self).entries().update(
                i as int,
                (old(self).entries()[i as int].0, *final(r)),
            ),
    {
        &mut self.entries[i].1
    }

    /// Whether an entry is named `k`.
    pub fn contains_key(&self, k: &str) -> (r: bool)
        requires
            self.wf(),
        ensures
            r == self.view().contains_key(k@),
    {
        self.position(k).is_some()
    }

    /// The value named `k`, if any.
    pub fn get(&self, k: &str) -> (r: Option<&T>)
        requires
            self.wf(),
        ensures
            match r {
                Some(v) => self.view().contains_key(k@) && *v == self.view()[k@],
                None => !self.view().contains_key(k@),
            },
    {
        match self.position(k) {
            Some(i) => {
                proof {
                    lemma_entry_in_map(self.entries@, i as int);
                }
                Some(&self.entries[i].1)
            },
            None => None,
        }
    }

    /// Store `v` under `k`: an existing entry keeps its position, a new
    /// one is appended.  Returns the previous value, if any.
    pub fn insert(&mut self, k: String, v: T) -> (r: Option<T>)
        requires
            old(self).wf(),
        ensures
            final(self).wf(),
            final(self).view() == old(self).view().insert(k@, v),
            match r {
                Some(p) => old(self).view().contains_key(k@) && p == old(self).view()[k@],
                None => !old(self).view().contains_key(k@),
            },
    {
        let ghost before = self.entries@;
        match self.position(k.as_str()) {
            Some(i) => {
                let (name, prev) = self.entries.remove(i);
                self.entries.insert(i, (name, v));
                proof {
                    lemma_entry_in_map(before, i as int);
                    assert(self.entries@ =~= before.update(i as int, (before[i as int].0, v)));
                    assert forall|a: int, b: int| 0 <= a < b < self.entries@.len() implies self.entries@[a].0@
                        != self.entries@[b].0@ by {
                        assert(self.entries@[a].0 == before[a].0);
                        assert(self.entries@[b].0 == before[b].0);
                    }
                    assert forall|key: Seq<char>| has_key(self.entries@, key) == has_key(before, key) by {
                        if has_key(before, key) {
                            let w = choose|w: int| 0 <= w < before.len() && before[w].0@ == key;
                            assert(self.entries@[w].0 == before[w].0);
                        }
                        if has_key(self.entries@, key) {
                            let w = choose|w: int| 0 <= w < self.entries@.len() && self.entries@[w].0@ == key;
                            assert(self.entries@[w].0 == before[w].0);
                        }
                    }
                    assert forall|key: Seq<char>| #[trigger] entries_map(self.entries@).contains_key(key) implies entries_map(
                        self.entries@,
                    )[key] == entries_map(before).insert(k@, v)[key] by {
                        let w = choose|w: int| 0 <= w < self.entries@.len() && self.entries@[w].0@ == key;
                        lemma_entry_in_map(self.entries@, w);
                        if w != i {
                            lemma_entry_in_map(before, w);
                        }
                    }
                    assert(entries_map(self.entries@) =~= entries_map(before).insert(k@, v));
                }
                Some(prev)
            },
            None => {
                self.entries.push((k, v));
                proof {
                    let n = before.len();
                    assert forall|a: int, b: int| 0 <= a < b < self.entries@.len() implies self.entries@[a].0@
                        != self.entries@[b].0@ by {
                        if b == n {
                            assert(self.entries@[a] == before[a]);
                        } else {
                            assert(self.entries@[a] == before[a] && self.entries@[b] == before[b]);
                        }
                    }
                    assert forall|key: Seq<char>| has_key(self.entries@, key) == (has_key(before, key) || key
                        == k@) by {
                        if has_key(before, key) {
                            let w = choose|w: int| 0 <= w < before.len() && before[w].0@ == key;
                            assert(self.entries@[w] == before[w]);
                        }
                        if has_key(self.entries@, key) {
                            let w = choose|w: int| 0 <= w < self.entries@.len() && self.entries@[w].0@ == key;
                            if w < n {
                                assert(self.entries@[w] == before[w]);
                            }
                        }
                        assert(self.entries@[n as int].0@ == k@);
                    }
                    assert forall|key: Seq<char>| #[trigger] entries_map(self.entries@).contains_key(key) implies entries_map(
                        self.entries@,
                    )[key] == entries_map(before).insert(k@, v)[key] by {
                        let w = choose|w: int| 0 <= w < self.entries@.len() && self.entries@[w].0@ == key;
                        lemma_entry_in_map(self.entries@, w);
                        if w < n {
                            assert(self.entries@[w] == before[w]);
                            lemma_entry_in_map(before, w);
                        }
                    }
                    assert(entries_map(self.entries@) =~= entries_map(before).insert(k@, v));
                }
                None
            },
        }
    }

    /// Remove the entry named `k`; the other entries keep their order.
    /// Returns the removed value, if any.
    pub fn remove(&mut self, k: &str) -> (r: Option<T>)
        requires
            old(self).wf(),
        ensures
            final(self).wf(),
            final(self).view() == old(self).view().remove(k@),
            match r {
                Some(p) => old(self).view().contains_key(k@) && p == old(self).view()[k@],
                None => !old(self).view().contains_key(k@),
            },
    {
        let ghost before = self.entries@;
        match self.position(k) {
            None => {
                assert(entries_map(self.entries@) =~= entries_map(before).remove(k@));
                None
            },
            Some(i) => {
                let (_name, prev) = self.entries.remove(i);
                proof {
                    lemma_entry_in_map(before, i as int);
                    let after = self.entries@;
                    assert(after =~= before.remove(i as int));
                    assert forall|a: int| 0 <= a < after.len() implies after[a] == before[if a < i { a } else { a + 1 }] by {
                    }
                    assert forall|a: int, b: int| 0 <= a < b < after.len() implies after[a].0@ != after[b].0@ by {
                        let a0 = if a < i { a } else { a + 1 };
                        let b0 = if b < i { b } else { b + 1 };
                        assert(after[a] == before[a0] && after[b] == before[b0]);
                    }
                    assert forall|key: Seq<char>| has_key(after, key) == (has_key(before, key) && key != k@) by {
                        if has_key(after, key) {
                            let w = choose|w: int| 0 <= w < after.len() && after[w].0@ == key;
                            let w0 = if w < i { w } else { w + 1 };
                            assert(after[w] == before[w0]);
                            if w0 != i {
                                if w0 < i {
                                    assert(before[w0].0@ != before[i as int].0@);
                                } else {
                                    assert(before[i as int].0@ != before[w0].0@);
                                }
                            }
                        }
                        if has_key(before, key) && key != k@ {
                            let w0 = choose|w: int| 0 <= w < before.len() && before[w].0@ == key;
                            assert(w0 != i);
                            let w = if w0 < i { w0 } else { w0 - 1 };
                            assert(after[w] == before[w0]);
                        }
                    }
                    assert forall|key: Seq<char>| #[trigger] entries_map(after).contains_key(key) implies entries_map(
                        after,
                    )[key] == entries_map(before).remove(k@)[key] by {
                        let w = choose|w: int| 0 <= w < after.len() && after[w].0@ == key;
                        lemma_entry_in_map(after, w);
                        let w0 = if w < i { w } else { w + 1 };
                        assert(after[w] == before[w0]);
                        lemma_entry_in_map(before, w0);
                    }
                    assert(entries_map(after) =~= entries_map(before).remove(k@));
                }
                Some(prev)
            },
        }
    }

    /// The names, in entry order.
    pub fn keys(&self) -> (r: Vec<String>)
        ensures
            r@.map_values(|s: String| s@) == self.entries().map_values(|e: (String, T)| e.0@),
    {
        let mut out: Vec<String> = Vec::new();
        let mut i: usize = 0;
        while i < self.entries.len()
            invariant
                i <= self.entries@.len(),
                out@.len() == i,
                forall|j: int| 0 <= j < i ==> out@[j]@ == self.entries@[j].0@,
            decreases self.entries@.len() - i,
        {
            out.push(owned(self.entries[i].0.as_str()));
            i = i + 1;
        }
        assert(out@.map_values(|s: String| s@) =~= self.entries@.map_values(|e: (String, T)| e.0@));
        out
    }
}

} // verus!
