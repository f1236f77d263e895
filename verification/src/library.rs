//! Editing the patch library: creating patches and overrides, renaming
//! patches, and keeping override deltas and dependent overrides in step
//! with parameter changes.  `P` is the patch type and `V` the type of a
//! parameter value.

use vstd::prelude::*;
use crate::named_map::{NamedMap, keys_unique, has_key, lemma_update_value, lemma_entry_in_map};
use crate::text::{str_eq, owned, views_of, contains_name};

verus! {

/// An override patch: a base patch plus the parameters it changes.
pub struct OverrideInfo<V> {
    pub base: String,
    pub delta: NamedMap<V>,
}

/// What an override stands for: its base's name and its delta.
pub open spec fn info_view<V>(i: OverrideInfo<V>) -> (Seq<char>, Map<Seq<char>, V>) {
    (i.base@, i.delta.view())
}

/// The override table as names mapped to (base, delta).
pub open spec fn overrides_view<V>(ovr: NamedMap<OverrideInfo<V>>) -> Map<Seq<char>, (Seq<char>, Map<Seq<char>, V>)> {
    ovr.view().map_values(|i: OverrideInfo<V>| info_view(i))
}

/// The override table is well formed: unique names, and every delta
/// has unique parameter names.
pub open spec fn overrides_wf<V>(ovr: NamedMap<OverrideInfo<V>>) -> bool {
    &&& ovr.wf()
    &&& forall|j: int| 0 <= j < ovr.entries().len() ==> (#[trigger] ovr.entries()[j]).1.delta.wf()
}

/// Add a new patch under `name`, unless the name is taken.
pub fn create_patch<P>(lib: &mut NamedMap<P>, name: &str, fresh: P) -> (created: bool)
    requires
        old(lib).wf(),
    ensures
        final(lib).wf(),
        created == !old(lib).view().contains_key(name@),
        created ==> final(lib).view() == old(lib).view().insert(name@, fresh),
        !created ==> final(lib).view() == old(lib).view(),
{
    if lib.contains_key(name) {
        return false;
    }
    lib.insert(owned(name), fresh);
    true
}

/// Create the override `name` of patch `base`: the name must be free,
/// the base must exist and must not itself be an override.  The new
/// patch starts as a clone of the base, with an empty delta.
pub fn create_override<P: Clone, V>(
    lib: &mut NamedMap<P>,
    ovr: &mut NamedMap<OverrideInfo<V>>,
    base: &str,
    name: &str,
) -> (created: bool)
    requires
        old(lib).wf(),
        overrides_wf(*old(ovr)),
    ensures
        final(lib).wf(),
        overrides_wf(*final(ovr)),
        created == (!old(lib).view().contains_key(name@) && old(lib).view().contains_key(base@)
            && !old(ovr).view().contains_key(base@)),
        created ==> exists|c: P|
            cloned(old(lib).view()[base@], c) && final(lib).view() == old(lib).view().insert(name@, c),
        created ==> overrides_view(*final(ovr)) == overrides_view(*old(ovr)).insert(
            name@,
            (base@, Map::<Seq<char>, V>::empty()),
        ),
        !created ==> final(lib).view() == old(lib).view() && overrides_view(*final(ovr)) == overrides_view(
            *old(ovr),
        ),
{
    if lib.contains_key(name) || !lib.contains_key(base) || ovr.contains_key(base) {
        return false;
    }
    let copy = match lib.get(base) {
        Some(p) => p.clone(),
        None => {
            return false;
        },
    };
    lib.insert(owned(name), copy);
    let info = OverrideInfo { base: owned(base), delta: NamedMap::new() };
    let ghost iv = info_view(info);
    let ghost before = *ovr;
    ovr.insert(owned(name), info);
    proof {
        assert(iv == (base@, Map::<Seq<char>, V>::empty()));
        assert(overrides_view(*ovr) =~= overrides_view(before).insert(name@, iv));
        lemma_deltas_wf_after_insert(before, *ovr, name@);
    }
    true
}

proof fn lemma_deltas_wf_after_insert<V>(before: NamedMap<OverrideInfo<V>>, after: NamedMap<OverrideInfo<V>>, k: Seq<char>)
    requires
        overrides_wf(before),
        after.wf(),
        after.view().contains_key(k),
        after.view()[k].delta.wf(),
        forall|k2: Seq<char>| k2 != k ==> (#[trigger] after.view().contains_key(k2)) == before.view().contains_key(k2),
        forall|k2: Seq<char>| k2 != k && after.view().contains_key(k2) ==> #[trigger] after.view()[k2] == before.view()[k2],
    ensures
        overrides_wf(after),
{
    assert forall|j: int| 0 <= j < after.entries().len() implies (#[trigger] after.entries()[j]).1.delta.wf() by {
        lemma_entry_in_map(after.entries(), j);
        let key = after.entries()[j].0@;
        if key != k {
            let w = choose|w: int| 0 <= w < before.entries().len() && before.entries()[w].0@ == key;
            lemma_entry_in_map(before.entries(), w);
        }
    }
}

/// An override's (base, delta) after renaming patch `old` to `new`.
pub open spec fn rebased<V>(t: (Seq<char>, Map<Seq<char>, V>), old: Seq<char>, new: Seq<char>) -> (
    Seq<char>,
    Map<Seq<char>, V>,
) {
    if t.0 == old {
        (new, t.1)
    } else {
        t
    }
}

/// The override table after renaming patch `old` to `new`: overrides
/// based on `old` are based on `new`, and an override named `old` is
/// now named `new`.
pub open spec fn renamed_overrides<V>(
    m: Map<Seq<char>, (Seq<char>, Map<Seq<char>, V>)>,
    old: Seq<char>,
    new: Seq<char>,
) -> Map<Seq<char>, (Seq<char>, Map<Seq<char>, V>)> {
    let r = m.map_values(|t: (Seq<char>, Map<Seq<char>, V>)| rebased(t, old, new));
    if r.contains_key(old) {
        r.remove(old).insert(new, r[old])
    } else {
        r
    }
}

/// Whether renaming `old` to `new` is allowed: distinct names, a
/// non-empty new name, an existing old patch and a free new name.
pub open spec fn rename_allowed<P>(lib: Map<Seq<char>, P>, old: Seq<char>, new: Seq<char>) -> bool {
    old != new && new.len() > 0 && lib.contains_key(old) && !lib.contains_key(new)
}

fn rebase_all<V>(ovr: &mut NamedMap<OverrideInfo<V>>, old_name: &str, new_name: &str)
    requires
        overrides_wf(*old(ovr)),
    ensures
        overrides_wf(*final(ovr)),
        overrides_view(*final(ovr)) == overrides_view(*old(ovr)).map_values(
            |t: (Seq<char>, Map<Seq<char>, V>)| rebased(t, old_name@, new_name@),
        ),
{
    let ghost orig = ovr.entries();
    let n = ovr.len();
    let mut i: usize = 0;
    while i < n
        invariant
            n == orig.len(),
            i <= n,
            ovr.entries().len() == n,
            keys_unique(ovr.entries()),
            forall|j: int| 0 <= j < n ==> (#[trigger] ovr.entries()[j]).0 == orig[j].0,
            forall|j: int| 0 <= j < n ==> (#[trigger] ovr.entries()[j]).1.delta == orig[j].1.delta,
            forall|j: int|
                0 <= j < n ==> (#[trigger] ovr.entries()[j]).1.base@ == if j < i {
                    rebased(info_view(orig[j].1), old_name@, new_name@).0
                } else {
                    orig[j].1.base@
                },
            overrides_wf(*old(ovr)),
            orig == old(ovr).entries(),
        decreases n - i,
    {
        let ghost e = ovr.entries();
        let info = ovr.value_at_mut(i);
        if str_eq(info.base.as_str(), old_name) {
            info.base = owned(new_name);
        }
        proof {
            assert(keys_unique(ovr.entries())) by {
                lemma_update_value(e, i as int, ovr.entries()[i as int].1);
            }
        }
        i = i + 1;
    }
    proof {
        let after = ovr.entries();
        assert forall|j: int| 0 <= j < after.len() implies (#[trigger] after[j]).1.delta.wf() by {
            assert(orig[j] == old(ovr).entries()[j]);
        }
        assert forall|k: Seq<char>| has_key(after, k) == has_key(orig, k) by {
            if has_key(after, k) {
                let w = choose|w: int| 0 <= w < after.len() && after[w].0@ == k;
                assert(after[w].0 == orig[w].0);
            }
            if has_key(orig, k) {
                let w = choose|w: int| 0 <= w < orig.len() && orig[w].0@ == k;
                assert(after[w].0 == orig[w].0);
            }
        }
        assert forall|k: Seq<char>| #[trigger] overrides_view(*ovr).contains_key(k) implies overrides_view(*ovr)[k]
            == overrides_view(*old(ovr)).map_values(
            |t: (Seq<char>, Map<Seq<char>, V>)| rebased(t, old_name@, new_name@),
        )[k] by {
            let w = choose|w: int| 0 <= w < after.len() && after[w].0@ == k;
            lemma_entry_in_map(after, w);
            assert(after[w].0 == orig[w].0);
            lemma_entry_in_map(orig, w);
        }
        assert(overrides_view(*ovr) =~= overrides_view(*old(ovr)).map_values(
            |t: (Seq<char>, Map<Seq<char>, V>)| rebased(t, old_name@, new_name@),
        ));
    }
}

/// Rename patch `old_name` to `new_name` when allowed (see
/// `rename_allowed`): the patch moves to the new name, overrides based
/// on it follow, and an override of that name is renamed with it.
pub fn rename_patch<P, V>(
    lib: &mut NamedMap<P>,
    ovr: &mut NamedMap<OverrideInfo<V>>,
    old_name: &str,
    new_name: &str,
) -> (renamed: bool)
    requires
        old(lib).wf(),
        overrides_wf(*old(ovr)),
    ensures
        final(lib).wf(),
        overrides_wf(*final(ovr)),
        renamed == rename_allowed(old(lib).view(), old_name@, new_name@),
        renamed ==> final(lib).view() == old(lib).view().remove(old_name@).insert(
            new_name@,
            old(lib).view()[old_name@],
        ),
        renamed ==> overrides_view(*final(ovr)) == renamed_overrides(
            overrides_view(*old(ovr)),
            old_name@,
            new_name@,
        ),
        !renamed ==> final(lib).view() == old(lib).view() && overrides_view(*final(ovr)) == overrides_view(
            *old(ovr),
        ),
{
    if str_eq(old_name, new_name) || new_name.is_empty() {
        return false;
    }
    if !lib.contains_key(old_name) || lib.contains_key(new_name) {
        return false;
    }
    let patch = match lib.remove(old_name) {
        Some(p) => p,
        None => {
            return false;
        },
    };
    lib.insert(owned(new_name), patch);
    rebase_all(ovr, old_name, new_name);
    let ghost mid = *ovr;
    match ovr.remove(old_name) {
        Some(info) => {
            let ghost iv = info_view(info);
            let ghost mid2 = *ovr;
            ovr.insert(owned(new_name), info);
            proof {
                lemma_delta_wf_at(mid, old_name@);
                assert(overrides_view(mid2) =~= overrides_view(mid).remove(old_name@));
                assert(overrides_view(*ovr) =~= overrides_view(mid).remove(old_name@).insert(new_name@, iv));
                lemma_deltas_wf_after_remove(mid, mid2, old_name@);
                lemma_deltas_wf_after_insert(mid2, *ovr, new_name@);
            }
        },
        None => {
            proof {
                lemma_deltas_wf_after_remove(mid, *ovr, old_name@);
            }
        },
    }
    true
}

proof fn lemma_delta_wf_at<V>(ovr: NamedMap<OverrideInfo<V>>, k: Seq<char>)
    requires
        overrides_wf(ovr),
        ovr.view().contains_key(k),
    ensures
        ovr.view()[k].delta.wf(),
{
    let w = choose|w: int| 0 <= w < ovr.entries().len() && ovr.entries()[w].0@ == k;
    lemma_entry_in_map(ovr.entries(), w);
}

proof fn lemma_deltas_wf_after_remove<V>(before: NamedMap<OverrideInfo<V>>, after: NamedMap<OverrideInfo<V>>, k: Seq<char>)
    requires
        overrides_wf(before),
        after.wf(),
        after.view() == before.view().remove(k),
    ensures
        overrides_wf(after),
{
    assert forall|j: int| 0 <= j < after.entries().len() implies (#[trigger] after.entries()[j]).1.delta.wf() by {
        lemma_entry_in_map(after.entries(), j);
        let key = after.entries()[j].0@;
        let w = choose|w: int| 0 <= w < before.entries().len() && before.entries()[w].0@ == key;
        lemma_entry_in_map(before.entries(), w);
    }
}


proof fn lemma_replace_info<V>(
    before: NamedMap<OverrideInfo<V>>,
    after: NamedMap<OverrideInfo<V>>,
    i: int,
    info: OverrideInfo<V>,
)
    requires
        overrides_wf(before),
        0 <= i < before.entries().len(),
        after.entries() == before.entries().update(i, (before.entries()[i].0, info)),
        info.delta.wf(),
    ensures
        overrides_wf(after),
        after.view() == before.view().insert(before.entries()[i].0@, info),
        overrides_view(after) == overrides_view(before).insert(before.entries()[i].0@, info_view(info)),
{
    lemma_update_value(before.entries(), i, info);
    assert forall|j: int| 0 <= j < after.entries().len() implies (#[trigger] after.entries()[j]).1.delta.wf() by {
        if j != i {
            assert(after.entries()[j] == before.entries()[j]);
        }
    }
    assert(overrides_view(after) =~= overrides_view(before).insert(before.entries()[i].0@, info_view(info)));
}

/// After a parameter of `patch_name` was set to `value`: when that
/// patch is an override, its delta now records the value.  Returns
/// whether the patch is an override.
pub fn record_param_change<V>(
    ovr: &mut NamedMap<OverrideInfo<V>>,
    patch_name: &str,
    param: &str,
    value: V,
) -> (recorded: bool)
    requires
        overrides_wf(*old(ovr)),
    ensures
        overrides_wf(*final(ovr)),
        recorded == old(ovr).view().contains_key(patch_name@),
        recorded ==> overrides_view(*final(ovr)) == overrides_view(*old(ovr)).insert(
            patch_name@,
            (
                overrides_view(*old(ovr))[patch_name@].0,
                overrides_view(*old(ovr))[patch_name@].1.insert(param@, value),
            ),
        ),
        !recorded ==> *final(ovr) == *old(ovr),
{
    match ovr.position(patch_name) {
        None => false,
        Some(i) => {
            let ghost before = *ovr;
            proof {
                lemma_entry_in_map(before.entries(), i as int);
            }
            let info = ovr.value_at_mut(i);
            info.delta.insert(owned(param), value);
            proof {
                lemma_replace_info(before, *ovr, i as int, ovr.entries()[i as int].1);
            }
            true
        },
    }
}

/// Drop `param` from the delta of override `patch_name`, so that it
/// follows its base again.  Returns the base's name, or `None` when
/// `patch_name` is not an override (nothing changes then).
pub fn reset_override_param<V>(
    ovr: &mut NamedMap<OverrideInfo<V>>,
    patch_name: &str,
    param: &str,
) -> (base: Option<String>)
    requires
        overrides_wf(*old(ovr)),
    ensures
        overrides_wf(*final(ovr)),
        match base {
            Some(b) => {
                &&& old(ovr).view().contains_key(patch_name@)
                &&& b@ == overrides_view(*old(ovr))[patch_name@].0
                &&& overrides_view(*final(ovr)) == overrides_view(*old(ovr)).insert(
                    patch_name@,
                    (b@, overrides_view(*old(ovr))[patch_name@].1.remove(param@)),
                )
            },
            None => !old(ovr).view().contains_key(patch_name@) && *final(ovr) == *old(ovr),
        },
{
    match ovr.position(patch_name) {
        None => None,
        Some(i) => {
            let ghost before = *ovr;
            proof {
                lemma_entry_in_map(before.entries(), i as int);
            }
            let info = ovr.value_at_mut(i);
            let _ = info.delta.remove(param);
            let b = owned(info.base.as_str());
            proof {
                lemma_replace_info(before, *ovr, i as int, ovr.entries()[i as int].1);
            }
            Some(b)
        },
    }
}

/// Whether override `info` follows its base `base` on parameter
/// `param`: it is based on `base` and its delta leaves `param` alone.
pub open spec fn follows_base<V>(info: OverrideInfo<V>, base: Seq<char>, param: Seq<char>) -> bool {
    info.base@ == base && !info.delta.view().contains_key(param)
}

/// The names of the entries that follow `base` on `param`, in order.
pub open spec fn dependent_names<V>(
    entries: Seq<(String, OverrideInfo<V>)>,
    base: Seq<char>,
    param: Seq<char>,
) -> Seq<Seq<char>>
    decreases entries.len(),
{
    if entries.len() == 0 {
        Seq::empty()
    } else {
        let rest = dependent_names(entries.drop_last(), base, param);
        if follows_base(entries.last().1, base, param) {
            rest.push(entries.last().0@)
        } else {
            rest
        }
    }
}

proof fn lemma_dependent_names<V>(entries: Seq<(String, OverrideInfo<V>)>, base: Seq<char>, param: Seq<char>)
    requires
        keys_unique(entries),
    ensures
        dependent_names(entries, base, param).no_duplicates(),
        forall|k: Seq<char>|
            #[trigger] dependent_names(entries, base, param).contains(k) <==> exists|j: int|
                0 <= j < entries.len() && entries[j].0@ == k && follows_base(entries[j].1, base, param),
    decreases entries.len(),
{
    if entries.len() > 0 {
        let init = entries.drop_last();
        let last = entries.last();
        assert(keys_unique(init)) by {
            assert forall|i: int, j: int| 0 <= i < j < init.len() implies init[i].0@ != init[j].0@ by {
                assert(init[i] == entries[i] && init[j] == entries[j]);
            }
        }
        lemma_dependent_names(init, base, param);
        let rest = dependent_names(init, base, param);
        assert forall|k: Seq<char>|
            #[trigger] dependent_names(entries, base, param).contains(k) <==> exists|j: int|
                0 <= j < entries.len() && entries[j].0@ == k && follows_base(entries[j].1, base, param) by {
            if exists|j: int| 0 <= j < entries.len() && entries[j].0@ == k && follows_base(entries[j].1, base, param) {
                let j = choose|j: int| 0 <= j < entries.len() && entries[j].0@ == k && follows_base(entries[j].1, base, param);
                if j < init.len() {
                    assert(init[j] == entries[j]);
                    assert(rest.contains(k));
                    if follows_base(last.1, base, param) {
                        let w = choose|w: int| 0 <= w < rest.len() && rest[w] == k;
                        assert(rest.push(last.0@)[w] == k);
                    }
                } else {
                    assert(rest.push(last.0@)[rest.len() as int] == k);
                }
            }
            if dependent_names(entries, base, param).contains(k) {
                if rest.contains(k) {
                    let j = choose|j: int| 0 <= j < init.len() && init[j].0@ == k && follows_base(init[j].1, base, param);
                    assert(init[j] == entries[j]);
                } else {
                    let w = choose|w: int| 0 <= w < rest.push(last.0@).len() && rest.push(last.0@)[w] == k;
                    assert(w == rest.len());
                    assert(entries[entries.len() - 1] == last);
                }
            }
        }
        if follows_base(last.1, base, param) {
            assert(!rest.contains(last.0@)) by {
                if rest.contains(last.0@) {
                    let j = choose|j: int| 0 <= j < init.len() && init[j].0@ == last.0@ && follows_base(init[j].1, base, param);
                    assert(init[j] == entries[j]);
                    assert(entries[j].0@ != entries[entries.len() - 1].0@);
                }
            }
            let d = rest.push(last.0@);
            assert forall|i: int, j: int| 0 <= i < d.len() && 0 <= j < d.len() && i != j implies d[i] != d[j] by {
                if i < rest.len() && j < rest.len() {
                } else if i < rest.len() {
                    assert(rest.contains(d[i]));
                } else if j < rest.len() {
                    assert(rest.contains(d[j]));
                }
            }
        }
    }
}

/// The overrides that a change of `param` on patch `base` reaches: the
/// names of all overrides that follow `base` on `param`, each once, in
/// the table's order.
pub fn dependents<V>(ovr: &NamedMap<OverrideInfo<V>>, base: &str, param: &str) -> (names: Vec<String>)
    requires
        overrides_wf(*ovr),
    ensures
        views_of(names@) == dependent_names(ovr.entries(), base@, param@),
        views_of(names@).no_duplicates(),
        forall|k: Seq<char>|
            #[trigger] views_of(names@).contains(k) <==> (ovr.view().contains_key(k)
                && follows_base(ovr.view()[k], base@, param@)),
{
    let ghost entries = ovr.entries();
    let mut out: Vec<String> = Vec::new();
    let n = ovr.len();
    let mut i: usize = 0;
    while i < n
        invariant
            n == entries.len(),
            entries == ovr.entries(),
            overrides_wf(*ovr),
            i <= n,
            views_of(out@) == dependent_names(entries.subrange(0, i as int), base@, param@),
        decreases n - i,
    {
        let e = ovr.entry(i);
        let ghost before = out@;
        assert(entries.subrange(0, i + 1).drop_last() =~= entries.subrange(0, i as int));
        assert(entries.subrange(0, i + 1).last() == entries[i as int]);
        if str_eq(e.1.base.as_str(), base) && !e.1.delta.contains_key(param) {
            out.push(owned(e.0.as_str()));
            assert(views_of(out@) =~= views_of(before).push(e.0@));
        }
        i = i + 1;
    }
    proof {
        assert(entries.subrange(0, n as int) =~= entries);
        lemma_dependent_names(entries, base@, param@);
        assert forall|k: Seq<char>|
            #[trigger] views_of(out@).contains(k) <==> (ovr.view().contains_key(k)
                && follows_base(ovr.view()[k], base@, param@)) by {
            if views_of(out@).contains(k) {
                let j = choose|j: int| 0 <= j < entries.len() && entries[j].0@ == k && follows_base(entries[j].1, base@, param@);
                lemma_entry_in_map(entries, j);
            }
            if ovr.view().contains_key(k) && follows_base(ovr.view()[k], base@, param@) {
                let j = choose|j: int| 0 <= j < entries.len() && entries[j].0@ == k;
                lemma_entry_in_map(entries, j);
                assert(dependent_names(entries, base@, param@).contains(k));
            }
        }
    }
    out
}

/// Point every reference to patch `old_name` in `names` at `new_name`.
pub fn rename_refs(names: &mut Vec<String>, old_name: &str, new_name: &str)
    ensures
        final(names)@.len() == old(names)@.len(),
        forall|i: int|
            0 <= i < old(names)@.len() ==> (#[trigger] final(names)@[i])@ == (if old(names)@[i]@ == old_name@ {
                new_name@
            } else {
                old(names)@[i]@
            }),
{
    let mut i: usize = 0;
    while i < names.len()
        invariant
            names@.len() == old(names)@.len(),
            i <= names@.len(),
            forall|j: int|
                0 <= j < i ==> (#[trigger] names@[j])@ == (if old(names)@[j]@ == old_name@ {
                    new_name@
                } else {
                    old(names)@[j]@
                }),
            forall|j: int| i <= j < names@.len() ==> #[trigger] names@[j] == old(names)@[j],
        decreases names@.len() - i,
    {
        if str_eq(names[i].as_str(), old_name) {
            names.set(i, owned(new_name));
        }
        i = i + 1;
    }
}

/// Remove the item at `idx` from a list that must keep at least one
/// item: nothing happens when the list has a single item or `idx` is
/// out of range.  Returns whether the item was removed.
pub fn remove_keeping_one<N>(items: &mut Vec<N>, idx: usize) -> (removed: bool)
    ensures
        removed == (old(items)@.len() > 1 && idx < old(items)@.len()),
        removed ==> final(items)@ == old(items)@.remove(idx as int),
        !removed ==> final(items)@ == old(items)@,
{
    if items.len() <= 1 || idx >= items.len() {
        return false;
    }
    let _ = items.remove(idx);
    true
}

/// The patches a new note starts from: the library's first patch (or
/// `sine` in an empty library), and for the alarm state `alarm` when
/// the library has it, else that same first patch.
pub fn default_note_patches<P>(lib: &NamedMap<P>) -> (r: (String, String))
    requires
        lib.wf(),
    ensures
        r.0@ == (if lib.entries().len() > 0 {
            lib.entries()[0].0@
        } else {
            "sine"@
        }),
        r.1@ == (if lib.view().contains_key("alarm"@) {
            "alarm"@
        } else {
            r.0@
        }),
{
    let first = if lib.len() > 0 {
        owned(lib.entry(0).0.as_str())
    } else {
        owned("sine")
    };
    let alarm = if lib.contains_key("alarm") {
        owned("alarm")
    } else {
        owned(first.as_str())
    };
    (first, alarm)
}

/// Why an override read from a configuration cannot be installed.
#[derive(Debug, Clone, PartialEq, Eq)]
pub enum OverrideLoadError {
    /// The patch it overrides does not exist.
    BaseMissing { name: String, base: String },
    /// The patch it overrides is itself an override.
    Chained { name: String, base: String },
}

/// Check an override entry `name` (overriding `base`) of a
/// configuration against what is loaded so far: the base must be in the
/// library and must not be an override itself.
pub fn check_override_entry<P, V>(
    lib: &NamedMap<P>,
    ovr: &NamedMap<OverrideInfo<V>>,
    name: &str,
    base: &str,
) -> (r: Result<(), OverrideLoadError>)
    requires
        lib.wf(),
        ovr.wf(),
    ensures
        match r {
            Ok(()) => lib.view().contains_key(base@) && !ovr.view().contains_key(base@),
            Err(OverrideLoadError::BaseMissing { name: n, base: b }) => {
                !lib.view().contains_key(base@) && n@ == name@ && b@ == base@
            },
            Err(OverrideLoadError::Chained { name: n, base: b }) => {
                lib.view().contains_key(base@) && ovr.view().contains_key(base@) && n@ == name@ && b@ == base@
            },
        },
{
    if !lib.contains_key(base) {
        return Err(OverrideLoadError::BaseMissing { name: owned(name), base: owned(base) });
    }
    if ovr.contains_key(base) {
        return Err(OverrideLoadError::Chained { name: owned(name), base: owned(base) });
    }
    Ok(())
}

/// Install override `name` of `base`: `resolved` (the base with the
/// delta applied) goes into the library, and the override table
/// records the base and the delta.
pub fn install_override<P, V>(
    lib: &mut NamedMap<P>,
    ovr: &mut NamedMap<OverrideInfo<V>>,
    name: String,
    base: String,
    delta: NamedMap<V>,
    resolved: P,
)
    requires
        old(lib).wf(),
        overrides_wf(*old(ovr)),
        delta.wf(),
    ensures
        final(lib).wf(),
        overrides_wf(*final(ovr)),
        final(lib).view() == old(lib).view().insert(name@, resolved),
        overrides_view(*final(ovr)) == overrides_view(*old(ovr)).insert(name@, (base@, delta.view())),
{
    let key = owned(name.as_str());
    lib.insert(name, resolved);
    let info = OverrideInfo { base, delta };
    let ghost iv = info_view(info);
    let ghost before = *ovr;
    let ghost k = key@;
    ovr.insert(key, info);
    proof {
        assert(overrides_view(*ovr) =~= overrides_view(before).insert(k, iv));
        lemma_deltas_wf_after_insert(before, *ovr, k);
    }
}

/// How a patch is written when the configuration is saved.
#[derive(Debug, Clone, Copy, PartialEq, Eq, Structural)]
pub enum SavedForm {
    /// An override: `overrides = base` and its delta only.
    Compact,
    /// A standalone patch, in full.
    Full,
}

/// How patch `name` is saved, or `None` for a built-in patch that is
/// not an override (those are left out).
pub open spec fn saved_form(
    name: Seq<char>,
    overridden: Set<Seq<char>>,
    builtins: Seq<Seq<char>>,
) -> Option<SavedForm> {
    if overridden.contains(name) {
        Some(SavedForm::Compact)
    } else if builtins.contains(name) {
        None
    } else {
        Some(SavedForm::Full)
    }
}

/// The patches of `entries` that a save writes, in order, each with
/// its form.
pub open spec fn saved_list<P>(
    entries: Seq<(String, P)>,
    overridden: Set<Seq<char>>,
    builtins: Seq<Seq<char>>,
) -> Seq<(Seq<char>, SavedForm)>
    decreases entries.len(),
{
    if entries.len() == 0 {
        Seq::empty()
    } else {
        let rest = saved_list(entries.drop_last(), overridden, builtins);
        let name = entries.last().0@;
        match saved_form(name, overridden, builtins) {
            Some(f) => rest.push((name, f)),
            None => rest,
        }
    }
}

/// The patches of `lib` that a saved configuration holds, with the form
/// each takes; built-in patches (named in `builtin_names`) are left out
/// unless they are overrides.
pub fn saved_patches<P, V>(
    lib: &NamedMap<P>,
    ovr: &NamedMap<OverrideInfo<V>>,
    builtin_names: &Vec<String>,
) -> (out: Vec<(String, SavedForm)>)
    requires
        ovr.wf(),
    ensures
        out@.map_values(|e: (String, SavedForm)| (e.0@, e.1)) == saved_list(
            lib.entries(),
            ovr.view().dom(),
            views_of(builtin_names@),
        ),
{
    let ghost entries = lib.entries();
    let ghost overridden = ovr.view().dom();
    let ghost builtins = views_of(builtin_names@);
    let mut out: Vec<(String, SavedForm)> = Vec::new();
    let n = lib.len();
    let mut i: usize = 0;
    while i < n
        invariant
            n == entries.len(),
            entries == lib.entries(),
            overridden == ovr.view().dom(),
            builtins == views_of(builtin_names@),
            ovr.wf(),
            i <= n,
            out@.map_values(|e: (String, SavedForm)| (e.0@, e.1)) == saved_list(
                entries.subrange(0, i as int),
                overridden,
                builtins,
            ),
        decreases n - i,
    {
        let name = lib.entry(i).0.as_str();
        let ghost before = out@;
        assert(entries.subrange(0, i + 1).drop_last() =~= entries.subrange(0, i as int));
        assert(entries.subrange(0, i + 1).last() == entries[i as int]);
        if ovr.contains_key(name) {
            out.push((owned(name), SavedForm::Compact));
            assert(out@.map_values(|e: (String, SavedForm)| (e.0@, e.1)) =~= before.map_values(
                |e: (String, SavedForm)| (e.0@, e.1),
            ).push((name@, SavedForm::Compact)));
        } else if !contains_name(builtin_names, name) {
            out.push((owned(name), SavedForm::Full));
            assert(out@.map_values(|e: (String, SavedForm)| (e.0@, e.1)) =~= before.map_values(
                |e: (String, SavedForm)| (e.0@, e.1),
            ).push((name@, SavedForm::Full)));
        }
        i = i + 1;
    }
    assert(entries.subrange(0, n as int) =~= entries);
    out
}

/// Once a parameter of an override has been set (and recorded in its
/// delta), a change of that parameter on its base no longer reaches it.
pub proof fn lemma_recorded_param_is_kept<V>(
    before: NamedMap<OverrideInfo<V>>,
    after: NamedMap<OverrideInfo<V>>,
    name: Seq<char>,
    param: Seq<char>,
    value: V,
    base: Seq<char>,
)
    requires
        overrides_wf(before),
        overrides_wf(after),
        before.view().contains_key(name),
        overrides_view(after) == overrides_view(before).insert(
            name,
            (overrides_view(before)[name].0, overrides_view(before)[name].1.insert(param, value)),
        ),
    ensures
        after.view().contains_key(name),
        !follows_base(after.view()[name], base, param),
{
    assert(overrides_view(after).contains_key(name));
    assert(overrides_view(after)[name] == info_view(after.view()[name]));
}

/// Resetting a parameter of an override makes it follow its base on
/// that parameter again.
pub proof fn lemma_reset_param_follows_base<V>(
    before: NamedMap<OverrideInfo<V>>,
    after: NamedMap<OverrideInfo<V>>,
    name: Seq<char>,
    param: Seq<char>,
    base: Seq<char>,
)
    requires
        overrides_wf(before),
        overrides_wf(after),
        before.view().contains_key(name),
        base == overrides_view(before)[name].0,
        overrides_view(after) == overrides_view(before).insert(
            name,
            (base, overrides_view(before)[name].1.remove(param)),
        ),
    ensures
        after.view().contains_key(name),
        follows_base(after.view()[name], base, param),
{
    assert(overrides_view(after).contains_key(name));
    assert(overrides_view(after)[name] == info_view(after.view()[name]));
}

/// A save writes exactly the patches that are not plain built-ins: each
/// such patch of the library appears, in its form (compact for an
/// override, full otherwise), and nothing else does.
pub proof fn lemma_saved_list_members<P>(
    entries: Seq<(String, P)>,
    overridden: Set<Seq<char>>,
    builtins: Seq<Seq<char>>,
    name: Seq<char>,
    form: SavedForm,
)
    ensures
        saved_list(entries, overridden, builtins).contains((name, form)) <==> (exists|i: int|
            0 <= i < entries.len() && #[trigger] entries[i].0@ == name) && saved_form(name, overridden, builtins)
            == Some(form),
    decreases entries.len(),
{
    if entries.len() > 0 {
        let init = entries.drop_last();
        let rest = saved_list(init, overridden, builtins);
        let last = entries.last().0@;
        lemma_saved_list_members(init, overridden, builtins, name, form);
        if saved_list(entries, overridden, builtins).contains((name, form)) {
            if rest.contains((name, form)) {
                let i = choose|i: int| 0 <= i < init.len() && #[trigger] init[i].0@ == name;
                assert(entries[i] == init[i]);
            } else {
                let w = choose|w: int|
                    0 <= w < saved_list(entries, overridden, builtins).len() && saved_list(
                        entries,
                        overridden,
                        builtins,
                    )[w] == (name, form);
                assert(w == rest.len());
                assert(entries[entries.len() - 1].0@ == name);
            }
        }
        if (exists|i: int| 0 <= i < entries.len() && #[trigger] entries[i].0@ == name) && saved_form(
            name,
            overridden,
            builtins,
        ) == Some(form) {
            let i = choose|i: int| 0 <= i < entries.len() && #[trigger] entries[i].0@ == name;
            if i < init.len() {
                assert(init[i] == entries[i]);
                assert(rest.contains((name, form)));
                let w = choose|w: int| 0 <= w < rest.len() && rest[w] == (name, form);
                if saved_form(last, overridden, builtins) is Some {
                    assert(rest.push((last, saved_form(last, overridden, builtins)->Some_0))[w] == (name, form));
                }
            } else {
                assert(name == last);
                assert(rest.push((name, form))[rest.len() as int] == (name, form));
            }
        }
    }
}

/// The table that reloading a save rebuilds: starting empty, each patch
/// saved in compact form is installed again with what `table` holds for
/// it (for an override table: its base and delta, as `install_override`
/// records them), in the order the save wrote them.
pub open spec fn reinstalled<X>(saved: Seq<(Seq<char>, SavedForm)>, table: Map<Seq<char>, X>) -> Map<
    Seq<char>,
    X,
>
    decreases saved.len(),
{
    if saved.len() == 0 {
        Map::empty()
    } else {
        let rest = reinstalled(saved.drop_last(), table);
        match saved.last().1 {
            SavedForm::Compact => rest.insert(saved.last().0, table[saved.last().0]),
            SavedForm::Full => rest,
        }
    }
}

proof fn lemma_reinstalled_entries<P, X>(entries: Seq<(String, P)>, table: Map<Seq<char>, X>, builtins: Seq<Seq<char>>)
    ensures
        forall|k: Seq<char>|
            #[trigger] reinstalled(saved_list(entries, table.dom(), builtins), table).contains_key(k) <==> (
            table.contains_key(k) && exists|i: int| 0 <= i < entries.len() && entries[i].0@ == k),
        forall|k: Seq<char>|
            #[trigger] reinstalled(saved_list(entries, table.dom(), builtins), table).contains_key(k) ==> reinstalled(
                saved_list(entries, table.dom(), builtins),
                table,
            )[k] == table[k],
    decreases entries.len(),
{
    if entries.len() > 0 {
        let init = entries.drop_last();
        lemma_reinstalled_entries(init, table, builtins);
        let name = entries.last().0@;
        let rest = saved_list(init, table.dom(), builtins);
        let m = reinstalled(rest, table);
        let full = saved_list(entries, table.dom(), builtins);
        match saved_form(name, table.dom(), builtins) {
            Some(f) => {
                assert(full == rest.push((name, f)));
                assert(full.drop_last() =~= rest);
            },
            None => {
                assert(full == rest);
            },
        }
        assert forall|k: Seq<char>|
            #[trigger] reinstalled(full, table).contains_key(k) <==> (table.contains_key(k) && exists|i: int|
                0 <= i < entries.len() && entries[i].0@ == k) by {
            if table.contains_key(k) && exists|i: int| 0 <= i < entries.len() && entries[i].0@ == k {
                let i = choose|i: int| 0 <= i < entries.len() && entries[i].0@ == k;
                if i < init.len() {
                    assert(init[i] == entries[i]);
                } else {
                    assert(k == name);
                }
            }
            if reinstalled(full, table).contains_key(k) && k != name {
                assert(m.contains_key(k));
                let i = choose|i: int| 0 <= i < init.len() && init[i].0@ == k;
                assert(init[i] == entries[i]);
            }
            if reinstalled(full, table).contains_key(k) && k == name {
                assert(entries[entries.len() - 1].0@ == name);
                if !table.contains_key(k) {
                    assert(saved_form(name, table.dom(), builtins) != Some(SavedForm::Compact));
                    assert(m.contains_key(k));
                }
            }
        }
    }
}

/// Saving and reloading gives the override table back: installing again,
/// in the order a save writes them, the patches it writes in compact
/// form, each with its base and delta, rebuilds exactly the override
/// table, when every override is a patch of the library (as the editing
/// operations keep it).
pub proof fn lemma_save_reload_overrides<P, V>(
    lib: NamedMap<P>,
    ovr: NamedMap<OverrideInfo<V>>,
    builtins: Seq<Seq<char>>,
)
    requires
        forall|k: Seq<char>| #[trigger] ovr.view().contains_key(k) ==> lib.view().contains_key(k),
    ensures
        reinstalled(saved_list(lib.entries(), ovr.view().dom(), builtins), overrides_view(ovr)) == overrides_view(
            ovr,
        ),
{
    let table = overrides_view(ovr);
    assert(table.dom() =~= ovr.view().dom());
    lemma_reinstalled_entries(lib.entries(), table, builtins);
    let r = reinstalled(saved_list(lib.entries(), table.dom(), builtins), table);
    assert forall|k: Seq<char>| #[trigger] table.contains_key(k) implies r.contains_key(k) by {
        assert(lib.view().contains_key(k));
        let i = choose|i: int| 0 <= i < lib.entries().len() && lib.entries()[i].0@ == k;
    }
    assert(r =~= table);
}

} // verus!
