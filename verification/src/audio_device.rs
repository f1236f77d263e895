//! Choosing the audio output device the user asked for by name: the
//! first device whose name contains the requested text, ignoring case.

use vstd::prelude::*;
use crate::text::chars_of;

verus! {

/// The lower-case form of a string, as `str::to_lowercase` computes it
/// (Unicode case mapping).
pub uninterp spec fn lowercase_of(s: Seq<char>) -> Seq<char>;

/// Lower-cases `s` with std's `str::to_lowercase`.  The contract names
/// the result; Unicode's case mapping is not written out here.
#[verifier::external_body]
fn to_lower(s: &str) -> (r: String)
    ensures
        r@ == lowercase_of(s@),
{
    s.to_lowercase()
}

/// Whether `needle` occurs in `hay` at position `i`.
pub open spec fn occurs_at(hay: Seq<char>, needle: Seq<char>, i: int) -> bool {
    0 <= i && i + needle.len() <= hay.len() && hay.subrange(i, i + needle.len()) == needle
}

/// Whether `needle` occurs somewhere in `hay`.
pub open spec fn contains_text(hay: Seq<char>, needle: Seq<char>) -> bool {
    exists|i: int| occurs_at(hay, needle, i)
}

fn matches_at(hay: &Vec<char>, needle: &Vec<char>, i: usize) -> (r: bool)
    requires
        i + needle@.len() <= hay@.len(),
    ensures
        r == occurs_at(hay@, needle@, i as int),
{
    let hlen = hay.len();
    let mut k: usize = 0;
    while k < needle.len()
        invariant
            hlen == hay@.len(),
            i + needle@.len() <= hay@.len(),
            k <= needle@.len(),
            forall|j: int| 0 <= j < k ==> hay@[i + j] == needle@[j],
        decreases needle@.len() - k,
    {
        if hay[i + k] != needle[k] {
            assert(hay@.subrange(i as int, i + needle@.len())[k as int] != needle@[k as int]);
            return false;
        }
        k = k + 1;
    }
    assert(hay@.subrange(i as int, i + needle@.len()) =~= needle@);
    true
}

/// Whether `needle` occurs in `hay`.
pub fn text_contains(hay: &str, needle: &str) -> (r: bool)
    ensures
        r == contains_text(hay@, needle@),
{
    let h = chars_of(hay);
    let n = chars_of(needle);
    if n.len() > h.len() {
        proof {
            assert forall|i: int| !occurs_at(hay@, needle@, i) by {}
        }
        return false;
    }
    let last = h.len() - n.len();
    let mut i: usize = 0;
    while i < last
        invariant
            h@ == hay@,
            n@ == needle@,
            last + n@.len() == h@.len(),
            i <= last,
            forall|j: int| 0 <= j < i ==> !occurs_at(hay@, needle@, j),
        decreases last - i,
    {
        if matches_at(&h, &n, i) {
            return true;
        }
        i = i + 1;
    }
    if matches_at(&h, &n, last) {
        return true;
    }
    proof {
        assert forall|j: int| !occurs_at(hay@, needle@, j) by {
            if occurs_at(hay@, needle@, j) {
                assert(j <= last);
            }
        }
    }
    false
}

/// Whether a device (whose name could be read, or not) answers to the
/// requested name: its lower-cased name contains the lower-cased
/// request.
pub open spec fn device_matches(name: Option<Seq<char>>, requested: Seq<char>) -> bool {
    match name {
        Some(n) => contains_text(lowercase_of(n), lowercase_of(requested)),
        None => false,
    }
}

/// The names of the devices, where they could be read.
pub open spec fn device_names(names: Seq<Option<String>>) -> Seq<Option<Seq<char>>> {
    names.map_values(|o: Option<String>| match o {
        Some(s) => Some(s@),
        None => None,
    })
}

/// The first device, in enumeration order, that answers to `requested`;
/// `None` when no device does.
pub fn select_device(names: &Vec<Option<String>>, requested: &str) -> (r: Option<usize>)
    ensures
        match r {
            Some(i) => {
                &&& i < names@.len()
                &&& device_matches(device_names(names@)[i as int], requested@)
                &&& forall|j: int| 0 <= j < i ==> !device_matches(device_names(names@)[j], requested@)
            },
            None => forall|j: int| 0 <= j < names@.len() ==> !device_matches(device_names(names@)[j], requested@),
        },
{
    let wanted = to_lower(requested);
    let mut i: usize = 0;
    while i < names.len()
        invariant
            i <= names@.len(),
            wanted@ == lowercase_of(requested@),
            forall|j: int| 0 <= j < i ==> !device_matches(device_names(names@)[j], requested@),
        decreases names@.len() - i,
    {
        let found = match &names[i] {
            Some(n) => {
                let lower = to_lower(n.as_str());
                text_contains(lower.as_str(), wanted.as_str())
            },
            None => false,
        };
        if found {
            return Some(i);
        }
        i = i + 1;
    }
    None
}

} // verus!
