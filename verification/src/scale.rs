//! Scale keys: the shared domain of a hostname and the chromatic root
//! offset that a key selects.

use vstd::prelude::*;
use vstd::string::*;
use crate::text::{chars_of, string_of_range, owned};
use sha2::{Digest, Sha256};

verus! {

/// `i` is the position of the first occurrence of `c` in `s`.
pub open spec fn is_first_index(s: Seq<char>, c: char, i: int) -> bool {
    &&& 0 <= i < s.len()
    &&& s[i] == c
    &&& forall|j: int| 0 <= j < i ==> s[j] != c
}

/// The shared domain of a hostname: everything after the first dot,
/// or `"local"` when there is no dot or nothing follows it.
pub open spec fn domain_of(h: Seq<char>) -> Seq<char> {
    if exists|i: int| is_first_index(h, '.', i) {
        let i = choose|i: int| is_first_index(h, '.', i);
        if i + 1 == h.len() {
            "local"@
        } else {
            h.subrange(i + 1, h.len() as int)
        }
    } else {
        "local"@
    }
}

/// Position of the first `c` in `v`, if any.
pub fn find_char(v: &Vec<char>, c: char) -> (r: Option<usize>)
    ensures
        match r {
            Some(i) => is_first_index(v@, c, i as int),
            None => forall|j: int| 0 <= j < v@.len() ==> v@[j] != c,
        },
{
    let mut i: usize = 0;
    while i < v.len()
        invariant
            i <= v.len(),
            forall|j: int| 0 <= j < i ==> v@[j] != c,
        decreases v.len() - i,
    {
        if v[i] == c {
            return Some(i);
        }
        i = i + 1;
    }
    None
}

proof fn lemma_first_index_unique(s: Seq<char>, c: char, i: int, k: int)
    requires
        is_first_index(s, c, i),
        is_first_index(s, c, k),
    ensures
        i == k,
{
    if i < k {
        assert(s[i] != c);
    } else if k < i {
        assert(s[k] != c);
    }
}

/// Extract the shared domain from a hostname by stripping the first
/// dot-separated label.  Hostnames without dots, or whose first dot
/// ends them, fall back to `"local"`.
pub fn domain_from_hostname(hostname: &str) -> (r: String)
    ensures
        r@ == domain_of(hostname@),
{
    let v = chars_of(hostname);
    match find_char(&v, '.') {
        Some(i) => {
            proof {
                let k = choose|k: int| is_first_index(hostname@, '.', k);
                lemma_first_index_unique(hostname@, '.', i as int, k);
            }
            if i + 1 == v.len() {
                owned("local")
            } else {
                string_of_range(&v, i + 1, v.len())
            }
        },
        None => {
            assert(!exists|k: int| is_first_index(hostname@, '.', k));
            owned("local")
        },
    }
}

/// SHA-256 digest of a byte string (as computed by the `sha2` crate).
pub uninterp spec fn sha256_digest(data: Seq<u8>) -> Seq<u8>;

/// Computes the SHA-256 digest of `data` with `sha2::Sha256::digest`.
/// The contract names the digest and states its 32-byte length, which
/// the `Sha256` output type fixes.
#[verifier::external_body]
fn sha256(data: &[u8]) -> (r: Vec<u8>)
    ensures
        r@ == sha256_digest(data@),
        r@.len() == 32,
{
    Sha256::digest(data).to_vec()
}

/// The chromatic offset (in semitones above the reference pitch) that a
/// digest selects: its first byte modulo 12.
pub fn root_offset_from_digest(digest: &[u8]) -> (r: u8)
    requires
        digest@.len() >= 1,
    ensures
        r == digest@[0] % 12,
        r < 12,
{
    digest[0] % 12
}

/// The chromatic offset of the pentatonic scale for `key`: the first
/// byte of the key's SHA-256 digest modulo 12.
pub fn scale_root_offset(key: &str) -> (r: u8)
    ensures
        r == sha256_digest(key.spec_bytes())[0] % 12,
        r < 12,
{
    let digest = sha256(key.as_bytes());
    root_offset_from_digest(digest.as_slice())
}

} // verus!
