//! Call-site references: occurrences of `call <name>` with word boundaries
//! around the keyword and the name, independent of any definition span.
//! The matched range covers the keyword through the name and leaves the
//! argument list untouched.

use vstd::prelude::*;
use crate::patterns::{kw_call, kw_call_vec};
use crate::text::{byte_is_word, bytes_match_at, is_word_byte, lemma_skip_spaces_props,
    matches_at, skip_spaces, skip_spaces_in};

verus! {

/// End offset (exclusive) of a call-site reference to `name` starting
/// exactly at offset `i`: the keyword `call` with a word boundary before
/// it, at least one whitespace byte, then `name` with a word boundary
/// after it.  `None` when no reference starts at `i`.
pub open spec fn call_end_at(s: Seq<u8>, name: Seq<u8>, i: int) -> Option<int> {
    if matches_at(s, kw_call(), i) && (i == 0 || !is_word_byte(s[i - 1])) {
        let p = i + kw_call().len();
        let q = skip_spaces(s, p);
        if p < q && matches_at(s, name, q) && (q + name.len() == s.len() || !is_word_byte(
            s[q + name.len()],
        )) {
            Some(q + name.len())
        } else {
            None
        }
    } else {
        None
    }
}

/// A reference's end offset lies strictly after its start and within the
/// text.
pub proof fn lemma_call_end_props(s: Seq<u8>, name: Seq<u8>, i: int)
    requires
        0 <= i,
        call_end_at(s, name, i) is Some,
    ensures
        i < call_end_at(s, name, i)->Some_0 <= s.len(),
{
    lemma_skip_spaces_props(s, i + kw_call().len());
}

/// Start offsets of every call-site reference to `name` at or after
/// offset `i`, in document order, non-overlapping, each skipped past
/// before the scan resumes.
pub open spec fn ref_sites_from(s: Seq<u8>, name: Seq<u8>, i: int) -> Seq<int>
    recommends
        0 <= i,
    decreases s.len() + 1 - i,
    when 0 <= i
    via ref_sites_from_decreases
{
    if i >= s.len() {
        Seq::empty()
    } else {
        match call_end_at(s, name, i) {
            Some(e) => seq![i] + ref_sites_from(s, name, e),
            None => ref_sites_from(s, name, i + 1),
        }
    }
}

#[via_fn]
proof fn ref_sites_from_decreases(s: Seq<u8>, name: Seq<u8>, i: int) {
    if i < s.len() && call_end_at(s, name, i) is Some {
        lemma_call_end_props(s, name, i);
    }
}

/// How many call-site references to `name` lie at or after offset `i`.
pub open spec fn count_refs_from(s: Seq<u8>, name: Seq<u8>, i: int) -> int
    recommends
        0 <= i,
    decreases s.len() + 1 - i,
    when 0 <= i
    via count_refs_from_decreases
{
    if i >= s.len() {
        0
    } else {
        match call_end_at(s, name, i) {
            Some(e) => 1 + count_refs_from(s, name, e),
            None => count_refs_from(s, name, i + 1),
        }
    }
}

#[via_fn]
proof fn count_refs_from_decreases(s: Seq<u8>, name: Seq<u8>, i: int) {
    if i < s.len() && call_end_at(s, name, i) is Some {
        lemma_call_end_props(s, name, i);
    }
}

/// The reference count is exactly the number of reference sites.
pub proof fn lemma_count_refs_is_site_count(s: Seq<u8>, name: Seq<u8>, i: int)
    requires
        0 <= i,
    ensures
        count_refs_from(s, name, i) == ref_sites_from(s, name, i).len(),
    decreases s.len() + 1 - i,
{
    if i < s.len() {
        match call_end_at(s, name, i) {
            Some(e) => {
                lemma_call_end_props(s, name, i);
                lemma_count_refs_is_site_count(s, name, e);
            },
            None => {
                lemma_count_refs_is_site_count(s, name, i + 1);
            },
        }
    }
}

/// End offset of a call-site reference to `name` starting at offset `i`,
/// if one starts there.
pub fn call_match_end(s: &[u8], name: &[u8], i: usize) -> (r: Option<usize>)
    ensures
        match r {
            Some(e) => call_end_at(s@, name@, i as int) == Some(e as int),
            None => call_end_at(s@, name@, i as int) is None,
        },
{
    let kw: Vec<u8> = kw_call_vec();
    if !bytes_match_at(s, kw.as_slice(), i) {
        return None;
    }
    if i > 0 && byte_is_word(s[i - 1]) {
        return None;
    }
    let p: usize = i + kw.len();
    let q: usize = skip_spaces_in(s, p);
    proof {
        lemma_skip_spaces_props(s@, p as int);
    }
    if q == p {
        return None;
    }
    if !bytes_match_at(s, name, q) {
        return None;
    }
    let n: usize = s.len();
    assert(q + name@.len() <= n);
    if q + name.len() == n {
        Some(q + name.len())
    } else if byte_is_word(s[q + name.len()]) {
        None
    } else {
        Some(q + name.len())
    }
}

/// Find every call-site reference to `name` in `source`, in document
/// order: the start offsets of the matched `call <name>` ranges.
pub fn find_references(source: &[u8], name: &[u8]) -> (r: Vec<usize>)
    ensures
        r@.len() == ref_sites_from(source@, name@, 0).len(),
        forall|k: int| 0 <= k < r@.len() ==> r@[k] as int == ref_sites_from(source@, name@, 0)[k],
{
    let n: usize = source.len();
    let mut out: Vec<usize> = Vec::new();
    let mut i: usize = 0;
    while i < n
        invariant
            0 <= i,
            n == source@.len(),
            ref_sites_from(source@, name@, 0) =~= out@.map_values(|v: usize| v as int)
                + ref_sites_from(source@, name@, i as int),
        decreases n - i,
    {
        let ghost prev = out@;
        match call_match_end(source, name, i) {
            Some(e) => {
                proof {
                    lemma_call_end_props(source@, name@, i as int);
                }
                out.push(i);
                proof {
                    assert(out@.map_values(|v: usize| v as int) =~= prev.map_values(
                        |v: usize| v as int,
                    ) + seq![i as int]);
                    assert(prev.map_values(|v: usize| v as int) + (seq![i as int]
                        + ref_sites_from(source@, name@, e as int)) =~= out@.map_values(
                        |v: usize| v as int,
                    ) + ref_sites_from(source@, name@, e as int));
                }
                i = e;
            },
            None => {
                i = i + 1;
            },
        }
    }
    proof {
        assert(out@.map_values(|v: usize| v as int) =~= out@.map_values(|v: usize| v as int)
            + ref_sites_from(source@, name@, n as int));
    }
    out
}

} // verus!
