//! Source transformation: produce new content with a located span — and,
//! when asked, every call-site reference — replaced by the auditable
//! marker line.  The marker text is part of the audit contract: round-trip
//! tooling greps for it verbatim.  Removal never deletes text silently.

use vstd::prelude::*;
use crate::locate::Construct;
use crate::patterns::{marker_head, marker_head_vec, marker_tail, marker_tail_vec};
use crate::refs::{call_end_at, call_match_end, lemma_call_end_props};
use crate::text::{push_all, push_range};

verus! {

/// How much a confirmed removal takes out: the definition span alone, or
/// the definition span together with every call-site reference.
#[derive(Clone, Copy, Debug, PartialEq, Eq, Structural)]
pub enum RemovalScope {
    SelfOnly,
    SelfAndReferences,
}

/// The auditable marker inserted in place of removed text, carrying the
/// removal timestamp.
pub open spec fn marker_text(ts: Seq<u8>) -> Seq<u8> {
    marker_head() + ts + marker_tail()
}

/// `s` with the range `[a, b)` replaced by `ins`.
pub open spec fn replace_span_spec(s: Seq<u8>, a: int, b: int, ins: Seq<u8>) -> Seq<u8>
    recommends
        0 <= a <= b <= s.len(),
{
    s.subrange(0, a) + ins + s.subrange(b, s.len() as int)
}

/// The suffix of `s` from offset `i` with every call-site reference to
/// `name` replaced by `ins`, scanning left to right and resuming after
/// each replaced range.
pub open spec fn replace_refs_from(s: Seq<u8>, name: Seq<u8>, ins: Seq<u8>, i: int) -> Seq<u8>
    recommends
        0 <= i,
    decreases s.len() + 1 - i,
    when 0 <= i
    via replace_refs_from_decreases
{
    if i >= s.len() {
        Seq::empty()
    } else {
        match call_end_at(s, name, i) {
            Some(e) => ins + replace_refs_from(s, name, ins, e),
            None => seq![s[i]] + replace_refs_from(s, name, ins, i + 1),
        }
    }
}

#[via_fn]
proof fn replace_refs_from_decreases(s: Seq<u8>, name: Seq<u8>, ins: Seq<u8>, i: int) {
    if i < s.len() && call_end_at(s, name, i) is Some {
        lemma_call_end_props(s, name, i);
    }
}

/// The content a removal produces: the definition span `[a, b)` replaced
/// by the marker, and — for `SelfAndReferences` — every call-site
/// reference of the resulting text replaced by the same marker.  The
/// reference pass runs over the text already missing its definition, so a
/// reference inside the removed span is never counted twice.
pub open spec fn apply_spec(
    s: Seq<u8>,
    a: int,
    b: int,
    name: Seq<u8>,
    scope: RemovalScope,
    ts: Seq<u8>,
) -> Seq<u8>
    recommends
        0 <= a <= b <= s.len(),
{
    let base = replace_span_spec(s, a, b, marker_text(ts));
    match scope {
        RemovalScope::SelfOnly => base,
        RemovalScope::SelfAndReferences => replace_refs_from(base, name, marker_text(ts), 0),
    }
}

/// Build the marker bytes for a timestamp.
pub fn build_marker(ts: &[u8]) -> (r: Vec<u8>)
    ensures
        r@ == marker_text(ts@),
{
    let head: Vec<u8> = marker_head_vec();
    let tail: Vec<u8> = marker_tail_vec();
    let mut out: Vec<u8> = Vec::new();
    push_all(&mut out, head.as_slice());
    push_all(&mut out, ts);
    push_all(&mut out, tail.as_slice());
    proof {
        assert(out@ =~= marker_text(ts@));
    }
    out
}

/// `source` with the range `[a, b)` replaced by `ins`.
pub fn replace_span(source: &[u8], a: usize, b: usize, ins: &[u8]) -> (r: Vec<u8>)
    requires
        a <= b <= source@.len(),
    ensures
        r@ == replace_span_spec(source@, a as int, b as int, ins@),
{
    let mut out: Vec<u8> = Vec::new();
    push_range(&mut out, source, 0, a);
    push_all(&mut out, ins);
    push_range(&mut out, source, b, source.len());
    proof {
        assert(out@ =~= replace_span_spec(source@, a as int, b as int, ins@));
    }
    out
}

/// `source` with every call-site reference to `name` replaced by `ins`.
pub fn replace_all_references(source: &[u8], name: &[u8], ins: &[u8]) -> (r: Vec<u8>)
    ensures
        r@ == replace_refs_from(source@, name@, ins@, 0),
{
    let n: usize = source.len();
    let mut out: Vec<u8> = Vec::new();
    let mut i: usize = 0;
    proof {
        assert(Seq::<u8>::empty() + replace_refs_from(source@, name@, ins@, 0)
            =~= replace_refs_from(source@, name@, ins@, 0));
    }
    while i < n
        invariant
            0 <= i,
            n == source@.len(),
            replace_refs_from(source@, name@, ins@, 0) == out@ + replace_refs_from(
                source@,
                name@,
                ins@,
                i as int,
            ),
        decreases n - i,
    {
        let ghost prev = out@;
        match call_match_end(source, name, i) {
            Some(e) => {
                proof {
                    lemma_call_end_props(source@, name@, i as int);
                }
                push_all(&mut out, ins);
                proof {
                    assert(prev + (ins@ + replace_refs_from(source@, name@, ins@, e as int))
                        =~= out@ + replace_refs_from(source@, name@, ins@, e as int));
                }
                i = e;
            },
            None => {
                out.push(source[i]);
                proof {
                    assert(prev + (seq![source@[i as int]] + replace_refs_from(
                        source@,
                        name@,
                        ins@,
                        i + 1 as int,
                    )) =~= out@ + replace_refs_from(source@, name@, ins@, i + 1 as int));
                }
                i = i + 1;
            },
        }
    }
    proof {
        assert(out@ + replace_refs_from(source@, name@, ins@, n as int) =~= out@);
    }
    out
}

/// Produce the updated content for a confirmed removal: the construct's
/// span replaced by the marker line, and — for `SelfAndReferences` —
/// every call-site reference of the post-replacement text replaced by the
/// same marker.  Performs no output of its own: the caller persists the
/// result.
pub fn apply(source: &[u8], construct: &Construct, scope: RemovalScope, timestamp: &[u8]) -> (r:
    Vec<u8>)
    requires
        construct.wf(source@.len() as int),
    ensures
        r@ == apply_spec(
            source@,
            construct.start as int,
            construct.end as int,
            construct.name@,
            scope,
            timestamp@,
        ),
{
    let marker: Vec<u8> = build_marker(timestamp);
    let base: Vec<u8> = replace_span(source, construct.start, construct.end, marker.as_slice());
    match scope {
        RemovalScope::SelfOnly => base,
        RemovalScope::SelfAndReferences => replace_all_references(
            base.as_slice(),
            construct.name.as_slice(),
            marker.as_slice(),
        ),
    }
}

} // verus!
