//! The library-wide laws: what holds of every pipeline run, proved once
//! here over the same spec functions the public contracts use.

use vstd::prelude::*;
use crate::classify::{classify_from, classify_spec, decl_kind_at};
use crate::patterns::{kw_call, kw_function, kw_module, kw_subroutine, marker_head};
use crate::refs::{call_end_at, count_refs_from, lemma_call_end_props,
    lemma_count_refs_is_site_count, ref_sites_from};
use crate::suggest::{edit_distance_spec, insert_by_distance, sort_by_distance, suggest_spec};
use crate::text::{find_from, is_identifier, is_word_byte, lemma_find_from_props, matches_at,
    skip_spaces};
use crate::transform::{apply_spec, marker_text, replace_refs_from, replace_span_spec,
    RemovalScope};

verus! {

/// No declaration of `name` starts at or after `i` when `name` occurs
/// nowhere in `s` at all.
proof fn lemma_no_decl_from(s: Seq<u8>, name: Seq<u8>, i: int)
    requires
        0 <= i,
        forall|k: int| !matches_at(s, name, k),
    ensures
        classify_from(s, name, i) is None,
    decreases s.len() + 1 - i,
{
    if i < s.len() {
        assert(decl_kind_at(s, name, i) is None) by {
            assert(!matches_at(s, name, skip_spaces(s, i + kw_module().len())));
            assert(!matches_at(s, name, skip_spaces(s, i + kw_function().len())));
            assert(!matches_at(s, name, skip_spaces(s, i + kw_subroutine().len())));
        }
        lemma_no_decl_from(s, name, i + 1);
    }
}

/// Not-found invariance, classification side: an identifier that occurs
/// nowhere in the source text classifies as nothing, so the pipeline
/// reports a not-found outcome and — carrying no updated content — hands
/// the caller nothing to persist.
pub proof fn lemma_absent_identifier_not_found(s: Seq<u8>, name: Seq<u8>)
    requires
        find_from(s, name, 0) is None,
    ensures
        classify_spec(s, name) is None,
{
    lemma_find_from_props(s, name, 0);
    assert forall|k: int| !matches_at(s, name, k) by {
        if k >= 0 {
            assert(!matches_at(s, name, k));
        }
    }
    lemma_no_decl_from(s, name, 0);
}

/// Backup fidelity: the content before the span, the exact span bytes
/// held by the backup, and the content after the span concatenate back
/// to the original text, byte for byte.
pub proof fn lemma_backup_round_trip(s: Seq<u8>, a: int, b: int)
    requires
        0 <= a <= b <= s.len(),
    ensures
        s.subrange(0, a) + s.subrange(a, b) + s.subrange(b, s.len() as int) == s,
{
    assert(s.subrange(0, a) + s.subrange(a, b) + s.subrange(b, s.len() as int) =~= s);
}

/// After replacing the span `[a, b)` by the marker, `name` occurs
/// nowhere in the result, provided every occurrence of `name` lay within
/// the replaced span and the marker text itself is free of `name`.
/// The marker begins and ends with a space, so an identifier can never
/// straddle its edges.
pub proof fn lemma_no_occurrence_after_replacement(
    s: Seq<u8>,
    a: int,
    b: int,
    name: Seq<u8>,
    ts: Seq<u8>,
)
    requires
        is_identifier(name),
        0 <= a <= b <= s.len(),
        forall|j: int| matches_at(s, name, j) ==> a <= j && j + name.len() <= b,
        find_from(marker_text(ts), name, 0) is None,
    ensures
        forall|j: int| !matches_at(replace_span_spec(s, a, b, marker_text(ts)), name, j),
{
    let mk = marker_text(ts);
    let m = mk.len() as int;
    let u = replace_span_spec(s, a, b, mk);
    lemma_find_from_props(mk, name, 0);
    assert(mk[0] == 32);
    assert(mk[m - 1] == 32);
    assert(u.len() == a + m + (s.len() - b));
    assert forall|j: int| !matches_at(u, name, j) by {
        if matches_at(u, name, j) {
            if j + name.len() <= a {
                assert forall|k: int| 0 <= k < name.len() implies s[j + k] == name[k] by {
                    assert(u[j + k] == s[j + k]);
                }
                assert(matches_at(s, name, j));
                assert(false);
            } else if j >= a + m {
                let j2 = j - a - m + b;
                assert forall|k: int| 0 <= k < name.len() implies s[j2 + k] == name[k] by {
                    assert(u[j + k] == s[j2 + k]);
                }
                assert(matches_at(s, name, j2));
                assert(false);
            } else if a <= j && j + name.len() <= a + m {
                assert forall|k: int| 0 <= k < name.len() implies mk[j - a + k] == name[k] by {
                    assert(u[j + k] == mk[j - a + k]);
                }
                assert(matches_at(mk, name, j - a));
                assert(false);
            } else if j < a {
                assert(u[a] == mk[0]);
                assert(name[a - j] == u[a]);
                assert(is_word_byte(name[a - j]));
                assert(false);
            } else {
                assert(j + name.len() > a + m);
                assert(j < a + m);
                assert(u[a + m - 1] == mk[m - 1]);
                assert(name[a + m - 1 - j] == u[a + m - 1]);
                assert(is_word_byte(name[a + m - 1 - j]));
                assert(false);
            }
        }
    }
}

/// Where `name` has no call-site reference, the reference pass copies
/// the text unchanged.
proof fn lemma_no_refs_no_change(t: Seq<u8>, name: Seq<u8>, mk: Seq<u8>, i: int)
    requires
        0 <= i,
        forall|j: int| !matches_at(t, name, j),
    ensures
        replace_refs_from(t, name, mk, i) == t.subrange(i, t.len() as int) || i > t.len(),
    decreases t.len() + 1 - i,
{
    if i >= t.len() {
        if i <= t.len() {
            assert(replace_refs_from(t, name, mk, i) =~= t.subrange(i, t.len() as int));
        }
    } else {
        assert(call_end_at(t, name, i) is None) by {
            assert(!matches_at(t, name, skip_spaces(t, i + kw_call().len())));
        }
        lemma_no_refs_no_change(t, name, mk, i + 1);
        assert(seq![t[i]] + t.subrange(i + 1, t.len() as int) =~= t.subrange(
            i,
            t.len() as int,
        ));
    }
}

/// Idempotent post-state: when every occurrence of the identifier lay
/// within the removed span and the marker is free of it, the updated
/// content — under either scope — no longer holds the identifier at all,
/// so a second pipeline run over it classifies nothing and ends in a
/// not-found outcome.
pub proof fn lemma_removal_idempotent(
    s: Seq<u8>,
    a: int,
    b: int,
    name: Seq<u8>,
    ts: Seq<u8>,
    scope: RemovalScope,
)
    requires
        is_identifier(name),
        0 <= a <= b <= s.len(),
        forall|j: int| matches_at(s, name, j) ==> a <= j && j + name.len() <= b,
        find_from(marker_text(ts), name, 0) is None,
    ensures
        classify_spec(apply_spec(s, a, b, name, scope, ts), name) is None,
{
    let mk = marker_text(ts);
    let base = replace_span_spec(s, a, b, mk);
    lemma_no_occurrence_after_replacement(s, a, b, name, ts);
    match scope {
        RemovalScope::SelfOnly => {
            lemma_no_decl_from(base, name, 0);
        },
        RemovalScope::SelfAndReferences => {
            lemma_no_refs_no_change(base, name, mk, 0);
            assert(base.subrange(0, base.len() as int) =~= base);
            assert(apply_spec(s, a, b, name, scope, ts) == base);
            lemma_no_decl_from(base, name, 0);
        },
    }
}

/// Where no call-site reference remains, the reference pass is the
/// identity on the suffix.
proof fn lemma_count_zero_identity(t: Seq<u8>, name: Seq<u8>, mk: Seq<u8>, i: int)
    requires
        0 <= i <= t.len(),
        count_refs_from(t, name, i) == 0,
    ensures
        replace_refs_from(t, name, mk, i) == t.subrange(i, t.len() as int),
    decreases t.len() + 1 - i,
{
    if i >= t.len() {
        assert(replace_refs_from(t, name, mk, i) =~= t.subrange(i, t.len() as int));
    } else {
        match call_end_at(t, name, i) {
            Some(e) => {
                lemma_call_end_props(t, name, i);
                lemma_count_refs_nonneg(t, name, e);
                assert(false);
            },
            None => {
                lemma_count_zero_identity(t, name, mk, i + 1);
                assert(seq![t[i]] + t.subrange(i + 1, t.len() as int) =~= t.subrange(
                    i,
                    t.len() as int,
                ));
            },
        }
    }
}

/// The reference count is never negative.
proof fn lemma_count_refs_nonneg(t: Seq<u8>, name: Seq<u8>, i: int)
    requires
        0 <= i,
    ensures
        count_refs_from(t, name, i) >= 0,
    decreases t.len() + 1 - i,
{
    if i < t.len() {
        match call_end_at(t, name, i) {
            Some(e) => {
                lemma_call_end_props(t, name, i);
                lemma_count_refs_nonneg(t, name, e);
            },
            None => {
                lemma_count_refs_nonneg(t, name, i + 1);
            },
        }
    }
}

/// Where a call-site reference remains, the reference pass changes the
/// suffix.
proof fn lemma_count_pos_changes(t: Seq<u8>, name: Seq<u8>, mk: Seq<u8>, i: int)
    requires
        0 <= i <= t.len(),
        count_refs_from(t, name, i) > 0,
        mk.len() > 0,
        mk[0] != 99,
    ensures
        replace_refs_from(t, name, mk, i) != t.subrange(i, t.len() as int),
    decreases t.len() + 1 - i,
{
    assert(i < t.len());
    let rr = replace_refs_from(t, name, mk, i);
    let su = t.subrange(i, t.len() as int);
    match call_end_at(t, name, i) {
        Some(e) => {
            assert(matches_at(t, kw_call(), i));
            assert(t[i] == kw_call()[0]);
            assert(t[i] == 99);
            assert(rr[0] == mk[0]);
            assert(su[0] == t[i]);
            assert(rr != su);
        },
        None => {
            lemma_count_pos_changes(t, name, mk, i + 1);
            let rr2 = replace_refs_from(t, name, mk, i + 1);
            let su2 = t.subrange(i + 1, t.len() as int);
            assert(rr == seq![t[i]] + rr2);
            assert(su =~= seq![t[i]] + su2);
            if rr == su {
                assert(rr2 =~= su2) by {
                    assert(rr.len() == su.len());
                    assert forall|k: int| 0 <= k < rr2.len() implies rr2[k] == su2[k] by {
                        assert(rr[k + 1] == rr2[k]);
                        assert(su[k + 1] == su2[k]);
                    }
                }
                assert(false);
            }
        },
    }
}

/// Scope monotonicity: the content produced under `SelfAndReferences` is
/// exactly the `SelfOnly` content with its call-site references replaced
/// in turn — the marker insertions of the wider scope are those of the
/// narrower scope plus exactly one per remaining reference site.  With no
/// reference site the two contents coincide; with any, they differ.
pub proof fn lemma_scope_monotonicity(s: Seq<u8>, a: int, b: int, name: Seq<u8>, ts: Seq<u8>)
    requires
        0 <= a <= b <= s.len(),
    ensures
        apply_spec(s, a, b, name, RemovalScope::SelfAndReferences, ts) == replace_refs_from(
            apply_spec(s, a, b, name, RemovalScope::SelfOnly, ts),
            name,
            marker_text(ts),
            0,
        ),
        count_refs_from(apply_spec(s, a, b, name, RemovalScope::SelfOnly, ts), name, 0)
            == ref_sites_from(apply_spec(s, a, b, name, RemovalScope::SelfOnly, ts), name, 0).len(),
        count_refs_from(apply_spec(s, a, b, name, RemovalScope::SelfOnly, ts), name, 0) == 0
            ==> apply_spec(s, a, b, name, RemovalScope::SelfAndReferences, ts) == apply_spec(
            s,
            a,
            b,
            name,
            RemovalScope::SelfOnly,
            ts,
        ),
        count_refs_from(apply_spec(s, a, b, name, RemovalScope::SelfOnly, ts), name, 0) > 0
            ==> apply_spec(s, a, b, name, RemovalScope::SelfAndReferences, ts) != apply_spec(
            s,
            a,
            b,
            name,
            RemovalScope::SelfOnly,
            ts,
        ),
{
    let base = apply_spec(s, a, b, name, RemovalScope::SelfOnly, ts);
    let mk = marker_text(ts);
    lemma_count_refs_is_site_count(base, name, 0);
    assert(base.subrange(0, base.len() as int) =~= base);
    if count_refs_from(base, name, 0) == 0 {
        lemma_count_zero_identity(base, name, mk, 0);
    } else {
        lemma_count_refs_nonneg(base, name, 0);
        assert(mk.len() > 0 && mk[0] == 32) by {
            assert(mk[0] == marker_head()[0]);
        }
        lemma_count_pos_changes(base, name, mk, 0);
    }
}

/// Suggestion ranking determinism: the ranking is a function of the
/// source and the query alone — the executable `suggest` is pinned to
/// `suggest_spec`, so two runs over the same inputs return the same
/// ordered sequence.
pub proof fn lemma_suggestion_deterministic(
    s: Seq<u8>,
    q: Seq<u8>,
    r1: Seq<Seq<u8>>,
    r2: Seq<Seq<u8>>,
)
    requires
        r1 == suggest_spec(s, q),
        r2 == suggest_spec(s, q),
    ensures
        r1 == r2,
{
}

/// A stable insertion into a distance-sorted sequence stays sorted.
proof fn lemma_insert_sorted(q: Seq<u8>, x: Seq<u8>, xs: Seq<Seq<u8>>)
    requires
        forall|k: int| 0 <= k < xs.len() - 1 ==> edit_distance_spec(#[trigger] xs[k], q)
            <= edit_distance_spec(xs[k + 1], q),
    ensures
        forall|k: int| 0 <= k < insert_by_distance(q, x, xs).len() - 1 ==> edit_distance_spec(
            #[trigger] insert_by_distance(q, x, xs)[k],
            q,
        ) <= edit_distance_spec(insert_by_distance(q, x, xs)[k + 1], q),
    decreases xs.len(),
{
    let r = insert_by_distance(q, x, xs);
    if xs.len() == 0 {
    } else if edit_distance_spec(xs[0], q) <= edit_distance_spec(x, q) {
        let ys = xs.drop_first();
        assert forall|k: int| 0 <= k < ys.len() - 1 implies edit_distance_spec(
            #[trigger] ys[k],
            q,
        ) <= edit_distance_spec(ys[k + 1], q) by {
            assert(ys[k] == xs[k + 1]);
            assert(ys[k + 1] == xs[k + 2]);
        }
        lemma_insert_sorted(q, x, ys);
        let ri = insert_by_distance(q, x, ys);
        assert(r == seq![xs[0]] + ri);
        assert forall|k: int| 0 <= k < r.len() - 1 implies edit_distance_spec(
            #[trigger] r[k],
            q,
        ) <= edit_distance_spec(r[k + 1], q) by {
            if k == 0 {
                assert(r[0] == xs[0]);
                assert(r[1] == ri[0]);
                if ys.len() == 0 {
                    assert(ri[0] == x);
                } else if edit_distance_spec(ys[0], q) <= edit_distance_spec(x, q) {
                    assert(ri[0] == ys[0]);
                    assert(ys[0] == xs[1]);
                } else {
                    assert(ri[0] == x);
                }
            } else {
                assert(r[k] == ri[k - 1]);
                assert(r[k + 1] == ri[k]);
            }
        }
    } else {
        assert forall|k: int| 0 <= k < r.len() - 1 implies edit_distance_spec(
            #[trigger] r[k],
            q,
        ) <= edit_distance_spec(r[k + 1], q) by {
            if k == 0 {
                assert(r[0] == x);
                assert(r[1] == xs[0]);
            } else {
                assert(r[k] == xs[k - 1]);
                assert(r[k + 1] == xs[k]);
            }
        }
    }
}

/// The suggestion ranking is sorted: each entry is at least as close to
/// the query as the next.
pub proof fn lemma_suggestions_sorted(q: Seq<u8>, xs: Seq<Seq<u8>>)
    ensures
        forall|k: int| 0 <= k < sort_by_distance(q, xs).len() - 1 ==> edit_distance_spec(
            #[trigger] sort_by_distance(q, xs)[k],
            q,
        ) <= edit_distance_spec(sort_by_distance(q, xs)[k + 1], q),
    decreases xs.len(),
{
    if xs.len() > 0 {
        lemma_suggestions_sorted(q, xs.drop_last());
        lemma_insert_sorted(q, xs.last(), sort_by_distance(q, xs.drop_last()));
    }
}

} // verus!
