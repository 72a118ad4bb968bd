//! Suggestions for a name that was not found: every declared module,
//! function and subroutine name in the file, ranked ascending by edit
//! distance (unit-cost insertions, deletions and substitutions) to the
//! query, ties broken by first occurrence in document order.

use vstd::prelude::*;
use crate::patterns::{kw_function, kw_function_vec, kw_module, kw_module_vec, kw_subroutine,
    kw_subroutine_vec};
use crate::text::{byte_is_word, bytes_match_at, copy_range, is_word_byte,
    lemma_skip_spaces_props, lemma_skip_word_bytes_props, matches_at, skip_spaces,
    skip_spaces_in, skip_word_bytes, skip_word_bytes_in};

verus! {

/// The views of a sequence of byte vectors.
pub open spec fn seq_views(vs: Seq<Vec<u8>>) -> Seq<Seq<u8>> {
    vs.map_values(|v: Vec<u8>| v@)
}

/// Unit-cost edit distance between `a` and `b`: the least number of
/// byte insertions, deletions and substitutions turning one into the
/// other.
pub open spec fn edit_distance_spec(a: Seq<u8>, b: Seq<u8>) -> int
    decreases a.len(), b.len(),
{
    if a.len() == 0 {
        b.len() as int
    } else if b.len() == 0 {
        a.len() as int
    } else {
        min3(
            edit_distance_spec(a.drop_last(), b) + 1,
            edit_distance_spec(a, b.drop_last()) + 1,
            edit_distance_spec(a.drop_last(), b.drop_last()) + (if a.last() == b.last() {
                0int
            } else {
                1int
            }),
        )
    }
}

/// The least of three values.
pub open spec fn min3(x: int, y: int, z: int) -> int {
    if x <= y && x <= z {
        x
    } else if y <= z {
        y
    } else {
        z
    }
}

/// Edit distance is non-negative and at most the longer length.
pub proof fn lemma_edit_distance_bounds(a: Seq<u8>, b: Seq<u8>)
    ensures
        0 <= edit_distance_spec(a, b),
        edit_distance_spec(a, b) <= a.len() || edit_distance_spec(a, b) <= b.len(),
    decreases a.len(), b.len(),
{
    if a.len() == 0 {
    } else if b.len() == 0 {
    } else {
        lemma_edit_distance_bounds(a.drop_last(), b);
        lemma_edit_distance_bounds(a, b.drop_last());
        lemma_edit_distance_bounds(a.drop_last(), b.drop_last());
    }
}

/// A declaration-shaped occurrence under keyword `kw` at offset `i`,
/// whatever the declared name: the keyword with a word boundary before
/// it, at least one whitespace byte, then the first byte of a name.
pub open spec fn any_decl_at(s: Seq<u8>, kw: Seq<u8>, i: int) -> bool {
    &&& matches_at(s, kw, i)
    &&& (i == 0 || !is_word_byte(s[i - 1]))
    &&& ({
        let p = i + kw.len();
        let q = skip_spaces(s, p);
        &&& p < q
        &&& q < s.len()
        &&& is_word_byte(s[q])
    })
}

/// The keyword whose declaration shape starts at offset `i`, if any.
/// The three keywords begin with distinct bytes, so at most one fits.
pub open spec fn decl_kw_at(s: Seq<u8>, i: int) -> Option<Seq<u8>> {
    if any_decl_at(s, kw_module(), i) {
        Some(kw_module())
    } else if any_decl_at(s, kw_function(), i) {
        Some(kw_function())
    } else if any_decl_at(s, kw_subroutine(), i) {
        Some(kw_subroutine())
    } else {
        None
    }
}

/// Every declared name at or after offset `i`, in document order: at each
/// declaration-shaped occurrence the maximal word-byte run after the
/// keyword is collected and the scan resumes after it.
pub open spec fn collect_names_from(s: Seq<u8>, i: int) -> Seq<Seq<u8>>
    recommends
        0 <= i,
    decreases s.len() + 1 - i,
    when 0 <= i
    via collect_names_from_decreases
{
    if i >= s.len() {
        Seq::empty()
    } else {
        match decl_kw_at(s, i) {
            Some(kw) => {
                let q = skip_spaces(s, i + kw.len());
                let r = skip_word_bytes(s, q);
                seq![s.subrange(q, r)] + collect_names_from(s, r)
            },
            None => collect_names_from(s, i + 1),
        }
    }
}

#[via_fn]
proof fn collect_names_from_decreases(s: Seq<u8>, i: int) {
    if i < s.len() {
        match decl_kw_at(s, i) {
            Some(kw) => {
                lemma_skip_spaces_props(s, i + kw.len());
                lemma_skip_word_bytes_props(s, skip_spaces(s, i + kw.len()));
            },
            None => {},
        }
    }
}

/// Every collected name is a range of the text, so no longer than it.
pub proof fn lemma_collect_names_bounds(s: Seq<u8>, i: int)
    requires
        0 <= i,
    ensures
        forall|k: int| 0 <= k < collect_names_from(s, i).len() ==> (#[trigger] collect_names_from(
            s,
            i,
        )[k]).len() <= s.len(),
    decreases s.len() + 1 - i,
{
    if i >= s.len() {
    } else {
        match decl_kw_at(s, i) {
            Some(kw) => {
                let q = skip_spaces(s, i + kw.len());
                let r = skip_word_bytes(s, q);
                lemma_skip_spaces_props(s, i + kw.len());
                lemma_skip_word_bytes_props(s, q);
                lemma_collect_names_bounds(s, r);
                let names = collect_names_from(s, i);
                let rest = collect_names_from(s, r);
                assert forall|k: int| 0 <= k < names.len() implies (#[trigger] names[k]).len()
                    <= s.len() by {
                    if k == 0 {
                        assert(names[k] == s.subrange(q, r));
                    } else {
                        assert(names[k] == rest[k - 1]);
                    }
                }
            },
            None => {
                lemma_collect_names_bounds(s, i + 1);
                assert(collect_names_from(s, i) == collect_names_from(s, i + 1));
                assert forall|k: int| 0 <= k < collect_names_from(s, i).len() implies (
                #[trigger] collect_names_from(s, i)[k]).len() <= s.len() by {
                    assert(collect_names_from(s, i)[k] == collect_names_from(s, i + 1)[k]);
                }
            },
        }
    }
}

/// `x` inserted into `xs` after every entry whose distance to `q` is no
/// greater than its own: a stable insertion.
pub open spec fn insert_by_distance(q: Seq<u8>, x: Seq<u8>, xs: Seq<Seq<u8>>) -> Seq<Seq<u8>>
    decreases xs.len(),
{
    if xs.len() == 0 {
        seq![x]
    } else if edit_distance_spec(xs[0], q) <= edit_distance_spec(x, q) {
        seq![xs[0]] + insert_by_distance(q, x, xs.drop_first())
    } else {
        seq![x] + xs
    }
}

/// `xs` stably sorted ascending by edit distance to `q`: entries are
/// inserted left to right, each after all entries of equal distance, so
/// ties keep their document order.
pub open spec fn sort_by_distance(q: Seq<u8>, xs: Seq<Seq<u8>>) -> Seq<Seq<u8>>
    decreases xs.len(),
{
    if xs.len() == 0 {
        Seq::empty()
    } else {
        insert_by_distance(q, xs.last(), sort_by_distance(q, xs.drop_last()))
    }
}

/// The full suggestion ranking for `q` against the names declared in `s`.
pub open spec fn suggest_spec(s: Seq<u8>, q: Seq<u8>) -> Seq<Seq<u8>> {
    sort_by_distance(q, collect_names_from(s, 0))
}

/// A stable insertion lands exactly at the first position whose entry is
/// strictly farther from `q` than `x` is.
pub proof fn lemma_insert_at_position(q: Seq<u8>, x: Seq<u8>, xs: Seq<Seq<u8>>, j: int)
    requires
        0 <= j <= xs.len(),
        forall|k: int| 0 <= k < j ==> edit_distance_spec(#[trigger] xs[k], q)
            <= edit_distance_spec(x, q),
        j < xs.len() ==> edit_distance_spec(xs[j], q) > edit_distance_spec(x, q),
    ensures
        insert_by_distance(q, x, xs) == xs.take(j) + seq![x] + xs.skip(j),
    decreases xs.len(),
{
    if xs.len() == 0 {
        assert(insert_by_distance(q, x, xs) =~= xs.take(j) + seq![x] + xs.skip(j));
    } else if edit_distance_spec(xs[0], q) <= edit_distance_spec(x, q) {
        assert(j >= 1);
        let ys = xs.drop_first();
        assert forall|k: int| 0 <= k < j - 1 implies edit_distance_spec(#[trigger] ys[k], q)
            <= edit_distance_spec(x, q) by {
            assert(ys[k] == xs[k + 1]);
        }
        if j - 1 < ys.len() {
            assert(ys[j - 1] == xs[j]);
        }
        lemma_insert_at_position(q, x, ys, j - 1);
        assert(seq![xs[0]] + (ys.take(j - 1) + seq![x] + ys.skip(j - 1)) =~= xs.take(j)
            + seq![x] + xs.skip(j));
    } else {
        assert(j == 0);
        assert(seq![x] + xs =~= xs.take(0) + seq![x] + xs.skip(0));
    }
}

/// Compute the edit distance between `a` and `b`.
pub fn edit_distance(a: &[u8], b: &[u8]) -> (r: usize)
    requires
        a@.len() < usize::MAX,
        b@.len() < usize::MAX,
    ensures
        r as int == edit_distance_spec(a@, b@),
{
    let m: usize = a.len();
    let w: usize = b.len();
    let mut prev: Vec<usize> = Vec::new();
    let mut j: usize = 0;
    while j <= w
        invariant
            0 <= j <= w + 1,
            w == b@.len() < usize::MAX,
            prev@.len() == j,
            forall|t: int| 0 <= t < j ==> prev@[t] as int == edit_distance_spec(
                a@.take(0),
                b@.take(t),
            ),
        decreases w + 1 - j,
    {
        proof {
            assert(a@.take(0) =~= Seq::<u8>::empty());
            assert(b@.take(j as int).len() == j);
        }
        prev.push(j);
        j = j + 1;
    }
    let mut i: usize = 1;
    while i <= m
        invariant
            1 <= i <= m + 1,
            m == a@.len() < usize::MAX,
            w == b@.len() < usize::MAX,
            prev@.len() == w + 1,
            forall|t: int| 0 <= t <= w ==> prev@[t] as int == edit_distance_spec(
                a@.take(i - 1),
                b@.take(t),
            ),
        decreases m + 1 - i,
    {
        let mut curr: Vec<usize> = Vec::new();
        proof {
            assert(b@.take(0) =~= Seq::<u8>::empty());
            assert(a@.take(i as int).len() == i);
        }
        curr.push(i);
        let mut jj: usize = 1;
        while jj <= w
            invariant
                1 <= jj <= w + 1,
                1 <= i <= m,
                m == a@.len() < usize::MAX,
                w == b@.len() < usize::MAX,
                prev@.len() == w + 1,
                forall|t: int| 0 <= t <= w ==> prev@[t] as int == edit_distance_spec(
                    a@.take(i - 1),
                    b@.take(t),
                ),
                curr@.len() == jj,
                forall|t: int| 0 <= t < jj ==> curr@[t] as int == edit_distance_spec(
                    a@.take(i as int),
                    b@.take(t),
                ),
            decreases w + 1 - jj,
        {
            proof {
                lemma_edit_distance_bounds(a@.take(i - 1), b@.take(jj as int));
                lemma_edit_distance_bounds(a@.take(i as int), b@.take(jj - 1));
                lemma_edit_distance_bounds(a@.take(i - 1), b@.take(jj - 1));
                assert(a@.take(i - 1).len() == i - 1);
                assert(a@.take(i as int).len() == i);
                assert(b@.take(jj - 1).len() == jj - 1);
                assert(b@.take(jj as int).len() == jj);
            }
            let d1: usize = prev[jj] + 1;
            let d2: usize = curr[jj - 1] + 1;
            let cost: usize = if a[i - 1] == b[jj - 1] {
                0
            } else {
                1
            };
            let d3: usize = prev[jj - 1] + cost;
            let best: usize = if d1 <= d2 && d1 <= d3 {
                d1
            } else if d2 <= d3 {
                d2
            } else {
                d3
            };
            proof {
                lemma_edit_step(a@, b@, i as int, jj as int);
            }
            curr.push(best);
            jj = jj + 1;
        }
        prev = curr;
        i = i + 1;
    }
    proof {
        assert(a@.take(m as int) =~= a@);
        assert(b@.take(w as int) =~= b@);
    }
    prev[w]
}

/// One step of the edit-distance recurrence, phrased over prefixes.
proof fn lemma_edit_step(a: Seq<u8>, b: Seq<u8>, i: int, j: int)
    requires
        1 <= i <= a.len(),
        1 <= j <= b.len(),
    ensures
        edit_distance_spec(a.take(i), b.take(j)) == min3(
            edit_distance_spec(a.take(i - 1), b.take(j)) + 1,
            edit_distance_spec(a.take(i), b.take(j - 1)) + 1,
            edit_distance_spec(a.take(i - 1), b.take(j - 1)) + (if a[i - 1] == b[j - 1] {
                0int
            } else {
                1int
            }),
        ),
{
    let ai = a.take(i);
    let bj = b.take(j);
    assert(ai.len() == i);
    assert(bj.len() == j);
    assert(ai.drop_last() =~= a.take(i - 1));
    assert(bj.drop_last() =~= b.take(j - 1));
    assert(ai.last() == a[i - 1]);
    assert(bj.last() == b[j - 1]);
}

/// The name-start and name-end offsets of the declaration shape at
/// offset `i`, if one starts there.
fn decl_name_at(s: &[u8], kws: &[&[u8]; 3], i: usize) -> (r: Option<(usize, usize)>)
    requires
        kws[0]@ == kw_module(),
        kws[1]@ == kw_function(),
        kws[2]@ == kw_subroutine(),
    ensures
        match r {
            Some(p) => {
                &&& decl_kw_at(s@, i as int) is Some
                &&& p.0 as int == skip_spaces(s@, i + decl_kw_at(s@, i as int)->Some_0.len())
                &&& p.1 as int == skip_word_bytes(s@, p.0 as int)
                &&& p.0 <= p.1 <= s@.len()
            },
            None => decl_kw_at(s@, i as int) is None,
        },
{
    let kw: &[u8] = if any_decl_match(s, kws[0], i) {
        kws[0]
    } else if any_decl_match(s, kws[1], i) {
        kws[1]
    } else if any_decl_match(s, kws[2], i) {
        kws[2]
    } else {
        return None;
    };
    let n: usize = s.len();
    assert(i + kw@.len() <= n);
    let p: usize = i + kw.len();
    let q: usize = skip_spaces_in(s, p);
    let r: usize = skip_word_bytes_in(s, q);
    proof {
        lemma_skip_spaces_props(s@, p as int);
        lemma_skip_word_bytes_props(s@, q as int);
    }
    Some((q, r))
}

/// Whether a declaration shape under `kw` starts at offset `i`.
fn any_decl_match(s: &[u8], kw: &[u8], i: usize) -> (r: bool)
    ensures
        r == any_decl_at(s@, kw@, i as int),
{
    if !bytes_match_at(s, kw, i) {
        return false;
    }
    if i > 0 && byte_is_word(s[i - 1]) {
        return false;
    }
    let p: usize = i + kw.len();
    let q: usize = skip_spaces_in(s, p);
    proof {
        lemma_skip_spaces_props(s@, p as int);
    }
    if q == p {
        return false;
    }
    if q >= s.len() {
        return false;
    }
    byte_is_word(s[q])
}

/// Collect every declared name in `source`, in document order.
pub fn collect_names(source: &[u8]) -> (r: Vec<Vec<u8>>)
    ensures
        seq_views(r@) == collect_names_from(source@, 0),
{
    let kw_m: Vec<u8> = kw_module_vec();
    let kw_f: Vec<u8> = kw_function_vec();
    let kw_s: Vec<u8> = kw_subroutine_vec();
    let kws: [&[u8]; 3] = [kw_m.as_slice(), kw_f.as_slice(), kw_s.as_slice()];
    let n: usize = source.len();
    let mut out: Vec<Vec<u8>> = Vec::new();
    let mut i: usize = 0;
    proof {
        assert(seq_views(out@) + collect_names_from(source@, 0) =~= collect_names_from(
            source@,
            0,
        ));
    }
    while i < n
        invariant
            0 <= i,
            n == source@.len(),
            kws[0]@ == kw_module(),
            kws[1]@ == kw_function(),
            kws[2]@ == kw_subroutine(),
            collect_names_from(source@, 0) == seq_views(out@) + collect_names_from(
                source@,
                i as int,
            ),
        decreases n - i,
    {
        let ghost prev = out@;
        match decl_name_at(source, &kws, i) {
            Some((q, r)) => {
                let name: Vec<u8> = copy_range(source, q, r);
                out.push(name);
                proof {
                    assert(seq_views(out@) =~= seq_views(prev) + seq![source@.subrange(
                        q as int,
                        r as int,
                    )]);
                    assert(seq_views(prev) + (seq![source@.subrange(q as int, r as int)]
                        + collect_names_from(source@, r as int)) =~= seq_views(out@)
                        + collect_names_from(source@, r as int));
                    assert(r > i) by {
                        lemma_skip_spaces_props(
                            source@,
                            i + decl_kw_at(source@, i as int)->Some_0.len(),
                        );
                        lemma_skip_word_bytes_props(source@, q as int);
                    }
                }
                i = r;
            },
            None => {
                i = i + 1;
            },
        }
    }
    proof {
        assert(seq_views(out@) + collect_names_from(source@, i as int) =~= seq_views(out@));
    }
    out
}

/// Rank every declared name of `source` by edit distance to `query`,
/// ascending, ties kept in document order.
pub fn suggest(source: &[u8], query: &[u8]) -> (r: Vec<Vec<u8>>)
    requires
        source@.len() < usize::MAX,
        query@.len() < usize::MAX,
    ensures
        seq_views(r@) == suggest_spec(source@, query@),
{
    let names: Vec<Vec<u8>> = collect_names(source);
    proof {
        lemma_collect_names_bounds(source@, 0);
        assert forall|k: int| 0 <= k < names@.len() implies (#[trigger] names@[k])@.len()
            <= source@.len() by {
            assert(seq_views(names@)[k] == names@[k]@);
        }
    }
    let mut out: Vec<Vec<u8>> = Vec::new();
    let mut dists: Vec<usize> = Vec::new();
    let mut idx: usize = 0;
    while idx < names.len()
        invariant
            0 <= idx <= names@.len(),
            source@.len() < usize::MAX,
            query@.len() < usize::MAX,
            seq_views(names@) == collect_names_from(source@, 0),
            forall|k: int| 0 <= k < names@.len() ==> (#[trigger] names@[k])@.len()
                <= source@.len(),
            out@.len() == dists@.len(),
            seq_views(out@) == sort_by_distance(query@, seq_views(names@).take(idx as int)),
            forall|k: int| 0 <= k < out@.len() ==> (#[trigger] dists@[k]) as int
                == edit_distance_spec(out@[k]@, query@),
        decreases names@.len() - idx,
    {
        let x: Vec<u8> = copy_range(names[idx].as_slice(), 0, names[idx].len());
        proof {
            assert(x@ =~= names@[idx as int]@);
        }
        let dx: usize = edit_distance(x.as_slice(), query);
        let mut j: usize = 0;
        while j < dists.len() && dists[j] <= dx
            invariant
                0 <= j <= dists@.len(),
                out@.len() == dists@.len(),
                forall|k: int| 0 <= k < out@.len() ==> (#[trigger] dists@[k]) as int
                    == edit_distance_spec(out@[k]@, query@),
                forall|k: int| 0 <= k < j ==> (#[trigger] dists@[k]) <= dx,
            decreases dists@.len() - j,
        {
            j = j + 1;
        }
        let ghost prev = out@;
        let ghost prevd = dists@;
        let ghost xv = names@[idx as int]@;
        proof {
            assert(x@ == xv);
            assert forall|k: int| 0 <= k < j implies edit_distance_spec(
                #[trigger] seq_views(prev)[k],
                query@,
            ) <= edit_distance_spec(xv, query@) by {
                assert(seq_views(prev)[k] == prev[k]@);
                assert(prevd[k] as int == edit_distance_spec(prev[k]@, query@));
                assert(prevd[k] <= dx);
            }
            if (j as int) < prev.len() {
                assert(seq_views(prev)[j as int] == prev[j as int]@);
                assert(prevd[j as int] as int == edit_distance_spec(prev[j as int]@, query@));
            }
            lemma_insert_at_position(query@, xv, seq_views(prev), j as int);
        }
        out.insert(j, x);
        dists.insert(j, dx);
        proof {
            prev.insert_ensures(j as int, x);
            prevd.insert_ensures(j as int, dx);
            assert forall|k: int| 0 <= k < out@.len() implies (#[trigger] dists@[k]) as int
                == edit_distance_spec(out@[k]@, query@) by {
                if k < j {
                    assert(out@[k] == prev[k]);
                    assert(dists@[k] == prevd[k]);
                } else if k == j {
                    assert(out@[k] == x);
                    assert(dists@[k] == dx);
                } else {
                    assert(out@[k] == prev[k - 1]);
                    assert(dists@[k] == prevd[k - 1]);
                }
            }
            assert(seq_views(out@) =~= seq_views(prev).take(j as int) + seq![xv]
                + seq_views(prev).skip(j as int));
            assert(seq_views(names@).take(idx + 1 as int).drop_last() =~= seq_views(
                names@,
            ).take(idx as int));
            assert(seq_views(names@).take(idx + 1 as int).last() == names@[idx as int]@);
        }
        idx = idx + 1;
    }
    proof {
        assert(seq_views(names@).take(names@.len() as int) =~= seq_views(names@));
    }
    out
}

} // verus!
