//! Byte-level text primitives: character classes, pattern matching at an
//! offset, first-occurrence search, whitespace runs, and small builders for
//! byte vectors.  Everything downstream (classification, span location,
//! reference finding) is specified in terms of these.

use vstd::prelude::*;

verus! {

/// A byte that can be part of an identifier: ASCII letter, digit or `_`.
pub open spec fn is_word_byte(b: u8) -> bool {
    (97 <= b && b <= 122) || (65 <= b && b <= 90) || (48 <= b && b <= 57) || b == 95
}

/// An ASCII whitespace byte: space, tab, line feed, vertical tab, form feed
/// or carriage return.
pub open spec fn is_space_byte(b: u8) -> bool {
    b == 32 || b == 9 || b == 10 || b == 11 || b == 12 || b == 13
}

/// A non-empty run of word bytes: the shape of every identifier this
/// library accepts.
pub open spec fn is_identifier(s: Seq<u8>) -> bool {
    s.len() > 0 && forall|k: int| 0 <= k < s.len() ==> is_word_byte(s[k])
}

/// `pat` occurs in `s` starting exactly at offset `i`.
pub open spec fn matches_at(s: Seq<u8>, pat: Seq<u8>, i: int) -> bool {
    &&& 0 <= i
    &&& i + pat.len() <= s.len()
    &&& forall|k: int| 0 <= k < pat.len() ==> s[i + k] == pat[k]
}

/// Offset of the first occurrence of `pat` in `s` at or after `from`.
pub open spec fn find_from(s: Seq<u8>, pat: Seq<u8>, from: int) -> Option<int>
    recommends
        0 <= from,
    decreases s.len() + 1 - from,
{
    if from < 0 || from + pat.len() > s.len() {
        None
    } else if matches_at(s, pat, from) {
        Some(from)
    } else {
        find_from(s, pat, from + 1)
    }
}

/// Offset of the first occurrence of the byte `b` in `s` at or after `from`.
pub open spec fn find_byte_from(s: Seq<u8>, b: u8, from: int) -> Option<int>
    recommends
        0 <= from,
    decreases s.len() + 1 - from,
{
    if from < 0 || from >= s.len() {
        None
    } else if s[from] == b {
        Some(from)
    } else {
        find_byte_from(s, b, from + 1)
    }
}

/// First offset at or after `from` holding a non-whitespace byte
/// (`s.len()` if the rest of `s` is whitespace).
pub open spec fn skip_spaces(s: Seq<u8>, from: int) -> int
    recommends
        0 <= from <= s.len(),
    decreases s.len() + 1 - from,
{
    if from < 0 || from >= s.len() {
        s.len() as int
    } else if !is_space_byte(s[from]) {
        from
    } else {
        skip_spaces(s, from + 1)
    }
}

/// First offset at or after `from` holding a non-word byte
/// (`s.len()` if the rest of `s` is word bytes).
pub open spec fn skip_word_bytes(s: Seq<u8>, from: int) -> int
    recommends
        0 <= from <= s.len(),
    decreases s.len() + 1 - from,
{
    if from < 0 || from >= s.len() {
        s.len() as int
    } else if !is_word_byte(s[from]) {
        from
    } else {
        skip_word_bytes(s, from + 1)
    }
}

/// A found offset really carries an occurrence, lies in the searched range,
/// and nothing earlier matches; `None` means nothing matches at all.
pub proof fn lemma_find_from_props(s: Seq<u8>, pat: Seq<u8>, from: int)
    requires
        0 <= from,
    ensures
        match find_from(s, pat, from) {
            Some(j) => matches_at(s, pat, j) && from <= j && forall|k: int|
                from <= k < j ==> !matches_at(s, pat, k),
            None => forall|k: int| from <= k ==> !matches_at(s, pat, k),
        },
    decreases s.len() + 1 - from,
{
    if from + pat.len() > s.len() {
        assert forall|k: int| from <= k implies !matches_at(s, pat, k) by {}
    } else if matches_at(s, pat, from) {
    } else {
        lemma_find_from_props(s, pat, from + 1);
    }
}

/// A found byte offset really holds the byte, lies in the searched range,
/// and nothing earlier does; `None` means the byte is absent from there on.
pub proof fn lemma_find_byte_from_props(s: Seq<u8>, b: u8, from: int)
    requires
        0 <= from,
    ensures
        match find_byte_from(s, b, from) {
            Some(j) => from <= j < s.len() && s[j] == b && forall|k: int|
                from <= k < j ==> s[k] != b,
            None => forall|k: int| from <= k < s.len() ==> s[k] != b,
        },
    decreases s.len() + 1 - from,
{
    if from < s.len() && s[from] != b {
        lemma_find_byte_from_props(s, b, from + 1);
    }
}

/// The bounds of `skip_spaces`: it never moves backwards, never passes the
/// end, skips only whitespace and stops on a non-whitespace byte.
pub proof fn lemma_skip_spaces_props(s: Seq<u8>, from: int)
    requires
        0 <= from <= s.len(),
    ensures
        from <= skip_spaces(s, from) <= s.len(),
        forall|k: int| from <= k < skip_spaces(s, from) ==> is_space_byte(s[k]),
        skip_spaces(s, from) < s.len() ==> !is_space_byte(s[skip_spaces(s, from)]),
    decreases s.len() + 1 - from,
{
    if from < s.len() && is_space_byte(s[from]) {
        lemma_skip_spaces_props(s, from + 1);
    }
}

/// The bounds of `skip_word_bytes`, in the same shape as for `skip_spaces`.
pub proof fn lemma_skip_word_bytes_props(s: Seq<u8>, from: int)
    requires
        0 <= from <= s.len(),
    ensures
        from <= skip_word_bytes(s, from) <= s.len(),
        forall|k: int| from <= k < skip_word_bytes(s, from) ==> is_word_byte(s[k]),
        skip_word_bytes(s, from) < s.len() ==> !is_word_byte(s[skip_word_bytes(s, from)]),
    decreases s.len() + 1 - from,
{
    if from < s.len() && is_word_byte(s[from]) {
        lemma_skip_word_bytes_props(s, from + 1);
    }
}

/// Whether `pat` occurs in `s` starting exactly at offset `i`.
pub fn bytes_match_at(s: &[u8], pat: &[u8], i: usize) -> (r: bool)
    ensures
        r == matches_at(s@, pat@, i as int),
{
    if i > s.len() || pat.len() > s.len() - i {
        return false;
    }
    let mut k: usize = 0;
    while k < pat.len()
        invariant
            0 <= k <= pat@.len(),
            i + pat@.len() <= s@.len(),
            s@.len() <= usize::MAX,
            forall|t: int| 0 <= t < k ==> s@[i + t] == pat@[t],
        decreases pat@.len() - k,
    {
        if s[i + k] != pat[k] {
            return false;
        }
        k = k + 1;
    }
    true
}

/// First occurrence of `pat` in `s` at or after `from`, if any.
pub fn find_pattern_from(s: &[u8], pat: &[u8], from: usize) -> (r: Option<usize>)
    ensures
        match r {
            Some(j) => Some(j as int) == find_from(s@, pat@, from as int),
            None => find_from(s@, pat@, from as int) is None,
        },
{
    let mut i: usize = from;
    let n: usize = s.len();
    let m: usize = pat.len();
    if m > n {
        return None;
    }
    while i <= n - m
        invariant
            from <= i,
            n == s@.len(),
            m == pat@.len(),
            m <= n,
            find_from(s@, pat@, from as int) == find_from(s@, pat@, i as int),
        decreases s@.len() + 1 - i,
    {
        if bytes_match_at(s, pat, i) {
            return Some(i);
        }
        i = i + 1;
    }
    None
}

/// First occurrence of the byte `b` in `s` at or after `from`, if any.
pub fn find_byte_in(s: &[u8], b: u8, from: usize) -> (r: Option<usize>)
    ensures
        match r {
            Some(j) => Some(j as int) == find_byte_from(s@, b, from as int),
            None => find_byte_from(s@, b, from as int) is None,
        },
{
    let mut i: usize = from;
    while i < s.len()
        invariant
            from <= i,
            find_byte_from(s@, b, from as int) == find_byte_from(s@, b, i as int),
        decreases s@.len() - i,
    {
        if s[i] == b {
            return Some(i);
        }
        i = i + 1;
    }
    None
}

/// First offset at or after `from` holding a non-whitespace byte.
pub fn skip_spaces_in(s: &[u8], from: usize) -> (r: usize)
    requires
        from <= s@.len(),
    ensures
        r as int == skip_spaces(s@, from as int),
{
    let mut i: usize = from;
    while i < s.len()
        invariant
            from <= i <= s@.len(),
            skip_spaces(s@, from as int) == skip_spaces(s@, i as int),
        decreases s@.len() - i,
    {
        if !byte_is_space(s[i]) {
            return i;
        }
        i = i + 1;
    }
    i
}

/// First offset at or after `from` holding a non-word byte.
pub fn skip_word_bytes_in(s: &[u8], from: usize) -> (r: usize)
    requires
        from <= s@.len(),
    ensures
        r as int == skip_word_bytes(s@, from as int),
{
    let mut i: usize = from;
    while i < s.len()
        invariant
            from <= i <= s@.len(),
            skip_word_bytes(s@, from as int) == skip_word_bytes(s@, i as int),
        decreases s@.len() - i,
    {
        if !byte_is_word(s[i]) {
            return i;
        }
        i = i + 1;
    }
    i
}

/// Executable mirror of `is_space_byte`.
pub fn byte_is_space(b: u8) -> (r: bool)
    ensures
        r == is_space_byte(b),
{
    b == 32 || b == 9 || b == 10 || b == 11 || b == 12 || b == 13
}

/// Executable mirror of `is_word_byte`.
pub fn byte_is_word(b: u8) -> (r: bool)
    ensures
        r == is_word_byte(b),
{
    (97 <= b && b <= 122) || (65 <= b && b <= 90) || (48 <= b && b <= 57) || b == 95
}

/// How many line feeds lie in `s` before offset `upto`.
pub open spec fn count_newlines(s: Seq<u8>, upto: int) -> int
    recommends
        upto <= s.len(),
    decreases upto,
{
    if upto <= 0 {
        0
    } else {
        count_newlines(s, upto - 1) + (if s[upto - 1] == 10 {
            1int
        } else {
            0int
        })
    }
}

/// The 1-based line number reported for offset `a`: complete lines before
/// `a`, a trailing partial line counting as complete, plus one.
pub open spec fn line_number_of(s: Seq<u8>, a: int) -> int {
    count_newlines(s, a) + (if a > 0 && s[a - 1] != 10 {
        1int
    } else {
        0int
    }) + 1
}

/// Executable mirror of `line_number_of`.
pub fn line_number_at(s: &[u8], a: usize) -> (r: usize)
    requires
        a <= s@.len(),
        s@.len() < usize::MAX - 1,
    ensures
        r as int == line_number_of(s@, a as int),
{
    let mut cnt: usize = 0;
    let mut k: usize = 0;
    while k < a
        invariant
            0 <= k <= a <= s@.len(),
            s@.len() < usize::MAX - 1,
            cnt <= k,
            cnt as int == count_newlines(s@, k as int),
        decreases a - k,
    {
        if s[k] == 10 {
            cnt = cnt + 1;
        }
        k = k + 1;
    }
    if a > 0 && s[a - 1] != 10 {
        cnt + 2
    } else {
        cnt + 1
    }
}

/// Copy `s[a..b]` into a fresh vector.
pub fn copy_range(s: &[u8], a: usize, b: usize) -> (r: Vec<u8>)
    requires
        a <= b <= s@.len(),
    ensures
        r@ == s@.subrange(a as int, b as int),
{
    let mut out: Vec<u8> = Vec::new();
    let mut i: usize = a;
    while i < b
        invariant
            a <= i <= b <= s@.len(),
            out@ =~= s@.subrange(a as int, i as int),
        decreases b - i,
    {
        out.push(s[i]);
        assert(out@ =~= s@.subrange(a as int, i + 1 as int));
        i = i + 1;
    }
    out
}

/// Append `s[a..b]` to `out`.
pub fn push_range(out: &mut Vec<u8>, s: &[u8], a: usize, b: usize)
    requires
        a <= b <= s@.len(),
    ensures
        final(out)@ == old(out)@ + s@.subrange(a as int, b as int),
{
    let mut i: usize = a;
    while i < b
        invariant
            a <= i <= b <= s@.len(),
            out@ =~= old(out)@ + s@.subrange(a as int, i as int),
        decreases b - i,
    {
        out.push(s[i]);
        assert(out@ =~= old(out)@ + s@.subrange(a as int, i + 1 as int));
        i = i + 1;
    }
    assert(out@ =~= old(out)@ + s@.subrange(a as int, b as int));
}

/// Append all of `piece` to `out`.
pub fn push_all(out: &mut Vec<u8>, piece: &[u8])
    ensures
        final(out)@ == old(out)@ + piece@,
{
    push_range(out, piece, 0, piece.len());
    assert(piece@.subrange(0, piece@.len() as int) =~= piece@);
}

} // verus!
