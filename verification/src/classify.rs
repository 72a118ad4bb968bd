//! Identifier classification: which construct kind (module, function or
//! subroutine) declares a given identifier.  The first declaration-shaped
//! occurrence in document order decides; when the same name is declared
//! under several kinds, the earliest occurrence deliberately wins.

use vstd::prelude::*;
use crate::patterns::{kw_function, kw_function_vec, kw_module, kw_module_vec, kw_subroutine,
    kw_subroutine_vec};
use crate::text::{byte_is_word, bytes_match_at, is_word_byte, lemma_skip_spaces_props,
    matches_at, skip_spaces, skip_spaces_in};

verus! {

/// The kind of program unit a declaration introduces.
#[derive(Clone, Copy, Debug, PartialEq, Eq, Structural)]
pub enum ConstructKind {
    Module,
    Function,
    Subroutine,
}

/// A declaration of `name` under keyword `kw` starts at offset `i`:
/// the keyword with a word boundary before it, then at least one
/// whitespace byte, then `name` with a word boundary after it.
pub open spec fn decl_at(s: Seq<u8>, kw: Seq<u8>, name: Seq<u8>, i: int) -> bool {
    &&& matches_at(s, kw, i)
    &&& (i == 0 || !is_word_byte(s[i - 1]))
    &&& ({
        let p = i + kw.len();
        let q = skip_spaces(s, p);
        &&& p < q
        &&& matches_at(s, name, q)
        &&& (q + name.len() == s.len() || !is_word_byte(s[q + name.len()]))
    })
}

/// The kind declared for `name` at offset `i`, if any.  The three keywords
/// begin with distinct bytes, so at most one of the branches can hold.
pub open spec fn decl_kind_at(s: Seq<u8>, name: Seq<u8>, i: int) -> Option<ConstructKind> {
    if decl_at(s, kw_module(), name, i) {
        Some(ConstructKind::Module)
    } else if decl_at(s, kw_function(), name, i) {
        Some(ConstructKind::Function)
    } else if decl_at(s, kw_subroutine(), name, i) {
        Some(ConstructKind::Subroutine)
    } else {
        None
    }
}

/// The kind of the first declaration of `name` at or after offset `i`.
pub open spec fn classify_from(s: Seq<u8>, name: Seq<u8>, i: int) -> Option<ConstructKind>
    recommends
        0 <= i,
    decreases s.len() + 1 - i,
{
    if i < 0 || i >= s.len() {
        None
    } else if decl_kind_at(s, name, i) is Some {
        decl_kind_at(s, name, i)
    } else {
        classify_from(s, name, i + 1)
    }
}

/// The kind of the first declaration of `name` in `s`, scanning the whole
/// text in document order.
pub open spec fn classify_spec(s: Seq<u8>, name: Seq<u8>) -> Option<ConstructKind> {
    classify_from(s, name, 0)
}

/// Whether a declaration of `name` under keyword `kw` starts at offset `i`.
pub fn decl_match_at(s: &[u8], kw: &[u8], name: &[u8], i: usize) -> (r: bool)
    ensures
        r == decl_at(s@, kw@, name@, i as int),
{
    if !bytes_match_at(s, kw, i) {
        return false;
    }
    if i > 0 && byte_is_word(s[i - 1]) {
        return false;
    }
    let p: usize = i + kw.len();
    let q: usize = skip_spaces_in(s, p);
    proof {
        lemma_skip_spaces_props(s@, p as int);
    }
    if q == p {
        return false;
    }
    if !bytes_match_at(s, name, q) {
        return false;
    }
    let n: usize = s.len();
    assert(q + name@.len() <= n);
    if q + name.len() == n {
        true
    } else {
        !byte_is_word(s[q + name.len()])
    }
}

/// Classify `identifier`: scan `source` for its first declaration and
/// report the keyword found there, or `None` when no declaration exists.
pub fn classify(source: &[u8], identifier: &[u8]) -> (r: Option<ConstructKind>)
    ensures
        r == classify_spec(source@, identifier@),
{
    let kw_m: Vec<u8> = kw_module_vec();
    let kw_f: Vec<u8> = kw_function_vec();
    let kw_s: Vec<u8> = kw_subroutine_vec();
    let mut i: usize = 0;
    while i < source.len()
        invariant
            kw_m@ == kw_module(),
            kw_f@ == kw_function(),
            kw_s@ == kw_subroutine(),
            classify_spec(source@, identifier@) == classify_from(source@, identifier@, i as int),
        decreases source@.len() - i,
    {
        if decl_match_at(source, kw_m.as_slice(), identifier, i) {
            return Some(ConstructKind::Module);
        }
        if decl_match_at(source, kw_f.as_slice(), identifier, i) {
            return Some(ConstructKind::Function);
        }
        if decl_match_at(source, kw_s.as_slice(), identifier, i) {
            return Some(ConstructKind::Subroutine);
        }
        i = i + 1;
    }
    None
}

} // verus!
