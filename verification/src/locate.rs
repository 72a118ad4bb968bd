//! Span location: the exact byte range a construct's definition occupies.
//!
//! Functions and subroutines are delimited by the shortest range from
//! `<keyword> <name>(<arguments>)` to the nearest following
//! `end <keyword> <name>`, starting at the earliest offset where such a
//! range exists.  Modules are delimited line by line: a block runs from the
//! first line holding a module-opening marker to the line holding an
//! `end module` marker (or the end of the text), and the first block whose
//! text holds `module <name>` is the one located.

use vstd::prelude::*;
use crate::classify::ConstructKind;
use crate::patterns::{end_prefix, end_prefix_vec, kw_function, kw_function_vec, kw_subroutine,
    kw_subroutine_vec, module_close_marker, module_close_marker_vec, module_open_marker,
    module_open_marker_vec, open_paren, open_paren_vec, single_space, single_space_vec};
use crate::text::{bytes_match_at, copy_range, find_byte_from, find_byte_in, find_from,
    find_pattern_from, lemma_find_byte_from_props, lemma_find_from_props, matches_at, push_all};

verus! {

/// The opening pattern of a function or subroutine definition:
/// the keyword, one space, the name, then the opening parenthesis of the
/// argument list.
pub open spec fn unit_open(kw: Seq<u8>, name: Seq<u8>) -> Seq<u8> {
    kw + single_space() + name + open_paren()
}

/// The closing pattern of a function or subroutine definition:
/// `end <keyword> <name>`.
pub open spec fn unit_close(kw: Seq<u8>, name: Seq<u8>) -> Seq<u8> {
    end_prefix() + kw + single_space() + name
}

/// The span of a definition starting exactly at offset `i`: the opening
/// pattern, the argument list up to the first closing parenthesis, then
/// everything up to and including the nearest occurrence of the closing
/// pattern.  `None` when no complete definition starts at `i`.
pub open spec fn unit_span_at(s: Seq<u8>, open: Seq<u8>, close: Seq<u8>, i: int) -> Option<
    (int, int),
> {
    if !matches_at(s, open, i) {
        None
    } else {
        match find_byte_from(s, 41u8, i + open.len()) {
            None => None,
            Some(c) => match find_from(s, close, c + 1) {
                None => None,
                Some(e) => Some((i, e + close.len())),
            },
        }
    }
}

/// The first complete definition span at or after offset `i`.
pub open spec fn locate_unit_from(s: Seq<u8>, open: Seq<u8>, close: Seq<u8>, i: int) -> Option<
    (int, int),
>
    recommends
        0 <= i,
    decreases s.len() + 1 - i,
{
    if i < 0 || i >= s.len() {
        None
    } else if unit_span_at(s, open, close, i) is Some {
        unit_span_at(s, open, close, i)
    } else {
        locate_unit_from(s, open, close, i + 1)
    }
}

/// The span of the first function or subroutine definition of `name` under
/// keyword `kw` in `s`.
pub open spec fn locate_unit_spec(s: Seq<u8>, kw: Seq<u8>, name: Seq<u8>) -> Option<(int, int)> {
    locate_unit_from(s, unit_open(kw, name), unit_close(kw, name), 0)
}

/// Offset of the line feed ending the line that offset `i` lies on, or the
/// end of the text when the last line is unterminated.
pub open spec fn end_of_line(s: Seq<u8>, i: int) -> int {
    match find_byte_from(s, 10u8, i) {
        Some(e) => e,
        None => s.len() as int,
    }
}

/// The line starting at offset `i`, without its line feed.
pub open spec fn line_at(s: Seq<u8>, i: int) -> Seq<u8> {
    s.subrange(i, end_of_line(s, i))
}

/// Whether a line holds a module-opening marker (`module` followed by a
/// space) anywhere in it.
pub open spec fn line_opens_module(line: Seq<u8>) -> bool {
    find_from(line, module_open_marker(), 0) is Some
}

/// Whether a line holds an `end module` marker anywhere in it.
pub open spec fn line_closes_module(line: Seq<u8>) -> bool {
    find_from(line, module_close_marker(), 0) is Some
}

/// `end_of_line` stays within `[i, s.len()]`.
pub proof fn lemma_end_of_line_props(s: Seq<u8>, i: int)
    requires
        0 <= i <= s.len(),
    ensures
        i <= end_of_line(s, i) <= s.len(),
{
    lemma_find_byte_from_props(s, 10u8, i);
}

/// Offset of the end of the last line of the module block starting on the
/// line at offset `i`: the block ends on the first line holding an
/// `end module` marker, or at the end of the text.
pub open spec fn block_end(s: Seq<u8>, i: int) -> int
    recommends
        0 <= i < s.len(),
    decreases s.len() + 1 - i,
    when 0 <= i < s.len()
    via block_end_decreases
{
    let e: int = end_of_line(s, i);
    if line_closes_module(line_at(s, i)) || e + 1 >= s.len() {
        e
    } else {
        block_end(s, e + 1)
    }
}

#[via_fn]
proof fn block_end_decreases(s: Seq<u8>, i: int) {
    lemma_end_of_line_props(s, i);
}

/// The text of the module block starting on the line at offset `i`: its
/// lines in order, a line feed appended to each.
pub open spec fn block_text(s: Seq<u8>, i: int) -> Seq<u8>
    recommends
        0 <= i < s.len(),
    decreases s.len() + 1 - i,
    when 0 <= i < s.len()
    via block_text_decreases
{
    let e: int = end_of_line(s, i);
    let line_nl: Seq<u8> = s.subrange(i, e) + seq![10u8];
    if line_closes_module(line_at(s, i)) || e + 1 >= s.len() {
        line_nl
    } else {
        line_nl + block_text(s, e + 1)
    }
}

#[via_fn]
proof fn block_text_decreases(s: Seq<u8>, i: int) {
    lemma_end_of_line_props(s, i);
}

/// The pattern whose containment in a block's text marks the block as the
/// target: `module <name>`.
pub open spec fn module_name_pattern(name: Seq<u8>) -> Seq<u8> {
    module_open_marker() + name
}

/// Whether the block starting on the line at offset `i` declares `name`.
pub open spec fn block_matches(s: Seq<u8>, i: int, name: Seq<u8>) -> bool {
    find_from(block_text(s, i), module_name_pattern(name), 0) is Some
}

/// The span of the module block declaring `name`, scanning line starts
/// from offset `i`: the first line holding a module-opening marker starts
/// a block; the first block whose text holds `module <name>` is returned,
/// and scanning resumes after each block that does not.
pub open spec fn module_locate_from(s: Seq<u8>, name: Seq<u8>, i: int) -> Option<(int, int)>
    recommends
        0 <= i,
    decreases s.len() + 1 - i,
    when 0 <= i
    via module_locate_decreases
{
    if i >= s.len() {
        None
    } else if line_opens_module(line_at(s, i)) {
        if block_matches(s, i, name) {
            Some((i, block_end(s, i)))
        } else {
            module_locate_from(s, name, block_end(s, i) + 1)
        }
    } else {
        module_locate_from(s, name, end_of_line(s, i) + 1)
    }
}

#[via_fn]
proof fn module_locate_decreases(s: Seq<u8>, name: Seq<u8>, i: int) {
    if i < s.len() {
        lemma_end_of_line_props(s, i);
        lemma_block_end_props(s, i);
    }
}

/// The span of the first module block declaring `name` in `s`.
pub open spec fn locate_module_spec(s: Seq<u8>, name: Seq<u8>) -> Option<(int, int)> {
    module_locate_from(s, name, 0)
}

/// `block_end` stays within `[i, s.len()]`.
pub proof fn lemma_block_end_props(s: Seq<u8>, i: int)
    requires
        0 <= i < s.len(),
    ensures
        i <= block_end(s, i) <= s.len(),
    decreases s.len() + 1 - i,
{
    lemma_end_of_line_props(s, i);
    let e: int = end_of_line(s, i);
    if !(line_closes_module(line_at(s, i)) || e + 1 >= s.len()) {
        lemma_block_end_props(s, e + 1);
    }
}

/// A located construct: its kind, name, definition byte span and the
/// 1-based line its span starts on.
#[derive(Debug)]
pub struct Construct {
    pub kind: ConstructKind,
    pub name: Vec<u8>,
    pub start: usize,
    pub end: usize,
    pub start_line: usize,
}

impl Construct {
    /// The span lies within a text of length `n`, start before end.
    pub open spec fn wf(self, n: int) -> bool {
        self.start <= self.end <= n
    }
}

/// The span a construct locator returns for `kind` and `name` in `s`.
pub open spec fn locate_spec(s: Seq<u8>, kind: ConstructKind, name: Seq<u8>) -> Option<
    (int, int),
> {
    match kind {
        ConstructKind::Module => locate_module_spec(s, name),
        ConstructKind::Function => locate_unit_spec(s, kw_function(), name),
        ConstructKind::Subroutine => locate_unit_spec(s, kw_subroutine(), name),
    }
}

/// Every located span lies within the text, start before end.
pub proof fn lemma_unit_span_bounds(s: Seq<u8>, open: Seq<u8>, close: Seq<u8>, i: int)
    requires
        0 <= i,
        locate_unit_from(s, open, close, i) is Some,
    ensures
        ({
            let (a, b) = locate_unit_from(s, open, close, i)->Some_0;
            0 <= a <= b <= s.len()
        }),
    decreases s.len() + 1 - i,
{
    if i >= s.len() {
    } else if unit_span_at(s, open, close, i) is Some {
        match find_byte_from(s, 41u8, i + open.len()) {
            None => {},
            Some(c) => {
                lemma_find_byte_from_props(s, 41u8, i + open.len());
                match find_from(s, close, c + 1) {
                    None => {},
                    Some(e) => {
                        lemma_find_from_props(s, close, c + 1);
                    },
                }
            },
        }
    } else {
        lemma_unit_span_bounds(s, open, close, i + 1);
    }
}

/// A located module span starts on a line holding the module-opening
/// marker, runs to its block's end, and its block's text declares the
/// name searched for.
pub proof fn lemma_module_span_declares(s: Seq<u8>, name: Seq<u8>, i: int)
    requires
        0 <= i,
        module_locate_from(s, name, i) is Some,
    ensures
        ({
            let (a, b) = module_locate_from(s, name, i)->Some_0;
            line_opens_module(line_at(s, a)) && block_matches(s, a, name) && b == block_end(s, a)
        }),
    decreases s.len() + 1 - i,
{
    if i >= s.len() {
    } else if line_opens_module(line_at(s, i)) {
        if !block_matches(s, i, name) {
            lemma_block_end_props(s, i);
            lemma_module_span_declares(s, name, block_end(s, i) + 1);
        }
    } else {
        lemma_end_of_line_props(s, i);
        lemma_module_span_declares(s, name, end_of_line(s, i) + 1);
    }
}

/// Every located module span lies within the text, start before end.
pub proof fn lemma_module_span_bounds(s: Seq<u8>, name: Seq<u8>, i: int)
    requires
        0 <= i,
        module_locate_from(s, name, i) is Some,
    ensures
        ({
            let (a, b) = module_locate_from(s, name, i)->Some_0;
            0 <= a <= b <= s.len()
        }),
    decreases s.len() + 1 - i,
{
    if i >= s.len() {
    } else if line_opens_module(line_at(s, i)) {
        lemma_block_end_props(s, i);
        if !block_matches(s, i, name) {
            lemma_module_span_bounds(s, name, block_end(s, i) + 1);
        }
    } else {
        lemma_end_of_line_props(s, i);
        lemma_module_span_bounds(s, name, end_of_line(s, i) + 1);
    }
}

/// A located unit span carries its delimiters: the text at the span
/// starts with the opening pattern and ends with the closing marker.
pub proof fn lemma_unit_span_markers(s: Seq<u8>, open: Seq<u8>, close: Seq<u8>, i: int)
    requires
        0 <= i,
        locate_unit_from(s, open, close, i) is Some,
    ensures
        ({
            let (a, b) = locate_unit_from(s, open, close, i)->Some_0;
            matches_at(s, open, a) && matches_at(s, close, b - close.len())
        }),
    decreases s.len() + 1 - i,
{
    if i >= s.len() {
    } else if unit_span_at(s, open, close, i) is Some {
        match find_byte_from(s, 41u8, i + open.len()) {
            None => {},
            Some(c) => {
                lemma_find_byte_from_props(s, 41u8, i + open.len());
                match find_from(s, close, c + 1) {
                    None => {},
                    Some(e) => {
                        lemma_find_from_props(s, close, c + 1);
                    },
                }
            },
        }
    } else {
        lemma_unit_span_markers(s, open, close, i + 1);
    }
}

/// Every span `locate_spec` reports lies within the text, start before
/// end.
pub proof fn lemma_locate_spec_bounds(s: Seq<u8>, kind: ConstructKind, name: Seq<u8>)
    requires
        locate_spec(s, kind, name) is Some,
    ensures
        ({
            let (a, b) = locate_spec(s, kind, name)->Some_0;
            0 <= a <= b <= s.len()
        }),
{
    match kind {
        ConstructKind::Module => {
            lemma_module_span_bounds(s, name, 0);
        },
        ConstructKind::Function => {
            lemma_unit_span_bounds(s, unit_open(kw_function(), name), unit_close(kw_function(), name), 0);
        },
        ConstructKind::Subroutine => {
            lemma_unit_span_bounds(s, unit_open(kw_subroutine(), name), unit_close(kw_subroutine(), name), 0);
        },
    }
}

/// The complete definition span starting exactly at offset `i`, if any.
fn unit_span_match(s: &[u8], open: &[u8], close: &[u8], i: usize) -> (r: Option<(usize, usize)>)
    ensures
        match r {
            Some(p) => unit_span_at(s@, open@, close@, i as int) == Some(
                (p.0 as int, p.1 as int),
            ),
            None => unit_span_at(s@, open@, close@, i as int) is None,
        },
{
    if !bytes_match_at(s, open, i) {
        return None;
    }
    let n: usize = s.len();
    match find_byte_in(s, 41u8, i + open.len()) {
        None => None,
        Some(c) => {
            proof {
                lemma_find_byte_from_props(s@, 41u8, i + open@.len());
            }
            match find_pattern_from(s, close, c + 1) {
                None => None,
                Some(e) => {
                    proof {
                        lemma_find_from_props(s@, close@, c + 1 as int);
                    }
                    Some((i, e + close.len()))
                },
            }
        },
    }
}

/// Locate the first function or subroutine definition of `name` under
/// keyword `kw`: the shortest span from the opening pattern through the
/// nearest closing marker, at the earliest offset where one exists.
pub fn locate_unit(source: &[u8], kw: &[u8], name: &[u8]) -> (r: Option<(usize, usize)>)
    ensures
        match r {
            Some(p) => locate_unit_spec(source@, kw@, name@) == Some((p.0 as int, p.1 as int)),
            None => locate_unit_spec(source@, kw@, name@) is None,
        },
{
    let sp: Vec<u8> = single_space_vec();
    let mut open: Vec<u8> = Vec::new();
    push_all(&mut open, kw);
    push_all(&mut open, sp.as_slice());
    push_all(&mut open, name);
    let op: Vec<u8> = open_paren_vec();
    push_all(&mut open, op.as_slice());
    proof {
        assert(open@ =~= unit_open(kw@, name@));
    }
    let ep: Vec<u8> = end_prefix_vec();
    let mut close: Vec<u8> = Vec::new();
    push_all(&mut close, ep.as_slice());
    push_all(&mut close, kw);
    push_all(&mut close, sp.as_slice());
    push_all(&mut close, name);
    proof {
        assert(close@ =~= unit_close(kw@, name@));
    }
    let mut i: usize = 0;
    while i < source.len()
        invariant
            open@ == unit_open(kw@, name@),
            close@ == unit_close(kw@, name@),
            locate_unit_spec(source@, kw@, name@) == locate_unit_from(
                source@,
                open@,
                close@,
                i as int,
            ),
        decreases source@.len() + 1 - i,
    {
        match unit_span_match(source, open.as_slice(), close.as_slice(), i) {
            Some(p) => {
                return Some(p);
            },
            None => {},
        }
        i = i + 1;
    }
    None
}

/// Walk the module block starting on the line at offset `i`: its end
/// offset and its accumulated text.
fn scan_module_block(source: &[u8], i: usize, close_m: &[u8]) -> (r: (usize, Vec<u8>))
    requires
        i < source@.len(),
        source@.len() < usize::MAX,
        close_m@ == module_close_marker(),
    ensures
        r.0 as int == block_end(source@, i as int),
        r.1@ == block_text(source@, i as int),
{
    let n: usize = source.len();
    let mut btext: Vec<u8> = Vec::new();
    let mut j: usize = i;
    let bend: usize;
    loop
        invariant_except_break
            i <= j < n,
            n == source@.len(),
            n < usize::MAX,
            close_m@ == module_close_marker(),
            block_end(source@, i as int) == block_end(source@, j as int),
            block_text(source@, i as int) == btext@ + block_text(source@, j as int),
        ensures
            bend as int == block_end(source@, i as int),
            btext@ == block_text(source@, i as int),
        decreases n - j,
    {
        let e: usize = match find_byte_in(source, 10u8, j) {
            Some(x) => x,
            None => n,
        };
        proof {
            lemma_find_byte_from_props(source@, 10u8, j as int);
            assert(e as int == end_of_line(source@, j as int));
        }
        let line: Vec<u8> = copy_range(source, j, e);
        push_all(&mut btext, line.as_slice());
        btext.push(10u8);
        let closes: bool = match find_pattern_from(line.as_slice(), close_m, 0) {
            Some(_) => true,
            None => false,
        };
        proof {
            assert(line@ == line_at(source@, j as int));
            assert(closes == line_closes_module(line_at(source@, j as int)));
        }
        if closes || e + 1 >= n {
            bend = e;
            proof {
                assert(block_text(source@, j as int) == line@ + seq![10u8]);
                assert(btext@ =~= block_text(source@, i as int));
            }
            break;
        }
        proof {
            assert(block_text(source@, j as int) == (line@ + seq![10u8]) + block_text(
                source@,
                e + 1 as int,
            ));
            assert(btext@ + block_text(source@, e + 1 as int) =~= block_text(
                source@,
                i as int,
            ));
        }
        j = e + 1;
    }
    (bend, btext)
}

/// Locate the module block declaring `name`, scanning the text line by
/// line in document order.
pub fn locate_module(source: &[u8], name: &[u8]) -> (r: Option<(usize, usize)>)
    requires
        source@.len() < usize::MAX,
    ensures
        match r {
            Some(p) => locate_module_spec(source@, name@) == Some((p.0 as int, p.1 as int)),
            None => locate_module_spec(source@, name@) is None,
        },
{
    let n: usize = source.len();
    let open_m: Vec<u8> = module_open_marker_vec();
    let close_m: Vec<u8> = module_close_marker_vec();
    let mut pat: Vec<u8> = Vec::new();
    push_all(&mut pat, open_m.as_slice());
    push_all(&mut pat, name);
    proof {
        assert(pat@ =~= module_name_pattern(name@));
    }
    let mut i: usize = 0;
    while i < n
        invariant
            n == source@.len(),
            n < usize::MAX,
            open_m@ == module_open_marker(),
            close_m@ == module_close_marker(),
            pat@ == module_name_pattern(name@),
            locate_module_spec(source@, name@) == module_locate_from(source@, name@, i as int),
        decreases n + 1 - i,
    {
        let e: usize = match find_byte_in(source, 10u8, i) {
            Some(x) => x,
            None => n,
        };
        proof {
            lemma_find_byte_from_props(source@, 10u8, i as int);
            assert(e as int == end_of_line(source@, i as int));
        }
        let line: Vec<u8> = copy_range(source, i, e);
        let opens: bool = match find_pattern_from(line.as_slice(), open_m.as_slice(), 0) {
            Some(_) => true,
            None => false,
        };
        proof {
            assert(line@ == line_at(source@, i as int));
            assert(opens == line_opens_module(line_at(source@, i as int)));
        }
        if opens {
            let (bend, btext) = scan_module_block(source, i, close_m.as_slice());
            let found: bool = match find_pattern_from(btext.as_slice(), pat.as_slice(), 0) {
                Some(_) => true,
                None => false,
            };
            if found {
                return Some((i, bend));
            }
            proof {
                lemma_block_end_props(source@, i as int);
            }
            i = bend + 1;
        } else {
            i = e + 1;
        }
    }
    None
}

/// Locate the definition span for an already classified construct.
pub fn locate(source: &[u8], kind: ConstructKind, name: &[u8]) -> (r: Option<(usize, usize)>)
    requires
        source@.len() < usize::MAX,
    ensures
        match r {
            Some(p) => locate_spec(source@, kind, name@) == Some((p.0 as int, p.1 as int)),
            None => locate_spec(source@, kind, name@) is None,
        },
{
    match kind {
        ConstructKind::Module => locate_module(source, name),
        ConstructKind::Function => {
            let kw: Vec<u8> = kw_function_vec();
            locate_unit(source, kw.as_slice(), name)
        },
        ConstructKind::Subroutine => {
            let kw: Vec<u8> = kw_subroutine_vec();
            locate_unit(source, kw.as_slice(), name)
        },
    }
}

} // verus!
