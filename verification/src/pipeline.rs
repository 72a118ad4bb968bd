//! The orchestrator: classify, locate, confirm, back up, transform.
//! Classification and location failures surface as structured not-found
//! outcomes carrying ranked suggestions; a cancelled confirmation leaves
//! the content untouched; a confirmed removal yields the backup record
//! and the updated content for the caller to persist.  The pipeline
//! itself performs no input or output.

use vstd::prelude::*;
use crate::classify::{classify, classify_spec, ConstructKind};
use crate::locate::{lemma_locate_spec_bounds, locate, locate_spec, Construct};
use crate::patterns::{backup_dir_prefix, backup_dir_prefix_vec, backup_ext, backup_ext_vec,
    backup_sep, backup_sep_vec, token_all, token_all_vec, token_yes, token_yes_vec};
use crate::suggest::{seq_views, suggest, suggest_spec};
use crate::text::{byte_is_space, copy_range, is_space_byte, line_number_at, line_number_of,
    push_all, skip_spaces, skip_spaces_in};
use crate::transform::{apply, apply_spec, RemovalScope};

verus! {

/// Which stage failed to find the identifier.
#[derive(Clone, Copy, Debug, PartialEq, Eq, Structural)]
pub enum FailureKind {
    NotFoundAtClassify,
    NotFoundAtLocate(ConstructKind),
}

/// A structured not-found outcome: the stage that failed, the identifier
/// asked for, and every declared name ranked by closeness to it.
#[derive(Debug)]
pub struct NotFound {
    pub kind: FailureKind,
    pub identifier: Vec<u8>,
    pub suggestions: Vec<Vec<u8>>,
}

/// One of the three accepted confirmation outcomes.
#[derive(Clone, Copy, Debug, PartialEq, Eq, Structural)]
pub enum Choice {
    RemoveSelf,
    RemoveSelfAndReferences,
    Cancel,
}

/// The record persisted before any mutation: the removal timestamp, the
/// construct's name, the artifact path, and the exact bytes of the span
/// at capture time.
#[derive(Debug)]
pub struct BackupRecord {
    pub timestamp: Vec<u8>,
    pub original_name: Vec<u8>,
    pub path: Vec<u8>,
    pub bytes: Vec<u8>,
}

/// A confirmed removal: the updated content to persist, the backup
/// record, and the scope that was applied.
#[derive(Debug)]
pub struct RemovalOutcome {
    pub updated: Vec<u8>,
    pub backup: BackupRecord,
    pub scope_applied: RemovalScope,
}

/// The terminal state of one pipeline run.
#[derive(Debug)]
pub enum PipelineOutcome {
    Removed(RemovalOutcome),
    Cancelled,
    NotFound(NotFound),
}

/// `b` lowercased when it is an ASCII capital letter.
pub open spec fn lower_byte(b: u8) -> u8 {
    if 65 <= b && b <= 90 {
        (b + 32) as u8
    } else {
        b
    }
}

/// `s` with every ASCII capital letter lowercased.
pub open spec fn lower_seq(s: Seq<u8>) -> Seq<u8> {
    s.map_values(|b: u8| lower_byte(b))
}

/// The end (exclusive) of `s` without its trailing whitespace.
pub open spec fn trimmed_end(s: Seq<u8>, i: int) -> int
    recommends
        0 <= i <= s.len(),
    decreases i,
{
    if i <= 0 {
        0
    } else if !is_space_byte(s[i - 1]) {
        i
    } else {
        trimmed_end(s, i - 1)
    }
}

/// `s` without leading and trailing whitespace.
pub open spec fn trim_spec(s: Seq<u8>) -> Seq<u8> {
    let a = skip_spaces(s, 0);
    if a == s.len() {
        Seq::empty()
    } else {
        s.subrange(a, trimmed_end(s, s.len() as int))
    }
}

/// The confirmation choice a free-text answer resolves to: its trimmed,
/// lowercased form `y` removes the definition, `all` removes the
/// definition and its references, anything else cancels.
pub open spec fn choice_spec(input: Seq<u8>) -> Choice {
    let t = lower_seq(trim_spec(input));
    if t == token_yes() {
        Choice::RemoveSelf
    } else if t == token_all() {
        Choice::RemoveSelfAndReferences
    } else {
        Choice::Cancel
    }
}

/// The backup artifact path: `bkp/<timestamp>-<name>.f90`.
pub open spec fn backup_path_spec(ts: Seq<u8>, name: Seq<u8>) -> Seq<u8> {
    backup_dir_prefix() + ts + backup_sep() + name + backup_ext()
}

/// What a confirmed removal guarantees: the updated content follows the
/// transformation spec, and the backup holds the exact pre-removal span
/// bytes together with the timestamp, name and artifact path.
pub open spec fn removed_ok(
    o: RemovalOutcome,
    s: Seq<u8>,
    a: int,
    b: int,
    name: Seq<u8>,
    scope: RemovalScope,
    ts: Seq<u8>,
) -> bool {
    &&& o.updated@ == apply_spec(s, a, b, name, scope, ts)
    &&& o.backup.bytes@ == s.subrange(a, b)
    &&& o.backup.path@ == backup_path_spec(ts, name)
    &&& o.backup.timestamp@ == ts
    &&& o.backup.original_name@ == name
    &&& o.scope_applied == scope
}

/// Whether two byte slices hold the same bytes.
fn bytes_equal(a: &[u8], b: &[u8]) -> (r: bool)
    ensures
        r == (a@ == b@),
{
    if a.len() != b.len() {
        assert(a@.len() != b@.len());
        return false;
    }
    let mut k: usize = 0;
    while k < a.len()
        invariant
            0 <= k <= a@.len(),
            a@.len() == b@.len(),
            forall|t: int| 0 <= t < k ==> a@[t] == b@[t],
        decreases a@.len() - k,
    {
        if a[k] != b[k] {
            return false;
        }
        k = k + 1;
    }
    proof {
        assert(a@ =~= b@);
    }
    true
}

/// Resolve a free-text confirmation answer: trim it, lowercase it, and
/// map `y`, `all` and anything else to the three accepted outcomes.
pub fn parse_confirmation(input: &[u8]) -> (c: Choice)
    ensures
        c == choice_spec(input@),
{
    let n: usize = input.len();
    let a: usize = skip_spaces_in(input, 0);
    let mut t: Vec<u8> = Vec::new();
    if a < n {
        proof {
            crate::text::lemma_skip_spaces_props(input@, 0);
        }
        let mut r: usize = n;
        while r > 0 && byte_is_space(input[r - 1])
            invariant
                0 <= r <= n,
                a < r,
                n == input@.len(),
                !is_space_byte(input@[a as int]),
                trimmed_end(input@, n as int) == trimmed_end(input@, r as int),
            decreases r,
        {
            r = r - 1;
        }
        proof {
            assert(trimmed_end(input@, r as int) == r as int);
        }
        let mut k: usize = a;
        while k < r
            invariant
                a <= k <= r <= n,
                n == input@.len(),
                t@.len() == k - a,
                forall|idx: int| 0 <= idx < t@.len() ==> t@[idx] == lower_byte(
                    input@[a + idx],
                ),
            decreases r - k,
        {
            let b: u8 = input[k];
            if 65 <= b && b <= 90 {
                t.push(b + 32);
            } else {
                t.push(b);
            }
            k = k + 1;
        }
        proof {
            assert(a as int == skip_spaces(input@, 0));
            assert(trim_spec(input@) == input@.subrange(a as int, r as int));
            assert(lower_seq(trim_spec(input@)).len() == r - a);
            assert forall|idx: int| 0 <= idx < t@.len() implies t@[idx] == lower_seq(
                trim_spec(input@),
            )[idx] by {
                assert(trim_spec(input@)[idx] == input@[a + idx]);
            }
            assert(t@ =~= lower_seq(trim_spec(input@)));
        }
    } else {
        proof {
            crate::text::lemma_skip_spaces_props(input@, 0);
            assert(a as int == skip_spaces(input@, 0));
            assert(trim_spec(input@) == Seq::<u8>::empty());
            assert(lower_seq(trim_spec(input@)).len() == 0);
            assert(t@ =~= lower_seq(trim_spec(input@)));
        }
    }
    let yes: Vec<u8> = token_yes_vec();
    let all: Vec<u8> = token_all_vec();
    if bytes_equal(t.as_slice(), yes.as_slice()) {
        Choice::RemoveSelf
    } else if bytes_equal(t.as_slice(), all.as_slice()) {
        Choice::RemoveSelfAndReferences
    } else {
        Choice::Cancel
    }
}

/// Classify `identifier` and locate its definition span, or report which
/// stage failed together with the ranked suggestions for the caller to
/// render.  No outcome of this function mutates anything.
pub fn locate_construct(source: &[u8], identifier: &[u8]) -> (r: Result<Construct, NotFound>)
    requires
        source@.len() < usize::MAX - 1,
        identifier@.len() < usize::MAX,
    ensures
        match classify_spec(source@, identifier@) {
            None => r matches Err(f) && f.kind == FailureKind::NotFoundAtClassify
                && f.identifier@ == identifier@ && seq_views(f.suggestions@) == suggest_spec(
                source@,
                identifier@,
            ),
            Some(k) => match locate_spec(source@, k, identifier@) {
                None => r matches Err(f) && f.kind == FailureKind::NotFoundAtLocate(k)
                    && f.identifier@ == identifier@ && seq_views(f.suggestions@) == suggest_spec(
                    source@,
                    identifier@,
                ),
                Some((a, b)) => r matches Ok(c) && c.kind == k && c.name@ == identifier@
                    && c.start == a && c.end == b && c.start_line == line_number_of(source@, a)
                    && c.wf(source@.len() as int),
            },
        },
{
    match classify(source, identifier) {
        None => {
            let sug: Vec<Vec<u8>> = suggest(source, identifier);
            Err(
                NotFound {
                    kind: FailureKind::NotFoundAtClassify,
                    identifier: copy_range(identifier, 0, identifier.len()),
                    suggestions: sug,
                },
            )
        },
        Some(k) => {
            match locate(source, k, identifier) {
                None => {
                    let sug: Vec<Vec<u8>> = suggest(source, identifier);
                    Err(
                        NotFound {
                            kind: FailureKind::NotFoundAtLocate(k),
                            identifier: copy_range(identifier, 0, identifier.len()),
                            suggestions: sug,
                        },
                    )
                },
                Some((a, b)) => {
                    proof {
                        lemma_locate_spec_bounds(source@, k, identifier@);
                    }
                    let line: usize = line_number_at(source, a);
                    Ok(
                        Construct {
                            kind: k,
                            name: copy_range(identifier, 0, identifier.len()),
                            start: a,
                            end: b,
                            start_line: line,
                        },
                    )
                },
            }
        },
    }
}

/// Build the backup artifact path `bkp/<timestamp>-<name>.f90`.
pub fn build_backup_path(ts: &[u8], name: &[u8]) -> (r: Vec<u8>)
    ensures
        r@ == backup_path_spec(ts@, name@),
{
    let mut out: Vec<u8> = Vec::new();
    let pre: Vec<u8> = backup_dir_prefix_vec();
    let sep: Vec<u8> = backup_sep_vec();
    let ext: Vec<u8> = backup_ext_vec();
    push_all(&mut out, pre.as_slice());
    push_all(&mut out, ts);
    push_all(&mut out, sep.as_slice());
    push_all(&mut out, name);
    push_all(&mut out, ext.as_slice());
    proof {
        assert(out@ =~= backup_path_spec(ts@, name@));
    }
    out
}

/// Capture the backup record and produce the updated content for a
/// confirmed removal.  The backup bytes are the construct's span exactly
/// as it stands in `source`; the updated content follows the
/// transformation spec for `scope`.
pub fn apply_removal(
    source: &[u8],
    construct: &Construct,
    scope: RemovalScope,
    timestamp: &[u8],
) -> (r: RemovalOutcome)
    requires
        construct.wf(source@.len() as int),
    ensures
        removed_ok(
            r,
            source@,
            construct.start as int,
            construct.end as int,
            construct.name@,
            scope,
            timestamp@,
        ),
{
    let bytes: Vec<u8> = copy_range(source, construct.start, construct.end);
    let path: Vec<u8> = build_backup_path(timestamp, construct.name.as_slice());
    let updated: Vec<u8> = apply(source, construct, scope, timestamp);
    proof {
        assert(timestamp@.subrange(0, timestamp@.len() as int) =~= timestamp@);
        assert(construct.name@.subrange(0, construct.name@.len() as int) =~= construct.name@);
    }
    let backup = BackupRecord {
        timestamp: copy_range(timestamp, 0, timestamp.len()),
        original_name: copy_range(construct.name.as_slice(), 0, construct.name.len()),
        path,
        bytes,
    };
    RemovalOutcome { updated, backup, scope_applied: scope }
}

/// Run the whole pipeline for one confirmation choice: classify, locate,
/// then either cancel with nothing touched or back up and transform.
/// The confirmation is injected as a value so the pipeline never blocks
/// on input itself.
pub fn run_pipeline(source: &[u8], identifier: &[u8], choice: Choice, timestamp: &[u8]) -> (r:
    PipelineOutcome)
    requires
        source@.len() < usize::MAX - 1,
        identifier@.len() < usize::MAX,
    ensures
        match classify_spec(source@, identifier@) {
            None => r matches PipelineOutcome::NotFound(f) && f.kind
                == FailureKind::NotFoundAtClassify && f.identifier@ == identifier@ && seq_views(
                f.suggestions@,
            ) == suggest_spec(source@, identifier@),
            Some(k) => match locate_spec(source@, k, identifier@) {
                None => r matches PipelineOutcome::NotFound(f) && f.kind
                    == FailureKind::NotFoundAtLocate(k) && f.identifier@ == identifier@
                    && seq_views(f.suggestions@) == suggest_spec(source@, identifier@),
                Some((a, b)) => match choice {
                    Choice::Cancel => r is Cancelled,
                    Choice::RemoveSelf => r matches PipelineOutcome::Removed(o) && removed_ok(
                        o,
                        source@,
                        a,
                        b,
                        identifier@,
                        RemovalScope::SelfOnly,
                        timestamp@,
                    ),
                    Choice::RemoveSelfAndReferences => r matches PipelineOutcome::Removed(o)
                        && removed_ok(
                        o,
                        source@,
                        a,
                        b,
                        identifier@,
                        RemovalScope::SelfAndReferences,
                        timestamp@,
                    ),
                },
            },
        },
{
    match locate_construct(source, identifier) {
        Err(f) => PipelineOutcome::NotFound(f),
        Ok(c) => match choice {
            Choice::Cancel => PipelineOutcome::Cancelled,
            Choice::RemoveSelf => PipelineOutcome::Removed(
                apply_removal(source, &c, RemovalScope::SelfOnly, timestamp),
            ),
            Choice::RemoveSelfAndReferences => PipelineOutcome::Removed(
                apply_removal(source, &c, RemovalScope::SelfAndReferences, timestamp),
            ),
        },
    }
}

} // verus!
