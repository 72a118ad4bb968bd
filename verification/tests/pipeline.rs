use sparse_fortran::classify::{classify, ConstructKind};
use sparse_fortran::pipeline::{
    locate_construct, parse_confirmation, run_pipeline, Choice, FailureKind, PipelineOutcome,
};
use sparse_fortran::transform::RemovalScope;

const TS: &[u8] = b"2024-01-02 as 03:04:05";

fn marker() -> Vec<u8> {
    format!(
        " ! Code removed by sparseFortran application on date {} ",
        String::from_utf8(TS.to_vec()).unwrap()
    )
    .into_bytes()
}

#[test]
fn removes_subroutine_definition_to_single_marker_line() {
    let source = b"subroutine foo(x)\n x = x+1\nend subroutine foo";
    let out = run_pipeline(source, b"foo", Choice::RemoveSelf, TS);
    match out {
        PipelineOutcome::Removed(o) => {
            assert_eq!(o.updated, marker());
            assert_eq!(o.backup.bytes, source.to_vec());
            assert_eq!(o.backup.path, b"bkp/2024-01-02 as 03:04:05-foo.f90".to_vec());
            assert_eq!(o.scope_applied, RemovalScope::SelfOnly);
        },
        _ => panic!("expected a removal"),
    }
}

#[test]
fn removes_definition_and_both_call_sites() {
    let defn = b"subroutine foo(x)\n x = x+1\nend subroutine foo".to_vec();
    let mut source = defn.clone();
    source.extend_from_slice(b"\ncall foo(1)\ncall foo(2)\n");
    let out = run_pipeline(&source, b"foo", Choice::RemoveSelfAndReferences, TS);
    match out {
        PipelineOutcome::Removed(o) => {
            let mut expected = marker();
            expected.extend_from_slice(b"\n");
            expected.extend_from_slice(&marker());
            expected.extend_from_slice(b"(1)\n");
            expected.extend_from_slice(&marker());
            expected.extend_from_slice(b"(2)\n");
            assert_eq!(o.updated, expected);
            assert_eq!(o.backup.bytes, defn);
            assert_eq!(o.scope_applied, RemovalScope::SelfAndReferences);
        },
        _ => panic!("expected a removal"),
    }
}

#[test]
fn cancelled_confirmation_changes_nothing() {
    let source = b"subroutine foo(x)\n x = x+1\nend subroutine foo";
    let choice = parse_confirmation(b"n");
    assert_eq!(choice, Choice::Cancel);
    let out = run_pipeline(source, b"foo", choice, TS);
    assert!(matches!(out, PipelineOutcome::Cancelled));
}

#[test]
fn absent_identifier_reports_not_found_with_suggestions() {
    let source = b"module foo\nmodule foobar\nmodule baz\n";
    let out = run_pipeline(source, b"bar", Choice::RemoveSelf, TS);
    match out {
        PipelineOutcome::NotFound(f) => {
            assert_eq!(f.kind, FailureKind::NotFoundAtClassify);
            assert_eq!(f.identifier, b"bar".to_vec());
            let expected: Vec<Vec<u8>> =
                vec![b"baz".to_vec(), b"foo".to_vec(), b"foobar".to_vec()];
            assert_eq!(f.suggestions, expected);
        },
        _ => panic!("expected a not-found outcome"),
    }
}

#[test]
fn classified_but_unclosed_unit_reports_not_found_at_locate() {
    let source = b"subroutine foo(x)\n x = x+1\n";
    let out = run_pipeline(source, b"foo", Choice::RemoveSelf, TS);
    match out {
        PipelineOutcome::NotFound(f) => {
            assert_eq!(f.kind, FailureKind::NotFoundAtLocate(ConstructKind::Subroutine));
        },
        _ => panic!("expected a not-found outcome"),
    }
}

#[test]
fn confirmation_tokens_trim_and_lowercase() {
    assert_eq!(parse_confirmation(b" Y \n"), Choice::RemoveSelf);
    assert_eq!(parse_confirmation(b"y"), Choice::RemoveSelf);
    assert_eq!(parse_confirmation(b"ALL\n"), Choice::RemoveSelfAndReferences);
    assert_eq!(parse_confirmation(b"  all  "), Choice::RemoveSelfAndReferences);
    assert_eq!(parse_confirmation(b"n"), Choice::Cancel);
    assert_eq!(parse_confirmation(b""), Choice::Cancel);
    assert_eq!(parse_confirmation(b"   "), Choice::Cancel);
    assert_eq!(parse_confirmation(b"yes"), Choice::Cancel);
}

#[test]
fn classification_takes_first_declaration_in_document_order() {
    let source = b"module alpha\nend module\nfunction alpha(x)\nend function alpha\n";
    assert_eq!(classify(source, b"alpha"), Some(ConstructKind::Module));
    let source2 = b"function beta(x)\nend function beta\nmodule beta\nend module\n";
    assert_eq!(classify(source2, b"beta"), Some(ConstructKind::Function));
    assert_eq!(classify(source2, b"gamma"), None);
}

#[test]
fn classification_respects_word_boundaries() {
    let source = b"subroutine foobar(x)\nend subroutine foobar\n";
    assert_eq!(classify(source, b"foo"), None);
    assert_eq!(classify(source, b"foobar"), Some(ConstructKind::Subroutine));
}

#[test]
fn located_construct_reports_its_start_line() {
    let source = b"x = 1\nsubroutine foo(a)\nend subroutine foo";
    let c = locate_construct(source, b"foo").expect("should locate");
    assert_eq!(c.kind, ConstructKind::Subroutine);
    assert_eq!(c.start_line, 2);
    assert_eq!(c.start, 6);
    assert_eq!(c.end, source.len());
}

#[test]
fn second_run_over_updated_content_finds_nothing() {
    let source = b"subroutine foo(x)\n x = x+1\nend subroutine foo\ncall foo(1)\n";
    let out = run_pipeline(source, b"foo", Choice::RemoveSelfAndReferences, TS);
    let updated = match out {
        PipelineOutcome::Removed(o) => o.updated,
        _ => panic!("expected a removal"),
    };
    let again = run_pipeline(&updated, b"foo", Choice::RemoveSelf, TS);
    assert!(matches!(again, PipelineOutcome::NotFound(_)));
}

#[test]
fn module_removal_replaces_only_its_block() {
    let source = b"module keep\n a = 1\nend module keep\nmodule gone\n b = 2\nend module gone\n";
    let out = run_pipeline(source, b"gone", Choice::RemoveSelf, TS);
    match out {
        PipelineOutcome::Removed(o) => {
            let mut expected = b"module keep\n a = 1\nend module keep\n".to_vec();
            expected.extend_from_slice(&marker());
            expected.extend_from_slice(b"\n");
            assert_eq!(o.updated, expected);
            assert_eq!(o.backup.bytes, b"module gone\n b = 2\nend module gone".to_vec());
        },
        _ => panic!("expected a removal"),
    }
}

#[test]
fn backup_round_trip_reconstructs_the_original() {
    let source = b"header\nsubroutine foo(x)\n x = x+1\nend subroutine foo\ntrailer\n";
    let c = locate_construct(source, b"foo").expect("should locate");
    let out = run_pipeline(source, b"foo", Choice::RemoveSelf, TS);
    match out {
        PipelineOutcome::Removed(o) => {
            let mut rebuilt = source[..c.start].to_vec();
            rebuilt.extend_from_slice(&o.backup.bytes);
            rebuilt.extend_from_slice(&source[c.end..]);
            assert_eq!(rebuilt, source.to_vec());
        },
        _ => panic!("expected a removal"),
    }
}

#[test]
fn wider_scope_differs_by_exactly_the_reference_sites() {
    let source = b"subroutine foo(x)\nend subroutine foo\ncall foo(1)\ncall foo(2)\n";
    let self_only = match run_pipeline(source, b"foo", Choice::RemoveSelf, TS) {
        PipelineOutcome::Removed(o) => o.updated,
        _ => panic!("expected a removal"),
    };
    let with_refs = match run_pipeline(source, b"foo", Choice::RemoveSelfAndReferences, TS) {
        PipelineOutcome::Removed(o) => o.updated,
        _ => panic!("expected a removal"),
    };
    assert_ne!(self_only, with_refs);
    let sites = sparse_fortran::refs::find_references(&self_only, b"foo");
    assert_eq!(sites.len(), 2);
    let count = |hay: &[u8]| -> usize {
        let needle = marker();
        let mut n = 0;
        let mut i = 0;
        while i + needle.len() <= hay.len() {
            if &hay[i..i + needle.len()] == needle.as_slice() {
                n += 1;
                i += needle.len();
            } else {
                i += 1;
            }
        }
        n
    };
    assert_eq!(count(&self_only), 1);
    assert_eq!(count(&with_refs), 3);
}
