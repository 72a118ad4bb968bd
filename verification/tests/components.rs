use sparse_fortran::locate::{locate, locate_module, locate_unit};
use sparse_fortran::classify::ConstructKind;
use sparse_fortran::messages::Messages;
use sparse_fortran::refs::find_references;
use sparse_fortran::suggest::{collect_names, edit_distance, suggest};
use sparse_fortran::transform::{apply, build_marker, RemovalScope};
use sparse_fortran::pipeline::{apply_removal, locate_construct};

#[test]
fn module_location_covers_only_the_matching_block() {
    let source = b"module one\n a = 1\nend module one\nmodule two\n b = 2\nend module two\n";
    let span = locate_module(source, b"two").expect("should find module two");
    let text = &source[span.0..span.1];
    assert_eq!(text, b"module two\n b = 2\nend module two");
    let span1 = locate_module(source, b"one").expect("should find module one");
    assert_eq!(&source[span1.0..span1.1], b"module one\n a = 1\nend module one");
}

#[test]
fn module_block_without_end_marker_runs_to_end_of_text() {
    let source = b"x\nmodule tail\n a = 1\n b = 2";
    let span = locate_module(source, b"tail").expect("should find the block");
    assert_eq!(&source[span.0..span.1], b"module tail\n a = 1\n b = 2");
}

#[test]
fn absent_module_is_not_located() {
    let source = b"module one\nend module one\n";
    assert_eq!(locate_module(source, b"two"), None);
}

#[test]
fn unit_location_takes_the_shortest_span_and_first_match() {
    let source =
        b"function foo(a,b)\n y = 1\nend function foo\nfunction foo(c)\n y = 2\nend function foo\n";
    let span = locate_unit(source, b"function", b"foo").expect("should locate");
    assert_eq!(&source[span.0..span.1], b"function foo(a,b)\n y = 1\nend function foo");
}

#[test]
fn locate_dispatches_by_kind() {
    let source = b"module m\nend module m\nsubroutine s(x)\nend subroutine s\n";
    assert!(locate(source, ConstructKind::Module, b"m").is_some());
    assert!(locate(source, ConstructKind::Subroutine, b"s").is_some());
    assert_eq!(locate(source, ConstructKind::Function, b"m"), None);
}

#[test]
fn references_respect_word_boundaries_and_keep_arguments() {
    let source = b"call foo(1)\ncall foobar(2)\nrecall foo(3)\ncall  foo(4)\n";
    let sites = find_references(source, b"foo");
    assert_eq!(sites, vec![0, 41]);
}

#[test]
fn reference_inside_definition_is_also_found() {
    let source = b"subroutine foo(x)\n call foo(x)\nend subroutine foo\n";
    let sites = find_references(source, b"foo");
    assert_eq!(sites.len(), 1);
    assert_eq!(sites[0], 19);
}

#[test]
fn marker_text_is_verbatim() {
    let m = build_marker(b"2024-01-02 as 03:04:05");
    assert_eq!(
        m,
        b" ! Code removed by sparseFortran application on date 2024-01-02 as 03:04:05 "
            .to_vec()
    );
}

#[test]
fn transformer_replaces_span_in_place() {
    let source = b"keep1\nsubroutine foo(x)\nend subroutine foo\nkeep2\n";
    let c = locate_construct(source, b"foo").expect("should locate");
    let updated = apply(source, &c, RemovalScope::SelfOnly, b"T");
    let expected =
        b"keep1\n ! Code removed by sparseFortran application on date T \nkeep2\n".to_vec();
    assert_eq!(updated, expected);
}

#[test]
fn backup_record_carries_exact_span_and_path() {
    let source = b"subroutine foo(x)\nend subroutine foo";
    let c = locate_construct(source, b"foo").expect("should locate");
    let out = apply_removal(source, &c, RemovalScope::SelfOnly, b"T");
    assert_eq!(out.backup.bytes, source.to_vec());
    assert_eq!(out.backup.path, b"bkp/T-foo.f90".to_vec());
    assert_eq!(out.backup.original_name, b"foo".to_vec());
    assert_eq!(out.backup.timestamp, b"T".to_vec());
}

#[test]
fn edit_distance_exact_values() {
    assert_eq!(edit_distance(b"bar", b"baz"), 1);
    assert_eq!(edit_distance(b"bar", b"foo"), 3);
    assert_eq!(edit_distance(b"bar", b"foobar"), 3);
    assert_eq!(edit_distance(b"", b"abc"), 3);
    assert_eq!(edit_distance(b"abc", b""), 3);
    assert_eq!(edit_distance(b"kitten", b"sitting"), 3);
    assert_eq!(edit_distance(b"same", b"same"), 0);
}

#[test]
fn suggestions_rank_by_distance_with_document_order_ties() {
    let source = b"module foo\nmodule foobar\nmodule baz\n";
    let ranked = suggest(source, b"bar");
    let expected: Vec<Vec<u8>> = vec![b"baz".to_vec(), b"foo".to_vec(), b"foobar".to_vec()];
    assert_eq!(ranked, expected);
}

#[test]
fn suggestions_are_deterministic() {
    let source = b"subroutine alpha(x)\nend subroutine alpha\nmodule beta\nend module beta\n";
    let first = suggest(source, b"alpa");
    let second = suggest(source, b"alpa");
    assert_eq!(first, second);
    assert_eq!(first[0], b"alpha".to_vec());
}

#[test]
fn collected_names_keep_document_order() {
    let source = b"module one\nsubroutine two(x)\nfunction three(y)\n";
    let names = collect_names(source);
    let expected: Vec<Vec<u8>> =
        vec![b"one".to_vec(), b"two".to_vec(), b"three".to_vec()];
    assert_eq!(names, expected);
}

#[test]
fn format_message_substitutes_positional_placeholders() {
    let formatted = Messages::format_message(
        "Hello, {0}! Welcome to {1}. You have {2} new messages.",
        &["Alice", "Rustland", "5"],
    );
    assert_eq!(formatted, "Hello, Alice! Welcome to Rustland. You have 5 new messages.");
}

#[test]
fn format_message_replaces_every_occurrence() {
    let formatted = Messages::format_message("{0} and {0} then {1}", &["a", "b"]);
    assert_eq!(formatted, "a and a then b");
    let untouched = Messages::format_message("nothing here", &["x"]);
    assert_eq!(untouched, "nothing here");
    let extra = Messages::format_message("only {0}", &["one", "two"]);
    assert_eq!(extra, "only one");
}
