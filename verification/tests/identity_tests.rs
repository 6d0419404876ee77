//! Behavior of statement identities, annotations, and text ranges.

use pgt_core::annotation::AnnotationStore;
use pgt_core::text_range::TextRange;
use pgt_core::{StatementId, StatementIdGenerator};

#[test]
fn annotates_correctly() {
    let mut store = AnnotationStore::new();

    let test_cases = [
        ("SELECT * FROM foo", false),
        ("SELECT * FROM foo;", true),
        ("SELECT * FROM foo ;", true),
        ("SELECT * FROM foo ; ", true),
        ("SELECT * FROM foo ;\n", true),
        ("SELECT * FROM foo\n", false),
    ];

    for (idx, (content, expected)) in test_cases.iter().enumerate() {
        let statement_id = StatementId::Root(idx.into());

        let annotations = store.get_annotations(&statement_id, content);

        assert!(annotations.is_some());
        assert_eq!(annotations.unwrap().ends_with_semicolon, *expected);
    }
}

#[test]
fn trailing_blank_lines_do_not_hide_the_semicolon() {
    let mut store = AnnotationStore::new();
    let id = StatementId::Root(9.into());
    let annotations = store.get_annotations(&id, "SELECT * FROM foo ;\n\n").unwrap();
    assert!(annotations.ends_with_semicolon);
}

#[test]
fn generator_allocates_increasing_roots() {
    let mut generator = StatementIdGenerator::new();
    assert_eq!(generator.next(), StatementId::Root(0.into()));
    assert_eq!(generator.next(), StatementId::Root(1.into()));
    assert_eq!(generator.next().raw(), 2);
}

#[test]
fn child_ids_share_the_root_sequence_number() {
    let root = StatementId::Root(7.into());
    let child = root.get_child_id().unwrap();
    assert_eq!(child, StatementId::Child(7.into()));
    assert_eq!(child.raw(), 7);
    assert_eq!(child.get_child_id(), None);
    assert_eq!(root.create_child(), child);
}

#[test]
fn default_statement_id_is_the_first_root() {
    assert_eq!(StatementId::default(), StatementId::Root(0.into()));
    let n: usize = pgt_core::RootId::from(3usize).into();
    assert_eq!(n, 3);
}

#[test]
fn text_range_queries() {
    let r = TextRange::new(2, 5);
    assert_eq!(r.len(), 3);
    assert!(!r.is_empty());
    assert!(r.contains(2));
    assert!(r.contains(4));
    assert!(!r.contains(5));
    assert!(r.contains_range(&TextRange::new(3, 5)));
    assert!(!r.contains_range(&TextRange::new(3, 6)));
    assert!(r.overlaps(&TextRange::new(4, 9)));
    assert!(!r.overlaps(&TextRange::new(5, 9)));
    assert_eq!(r.shift_right(10), TextRange::new(12, 15));
    assert_eq!(r.shift_left(2), TextRange::new(0, 3));
    assert_eq!(r.expand_end(2), TextRange::new(2, 7));
}
