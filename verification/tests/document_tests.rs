//! Behavior of the document model and the change engine.

use pgt_core::change::{ChangeFileParams, ChangeParams, StatementChange};
use pgt_core::text_range::TextRange;
use pgt_core::{Document, StatementId};

fn root(n: usize) -> StatementId {
    StatementId::Root(n.into())
}

#[test]
fn new_document_assigns_increasing_root_ids() {
    let doc = Document::new("select 1; select 2;".to_string(), 0);
    assert_eq!(doc.positions.len(), 2);
    assert_eq!(doc.positions[0].0, root(0));
    assert_eq!(doc.positions[1].0, root(1));
    assert_eq!(doc.version, 0);
}

#[test]
fn statement_at_returns_text() {
    let doc = Document::new("select 1; select 2;".to_string(), 0);
    let (id, _range, text) = doc.statement_at(1);
    assert_eq!(id, root(1));
    assert_eq!(text, "select 2;");
}

#[test]
fn edit_inside_one_statement_yields_one_modified_event() {
    // Editing `2` to `22` in the middle statement: exactly one Modified
    // event, and the surrounding statements keep their identities.
    let mut doc = Document::new("select 1; select 2; select 3;".to_string(), 0);
    let params = ChangeFileParams {
        version: 1,
        changes: vec![ChangeParams {
            range: Some(TextRange { start: 17, end: 18 }),
            text: "22".to_string(),
        }],
    };
    let events = doc.apply_file_change(&params);

    assert_eq!(doc.content, "select 1; select 22; select 3;");
    assert_eq!(doc.version, 1);
    assert_eq!(events.len(), 1);
    match &events[0] {
        StatementChange::Modified(m) => {
            assert_eq!(m.old_stmt, root(1));
            assert_eq!(m.old_stmt_text, "select 2;");
            assert_eq!(m.new_stmt_text, "select 22;");
            assert_ne!(m.new_stmt, m.old_stmt);
        }
        other => panic!("expected a modification, got {other:?}"),
    }
    // Identities: the first and third statements keep theirs.
    assert_eq!(doc.positions.len(), 3);
    assert_eq!(doc.positions[0].0, root(0));
    assert_eq!(doc.positions[2].0, root(2));
    assert_ne!(doc.positions[1].0, root(1));
    // Ranges: the untouched suffix statement shifted by the length delta.
    assert_eq!(doc.positions[0].1, TextRange { start: 0, end: 9 });
    assert_eq!(doc.positions[1].1, TextRange { start: 10, end: 20 });
    assert_eq!(doc.positions[2].1, TextRange { start: 21, end: 30 });
}

#[test]
fn modified_event_patch_turns_old_text_into_new_text() {
    let mut doc = Document::new("select 1; select 2; select 3;".to_string(), 0);
    let params = ChangeFileParams {
        version: 1,
        changes: vec![ChangeParams {
            range: Some(TextRange { start: 17, end: 18 }),
            text: "22".to_string(),
        }],
    };
    let events = doc.apply_file_change(&params);
    match &events[0] {
        StatementChange::Modified(m) => {
            let mut patched = m.old_stmt_text[..m.change_range.start].to_string();
            patched.push_str(&m.change_text);
            patched.push_str(&m.old_stmt_text[m.change_range.end..]);
            assert_eq!(patched, m.new_stmt_text);
        }
        other => panic!("expected a modification, got {other:?}"),
    }
}

#[test]
fn appending_a_statement_yields_added() {
    let mut doc = Document::new("select 1;".to_string(), 0);
    let params = ChangeFileParams {
        version: 1,
        changes: vec![ChangeParams {
            range: Some(TextRange { start: 9, end: 9 }),
            text: " select 2;".to_string(),
        }],
    };
    let events = doc.apply_file_change(&params);
    assert_eq!(doc.content, "select 1; select 2;");
    assert_eq!(doc.positions.len(), 2);
    assert_eq!(doc.positions[0].0, root(0));
    assert!(events
        .iter()
        .any(|e| matches!(e, StatementChange::Added(a) if a.text == "select 2;")));
}

#[test]
fn deleting_a_statement_yields_deleted() {
    let mut doc = Document::new("select 1; select 2;".to_string(), 0);
    let params = ChangeFileParams {
        version: 1,
        changes: vec![ChangeParams {
            range: Some(TextRange { start: 9, end: 19 }),
            text: "".to_string(),
        }],
    };
    let events = doc.apply_file_change(&params);
    assert_eq!(doc.content, "select 1;");
    assert_eq!(doc.positions.len(), 1);
    assert_eq!(doc.positions[0].0, root(0));
    assert!(events
        .iter()
        .any(|e| matches!(e, StatementChange::Deleted(id) if *id == root(1))));
}

#[test]
fn full_replacement_renumbers_everything() {
    let mut doc = Document::new("select 1;".to_string(), 0);
    let params = ChangeFileParams {
        version: 7,
        changes: vec![ChangeParams { range: None, text: "delete from t;".to_string() }],
    };
    let events = doc.apply_file_change(&params);
    assert_eq!(doc.content, "delete from t;");
    assert_eq!(doc.version, 7);
    assert_eq!(doc.positions.len(), 1);
    assert!(!events.is_empty());
}

#[test]
fn moved_statement_is_delete_plus_add() {
    // Positional matching, not content-aware: identical text at another
    // position does not keep its identity.
    let mut doc = Document::new("select 'a'; select 'b';".to_string(), 0);
    let params = ChangeFileParams {
        version: 1,
        changes: vec![ChangeParams {
            range: Some(TextRange { start: 0, end: 23 }),
            text: "select 'b'; select 'a';".to_string(),
        }],
    };
    let events = doc.apply_file_change(&params);
    assert!(events.len() >= 1);
    assert!(doc.positions.iter().all(|p| p.0 != root(0) || p.1.start == 0));
}

#[test]
fn two_changes_apply_in_order() {
    let mut doc = Document::new("select 1;".to_string(), 0);
    let params = ChangeFileParams {
        version: 2,
        changes: vec![
            ChangeParams {
                range: Some(TextRange { start: 7, end: 8 }),
                text: "9".to_string(),
            },
            ChangeParams {
                range: Some(TextRange { start: 9, end: 9 }),
                text: " select 2;".to_string(),
            },
        ],
    };
    doc.apply_file_change(&params);
    assert_eq!(doc.content, "select 9; select 2;");
    assert_eq!(doc.positions.len(), 2);
}

#[test]
fn split_diagnostics_are_kept_on_the_document() {
    let doc = Document::new("with c (select 1) select * from c;".to_string(), 0);
    assert!(!doc.diagnostics.is_empty());
}
