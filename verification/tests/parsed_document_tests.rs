//! Behavior of the per-file aggregate: caches, sub-statements, and
//! invalidation.

use pgt_core::change::{ChangeFileParams, ChangeParams, StatementChange};
use pgt_core::parsed_document::DefaultMapper;
use pgt_core::text_range::TextRange;
use pgt_core::{ParsedDocument, StatementId};

fn root(n: usize) -> StatementId {
    StatementId::Root(n.into())
}

#[test]
fn sql_function_body() {
    let input = "CREATE FUNCTION add(integer, integer) RETURNS integer
    AS 'select $1 + $2;'
    LANGUAGE SQL
    IMMUTABLE
    RETURNS NULL ON NULL INPUT;";

    let mut d = ParsedDocument::new("test.sql".to_string(), input.to_string(), 0);

    let stmts = d.iter(DefaultMapper);

    assert_eq!(stmts.len(), 2);
    assert_eq!(stmts[1].2, "select $1 + $2;");
}

#[test]
fn function_body_becomes_a_child_statement() {
    let input = "create function f() returns int as $$ select 1; select 2; $$ language sql;";
    let mut d = ParsedDocument::new("test.sql".to_string(), input.to_string(), 0);

    let stmts = d.iter(DefaultMapper);
    assert_eq!(stmts.len(), 2);

    // One root spanning the whole definition.
    assert_eq!(stmts[0].0, root(0));
    assert_eq!(stmts[0].2, input);

    // Exactly one child holding the embedded body.
    assert_eq!(stmts[1].0, root(0).get_child_id().unwrap());
    assert_eq!(stmts[1].2, "select 1; select 2;");

    // The child's range points at the body inside the document.
    let expected_start = input.find("select 1; select 2;").unwrap();
    assert_eq!(stmts[1].1.start, expected_start);
    assert_eq!(stmts[1].1.end, expected_start + "select 1; select 2;".len());
}

#[test]
fn modifying_the_root_signature_clears_the_child_caches() {
    let input = "create function f() returns int as $$ select 1; select 2; $$ language sql;";
    let mut d = ParsedDocument::new("test.sql".to_string(), input.to_string(), 0);

    // Populate the caches for the root and the child.
    let stmts = d.iter(DefaultMapper);
    assert_eq!(stmts.len(), 2);
    let old_root = root(0);
    let old_child = old_root.get_child_id().unwrap();
    let _ = d.annotation_db.get_annotations(&old_root, input);
    let _ = d.annotation_db.get_annotations(&old_child, "select 1; select 2;");
    let _ = d.cst_db.get_or_cache_tree(&old_child, "select 1; select 2;");
    assert!(d.ast_db.has(&old_root));
    assert!(d.sql_fn_db.has(&old_root));
    assert!(d.cst_db.has(&old_root));
    assert!(d.annotation_db.has(&old_root));
    assert!(d.annotation_db.has(&old_child));
    assert!(d.cst_db.has(&old_child));

    // Modify only the root's signature; the body literal stays untouched.
    let pos = input.find("f()").unwrap();
    let params = ChangeFileParams {
        version: 1,
        changes: vec![ChangeParams {
            range: Some(TextRange { start: pos, end: pos + 1 }),
            text: "g".to_string(),
        }],
    };
    let events = d.apply_change(&params);
    assert!(events
        .iter()
        .any(|e| matches!(e, StatementChange::Modified(m) if m.old_stmt == old_root)));

    // The entries keyed by the old root identity, and by its child, are
    // gone from every store.
    assert!(!d.ast_db.has(&old_root));
    assert!(!d.ast_db.has(&old_child));
    assert!(!d.sql_fn_db.has(&old_root));
    assert!(!d.sql_fn_db.has(&old_child));
    assert!(!d.annotation_db.has(&old_root));
    assert!(!d.annotation_db.has(&old_child));
    assert!(!d.cst_db.has(&old_root));
    assert!(!d.cst_db.has(&old_child));

    // The document still reads correctly under the fresh identity.
    let stmts = d.iter(DefaultMapper);
    assert_eq!(stmts.len(), 2);
    assert_eq!(stmts[1].2, "select 1; select 2;");
    assert!(stmts[0].2.contains("g()"));
}

#[test]
fn get_or_cache_ast_memoizes() {
    let mut d = ParsedDocument::new("test.sql".to_string(), "select 1;".to_string(), 0);
    assert!(!d.ast_db.has(&root(0)));
    let first = d.ast_db.get_or_cache_ast(&root(0), "select 1;");
    assert!(d.ast_db.has(&root(0)));
    let second = d.ast_db.get_or_cache_ast(&root(0), "select 1;");
    assert_eq!(first.is_ok(), second.is_ok());
    d.ast_db.clear_statement(&root(0));
    assert!(!d.ast_db.has(&root(0)));
}

#[test]
fn empty_statement_text_fails_the_typed_parse() {
    let mut d = ParsedDocument::new("test.sql".to_string(), "".to_string(), 0);
    let result = d.ast_db.get_or_cache_ast(&root(0), "");
    assert!(result.is_err());
    let also = d.ast_db.get_or_cache_ast(&root(9), "   \n ");
    assert!(also.is_err());
    let ok = d.ast_db.get_or_cache_ast(&root(1), "select 1");
    assert!(ok.is_ok());
}

#[test]
fn cst_store_keeps_the_statement_text() {
    let mut d = ParsedDocument::new("test.sql".to_string(), "select 1;".to_string(), 0);
    let tree = d.cst_db.get_or_cache_tree(&root(0), "select 1;");
    assert_eq!(tree.text, "select 1;");
}

#[test]
fn modified_tree_is_patched_incrementally() {
    let mut d = ParsedDocument::new(
        "test.sql".to_string(),
        "select 1; select 2; select 3;".to_string(),
        0,
    );
    // Trees are built eagerly on construction; after an inner edit the new
    // identity's tree holds the patched text.
    let params = ChangeFileParams {
        version: 1,
        changes: vec![ChangeParams {
            range: Some(TextRange { start: 17, end: 18 }),
            text: "22".to_string(),
        }],
    };
    let events = d.apply_change(&params);
    let m = events
        .iter()
        .find_map(|e| match e {
            StatementChange::Modified(m) => Some(m),
            _ => None,
        })
        .expect("one modification");
    assert!(d.cst_db.has(&m.new_stmt));
    assert!(!d.cst_db.has(&m.old_stmt));
    let tree = d.cst_db.get_or_cache_tree(&m.new_stmt, &m.new_stmt_text);
    assert_eq!(tree.text, "select 22;");
}

#[test]
fn find_maps_one_statement_by_identity() {
    let mut d =
        ParsedDocument::new("test.sql".to_string(), "select 1; select 2;".to_string(), 0);
    let found = d.find(root(1), DefaultMapper).expect("statement 1 exists");
    assert_eq!(found.2, "select 2;");
    assert!(d.find(root(9), DefaultMapper).is_none());
}

#[test]
fn annotations_cache_and_clear() {
    let mut d = ParsedDocument::new("test.sql".to_string(), "select 1;".to_string(), 0);
    let a = d.annotation_db.get_annotations(&root(0), "select 1;").unwrap();
    assert!(a.ends_with_semicolon);
    assert!(d.annotation_db.has(&root(0)));
    d.annotation_db.clear_statement(&root(0));
    assert!(!d.annotation_db.has(&root(0)));
}
