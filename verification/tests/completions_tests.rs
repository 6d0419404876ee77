//! Behavior of the completion-facing values and statement selection.

use pgt_core::completions::get_statement_for_completions;
use pgt_core::{ClauseType, CompletionItemKind, InputQuery, ParsedDocument, WrappingNode, CURSOR_POS};

fn get_doc_and_pos(sql: &str) -> (ParsedDocument, usize) {
    let pos = sql
        .find(CURSOR_POS)
        .expect("Please add cursor position to test sql");
    let pos = sql[..pos].chars().count();
    (
        ParsedDocument::new(
            "test.sql".to_string(),
            sql.replace(CURSOR_POS, ""),
            5,
        ),
        pos,
    )
}

#[test]
fn finds_matching_statement() {
    let sql = format!(
        r#"
            select * from users;

            update {}users set email = 'myemail@com';

            select 1;
        "#,
        CURSOR_POS
    );

    let (mut doc, position) = get_doc_and_pos(sql.as_str());

    let (_, _, text, _) =
        get_statement_for_completions(&mut doc, position).expect("Expected Statement");

    assert_eq!(text, "update users set email = 'myemail@com';")
}

#[test]
fn does_not_break_when_no_statements_exist() {
    let sql = format!("{}", CURSOR_POS);

    let (mut doc, position) = get_doc_and_pos(sql.as_str());

    assert!(matches!(
        get_statement_for_completions(&mut doc, position),
        None
    ));
}

#[test]
fn does_not_return_overlapping_statements_if_too_close() {
    let sql = format!("select * from {}select 1;", CURSOR_POS);

    let (mut doc, position) = get_doc_and_pos(sql.as_str());

    // make sure these are parsed as two
    assert_eq!(doc.count(), 2);

    assert!(matches!(
        get_statement_for_completions(&mut doc, position),
        None
    ));
}

#[test]
fn is_fine_with_spaces() {
    let sql = format!("select * from     {}     ;", CURSOR_POS);

    let (mut doc, position) = get_doc_and_pos(sql.as_str());

    let (_, _, text, _) =
        get_statement_for_completions(&mut doc, position).expect("Expected Statement");

    assert_eq!(text, "select * from          ;")
}

#[test]
fn considers_offset() {
    let sql = format!("select * from {}", CURSOR_POS);

    let (mut doc, position) = get_doc_and_pos(sql.as_str());

    let (_, _, text, _) =
        get_statement_for_completions(&mut doc, position).expect("Expected Statement");

    assert_eq!(text, "select * from")
}

#[test]
fn does_not_consider_too_far_offset() {
    let sql = format!("select * from  {}", CURSOR_POS);

    let (mut doc, position) = get_doc_and_pos(sql.as_str());

    assert!(matches!(
        get_statement_for_completions(&mut doc, position),
        None
    ));
}

#[test]
fn does_not_consider_offset_if_statement_terminated_by_semi() {
    let sql = format!("select * from users;{}", CURSOR_POS);

    let (mut doc, position) = get_doc_and_pos(sql.as_str());

    assert!(matches!(
        get_statement_for_completions(&mut doc, position),
        None
    ));
}

#[test]
fn input_query_should_extract_correct_position() {
    struct TestCase {
        query: String,
        expected_pos: usize,
        expected_sql_len: usize,
    }

    let cases = vec![
        TestCase {
            query: format!("select * from{}", CURSOR_POS),
            expected_pos: 13,
            expected_sql_len: 13,
        },
        TestCase {
            query: format!("{}select * from", CURSOR_POS),
            expected_pos: 0,
            expected_sql_len: 13,
        },
        TestCase {
            query: format!("select {} from", CURSOR_POS),
            expected_pos: 7,
            expected_sql_len: 12,
        },
    ];

    for case in cases {
        let query = InputQuery::from(case.query.as_str());
        assert_eq!(query.position, case.expected_pos);
        assert_eq!(query.sql.len(), case.expected_sql_len);
    }
}

#[test]
fn clause_types_from_node_kinds() {
    assert_eq!(ClauseType::try_from("select"), Ok(ClauseType::Select));
    assert_eq!(ClauseType::try_from("where"), Ok(ClauseType::Where));
    assert_eq!(ClauseType::try_from("from"), Ok(ClauseType::From));
    assert_eq!(ClauseType::try_from("update"), Ok(ClauseType::Update));
    assert_eq!(ClauseType::try_from("delete"), Ok(ClauseType::Delete));
    assert!(ClauseType::try_from("group_by").is_err());
}

#[test]
fn wrapping_nodes_from_node_kinds() {
    assert_eq!(WrappingNode::try_from("relation"), Ok(WrappingNode::Relation));
    assert_eq!(WrappingNode::try_from("assignment"), Ok(WrappingNode::Assignment));
    assert_eq!(
        WrappingNode::try_from("binary_expression"),
        Ok(WrappingNode::BinaryExpression)
    );
    assert!(WrappingNode::try_from("literal").is_err());
}

#[test]
fn completion_item_kind_display() {
    assert_eq!(CompletionItemKind::Table.display_string(), "Table");
    assert_eq!(CompletionItemKind::Function.display_string(), "Function");
    assert_eq!(CompletionItemKind::Column.display_string(), "Column");
    assert_eq!(CompletionItemKind::Schema.display_string(), "Schema");
}
