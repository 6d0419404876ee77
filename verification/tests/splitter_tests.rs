//! Behavior of the statement splitter on whole documents.

use pgt_core::splitter::{split, Parser};
use pgt_core::SyntaxKind;

fn ranges_of(sql: &str) -> Vec<(usize, usize)> {
    let result = split(sql);
    result.ranges.iter().map(|r| (r.start, r.end)).collect()
}

fn texts_of(sql: &str) -> Vec<String> {
    ranges_of(sql).iter().map(|&(s, e)| sql[s..e].to_string()).collect()
}

#[test]
fn cte_with_nested_statements_is_one_statement() {
    let sql = "with c as (insert into contact (id) values ('id')) select * from c;";
    assert_eq!(ranges_of(sql).len(), 1);
    assert_eq!(texts_of(sql)[0], sql);
}

#[test]
fn nested_select_in_parentheses_is_no_boundary() {
    let sql = "select 1; update foo set x = 1 where y in (select 1);";
    let texts = texts_of(sql);
    assert_eq!(texts.len(), 2);
    assert_eq!(texts[0], "select 1;");
    assert_eq!(texts[1], "update foo set x = 1 where y in (select 1);");
}

#[test]
fn semicolons_separate_statements() {
    let texts = texts_of("select 1; select 2; select 3;");
    assert_eq!(texts, vec!["select 1;", "select 2;", "select 3;"]);
}

#[test]
fn keyword_boundary_without_semicolon() {
    let texts = texts_of("select 1 select 2");
    assert_eq!(texts, vec!["select 1", "select 2"]);
}

#[test]
fn empty_line_separates_statements() {
    let texts = texts_of("select 1,\n2\n\nalter table t");
    assert_eq!(texts, vec!["select 1,\n2", "alter table t"]);
}

#[test]
fn union_select_is_a_continuation() {
    let texts = texts_of("select 1 union select 2;");
    assert_eq!(texts, vec!["select 1 union select 2;"]);
}

#[test]
fn grant_select_is_a_continuation() {
    let texts = texts_of("grant select on t to u;");
    assert_eq!(texts, vec!["grant select on t to u;"]);
}

#[test]
fn trigger_keywords_are_continuations() {
    let sql = "create trigger check_update before update on accounts for each row execute function check_account_update();";
    assert_eq!(texts_of(sql).len(), 1);
}

#[test]
fn with_ordinality_is_no_cte() {
    let sql = "select * from unnest(a) with ordinality;";
    assert_eq!(texts_of(sql).len(), 1);
}

#[test]
fn semicolon_inside_string_is_no_boundary() {
    let sql = "select 'a; b'; select 2;";
    let texts = texts_of(sql);
    assert_eq!(texts, vec!["select 'a; b';", "select 2;"]);
}

#[test]
fn semicolon_inside_dollar_quote_is_no_boundary() {
    let sql = "create function f() returns int as $$ select 1; select 2; $$ language sql;";
    assert_eq!(texts_of(sql).len(), 1);
}

#[test]
fn semicolon_inside_comment_is_no_boundary() {
    let sql = "select 1 -- one; two\n+ 2;";
    assert_eq!(texts_of(sql).len(), 1);
}

#[test]
fn case_end_is_skipped_as_a_unit() {
    let sql = "select case when x then 1 else 2 end from t;";
    assert_eq!(texts_of(sql).len(), 1);
}

#[test]
fn backslash_command_is_no_statement() {
    // A backslash command is consumed verbatim to its line's end and owns
    // no statement range.
    let sql = "\\set x 1\nselect 1;";
    let texts = texts_of(sql);
    assert_eq!(texts, vec!["select 1;"]);
}

#[test]
fn empty_input_has_no_statements() {
    assert_eq!(ranges_of("").len(), 0);
    assert_eq!(ranges_of("   \n  ").len(), 0);
}

#[test]
fn expectation_mismatch_records_a_diagnostic() {
    // A CTE without AS after its name: scanning continues and still yields
    // one statement, with a recoverable diagnostic.
    let sql = "with c (select 1) select * from c;";
    let result = split(sql);
    assert_eq!(result.ranges.len(), 1);
    assert!(!result.errors.is_empty());
    let d = &result.errors[0];
    assert!(d.span.end <= sql.len());
}

#[test]
fn coverage_reconstructs_the_document() {
    // Ordered disjoint ranges: the statements plus the trivia around them
    // make up the document exactly.
    for sql in [
        "select 1; select 22; select 3;",
        "  select 1;\n\n  alter table t add column c int;\n",
        "with c as (select 1) select * from c;",
        "",
    ] {
        let rs = ranges_of(sql);
        let mut rebuilt = String::new();
        let mut at = 0;
        for &(s, e) in &rs {
            assert!(at <= s && s < e && e <= sql.len());
            rebuilt.push_str(&sql[at..s]);
            rebuilt.push_str(&sql[s..e]);
            at = e;
        }
        rebuilt.push_str(&sql[at..]);
        assert_eq!(rebuilt, sql);
    }
}

#[test]
fn splitting_is_idempotent_per_statement() {
    // Splitting each emitted statement's text again yields exactly that
    // statement.
    for sql in [
        "select 1; select 22; select 3;",
        "with c as (insert into contact (id) values ('id')) select * from c;",
        "select 1; update foo set x = 1 where y in (select 1);",
        "create function f() returns int as $$ select 1; select 2; $$ language sql;",
        "grant select on t to u;\n\ndelete from t;",
    ] {
        for text in texts_of(sql) {
            let again = texts_of(&text);
            assert_eq!(again, vec![text.clone()], "re-splitting {text:?}");
        }
    }
}

#[test]
fn advance_works_as_expected() {
    let sql = r#"
        create table users (
            id serial primary key,
            name text,
            email text
        );
        "#;
    let tokens = pgt_core::lexer::lex(sql);
    let total_num_tokens = tokens.len();

    let mut parser = Parser::new(tokens);

    let expected = vec![
        SyntaxKind::Create,
        SyntaxKind::Ident,
        SyntaxKind::Ident,
        SyntaxKind::Ascii40,
        SyntaxKind::Ident,
        SyntaxKind::Ident,
        SyntaxKind::Ident,
        SyntaxKind::Ident,
        SyntaxKind::Ascii44,
        SyntaxKind::Ident,
        SyntaxKind::Ident,
        SyntaxKind::Ascii44,
        SyntaxKind::Ident,
        SyntaxKind::Ident,
        SyntaxKind::Ascii41,
        SyntaxKind::Ascii59,
    ];

    for kind in expected {
        assert_eq!(parser.current().kind, kind);
        parser.advance();
    }

    assert_eq!(parser.current().kind, SyntaxKind::Eof);
    assert_eq!(parser.current_pos, total_num_tokens);
}
