//! The shared scan routines of the splitter.
//!
//! `source` drives the whole document; `statement` opens and closes one
//! statement; `unknown` is the generic free scan that ends a statement at a
//! top-level semicolon, an empty line, a new statement-start keyword whose
//! preceding token does not mark it as a continuation, or the end of input.

use vstd::prelude::*;

use crate::lexer::{is_trivia, is_trivia_kind, token_relevant, SyntaxKind, Token};
use crate::splitter::data::{at_statement_start, spec_at_statement_start};
use crate::splitter::ddl::{alter, create};
use crate::splitter::dml::{cte, delete, insert, select, update};
use crate::splitter::parser::{
    lemma_rel_from_props, prev_non_blank_at, prev_rel, spec_advance, Parser,
};

verus! {

/// The kind under a cursor: the token's kind, or `Eof` past the end.
pub open spec fn cur_kind(ts: Seq<Token>, pos: int) -> SyntaxKind {
    if 0 <= pos < ts.len() {
        ts[pos].kind
    } else {
        SyntaxKind::Eof
    }
}

/// Where the balanced-parenthesis skip ends, scanning from `pos` at nesting
/// `depth`: an opening parenthesis deepens, a closing one shallows until the
/// group closes (the token is consumed), and the end of input drains the
/// remaining depth in place.
pub open spec fn spec_paren(ts: Seq<Token>, pos: int, depth: int) -> int
    decreases ts.len() - pos, depth,
    when 0 <= pos <= ts.len() && depth >= 1
{
    if pos >= ts.len() {
        if depth == 1 {
            pos
        } else {
            spec_paren(ts, pos, depth - 1)
        }
    } else if !token_relevant(ts[pos]) {
        spec_paren(ts, pos + 1, depth)
    } else if ts[pos].kind == SyntaxKind::Ascii40 {
        spec_paren(ts, pos + 1, if depth < u64::MAX { depth + 1 } else { depth })
    } else if ts[pos].kind == SyntaxKind::Ascii41 {
        if depth == 1 {
            spec_advance(ts, pos)
        } else {
            spec_paren(ts, pos + 1, depth - 1)
        }
    } else {
        spec_paren(ts, pos + 1, depth)
    }
}

/// The skip reads nothing from irrelevant tokens.
pub proof fn lemma_spec_paren_skip(ts: Seq<Token>, p: int, q: int, depth: int)
    requires
        0 <= p <= q <= ts.len(),
        depth >= 1,
        forall|j: int| p <= j < q ==> !token_relevant(#[trigger] ts[j]),
    ensures
        spec_paren(ts, p, depth) == spec_paren(ts, q, depth),
    decreases q - p,
{
    if p < q {
        lemma_spec_paren_skip(ts, p + 1, q, depth);
    }
}

/// Consuming one relevant token and skipping to the next relevant position
/// agree for the balanced skip.
pub proof fn lemma_spec_paren_advance(ts: Seq<Token>, pos: int, depth: int)
    requires
        0 <= pos < ts.len(),
        depth >= 1,
    ensures
        spec_paren(ts, pos + 1, depth) == spec_paren(ts, spec_advance(ts, pos), depth),
{
    lemma_rel_from_props(ts, pos + 1);
    lemma_spec_paren_skip(ts, pos + 1, spec_advance(ts, pos), depth);
}

/// Where the whole parenthesis routine ends from `pos`: the expected
/// opening parenthesis (consumed when present), then the balanced skip.
pub open spec fn spec_parenthesis(ts: Seq<Token>, pos: int) -> int {
    if cur_kind(ts, pos) == SyntaxKind::Ascii40 {
        spec_paren(ts, spec_advance(ts, pos), 1)
    } else {
        spec_paren(ts, pos, 1)
    }
}

/// Where the `CASE .. END` skip ends from `pos`: everything up to and
/// including the next `END` keyword, or the end of input.
pub open spec fn spec_case_body(ts: Seq<Token>, pos: int) -> int
    decreases ts.len() - pos,
    when 0 <= pos <= ts.len()
{
    if pos >= ts.len() {
        pos
    } else if !token_relevant(ts[pos]) {
        spec_case_body(ts, pos + 1)
    } else if ts[pos].kind == SyntaxKind::EndP {
        spec_advance(ts, pos)
    } else {
        spec_case_body(ts, pos + 1)
    }
}

/// The skip reads nothing from irrelevant tokens.
pub proof fn lemma_spec_case_skip(ts: Seq<Token>, p: int, q: int)
    requires
        0 <= p <= q <= ts.len(),
        forall|j: int| p <= j < q ==> !token_relevant(#[trigger] ts[j]),
    ensures
        spec_case_body(ts, p) == spec_case_body(ts, q),
    decreases q - p,
{
    if p < q {
        lemma_spec_case_skip(ts, p + 1, q);
    }
}

/// Consuming one relevant token and skipping to the next relevant position
/// agree for the `CASE` skip.
pub proof fn lemma_spec_case_advance(ts: Seq<Token>, pos: int)
    requires
        0 <= pos < ts.len(),
    ensures
        spec_case_body(ts, pos + 1) == spec_case_body(ts, spec_advance(ts, pos)),
{
    lemma_rel_from_props(ts, pos + 1);
    lemma_spec_case_skip(ts, pos + 1, spec_advance(ts, pos));
}

/// Where the backslash command ends from `pos`: every raw token up to a
/// newline token (consumed, stepping to the next relevant position) or the
/// end of input.
pub open spec fn spec_plpgsql_body(ts: Seq<Token>, pos: int) -> int
    decreases ts.len() - pos,
    when 0 <= pos <= ts.len()
{
    if pos >= ts.len() {
        pos
    } else if ts[pos].kind == SyntaxKind::Newline {
        spec_advance(ts, pos)
    } else {
        spec_plpgsql_body(ts, pos + 1)
    }
}

/// Where the whole backslash-command routine ends from `pos`.
pub open spec fn spec_plpgsql(ts: Seq<Token>, pos: int) -> int {
    if cur_kind(ts, pos) == SyntaxKind::Ascii92 {
        spec_plpgsql_body(ts, spec_advance(ts, pos))
    } else {
        spec_plpgsql_body(ts, pos)
    }
}

/// Where the whole `CASE` routine ends from `pos`.
pub open spec fn spec_case(ts: Seq<Token>, pos: int) -> int {
    if cur_kind(ts, pos) == SyntaxKind::Case {
        spec_case_body(ts, spec_advance(ts, pos))
    } else {
        spec_case_body(ts, pos)
    }
}

/// Where one `expect(kind)` leaves the cursor: advanced past a matching
/// token, in place otherwise.
pub open spec fn spec_expect(ts: Seq<Token>, pos: int, kind: SyntaxKind) -> int {
    if cur_kind(ts, pos) == kind {
        spec_advance(ts, pos)
    } else {
        pos
    }
}

/// The expectation step never moves backward and stays in bounds.
pub proof fn lemma_spec_expect_bounds(ts: Seq<Token>, pos: int, kind: SyntaxKind)
    requires
        0 <= pos <= ts.len(),
    ensures
        pos <= spec_expect(ts, pos, kind) <= ts.len(),
{
    if pos < ts.len() {
        lemma_rel_from_props(ts, pos + 1);
    }
}

/// The whole parenthesis routine never moves backward and stays in bounds.
pub proof fn lemma_spec_parenthesis_bounds(ts: Seq<Token>, pos: int)
    requires
        0 <= pos <= ts.len(),
    ensures
        pos <= spec_parenthesis(ts, pos) <= ts.len(),
{
    lemma_spec_expect_bounds(ts, pos, SyntaxKind::Ascii40);
    if cur_kind(ts, pos) == SyntaxKind::Ascii40 {
        lemma_spec_paren_bounds(ts, spec_advance(ts, pos), 1);
    } else {
        lemma_spec_paren_bounds(ts, pos, 1);
    }
}

/// The scan routines leave the closed ranges and the open statement alone
/// and only move the cursor forward.
pub open spec fn scan_frame(a: Parser, b: Parser) -> bool {
    &&& b.tokens == a.tokens
    &&& b.stmt_ranges == a.stmt_ranges
    &&& b.current_stmt_start == a.current_stmt_start
    &&& b.current_pos >= a.current_pos
}

/// The token-index ranges the whole-document scan emits from `pos`, in
/// order: trivia is skipped, a backslash command is consumed without a
/// range, and each statement contributes the pair of its start token and
/// the last relevant token before its scan's end.
pub open spec fn spec_source_ranges(ts: Seq<Token>, pos: int) -> Seq<(int, int)>
    decreases ts.len() - pos,
    when 0 <= pos <= ts.len()
    via spec_source_ranges_decreases
{
    if pos >= ts.len() {
        Seq::empty()
    } else if !token_relevant(ts[pos]) {
        spec_source_ranges(ts, pos + 1)
    } else if is_trivia_kind(ts[pos].kind) {
        spec_source_ranges(ts, spec_advance(ts, pos))
    } else if ts[pos].kind == SyntaxKind::Ascii92 {
        spec_source_ranges(ts, spec_plpgsql(ts, pos))
    } else {
        let end = spec_statement_end(ts, pos);
        seq![(pos, prev_rel(ts, end))] + spec_source_ranges(ts, end)
    }
}

#[via_fn]
proof fn spec_source_ranges_decreases(ts: Seq<Token>, pos: int) {
    if 0 <= pos < ts.len() {
        lemma_rel_from_props(ts, pos + 1);
        if token_relevant(ts[pos]) && !is_trivia_kind(ts[pos].kind) {
            if ts[pos].kind == SyntaxKind::Ascii92 {
                lemma_spec_plpgsql_body_bounds(ts, spec_advance(ts, pos));
            } else {
                lemma_spec_statement_end_bounds(ts, pos);
            }
        }
    }
}

/// Scans the whole document, closing one statement after another until the
/// end of input.
pub fn source(p: &mut Parser)
    requires
        old(p).wf(),
        old(p).at_rel(),
        old(p).current_stmt_start is None,
    ensures
        final(p).wf(),
        final(p).current_stmt_start is None,
        final(p).tokens == old(p).tokens,
        final(p).stmt_ranges@.len() >= old(p).stmt_ranges@.len(),
        old(p).current_pos < old(p).tokens@.len() && !is_trivia_kind(
            old(p).spec_current().kind,
        ) && old(p).spec_current().kind != SyntaxKind::Ascii92 ==> final(p).stmt_ranges@.len()
            > old(p).stmt_ranges@.len(),
        ranges_as_int(final(p).stmt_ranges@) == ranges_as_int(old(p).stmt_ranges@)
            + spec_source_ranges(old(p).tokens@, old(p).current_pos as int),
{
    loop
        invariant
            p.wf(),
            p.at_rel(),
            p.current_stmt_start is None,
            p.tokens == old(p).tokens,
            p.stmt_ranges@.len() >= old(p).stmt_ranges@.len(),
            p.current_pos >= old(p).current_pos,
            ranges_as_int(p.stmt_ranges@) + spec_source_ranges(p.tokens@, p.current_pos as int)
                == ranges_as_int(old(p).stmt_ranges@) + spec_source_ranges(
                old(p).tokens@,
                old(p).current_pos as int,
            ),
            old(p).current_pos < old(p).tokens@.len() && !is_trivia_kind(
                old(p).spec_current().kind,
            ) && old(p).spec_current().kind != SyntaxKind::Ascii92 ==> (p.stmt_ranges@.len() > old(
                p,
            ).stmt_ranges@.len() || (p.current_pos == old(p).current_pos && p.stmt_ranges@.len()
                == old(p).stmt_ranges@.len())),
        ensures
            p.stmt_ranges@.len() >= old(p).stmt_ranges@.len(),
            old(p).current_pos < old(p).tokens@.len() && !is_trivia_kind(
                old(p).spec_current().kind,
            ) && old(p).spec_current().kind != SyntaxKind::Ascii92 ==> p.stmt_ranges@.len() > old(
                p,
            ).stmt_ranges@.len(),
            ranges_as_int(p.stmt_ranges@) == ranges_as_int(old(p).stmt_ranges@)
                + spec_source_ranges(old(p).tokens@, old(p).current_pos as int),
        decreases p.tokens@.len() - p.current_pos,
    {
        let t = p.current();
        let ghost pre_ranges = p.stmt_ranges@;
        let ghost pre = p.current_pos as int;
        if t.kind == SyntaxKind::Eof {
            break;
        }
        if is_trivia(t.kind) {
            // A relevant trivia token (an empty line) separates statements.
            p.advance();
        } else if t.kind == SyntaxKind::Ascii92 {
            plpgsql_command(p);
        } else {
            statement(p);
            proof {
                assert(ranges_as_int(p.stmt_ranges@) =~= ranges_as_int(pre_ranges) + seq![
                    (pre, prev_rel(p.tokens@, spec_statement_end(p.tokens@, pre))),
                ]);
            }
        }
    }
}

/// Token-index range pairs, as mathematical integers.
pub open spec fn ranges_as_int(rs: Seq<(usize, usize)>) -> Seq<(int, int)> {
    rs.map_values(|r: (usize, usize)| (r.0 as int, r.1 as int))
}

/// Where one statement's scan ends from `pos`, by its leading keyword.
pub open spec fn spec_statement_end(ts: Seq<Token>, pos: int) -> int {
    let k = cur_kind(ts, pos);
    if k == SyntaxKind::With {
        crate::splitter::dml::spec_cte_scan(ts, pos)
    } else if k == SyntaxKind::Select {
        crate::splitter::dml::spec_select_scan(ts, pos)
    } else if k == SyntaxKind::Insert {
        crate::splitter::dml::spec_insert_scan(ts, pos)
    } else if k == SyntaxKind::Update {
        crate::splitter::dml::spec_update_scan(ts, pos)
    } else if k == SyntaxKind::DeleteP {
        crate::splitter::dml::spec_delete_scan(ts, pos)
    } else if k == SyntaxKind::Create {
        crate::splitter::ddl::spec_create_scan(ts, pos)
    } else if k == SyntaxKind::Alter {
        crate::splitter::ddl::spec_alter_scan(ts, pos)
    } else {
        spec_unknown(ts, pos, Seq::empty())
    }
}

/// A statement's scan stays in bounds, and consumes at least one token
/// when it starts on a real statement token.
pub proof fn lemma_spec_statement_end_bounds(ts: Seq<Token>, pos: int)
    requires
        0 <= pos <= ts.len(),
    ensures
        pos <= spec_statement_end(ts, pos) <= ts.len(),
        pos < ts.len() && token_relevant(ts[pos]) && !is_trivia_kind(ts[pos].kind) && ts[pos].kind
            != SyntaxKind::Ascii92 ==> pos < spec_statement_end(ts, pos),
{
    if pos < ts.len() {
        lemma_rel_from_props(ts, pos + 1);
    }
    let k = cur_kind(ts, pos);
    lemma_spec_expect_bounds(ts, pos, k);
    let p1 = spec_expect(ts, pos, k);
    if k == SyntaxKind::With {
        crate::splitter::dml::lemma_spec_cte_items_bounds(ts, p1);
        lemma_spec_unknown_bounds(
            ts,
            crate::splitter::dml::spec_cte_items(ts, p1),
            crate::splitter::dml::cte_exclusions(),
        );
    } else if k == SyntaxKind::Insert {
        lemma_spec_expect_bounds(ts, p1, SyntaxKind::Into);
        lemma_spec_unknown_bounds(
            ts,
            spec_expect(ts, p1, SyntaxKind::Into),
            seq![SyntaxKind::Select],
        );
    } else if k == SyntaxKind::DeleteP {
        lemma_spec_expect_bounds(ts, p1, SyntaxKind::From);
        lemma_spec_unknown_bounds(ts, spec_expect(ts, p1, SyntaxKind::From), Seq::empty());
    } else if k == SyntaxKind::Select || k == SyntaxKind::Update || k == SyntaxKind::Create || k
        == SyntaxKind::Alter {
        lemma_spec_unknown_bounds(ts, p1, Seq::empty());
    } else {
        lemma_spec_unknown_bounds(ts, pos, Seq::empty());
        if pos < ts.len() && token_relevant(ts[pos]) && !is_trivia_kind(ts[pos].kind) && ts[pos].kind != SyntaxKind::Ascii92 {
            if k == SyntaxKind::Case {
                lemma_spec_case_body_bounds(ts, spec_advance(ts, pos));
                lemma_spec_unknown_bounds(ts, spec_case(ts, pos), Seq::empty());
            } else if k == SyntaxKind::Ascii40 {
                lemma_spec_parenthesis_bounds(ts, pos);
                lemma_spec_paren_bounds(ts, spec_advance(ts, pos), 1);
                lemma_spec_unknown_bounds(ts, spec_parenthesis(ts, pos), Seq::empty());
            } else if k == SyntaxKind::Ascii59 || k == SyntaxKind::Newline {
            } else {
                lemma_spec_unknown_bounds(ts, spec_advance(ts, pos), Seq::empty());
            }
        }
    }
}

/// Scans exactly one statement: opens it at the cursor, dispatches on its
/// leading keyword, and closes it at the last relevant token consumed.
pub fn statement(p: &mut Parser)
    requires
        old(p).wf(),
        old(p).at_rel(),
        old(p).current_stmt_start is None,
        old(p).current_pos < old(p).tokens@.len(),
        !is_trivia_kind(old(p).spec_current().kind),
        old(p).spec_current().kind != SyntaxKind::Ascii92,
    ensures
        final(p).wf(),
        final(p).at_rel(),
        final(p).current_stmt_start is None,
        final(p).tokens == old(p).tokens,
        final(p).current_pos > old(p).current_pos,
        final(p).stmt_ranges@.len() == old(p).stmt_ranges@.len() + 1,
        final(p).stmt_ranges@.subrange(0, old(p).stmt_ranges@.len() as int) == old(
            p,
        ).stmt_ranges@,
        final(p).current_pos == spec_statement_end(old(p).tokens@, old(p).current_pos as int),
        final(p).stmt_ranges@[old(p).stmt_ranges@.len() as int].0 == old(p).current_pos,
        final(p).stmt_ranges@[old(p).stmt_ranges@.len() as int].1 == prev_rel(
            old(p).tokens@,
            spec_statement_end(old(p).tokens@, old(p).current_pos as int),
        ),
{
    p.start_stmt();
    let t = p.current();
    match t.kind {
        SyntaxKind::With => cte(p),
        SyntaxKind::Select => select(p),
        SyntaxKind::Insert => insert(p),
        SyntaxKind::Update => update(p),
        SyntaxKind::DeleteP => delete(p),
        SyntaxKind::Create => create(p),
        SyntaxKind::Alter => alter(p),
        _ => {
            let exclude: [SyntaxKind; 0] = [];
            unknown(p, &exclude);
            proof {
                assert(exclude@ =~= Seq::<SyntaxKind>::empty());
            }
        },
    }
    p.close_stmt();
}

/// Skips a balanced parenthesis group as an opaque unit: semicolons and
/// keywords inside it are never statement boundaries. An unbalanced group
/// runs to the end of the input.
pub fn parenthesis(p: &mut Parser)
    requires
        old(p).wf(),
    ensures
        final(p).wf(),
        scan_frame(*old(p), *final(p)),
        old(p).at_rel() ==> final(p).at_rel(),
        old(p).spec_current().kind == SyntaxKind::Ascii40 ==> final(p).current_pos > old(
            p,
        ).current_pos,
        old(p).current_pos < old(p).tokens@.len() ==> final(p).current_pos > old(p).current_pos,
        final(p).current_pos == spec_parenthesis(old(p).tokens@, old(p).current_pos as int),
    {
    p.expect(SyntaxKind::Ascii40);
    let ghost target = spec_parenthesis(old(p).tokens@, old(p).current_pos as int);
    proof {
        assert(spec_paren(p.tokens@, p.current_pos as int, 1) == target);
    }
    let mut depth: u64 = 1;
    loop
        invariant_except_break
            spec_paren(p.tokens@, p.current_pos as int, depth as int) == target,
        invariant
            p.wf(),
            scan_frame(*old(p), *p),
            old(p).at_rel() ==> p.at_rel(),
            depth >= 1,
            old(p).spec_current().kind == SyntaxKind::Ascii40 ==> p.current_pos > old(
                p,
            ).current_pos,
        ensures
            old(p).current_pos < old(p).tokens@.len() ==> p.current_pos > old(p).current_pos,
            p.current_pos == target,
        decreases p.tokens@.len() - p.current_pos, depth,
    {
        let t = p.current();
        let ghost pre = p.current_pos as int;
        if t.kind == SyntaxKind::Ascii40 {
            p.advance();
            proof {
                let d2: int = if depth < u64::MAX {
                    depth as int + 1
                } else {
                    depth as int
                };
                lemma_spec_paren_advance(p.tokens@, pre, d2);
            }
            if depth < u64::MAX {
                depth = depth + 1;
            }
        } else if t.kind == SyntaxKind::Ascii41 {
            p.advance();
            if depth == 1 {
                // The group closed: the consumed parenthesis ends the skip.
                proof {
                    assert(spec_paren(p.tokens@, pre, 1) == spec_advance(p.tokens@, pre));
                }
                break;
            }
            proof {
                lemma_spec_paren_advance(p.tokens@, pre, depth as int - 1);
            }
            depth = depth - 1;
        } else if t.kind == SyntaxKind::Eof {
            if depth == 1 {
                break;
            }
            depth = depth - 1;
        } else {
            p.advance();
            proof {
                lemma_spec_paren_advance(p.tokens@, pre, depth as int);
            }
        }
    }
}

/// Consumes a backslash command verbatim to the end of its physical line,
/// bypassing the normal trivia skipping for that line.
pub fn plpgsql_command(p: &mut Parser)
    requires
        old(p).wf(),
    ensures
        final(p).wf(),
        scan_frame(*old(p), *final(p)),
        final(p).at_rel(),
        old(p).spec_current().kind == SyntaxKind::Ascii92 ==> final(p).current_pos > old(
            p,
        ).current_pos,
        final(p).current_pos == spec_plpgsql(old(p).tokens@, old(p).current_pos as int),
{
    p.expect(SyntaxKind::Ascii92);
    let ghost target = spec_plpgsql(old(p).tokens@, old(p).current_pos as int);
    proof {
        assert(spec_plpgsql_body(p.tokens@, p.current_pos as int) == target);
    }
    loop
        invariant_except_break
            spec_plpgsql_body(p.tokens@, p.current_pos as int) == target,
        invariant
            p.wf(),
            scan_frame(*old(p), *p),
            old(p).spec_current().kind == SyntaxKind::Ascii92 ==> p.current_pos > old(
                p,
            ).current_pos,
        ensures
            p.at_rel(),
            p.current_pos == target,
        decreases p.tokens@.len() - p.current_pos,
    {
        let t = p.current();
        let ghost pre = p.current_pos as int;
        if t.kind == SyntaxKind::Newline {
            p.advance();
            proof {
                assert(spec_plpgsql_body(p.tokens@, pre) == spec_advance(p.tokens@, pre));
            }
            break;
        } else if t.kind == SyntaxKind::Eof {
            break;
        } else {
            // Step one raw token forward: a single newline is trivia, and
            // the usual advance would skip past it.
            p.bump();
        }
    }
}

/// Skips a `CASE ... END` block as a keyword-balanced unit. An unterminated
/// block runs to the end of the input.
pub fn case(p: &mut Parser)
    requires
        old(p).wf(),
    ensures
        final(p).wf(),
        scan_frame(*old(p), *final(p)),
        old(p).at_rel() ==> final(p).at_rel(),
        old(p).spec_current().kind == SyntaxKind::Case ==> final(p).current_pos > old(
            p,
        ).current_pos,
        final(p).current_pos == spec_case(old(p).tokens@, old(p).current_pos as int),
{
    p.expect(SyntaxKind::Case);
    let ghost target = spec_case(old(p).tokens@, old(p).current_pos as int);
    proof {
        assert(spec_case_body(p.tokens@, p.current_pos as int) == target);
    }
    loop
        invariant_except_break
            spec_case_body(p.tokens@, p.current_pos as int) == target,
        invariant
            p.wf(),
            scan_frame(*old(p), *p),
            old(p).at_rel() ==> p.at_rel(),
            old(p).spec_current().kind == SyntaxKind::Case ==> p.current_pos > old(p).current_pos,
        ensures
            p.current_pos == target,
        decreases p.tokens@.len() - p.current_pos,
    {
        let t = p.current();
        let ghost pre = p.current_pos as int;
        if t.kind == SyntaxKind::EndP {
            p.advance();
            proof {
                assert(spec_case_body(p.tokens@, pre) == spec_advance(p.tokens@, pre));
            }
            break;
        } else if t.kind == SyntaxKind::Eof {
            break;
        } else {
            p.advance();
            proof {
                lemma_spec_case_advance(p.tokens@, pre);
            }
        }
    }
}

/// The balanced skip never moves backward and stays in bounds.
pub proof fn lemma_spec_paren_bounds(ts: Seq<Token>, pos: int, depth: int)
    requires
        0 <= pos <= ts.len(),
        depth >= 1,
    ensures
        pos <= spec_paren(ts, pos, depth) <= ts.len(),
    decreases ts.len() - pos, depth,
{
    if pos >= ts.len() {
        if depth > 1 {
            lemma_spec_paren_bounds(ts, pos, depth - 1);
        }
    } else if !token_relevant(ts[pos]) {
        lemma_spec_paren_bounds(ts, pos + 1, depth);
    } else if ts[pos].kind == SyntaxKind::Ascii40 {
        lemma_spec_paren_bounds(
            ts,
            pos + 1,
            if depth < u64::MAX {
                depth + 1
            } else {
                depth
            },
        );
    } else if ts[pos].kind == SyntaxKind::Ascii41 {
        if depth == 1 {
            lemma_rel_from_props(ts, pos + 1);
        } else {
            lemma_spec_paren_bounds(ts, pos + 1, depth - 1);
        }
    } else {
        lemma_spec_paren_bounds(ts, pos + 1, depth);
    }
}

/// The `CASE` skip never moves backward and stays in bounds.
pub proof fn lemma_spec_case_body_bounds(ts: Seq<Token>, pos: int)
    requires
        0 <= pos <= ts.len(),
    ensures
        pos <= spec_case_body(ts, pos) <= ts.len(),
    decreases ts.len() - pos,
{
    if pos < ts.len() {
        if token_relevant(ts[pos]) && ts[pos].kind == SyntaxKind::EndP {
            lemma_rel_from_props(ts, pos + 1);
        } else {
            lemma_spec_case_body_bounds(ts, pos + 1);
        }
    }
}

/// A keyword after which `SELECT` continues the current statement: CTE
/// bodies, views, rules, set operations, policies and grants.
pub open spec fn select_continuation(k: SyntaxKind) -> bool {
    ||| k == SyntaxKind::For
    ||| k == SyntaxKind::As
    ||| k == SyntaxKind::On
    ||| k == SyntaxKind::Also
    ||| k == SyntaxKind::Instead
    ||| k == SyntaxKind::Union
    ||| k == SyntaxKind::All
    ||| k == SyntaxKind::Except
    ||| k == SyntaxKind::Grant
}

/// A keyword after which `INSERT`, `UPDATE` or `DELETE` continues the
/// current statement: triggers, policies, rules and grants.
pub open spec fn dml_continuation(k: SyntaxKind) -> bool {
    ||| k == SyntaxKind::Before
    ||| k == SyntaxKind::After
    ||| k == SyntaxKind::For
    ||| k == SyntaxKind::Or
    ||| k == SyntaxKind::On
    ||| k == SyntaxKind::Also
    ||| k == SyntaxKind::Instead
    ||| k == SyntaxKind::Grant
}

/// A keyword before which `WITH` is a clause fragment rather than a CTE
/// introducer.
pub open spec fn with_continuation(k: SyntaxKind) -> bool {
    k == SyntaxKind::Ordinality || k == SyntaxKind::Check
}

/// Where the generic free scan ends from `pos`.
///
/// It stops by consuming a top-level semicolon; without consuming at an
/// empty line, at the end of input, at a backslash whose nearest preceding
/// non-blank token is a newline, or at a statement-start keyword (not in
/// `exclude`) whose nearest preceding relevant token does not mark it as a
/// continuation; parenthesis groups and `CASE .. END` are skipped as opaque
/// units, and everything else is consumed.
pub open spec fn spec_unknown(ts: Seq<Token>, pos: int, exclude: Seq<SyntaxKind>) -> int
    decreases ts.len() - pos,
    when 0 <= pos <= ts.len()
    via spec_unknown_decreases
{
    if pos >= ts.len() {
        pos
    } else if !token_relevant(ts[pos]) {
        spec_unknown(ts, pos + 1, exclude)
    } else {
        let k = ts[pos].kind;
        if k == SyntaxKind::Ascii59 {
            spec_advance(ts, pos)
        } else if k == SyntaxKind::Newline {
            pos
        } else if k == SyntaxKind::Case {
            spec_unknown(ts, spec_case(ts, pos), exclude)
        } else if k == SyntaxKind::Ascii92 {
            if prev_non_blank_at(ts, pos) >= 0 && ts[prev_non_blank_at(ts, pos)].kind
                == SyntaxKind::Newline {
                pos
            } else {
                spec_unknown(ts, spec_advance(ts, pos), exclude)
            }
        } else if k == SyntaxKind::Ascii40 {
            spec_unknown(ts, spec_parenthesis(ts, pos), exclude)
        } else {
            match spec_at_statement_start(k, exclude) {
                Some(SyntaxKind::Select) => {
                    if prev_rel(ts, pos) >= 0 && select_continuation(ts[prev_rel(ts, pos)].kind) {
                        spec_unknown(ts, spec_advance(ts, pos), exclude)
                    } else {
                        pos
                    }
                },
                Some(SyntaxKind::Insert) | Some(SyntaxKind::Update) | Some(SyntaxKind::DeleteP) => {
                    if prev_rel(ts, pos) >= 0 && dml_continuation(ts[prev_rel(ts, pos)].kind) {
                        spec_unknown(ts, spec_advance(ts, pos), exclude)
                    } else {
                        pos
                    }
                },
                Some(SyntaxKind::With) => {
                    if spec_advance(ts, pos) < ts.len() && with_continuation(
                        ts[spec_advance(ts, pos)].kind,
                    ) {
                        spec_unknown(ts, spec_advance(ts, pos), exclude)
                    } else {
                        pos
                    }
                },
                Some(_) => pos,
                None => spec_unknown(ts, spec_advance(ts, pos), exclude),
            }
        }
    }
}

#[via_fn]
proof fn spec_unknown_decreases(ts: Seq<Token>, pos: int, exclude: Seq<SyntaxKind>) {
    if 0 <= pos < ts.len() {
        lemma_rel_from_props(ts, pos + 1);
        if token_relevant(ts[pos]) {
            if ts[pos].kind == SyntaxKind::Case {
                lemma_spec_case_body_bounds(ts, spec_advance(ts, pos));
                lemma_spec_case_body_bounds(ts, pos);
            }
            if ts[pos].kind == SyntaxKind::Ascii40 {
                lemma_spec_paren_bounds(ts, spec_advance(ts, pos), 1);
                lemma_spec_paren_bounds(ts, pos, 1);
            }
        }
    }
}

/// The generic scan never moves backward and stays in bounds.
pub proof fn lemma_spec_unknown_bounds(ts: Seq<Token>, pos: int, exclude: Seq<SyntaxKind>)
    requires
        0 <= pos <= ts.len(),
    ensures
        pos <= spec_unknown(ts, pos, exclude) <= ts.len(),
    decreases ts.len() - pos,
{
    if pos < ts.len() {
        lemma_rel_from_props(ts, pos + 1);
        if !token_relevant(ts[pos]) {
            lemma_spec_unknown_bounds(ts, pos + 1, exclude);
        } else {
            let k = ts[pos].kind;
            if k == SyntaxKind::Case {
                lemma_spec_case_body_bounds(ts, pos);
                lemma_spec_case_body_bounds(ts, spec_advance(ts, pos));
                lemma_spec_unknown_bounds(ts, spec_case(ts, pos), exclude);
            } else if k == SyntaxKind::Ascii40 {
                lemma_spec_paren_bounds(ts, spec_advance(ts, pos), 1);
                lemma_spec_unknown_bounds(ts, spec_parenthesis(ts, pos), exclude);
            } else if k == SyntaxKind::Ascii59 || k == SyntaxKind::Newline {
            } else {
                lemma_spec_unknown_bounds(ts, spec_advance(ts, pos), exclude);
            }
        }
    }
}

/// The backslash-command skip never moves backward and stays in bounds.
pub proof fn lemma_spec_plpgsql_body_bounds(ts: Seq<Token>, pos: int)
    requires
        0 <= pos <= ts.len(),
    ensures
        pos <= spec_plpgsql_body(ts, pos) <= ts.len(),
    decreases ts.len() - pos,
{
    if pos < ts.len() {
        if ts[pos].kind == SyntaxKind::Newline {
            lemma_rel_from_props(ts, pos + 1);
        } else {
            lemma_spec_plpgsql_body_bounds(ts, pos + 1);
        }
    }
}

/// The conditions under which the generic scan is guaranteed to consume at
/// least one token: the cursor rests on a real token that is neither
/// trivia, nor a backslash, nor a possible statement-start keyword.
pub open spec fn unknown_progress_expected(a: Parser, exclude: Seq<SyntaxKind>) -> bool {
    &&& a.current_pos < a.tokens@.len()
    &&& !is_trivia_kind(a.spec_current().kind)
    &&& a.spec_current().kind != SyntaxKind::Ascii92
    &&& spec_at_statement_start(a.spec_current().kind, exclude) is None
}

/// The generic free scan of one statement's tail.
///
/// Consumes tokens until a top-level semicolon (consumed), an empty line, a
/// statement-start keyword that the preceding token does not turn into a
/// continuation (`exclude` names keywords that can never be a boundary
/// here, such as a CTE's own body keyword), a backslash that begins its
/// line, or the end of input.
pub fn unknown(p: &mut Parser, exclude: &[SyntaxKind])
    requires
        old(p).wf(),
        old(p).at_rel(),
    ensures
        final(p).wf(),
        final(p).at_rel(),
        scan_frame(*old(p), *final(p)),
        unknown_progress_expected(*old(p), exclude@) ==> final(p).current_pos > old(
            p,
        ).current_pos,
        final(p).current_pos == spec_unknown(
            old(p).tokens@,
            old(p).current_pos as int,
            exclude@,
        ),
{
    let ghost target = spec_unknown(old(p).tokens@, old(p).current_pos as int, exclude@);
    loop
        invariant_except_break
            spec_unknown(p.tokens@, p.current_pos as int, exclude@) == target,
        invariant
            p.wf(),
            p.at_rel(),
            scan_frame(*old(p), *p),
        ensures
            unknown_progress_expected(*old(p), exclude@) ==> p.current_pos > old(p).current_pos,
            p.current_pos == target,
        decreases p.tokens@.len() - p.current_pos,
    {
        let t = p.current();
        let ghost pre = p.current_pos as int;
        match t.kind {
            SyntaxKind::Ascii59 => {
                p.advance();
                proof {
                    assert(spec_unknown(p.tokens@, pre, exclude@) == spec_advance(
                        p.tokens@,
                        pre,
                    ));
                }
                break;
            },
            SyntaxKind::Newline => {
                break;
            },
            SyntaxKind::Eof => {
                break;
            },
            SyntaxKind::Case => {
                case(p);
            },
            SyntaxKind::Ascii92 => {
                // A backslash command begins only at the start of a line;
                // look back over blanks and comments for a newline.
                let prior_newline = match p.prev_non_blank() {
                    Some(prev) => prev.kind == SyntaxKind::Newline,
                    None => false,
                };
                if prior_newline {
                    break;
                }
                p.advance();
            },
            SyntaxKind::Ascii40 => {
                parenthesis(p);
            },
            _ => {
                match at_statement_start(t.kind, exclude) {
                    Some(SyntaxKind::Select) => {
                        let cont = match p.look_back() {
                            Some(prev) => {
                                // SELECT continues a policy, view, rule, set
                                // operation or grant after these keywords.
                                prev.kind == SyntaxKind::For || prev.kind == SyntaxKind::As
                                    || prev.kind == SyntaxKind::On || prev.kind
                                    == SyntaxKind::Also || prev.kind == SyntaxKind::Instead
                                    || prev.kind == SyntaxKind::Union || prev.kind
                                    == SyntaxKind::All || prev.kind == SyntaxKind::Except
                                    || prev.kind == SyntaxKind::Grant
                            },
                            None => false,
                        };
                        if !cont {
                            break;
                        }
                        p.advance();
                    },
                    Some(SyntaxKind::Insert) | Some(SyntaxKind::Update) | Some(
                        SyntaxKind::DeleteP,
                    ) => {
                        let cont = match p.look_back() {
                            Some(prev) => {
                                // These continue a trigger, policy, rule or
                                // grant after these keywords.
                                prev.kind == SyntaxKind::Before || prev.kind
                                    == SyntaxKind::After || prev.kind == SyntaxKind::For
                                    || prev.kind == SyntaxKind::Or || prev.kind == SyntaxKind::On
                                    || prev.kind == SyntaxKind::Also || prev.kind
                                    == SyntaxKind::Instead || prev.kind == SyntaxKind::Grant
                            },
                            None => false,
                        };
                        if !cont {
                            break;
                        }
                        p.advance();
                    },
                    Some(SyntaxKind::With) => {
                        let cont = match p.look_ahead() {
                            Some(next) => {
                                // WITH ORDINALITY and WITH CHECK are clause
                                // fragments, not CTE introducers.
                                next.kind == SyntaxKind::Ordinality || next.kind
                                    == SyntaxKind::Check
                            },
                            None => false,
                        };
                        if !cont {
                            break;
                        }
                        p.advance();
                    },
                    Some(_) => {
                        break;
                    },
                    None => {
                        p.advance();
                    },
                }
            },
        }
    }
}

} // verus!
