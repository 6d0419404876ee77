//! Keyword-specific consumption for data statements and CTEs.

use vstd::prelude::*;

use crate::lexer::{SyntaxKind, Token};
use crate::splitter::common::{
    cur_kind, lemma_spec_expect_bounds, lemma_spec_parenthesis_bounds, parenthesis, scan_frame,
    spec_expect, spec_parenthesis, spec_unknown, unknown,
};
use crate::splitter::parser::{lemma_rel_from_props, spec_advance, Parser};

verus! {

/// Where the `SELECT` handler ends: the keyword, then the generic scan
/// with nothing excluded.
pub open spec fn spec_select_scan(ts: Seq<Token>, pos: int) -> int {
    spec_unknown(ts, spec_expect(ts, pos, SyntaxKind::Select), Seq::empty())
}

/// Where the `INSERT` handler ends: `INSERT INTO`, then the generic scan
/// with `SELECT` excluded (an insert feeds on a select of its own).
pub open spec fn spec_insert_scan(ts: Seq<Token>, pos: int) -> int {
    spec_unknown(
        ts,
        spec_expect(ts, spec_expect(ts, pos, SyntaxKind::Insert), SyntaxKind::Into),
        seq![SyntaxKind::Select],
    )
}

/// Where the `UPDATE` handler ends.
pub open spec fn spec_update_scan(ts: Seq<Token>, pos: int) -> int {
    spec_unknown(ts, spec_expect(ts, pos, SyntaxKind::Update), Seq::empty())
}

/// Where the `DELETE` handler ends: `DELETE FROM`, then the generic scan.
pub open spec fn spec_delete_scan(ts: Seq<Token>, pos: int) -> int {
    spec_unknown(
        ts,
        spec_expect(ts, spec_expect(ts, pos, SyntaxKind::DeleteP), SyntaxKind::From),
        Seq::empty(),
    )
}

/// The statement keywords a CTE's trailing body may begin with: they are
/// no boundaries there, the CTE already opened the statement.
pub open spec fn cte_exclusions() -> Seq<SyntaxKind> {
    seq![
        SyntaxKind::Select,
        SyntaxKind::Insert,
        SyntaxKind::Update,
        SyntaxKind::DeleteP,
        SyntaxKind::Merge,
    ]
}

/// Where the CTE item list ends from `pos`: each item is a name, `AS`, and
/// a balanced parenthesis group; a comma continues with the next item.
pub open spec fn spec_cte_items(ts: Seq<Token>, pos: int) -> int
    decreases ts.len() - pos,
    when 0 <= pos <= ts.len()
    via spec_cte_items_decreases
{
    let after = spec_parenthesis(
        ts,
        spec_expect(ts, spec_expect(ts, pos, SyntaxKind::Ident), SyntaxKind::As),
    );
    if cur_kind(ts, after) == SyntaxKind::Ascii44 {
        spec_cte_items(ts, spec_advance(ts, after))
    } else {
        after
    }
}

#[via_fn]
proof fn spec_cte_items_decreases(ts: Seq<Token>, pos: int) {
    if 0 <= pos <= ts.len() {
        lemma_spec_expect_bounds(ts, pos, SyntaxKind::Ident);
        let p1 = spec_expect(ts, pos, SyntaxKind::Ident);
        lemma_spec_expect_bounds(ts, p1, SyntaxKind::As);
        let p2 = spec_expect(ts, p1, SyntaxKind::As);
        lemma_spec_parenthesis_bounds(ts, p2);
        let after = spec_parenthesis(ts, p2);
        if cur_kind(ts, after) == SyntaxKind::Ascii44 {
            lemma_rel_from_props(ts, after + 1);
        }
    }
}

/// The CTE item list never moves backward and stays in bounds.
pub proof fn lemma_spec_cte_items_bounds(ts: Seq<Token>, pos: int)
    requires
        0 <= pos <= ts.len(),
    ensures
        pos <= spec_cte_items(ts, pos) <= ts.len(),
    decreases ts.len() - pos,
{
    lemma_spec_expect_bounds(ts, pos, SyntaxKind::Ident);
    let p1 = spec_expect(ts, pos, SyntaxKind::Ident);
    lemma_spec_expect_bounds(ts, p1, SyntaxKind::As);
    let p2 = spec_expect(ts, p1, SyntaxKind::As);
    lemma_spec_parenthesis_bounds(ts, p2);
    let after = spec_parenthesis(ts, p2);
    if cur_kind(ts, after) == SyntaxKind::Ascii44 {
        lemma_rel_from_props(ts, after + 1);
        lemma_spec_cte_items_bounds(ts, spec_advance(ts, after));
    }
}

/// Where the whole CTE handler ends: `WITH`, the item list, then the
/// generic scan of the trailing body with its keywords excluded.
pub open spec fn spec_cte_scan(ts: Seq<Token>, pos: int) -> int {
    spec_unknown(
        ts,
        spec_cte_items(ts, spec_expect(ts, pos, SyntaxKind::With)),
        cte_exclusions(),
    )
}

/// Consumes `WITH name AS ( ... ) [, name AS ( ... )]*` and then hands the
/// trailing body statement to the generic scan with its own statement
/// keywords excluded from boundary detection: the CTE already established
/// where the statement starts.
pub fn cte(p: &mut Parser)
    requires
        old(p).wf(),
        old(p).at_rel(),
    ensures
        final(p).wf(),
        final(p).at_rel(),
        scan_frame(*old(p), *final(p)),
        old(p).spec_current().kind == SyntaxKind::With ==> final(p).current_pos > old(
            p,
        ).current_pos,
        final(p).current_pos == spec_cte_scan(old(p).tokens@, old(p).current_pos as int),
{
    p.expect(SyntaxKind::With);
    let ghost items_target = spec_cte_items(old(p).tokens@, p.current_pos as int);
    loop
        invariant_except_break
            spec_cte_items(p.tokens@, p.current_pos as int) == items_target,
        invariant
            p.wf(),
            p.at_rel(),
            scan_frame(*old(p), *p),
            old(p).spec_current().kind == SyntaxKind::With ==> p.current_pos > old(p).current_pos,
        ensures
            p.current_pos == items_target,
        decreases p.tokens@.len() - p.current_pos,
    {
        let ghost top = p.current_pos as int;
        p.expect(SyntaxKind::Ident);
        p.expect(SyntaxKind::As);
        parenthesis(p);
        let t = p.current();
        if t.kind == SyntaxKind::Ascii44 {
            p.advance();
        } else {
            proof {
                assert(spec_cte_items(p.tokens@, top) == p.current_pos as int);
            }
            break;
        }
    }
    let exclude: [SyntaxKind; 5] = [
        SyntaxKind::Select,
        SyntaxKind::Insert,
        SyntaxKind::Update,
        SyntaxKind::DeleteP,
        SyntaxKind::Merge,
    ];
    unknown(p, &exclude);
    proof {
        assert(exclude@ =~= cte_exclusions());
    }
}

pub fn select(p: &mut Parser)
    requires
        old(p).wf(),
        old(p).at_rel(),
    ensures
        final(p).wf(),
        final(p).at_rel(),
        scan_frame(*old(p), *final(p)),
        old(p).spec_current().kind == SyntaxKind::Select ==> final(p).current_pos > old(
            p,
        ).current_pos,
        final(p).current_pos == spec_select_scan(old(p).tokens@, old(p).current_pos as int),
{
    p.expect(SyntaxKind::Select);
    let exclude: [SyntaxKind; 0] = [];
    unknown(p, &exclude);
    proof {
        assert(exclude@ =~= Seq::<SyntaxKind>::empty());
    }
}

pub fn insert(p: &mut Parser)
    requires
        old(p).wf(),
        old(p).at_rel(),
    ensures
        final(p).wf(),
        final(p).at_rel(),
        scan_frame(*old(p), *final(p)),
        old(p).spec_current().kind == SyntaxKind::Insert ==> final(p).current_pos > old(
            p,
        ).current_pos,
        final(p).current_pos == spec_insert_scan(old(p).tokens@, old(p).current_pos as int),
{
    p.expect(SyntaxKind::Insert);
    p.expect(SyntaxKind::Into);
    let exclude: [SyntaxKind; 1] = [SyntaxKind::Select];
    unknown(p, &exclude);
    proof {
        assert(exclude@ =~= seq![SyntaxKind::Select]);
    }
}

pub fn update(p: &mut Parser)
    requires
        old(p).wf(),
        old(p).at_rel(),
    ensures
        final(p).wf(),
        final(p).at_rel(),
        scan_frame(*old(p), *final(p)),
        old(p).spec_current().kind == SyntaxKind::Update ==> final(p).current_pos > old(
            p,
        ).current_pos,
        final(p).current_pos == spec_update_scan(old(p).tokens@, old(p).current_pos as int),
{
    p.expect(SyntaxKind::Update);
    let exclude: [SyntaxKind; 0] = [];
    unknown(p, &exclude);
    proof {
        assert(exclude@ =~= Seq::<SyntaxKind>::empty());
    }
}

pub fn delete(p: &mut Parser)
    requires
        old(p).wf(),
        old(p).at_rel(),
    ensures
        final(p).wf(),
        final(p).at_rel(),
        scan_frame(*old(p), *final(p)),
        old(p).spec_current().kind == SyntaxKind::DeleteP ==> final(p).current_pos > old(
            p,
        ).current_pos,
        final(p).current_pos == spec_delete_scan(old(p).tokens@, old(p).current_pos as int),
{
    p.expect(SyntaxKind::DeleteP);
    p.expect(SyntaxKind::From);
    let exclude: [SyntaxKind; 0] = [];
    unknown(p, &exclude);
    proof {
        assert(exclude@ =~= Seq::<SyntaxKind>::empty());
    }
}

} // verus!
