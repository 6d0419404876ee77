//! Keyword-specific consumption for definition statements.

use vstd::prelude::*;

use crate::lexer::{SyntaxKind, Token};
use crate::splitter::common::{scan_frame, spec_expect, spec_unknown, unknown};
use crate::splitter::parser::Parser;

verus! {

/// Where the `CREATE` handler ends: the keyword, then the generic scan.
pub open spec fn spec_create_scan(ts: Seq<Token>, pos: int) -> int {
    spec_unknown(ts, spec_expect(ts, pos, SyntaxKind::Create), Seq::empty())
}

/// Where the `ALTER` handler ends: the keyword, then the generic scan.
pub open spec fn spec_alter_scan(ts: Seq<Token>, pos: int) -> int {
    spec_unknown(ts, spec_expect(ts, pos, SyntaxKind::Alter), Seq::empty())
}

pub fn create(p: &mut Parser)
    requires
        old(p).wf(),
        old(p).at_rel(),
    ensures
        final(p).wf(),
        final(p).at_rel(),
        scan_frame(*old(p), *final(p)),
        old(p).spec_current().kind == SyntaxKind::Create ==> final(p).current_pos > old(
            p,
        ).current_pos,
        final(p).current_pos == spec_create_scan(old(p).tokens@, old(p).current_pos as int),
{
    p.expect(SyntaxKind::Create);
    let exclude: [SyntaxKind; 0] = [];
    unknown(p, &exclude);
    proof {
        assert(exclude@ =~= Seq::<SyntaxKind>::empty());
    }
}

pub fn alter(p: &mut Parser)
    requires
        old(p).wf(),
        old(p).at_rel(),
    ensures
        final(p).wf(),
        final(p).at_rel(),
        scan_frame(*old(p), *final(p)),
        old(p).spec_current().kind == SyntaxKind::Alter ==> final(p).current_pos > old(
            p,
        ).current_pos,
        final(p).current_pos == spec_alter_scan(old(p).tokens@, old(p).current_pos as int),
{
    p.expect(SyntaxKind::Alter);
    let exclude: [SyntaxKind; 0] = [];
    unknown(p, &exclude);
    proof {
        assert(exclude@ =~= Seq::<SyntaxKind>::empty());
    }
}

} // verus!
