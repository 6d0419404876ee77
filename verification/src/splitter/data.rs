//! The keyword set that can begin a new statement.

use vstd::prelude::*;

use crate::lexer::SyntaxKind;

verus! {

/// Whether `k` is a keyword that can begin a top-level statement.
pub open spec fn is_statement_start_kind(k: SyntaxKind) -> bool {
    ||| k == SyntaxKind::Select
    ||| k == SyntaxKind::Insert
    ||| k == SyntaxKind::Update
    ||| k == SyntaxKind::DeleteP
    ||| k == SyntaxKind::With
}

/// The statement-start keyword `k` stands for, unless it is excluded.
pub open spec fn spec_at_statement_start(k: SyntaxKind, exclude: Seq<SyntaxKind>) -> Option<
    SyntaxKind,
> {
    if is_statement_start_kind(k) && !exclude.contains(k) {
        Some(k)
    } else {
        None
    }
}

/// Returns the statement-start keyword `kind` stands for, or `None` when it
/// cannot begin a statement here, either because it is no start keyword or
/// because the caller excluded it (a CTE body's own keyword, for example).
pub fn at_statement_start(kind: SyntaxKind, exclude: &[SyntaxKind]) -> (r: Option<SyntaxKind>)
    ensures
        r == spec_at_statement_start(kind, exclude@),
{
    let is_start = match kind {
        SyntaxKind::Select => true,
        SyntaxKind::Insert => true,
        SyntaxKind::Update => true,
        SyntaxKind::DeleteP => true,
        SyntaxKind::With => true,
        _ => false,
    };
    if !is_start {
        return None;
    }
    let n = exclude.len();
    let mut i: usize = 0;
    while i < n
        invariant
            i <= n,
            n == exclude@.len(),
            forall|j: int| 0 <= j < i ==> exclude@[j] != kind,
        decreases n - i,
    {
        if exclude[i] == kind {
            proof {
                assert(exclude@.contains(kind)) by {
                    assert(exclude@[i as int] == kind);
                }
            }
            return None;
        }
        i = i + 1;
    }
    proof {
        assert(!exclude@.contains(kind));
    }
    Some(kind)
}

} // verus!
