//! Diagnostic values produced by the engine.
//!
//! Two independent taxonomies exist: recoverable split diagnostics, recorded
//! when a token fails an expectation during boundary scanning (scanning then
//! continues), and per-statement syntax diagnostics, stored in the AST cache
//! slot in place of a successful result. Neither is ever fatal to the whole
//! document.

use vstd::prelude::*;

use crate::text_range::TextRange;

verus! {

/// A recoverable diagnostic from the statement splitter: a token failed to
/// match an expectation at `span`. The scan continues after recording it.
#[derive(Debug, Clone, PartialEq, Eq)]
pub struct SplitDiagnostic {
    pub message: String,
    pub span: TextRange,
}

impl SplitDiagnostic {
    pub fn new(message: String, span: TextRange) -> (r: SplitDiagnostic)
        ensures
            r.message == message,
            r.span == span,
    {
        SplitDiagnostic { message, span }
    }

    /// The diagnostic with its span shifted right by `offset`, used when a
    /// statement was scanned relative to a larger document.
    pub fn with_offset(&self, offset: usize) -> (r: SplitDiagnostic)
        requires
            self.span.wf(),
            self.span.end + offset <= usize::MAX,
        ensures
            r.message == self.message,
            r.span.start == self.span.start + offset,
            r.span.end == self.span.end + offset,
    {
        let span = self.span.shift_right(offset);
        SplitDiagnostic { message: self.message.clone(), span }
    }
}

/// A per-statement syntax diagnostic: the statement's text failed the typed
/// parse. It is scoped to one statement; sibling statements are unaffected.
#[derive(Debug, Clone, PartialEq, Eq)]
pub struct SyntaxDiagnostic {
    pub message: String,
    pub span: Option<TextRange>,
}

impl SyntaxDiagnostic {
    pub fn new(message: String, span: Option<TextRange>) -> (r: SyntaxDiagnostic)
        ensures
            r.message == message,
            r.span == span,
    {
        SyntaxDiagnostic { message, span }
    }
}

} // verus!
