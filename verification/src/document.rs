//! The document model: full text, version, and the ordered statement list.
//!
//! A document owns its text and runs the splitter once on construction,
//! assigning each statement range an increasing `Root` identity in source
//! order. No semantic validation happens here: invalid SQL still yields
//! ranges. Only the change engine mutates a document afterwards.

use vstd::prelude::*;

use crate::diagnostics::SplitDiagnostic;
use crate::splitter::{errors_bounded, ranges_ordered_disjoint, split};
use crate::statement_identifier::{StatementId, StatementIdGenerator};
use crate::text_range::TextRange;

verus! {

/// One statement of a document: its stable identity and its range.
pub type StatementPos = (StatementId, TextRange);

/// Runs the splitter and returns the ranges together with the diagnostics,
/// the latter shifted right by `offset` when one is given.
pub fn split_with_diagnostics(content: &str, offset: Option<usize>) -> (r: (
    Vec<TextRange>,
    Vec<SplitDiagnostic>,
))
    requires
        offset matches Some(o) ==> o + content@.len() <= usize::MAX,
    ensures
        ranges_ordered_disjoint(r.0@, content@.len() as int),
        exists|ts: Seq<crate::lexer::Token>|
            crate::lexer::tokens_wf(ts) && crate::lexer::tokens_text_len(ts) == content@.len()
                && #[trigger] crate::splitter::scan_ranges_match(ts, r.0@),
{
    let total = content.unicode_len();
    let o = match offset {
        Some(o) => o,
        None => 0,
    };
    let parse = split(content);
    let mut errors: Vec<SplitDiagnostic> = Vec::new();
    let n = parse.errors.len();
    let mut i: usize = 0;
    while i < n
        invariant
            i <= n,
            n == parse.errors@.len(),
            errors_bounded(parse.errors@, content@.len() as int),
            total == content@.len(),
            o + content@.len() <= usize::MAX,
        decreases n - i,
    {
        errors.push(parse.errors[i].with_offset(o));
        i = i + 1;
    }
    (parse.ranges, errors)
}

/// A document: its content, its version, its ordered statement list, and
/// the split diagnostics of the last scan.
pub struct Document {
    /// The full text.
    pub content: String,
    /// The caller-supplied version of the content.
    pub version: i32,
    /// The diagnostics of the last split.
    pub diagnostics: Vec<SplitDiagnostic>,
    /// The statements, sorted by range start, pairwise disjoint.
    pub positions: Vec<StatementPos>,
    /// The allocator for fresh statement identities.
    pub id_generator: StatementIdGenerator,
}

impl Document {
    /// The ranges of the statement list, in order.
    pub open spec fn spec_ranges(self) -> Seq<TextRange> {
        self.positions@.map_values(|p: StatementPos| p.1)
    }

    /// Well-formedness: ranges are ordered, disjoint, nonempty and within
    /// the content; identities are distinct roots below the generator's
    /// next sequence number.
    pub open spec fn wf(self) -> bool {
        &&& ranges_ordered_disjoint(self.spec_ranges(), self.content@.len() as int)
        &&& forall|i: int|
            0 <= i < self.positions@.len() ==> (#[trigger] self.positions@[i]).0.is_root()
        &&& forall|i: int|
            0 <= i < self.positions@.len() ==> (#[trigger] self.positions@[i]).0.spec_raw()
                < self.id_generator.spec_next_id()
        &&& forall|i: int, j: int|
            #![trigger self.positions@[i], self.positions@[j]]
            0 <= i < j < self.positions@.len() ==> self.positions@[i].0 != self.positions@[j].0
    }

    /// Builds a document: splits `content` and assigns each range a fresh
    /// `Root` identity in source order, starting at zero.
    pub fn new(content: String, version: i32) -> (doc: Document)
        ensures
            doc.wf(),
            doc.content == content,
            doc.version == version,
            forall|i: int|
                0 <= i < doc.positions@.len() ==> (#[trigger] doc.positions@[i]).0.spec_raw()
                    == i,
            doc.id_generator.spec_next_id() == doc.positions@.len(),
            exists|ts: Seq<crate::lexer::Token>|
                crate::lexer::tokens_wf(ts) && crate::lexer::tokens_text_len(ts)
                    == content@.len() && #[trigger] crate::splitter::scan_ranges_match(
                    ts,
                    doc.spec_ranges(),
                ),
    {
        let mut id_generator = StatementIdGenerator::new();
        let (ranges, diagnostics) = split_with_diagnostics(content.as_str(), None);
        proof {
            crate::splitter::lemma_ranges_count(ranges@, content@.len() as int);
        }
        let mut positions: Vec<StatementPos> = Vec::new();
        let n = ranges.len();
        let mut i: usize = 0;
        while i < n
            invariant
                i <= n,
                n == ranges@.len(),
                positions@.len() == i,
                n <= content@.len(),
                id_generator.spec_next_id() == i,
                ranges_ordered_disjoint(ranges@, content@.len() as int),
                forall|k: int| 0 <= k < i ==> (#[trigger] positions@[k]).1 == ranges@[k],
                forall|k: int|
                    0 <= k < i ==> (#[trigger] positions@[k]).0 == StatementId::Root(
                        crate::statement_identifier::RootId { inner: k as usize },
                    ),
            decreases n - i,
        {
            let id = id_generator.next();
            positions.push((id, ranges[i]));
            i = i + 1;
        }
        let doc = Document { content, version, diagnostics, positions, id_generator };
        proof {
            assert(doc.spec_ranges() =~= ranges@);
        }
        doc
    }

    /// The number of statements.
    pub fn statement_count(&self) -> (r: usize)
        ensures
            r == self.positions@.len(),
    {
        self.positions.len()
    }

    /// The statement at list position `i`: its identity, its range, and its
    /// text.
    pub fn statement_at(&self, i: usize) -> (r: (StatementId, TextRange, String))
        requires
            self.wf(),
            i < self.positions@.len(),
        ensures
            r.0 == self.positions@[i as int].0,
            r.1 == self.positions@[i as int].1,
            r.2@ == self.content@.subrange(
                self.positions@[i as int].1.start as int,
                self.positions@[i as int].1.end as int,
            ),
    {
        let id = self.positions[i].0.clone();
        let range = self.positions[i].1;
        proof {
            assert(self.spec_ranges()[i as int] == self.positions@[i as int].1);
        }
        let text = self.content.as_str().substring_char(range.start, range.end);
        (id, range, text.to_owned())
    }
}

} // verus!
