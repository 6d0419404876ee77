//! The statement splitter.
//!
//! A single forward pass over the token stream of one document emits an
//! ordered list of non-overlapping statement character ranges together with
//! recoverable diagnostics. It never fails: invalid SQL still yields ranges,
//! worst case one degenerate statement.

pub mod common;
pub mod data;
pub mod ddl;
pub mod dml;
pub mod parser;

use vstd::prelude::*;

use crate::diagnostics::SplitDiagnostic;
use crate::lexer::{
    is_trivia_kind, lemma_tokens_bounded, lemma_tokens_ordered, lex, token_relevant, SyntaxKind,
    Token,
};
use crate::text_range::TextRange;

pub use parser::Parser;

verus! {

/// What one run of the splitter produces: the ordered statement ranges and
/// the diagnostics recorded along the way.
#[derive(Debug)]
pub struct ParserResult {
    /// The character ranges of the split statements.
    pub ranges: Vec<TextRange>,
    /// The diagnostics accumulated while scanning.
    pub errors: Vec<SplitDiagnostic>,
}

/// Diagnostics carry well-formed spans within a document of length `len`.
pub open spec fn errors_bounded(es: Seq<SplitDiagnostic>, len: int) -> bool {
    forall|i: int|
        0 <= i < es.len() ==> (#[trigger] es[i]).span.start <= es[i].span.end && es[i].span.end
            <= len
}

/// The well-formedness of a split result over a document of length `len`:
/// every range is nonempty and within bounds, and the ranges are ordered
/// and pairwise disjoint.
pub open spec fn ranges_ordered_disjoint(rs: Seq<TextRange>, len: int) -> bool {
    &&& forall|i: int| 0 <= i < rs.len() ==> (#[trigger] rs[i]).start < rs[i].end
    &&& forall|i: int| 0 <= i < rs.len() ==> (#[trigger] rs[i]).end <= len
    &&& forall|i: int, j: int|
        #![trigger rs[i], rs[j]]
        0 <= i < j < rs.len() ==> rs[i].end <= rs[j].start
}

/// Turns the closed token-index ranges of a finished scan into character
/// ranges.
pub fn finish(p: Parser) -> (r: ParserResult)
    requires
        p.wf(),
    ensures
        ranges_ordered_disjoint(r.ranges@, p.text_len()),
        r.errors == p.errors,
        errors_bounded(r.errors@, p.text_len()),
        r.ranges@.len() == p.stmt_ranges@.len(),
        forall|i: int|
            0 <= i < r.ranges@.len() ==> (#[trigger] r.ranges@[i]).start
                == p.tokens@[p.stmt_ranges@[i].0 as int].span.start && r.ranges@[i].end
                == p.tokens@[p.stmt_ranges@[i].1 as int].span.end,
{
    let n = p.stmt_ranges.len();
    let mut ranges: Vec<TextRange> = Vec::new();
    let mut i: usize = 0;
    while i < n
        invariant
            p.wf(),
            i <= n,
            n == p.stmt_ranges@.len(),
            ranges@.len() == i,
            forall|k: int|
                0 <= k < i ==> (#[trigger] ranges@[k]).start == p.tokens@[p.stmt_ranges@[k].0
                    as int].span.start,
            forall|k: int|
                0 <= k < i ==> (#[trigger] ranges@[k]).end == p.tokens@[p.stmt_ranges@[k].1
                    as int].span.end,
            forall|k: int| 0 <= k < i ==> (#[trigger] ranges@[k]).start < ranges@[k].end,
            forall|k: int| 0 <= k < i ==> (#[trigger] ranges@[k]).end <= p.text_len(),
            forall|k: int, l: int|
                #![trigger ranges@[k], ranges@[l]]
                0 <= k < l < i ==> ranges@[k].end <= ranges@[l].start,
        decreases n - i,
    {
        let (s, e) = p.stmt_ranges[i];
        proof {
            lemma_tokens_ordered(p.tokens@, s as int, e as int);
            lemma_tokens_bounded(p.tokens@, e as int);
            assert forall|k: int| 0 <= k < i implies ranges@[k].end <= p.tokens@[s
                as int].span.start by {
                assert(p.stmt_ranges@[k].1 < p.stmt_ranges@[i as int].0);
                lemma_tokens_ordered(p.tokens@, p.stmt_ranges@[k].1 as int, s as int);
            }
        }
        let from = p.tokens[s].span.start;
        let to = p.tokens[e].span.end;
        ranges.push(TextRange { start: from, end: to });
        i = i + 1;
    }
    ParserResult { ranges, errors: p.errors }
}

/// In an ordered disjoint range list, the `i`-th range starts no earlier
/// than offset `i`.
pub proof fn lemma_range_start_at_least(rs: Seq<TextRange>, len: int, i: int)
    requires
        ranges_ordered_disjoint(rs, len),
        0 <= i < rs.len(),
    ensures
        rs[i].start >= i,
    decreases i,
{
    if i > 0 {
        lemma_range_start_at_least(rs, len, i - 1);
        assert(rs[i - 1].end <= rs[i].start);
    }
}

/// An ordered disjoint range list over a document of length `len` holds at
/// most `len` ranges: each statement covers at least one character.
pub proof fn lemma_ranges_count(rs: Seq<TextRange>, len: int)
    requires
        ranges_ordered_disjoint(rs, len),
        len >= 0,
    ensures
        rs.len() <= len,
{
    if rs.len() > 0 {
        let last = rs.len() - 1;
        lemma_range_start_at_least(rs, len, last);
        assert(rs[last].start < rs[last].end);
        assert(rs[last].end <= len);
    }
}

/// The character ranges `rs` are exactly the token-level scan of `ts`: one
/// range per emitted statement, from its start token's first character to
/// its end token's last.
pub open spec fn scan_ranges_match(ts: Seq<Token>, rs: Seq<TextRange>) -> bool {
    let sr = common::spec_source_ranges(ts, parser::rel_from(ts, 0));
    &&& rs.len() == sr.len()
    &&& forall|i: int|
        0 <= i < rs.len() ==> ((#[trigger] rs[i]).start == ts[sr[i].0].span.start && rs[i].end
            == ts[sr[i].1].span.end)
}

/// Whether a token stream begins, at its first relevant token, with a token
/// that opens a statement: anything but trivia and the backslash that
/// introduces a line command.
pub open spec fn starts_with_statement(ts: Seq<Token>) -> bool {
    exists|i: int|
        {
            &&& 0 <= i < ts.len()
            &&& token_relevant(#[trigger] ts[i])
            &&& (forall|j: int| 0 <= j < i ==> !token_relevant(#[trigger] ts[j]))
            &&& !is_trivia_kind(ts[i].kind)
            &&& ts[i].kind != SyntaxKind::Ascii92
        }
}

/// Splits a lexed token stream into statement ranges.
///
/// The result's ranges are ordered, pairwise disjoint, nonempty, and lie
/// within the text the tokens cover. The scan never fails, and a stream
/// whose first relevant token opens a statement yields at least one range;
/// any mismatched expectation is recorded as a diagnostic.
pub fn split_tokens(tokens: Vec<Token>) -> (r: ParserResult)
    requires
        crate::lexer::tokens_wf(tokens@),
    ensures
        ranges_ordered_disjoint(r.ranges@, crate::lexer::tokens_text_len(tokens@)),
        errors_bounded(r.errors@, crate::lexer::tokens_text_len(tokens@)),
        starts_with_statement(tokens@) ==> r.ranges@.len() > 0,
        scan_ranges_match(tokens@, r.ranges@),
{
    let ghost ts = tokens@;
    let mut p = Parser::new(tokens);
    proof {
        if starts_with_statement(ts) {
            let i = choose|i: int|
                {
                    &&& 0 <= i < ts.len()
                    &&& token_relevant(#[trigger] ts[i])
                    &&& (forall|j: int| 0 <= j < i ==> !token_relevant(#[trigger] ts[j]))
                    &&& !is_trivia_kind(ts[i].kind)
                    &&& ts[i].kind != SyntaxKind::Ascii92
                };
            // The cursor starts on the first relevant token, which is `i`.
            if p.current_pos < i {
                assert(token_relevant(ts[p.current_pos as int]));
            }
            if i < p.current_pos {
                assert(!token_relevant(ts[i]));
            }
            assert(p.spec_current() == ts[i]);
        }
    }
    proof {
        // The cursor starts at the first relevant token.
        crate::splitter::parser::lemma_rel_from_props(ts, 0);
        if p.current_pos < ts.len() {
            assert(p.current_pos as int == parser::rel_from(ts, 0));
        } else {
            assert(p.current_pos as int == parser::rel_from(ts, 0));
        }
    }
    common::source(&mut p);
    finish(p)
}

/// Splits a document into statement ranges.
///
/// The result's ranges are ordered, pairwise disjoint, nonempty, and lie
/// within the document. The scan never fails; at worst the whole input
/// becomes one degenerate statement, and any mismatched expectation is
/// recorded as a diagnostic.
pub fn split(text: &str) -> (r: ParserResult)
    ensures
        ranges_ordered_disjoint(r.ranges@, text@.len() as int),
        errors_bounded(r.errors@, text@.len() as int),
        exists|ts: Seq<Token>|
            crate::lexer::tokens_wf(ts) && crate::lexer::tokens_text_len(ts) == text@.len()
                && #[trigger] scan_ranges_match(ts, r.ranges@),
{
    let tokens = lex(text);
    let ghost ts = tokens@;
    let r = split_tokens(tokens);
    proof {
        assert(crate::lexer::tokens_wf(ts) && crate::lexer::tokens_text_len(ts) == text@.len()
            && scan_ranges_match(ts, r.ranges@));
    }
    r
}

/// What remains of a document after keeping only its statement ranges: the
/// trivia before each statement, the statement itself, and the trivia after
/// the last one, in order.
pub open spec fn reconstruct(doc: Seq<char>, rs: Seq<TextRange>, from: int) -> Seq<char>
    decreases rs.len(),
{
    if rs.len() == 0 {
        doc.subrange(from, doc.len() as int)
    } else {
        doc.subrange(from, rs[0].start as int) + doc.subrange(rs[0].start as int, rs[0].end as int)
            + reconstruct(doc, rs.drop_first(), rs[0].end as int)
    }
}

/// Coverage: for any document, concatenating the split statement ranges
/// with the inter-statement trivia around them reconstructs the document
/// exactly.
pub proof fn lemma_split_coverage(doc: Seq<char>, rs: Seq<TextRange>, from: int)
    requires
        ranges_ordered_disjoint(rs, doc.len() as int),
        0 <= from <= doc.len(),
        rs.len() > 0 ==> from <= rs[0].start,
    ensures
        reconstruct(doc, rs, from) == doc.subrange(from, doc.len() as int),
    decreases rs.len(),
{
    if rs.len() == 0 {
    } else {
        let r0 = rs[0];
        let rest = rs.drop_first();
        assert(ranges_ordered_disjoint(rest, doc.len() as int)) by {
            assert(forall|i: int| 0 <= i < rest.len() ==> rest[i] == rs[i + 1]);
        }
        if rest.len() > 0 {
            assert(rs[0].end <= rs[1].start);
            assert(rest[0] == rs[1]);
        }
        lemma_split_coverage(doc, rest, r0.end as int);
        assert(reconstruct(doc, rs, from) =~= doc.subrange(from, doc.len() as int));
    }
}

} // verus!
