//! The token cursor behind the statement splitter.
//!
//! A `Parser` walks the token stream once, keeping the statement ranges it
//! has closed so far as pairs of token indices. Its well-formedness
//! invariant carries everything the splitter's callers rely on: closed
//! ranges are ordered, disjoint, and bounded by the token stream, and an
//! open statement always starts strictly after the last closed one.

use vstd::prelude::*;

use crate::diagnostics::SplitDiagnostic;
use crate::lexer::{is_relevant, token_relevant, tokens_text_len, tokens_wf, SyntaxKind, Token};
use crate::text_range::TextRange;

verus! {

/// The display name of a token kind, as it appears in split diagnostics.
pub open spec fn spec_kind_name(kind: SyntaxKind) -> Seq<char> {
    match kind {
        SyntaxKind::Whitespace => "whitespace"@,
        SyntaxKind::Newline => "a newline"@,
        SyntaxKind::Comment => "a comment"@,
        SyntaxKind::Ascii40 => "an opening parenthesis"@,
        SyntaxKind::Ascii41 => "a closing parenthesis"@,
        SyntaxKind::Ascii44 => "a comma"@,
        SyntaxKind::Ascii59 => "a semicolon"@,
        SyntaxKind::Ascii92 => "a backslash"@,
        SyntaxKind::Ident => "an identifier"@,
        SyntaxKind::Sconst => "a string constant"@,
        SyntaxKind::NumberLit => "a number"@,
        SyntaxKind::Param => "a parameter"@,
        SyntaxKind::OtherPunct => "punctuation"@,
        SyntaxKind::With => "WITH"@,
        SyntaxKind::Select => "SELECT"@,
        SyntaxKind::Insert => "INSERT"@,
        SyntaxKind::Update => "UPDATE"@,
        SyntaxKind::DeleteP => "DELETE"@,
        SyntaxKind::Merge => "MERGE"@,
        SyntaxKind::Create => "CREATE"@,
        SyntaxKind::Alter => "ALTER"@,
        SyntaxKind::For => "FOR"@,
        SyntaxKind::As => "AS"@,
        SyntaxKind::On => "ON"@,
        SyntaxKind::Also => "ALSO"@,
        SyntaxKind::Instead => "INSTEAD"@,
        SyntaxKind::Union => "UNION"@,
        SyntaxKind::All => "ALL"@,
        SyntaxKind::Except => "EXCEPT"@,
        SyntaxKind::Grant => "GRANT"@,
        SyntaxKind::Before => "BEFORE"@,
        SyntaxKind::After => "AFTER"@,
        SyntaxKind::Or => "OR"@,
        SyntaxKind::Ordinality => "ORDINALITY"@,
        SyntaxKind::Check => "CHECK"@,
        SyntaxKind::Case => "CASE"@,
        SyntaxKind::EndP => "END"@,
        SyntaxKind::Into => "INTO"@,
        SyntaxKind::From => "FROM"@,
        SyntaxKind::Function => "FUNCTION"@,
        SyntaxKind::Replace => "REPLACE"@,
        SyntaxKind::Language => "LANGUAGE"@,
        SyntaxKind::Eof => "end of input"@,
    }
}

/// A human-readable name for a token kind, used in split diagnostics.
pub fn kind_name(kind: SyntaxKind) -> (r: &'static str)
    ensures
        r@ == spec_kind_name(kind),
{
    match kind {
        SyntaxKind::Whitespace => "whitespace",
        SyntaxKind::Newline => "a newline",
        SyntaxKind::Comment => "a comment",
        SyntaxKind::Ascii40 => "an opening parenthesis",
        SyntaxKind::Ascii41 => "a closing parenthesis",
        SyntaxKind::Ascii44 => "a comma",
        SyntaxKind::Ascii59 => "a semicolon",
        SyntaxKind::Ascii92 => "a backslash",
        SyntaxKind::Ident => "an identifier",
        SyntaxKind::Sconst => "a string constant",
        SyntaxKind::NumberLit => "a number",
        SyntaxKind::Param => "a parameter",
        SyntaxKind::OtherPunct => "punctuation",
        SyntaxKind::With => "WITH",
        SyntaxKind::Select => "SELECT",
        SyntaxKind::Insert => "INSERT",
        SyntaxKind::Update => "UPDATE",
        SyntaxKind::DeleteP => "DELETE",
        SyntaxKind::Merge => "MERGE",
        SyntaxKind::Create => "CREATE",
        SyntaxKind::Alter => "ALTER",
        SyntaxKind::For => "FOR",
        SyntaxKind::As => "AS",
        SyntaxKind::On => "ON",
        SyntaxKind::Also => "ALSO",
        SyntaxKind::Instead => "INSTEAD",
        SyntaxKind::Union => "UNION",
        SyntaxKind::All => "ALL",
        SyntaxKind::Except => "EXCEPT",
        SyntaxKind::Grant => "GRANT",
        SyntaxKind::Before => "BEFORE",
        SyntaxKind::After => "AFTER",
        SyntaxKind::Or => "OR",
        SyntaxKind::Ordinality => "ORDINALITY",
        SyntaxKind::Check => "CHECK",
        SyntaxKind::Case => "CASE",
        SyntaxKind::EndP => "END",
        SyntaxKind::Into => "INTO",
        SyntaxKind::From => "FROM",
        SyntaxKind::Function => "FUNCTION",
        SyntaxKind::Replace => "REPLACE",
        SyntaxKind::Language => "LANGUAGE",
        SyntaxKind::Eof => "end of input",
    }
}

/// The first relevant token index at or after `j`, or the stream's length.
pub open spec fn rel_from(ts: Seq<Token>, j: int) -> int
    decreases ts.len() - j,
{
    if j < 0 {
        rel_from(ts, 0)
    } else if j >= ts.len() {
        ts.len() as int
    } else if token_relevant(ts[j]) {
        j
    } else {
        rel_from(ts, j + 1)
    }
}

/// Where one `advance` from `pos` lands: the first relevant token strictly
/// after it, or past the end; past the end it stays put.
pub open spec fn spec_advance(ts: Seq<Token>, pos: int) -> int {
    if pos >= ts.len() {
        pos
    } else {
        rel_from(ts, pos + 1)
    }
}

/// The first relevant position at or after `j` skips only irrelevant
/// tokens and lands in bounds, on a relevant token when any remains.
pub proof fn lemma_rel_from_props(ts: Seq<Token>, j: int)
    requires
        0 <= j <= ts.len(),
    ensures
        j <= rel_from(ts, j) <= ts.len(),
        rel_from(ts, j) < ts.len() ==> token_relevant(ts[rel_from(ts, j)]),
        forall|k: int| j <= k < rel_from(ts, j) ==> !token_relevant(#[trigger] ts[k]),
    decreases ts.len() - j,
{
    if j < ts.len() && !token_relevant(ts[j]) {
        lemma_rel_from_props(ts, j + 1);
    }
}

/// Below the stream's length, earlier cursors see the same previous token.
pub proof fn lemma_prev_scan_clamp(ts: Seq<Token>, j: int)
    requires
        j >= ts.len(),
    ensures
        prev_rel(ts, j) == prev_rel(ts, ts.len() as int),
        prev_non_blank_at(ts, j) == prev_non_blank_at(ts, ts.len() as int),
    decreases j,
{
    if j > ts.len() {
        lemma_prev_scan_clamp(ts, j - 1);
    }
}

/// The last relevant token index strictly before `j`, or `-1` when none.
pub open spec fn prev_rel(ts: Seq<Token>, j: int) -> int
    decreases j,
{
    if j <= 0 {
        -1
    } else if j - 1 < ts.len() && token_relevant(ts[j - 1]) {
        j - 1
    } else {
        prev_rel(ts, j - 1)
    }
}

/// The last token index strictly before `j` that is neither a blank run
/// nor a comment (newlines count), or `-1` when none.
pub open spec fn prev_non_blank_at(ts: Seq<Token>, j: int) -> int
    decreases j,
{
    if j <= 0 {
        -1
    } else if j - 1 < ts.len() && ts[j - 1].kind != SyntaxKind::Whitespace && ts[j - 1].kind
        != SyntaxKind::Comment {
        j - 1
    } else {
        prev_non_blank_at(ts, j - 1)
    }
}

/// The splitter's cursor over one token stream.
pub struct Parser {
    /// The token stream being scanned; well formed and never mutated.
    pub tokens: Vec<Token>,
    /// Closed statements as `(start, end)` token indices, both inclusive.
    pub stmt_ranges: Vec<(usize, usize)>,
    /// The diagnostics recorded so far.
    pub errors: Vec<SplitDiagnostic>,
    /// The start token index of the statement currently being scanned.
    pub current_stmt_start: Option<usize>,
    /// The cursor; `tokens.len()` once the end of input is reached.
    pub current_pos: usize,
}

impl Parser {
    pub open spec fn tokens_ok(self) -> bool {
        tokens_wf(self.tokens@)
    }

    /// The character length of the scanned text.
    pub open spec fn text_len(self) -> int {
        tokens_text_len(self.tokens@)
    }

    pub open spec fn pos_ok(self) -> bool {
        self.current_pos <= self.tokens@.len()
    }

    /// A closed range is within bounds and starts and ends on relevant
    /// tokens.
    pub open spec fn range_ok(self, r: (usize, usize)) -> bool {
        &&& r.0 <= r.1 < self.tokens@.len()
        &&& token_relevant(self.tokens@[r.0 as int])
        &&& token_relevant(self.tokens@[r.1 as int])
    }

    pub open spec fn ranges_ok(self) -> bool {
        &&& forall|i: int|
            0 <= i < self.stmt_ranges@.len() ==> self.range_ok(#[trigger] self.stmt_ranges@[i])
        &&& forall|i: int, j: int|
            #![trigger self.stmt_ranges@[i], self.stmt_ranges@[j]]
            0 <= i < j < self.stmt_ranges@.len() ==> self.stmt_ranges@[i].1
                < self.stmt_ranges@[j].0
    }

    /// The end token index of the last closed range, `-1` when none exists.
    pub open spec fn last_range_end(self) -> int {
        if self.stmt_ranges@.len() == 0 {
            -1
        } else {
            self.stmt_ranges@[self.stmt_ranges@.len() - 1].1 as int
        }
    }

    /// The start token index of the open statement, `-1` when none is open.
    pub open spec fn opened(self) -> int {
        match self.current_stmt_start {
            Some(s) => s as int,
            None => -1,
        }
    }

    pub open spec fn open_ok(self) -> bool {
        match self.current_stmt_start {
            Some(s) => {
                &&& s < self.tokens@.len()
                &&& token_relevant(self.tokens@[s as int])
                &&& self.last_range_end() < s as int
                &&& s <= self.current_pos
            },
            None => self.last_range_end() < self.current_pos as int,
        }
    }

    /// Recorded diagnostics carry well-formed spans within the text.
    pub open spec fn errors_ok(self) -> bool {
        forall|i: int|
            0 <= i < self.errors@.len() ==> (#[trigger] self.errors@[i]).span.start
                <= self.errors@[i].span.end && self.errors@[i].span.end <= self.text_len()
    }

    pub open spec fn wf(self) -> bool {
        self.tokens_ok() && self.pos_ok() && self.ranges_ok() && self.open_ok()
            && self.errors_ok()
    }

    /// The cursor rests either past the end or on a relevant token.
    pub open spec fn at_rel(self) -> bool {
        self.current_pos < self.tokens@.len() ==> token_relevant(
            self.tokens@[self.current_pos as int],
        )
    }

    /// The token under the cursor, or the `Eof` sentinel past the end.
    pub open spec fn spec_current(self) -> Token {
        if self.current_pos < self.tokens@.len() {
            self.tokens@[self.current_pos as int]
        } else {
            Token {
                kind: SyntaxKind::Eof,
                span: TextRange {
                    start: self.text_len() as usize,
                    end: self.text_len() as usize,
                },
            }
        }
    }

    pub fn new(tokens: Vec<Token>) -> (p: Parser)
        requires
            tokens_wf(tokens@),
        ensures
            p.wf(),
            p.at_rel(),
            p.tokens == tokens,
            p.stmt_ranges@.len() == 0,
            p.errors@.len() == 0,
            p.current_stmt_start is None,
            forall|j: int|
                0 <= j < p.current_pos ==> !token_relevant(#[trigger] tokens@[j]),
    {
        let n = tokens.len();
        // Place the cursor on the first relevant token.
        let mut current_pos: usize = 0;
        while current_pos < n && !is_relevant(&tokens[current_pos])
            invariant
                current_pos <= n,
                n == tokens@.len(),
                forall|j: int| 0 <= j < current_pos ==> !token_relevant(#[trigger] tokens@[j]),
            decreases n - current_pos,
        {
            current_pos = current_pos + 1;
        }
        Parser {
            tokens,
            stmt_ranges: Vec::new(),
            errors: Vec::new(),
            current_stmt_start: None,
            current_pos,
        }
    }

    pub fn current(&self) -> (t: Token)
        requires
            self.tokens_ok(),
        ensures
            t == self.spec_current(),
    {
        if self.current_pos < self.tokens.len() {
            self.tokens[self.current_pos]
        } else {
            let n = self.tokens.len();
            let e = if n > 0 {
                let last = self.tokens[n - 1];
                last.span.end
            } else {
                0
            };
            Token { kind: SyntaxKind::Eof, span: TextRange { start: e, end: e } }
        }
    }

    /// Advances the cursor to the first relevant token strictly after it,
    /// or past the end when none remains. Past the end it stays put.
    pub fn advance(&mut self)
        requires
            old(self).wf(),
        ensures
            final(self).wf(),
            final(self).at_rel(),
            final(self).tokens == old(self).tokens,
            final(self).stmt_ranges == old(self).stmt_ranges,
            final(self).errors == old(self).errors,
            final(self).current_stmt_start == old(self).current_stmt_start,
            final(self).current_pos >= old(self).current_pos,
            old(self).current_pos < old(self).tokens@.len() ==> final(self).current_pos > old(
                self,
            ).current_pos,
            final(self).current_pos == spec_advance(
                old(self).tokens@,
                old(self).current_pos as int,
            ),
    {
        let n = self.tokens.len();
        if self.current_pos >= n {
            return;
        }
        let mut p = self.current_pos + 1;
        while p < n && !is_relevant(&self.tokens[p])
            invariant
                p <= n,
                n == self.tokens@.len(),
                p > self.current_pos,
                rel_from(self.tokens@, self.current_pos + 1) == rel_from(self.tokens@, p as int),
            decreases n - p,
        {
            p = p + 1;
        }
        self.current_pos = p;
    }

    /// Moves the cursor one raw token forward, without skipping trivia.
    pub fn bump(&mut self)
        requires
            old(self).wf(),
            old(self).current_pos < old(self).tokens@.len(),
        ensures
            final(self).wf(),
            final(self).tokens == old(self).tokens,
            final(self).stmt_ranges == old(self).stmt_ranges,
            final(self).errors == old(self).errors,
            final(self).current_stmt_start == old(self).current_stmt_start,
            final(self).current_pos == old(self).current_pos + 1,
    {
        let n = self.tokens.len();
        assert(self.current_pos < n);
        self.current_pos = self.current_pos + 1;
    }

    /// The last relevant token strictly before the cursor, with its index.
    pub fn find_last_relevant(&self) -> (r: Option<(usize, Token)>)
        requires
            self.tokens_ok(),
            self.pos_ok(),
        ensures
            r is Some <==> prev_rel(self.tokens@, self.current_pos as int) >= 0,
            r matches Some(p) ==> ({
                &&& p.0 == prev_rel(self.tokens@, self.current_pos as int)
                &&& p.0 < self.current_pos
                &&& p.0 < self.tokens@.len()
                &&& p.1 == self.tokens@[p.0 as int]
                &&& token_relevant(p.1)
                &&& forall|j: int|
                    p.0 < j < self.current_pos && j < self.tokens@.len() ==> !token_relevant(
                        #[trigger] self.tokens@[j],
                    )
            }),
            r is None ==> forall|j: int|
                0 <= j < self.current_pos && j < self.tokens@.len() ==> !token_relevant(
                    #[trigger] self.tokens@[j],
                ),
    {
        let n = self.tokens.len();
        proof {
            if self.current_pos >= n {
                lemma_prev_scan_clamp(self.tokens@, self.current_pos as int);
            }
        }
        let mut k = if self.current_pos < n {
            self.current_pos
        } else {
            n
        };
        while k > 0
            invariant
                k <= n,
                n == self.tokens@.len(),
                self.current_pos < n ==> k <= self.current_pos,
                prev_rel(self.tokens@, self.current_pos as int) == prev_rel(
                    self.tokens@,
                    k as int,
                ),
                forall|j: int|
                    k <= j < self.current_pos && j < n ==> !token_relevant(
                        #[trigger] self.tokens@[j],
                    ),
            decreases k,
        {
            k = k - 1;
            if is_relevant(&self.tokens[k]) {
                return Some((k, self.tokens[k]));
            }
        }
        None
    }

    /// The nearest preceding relevant token, if any.
    pub fn look_back(&self) -> (r: Option<Token>)
        requires
            self.tokens_ok(),
            self.pos_ok(),
        ensures
            prev_rel(self.tokens@, self.current_pos as int) < 0 ==> r is None,
            prev_rel(self.tokens@, self.current_pos as int) >= 0 ==> r == Some(
                self.tokens@[prev_rel(self.tokens@, self.current_pos as int)],
            ),
    {
        match self.find_last_relevant() {
            Some(p) => Some(p.1),
            None => None,
        }
    }

    /// The nearest following relevant token, if any.
    pub fn look_ahead(&self) -> (r: Option<Token>)
        requires
            self.tokens_ok(),
            self.pos_ok(),
        ensures
            spec_advance(self.tokens@, self.current_pos as int) >= self.tokens@.len() ==> r
                is None,
            spec_advance(self.tokens@, self.current_pos as int) < self.tokens@.len() ==> r
                == Some(self.tokens@[spec_advance(self.tokens@, self.current_pos as int)]),
    {
        let n = self.tokens.len();
        let mut p = if self.current_pos < n {
            self.current_pos + 1
        } else {
            n
        };
        while p < n
            invariant
                p <= n,
                n == self.tokens@.len(),
                self.current_pos < n ==> rel_from(self.tokens@, self.current_pos + 1) == rel_from(
                    self.tokens@,
                    p as int,
                ),
                self.current_pos >= n ==> p == n,
            decreases n - p,
        {
            if is_relevant(&self.tokens[p]) {
                return Some(self.tokens[p]);
            }
            p = p + 1;
        }
        None
    }

    /// The nearest preceding token that is neither blank nor a comment,
    /// newlines included, if any. Used to decide whether a backslash begins
    /// its line.
    pub fn prev_non_blank(&self) -> (r: Option<Token>)
        requires
            self.tokens_ok(),
            self.pos_ok(),
        ensures
            prev_non_blank_at(self.tokens@, self.current_pos as int) < 0 ==> r is None,
            prev_non_blank_at(self.tokens@, self.current_pos as int) >= 0 ==> r == Some(
                self.tokens@[prev_non_blank_at(self.tokens@, self.current_pos as int)],
            ),
    {
        let n = self.tokens.len();
        proof {
            if self.current_pos >= n {
                lemma_prev_scan_clamp(self.tokens@, self.current_pos as int);
            }
        }
        let mut k = if self.current_pos < n {
            self.current_pos
        } else {
            n
        };
        while k > 0
            invariant
                k <= n,
                n == self.tokens@.len(),
                prev_non_blank_at(self.tokens@, self.current_pos as int) == prev_non_blank_at(
                    self.tokens@,
                    k as int,
                ),
            decreases k,
        {
            k = k - 1;
            let kind = self.tokens[k].kind;
            match kind {
                SyntaxKind::Whitespace => {},
                SyntaxKind::Comment => {},
                _ => { return Some(self.tokens[k]) },
            }
        }
        None
    }

    /// Opens a statement at the cursor, which must rest on a relevant token
    /// strictly after the last closed statement.
    pub fn start_stmt(&mut self)
        requires
            old(self).wf(),
            old(self).current_stmt_start is None,
            old(self).current_pos < old(self).tokens@.len(),
            token_relevant(old(self).tokens@[old(self).current_pos as int]),
        ensures
            final(self).wf(),
            final(self).tokens == old(self).tokens,
            final(self).stmt_ranges == old(self).stmt_ranges,
            final(self).errors == old(self).errors,
            final(self).current_pos == old(self).current_pos,
            final(self).current_stmt_start == Some(old(self).current_pos),
    {
        self.current_stmt_start = Some(self.current_pos);
    }

    /// Closes the open statement at the last relevant token strictly before
    /// the cursor.
    pub fn close_stmt(&mut self)
        requires
            old(self).wf(),
            old(self).current_stmt_start is Some,
            old(self).current_pos > old(self).opened(),
        ensures
            final(self).wf(),
            final(self).tokens == old(self).tokens,
            final(self).errors == old(self).errors,
            final(self).current_pos == old(self).current_pos,
            final(self).current_stmt_start is None,
            final(self).stmt_ranges@.len() == old(self).stmt_ranges@.len() + 1,
            final(self).stmt_ranges@.subrange(0, old(self).stmt_ranges@.len() as int) == old(
                self,
            ).stmt_ranges@,
            final(self).stmt_ranges@[old(self).stmt_ranges@.len() as int].0 == old(self).opened(),
            final(self).stmt_ranges@[old(self).stmt_ranges@.len() as int].1 < old(
                self,
            ).current_pos,
            final(self).stmt_ranges@[old(self).stmt_ranges@.len() as int].1 == prev_rel(
                old(self).tokens@,
                old(self).current_pos as int,
            ),
            token_relevant(
                old(self).tokens@[final(self).stmt_ranges@[old(self).stmt_ranges@.len() as int].1
                    as int],
            ),
            forall|j: int|
                final(self).stmt_ranges@[old(self).stmt_ranges@.len() as int].1 < j < old(
                    self,
                ).current_pos && j < old(self).tokens@.len() ==> !token_relevant(
                    #[trigger] old(self).tokens@[j],
                ),
    {
        let start_token_pos = match self.current_stmt_start {
            Some(s) => s,
            None => vstd::pervasive::unreached(),
        };
        let r = self.find_last_relevant();
        let end_token_pos = match r {
            Some(p) => p.0,
            None => vstd::pervasive::unreached(),
        };
        proof {
            // The statement's start token is itself relevant and before the
            // cursor, so the last relevant token cannot lie before it.
            if end_token_pos < start_token_pos {
                assert(token_relevant(self.tokens@[start_token_pos as int]));
            }
        }
        self.stmt_ranges.push((start_token_pos, end_token_pos));
        self.current_stmt_start = None;
    }

    /// Advances when the cursor token has the expected kind; otherwise
    /// appends exactly one diagnostic naming the kind, spanning the cursor
    /// token, and stays put.
    pub fn expect(&mut self, kind: SyntaxKind)
        requires
            old(self).wf(),
        ensures
            final(self).wf(),
            final(self).tokens == old(self).tokens,
            final(self).stmt_ranges == old(self).stmt_ranges,
            final(self).current_stmt_start == old(self).current_stmt_start,
            final(self).current_pos >= old(self).current_pos,
            old(self).at_rel() ==> final(self).at_rel(),
            old(self).spec_current().kind == kind && old(self).current_pos < old(
                self,
            ).tokens@.len() ==> (final(self).errors == old(self).errors && final(self).current_pos
                > old(self).current_pos && final(self).current_pos == spec_advance(
                old(self).tokens@,
                old(self).current_pos as int,
            )),
            old(self).spec_current().kind != kind ==> ({
                &&& final(self).current_pos == old(self).current_pos
                &&& final(self).errors@.len() == old(self).errors@.len() + 1
                &&& final(self).errors@.subrange(0, old(self).errors@.len() as int) == old(
                    self,
                ).errors@
                &&& final(self).errors@.last().message@ == "expected "@ + spec_kind_name(kind)
                &&& final(self).errors@.last().span == old(self).spec_current().span
            }),
    {
        let t = self.current();
        if t.kind == kind {
            self.advance();
        } else {
            proof {
                if self.current_pos < self.tokens@.len() {
                    crate::lexer::lemma_tokens_bounded(self.tokens@, self.current_pos as int);
                }
            }
            let mut message = String::new();
            message.append("expected ");
            message.append(kind_name(kind));
            self.errors.push(SplitDiagnostic::new(message, t.span));
        }
    }
}

} // verus!
