//! The AST store: typed per-statement summaries, memoized by identity.
//!
//! The full SQL grammar is an external concern; the engine derives from a
//! statement's text only what it consumes itself: the leading keyword and,
//! for a function definition, the `LANGUAGE` and `AS` options that locate
//! an embedded body. The summary (or the syntax diagnostic that took its
//! place) is computed at most once per statement identity until the change
//! engine invalidates it.

use std::sync::Arc;

use vstd::prelude::*;

use crate::diagnostics::SyntaxDiagnostic;
use crate::lexer::{chars_vec, lex_chars, token_relevant, SyntaxKind, Token};
use crate::statement_identifier::StatementId;
use crate::store::{
    arc_clone, cache_contents, cache_map_get, cache_map_insert, cache_map_new, cache_map_remove,
    CacheSlot,
};

verus! {

/// The typed summary of one statement.
#[derive(Debug, Clone, PartialEq, Eq)]
pub struct SqlAst {
    /// The kind of the statement's first relevant token.
    pub leading: SyntaxKind,
    /// For a function definition: the `LANGUAGE` option, ASCII lower-cased.
    pub language: Option<String>,
    /// For a function definition: the string literal of its `AS` option.
    pub body: Option<String>,
}

impl SqlAst {
    /// A structurally equal copy.
    pub fn cloned(&self) -> (r: SqlAst)
        ensures
            r == *self,
    {
        SqlAst {
            leading: self.leading,
            language: match &self.language {
                Some(s) => Some(s.clone()),
                None => None,
            },
            body: match &self.body {
                Some(s) => Some(s.clone()),
                None => None,
            },
        }
    }
}

/// Whether a token stream holds at least one relevant token.
pub open spec fn has_relevant(ts: Seq<Token>) -> bool {
    exists|i: int| 0 <= i < ts.len() && token_relevant(#[trigger] ts[i])
}

/// The index of the first relevant token, if any.
fn first_relevant(tokens: &Vec<Token>) -> (r: Option<usize>)
    ensures
        r matches Some(i) ==> i < tokens@.len() && token_relevant(tokens@[i as int]) && (forall|
            j: int,
        | 0 <= j < i ==> !token_relevant(#[trigger] tokens@[j])),
        r is Some <==> has_relevant(tokens@),
{
    let n = tokens.len();
    let mut i: usize = 0;
    while i < n
        invariant
            i <= n,
            n == tokens@.len(),
            forall|j: int| 0 <= j < i ==> !token_relevant(#[trigger] tokens@[j]),
        decreases n - i,
    {
        if crate::lexer::is_relevant(&tokens[i]) {
            return Some(i);
        }
        i = i + 1;
    }
    None
}

/// The index of the next relevant token strictly after `from`, if any.
fn next_relevant(tokens: &Vec<Token>, from: usize) -> (r: Option<usize>)
    ensures
        r matches Some(i) ==> from < i && i < tokens@.len() && token_relevant(tokens@[i as int]),
{
    let n = tokens.len();
    if from >= n {
        return None;
    }
    let mut i = from + 1;
    while i < n
        invariant
            from < i,
            i <= n,
            n == tokens@.len(),
        decreases n - i,
    {
        if crate::lexer::is_relevant(&tokens[i]) {
            return Some(i);
        }
        i = i + 1;
    }
    None
}

/// The lower-cased characters of one token's text.
fn token_chars_lower(chars: &Vec<char>, t: Token) -> Vec<char>
    requires
        t.span.start <= t.span.end,
        t.span.end <= chars@.len(),
{
    let mut out: Vec<char> = Vec::new();
    let mut i = t.span.start;
    while i < t.span.end
        invariant
            t.span.start <= i <= t.span.end,
            t.span.end <= chars@.len(),
        decreases t.span.end - i,
    {
        let c = chars[i];
        let u = c as u32;
        if 65 <= u && u <= 90 {
            out.push(((u + 32) as u8) as char);
        } else {
            out.push(c);
        }
        i = i + 1;
    }
    out
}

/// The inner characters of a string-constant token: the text between its
/// quotes with doubled quotes collapsed, or between its dollar delimiters.
fn sconst_inner(chars: &Vec<char>, t: Token) -> Vec<char>
    requires
        t.span.start < t.span.end,
        t.span.end <= chars@.len(),
{
    let start = t.span.start;
    let end = t.span.end;
    let mut out: Vec<char> = Vec::new();
    if chars[start] == '$' {
        // Find the end of the opening delimiter `$tag$`.
        let mut d = start + 1;
        while d < end && chars[d] != '$'
            invariant
                start < d <= end,
                end <= chars@.len(),
            decreases end - d,
        {
            d = d + 1;
        }
        if d >= end {
            return out;
        }
        let dlen = d + 1 - start;
        // The inner text lies between the delimiters, when both fit.
        let width = end - start;
        if dlen > width || width - dlen < dlen {
            return out;
        }
        let mut i = start + dlen;
        let stop = end - dlen;
        while i < stop
            invariant
                i <= stop,
                stop <= chars@.len(),
            decreases stop - i,
        {
            out.push(chars[i]);
            i = i + 1;
        }
        return out;
    }
    // A quoted constant: strip the quotes and collapse doubled quotes.
    let quote = chars[start];
    let stop = if end - start >= 2 {
        end - 1
    } else {
        start + 1
    };
    let mut i = start + 1;
    while i < stop
        invariant
            start < i,
            i <= stop,
            stop <= chars@.len(),
        decreases stop - i,
    {
        let c = chars[i];
        if c == quote && i + 1 < stop && chars[i + 1] == quote {
            out.push(c);
            i = i + 2;
        } else {
            out.push(c);
            i = i + 1;
        }
    }
    out
}

/// Finds the value of a function option introduced by keyword `key` at
/// parenthesis depth zero: for `LANGUAGE` the following word or string, for
/// `AS` the following string constant. The value's characters come back
/// lower-cased when `lower` is set.
fn find_option_value(tokens: &Vec<Token>, chars: &Vec<char>, key: SyntaxKind, lower: bool) -> (r:
    Option<Vec<char>>)
    requires
        crate::lexer::tokens_wf(tokens@),
        crate::lexer::tokens_text_len(tokens@) == chars@.len(),
{
    let n = tokens.len();
    let mut depth: u64 = 0;
    let mut i: usize = 0;
    while i < n
        invariant
            i <= n,
            n == tokens@.len(),
            crate::lexer::tokens_wf(tokens@),
            crate::lexer::tokens_text_len(tokens@) == chars@.len(),
        decreases n - i,
    {
        let k = tokens[i].kind;
        if k == SyntaxKind::Ascii40 {
            if depth < u64::MAX {
                depth = depth + 1;
            }
        } else if k == SyntaxKind::Ascii41 {
            if depth > 0 {
                depth = depth - 1;
            }
        } else if k == key && depth == 0 {
            match next_relevant(tokens, i) {
                Some(j) => {
                    let t = tokens[j];
                    proof {
                        crate::lexer::lemma_tokens_bounded(tokens@, j as int);
                    }
                    if t.kind == SyntaxKind::Sconst {
                        let inner = sconst_inner(chars, t);
                        if lower {
                            let mut v: Vec<char> = Vec::new();
                            let m = inner.len();
                            let mut p: usize = 0;
                            while p < m
                                invariant
                                    p <= m,
                                    m == inner@.len(),
                                decreases m - p,
                            {
                                let u = inner[p] as u32;
                                if 65 <= u && u <= 90 {
                                    v.push(((u + 32) as u8) as char);
                                } else {
                                    v.push(inner[p]);
                                }
                                p = p + 1;
                            }
                            return Some(v);
                        }
                        return Some(inner);
                    } else if t.kind != SyntaxKind::Ascii40 && t.kind != SyntaxKind::Ascii41 {
                        return Some(token_chars_lower(chars, t));
                    } else {
                        return None;
                    }
                },
                None => { return None },
            }
        }
        i = i + 1;
    }
    None
}

/// Parses a token stream into a statement summary.
///
/// Succeeds exactly when the stream holds a relevant token; an all-trivia
/// stream has no statement to summarize and yields a syntax diagnostic.
pub fn parse_tokens(tokens: &Vec<Token>, chars: &Vec<char>) -> (r: Result<SqlAst, SyntaxDiagnostic>)
    requires
        crate::lexer::tokens_wf(tokens@),
        crate::lexer::tokens_text_len(tokens@) == chars@.len(),
    ensures
        r is Ok <==> has_relevant(tokens@),
        r matches Ok(ast) ==> exists|i: int|
            {
                &&& 0 <= i < tokens@.len()
                &&& token_relevant(#[trigger] tokens@[i])
                &&& (forall|j: int| 0 <= j < i ==> !token_relevant(#[trigger] tokens@[j]))
                &&& ast.leading == tokens@[i].kind
            },
{
    let first = match first_relevant(tokens) {
        Some(i) => i,
        None => {
            let mut message = String::new();
            message.append("statement holds no tokens");
            return Err(SyntaxDiagnostic::new(message, None));
        },
    };
    let leading = tokens[first].kind;
    let mut language: Option<String> = None;
    let mut body: Option<String> = None;
    if leading == SyntaxKind::Create {
        // CREATE [OR REPLACE] FUNCTION ...
        let mut is_function = false;
        match next_relevant(tokens, first) {
            Some(j) => {
                if tokens[j].kind == SyntaxKind::Or {
                    match next_relevant(tokens, j) {
                        Some(j2) => {
                            if tokens[j2].kind == SyntaxKind::Replace {
                                match next_relevant(tokens, j2) {
                                    Some(j3) => {
                                        is_function = tokens[j3].kind == SyntaxKind::Function;
                                    },
                                    None => {},
                                }
                            }
                        },
                        None => {},
                    }
                } else {
                    is_function = tokens[j].kind == SyntaxKind::Function;
                }
            },
            None => {},
        }
        if is_function {
            match find_option_value(tokens, chars, SyntaxKind::Language, true) {
                Some(v) => {
                    language = Some(crate::lexer::chars_to_string(&v));
                },
                None => {},
            }
            match find_option_value(tokens, chars, SyntaxKind::As, false) {
                Some(v) => {
                    body = Some(crate::lexer::chars_to_string(&v));
                },
                None => {},
            }
        }
    }
    proof {
        assert(has_relevant(tokens@)) by {
            assert(token_relevant(tokens@[first as int]));
        }
    }
    Ok(SqlAst { leading, language, body })
}

/// Parses one statement's text into its typed summary.
///
/// Text without a single relevant token (empty or all trivia) yields the
/// syntax diagnostic instead.
pub fn parse(content: &str) -> (r: Result<SqlAst, SyntaxDiagnostic>)
    ensures
        content@.len() == 0 ==> r is Err,
{
    let chars = chars_vec(content);
    let tokens = lex_chars(&chars);
    proof {
        if content@.len() == 0 {
            assert(tokens@.len() == 0);
            assert(!has_relevant(tokens@));
        }
    }
    parse_tokens(&tokens, &chars)
}

/// The memoizing store of typed parse results, keyed by statement
/// identity.
pub struct PgQueryStore {
    pub db: crate::store::CacheMap,
}

impl PgQueryStore {
    /// The store's entries.
    pub open spec fn contents(self) -> Map<StatementId, CacheSlot> {
        cache_contents(self.db)
    }

    /// Every entry of this store is a typed parse result.
    pub open spec fn wf(self) -> bool {
        forall|k: StatementId|
            self.contents().dom().contains(k) ==> (#[trigger] self.contents()[k]) matches
                CacheSlot::Ast(_)
    }

    pub fn new() -> (s: PgQueryStore)
        ensures
            s.wf(),
            s.contents() == crate::store::empty_cache(),
    {
        PgQueryStore { db: cache_map_new() }
    }

    /// The first call for an identity parses and caches; later calls return
    /// the cached, shared result without recomputation, until the identity
    /// is invalidated.
    pub fn get_or_cache_ast(&mut self, statement: &StatementId, content: &str) -> (r: Arc<
        Result<SqlAst, SyntaxDiagnostic>,
    >)
        requires
            old(self).wf(),
        ensures
            final(self).wf(),
            final(self).contents().dom().contains(*statement),
            final(self).contents()[*statement] == CacheSlot::Ast(r),
            old(self).contents().dom().contains(*statement) ==> (final(self).contents() == old(
                self,
            ).contents() && old(self).contents()[*statement] == CacheSlot::Ast(r)),
            !old(self).contents().dom().contains(*statement) ==> final(self).contents() == old(
                self,
            ).contents().insert(*statement, CacheSlot::Ast(r)),
            !old(self).contents().dom().contains(*statement) && content@.len() == 0 ==> (*r)
                is Err,
    {
        match cache_map_get(&self.db, statement) {
            Some(slot) => match slot {
                CacheSlot::Ast(a) => a,
                _ => vstd::pervasive::unreached(),
            },
            None => {
                let r = Arc::new(parse(content));
                cache_map_insert(&mut self.db, *statement, CacheSlot::Ast(arc_clone(&r)));
                r
            },
        }
    }

    /// Whether the store holds an entry for this identity.
    pub fn has(&self, id: &StatementId) -> (r: bool)
        ensures
            r == self.contents().dom().contains(*id),
    {
        match cache_map_get(&self.db, id) {
            Some(_) => true,
            None => false,
        }
    }

    /// Removes the statement's entry and, for a root, its child's entry.
    pub fn clear_statement(&mut self, id: &StatementId)
        requires
            old(self).wf(),
        ensures
            final(self).wf(),
            id.is_root() ==> final(self).contents() == old(self).contents().remove(*id).remove(
                id.spec_child(),
            ),
            !id.is_root() ==> final(self).contents() == old(self).contents().remove(*id),
    {
        cache_map_remove(&mut self.db, id);
        match id.get_child_id() {
            Some(child_id) => {
                cache_map_remove(&mut self.db, &child_id);
            },
            None => {},
        }
    }
}

} // verus!
