//! A lightweight SQL tokenizer.
//!
//! The splitter does not need a full grammar: it needs an ordered token
//! stream that covers every character of the input, where string literals,
//! quoted identifiers, dollar-quoted bodies and comments are single tokens
//! (so that semicolons and keywords inside them are never mistaken for
//! statement boundaries), and where the keywords that drive boundary
//! detection carry their own kind.
//!
//! All offsets are character offsets into the source text.

use vstd::prelude::*;

use crate::text_range::TextRange;

verus! {

/// The classification of one token.
///
/// `Ascii40`, `Ascii41`, `Ascii44`, `Ascii59` and `Ascii92` are the
/// punctuation tokens `(`, `)`, `,`, `;` and `\`. `Eof` never appears in a
/// lexed stream; it is the sentinel the splitter uses past the last token.
#[derive(Debug, Clone, Copy, PartialEq, Eq, Hash, Structural)]
pub enum SyntaxKind {
    Whitespace,
    Newline,
    Comment,
    Ascii40,
    Ascii41,
    Ascii44,
    Ascii59,
    Ascii92,
    Ident,
    Sconst,
    NumberLit,
    Param,
    OtherPunct,
    With,
    Select,
    Insert,
    Update,
    DeleteP,
    Merge,
    Create,
    Alter,
    For,
    As,
    On,
    Also,
    Instead,
    Union,
    All,
    Except,
    Grant,
    Before,
    After,
    Or,
    Ordinality,
    Check,
    Case,
    EndP,
    Into,
    From,
    Function,
    Replace,
    Language,
    Eof,
}

/// One token: a kind and the half-open character span it covers.
#[derive(Debug, Clone, Copy, PartialEq, Eq, Structural)]
pub struct Token {
    pub kind: SyntaxKind,
    pub span: TextRange,
}

/// Whether a kind is trivia: whitespace, newlines or comments.
pub open spec fn is_trivia_kind(k: SyntaxKind) -> bool {
    k == SyntaxKind::Whitespace || k == SyntaxKind::Newline || k == SyntaxKind::Comment
}

/// A token is relevant to the splitter unless it is trivia; a newline run is
/// relevant all the same when it holds more than one newline, because an
/// empty line is a statement-boundary signal.
pub open spec fn token_relevant(t: Token) -> bool {
    !(is_trivia_kind(t.kind) && (t.kind != SyntaxKind::Newline || t.span.spec_len() == 1))
}

pub fn is_trivia(k: SyntaxKind) -> (r: bool)
    ensures
        r == is_trivia_kind(k),
{
    match k {
        SyntaxKind::Whitespace => true,
        SyntaxKind::Newline => true,
        SyntaxKind::Comment => true,
        _ => false,
    }
}

pub fn is_relevant(t: &Token) -> (r: bool)
    ensures
        r == token_relevant(*t),
{
    match t.kind {
        SyntaxKind::Whitespace => false,
        SyntaxKind::Comment => false,
        SyntaxKind::Newline => if t.span.end >= t.span.start {
            t.span.end - t.span.start != 1
        } else {
            true
        },
        _ => true,
    }
}

/// A lexed stream is well formed when its tokens are nonempty, contiguous,
/// start at offset zero, and none of them is the `Eof` sentinel.
pub open spec fn tokens_wf(ts: Seq<Token>) -> bool {
    &&& forall|i: int| 0 <= i < ts.len() ==> (#[trigger] ts[i]).span.start < ts[i].span.end
    &&& forall|i: int| 0 <= i < ts.len() ==> (#[trigger] ts[i]).kind != SyntaxKind::Eof
    &&& forall|i: int|
        #![trigger ts[i], ts[i + 1]]
        0 <= i < ts.len() - 1 ==> ts[i].span.end == ts[i + 1].span.start
    &&& ts.len() > 0 ==> ts[0].span.start == 0
}

/// The total character length covered by a well-formed stream.
pub open spec fn tokens_text_len(ts: Seq<Token>) -> int {
    if ts.len() == 0 {
        0
    } else {
        ts[ts.len() - 1].span.end as int
    }
}

/// In a well-formed stream, spans are ordered by token index: an earlier
/// token ends no later than a later token starts.
#[verifier::rlimit(60)]
pub proof fn lemma_tokens_ordered(ts: Seq<Token>, i: int, j: int)
    requires
        tokens_wf(ts),
        0 <= i <= j < ts.len(),
    ensures
        ts[i].span.end <= ts[j].span.end,
        i < j ==> ts[i].span.end <= ts[j].span.start,
    decreases j - i,
{
    if i < j {
        lemma_tokens_ordered(ts, i + 1, j);
    }
}

/// Every token of a well-formed stream lies within the covered length.
pub proof fn lemma_tokens_bounded(ts: Seq<Token>, i: int)
    requires
        tokens_wf(ts),
        0 <= i < ts.len(),
    ensures
        ts[i].span.end <= tokens_text_len(ts),
{
    lemma_tokens_ordered(ts, i, ts.len() - 1);
}

fn is_space_char(c: char) -> (r: bool)
    ensures
        r == (c == ' ' || c == '\t' || c == '\r'),
{
    c == ' ' || c == '\t' || c == '\r'
}

fn is_digit_char(c: char) -> (r: bool)
    ensures
        r == ('0' <= c <= '9'),
{
    let u = c as u32;
    48 <= u && u <= 57
}

fn is_word_start_char(c: char) -> bool {
    let u = c as u32;
    (65 <= u && u <= 90) || (97 <= u && u <= 122) || u == 95 || u >= 128
}

fn is_word_char(c: char) -> bool {
    let u = c as u32;
    (65 <= u && u <= 90) || (97 <= u && u <= 122) || u == 95 || u >= 128 || (48 <= u && u <= 57)
}

/// The character lowered to ASCII lower case, other characters unchanged.
fn lower_char(c: char) -> char {
    let u = c as u32;
    if 65 <= u && u <= 90 {
        ((u + 32) as u8) as char
    } else {
        c
    }
}

/// Case-insensitive comparison of `chars[start..end]` against an ASCII
/// lower-case word.
fn word_eq(chars: &Vec<char>, start: usize, end: usize, word: &str) -> bool
    requires
        start <= end <= chars@.len(),
{
    let n = chars.len();
    let wlen = word.unicode_len();
    if end - start != wlen {
        return false;
    }
    let mut k: usize = 0;
    while k < wlen
        invariant
            start + wlen <= n,
            n == chars@.len(),
            wlen == word@.len(),
            k <= wlen,
        decreases wlen - k,
    {
        if lower_char(chars[start + k]) != word.get_char(k) {
            return false;
        }
        k = k + 1;
    }
    true
}

/// The kind of a word token: a keyword kind when the word is one of the
/// keywords the splitter cares about, `Ident` otherwise.
fn keyword_kind(chars: &Vec<char>, start: usize, end: usize) -> (r: SyntaxKind)
    requires
        start <= end <= chars@.len(),
    ensures
        r != SyntaxKind::Eof,
        !is_trivia_kind(r),
{
    if word_eq(chars, start, end, "with") {
        SyntaxKind::With
    } else if word_eq(chars, start, end, "select") {
        SyntaxKind::Select
    } else if word_eq(chars, start, end, "insert") {
        SyntaxKind::Insert
    } else if word_eq(chars, start, end, "update") {
        SyntaxKind::Update
    } else if word_eq(chars, start, end, "delete") {
        SyntaxKind::DeleteP
    } else if word_eq(chars, start, end, "merge") {
        SyntaxKind::Merge
    } else if word_eq(chars, start, end, "create") {
        SyntaxKind::Create
    } else if word_eq(chars, start, end, "alter") {
        SyntaxKind::Alter
    } else if word_eq(chars, start, end, "for") {
        SyntaxKind::For
    } else if word_eq(chars, start, end, "as") {
        SyntaxKind::As
    } else if word_eq(chars, start, end, "on") {
        SyntaxKind::On
    } else if word_eq(chars, start, end, "also") {
        SyntaxKind::Also
    } else if word_eq(chars, start, end, "instead") {
        SyntaxKind::Instead
    } else if word_eq(chars, start, end, "union") {
        SyntaxKind::Union
    } else if word_eq(chars, start, end, "all") {
        SyntaxKind::All
    } else if word_eq(chars, start, end, "except") {
        SyntaxKind::Except
    } else if word_eq(chars, start, end, "grant") {
        SyntaxKind::Grant
    } else if word_eq(chars, start, end, "before") {
        SyntaxKind::Before
    } else if word_eq(chars, start, end, "after") {
        SyntaxKind::After
    } else if word_eq(chars, start, end, "or") {
        SyntaxKind::Or
    } else if word_eq(chars, start, end, "ordinality") {
        SyntaxKind::Ordinality
    } else if word_eq(chars, start, end, "check") {
        SyntaxKind::Check
    } else if word_eq(chars, start, end, "case") {
        SyntaxKind::Case
    } else if word_eq(chars, start, end, "end") {
        SyntaxKind::EndP
    } else if word_eq(chars, start, end, "into") {
        SyntaxKind::Into
    } else if word_eq(chars, start, end, "from") {
        SyntaxKind::From
    } else if word_eq(chars, start, end, "function") {
        SyntaxKind::Function
    } else if word_eq(chars, start, end, "replace") {
        SyntaxKind::Replace
    } else if word_eq(chars, start, end, "language") {
        SyntaxKind::Language
    } else {
        SyntaxKind::Ident
    }
}

/// The characters of `s`, in order.
pub fn chars_vec(s: &str) -> (r: Vec<char>)
    ensures
        r@ == s@,
{
    let n = s.unicode_len();
    let mut r: Vec<char> = Vec::new();
    let mut i: usize = 0;
    while i < n
        invariant
            n == s@.len(),
            i <= n,
            r@ =~= s@.take(i as int),
        decreases n - i,
    {
        r.push(s.get_char(i));
        i = i + 1;
    }
    proof {
        assert(r@ =~= s@);
    }
    r
}

/// Scans past a run of blanks starting at `i`.
fn scan_ws(chars: &Vec<char>, i: usize) -> (j: usize)
    requires
        i < chars@.len(),
    ensures
        i < j <= chars@.len(),
{
    let n = chars.len();
    let mut j = i + 1;
    while j < n && is_space_char(chars[j])
        invariant
            i < j <= n,
            n == chars@.len(),
        decreases n - j,
    {
        j = j + 1;
    }
    j
}

/// Scans past a run of newlines starting at `i`.
fn scan_newlines(chars: &Vec<char>, i: usize) -> (j: usize)
    requires
        i < chars@.len(),
    ensures
        i < j <= chars@.len(),
{
    let n = chars.len();
    let mut j = i + 1;
    while j < n && chars[j] == '\n'
        invariant
            i < j <= n,
            n == chars@.len(),
        decreases n - j,
    {
        j = j + 1;
    }
    j
}

/// Scans a `--` comment up to (not including) the line's end.
fn scan_line_comment(chars: &Vec<char>, i: usize) -> (j: usize)
    requires
        i < chars@.len(),
    ensures
        i < j <= chars@.len(),
{
    let n = chars.len();
    let mut j = i + 1;
    while j < n && chars[j] != '\n'
        invariant
            i < j <= n,
            n == chars@.len(),
        decreases n - j,
    {
        j = j + 1;
    }
    j
}

/// Scans a `/* ... */` comment, honouring nesting; an unterminated comment
/// runs to the end of the input.
fn scan_block_comment(chars: &Vec<char>, i: usize) -> (j: usize)
    requires
        i + 1 < chars@.len(),
    ensures
        i < j <= chars@.len(),
{
    let n = chars.len();
    let mut depth: u64 = 1;
    let mut j = i + 2;
    while j < n
        invariant
            i < j <= n,
            n == chars@.len(),
            depth >= 1,
        decreases n - j,
    {
        if chars[j] == '*' && j + 1 < n && chars[j + 1] == '/' {
            j = j + 2;
            if depth == 1 {
                break;
            }
            depth = depth - 1;
        } else if chars[j] == '/' && j + 1 < n && chars[j + 1] == '*' {
            j = j + 2;
            if depth < u64::MAX {
                depth = depth + 1;
            }
        } else {
            j = j + 1;
        }
    }
    j
}

/// Scans a quoted region starting at the quote character `chars[i]`, where a
/// doubled quote stands for an escaped quote. An unterminated region runs to
/// the end of the input.
fn scan_quoted(chars: &Vec<char>, i: usize, quote: char) -> (j: usize)
    requires
        i < chars@.len(),
    ensures
        i < j <= chars@.len(),
{
    let n = chars.len();
    let mut j = i + 1;
    while j < n
        invariant
            i < j <= n,
            n == chars@.len(),
        decreases n - j,
    {
        if chars[j] == quote {
            if j + 1 < n && chars[j + 1] == quote {
                j = j + 2;
            } else {
                j = j + 1;
                break;
            }
        } else {
            j = j + 1;
        }
    }
    j
}

/// Scans a token starting with `$`: a positional parameter (`$1`), a
/// dollar-quoted body (`$tag$ ... $tag$`, unterminated bodies run to the end
/// of the input), or a lone `$`.
fn scan_dollar(chars: &Vec<char>, i: usize) -> (r: (SyntaxKind, usize))
    requires
        i < chars@.len(),
        chars@[i as int] == '$',
    ensures
        i < r.1 <= chars@.len(),
        r.0 != SyntaxKind::Eof,
        !is_trivia_kind(r.0),
{
    let n = chars.len();
    if i + 1 < n && is_digit_char(chars[i + 1]) {
        let mut j = i + 2;
        while j < n && is_digit_char(chars[j])
            invariant
                i < j <= n,
                n == chars@.len(),
            decreases n - j,
        {
            j = j + 1;
        }
        return (SyntaxKind::Param, j);
    }
    // Find the end of the opening delimiter: `$tag$` or `$$`.
    let mut t = i + 1;
    while t < n && is_word_char(chars[t])
        invariant
            i < t <= n,
            n == chars@.len(),
        decreases n - t,
    {
        t = t + 1;
    }
    if t >= n || chars[t] != '$' {
        // A lone `$` that opens no dollar quote.
        return (SyntaxKind::OtherPunct, i + 1);
    }
    // The delimiter is chars[i ..= t]; search for its next occurrence.
    let dlen = t + 1 - i;
    let mut k = t + 1;
    while k <= n - dlen
        invariant
            i < t + 1 <= k,
            i + dlen <= t + 1,
            dlen >= 1,
            dlen <= n,
            n == chars@.len(),
        decreases n - k,
    {
        let mut m: usize = 0;
        let mut matched = true;
        while m < dlen
            invariant
                m <= dlen,
                k + dlen <= n,
                i + dlen <= n,
                n == chars@.len(),
            decreases dlen - m,
        {
            if chars[k + m] != chars[i + m] {
                matched = false;
                break;
            }
            m = m + 1;
        }
        if matched {
            return (SyntaxKind::Sconst, k + dlen);
        }
        k = k + 1;
    }
    (SyntaxKind::Sconst, n)
}

/// Scans a word starting at `i` and classifies it.
fn scan_word(chars: &Vec<char>, i: usize) -> (r: (SyntaxKind, usize))
    requires
        i < chars@.len(),
    ensures
        i < r.1 <= chars@.len(),
        r.0 != SyntaxKind::Eof,
        !is_trivia_kind(r.0),
{
    let n = chars.len();
    let mut j = i + 1;
    while j < n && is_word_char(chars[j])
        invariant
            i < j <= n,
            n == chars@.len(),
        decreases n - j,
    {
        j = j + 1;
    }
    (keyword_kind(chars, i, j), j)
}

/// Scans a number starting at `i`.
fn scan_number(chars: &Vec<char>, i: usize) -> (j: usize)
    requires
        i < chars@.len(),
    ensures
        i < j <= chars@.len(),
{
    let n = chars.len();
    let mut j = i + 1;
    while j < n && (is_digit_char(chars[j]) || chars[j] == '.')
        invariant
            i < j <= n,
            n == chars@.len(),
        decreases n - j,
    {
        j = j + 1;
    }
    j
}

/// Tokenizes the characters of one document.
///
/// The returned stream is well formed: nonempty contiguous tokens that start
/// at offset zero and together cover exactly the input.
#[verifier::rlimit(60)]
pub fn lex_chars(chars: &Vec<char>) -> (tokens: Vec<Token>)
    ensures
        tokens_wf(tokens@),
        tokens_text_len(tokens@) == chars@.len(),
{
    let n = chars.len();
    let mut tokens: Vec<Token> = Vec::new();
    let mut i: usize = 0;
    while i < n
        invariant
            i <= n,
            n == chars@.len(),
            tokens_wf(tokens@),
            tokens_text_len(tokens@) == i as int,
            tokens@.len() == 0 ==> i == 0,
        decreases n - i,
    {
        let start = i;
        let c = chars[i];
        let kind: SyntaxKind;
        if is_space_char(c) {
            i = scan_ws(chars, i);
            kind = SyntaxKind::Whitespace;
        } else if c == '\n' {
            i = scan_newlines(chars, i);
            kind = SyntaxKind::Newline;
        } else if c == '-' && i + 1 < n && chars[i + 1] == '-' {
            i = scan_line_comment(chars, i);
            kind = SyntaxKind::Comment;
        } else if c == '/' && i + 1 < n && chars[i + 1] == '*' {
            i = scan_block_comment(chars, i);
            kind = SyntaxKind::Comment;
        } else if c == '\'' {
            i = scan_quoted(chars, i, '\'');
            kind = SyntaxKind::Sconst;
        } else if c == '"' {
            i = scan_quoted(chars, i, '"');
            kind = SyntaxKind::Ident;
        } else if c == '$' {
            let r = scan_dollar(chars, i);
            kind = r.0;
            i = r.1;
        } else if c == '(' {
            i = i + 1;
            kind = SyntaxKind::Ascii40;
        } else if c == ')' {
            i = i + 1;
            kind = SyntaxKind::Ascii41;
        } else if c == ',' {
            i = i + 1;
            kind = SyntaxKind::Ascii44;
        } else if c == ';' {
            i = i + 1;
            kind = SyntaxKind::Ascii59;
        } else if c == '\\' {
            i = i + 1;
            kind = SyntaxKind::Ascii92;
        } else if is_digit_char(c) {
            i = scan_number(chars, i);
            kind = SyntaxKind::NumberLit;
        } else if is_word_start_char(c) {
            let r = scan_word(chars, i);
            kind = r.0;
            i = r.1;
        } else {
            i = i + 1;
            kind = SyntaxKind::OtherPunct;
        }
        tokens.push(Token { kind, span: TextRange { start, end: i } });
    }
    tokens
}

/// Relies on `FromIterator for String` (via `collect`): builds the string
/// holding exactly these characters, in order.
#[verifier::external_body]
pub fn chars_to_string(v: &Vec<char>) -> (r: String)
    ensures
        r@ == v@,
{
    v.iter().collect()
}

/// Tokenizes a document given as text.
pub fn lex(text: &str) -> (tokens: Vec<Token>)
    ensures
        tokens_wf(tokens@),
        tokens_text_len(tokens@) == text@.len(),
{
    let chars = chars_vec(text);
    lex_chars(&chars)
}

} // verus!
