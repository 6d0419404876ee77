//! Completion-facing values and the statement selection completion runs on.
//!
//! Scoring completion candidates is an external concern; the engine
//! contributes the plain value types completions are exchanged in, and the
//! selection of the one statement a completion request at a cursor position
//! belongs to, through the shared query layer.

use std::sync::Arc;

use vstd::prelude::*;

use crate::cst::SyntaxTree;
use crate::parsed_document::{GetCompletionsFilter, ParsedDocument, StatementFilter};
use crate::sql_function::is_trim_of;
use crate::statement_identifier::StatementId;
use crate::text_range::TextRange;

verus! {

/// The kind of a completion candidate.
#[derive(Debug, Clone, Copy, PartialEq, Eq, Structural)]
pub enum CompletionItemKind {
    Table,
    Function,
    Column,
    Schema,
}

impl CompletionItemKind {
    /// The kind's display name.
    pub fn display_string(&self) -> (r: String)
        ensures
            *self == CompletionItemKind::Table ==> r@ == "Table"@,
            *self == CompletionItemKind::Function ==> r@ == "Function"@,
            *self == CompletionItemKind::Column ==> r@ == "Column"@,
            *self == CompletionItemKind::Schema ==> r@ == "Schema"@,
    {
        match self {
            CompletionItemKind::Table => String::from_str("Table"),
            CompletionItemKind::Function => String::from_str("Function"),
            CompletionItemKind::Column => String::from_str("Column"),
            CompletionItemKind::Schema => String::from_str("Schema"),
        }
    }
}

/// The text an editor should insert for a completion, with the range it
/// replaces; a range whose start equals its end makes it an insertion.
#[derive(Debug, Clone)]
pub struct CompletionText {
    pub text: String,
    pub range: TextRange,
}

/// One completion candidate handed to an editor.
#[derive(Debug, Clone)]
pub struct CompletionItem {
    pub label: String,
    pub description: String,
    pub preselected: bool,
    pub kind: CompletionItemKind,
    /// What an editor should sort by: the engine's own ranking, encoded.
    pub sort_text: String,
    pub completion_text: Option<CompletionText>,
}

/// The candidates produced for one completion request.
#[derive(Debug)]
pub struct CompletionResult {
    pub items: Vec<CompletionItem>,
}

impl Default for CompletionResult {
    fn default() -> (r: CompletionResult)
        ensures
            r.items@.len() == 0,
    {
        CompletionResult { items: Vec::new() }
    }
}

/// A completion request: the file and the cursor position in it.
#[derive(Debug, Clone)]
pub struct GetCompletionsParams {
    /// The file for which a completion is requested.
    pub path: String,
    /// The cursor position in the file.
    pub position: usize,
}

/// What a completion request returns.
#[derive(Debug)]
pub struct CompletionsResult {
    pub items: Vec<CompletionItem>,
}

impl Default for CompletionsResult {
    fn default() -> (r: CompletionsResult)
        ensures
            r.items@.len() == 0,
    {
        CompletionsResult { items: Vec::new() }
    }
}

/// Compares two strings character by character.
fn str_eq(a: &str, b: &str) -> (r: bool)
    ensures
        r == (a@ == b@),
{
    let n = a.unicode_len();
    let m = b.unicode_len();
    if n != m {
        return false;
    }
    let mut i: usize = 0;
    while i < n
        invariant
            i <= n,
            n == a@.len(),
            n == b@.len(),
            forall|j: int| 0 <= j < i ==> a@[j] == b@[j],
        decreases n - i,
    {
        if a.get_char(i) != b.get_char(i) {
            return false;
        }
        i = i + 1;
    }
    proof {
        assert(a@ =~= b@);
    }
    true
}

/// The clause a cursor rests in, as far as completion cares.
#[derive(Debug, Clone, Copy, PartialEq, Eq, Structural)]
pub enum ClauseType {
    Select,
    Where,
    From,
    Update,
    Delete,
}

impl ClauseType {
    /// The clause named by a node kind, or an error for a kind completion
    /// does not know.
    pub fn try_from(value: &str) -> (r: Result<ClauseType, String>)
        ensures
            value@ == "select"@ ==> r == Ok::<ClauseType, String>(ClauseType::Select),
            value@ == "where"@ ==> r == Ok::<ClauseType, String>(ClauseType::Where),
            value@ == "from"@ ==> r == Ok::<ClauseType, String>(ClauseType::From),
            value@ == "update"@ ==> r == Ok::<ClauseType, String>(ClauseType::Update),
            value@ == "delete"@ ==> r == Ok::<ClauseType, String>(ClauseType::Delete),
    {
        proof {
            reveal_strlit("select");
            reveal_strlit("where");
            reveal_strlit("from");
            reveal_strlit("update");
            reveal_strlit("delete");
            // The keywords differ pairwise, in length or first character.
            assert("select"@ != "update"@) by {
                assert("select"@[0] == 's');
                assert("update"@[0] == 'u');
            }
            assert("select"@ != "delete"@) by {
                assert("select"@[0] == 's');
                assert("delete"@[0] == 'd');
            }
            assert("update"@ != "delete"@) by {
                assert("update"@[0] == 'u');
                assert("delete"@[0] == 'd');
            }
            assert("select"@ != "where"@ && "select"@ != "from"@) by {
                assert("select"@.len() == 6);
                assert("where"@.len() == 5);
                assert("from"@.len() == 4);
            }
            assert("where"@ != "from"@ && "where"@ != "update"@ && "where"@ != "delete"@) by {
                assert("where"@.len() == 5);
                assert("from"@.len() == 4);
                assert("update"@.len() == 6);
                assert("delete"@.len() == 6);
            }
            assert("from"@ != "update"@ && "from"@ != "delete"@) by {
                assert("from"@.len() == 4);
                assert("update"@.len() == 6);
                assert("delete"@.len() == 6);
            }
        }
        if str_eq(value, "select") {
            Ok(ClauseType::Select)
        } else if str_eq(value, "where") {
            Ok(ClauseType::Where)
        } else if str_eq(value, "from") {
            Ok(ClauseType::From)
        } else if str_eq(value, "update") {
            Ok(ClauseType::Update)
        } else if str_eq(value, "delete") {
            Ok(ClauseType::Delete)
        } else {
            let mut message = String::new();
            message.append("unrecognized clause: ");
            message.append(value);
            Err(message)
        }
    }
}

/// The nearest relevant node wrapping a cursor, as far as completion cares.
#[derive(Debug, Clone, Copy, PartialEq, Eq, Structural)]
pub enum WrappingNode {
    Relation,
    BinaryExpression,
    Assignment,
}

impl WrappingNode {
    /// The wrapping node named by a node kind, or an error for a kind
    /// completion does not know.
    pub fn try_from(value: &str) -> (r: Result<WrappingNode, String>)
        ensures
            value@ == "relation"@ ==> r == Ok::<WrappingNode, String>(WrappingNode::Relation),
            value@ == "assignment"@ ==> r == Ok::<WrappingNode, String>(WrappingNode::Assignment),
            value@ == "binary_expression"@ ==> r == Ok::<WrappingNode, String>(
                WrappingNode::BinaryExpression,
            ),
    {
        proof {
            reveal_strlit("relation");
            reveal_strlit("assignment");
            reveal_strlit("binary_expression");
            // The node kinds differ pairwise in length.
            assert("relation"@ != "assignment"@ && "relation"@ != "binary_expression"@
                && "assignment"@ != "binary_expression"@) by {
                assert("relation"@.len() == 8);
                assert("assignment"@.len() == 10);
                assert("binary_expression"@.len() == 17);
            }
        }
        if str_eq(value, "relation") {
            Ok(WrappingNode::Relation)
        } else if str_eq(value, "assignment") {
            Ok(WrappingNode::Assignment)
        } else if str_eq(value, "binary_expression") {
            Ok(WrappingNode::BinaryExpression)
        } else {
            let mut message = String::new();
            message.append("unrecognized wrapping node: ");
            message.append(value);
            Err(message)
        }
    }
}

/// The character that marks the cursor position in test queries.
pub const CURSOR_POS: char = '\u{20AC}';

/// A test query holding a cursor marker: the marker's position and the
/// query text with every marker removed and surrounding blanks trimmed.
#[derive(Debug, Clone)]
pub struct InputQuery {
    pub sql: String,
    pub position: usize,
}

/// The characters of `s` with every cursor marker removed.
pub open spec fn spec_without_cursor(s: Seq<char>) -> Seq<char>
    decreases s.len(),
{
    if s.len() == 0 {
        Seq::empty()
    } else {
        let prefix = spec_without_cursor(s.drop_last());
        if s.last() == CURSOR_POS {
            prefix
        } else {
            prefix.push(s.last())
        }
    }
}

impl InputQuery {
    /// Reads a test query: the position of the first cursor marker, and the
    /// query with the markers removed and blanks trimmed. The query must
    /// hold a marker.
    pub fn from(value: &str) -> (r: InputQuery)
        requires
            exists|i: int| 0 <= i < value@.len() && value@[i] == CURSOR_POS,
        ensures
            r.position < value@.len(),
            value@[r.position as int] == CURSOR_POS,
            forall|j: int| 0 <= j < r.position ==> value@[j] != CURSOR_POS,
            is_trim_of(spec_without_cursor(value@), r.sql@),
    {
        let chars = crate::lexer::chars_vec(value);
        let n = chars.len();
        // The first cursor marker.
        let mut position: usize = 0;
        while position < n && chars[position] != CURSOR_POS
            invariant
                position <= n,
                n == chars@.len(),
                forall|j: int| 0 <= j < position ==> chars@[j] != CURSOR_POS,
            decreases n - position,
        {
            position = position + 1;
        }
        proof {
            if position >= n {
                let i = choose|i: int| 0 <= i < value@.len() && value@[i] == CURSOR_POS;
                assert(chars@[i] != CURSOR_POS);
            }
        }
        // The text without markers.
        let mut kept: Vec<char> = Vec::new();
        let mut i: usize = 0;
        while i < n
            invariant
                i <= n,
                n == chars@.len(),
                kept@ == spec_without_cursor(chars@.take(i as int)),
            decreases n - i,
        {
            proof {
                assert(chars@.take(i as int + 1).drop_last() =~= chars@.take(i as int));
                assert(chars@.take(i as int + 1).last() == chars@[i as int]);
            }
            if chars[i] != CURSOR_POS {
                kept.push(chars[i]);
            }
            i = i + 1;
        }
        proof {
            assert(chars@.take(n as int) =~= chars@);
        }
        // Trim surrounding blanks.
        let (p, q) = crate::sql_function::trimmed_bounds(&kept);
        let mut sql_chars: Vec<char> = Vec::new();
        let mut t = p;
        while t < q
            invariant
                p <= t <= q,
                q <= kept@.len(),
                sql_chars@ == kept@.subrange(p as int, t as int),
            decreases q - t,
        {
            sql_chars.push(kept[t]);
            t = t + 1;
        }
        let sql = crate::lexer::chars_to_string(&sql_chars);
        proof {
            assert(is_trim_of(kept@, sql@)) by {
                assert(sql@ == kept@.subrange(p as int, q as int));
            }
        }
        InputQuery { sql, position }
    }
}

/// The statement a completion request at `position` works on, when exactly
/// one statement is eligible: the one whose range holds the cursor, with a
/// small slack window past an unterminated statement. With several eligible
/// statements whose ranges overlap the cursor, nothing is returned.
///
/// Anything returned is eligible: the cursor rests in its range, the slack
/// window included when the statement is unterminated.
pub fn get_statement_for_completions(doc: &mut ParsedDocument, position: usize) -> (r: Option<
    (StatementId, TextRange, String, Arc<SyntaxTree>),
>)
    requires
        old(doc).wf(),
    ensures
        final(doc).wf(),
        r matches Some(x) ==> (GetCompletionsFilter { cursor_position: position }).spec_pred(
            x.0,
            x.1,
            x.2@,
        ),
{
    let count = doc.count();
    if count == 0 {
        return None;
    }
    let filter = GetCompletionsFilter { cursor_position: position };
    let mut eligible = doc.selected_statements(&filter);
    if eligible.len() == 0 {
        return None;
    }
    if count == 1 {
        let (id, range, text) = eligible.remove(0);
        let tree = doc.cst_db.get_or_cache_tree(&id, text.as_str());
        return Some((id, range, text, tree));
    }
    // With several statements, make sure the eligible ones do not overlap
    // around the cursor: a second eligible statement containing the cursor
    // makes the request ambiguous.
    let n = eligible.len();
    let mut i: usize = 1;
    while i < n
        invariant
            1 <= i <= n,
            n == eligible@.len(),
            doc.wf(),
        decreases n - i,
    {
        if eligible[i].1.contains(position) {
            return None;
        }
        i = i + 1;
    }
    proof {
        assert(filter.spec_pred(
            eligible@.last().0,
            eligible@.last().1,
            eligible@.last().2@,
        ));
    }
    match eligible.pop() {
        Some((id, range, text)) => {
            let tree = doc.cst_db.get_or_cache_tree(&id, text.as_str());
            Some((id, range, text, tree))
        },
        None => None,
    }
}

} // verus!
