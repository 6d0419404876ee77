//! The sub-statement store: embedded SQL function bodies, memoized by
//! identity.
//!
//! A function definition written in the embedded SQL dialect carries its
//! body as a string literal. The body (trimmed of surrounding blanks) is
//! located at its first textual occurrence inside the parent statement's
//! source and exposed as a child statement with a parent-relative range.

use std::sync::Arc;

use vstd::prelude::*;

use crate::pg_query::SqlAst;
use crate::statement_identifier::StatementId;
use crate::store::{
    cache_contents, cache_map_get, cache_map_insert, cache_map_new, cache_map_remove, CacheSlot,
};
use crate::text_range::TextRange;

verus! {

/// An embedded statement discovered inside a root statement: its range
/// relative to the root's text, and the body text itself.
#[derive(Debug, Clone)]
pub struct SQLFunctionBody {
    pub range: TextRange,
    pub body: String,
}

/// A well-formed discovery: the range lies within the parent's text and the
/// body is exactly the text at that range.
pub open spec fn body_located(b: SQLFunctionBody, content: Seq<char>) -> bool {
    &&& b.range.start <= b.range.end
    &&& b.range.end <= content.len()
    &&& b.body@ == content.subrange(b.range.start as int, b.range.end as int)
    &&& b.body@.len() > 0
}

/// Whether `c` is a blank character for body trimming.
pub open spec fn is_blank(c: char) -> bool {
    c == ' ' || c == '\t' || c == '\n' || c == '\r'
}

fn is_blank_char(c: char) -> (r: bool)
    ensures
        r == is_blank(c),
{
    c == ' ' || c == '\t' || c == '\n' || c == '\r'
}

/// The bounds of `v` with leading and trailing blanks removed: everything
/// outside `[r.0, r.1)` is blank and a nonempty result has non-blank edges.
pub fn trimmed_bounds(v: &Vec<char>) -> (r: (usize, usize))
    ensures
        r.0 <= r.1 <= v@.len(),
        forall|k: int| 0 <= k < r.0 ==> is_blank(#[trigger] v@[k]),
        forall|k: int| r.1 <= k < v@.len() ==> is_blank(#[trigger] v@[k]),
        r.0 < r.1 ==> !is_blank(v@[r.0 as int]) && !is_blank(v@[r.1 - 1]),
{
    let n = v.len();
    let mut p: usize = 0;
    while p < n && is_blank_char(v[p])
        invariant
            p <= n,
            n == v@.len(),
            forall|k: int| 0 <= k < p ==> is_blank(#[trigger] v@[k]),
        decreases n - p,
    {
        p = p + 1;
    }
    if p == n {
        return (n, n);
    }
    let mut q = n;
    while q > p && is_blank_char(v[q - 1])
        invariant
            p <= q <= n,
            n == v@.len(),
            forall|k: int| q <= k < n ==> is_blank(#[trigger] v@[k]),
        decreases q,
    {
        q = q - 1;
    }
    (p, q)
}

/// Whether `out` is `orig` with leading and trailing blanks removed.
pub open spec fn is_trim_of(orig: Seq<char>, out: Seq<char>) -> bool {
    exists|p: int, q: int|
        #![trigger orig.subrange(p, q)]
        {
            &&& 0 <= p <= q <= orig.len()
            &&& out == orig.subrange(p, q)
            &&& (forall|k: int| 0 <= k < p ==> is_blank(#[trigger] orig[k]))
            &&& (forall|k: int| q <= k < orig.len() ==> is_blank(#[trigger] orig[k]))
            &&& (p < q ==> !is_blank(orig[p]) && !is_blank(orig[q - 1]))
        }
}

/// A string has exactly one nonempty trim.
pub proof fn lemma_trim_unique(s: Seq<char>, t1: Seq<char>, t2: Seq<char>)
    requires
        is_trim_of(s, t1),
        is_trim_of(s, t2),
        t1.len() > 0,
        t2.len() > 0,
    ensures
        t1 == t2,
{
    let (p1, q1) = choose|p: int, q: int|
        #![trigger s.subrange(p, q)]
        {
            &&& 0 <= p <= q <= s.len()
            &&& t1 == s.subrange(p, q)
            &&& (forall|k: int| 0 <= k < p ==> is_blank(#[trigger] s[k]))
            &&& (forall|k: int| q <= k < s.len() ==> is_blank(#[trigger] s[k]))
            &&& (p < q ==> !is_blank(s[p]) && !is_blank(s[q - 1]))
        };
    let (p2, q2) = choose|p: int, q: int|
        #![trigger s.subrange(p, q)]
        {
            &&& 0 <= p <= q <= s.len()
            &&& t2 == s.subrange(p, q)
            &&& (forall|k: int| 0 <= k < p ==> is_blank(#[trigger] s[k]))
            &&& (forall|k: int| q <= k < s.len() ==> is_blank(#[trigger] s[k]))
            &&& (p < q ==> !is_blank(s[p]) && !is_blank(s[q - 1]))
        };
    assert(p1 < q1 && p2 < q2);
    // Both start at the first non-blank character.
    assert(p1 == p2) by {
        assert(!is_blank(s[p1]) && !is_blank(s[p2]));
    }
    // Both end at the last non-blank character.
    assert(q1 == q2) by {
        assert(!is_blank(s[q1 - 1]) && !is_blank(s[q2 - 1]));
    }
}

/// Whether `needle` occurs in `hay` starting at `i`.
pub open spec fn match_at(hay: Seq<char>, needle: Seq<char>, i: int) -> bool {
    &&& 0 <= i
    &&& i + needle.len() <= hay.len()
    &&& hay.subrange(i, i + needle.len()) == needle
}

/// The first occurrence of `needle` in `hay`, if any.
fn find_first(hay: &Vec<char>, needle: &Vec<char>) -> (r: Option<usize>)
    requires
        needle@.len() > 0,
    ensures
        r matches Some(i) ==> match_at(hay@, needle@, i as int) && forall|j: int|
            0 <= j < i ==> !match_at(hay@, needle@, j),
        r is None ==> forall|j: int| 0 <= j ==> !match_at(hay@, needle@, j),
{
    let n = hay.len();
    let m = needle.len();
    if m > n {
        return None;
    }
    let mut i: usize = 0;
    while i <= n - m
        invariant
            0 < m <= n,
            n == hay@.len(),
            m == needle@.len(),
            i <= n - m + 1,
            forall|j: int| 0 <= j < i ==> !match_at(hay@, needle@, j),
        decreases n - i,
    {
        let mut k: usize = 0;
        let mut matched = true;
        while k < m
            invariant_except_break
                matched,
            invariant
                k <= m,
                i + m <= n,
                n == hay@.len(),
                m == needle@.len(),
                forall|j: int| 0 <= j < k ==> hay@[i + j] == #[trigger] needle@[j],
            ensures
                matched ==> (k == m && forall|j: int|
                    0 <= j < m ==> hay@[i + j] == #[trigger] needle@[j]),
                !matched ==> (k < m && hay@[i + k as int] != needle@[k as int]),
            decreases m - k,
        {
            if hay[i + k] != needle[k] {
                matched = false;
                break;
            }
            k = k + 1;
        }
        if matched {
            proof {
                assert forall|j: int| 0 <= j < m implies hay@.subrange(
                    i as int,
                    i + needle@.len(),
                )[j] == needle@[j] by {
                    assert(hay@[i + j] == needle@[j]);
                }
                assert(hay@.subrange(i as int, i + needle@.len()) =~= needle@);
            }
            return Some(i);
        }
        proof {
            if match_at(hay@, needle@, i as int) {
                assert(hay@.subrange(i as int, i + needle@.len())[k as int] == needle@[k as int]);
                assert(hay@[i + k as int] == needle@[k as int]);
            }
        }
        i = i + 1;
    }
    proof {
        assert forall|j: int| 0 <= j implies !match_at(hay@, needle@, j) by {
            if j < i {
            } else {
                assert(j + needle@.len() > hay@.len());
            }
        }
    }
    None
}

/// A statement summary carries an embedded SQL body discoverable in
/// `content`: its language option is `sql`, and the trimmed text of its
/// `AS` literal is nonempty and occurs in `content`.
pub open spec fn has_embedded_sql_body(ast: SqlAst, content: Seq<char>) -> bool {
    &&& ast.language matches Some(l) && l@ == "sql"@
    &&& ast.body matches Some(b) && (exists|t: Seq<char>|
        #[trigger] is_trim_of(b@, t) && t.len() > 0 && (exists|j: int| match_at(content, t, j)))
}

/// Extracts the embedded SQL body of a function definition: `Some` exactly
/// when the summary's language is `sql` and its `AS` literal's trimmed text
/// is nonempty and occurs in the statement's own text. The returned body is
/// that trimmed text, placed at its first occurrence, and is exactly the
/// text at the returned range.
pub fn get_sql_fn(ast: &SqlAst, content: &str) -> (r: Option<SQLFunctionBody>)
    ensures
        r is Some <==> has_embedded_sql_body(*ast, content@),
        r matches Some(bd) ==> body_located(bd, content@),
        r matches Some(bd) ==> (ast.body matches Some(raw) ==> (is_trim_of(raw@, bd.body@)
            && match_at(content@, bd.body@, bd.range.start as int) && (forall|j: int|
            0 <= j < bd.range.start ==> !match_at(content@, bd.body@, j)))),
{
    let language = match &ast.language {
        Some(l) => l,
        None => { return None },
    };
    let mut sql_word = String::new();
    sql_word.append("sql");
    proof {
        assert(sql_word@ =~= "sql"@);
    }
    if !language.eq(&sql_word) {
        return None;
    }
    let raw_body = match &ast.body {
        Some(b) => b,
        None => { return None },
    };
    let body_chars = crate::lexer::chars_vec(raw_body.as_str());
    let (p, q) = trimmed_bounds(&body_chars);
    if p == q {
        // Every character of the literal is blank: no nonempty trim exists.
        proof {
            assert forall|t: Seq<char>| is_trim_of(body_chars@, t) implies t.len() == 0 by {
                let (p2, q2) = choose|p2: int, q2: int|
                    #![trigger body_chars@.subrange(p2, q2)]
                    {
                        &&& 0 <= p2 <= q2 <= body_chars@.len()
                        &&& t == body_chars@.subrange(p2, q2)
                        &&& (forall|k: int| 0 <= k < p2 ==> is_blank(#[trigger] body_chars@[k]))
                        &&& (forall|k: int|
                            q2 <= k < body_chars@.len() ==> is_blank(#[trigger] body_chars@[k]))
                        &&& (p2 < q2 ==> !is_blank(body_chars@[p2]) && !is_blank(
                            body_chars@[q2 - 1],
                        ))
                    };
                if p2 < q2 {
                    assert(is_blank(body_chars@[p2]));
                }
            }
        }
        return None;
    }
    let mut needle: Vec<char> = Vec::new();
    let mut t = p;
    while t < q
        invariant
            p <= t <= q,
            q <= body_chars@.len(),
            needle@ == body_chars@.subrange(p as int, t as int),
        decreases q - t,
    {
        needle.push(body_chars[t]);
        t = t + 1;
    }
    proof {
        // The collected characters are the literal's one nonempty trim.
        assert(is_trim_of(body_chars@, needle@)) by {
            assert(needle@ == body_chars@.subrange(p as int, q as int));
        }
    }
    let content_chars = crate::lexer::chars_vec(content);
    let hay_len = content_chars.len();
    let start = match find_first(&content_chars, &needle) {
        Some(s) => s,
        None => {
            // No occurrence of the trim: any other trim witness is the
            // same sequence, so none occurs either.
            proof {
                assert forall|t2: Seq<char>|
                    is_trim_of(body_chars@, t2) && t2.len() > 0 implies !(exists|j: int|
                    match_at(content@, t2, j)) by {
                    lemma_trim_unique(body_chars@, needle@, t2);
                }
            }
            return None;
        },
    };
    let len = needle.len();
    proof {
        assert(start + len <= hay_len);
    }
    let range = TextRange { start, end: start + len };
    let body = content.substring_char(start, start + len).to_owned();
    proof {
        assert(body@ == content@.subrange(range.start as int, range.end as int));
        assert(has_embedded_sql_body(*ast, content@)) by {
            assert(is_trim_of(raw_body@, needle@) && needle@.len() > 0 && match_at(
                content@,
                needle@,
                start as int,
            ));
        }
    }
    Some(SQLFunctionBody { range, body })
}

/// The memoizing store of discovered function bodies, keyed by statement
/// identity. `None` entries record that a statement was inspected and has
/// no embedded body.
pub struct SQLFunctionBodyStore {
    pub db: crate::store::CacheMap,
}

impl SQLFunctionBodyStore {
    /// The store's entries.
    pub open spec fn contents(self) -> Map<StatementId, CacheSlot> {
        cache_contents(self.db)
    }

    /// Every entry of this store is a function-body slot.
    pub open spec fn wf(self) -> bool {
        forall|k: StatementId|
            self.contents().dom().contains(k) ==> (#[trigger] self.contents()[k]) matches
                CacheSlot::FunctionBody(_)
    }

    pub fn new() -> (s: SQLFunctionBodyStore)
        ensures
            s.wf(),
            s.contents() == crate::store::empty_cache(),
    {
        SQLFunctionBodyStore { db: cache_map_new() }
    }

    /// The first call for an identity extracts and caches; later calls
    /// return the cached, shared result, until the identity is invalidated.
    /// A freshly computed body is located within `content` as `get_sql_fn`
    /// promises.
    pub fn get_function_body(&mut self, statement: &StatementId, ast: &SqlAst, content: &str) -> (r:
        Option<Arc<SQLFunctionBody>>)
        requires
            old(self).wf(),
        ensures
            final(self).wf(),
            final(self).contents().dom().contains(*statement),
            final(self).contents()[*statement] == CacheSlot::FunctionBody(r),
            old(self).contents().dom().contains(*statement) ==> (final(self).contents() == old(
                self,
            ).contents() && old(self).contents()[*statement] == CacheSlot::FunctionBody(r)),
            !old(self).contents().dom().contains(*statement) ==> final(self).contents() == old(
                self,
            ).contents().insert(*statement, CacheSlot::FunctionBody(r)),
            !old(self).contents().dom().contains(*statement) ==> ((r is Some
                <==> has_embedded_sql_body(*ast, content@)) && (r matches Some(b)
                ==> body_located(*b, content@))),
    {
        match cache_map_get(&self.db, statement) {
            Some(slot) => match slot {
                CacheSlot::FunctionBody(b) => b,
                _ => vstd::pervasive::unreached(),
            },
            None => {
                let fn_body = match get_sql_fn(ast, content) {
                    Some(b) => Some(Arc::new(b)),
                    None => None,
                };
                let stored = match &fn_body {
                    Some(b) => Some(crate::store::arc_clone(b)),
                    None => None,
                };
                cache_map_insert(&mut self.db, *statement, CacheSlot::FunctionBody(stored));
                fn_body
            },
        }
    }

    /// Whether the store holds an entry for this identity.
    pub fn has(&self, id: &StatementId) -> (r: bool)
        ensures
            r == self.contents().dom().contains(*id),
    {
        match cache_map_get(&self.db, id) {
            Some(_) => true,
            None => false,
        }
    }

    /// Removes the statement's entry and, for a root, its child's entry.
    pub fn clear_statement(&mut self, id: &StatementId)
        requires
            old(self).wf(),
        ensures
            final(self).wf(),
            id.is_root() ==> final(self).contents() == old(self).contents().remove(*id).remove(
                id.spec_child(),
            ),
            !id.is_root() ==> final(self).contents() == old(self).contents().remove(*id),
    {
        cache_map_remove(&mut self.db, id);
        match id.get_child_id() {
            Some(child_id) => {
                cache_map_remove(&mut self.db, &child_id);
            },
            None => {},
        }
    }
}

} // verus!
