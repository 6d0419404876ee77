//! The annotation store: small per-statement facts, memoized by identity.

use std::sync::Arc;

use vstd::prelude::*;

use crate::lexer::{is_trivia_kind, lex, SyntaxKind, Token};
use crate::statement_identifier::StatementId;
use crate::store::{
    cache_contents, cache_map_get, cache_map_insert, cache_map_new, cache_map_remove, CacheSlot,
};

verus! {

/// Lightweight facts about one statement.
#[derive(Debug, Clone, Copy, PartialEq, Eq, Structural)]
pub struct StatementAnnotations {
    /// Whether the statement's last relevant token is a semicolon.
    pub ends_with_semicolon: bool,
}

/// Whether the last non-trivia token of a stream is a semicolon. Trailing
/// blanks, newlines and comments do not hide it.
pub open spec fn last_token_is_semi(ts: Seq<Token>) -> bool {
    exists|i: int|
        0 <= i < ts.len() && !is_trivia_kind((#[trigger] ts[i]).kind) && ts[i].kind
            == SyntaxKind::Ascii59 && (forall|j: int|
            i < j < ts.len() ==> is_trivia_kind((#[trigger] ts[j]).kind))
}

/// Computes the annotations of one token stream.
pub fn compute_annotations(tokens: &Vec<Token>) -> (r: StatementAnnotations)
    ensures
        r.ends_with_semicolon == last_token_is_semi(tokens@),
{
    let n = tokens.len();
    let mut k = n;
    while k > 0
        invariant
            k <= n,
            n == tokens@.len(),
            forall|j: int| k <= j < n ==> is_trivia_kind((#[trigger] tokens@[j]).kind),
        decreases k,
    {
        k = k - 1;
        if !crate::lexer::is_trivia(tokens[k].kind) {
            let semi = tokens[k].kind == SyntaxKind::Ascii59;
            proof {
                if semi {
                    assert(last_token_is_semi(tokens@)) by {
                        assert(!is_trivia_kind(tokens@[k as int].kind) && tokens@[k as int].kind
                            == SyntaxKind::Ascii59);
                    }
                } else {
                    if last_token_is_semi(tokens@) {
                        let i = choose|i: int|
                            0 <= i < tokens@.len() && !is_trivia_kind(
                                (#[trigger] tokens@[i]).kind,
                            ) && tokens@[i].kind == SyntaxKind::Ascii59 && (forall|j: int|
                                i < j < tokens@.len() ==> is_trivia_kind(
                                    (#[trigger] tokens@[j]).kind,
                                ));
                        assert(i != k);
                        if i < k {
                            assert(is_trivia_kind(tokens@[k as int].kind));
                        } else {
                            assert(is_trivia_kind(tokens@[i].kind));
                        }
                    }
                }
            }
            return StatementAnnotations { ends_with_semicolon: semi };
        }
    }
    proof {
        if last_token_is_semi(tokens@) {
            let i = choose|i: int|
                0 <= i < tokens@.len() && !is_trivia_kind((#[trigger] tokens@[i]).kind)
                    && tokens@[i].kind == SyntaxKind::Ascii59 && (forall|j: int|
                    i < j < tokens@.len() ==> is_trivia_kind((#[trigger] tokens@[j]).kind));
            assert(is_trivia_kind(tokens@[i].kind));
        }
    }
    StatementAnnotations { ends_with_semicolon: false }
}

/// The memoizing store of per-statement annotations, keyed by statement
/// identity.
pub struct AnnotationStore {
    pub db: crate::store::CacheMap,
}

impl AnnotationStore {
    /// The store's entries.
    pub open spec fn contents(self) -> Map<StatementId, CacheSlot> {
        cache_contents(self.db)
    }

    /// Every entry of this store is an annotation slot.
    pub open spec fn wf(self) -> bool {
        forall|k: StatementId|
            self.contents().dom().contains(k) ==> (#[trigger] self.contents()[k]) matches
                CacheSlot::Annotations(_)
    }

    pub fn new() -> (s: AnnotationStore)
        ensures
            s.wf(),
            s.contents() == crate::store::empty_cache(),
    {
        AnnotationStore { db: cache_map_new() }
    }

    /// The first call for an identity computes the annotations from the
    /// statement's text and caches them; later calls return the cached,
    /// shared value, until the identity is invalidated.
    pub fn get_annotations(&mut self, statement: &StatementId, content: &str) -> (r: Option<
        Arc<StatementAnnotations>,
    >)
        requires
            old(self).wf(),
        ensures
            final(self).wf(),
            final(self).contents().dom().contains(*statement),
            final(self).contents()[*statement] == CacheSlot::Annotations(r),
            old(self).contents().dom().contains(*statement) ==> (final(self).contents() == old(
                self,
            ).contents() && old(self).contents()[*statement] == CacheSlot::Annotations(r)),
            !old(self).contents().dom().contains(*statement) ==> (final(self).contents() == old(
                self,
            ).contents().insert(*statement, CacheSlot::Annotations(r)) && r is Some),
    {
        match cache_map_get(&self.db, statement) {
            Some(slot) => match slot {
                CacheSlot::Annotations(a) => a,
                _ => vstd::pervasive::unreached(),
            },
            None => {
                let tokens = lex(content);
                let annotations = Some(Arc::new(compute_annotations(&tokens)));
                let stored = match &annotations {
                    Some(a) => Some(crate::store::arc_clone(a)),
                    None => None,
                };
                cache_map_insert(&mut self.db, *statement, CacheSlot::Annotations(stored));
                annotations
            },
        }
    }

    /// Whether the store holds an entry for this identity.
    pub fn has(&self, id: &StatementId) -> (r: bool)
        ensures
            r == self.contents().dom().contains(*id),
    {
        match cache_map_get(&self.db, id) {
            Some(_) => true,
            None => false,
        }
    }

    /// Removes the statement's entry and, for a root, its child's entry.
    pub fn clear_statement(&mut self, id: &StatementId)
        requires
            old(self).wf(),
        ensures
            final(self).wf(),
            id.is_root() ==> final(self).contents() == old(self).contents().remove(*id).remove(
                id.spec_child(),
            ),
            !id.is_root() ==> final(self).contents() == old(self).contents().remove(*id),
    {
        cache_map_remove(&mut self.db, id);
        match id.get_child_id() {
            Some(child_id) => {
                cache_map_remove(&mut self.db, &child_id);
            },
            None => {},
        }
    }
}

} // verus!
