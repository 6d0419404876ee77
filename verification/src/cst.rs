//! The CST store: lossless per-statement trees, memoized by identity.
//!
//! The concrete tree is lossless: it retains every character of the
//! statement it was built from, so the engine models it by the text it
//! represents. Unlike the other stores, a modified statement is not simply
//! dropped here: the store patches the prior tree with the edit instead of
//! rebuilding it from nothing.

use std::sync::Arc;

use vstd::prelude::*;

use crate::change::{spec_splice, splice, ModifiedStatement};
use crate::statement_identifier::StatementId;
use crate::store::{
    arc_clone, cache_contents, cache_map_get, cache_map_insert, cache_map_new, cache_map_remove,
    CacheSlot,
};

verus! {

/// A lossless concrete tree of one statement, modeled by the full text it
/// retains. It supports incremental reparse: a prior tree plus an edit
/// yields the tree of the patched text.
#[derive(Debug, Clone)]
pub struct SyntaxTree {
    /// The statement text the tree losslessly represents.
    pub text: String,
}

/// The memoizing store of concrete trees, keyed by statement identity.
pub struct CstStore {
    pub db: crate::store::CacheMap,
}

impl CstStore {
    /// The store's entries.
    pub open spec fn contents(self) -> Map<StatementId, CacheSlot> {
        cache_contents(self.db)
    }

    /// Every entry of this store is a tree slot.
    pub open spec fn wf(self) -> bool {
        forall|k: StatementId|
            self.contents().dom().contains(k) ==> (#[trigger] self.contents()[k]) matches
                CacheSlot::Tree(_)
    }

    pub fn new() -> (s: CstStore)
        ensures
            s.wf(),
            s.contents() == crate::store::empty_cache(),
    {
        CstStore { db: cache_map_new() }
    }

    /// Builds and stores the tree of a statement's text.
    pub fn add_statement(&mut self, statement: &StatementId, content: &str)
        requires
            old(self).wf(),
        ensures
            final(self).wf(),
            final(self).contents().dom().contains(*statement),
            final(self).contents()[*statement] matches CacheSlot::Tree(t) && t.text@ == content@,
            final(self).contents() == old(self).contents().insert(
                *statement,
                final(self).contents()[*statement],
            ),
    {
        let tree = Arc::new(SyntaxTree { text: content.to_owned() });
        cache_map_insert(&mut self.db, *statement, CacheSlot::Tree(tree));
    }

    /// Whether the store holds an entry for this identity.
    pub fn has(&self, id: &StatementId) -> (r: bool)
        ensures
            r == self.contents().dom().contains(*id),
    {
        match cache_map_get(&self.db, id) {
            Some(_) => true,
            None => false,
        }
    }

    /// Removes the statement's entry and, for a root, its child's entry.
    pub fn remove_statement(&mut self, id: &StatementId)
        requires
            old(self).wf(),
        ensures
            final(self).wf(),
            id.is_root() ==> final(self).contents() == old(self).contents().remove(*id).remove(
                id.spec_child(),
            ),
            !id.is_root() ==> final(self).contents() == old(self).contents().remove(*id),
    {
        cache_map_remove(&mut self.db, id);
        match id.get_child_id() {
            Some(child_id) => {
                cache_map_remove(&mut self.db, &child_id);
            },
            None => {},
        }
    }

    /// Applies a modification: the old identity's entry (and its child's)
    /// leaves the store, and the new identity receives the prior tree
    /// patched with the edit. Without a prior tree, or when the recorded
    /// patch does not fit it, the tree is rebuilt from the new text.
    pub fn modify_statement(&mut self, change: &ModifiedStatement)
        requires
            old(self).wf(),
        ensures
            final(self).wf(),
            change.new_stmt != change.old_stmt ==> !final(self).contents().dom().contains(
                change.old_stmt,
            ),
            change.new_stmt != change.old_stmt.spec_child() ==> !final(self).contents().dom().contains(change.old_stmt.spec_child()),
            final(self).contents().dom().contains(change.new_stmt),
            final(self).contents()[change.new_stmt] matches CacheSlot::Tree(_),
            final(self).contents() == old(self).contents().remove(change.old_stmt).remove(
                change.old_stmt.spec_child(),
            ).insert(change.new_stmt, final(self).contents()[change.new_stmt]),
            old(self).contents().dom().contains(change.old_stmt) ==> (old(self).contents()[change.old_stmt] matches CacheSlot::Tree(prior) ==> (change.change_range.wf() && change.change_range.end <= prior.text@.len() ==> (final(self).contents()[change.new_stmt] matches CacheSlot::Tree(t) && t.text@ == spec_splice(prior.text@, change.change_range, change.change_text@)))),
            !old(self).contents().dom().contains(change.old_stmt) ==> (final(self).contents()[change.new_stmt] matches CacheSlot::Tree(t) && t.text@ == change.new_stmt_text@),
    {
        let prior = cache_map_get(&self.db, &change.old_stmt);
        cache_map_remove(&mut self.db, &change.old_stmt);
        match change.old_stmt.get_child_id() {
            Some(child_id) => {
                cache_map_remove(&mut self.db, &child_id);
            },
            None => {},
        }
        let new_tree = match prior {
            Some(slot) => match slot {
                CacheSlot::Tree(t) => {
                    let total = t.text.unicode_len();
                    if change.change_range.start <= change.change_range.end
                        && change.change_range.end <= total {
                        // Incremental reparse: patch the prior tree's text.
                        let patched = splice(
                            t.text.as_str(),
                            change.change_range,
                            change.change_text.as_str(),
                        );
                        SyntaxTree { text: patched }
                    } else {
                        SyntaxTree { text: change.new_stmt_text.clone() }
                    }
                },
                _ => vstd::pervasive::unreached(),
            },
            None => SyntaxTree { text: change.new_stmt_text.clone() },
        };
        cache_map_insert(&mut self.db, change.new_stmt, CacheSlot::Tree(Arc::new(new_tree)));
    }

    /// The first call for an identity builds and caches the tree; later
    /// calls return the cached, shared tree, until the identity is
    /// invalidated or modified.
    pub fn get_or_cache_tree(&mut self, statement: &StatementId, content: &str) -> (r: Arc<
        SyntaxTree,
    >)
        requires
            old(self).wf(),
        ensures
            final(self).wf(),
            final(self).contents().dom().contains(*statement),
            final(self).contents()[*statement] == CacheSlot::Tree(r),
            old(self).contents().dom().contains(*statement) ==> (final(self).contents() == old(
                self,
            ).contents() && old(self).contents()[*statement] == CacheSlot::Tree(r)),
            !old(self).contents().dom().contains(*statement) ==> (final(self).contents() == old(
                self,
            ).contents().insert(*statement, CacheSlot::Tree(r)) && r.text@ == content@),
    {
        match cache_map_get(&self.db, statement) {
            Some(slot) => match slot {
                CacheSlot::Tree(t) => t,
                _ => vstd::pervasive::unreached(),
            },
            None => {
                let tree = Arc::new(SyntaxTree { text: content.to_owned() });
                cache_map_insert(&mut self.db, *statement, CacheSlot::Tree(arc_clone(&tree)));
                tree
            },
        }
    }
}

} // verus!
