//! Stable statement identities.
//!
//! A document assigns each top-level statement a `Root` identity that
//! survives edits which do not touch the statement. A statement that embeds
//! a nested SQL body (for example an SQL function definition) may expose that
//! body as a single `Child`; the child always carries the same sequence
//! number as its root.

use vstd::prelude::*;

verus! {

/// The sequence number shared by a root statement and its child.
#[derive(Debug, Clone, Copy, PartialEq, Eq, Hash, Structural)]
pub struct RootId {
    pub inner: usize,
}

impl From<RootId> for usize {
    fn from(val: RootId) -> (r: usize) {
        val.inner
    }
}

impl vstd::std_specs::convert::FromSpecImpl<RootId> for usize {
    open spec fn obeys_from_spec() -> bool {
        true
    }

    open spec fn from_spec(val: RootId) -> usize {
        val.inner
    }
}

impl From<usize> for RootId {
    fn from(inner: usize) -> (r: RootId) {
        RootId { inner }
    }
}

impl vstd::std_specs::convert::FromSpecImpl<usize> for RootId {
    open spec fn obeys_from_spec() -> bool {
        true
    }

    open spec fn from_spec(inner: usize) -> RootId {
        RootId { inner }
    }
}

/// Identity of a statement tracked by a document.
///
/// A `Root` is a top-level statement; a `Child` is the single embedded
/// statement (such as an SQL function body) discovered inside the root with
/// the same sequence number. A child never owns a child of its own.
#[derive(Debug, Clone, Copy, PartialEq, Eq, Hash, Structural)]
pub enum StatementId {
    Root(RootId),
    Child(RootId),
}

impl Default for StatementId {
    fn default() -> (r: Self)
        ensures
            r == StatementId::Root(RootId { inner: 0 }),
    {
        StatementId::Root(RootId { inner: 0 })
    }
}

impl StatementId {
    /// The sequence number carried by this identity, shared between a root
    /// and its child.
    pub open spec fn spec_raw(self) -> usize {
        match self {
            StatementId::Root(s) => s.inner,
            StatementId::Child(s) => s.inner,
        }
    }

    pub open spec fn is_root(self) -> bool {
        matches!(self, StatementId::Root(_))
    }

    /// The child identity belonging to a root with the same sequence number.
    pub open spec fn spec_child(self) -> StatementId {
        StatementId::Child(RootId { inner: self.spec_raw() })
    }

    pub fn raw(&self) -> (r: usize)
        ensures
            r == self.spec_raw(),
    {
        match self {
            StatementId::Root(s) => s.inner,
            StatementId::Child(s) => s.inner,
        }
    }

    /// The matching `Child` identity for a `Root`, or `None` when this
    /// identity already is a `Child`. Whether the root actually owns a child
    /// statement is not implied.
    pub fn get_child_id(&self) -> (r: Option<StatementId>)
        ensures
            self.is_root() ==> r == Some(self.spec_child()),
            !self.is_root() ==> r is None,
    {
        match self {
            StatementId::Root(id) => Some(StatementId::Child(RootId { inner: id.inner })),
            StatementId::Child(_) => None,
        }
    }

    /// The matching `Child` identity for a `Root`. A child cannot own a
    /// child, so this must only be called on roots.
    pub fn create_child(&self) -> (r: StatementId)
        requires
            self.is_root(),
        ensures
            r == self.spec_child(),
    {
        match self {
            StatementId::Root(id) => StatementId::Child(RootId { inner: id.inner }),
            StatementId::Child(_) => vstd::pervasive::unreached(),
        }
    }
}

/// Allocates fresh, strictly increasing root identities for one document.
pub struct StatementIdGenerator {
    pub next_id: usize,
}

impl StatementIdGenerator {
    /// The sequence number the next allocated root will carry.
    pub open spec fn spec_next_id(self) -> usize {
        self.next_id
    }

    pub fn new() -> (r: Self)
        ensures
            r.spec_next_id() == 0,
    {
        Self { next_id: 0 }
    }

    pub fn next(&mut self) -> (r: StatementId)
        requires
            old(self).spec_next_id() < usize::MAX,
        ensures
            r == StatementId::Root(RootId { inner: old(self).spec_next_id() }),
            final(self).spec_next_id() == old(self).spec_next_id() + 1,
    {
        let id = self.next_id;
        self.next_id = self.next_id + 1;
        StatementId::Root(RootId { inner: id })
    }
}

} // verus!
