//! The shared map type behind the per-statement cache stores.
//!
//! Each store owns one concurrent map from statement identity to a shared,
//! reference-counted cache slot, so that many readers can hold results
//! without copying the artifact. The map itself comes from an outside
//! crate and is used through the trusted declarations below; everything a
//! store proves rests on the contents name `cache_contents` and the small
//! wrappers that state how each operation changes it.

use std::sync::Arc;

use vstd::prelude::*;

use crate::annotation::StatementAnnotations;
use crate::cst::SyntaxTree;
use crate::diagnostics::SyntaxDiagnostic;
use crate::pg_query::SqlAst;
use crate::sql_function::SQLFunctionBody;
use crate::statement_identifier::StatementId;

verus! {

/// One cached, shared artifact. Each store keeps exactly one variant in
/// its own map; the variant carries the reference-counted value handed to
/// callers.
#[derive(Debug, Clone)]
pub enum CacheSlot {
    /// A typed parse result: the statement's summary or its syntax error.
    Ast(Arc<Result<SqlAst, SyntaxDiagnostic>>),
    /// A lossless concrete tree.
    Tree(Arc<SyntaxTree>),
    /// A discovered embedded function body, or the knowledge that the
    /// statement has none.
    FunctionBody(Option<Arc<SQLFunctionBody>>),
    /// Small per-statement facts.
    Annotations(Option<Arc<StatementAnnotations>>),
}

/// `dashmap::DashMap` declared for the verifier; values of the type are
/// opaque and reached only through the wrappers below.
#[verifier::external_type_specification]
#[verifier::external_body]
#[verifier::reject_recursive_types(K)]
#[verifier::reject_recursive_types(V)]
#[verifier::reject_recursive_types(S)]
pub struct ExDashMap<K, V, S>(dashmap::DashMap<K, V, S>);

/// The concurrent map each store owns.
pub type CacheMap = dashmap::DashMap<StatementId, CacheSlot>;

/// What a cache map holds: its entries as a mathematical map.
pub uninterp spec fn cache_contents(m: CacheMap) -> Map<StatementId, CacheSlot>;

/// The empty cache contents.
pub open spec fn empty_cache() -> Map<StatementId, CacheSlot> {
    Map::empty()
}

/// Relies on `dashmap::DashMap::new`: a newly built map holds no entries.
#[verifier::external_body]
pub fn cache_map_new() -> (r: CacheMap)
    ensures
        cache_contents(r) == empty_cache(),
{
    dashmap::DashMap::new()
}

/// Relies on `dashmap::DashMap::get`: returns the entry stored under `k`,
/// if any. The wrapper hands back a clone of the slot, which shares the
/// same reference-counted artifact.
#[verifier::external_body]
pub fn cache_map_get(m: &CacheMap, k: &StatementId) -> (r: Option<CacheSlot>)
    ensures
        r == if cache_contents(*m).dom().contains(*k) {
            Some(cache_contents(*m)[*k])
        } else {
            None::<CacheSlot>
        },
{
    match m.get(k) {
        Some(entry) => Some(entry.value().clone()),
        None => None,
    }
}

/// Relies on `dashmap::DashMap::insert`: stores `v` under `k`, replacing
/// any prior entry.
#[verifier::external_body]
pub fn cache_map_insert(m: &mut CacheMap, k: StatementId, v: CacheSlot)
    ensures
        cache_contents(*final(m)) == cache_contents(*old(m)).insert(k, v),
{
    m.insert(k, v);
}

/// Relies on `dashmap::DashMap::remove`: removes the entry stored under
/// `k`, if any.
#[verifier::external_body]
pub fn cache_map_remove(m: &mut CacheMap, k: &StatementId)
    ensures
        cache_contents(*final(m)) == cache_contents(*old(m)).remove(*k),
{
    m.remove(k);
}

/// Relies on `std::sync::Arc::clone`: a clone is a second handle to the
/// same value.
#[verifier::external_body]
pub fn arc_clone<T>(a: &Arc<T>) -> (r: Arc<T>)
    ensures
        r == *a,
{
    a.clone()
}

} // verus!
