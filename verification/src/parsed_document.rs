//! The per-file aggregate: one document plus its four cache stores, and the
//! shared query layer every consumer traverses it through.
//!
//! The query layer decouples what is produced (a `StatementMapper`) from
//! which statements are visited (a `StatementFilter`). Iteration follows
//! source order; when a root statement turns out to embed an SQL function
//! body, the child is produced immediately after its root.

use std::sync::Arc;

use vstd::prelude::*;

use crate::annotation::AnnotationStore;
use crate::change::{
    applied_content, budget_ok, change_reconciled, changes_valid, ChangeFileParams,
    StatementChange,
};
use crate::cst::{CstStore, SyntaxTree};
use crate::diagnostics::{SplitDiagnostic, SyntaxDiagnostic};
use crate::document::Document;
use crate::pg_query::{PgQueryStore, SqlAst};
use crate::sql_function::SQLFunctionBodyStore;
use crate::statement_identifier::StatementId;
use crate::text_range::TextRange;

verus! {

/// A document with its memoizing stores: typed summaries, concrete trees,
/// embedded function bodies, and annotations, each keyed by statement
/// identity and invalidated surgically when the document changes.
pub struct ParsedDocument {
    /// The path of the underlying file.
    pub path: String,
    pub doc: Document,
    pub ast_db: PgQueryStore,
    pub cst_db: CstStore,
    pub sql_fn_db: SQLFunctionBodyStore,
    pub annotation_db: AnnotationStore,
}

/// A `Mapper` projects one visited statement into a caller-chosen output.
pub trait StatementMapper: Sized {
    type Output;

    fn map(
        &self,
        parsed: &mut ParsedDocument,
        id: StatementId,
        range: TextRange,
        content: &str,
    ) -> (out: Self::Output)
        requires
            old(parsed).wf(),
        ensures
            final(parsed).wf(),
    ;
}

/// A `Filter` decides which statements a traversal visits.
pub trait StatementFilter: Sized {
    /// What the filter accepts.
    spec fn spec_pred(&self, id: StatementId, range: TextRange, content: Seq<char>) -> bool;

    fn predicate(&self, id: &StatementId, range: &TextRange, content: &str) -> (r: bool)
        ensures
            r == self.spec_pred(*id, *range, content@),
    ;
}

/// The identity, range and text of the items a traversal yields.
pub open spec fn item_views(r: Seq<(StatementId, TextRange, String)>) -> Seq<
    (StatementId, TextRange, Seq<char>),
> {
    r.map_values(|x: (StatementId, TextRange, String)| (x.0, x.1, x.2@))
}

/// A well-formed child slot assignment: the slot of position `i` is either
/// nothing or that root's child identity, with a range inside the root's.
pub open spec fn child_slots_ok(
    childs: Seq<Option<(StatementId, TextRange, Seq<char>)>>,
    positions: Seq<crate::document::StatementPos>,
) -> bool {
    forall|i: int|
        0 <= i < childs.len() && i < positions.len() ==> ((#[trigger] childs[i]) matches Some(c)
            ==> (c.0 == positions[i].0.spec_child() && positions[i].1.start <= c.1.start
            && c.1.start <= c.1.end && c.1.end <= positions[i].1.end))
}

/// What a filtered traversal of the first `upto` statements yields: for
/// each position in source order, the root (its identity, range, and the
/// document text at its range) when the filter accepts it, then the child
/// in that position's slot when one exists and the filter accepts it.
pub open spec fn spec_selected_upto<F: StatementFilter>(
    filter: F,
    positions: Seq<crate::document::StatementPos>,
    content: Seq<char>,
    childs: Seq<Option<(StatementId, TextRange, Seq<char>)>>,
    upto: int,
) -> Seq<(StatementId, TextRange, Seq<char>)>
    decreases upto,
{
    if upto <= 0 {
        Seq::empty()
    } else {
        let i = upto - 1;
        let root = (
            positions[i].0,
            positions[i].1,
            content.subrange(positions[i].1.start as int, positions[i].1.end as int),
        );
        let rootpart = if filter.spec_pred(root.0, root.1, root.2) {
            seq![root]
        } else {
            Seq::empty()
        };
        let childpart = match childs[i] {
            Some(c) => if filter.spec_pred(c.0, c.1, c.2) {
                seq![c]
            } else {
                Seq::empty()
            },
            None => Seq::empty(),
        };
        spec_selected_upto(filter, positions, content, childs, i) + rootpart + childpart
    }
}

/// The traversal of a prefix reads only that prefix of the child slots.
pub proof fn lemma_selected_upto_slots<F: StatementFilter>(
    filter: F,
    positions: Seq<crate::document::StatementPos>,
    content: Seq<char>,
    c1: Seq<Option<(StatementId, TextRange, Seq<char>)>>,
    c2: Seq<Option<(StatementId, TextRange, Seq<char>)>>,
    upto: int,
)
    requires
        forall|j: int| 0 <= j < upto ==> c1[j] == c2[j],
    ensures
        spec_selected_upto(filter, positions, content, c1, upto) == spec_selected_upto(
            filter,
            positions,
            content,
            c2,
            upto,
        ),
    decreases upto,
{
    if upto > 0 {
        lemma_selected_upto_slots(filter, positions, content, c1, c2, upto - 1);
    }
}

/// A traversal yields something when some position's root passes the
/// filter.
pub proof fn lemma_selected_nonempty<F: StatementFilter>(
    filter: F,
    positions: Seq<crate::document::StatementPos>,
    content: Seq<char>,
    childs: Seq<Option<(StatementId, TextRange, Seq<char>)>>,
    i: int,
    upto: int,
)
    requires
        0 <= i < upto,
        filter.spec_pred(
            positions[i].0,
            positions[i].1,
            content.subrange(positions[i].1.start as int, positions[i].1.end as int),
        ),
    ensures
        spec_selected_upto(filter, positions, content, childs, upto).len() > 0,
    decreases upto,
{
    if i < upto - 1 {
        lemma_selected_nonempty(filter, positions, content, childs, i, upto - 1);
    }
}

/// Every identity a traversal yields is a visited root or that root's
/// child.
pub proof fn lemma_selected_ids<F: StatementFilter>(
    filter: F,
    positions: Seq<crate::document::StatementPos>,
    content: Seq<char>,
    childs: Seq<Option<(StatementId, TextRange, Seq<char>)>>,
    upto: int,
)
    requires
        child_slots_ok(childs, positions),
        upto <= childs.len(),
        upto <= positions.len(),
    ensures
        forall|k: int|
            0 <= k < spec_selected_upto(filter, positions, content, childs, upto).len()
                ==> exists|j: int|
                0 <= j < upto && ((#[trigger] spec_selected_upto(
                    filter,
                    positions,
                    content,
                    childs,
                    upto,
                )[k]).0 == positions[j].0 || spec_selected_upto(
                    filter,
                    positions,
                    content,
                    childs,
                    upto,
                )[k].0 == positions[j].0.spec_child()),
    decreases upto,
{
    if upto > 0 {
        lemma_selected_ids(filter, positions, content, childs, upto - 1);
        let whole = spec_selected_upto(filter, positions, content, childs, upto);
        let prefix = spec_selected_upto(filter, positions, content, childs, upto - 1);
        assert forall|k: int| 0 <= k < whole.len() implies exists|j: int|
            0 <= j < upto && ((#[trigger] whole[k]).0 == positions[j].0 || whole[k].0
                == positions[j].0.spec_child()) by {
            if k < prefix.len() {
                assert(whole[k] == prefix[k]);
            } else {
                assert(whole[k].0 == positions[upto - 1].0 || whole[k].0 == positions[upto
                    - 1].0.spec_child());
            }
        }
    }
}

/// An unfiltered traversal yields every root and at most one child each.
pub proof fn lemma_selected_count_bounds(
    filter: NoFilter,
    positions: Seq<crate::document::StatementPos>,
    content: Seq<char>,
    childs: Seq<Option<(StatementId, TextRange, Seq<char>)>>,
    upto: int,
)
    requires
        upto >= 0,
    ensures
        upto <= spec_selected_upto(filter, positions, content, childs, upto).len() <= 2 * upto,
    decreases upto,
{
    if upto > 0 {
        lemma_selected_count_bounds(filter, positions, content, childs, upto - 1);
    }
}

impl ParsedDocument {
    pub open spec fn wf(self) -> bool {
        &&& self.doc.wf()
        &&& self.ast_db.wf()
        &&& self.cst_db.wf()
        &&& self.sql_fn_db.wf()
        &&& self.annotation_db.wf()
    }

    /// No store holds an entry for this identity.
    pub open spec fn absent_everywhere(self, id: StatementId) -> bool {
        &&& !self.ast_db.contents().dom().contains(id)
        &&& !self.cst_db.contents().dom().contains(id)
        &&& !self.sql_fn_db.contents().dom().contains(id)
        &&& !self.annotation_db.contents().dom().contains(id)
    }

    /// Builds the aggregate: splits the content and eagerly builds each
    /// statement's concrete tree; everything else is computed on demand.
    pub fn new(path: String, content: String, version: i32) -> (r: ParsedDocument)
        ensures
            r.wf(),
            r.doc.content == content,
            r.doc.version == version,
            r.path == path,
    {
        let doc = Document::new(content, version);
        let mut cst_db = CstStore::new();
        let ast_db = PgQueryStore::new();
        let sql_fn_db = SQLFunctionBodyStore::new();
        let annotation_db = AnnotationStore::new();
        let n = doc.statement_count();
        let mut i: usize = 0;
        while i < n
            invariant
                i <= n,
                n == doc.positions@.len(),
                doc.wf(),
                cst_db.wf(),
            decreases n - i,
        {
            let (stmt, _range, content_i) = doc.statement_at(i);
            cst_db.add_statement(&stmt, content_i.as_str());
            i = i + 1;
        }
        ParsedDocument { path, doc, ast_db, cst_db, sql_fn_db, annotation_db }
    }

    /// The document's full text.
    pub fn get_document_content(&self) -> (r: &str)
        ensures
            r@ == self.doc.content@,
    {
        self.doc.content.as_str()
    }

    /// The split diagnostics of the last scan.
    pub fn document_diagnostics(&self) -> (r: &Vec<SplitDiagnostic>)
        ensures
            r == self.doc.diagnostics,
    {
        &self.doc.diagnostics
    }

    /// Applies an edit notification to the document and updates the stores:
    /// an added statement gets a fresh tree; a deleted statement leaves
    /// every store, together with its child; a modified statement leaves
    /// the summary, body and annotation stores and has its tree patched
    /// incrementally under its fresh identity.
    ///
    /// Cache invalidation is complete: after the call, no store holds an
    /// entry keyed by a removed identity or by its child — in particular,
    /// modifying only a root still clears the child entries keyed by the
    /// old root identity.
    pub fn apply_change(&mut self, params: &ChangeFileParams) -> (events: Vec<StatementChange>)
        requires
            old(self).wf(),
            changes_valid(old(self).doc.content@.len() as int, params.changes@),
            budget_ok(
                old(self).doc.id_generator.spec_next_id() as int,
                old(self).doc.content@.len() as int,
                params.changes@,
            ),
        ensures
            final(self).wf(),
            final(self).doc.version == params.version,
            forall|k: int|
                0 <= k < events@.len() ==> ((#[trigger] events@[k]).removed_id() matches Some(id)
                    ==> (final(self).absent_everywhere(id) && final(self).absent_everywhere(
                    id.spec_child(),
                ))),
            params.changes@.len() == 1 ==> (final(self).doc.content@ == applied_content(
                old(self).doc.content@,
                params.changes@[0],
            ) && change_reconciled(
                old(self).doc.positions@,
                old(self).doc.content@,
                params.changes@[0],
                final(self).doc.positions@,
                final(self).doc.content@,
                events@,
                old(self).doc.id_generator.spec_next_id() as int,
                final(self).doc.id_generator.spec_next_id() as int,
            )),
    {
        let events = self.doc.apply_file_change(params);
        let ghost doc0 = self.doc;
        let n = events.len();
        let mut i: usize = 0;
        while i < n
            invariant
                i <= n,
                n == events@.len(),
                self.doc == doc0,
                self.doc.wf(),
                self.ast_db.wf(),
                self.cst_db.wf(),
                self.sql_fn_db.wf(),
                self.annotation_db.wf(),
                forall|k: int|
                    0 <= k < events@.len() ==> ((#[trigger] events@[k]).removed_id() matches Some(
                        id,
                    ) ==> id.is_root()),
                forall|k: int|
                    0 <= k < events@.len() ==> ((#[trigger] events@[k]).inserted_id() matches Some(
                        id,
                    ) ==> id.is_root()),
                forall|i2: int, j2: int|
                    #![trigger events@[i2], events@[j2]]
                    0 <= i2 < j2 < events@.len() ==> (events@[j2].inserted_id() matches Some(id)
                        ==> (events@[i2].removed_id() matches Some(id2) ==> id != id2)),
                forall|k: int|
                    0 <= k < events@.len() ==> ((#[trigger] events@[k]) matches
                        StatementChange::Modified(m) ==> m.new_stmt != m.old_stmt),
                forall|k: int|
                    0 <= k < i ==> ((#[trigger] events@[k]).removed_id() matches Some(id) ==> (
                    self.absent_everywhere(id) && self.absent_everywhere(id.spec_child()))),
            decreases n - i,
        {
            let event = &events[i];
            match event {
                StatementChange::Added(added) => {
                    self.cst_db.add_statement(&added.stmt, added.text.as_str());
                },
                StatementChange::Deleted(s) => {
                    self.cst_db.remove_statement(s);
                    self.ast_db.clear_statement(s);
                    self.sql_fn_db.clear_statement(s);
                    self.annotation_db.clear_statement(s);
                },
                StatementChange::Modified(s) => {
                    self.cst_db.modify_statement(s);
                    self.ast_db.clear_statement(&s.old_stmt);
                    self.sql_fn_db.clear_statement(&s.old_stmt);
                    self.annotation_db.clear_statement(&s.old_stmt);
                },
            }
            i = i + 1;
        }
        events
    }

    /// The statements a filter selects, in source order, each root followed
    /// immediately by its discovered child, as identity, document range and
    /// text.
    ///
    /// The result is exactly the traversal of the whole statement list: for
    /// each position in order, its root (with the document text at its
    /// range) when the filter accepts it, then — when that root's summary
    /// carries a discovered embedded body — the child, under the root's
    /// child identity and a range inside the root's, when the filter
    /// accepts it.
    pub fn selected_statements<F: StatementFilter>(&mut self, filter: &F) -> (r: Vec<
        (StatementId, TextRange, String),
    >)
        requires
            old(self).wf(),
        ensures
            final(self).wf(),
            final(self).doc == old(self).doc,
            forall|j: int|
                0 <= j < r@.len() ==> filter.spec_pred(
                    (#[trigger] r@[j]).0,
                    r@[j].1,
                    r@[j].2@,
                ),
            exists|childs: Seq<Option<(StatementId, TextRange, Seq<char>)>>|
                {
                    &&& childs.len() == final(self).doc.positions@.len()
                    &&& child_slots_ok(childs, final(self).doc.positions@)
                    &&& item_views(r@) == #[trigger] spec_selected_upto(
                        *filter,
                        final(self).doc.positions@,
                        final(self).doc.content@,
                        childs,
                        final(self).doc.positions@.len() as int,
                    )
                },
    {
        let ghost doc0 = self.doc;
        let ghost mut childs_g: Seq<Option<(StatementId, TextRange, Seq<char>)>> = Seq::empty();
        let mut out: Vec<(StatementId, TextRange, String)> = Vec::new();
        let n = self.doc.statement_count();
        let mut i: usize = 0;
        while i < n
            invariant
                i <= n,
                self.wf(),
                self.doc == doc0,
                n == self.doc.positions@.len(),
                childs_g.len() == i,
                child_slots_ok(childs_g, doc0.positions@),
                item_views(out@) == spec_selected_upto(
                    *filter,
                    doc0.positions@,
                    doc0.content@,
                    childs_g,
                    i as int,
                ),
                forall|j: int|
                    0 <= j < out@.len() ==> filter.spec_pred(
                        (#[trigger] out@[j]).0,
                        out@[j].1,
                        out@[j].2@,
                    ),
            decreases n - i,
        {
            let (root_id, range, content) = self.doc.statement_at(i);
            // Discover an embedded body first, so the child can follow its
            // root immediately.
            let mut child: Option<(StatementId, TextRange, String)> = None;
            let ast_result = self.ast_db.get_or_cache_ast(&root_id, content.as_str());
            match &*ast_result {
                Ok(ast) => {
                    let found = self.sql_fn_db.get_function_body(&root_id, ast, content.as_str());
                    match found {
                        Some(sub) => {
                            proof {
                                assert(self.doc.positions@[i as int].0.is_root());
                                assert(self.doc.spec_ranges()[i as int]
                                    == self.doc.positions@[i as int].1);
                            }
                            let child_id = root_id.create_child();
                            if sub.range.start <= sub.range.end && sub.range.end <= range.end
                                - range.start && range.start <= usize::MAX - sub.range.end {
                                let child_range = sub.range.shift_right(range.start);
                                child = Some((child_id, child_range, sub.body.clone()));
                            }
                        },
                        None => {},
                    }
                },
                Err(_) => {},
            }
            let ghost childs_prev = childs_g;
            if filter.predicate(&root_id, &range, content.as_str()) {
                out.push((root_id, range, content));
            }
            match child {
                Some((cid, crange, cbody)) => {
                    proof {
                        childs_g = childs_g.push(Some((cid, crange, cbody@)));
                    }
                    if filter.predicate(&cid, &crange, cbody.as_str()) {
                        out.push((cid, crange, cbody));
                    }
                },
                None => {
                    proof {
                        childs_g = childs_g.push(None);
                    }
                },
            }
            proof {
                lemma_selected_upto_slots(
                    *filter,
                    doc0.positions@,
                    doc0.content@,
                    childs_prev,
                    childs_g,
                    i as int,
                );
                assert(item_views(out@) =~= spec_selected_upto(
                    *filter,
                    doc0.positions@,
                    doc0.content@,
                    childs_g,
                    i as int + 1,
                ));
            }
            i = i + 1;
        }
        out
    }

    /// Visits the selected statements in order and maps each one: the
    /// outputs are the mapper's images of exactly the statements a
    /// traversal with this filter yields, in that order.
    pub fn iter_with_filter<M: StatementMapper, F: StatementFilter>(
        &mut self,
        mapper: M,
        filter: F,
    ) -> (r: Vec<M::Output>)
        requires
            old(self).wf(),
        ensures
            final(self).wf(),
            exists|childs: Seq<Option<(StatementId, TextRange, Seq<char>)>>|
                {
                    &&& childs.len() == old(self).doc.positions@.len()
                    &&& child_slots_ok(childs, old(self).doc.positions@)
                    &&& r@.len() == #[trigger] spec_selected_upto(
                        filter,
                        old(self).doc.positions@,
                        old(self).doc.content@,
                        childs,
                        old(self).doc.positions@.len() as int,
                    ).len()
                },
    {
        let selected = self.selected_statements(&filter);
        let mut out: Vec<M::Output> = Vec::new();
        let n = selected.len();
        let mut i: usize = 0;
        while i < n
            invariant
                i <= n,
                n == selected@.len(),
                out@.len() == i,
                self.wf(),
            decreases n - i,
        {
            let id = selected[i].0;
            let range = selected[i].1;
            let output = mapper.map(self, id, range, selected[i].2.as_str());
            out.push(output);
            i = i + 1;
        }
        proof {
            let childs = choose|childs: Seq<Option<(StatementId, TextRange, Seq<char>)>>|
                {
                    &&& childs.len() == old(self).doc.positions@.len()
                    &&& child_slots_ok(childs, old(self).doc.positions@)
                    &&& item_views(selected@) == #[trigger] spec_selected_upto(
                        filter,
                        old(self).doc.positions@,
                        old(self).doc.content@,
                        childs,
                        old(self).doc.positions@.len() as int,
                    )
                };
            assert(item_views(selected@).len() == selected@.len());
        }
        out
    }

    /// Visits every statement, including discovered children.
    pub fn iter<M: StatementMapper>(&mut self, mapper: M) -> (r: Vec<M::Output>)
        requires
            old(self).wf(),
        ensures
            final(self).wf(),
    {
        self.iter_with_filter(mapper, NoFilter)
    }

    /// Maps the statement with the given identity, if it is visited:
    /// something is found whenever a statement of the document carries the
    /// identity, and anything found carries the identity of a statement of
    /// the document or of its child.
    pub fn find<M: StatementMapper>(&mut self, id: StatementId, mapper: M) -> (r: Option<
        M::Output,
    >)
        requires
            old(self).wf(),
        ensures
            final(self).wf(),
            (exists|i: int|
                0 <= i < old(self).doc.positions@.len() && (#[trigger] old(
                    self,
                ).doc.positions@[i]).0 == id) ==> r is Some,
            r is Some ==> exists|i: int|
                0 <= i < old(self).doc.positions@.len() && ((#[trigger] old(
                    self,
                ).doc.positions@[i]).0 == id || old(self).doc.positions@[i].0.spec_child() == id),
    {
        let filter = IdFilter::new(id);
        let mut selected = self.selected_statements(&filter);
        proof {
            let childs = choose|childs: Seq<Option<(StatementId, TextRange, Seq<char>)>>|
                {
                    &&& childs.len() == self.doc.positions@.len()
                    &&& child_slots_ok(childs, self.doc.positions@)
                    &&& item_views(selected@) == #[trigger] spec_selected_upto(
                        filter,
                        self.doc.positions@,
                        self.doc.content@,
                        childs,
                        self.doc.positions@.len() as int,
                    )
                };
            let upto = self.doc.positions@.len() as int;
            if exists|i: int|
                0 <= i < self.doc.positions@.len() && (#[trigger] self.doc.positions@[i]).0
                    == id {
                let i = choose|i: int|
                    0 <= i < self.doc.positions@.len() && (#[trigger] self.doc.positions@[i]).0
                        == id;
                lemma_selected_nonempty(
                    filter,
                    self.doc.positions@,
                    self.doc.content@,
                    childs,
                    i,
                    upto,
                );
            }
            if selected@.len() > 0 {
                lemma_selected_ids(filter, self.doc.positions@, self.doc.content@, childs, upto);
                assert(item_views(selected@)[0].0 == selected@[0].0);
            }
        }
        if selected.len() == 0 {
            None
        } else {
            let (sid, srange, stext) = selected.remove(0);
            Some(mapper.map(self, sid, srange, stext.as_str()))
        }
    }

    /// The number of visited statements, discovered children included.
    pub fn count(&mut self) -> (r: usize)
        requires
            old(self).wf(),
        ensures
            final(self).wf(),
            r >= old(self).doc.positions@.len(),
            r <= 2 * old(self).doc.positions@.len(),
    {
        let selected = self.selected_statements(&NoFilter);
        proof {
            let childs = choose|childs: Seq<Option<(StatementId, TextRange, Seq<char>)>>|
                {
                    &&& childs.len() == self.doc.positions@.len()
                    &&& child_slots_ok(childs, self.doc.positions@)
                    &&& item_views(selected@) == #[trigger] spec_selected_upto(
                        NoFilter,
                        self.doc.positions@,
                        self.doc.content@,
                        childs,
                        self.doc.positions@.len() as int,
                    )
                };
            lemma_selected_count_bounds(
                NoFilter,
                self.doc.positions@,
                self.doc.content@,
                childs,
                self.doc.positions@.len() as int,
            );
        }
        selected.len()
    }
}

/// Projects a statement into its identity, range and text.
pub struct DefaultMapper;

impl StatementMapper for DefaultMapper {
    type Output = (StatementId, TextRange, String);

    fn map(
        &self,
        parsed: &mut ParsedDocument,
        id: StatementId,
        range: TextRange,
        content: &str,
    ) -> Self::Output {
        (id, range, content.to_owned())
    }
}

/// Projects a statement into what executing it needs: its text and, when
/// its summary parsed, the summary.
pub struct ExecuteStatementMapper;

impl StatementMapper for ExecuteStatementMapper {
    type Output = (StatementId, TextRange, String, Option<SqlAst>);

    fn map(
        &self,
        parsed: &mut ParsedDocument,
        id: StatementId,
        range: TextRange,
        content: &str,
    ) -> Self::Output {
        let ast_result = parsed.ast_db.get_or_cache_ast(&id, content);
        let ast_option = match &*ast_result {
            Ok(ast) => Some(ast.cloned()),
            Err(_) => None,
        };
        (id, range, content.to_owned(), ast_option)
    }
}

/// Projects a statement into what a slow diagnostics pass needs: its text,
/// its summary when it parsed, and its concrete tree.
pub struct AsyncDiagnosticsMapper;

impl StatementMapper for AsyncDiagnosticsMapper {
    type Output = (StatementId, TextRange, String, Option<SqlAst>, Arc<SyntaxTree>);

    fn map(
        &self,
        parsed: &mut ParsedDocument,
        id: StatementId,
        range: TextRange,
        content: &str,
    ) -> Self::Output {
        let ast_result = parsed.ast_db.get_or_cache_ast(&id, content);
        let ast_option = match &*ast_result {
            Ok(ast) => Some(ast.cloned()),
            Err(_) => None,
        };
        let cst_result = parsed.cst_db.get_or_cache_tree(&id, content);
        (id, range, content.to_owned(), ast_option, cst_result)
    }
}

/// Projects a statement into what a fast diagnostics pass needs: its
/// summary or the syntax diagnostic that took its place.
pub struct SyncDiagnosticsMapper;

impl StatementMapper for SyncDiagnosticsMapper {
    type Output = (StatementId, TextRange, Option<SqlAst>, Option<SyntaxDiagnostic>);

    fn map(
        &self,
        parsed: &mut ParsedDocument,
        id: StatementId,
        range: TextRange,
        content: &str,
    ) -> Self::Output {
        let ast_result = parsed.ast_db.get_or_cache_ast(&id, content);
        let (ast_option, diagnostics) = match &*ast_result {
            Ok(ast) => (Some(ast.cloned()), None),
            Err(diag) => (None, Some(diag.clone())),
        };
        (id, range, ast_option, diagnostics)
    }
}

/// Projects a statement into what completion needs: its text and concrete
/// tree.
pub struct GetCompletionsMapper;

impl StatementMapper for GetCompletionsMapper {
    type Output = (StatementId, TextRange, String, Arc<SyntaxTree>);

    fn map(
        &self,
        parsed: &mut ParsedDocument,
        id: StatementId,
        range: TextRange,
        content: &str,
    ) -> Self::Output {
        let tree = parsed.cst_db.get_or_cache_tree(&id, content);
        (id, range, content.to_owned(), tree)
    }
}

/// Selects every statement.
pub struct NoFilter;

impl StatementFilter for NoFilter {
    open spec fn spec_pred(&self, id: StatementId, range: TextRange, content: Seq<char>) -> bool {
        true
    }

    fn predicate(&self, id: &StatementId, range: &TextRange, content: &str) -> (r: bool) {
        true
    }
}

/// Selects the statement whose range holds the cursor.
pub struct CursorPositionFilter {
    pub pos: usize,
}

impl CursorPositionFilter {
    pub fn new(pos: usize) -> (r: CursorPositionFilter)
        ensures
            r.pos == pos,
    {
        Self { pos }
    }
}

impl StatementFilter for CursorPositionFilter {
    open spec fn spec_pred(&self, id: StatementId, range: TextRange, content: Seq<char>) -> bool {
        range.spec_contains(self.pos as int)
    }

    fn predicate(&self, id: &StatementId, range: &TextRange, content: &str) -> (r: bool) {
        range.contains(self.pos)
    }
}

/// Selects one statement by identity.
pub struct IdFilter {
    pub id: StatementId,
}

impl IdFilter {
    pub fn new(id: StatementId) -> (r: IdFilter)
        ensures
            r.id == id,
    {
        Self { id }
    }
}

impl StatementFilter for IdFilter {
    open spec fn spec_pred(&self, id: StatementId, range: TextRange, content: Seq<char>) -> bool {
        id == self.id
    }

    fn predicate(&self, id: &StatementId, range: &TextRange, content: &str) -> (r: bool) {
        *id == self.id
    }
}

/// Selects the statement the cursor touches, allowing a small slack window
/// past an unterminated statement so that the next token can still be
/// suggested; a statement already terminated by a semicolon gets no slack.
pub struct GetCompletionsFilter {
    pub cursor_position: usize,
}

impl StatementFilter for GetCompletionsFilter {
    open spec fn spec_pred(&self, id: StatementId, range: TextRange, content: Seq<char>) -> bool {
        if content.len() > 0 && content[content.len() - 1] == ';' {
            range.spec_contains(self.cursor_position as int)
        } else {
            range.start <= self.cursor_position && (self.cursor_position as int) < range.end + 2
        }
    }

    fn predicate(&self, id: &StatementId, range: &TextRange, content: &str) -> (r: bool) {
        let len = content.unicode_len();
        let terminated = len > 0 && content.get_char(len - 1) == ';';
        let pos = self.cursor_position;
        if terminated {
            range.contains(pos)
        } else {
            range.start <= pos && (pos <= 1 || pos - 2 < range.end)
        }
    }
}

} // verus!
