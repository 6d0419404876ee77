//! The change engine: incremental reconciliation of a document with an
//! edit.
//!
//! An edit replaces one character range with new text. The engine re-splits
//! the new content and reconciles the old and new statement lists by
//! position: statements untouched before the edit keep their identity and
//! range; statements untouched after it keep their identity with their
//! range shifted by the edit's length delta; statements overlapping the
//! edited region are reported as `Modified` under a fresh identity, and
//! leftovers on either side become `Added` or `Deleted`. Matching is
//! positional, not content-aware: a statement moved to a different position
//! is observed as a deletion plus an addition, never as a move.

use vstd::prelude::*;

use crate::document::{split_with_diagnostics, Document, StatementPos};
use crate::splitter::ranges_ordered_disjoint;
use crate::statement_identifier::{RootId, StatementId, StatementIdGenerator};
use crate::text_range::TextRange;

verus! {

/// One edit: the character range it replaces (`None` replaces the whole
/// document) and the text that takes its place.
#[derive(Debug, Clone)]
pub struct ChangeParams {
    pub range: Option<TextRange>,
    pub text: String,
}

/// An edit notification: the new version and the changes to apply in
/// order, each relative to the text left by the previous one.
#[derive(Debug, Clone)]
pub struct ChangeFileParams {
    pub version: i32,
    pub changes: Vec<ChangeParams>,
}

/// A statement that appeared where no prior statement stood.
#[derive(Debug, Clone)]
pub struct AddedStatement {
    pub stmt: StatementId,
    pub text: String,
}

/// A statement that overlapped the edited region: its prior and fresh
/// identities, its old and new text, and the smallest patch that turns the
/// old text into the new one.
#[derive(Debug, Clone)]
pub struct ModifiedStatement {
    pub old_stmt: StatementId,
    pub new_stmt: StatementId,
    pub old_stmt_text: String,
    pub new_stmt_text: String,
    /// The patched range, relative to the statement's own start.
    pub change_range: TextRange,
    /// The text that replaces `change_range` within the old text.
    pub change_text: String,
}

/// One reconciliation event, produced transiently by an edit.
#[derive(Debug, Clone)]
pub enum StatementChange {
    Added(AddedStatement),
    Deleted(StatementId),
    Modified(ModifiedStatement),
}

impl StatementChange {
    /// The root identity the event removes from caches, if any.
    pub open spec fn removed_id(self) -> Option<StatementId> {
        match self {
            StatementChange::Added(_) => None,
            StatementChange::Deleted(id) => Some(id),
            StatementChange::Modified(m) => Some(m.old_stmt),
        }
    }

    /// The root identity the event introduces, if any.
    pub open spec fn inserted_id(self) -> Option<StatementId> {
        match self {
            StatementChange::Added(a) => Some(a.stmt),
            StatementChange::Deleted(_) => None,
            StatementChange::Modified(m) => Some(m.new_stmt),
        }
    }
}

/// The document text after replacing `[r.start, r.end)` with `t`.
pub open spec fn spec_splice(doc: Seq<char>, r: TextRange, t: Seq<char>) -> Seq<char> {
    doc.subrange(0, r.start as int) + t + doc.subrange(r.end as int, doc.len() as int)
}

/// Replaces `range` within `content` by `text`.
pub fn splice(content: &str, range: TextRange, text: &str) -> (r: String)
    requires
        range.wf(),
        range.end <= content@.len(),
    ensures
        r@ == spec_splice(content@, range, text@),
{
    let total = content.unicode_len();
    let mut out = content.substring_char(0, range.start).to_owned();
    out.append(text);
    out.append(content.substring_char(range.end, total));
    proof {
        assert(out@ =~= spec_splice(content@, range, text@));
    }
    out
}

/// Computes the smallest single-range patch between two texts: a range of
/// the old text and replacement text such that splicing them into the old
/// text yields the new text.
pub fn compute_diff(old_text: &str, new_text: &str) -> (r: (TextRange, String))
    ensures
        r.0.wf(),
        r.0.end <= old_text@.len(),
        spec_splice(old_text@, r.0, r.1@) == new_text@,
{
    let olen = old_text.unicode_len();
    let nlen = new_text.unicode_len();
    let min = if olen < nlen {
        olen
    } else {
        nlen
    };
    // Longest common prefix.
    let mut p: usize = 0;
    while p < min && old_text.get_char(p) == new_text.get_char(p)
        invariant
            p <= min,
            min <= olen,
            min <= nlen,
            olen == old_text@.len(),
            nlen == new_text@.len(),
            forall|k: int| 0 <= k < p ==> old_text@[k] == new_text@[k],
        decreases min - p,
    {
        p = p + 1;
    }
    // Longest common suffix of the remainders.
    let mut s: usize = 0;
    while s < min - p && old_text.get_char(olen - 1 - s) == new_text.get_char(nlen - 1 - s)
        invariant
            p <= min,
            s <= min - p,
            min <= olen,
            min <= nlen,
            olen == old_text@.len(),
            nlen == new_text@.len(),
            forall|k: int|
                olen - s <= k < olen ==> #[trigger] old_text@[k] == new_text@[k - olen + nlen],
            forall|k: int| 0 <= k < p ==> old_text@[k] == new_text@[k],
        decreases min - p - s,
    {
        s = s + 1;
    }
    let range = TextRange { start: p, end: olen - s };
    let change = new_text.substring_char(p, nlen - s).to_owned();
    proof {
        assert(spec_splice(old_text@, range, change@) =~= new_text@);
    }
    (range, change)
}

} // verus!

verus! {

/// The text of range `r` within document `doc`.
pub open spec fn range_text(doc: Seq<char>, r: TextRange) -> Seq<char> {
    doc.subrange(r.start as int, r.end as int)
}

/// The statement text of range `r` within `content`, as an owned string.
pub fn range_text_of(content: &str, r: TextRange) -> (t: String)
    requires
        r.wf(),
        r.end <= content@.len(),
    ensures
        t@ == range_text(content@, r),
{
    content.substring_char(r.start, r.end).to_owned()
}

/// Old statement `i` is an untouched prefix statement with respect to an
/// edit beginning at `a`: it ends at or before the edit and the new range
/// list holds the identical range at the same list position. Because the
/// text before `a` is unchanged by the edit, such a statement's text is
/// unchanged too.
pub open spec fn prefix_match(
    olds: Seq<StatementPos>,
    news: Seq<TextRange>,
    a: int,
    i: int,
) -> bool {
    &&& olds[i].1.end <= a
    &&& news[i] == olds[i].1
}

/// Old statement `oi` is an untouched suffix statement reappearing as new
/// range `ni`: it starts at or after the edit's old end `b` and reappears
/// with the same length, shifted by the edit's length delta. Because the
/// text from `b` on is unchanged by the edit, its text is unchanged too.
pub open spec fn suffix_match(
    olds: Seq<StatementPos>,
    news: Seq<TextRange>,
    a: int,
    b: int,
    l: int,
    oi: int,
    ni: int,
) -> bool {
    &&& olds[oi].1.start >= b
    &&& news[ni].start - (a + l) == olds[oi].1.start - b
    &&& news[ni].end - news[ni].start == olds[oi].1.end - olds[oi].1.start
}

/// The `Modified` events stand first in the event list: one per paired
/// middle statement, in order, carrying both texts and a patch that turns
/// the old text into the new one.
pub open spec fn modified_events_ok(
    events: Seq<StatementChange>,
    olds: Seq<StatementPos>,
    news: Seq<TextRange>,
    res: Seq<StatementPos>,
    oldc: Seq<char>,
    newc: Seq<char>,
    np: int,
    m: int,
) -> bool {
    forall|k: int|
        0 <= k < m ==> ((#[trigger] events[k]) matches StatementChange::Modified(mm)
            && mm.old_stmt == olds[np + k].0 && mm.new_stmt == res[np + k].0 && mm.old_stmt_text@
            == range_text(oldc, olds[np + k].1) && mm.new_stmt_text@ == range_text(
            newc,
            news[np + k],
        ) && mm.change_range.wf() && mm.change_range.end <= mm.old_stmt_text@.len()
            && spec_splice(mm.old_stmt_text@, mm.change_range, mm.change_text@)
            == mm.new_stmt_text@)
}

/// The `Added` events follow: one per surplus new range, in order.
pub open spec fn added_events_ok(
    events: Seq<StatementChange>,
    news: Seq<TextRange>,
    res: Seq<StatementPos>,
    newc: Seq<char>,
    np: int,
    m: int,
    nm: int,
) -> bool {
    forall|k: int|
        m <= k < nm ==> ((#[trigger] events[k]) matches StatementChange::Added(aa) && aa.stmt
            == res[np + k].0 && aa.text@ == range_text(newc, news[np + k]))
}

/// The `Deleted` events close the list: one per surplus old statement, in
/// order.
pub open spec fn deleted_events_ok(
    events: Seq<StatementChange>,
    olds: Seq<StatementPos>,
    np: int,
    m: int,
    nm: int,
    cnt: int,
) -> bool {
    forall|k: int|
        nm <= k < nm + cnt ==> (#[trigger] events[k]) == StatementChange::Deleted(
            olds[np + m + (k - nm)].0,
        )
}

/// The identities of the reconciled statement list: kept old identities
/// before and after the edit, fresh consecutive identities in between.
pub open spec fn res_ids_ok(
    olds: Seq<StatementPos>,
    news: Seq<TextRange>,
    res: Seq<StatementPos>,
    next0: int,
    np: int,
    ns: int,
) -> bool {
    let olen = olds.len() as int;
    let nlen = news.len() as int;
    &&& res.len() == nlen
    &&& forall|i: int| 0 <= i < nlen ==> (#[trigger] res[i]).1 == news[i]
    &&& forall|i: int| 0 <= i < np ==> (#[trigger] res[i]).0 == olds[i].0
    &&& forall|i: int| nlen - ns <= i < nlen ==> (#[trigger] res[i]).0 == olds[i + olen - nlen].0
    &&& forall|i: int|
        np <= i < nlen - ns ==> (#[trigger] res[i]).0 == StatementId::Root(
            RootId { inner: (next0 + i - np) as usize },
        )
}

/// The full description of what `reconcile` computes, for a greedy prefix
/// length `np` and greedy suffix length `ns`.
pub open spec fn reconcile_post(
    olds: Seq<StatementPos>,
    news: Seq<TextRange>,
    oldc: Seq<char>,
    newc: Seq<char>,
    a: int,
    b: int,
    l: int,
    next0: int,
    res: Seq<StatementPos>,
    events: Seq<StatementChange>,
    next1: int,
    np: int,
    ns: int,
) -> bool {
    let olen = olds.len() as int;
    let nlen = news.len() as int;
    let lim = if olen < nlen {
        olen
    } else {
        nlen
    };
    let om = olen - np - ns;
    let nm = nlen - np - ns;
    let m = if om < nm {
        om
    } else {
        nm
    };
    &&& 0 <= np
    &&& 0 <= ns
    &&& np + ns <= lim
    &&& forall|i: int| 0 <= i < np ==> prefix_match(olds, news, a, i)
    &&& (np == lim || !prefix_match(olds, news, a, np))
    &&& forall|oi: int, ni: int|
        olen - ns <= oi < olen && ni == oi + nlen - olen ==> #[trigger] suffix_match(
            olds,
            news,
            a,
            b,
            l,
            oi,
            ni,
        )
    &&& (np + ns == lim || !suffix_match(olds, news, a, b, l, olen - 1 - ns, nlen - 1 - ns))
    &&& res_ids_ok(olds, news, res, next0, np, ns)
    &&& next1 == next0 + nm
    &&& events.len() == nm + om - m
    &&& modified_events_ok(events, olds, news, res, oldc, newc, np, m)
    &&& added_events_ok(events, news, res, newc, np, m, nm)
    &&& deleted_events_ok(events, olds, np, m, nm, om - m)
}

/// What `reconcile` guarantees: for some greedy prefix and suffix length,
/// the result and events are exactly as `reconcile_post` describes.
pub open spec fn reconcile_spec(
    olds: Seq<StatementPos>,
    news: Seq<TextRange>,
    oldc: Seq<char>,
    newc: Seq<char>,
    a: int,
    b: int,
    l: int,
    next0: int,
    res: Seq<StatementPos>,
    events: Seq<StatementChange>,
    next1: int,
) -> bool {
    exists|np: int, ns: int|
        reconcile_post(olds, news, oldc, newc, a, b, l, next0, res, events, next1, np, ns)
}

/// Reconciles the old statement list with the re-split ranges of the new
/// content after one edit that replaced `[a, b)` of the old content with
/// `l` characters.
///
/// Matching is positional: a greedy pass keeps identities of identical
/// statements before the edit, a greedy backward pass keeps identities of
/// shifted statements after it, and the statements in between are paired
/// in order as `Modified` (with fresh identities), with surplus new ranges
/// `Added` and surplus old statements `Deleted`.
pub fn reconcile(
    olds: &Vec<StatementPos>,
    old_content: &str,
    news: &Vec<TextRange>,
    new_content: &str,
    a: usize,
    b: usize,
    l: usize,
    gen: &mut StatementIdGenerator,
) -> (r: (Vec<StatementPos>, Vec<StatementChange>))
    requires
        a <= b <= old_content@.len(),
        new_content@.len() == old_content@.len() - (b - a) + l,
        ranges_ordered_disjoint(news@, new_content@.len() as int),
        forall|i: int|
            0 <= i < olds@.len() ==> (#[trigger] olds@[i]).1.start <= olds@[i].1.end
                && olds@[i].1.end <= old_content@.len(),
        forall|i: int| 0 <= i < olds@.len() ==> (#[trigger] olds@[i]).0.is_root(),
        forall|i: int|
            0 <= i < olds@.len() ==> (#[trigger] olds@[i]).0.spec_raw() < old(
                gen,
            ).spec_next_id(),
        forall|i: int, j: int|
            #![trigger olds@[i], olds@[j]]
            0 <= i < j < olds@.len() ==> olds@[i].0 != olds@[j].0,
        old(gen).spec_next_id() + news@.len() <= usize::MAX,
    ensures
        reconcile_spec(
            olds@,
            news@,
            old_content@,
            new_content@,
            a as int,
            b as int,
            l as int,
            old(gen).spec_next_id() as int,
            r.0@,
            r.1@,
            final(gen).spec_next_id() as int,
        ),
        final(gen).spec_next_id() >= old(gen).spec_next_id(),
        final(gen).spec_next_id() <= old(gen).spec_next_id() + news@.len(),
        r.0@.len() == news@.len(),
        forall|i: int| 0 <= i < r.0@.len() ==> (#[trigger] r.0@[i]).1 == news@[i],
        forall|i: int| 0 <= i < r.0@.len() ==> (#[trigger] r.0@[i]).0.is_root(),
        forall|i: int|
            0 <= i < r.0@.len() ==> (#[trigger] r.0@[i]).0.spec_raw() < final(gen).spec_next_id(),
        forall|i: int, j: int|
            #![trigger r.0@[i], r.0@[j]]
            0 <= i < j < r.0@.len() ==> r.0@[i].0 != r.0@[j].0,
        forall|k: int|
            0 <= k < r.1@.len() ==> ((#[trigger] r.1@[k]).removed_id() matches Some(id) ==> (
            id.is_root() && id.spec_raw() < old(gen).spec_next_id())),
        forall|k: int|
            0 <= k < r.1@.len() ==> ((#[trigger] r.1@[k]).inserted_id() matches Some(id) ==> (
            id.is_root() && old(gen).spec_next_id() <= id.spec_raw() && id.spec_raw() < final(gen).spec_next_id())),
{
    let olen = olds.len();
    let nlen = news.len();
    let new_total = new_content.unicode_len();
    let lim = if olen < nlen {
        olen
    } else {
        nlen
    };
    let ghost next0 = gen.spec_next_id() as int;

    // Greedy prefix of untouched statements before the edit.
    let mut np: usize = 0;
    while np < lim && olds[np].1.end <= a && news[np] == olds[np].1
        invariant
            np <= lim,
            lim <= olen,
            lim <= nlen,
            olen == olds@.len(),
            nlen == news@.len(),
            forall|i: int| 0 <= i < np ==> prefix_match(olds@, news@, a as int, i),
        decreases lim - np,
    {
        np = np + 1;
    }

    // Greedy suffix of shifted statements after the edit.
    let mut ns: usize = 0;
    loop
        invariant
            np <= lim,
            ns <= lim - np,
            lim <= olen,
            lim <= nlen,
            olen == olds@.len(),
            nlen == news@.len(),
            a <= b <= old_content@.len(),
            new_total == new_content@.len(),
            new_content@.len() == old_content@.len() - (b - a) + l,
            ranges_ordered_disjoint(news@, new_content@.len() as int),
            forall|i: int|
                0 <= i < olds@.len() ==> (#[trigger] olds@[i]).1.start <= olds@[i].1.end
                    && olds@[i].1.end <= old_content@.len(),
            forall|oi: int, ni: int|
                olen - ns <= oi < olen && ni == oi + nlen - olen ==> #[trigger] suffix_match(
                    olds@,
                    news@,
                    a as int,
                    b as int,
                    l as int,
                    oi,
                    ni,
                ),
        ensures
            ns <= lim - np,
            forall|oi: int, ni: int|
                olen - ns <= oi < olen && ni == oi + nlen - olen ==> #[trigger] suffix_match(
                    olds@,
                    news@,
                    a as int,
                    b as int,
                    l as int,
                    oi,
                    ni,
                ),
            np + ns == lim || !suffix_match(
                olds@,
                news@,
                a as int,
                b as int,
                l as int,
                olen - 1 - ns,
                nlen - 1 - ns,
            ),
        decreases lim - np - ns,
    {
        if ns >= lim - np {
            break;
        }
        let oi = olen - 1 - ns;
        let ni = nlen - 1 - ns;
        let o_range = olds[oi].1;
        let n_range = news[ni];
        proof {
            assert(a + l <= new_content@.len());
            assert(news@[ni as int].start < news@[ni as int].end);
        }
        let matches_here = o_range.start >= b && n_range.start >= a + l && n_range.start - (a + l)
            == o_range.start - b && o_range.end - o_range.start == n_range.end - n_range.start;
        if !matches_here {
            proof {
                if suffix_match(olds@, news@, a as int, b as int, l as int, oi as int, ni as int) {
                    assert(olds@[oi as int].1.start >= b);
                    assert(news@[ni as int].start - (a + l) == olds@[oi as int].1.start - (
                    b as int));
                    assert(news@[ni as int].start >= a + l);
                    assert(news@[ni as int].end - news@[ni as int].start == olds@[oi
                        as int].1.end - olds@[oi as int].1.start);
                    assert(false);
                }
            }
            break;
        }
        ns = ns + 1;
    }

    let om = olen - np - ns;
    let nm = nlen - np - ns;
    let m = if om < nm {
        om
    } else {
        nm
    };

    // The new statement list: kept identities around fresh middle ones.
    let mut res: Vec<StatementPos> = Vec::new();
    let mut i: usize = 0;
    while i < np
        invariant
            i <= np,
            np <= lim,
            lim <= olen,
            lim <= nlen,
            olen == olds@.len(),
            nlen == news@.len(),
            res@.len() == i,
            forall|k: int| 0 <= k < i ==> (#[trigger] res@[k]).1 == news@[k],
            forall|k: int| 0 <= k < i ==> (#[trigger] res@[k]).0 == olds@[k].0,
        decreases np - i,
    {
        res.push((olds[i].0, news[i]));
        i = i + 1;
    }
    let mut k: usize = 0;
    while k < nm
        invariant
            k <= nm,
            np + nm + ns == nlen,
            np + om + ns == olen,
            nlen == news@.len(),
            olen == olds@.len(),
            res@.len() == np + k,
            gen.spec_next_id() == next0 + k,
            next0 + nm <= usize::MAX,
            forall|j: int| 0 <= j < np ==> (#[trigger] res@[j]).1 == news@[j],
            forall|j: int| 0 <= j < np ==> (#[trigger] res@[j]).0 == olds@[j].0,
            forall|j: int| np <= j < np + k ==> (#[trigger] res@[j]).1 == news@[j],
            forall|j: int|
                np <= j < np + k ==> (#[trigger] res@[j]).0 == StatementId::Root(
                    RootId { inner: (next0 + j - np) as usize },
                ),
        decreases nm - k,
    {
        let id = gen.next();
        res.push((id, news[np + k]));
        k = k + 1;
    }
    let mut k2: usize = 0;
    while k2 < ns
        invariant
            k2 <= ns,
            np + nm + ns == nlen,
            np + om + ns == olen,
            nlen == news@.len(),
            olen == olds@.len(),
            res@.len() == np + nm + k2,
            forall|j: int| 0 <= j < np ==> (#[trigger] res@[j]).1 == news@[j],
            forall|j: int| 0 <= j < np ==> (#[trigger] res@[j]).0 == olds@[j].0,
            forall|j: int| np <= j < np + nm ==> (#[trigger] res@[j]).1 == news@[j],
            forall|j: int|
                np <= j < np + nm ==> (#[trigger] res@[j]).0 == StatementId::Root(
                    RootId { inner: (next0 + j - np) as usize },
                ),
            forall|j: int| np + nm <= j < np + nm + k2 ==> (#[trigger] res@[j]).1 == news@[j],
            forall|j: int|
                np + nm <= j < np + nm + k2 ==> (#[trigger] res@[j]).0 == olds@[j + olen
                    - nlen].0,
        decreases ns - k2,
    {
        res.push((olds[np + om + k2].0, news[np + nm + k2]));
        k2 = k2 + 1;
    }
    proof {
        assert(res_ids_ok(olds@, news@, res@, next0, np as int, ns as int));
    }

    // The events: modified pairs, then additions, then deletions.
    let mut events: Vec<StatementChange> = Vec::new();
    let mut e: usize = 0;
    while e < m
        invariant
            e <= m,
            m <= om,
            m <= nm,
            np + nm + ns == nlen,
            np + om + ns == olen,
            nlen == news@.len(),
            olen == olds@.len(),
            a <= b <= old_content@.len(),
            new_content@.len() == old_content@.len() - (b - a) + l,
            ranges_ordered_disjoint(news@, new_content@.len() as int),
            forall|i2: int|
                0 <= i2 < olds@.len() ==> (#[trigger] olds@[i2]).1.start <= olds@[i2].1.end
                    && olds@[i2].1.end <= old_content@.len(),
            res@.len() == nlen,
            res_ids_ok(olds@, news@, res@, next0, np as int, ns as int),
            events@.len() == e,
            modified_events_ok(
                events@,
                olds@,
                news@,
                res@,
                old_content@,
                new_content@,
                np as int,
                e as int,
            ),
        decreases m - e,
    {
        let old_text = range_text_of(old_content, olds[np + e].1);
        let new_text = range_text_of(new_content, news[np + e]);
        let (change_range, change_text) = compute_diff(old_text.as_str(), new_text.as_str());
        events.push(
            StatementChange::Modified(
                ModifiedStatement {
                    old_stmt: olds[np + e].0,
                    new_stmt: res[np + e].0,
                    old_stmt_text: old_text,
                    new_stmt_text: new_text,
                    change_range,
                    change_text,
                },
            ),
        );
        e = e + 1;
    }
    let mut e2: usize = 0;
    while e2 < nm - m
        invariant
            e2 <= nm - m,
            m <= om,
            m <= nm,
            np + nm + ns == nlen,
            np + om + ns == olen,
            nlen == news@.len(),
            olen == olds@.len(),
            ranges_ordered_disjoint(news@, new_content@.len() as int),
            res@.len() == nlen,
            res_ids_ok(olds@, news@, res@, next0, np as int, ns as int),
            events@.len() == m + e2,
            modified_events_ok(
                events@,
                olds@,
                news@,
                res@,
                old_content@,
                new_content@,
                np as int,
                m as int,
            ),
            added_events_ok(
                events@,
                news@,
                res@,
                new_content@,
                np as int,
                m as int,
                m + e2 as int,
            ),
        decreases nm - m - e2,
    {
        let idx = np + m + e2;
        let text = range_text_of(new_content, news[idx]);
        events.push(StatementChange::Added(AddedStatement { stmt: res[idx].0, text }));
        e2 = e2 + 1;
    }
    let mut e3: usize = 0;
    while e3 < om - m
        invariant
            e3 <= om - m,
            m <= om,
            m <= nm,
            np + nm + ns == nlen,
            np + om + ns == olen,
            nlen == news@.len(),
            olen == olds@.len(),
            res@.len() == nlen,
            res_ids_ok(olds@, news@, res@, next0, np as int, ns as int),
            events@.len() == nm + e3,
            modified_events_ok(
                events@,
                olds@,
                news@,
                res@,
                old_content@,
                new_content@,
                np as int,
                m as int,
            ),
            added_events_ok(events@, news@, res@, new_content@, np as int, m as int, nm as int),
            deleted_events_ok(events@, olds@, np as int, m as int, nm as int, e3 as int),
        decreases om - m - e3,
    {
        events.push(StatementChange::Deleted(olds[np + m + e3].0));
        e3 = e3 + 1;
    }

    proof {
        let npi = np as int;
        let nsi = ns as int;
        let olen_i = olds@.len() as int;
        let nlen_i = news@.len() as int;
        let nm_i = nlen_i - npi - nsi;
        let m_i = m as int;
        assert(reconcile_post(
            olds@,
            news@,
            old_content@,
            new_content@,
            a as int,
            b as int,
            l as int,
            next0,
            res@,
            events@,
            gen.spec_next_id() as int,
            npi,
            nsi,
        ));
        assert(reconcile_spec(
            olds@,
            news@,
            old_content@,
            new_content@,
            a as int,
            b as int,
            l as int,
            next0,
            res@,
            events@,
            gen.spec_next_id() as int,
        ));
        // Identities are roots, bounded, and pairwise distinct.
        assert forall|i2: int| 0 <= i2 < res@.len() implies (#[trigger] res@[i2]).0.is_root()
            && res@[i2].0.spec_raw() < gen.spec_next_id() by {
            if i2 < npi {
                assert(res@[i2].0 == olds@[i2].0);
            } else if i2 < nlen_i - nsi {
                assert(res@[i2].0 == StatementId::Root(
                    RootId { inner: (next0 + i2 - npi) as usize },
                ));
            } else {
                assert(res@[i2].0 == olds@[i2 + olen_i - nlen_i].0);
            }
        }
        assert forall|i2: int, j2: int| 0 <= i2 < j2 < res@.len() implies res@[i2].0 != res@[j2].0
            by {
            let oid = |x: int| res@[x].0;
            if i2 < npi {
                assert(res@[i2].0 == olds@[i2].0);
            } else if i2 < nlen_i - nsi {
                assert(res@[i2].0 == StatementId::Root(
                    RootId { inner: (next0 + i2 - npi) as usize },
                ));
            } else {
                assert(res@[i2].0 == olds@[i2 + olen_i - nlen_i].0);
            }
            if j2 < npi {
                assert(res@[j2].0 == olds@[j2].0);
            } else if j2 < nlen_i - nsi {
                assert(res@[j2].0 == StatementId::Root(
                    RootId { inner: (next0 + j2 - npi) as usize },
                ));
            } else {
                assert(res@[j2].0 == olds@[j2 + olen_i - nlen_i].0);
            }
        }
        // Event identities: removed ones are old, inserted ones are fresh.
        assert forall|k3: int| 0 <= k3 < events@.len() implies (((#[trigger] events@[k3]).removed_id()
            matches Some(id) ==> (id.is_root() && id.spec_raw() < next0)) && (events@[k3].inserted_id()
            matches Some(id) ==> (id.is_root() && next0 <= id.spec_raw() && id.spec_raw()
            < gen.spec_next_id()))) by {
            if k3 < m_i {
                assert(events@[k3] matches StatementChange::Modified(mm) && mm.old_stmt
                    == olds@[npi + k3].0 && mm.new_stmt == res@[npi + k3].0);
                assert(res@[npi + k3].0 == StatementId::Root(
                    RootId { inner: (next0 + k3) as usize },
                ));
            } else if k3 < nm_i {
                assert(events@[k3] matches StatementChange::Added(aa) && aa.stmt == res@[npi
                    + k3].0);
                assert(res@[npi + k3].0 == StatementId::Root(
                    RootId { inner: (next0 + k3) as usize },
                ));
            } else {
                assert(events@[k3] == StatementChange::Deleted(olds@[npi + m_i + (k3 - nm_i)].0));
            }
        }
    }
    (res, events)
}

} // verus!

verus! {

/// Whether one edit's range lies within a document of length `len`.
pub open spec fn change_in_bounds(len: int, c: ChangeParams) -> bool {
    match c.range {
        Some(r) => r.start <= r.end && r.end <= len,
        None => true,
    }
}

/// The length of a document of length `len` after applying `c`.
pub open spec fn spec_applied_len(len: int, c: ChangeParams) -> int {
    match c.range {
        Some(r) => len - (r.end - r.start) + c.text@.len(),
        None => c.text@.len() as int,
    }
}

/// Whether a sequence of edits is valid on a document of length `len`,
/// each edit's range interpreted against the text left by the previous
/// one.
pub open spec fn changes_valid(len: int, cs: Seq<ChangeParams>) -> bool
    decreases cs.len(),
{
    cs.len() == 0 || (change_in_bounds(len, cs[0]) && changes_valid(
        spec_applied_len(len, cs[0]),
        cs.drop_first(),
    ))
}

/// Whether the identity generator has room for every identity the edits
/// can allocate: each edit allocates at most one identity per character of
/// the text it leaves behind.
pub open spec fn budget_ok(next: int, len: int, cs: Seq<ChangeParams>) -> bool
    decreases cs.len(),
{
    cs.len() == 0 || {
        let l2 = spec_applied_len(len, cs[0]);
        next + l2 <= usize::MAX && budget_ok(next + l2, l2, cs.drop_first())
    }
}

/// A smaller starting counter keeps the identity budget satisfiable.
pub proof fn lemma_budget_mono(n1: int, n2: int, len: int, cs: Seq<ChangeParams>)
    requires
        budget_ok(n1, len, cs),
        n2 <= n1,
    ensures
        budget_ok(n2, len, cs),
    decreases cs.len(),
{
    if cs.len() > 0 {
        let l2 = spec_applied_len(len, cs[0]);
        lemma_budget_mono(n1 + l2, n2 + l2, l2, cs.drop_first());
    }
}

/// The edit one change performs on a document of length `old_len`: start,
/// old end, and the length of the inserted text.
pub open spec fn applied_edit(c: ChangeParams, old_len: int) -> (int, int, int) {
    match c.range {
        Some(r) => (r.start as int, r.end as int, c.text@.len() as int),
        None => (0, old_len, c.text@.len() as int),
    }
}

/// The document text one change leaves behind.
pub open spec fn applied_content(old: Seq<char>, c: ChangeParams) -> Seq<char> {
    match c.range {
        Some(r) => spec_splice(old, r, c.text@),
        None => c.text@,
    }
}

/// One change was reconciled: the new statement list and the events are
/// exactly the greedy positional reconciliation of the old list against the
/// ordered disjoint ranges the re-split produced for the new content (the
/// new list carries those ranges).
pub open spec fn change_reconciled(
    old_positions: Seq<StatementPos>,
    old_content: Seq<char>,
    c: ChangeParams,
    new_positions: Seq<StatementPos>,
    new_content: Seq<char>,
    events: Seq<StatementChange>,
    next0: int,
    next1: int,
) -> bool {
    let e = applied_edit(c, old_content.len() as int);
    exists|news: Seq<TextRange>|
        ranges_ordered_disjoint(news, new_content.len() as int) && #[trigger] reconcile_spec(
            old_positions,
            news,
            old_content,
            new_content,
            e.0,
            e.1,
            e.2,
            next0,
            new_positions,
            events,
            next1,
        )
}

impl Document {
    /// Applies one edit: splices the text, re-splits it, and reconciles the
    /// statement list, keeping identities of statements the edit left
    /// alone.
    pub fn apply_change(&mut self, change: &ChangeParams) -> (events: Vec<StatementChange>)
        requires
            old(self).wf(),
            change_in_bounds(old(self).content@.len() as int, *change),
            old(self).id_generator.spec_next_id() + spec_applied_len(
                old(self).content@.len() as int,
                *change,
            ) <= usize::MAX,
        ensures
            final(self).wf(),
            final(self).version == old(self).version,
            final(self).content@ == (match change.range {
                Some(r) => spec_splice(old(self).content@, r, change.text@),
                None => change.text@,
            }),
            final(self).id_generator.spec_next_id() >= old(self).id_generator.spec_next_id(),
            final(self).id_generator.spec_next_id() <= old(self).id_generator.spec_next_id()
                + spec_applied_len(old(self).content@.len() as int, *change),
            forall|k: int|
                0 <= k < events@.len() ==> ((#[trigger] events@[k]).removed_id() matches Some(id)
                    ==> (id.is_root() && id.spec_raw() < old(self).id_generator.spec_next_id())),
            forall|k: int|
                0 <= k < events@.len() ==> ((#[trigger] events@[k]).inserted_id() matches Some(id)
                    ==> (id.is_root() && old(self).id_generator.spec_next_id() <= id.spec_raw()
                    && id.spec_raw() < final(self).id_generator.spec_next_id())),
            change_reconciled(
                old(self).positions@,
                old(self).content@,
                *change,
                final(self).positions@,
                final(self).content@,
                events@,
                old(self).id_generator.spec_next_id() as int,
                final(self).id_generator.spec_next_id() as int,
            ),
    {
        let total = self.content.unicode_len();
        let edit_range = match change.range {
            Some(r) => r,
            None => TextRange { start: 0, end: total },
        };
        let a = edit_range.start;
        let b = edit_range.end;
        let l = change.text.unicode_len();
        let new_content = splice(self.content.as_str(), edit_range, change.text.as_str());
        let (new_ranges, diagnostics) = split_with_diagnostics(new_content.as_str(), None);
        proof {
            crate::splitter::lemma_ranges_count(new_ranges@, new_content@.len() as int);
            assert forall|i: int| 0 <= i < self.positions@.len() implies (#[trigger] self
                .positions@[i]).1.start <= self.positions@[i].1.end && self.positions@[i].1.end
                <= self.content@.len() by {
                assert(self.spec_ranges()[i] == self.positions@[i].1);
            }
            if change.range is None {
                assert(new_content@ =~= change.text@);
            }
        }
        let (new_positions, events) = reconcile(
            &self.positions,
            self.content.as_str(),
            &new_ranges,
            new_content.as_str(),
            a,
            b,
            l,
            &mut self.id_generator,
        );
        self.content = new_content;
        self.positions = new_positions;
        self.diagnostics = diagnostics;
        proof {
            assert(self.spec_ranges() =~= new_ranges@);
            // The re-split ranges witness the reconciliation.
            assert(ranges_ordered_disjoint(new_ranges@, self.content@.len() as int)
                && reconcile_spec(
                old(self).positions@,
                new_ranges@,
                old(self).content@,
                self.content@,
                applied_edit(*change, old(self).content@.len() as int).0,
                applied_edit(*change, old(self).content@.len() as int).1,
                applied_edit(*change, old(self).content@.len() as int).2,
                old(self).id_generator.spec_next_id() as int,
                self.positions@,
                events@,
                self.id_generator.spec_next_id() as int,
            ));
        }
        events
    }

    /// Applies an edit notification: each change in order, against the text
    /// the previous one left, then adopts the new version. Returns every
    /// reconciliation event, in order.
    ///
    /// Identities removed by an event are never introduced again by a later
    /// event of the same notification: fresh identities always lie above
    /// everything allocated before.
    pub fn apply_file_change(&mut self, params: &ChangeFileParams) -> (events: Vec<
        StatementChange,
    >)
        requires
            old(self).wf(),
            changes_valid(old(self).content@.len() as int, params.changes@),
            budget_ok(
                old(self).id_generator.spec_next_id() as int,
                old(self).content@.len() as int,
                params.changes@,
            ),
        ensures
            final(self).wf(),
            final(self).version == params.version,
            forall|k: int|
                0 <= k < events@.len() ==> ((#[trigger] events@[k]).removed_id() matches Some(id)
                    ==> id.is_root()),
            forall|k: int|
                0 <= k < events@.len() ==> ((#[trigger] events@[k]).inserted_id() matches Some(id)
                    ==> id.is_root()),
            forall|i: int, j: int|
                #![trigger events@[i], events@[j]]
                0 <= i < j < events@.len() ==> (events@[j].inserted_id() matches Some(id) ==> (
                events@[i].removed_id() matches Some(id2) ==> id != id2)),
            forall|k: int|
                0 <= k < events@.len() ==> ((#[trigger] events@[k]) matches
                    StatementChange::Modified(m) ==> m.new_stmt != m.old_stmt),
            params.changes@.len() == 1 ==> (final(self).content@ == applied_content(
                old(self).content@,
                params.changes@[0],
            ) && change_reconciled(
                old(self).positions@,
                old(self).content@,
                params.changes@[0],
                final(self).positions@,
                final(self).content@,
                events@,
                old(self).id_generator.spec_next_id() as int,
                final(self).id_generator.spec_next_id() as int,
            )),
    {
        let mut events: Vec<StatementChange> = Vec::new();
        let n = params.changes.len();
        proof {
            assert(params.changes@.skip(0) =~= params.changes@);
        }
        let mut i: usize = 0;
        while i < n
            invariant
                i <= n,
                n == params.changes@.len(),
                self.wf(),
                self.version == old(self).version,
                changes_valid(self.content@.len() as int, params.changes@.skip(i as int)),
                budget_ok(
                    self.id_generator.spec_next_id() as int,
                    self.content@.len() as int,
                    params.changes@.skip(i as int),
                ),
                forall|k: int|
                    0 <= k < events@.len() ==> ((#[trigger] events@[k]).removed_id() matches Some(
                        id,
                    ) ==> (id.is_root() && id.spec_raw()
                        < self.id_generator.spec_next_id())),
                forall|k: int|
                    0 <= k < events@.len() ==> ((#[trigger] events@[k]).inserted_id()
                        matches Some(id) ==> (id.is_root() && id.spec_raw()
                        < self.id_generator.spec_next_id())),
                forall|i2: int, j2: int|
                    #![trigger events@[i2], events@[j2]]
                    0 <= i2 < j2 < events@.len() ==> (events@[j2].inserted_id() matches Some(id)
                        ==> (events@[i2].removed_id() matches Some(id2) ==> id != id2)),
                forall|k: int|
                    0 <= k < events@.len() ==> ((#[trigger] events@[k]) matches
                        StatementChange::Modified(m) ==> m.new_stmt != m.old_stmt),
                i == 0 ==> (events@ =~= Seq::<StatementChange>::empty() && self.content == old(
                    self,
                ).content && self.positions == old(self).positions && self.id_generator == old(
                    self,
                ).id_generator),
                n == 1 && i == 1 ==> (self.content@ == applied_content(
                    old(self).content@,
                    params.changes@[0],
                ) && change_reconciled(
                    old(self).positions@,
                    old(self).content@,
                    params.changes@[0],
                    self.positions@,
                    self.content@,
                    events@,
                    old(self).id_generator.spec_next_id() as int,
                    self.id_generator.spec_next_id() as int,
                )),
            decreases n - i,
        {
            proof {
                assert(params.changes@.skip(i as int)[0] == params.changes@[i as int]);
                assert(params.changes@.skip(i as int).drop_first() =~= params.changes@.skip(
                    i as int + 1,
                ));
            }
            let change = &params.changes[i];
            let ghost len_before = self.content@.len() as int;
            let ghost gen_before = self.id_generator.spec_next_id();
            let ghost events_before = events@;
            let mut batch = self.apply_change(change);
            let ghost batch_view = batch@;
            events.append(&mut batch);
            proof {
                if i == 0 {
                    assert(events@ =~= batch_view);
                }
                let l2 = spec_applied_len(len_before, params.changes@[i as int]);
                assert(self.content@.len() as int == l2);
                lemma_budget_mono(
                    gen_before as int + l2,
                    self.id_generator.spec_next_id() as int,
                    l2,
                    params.changes@.skip(i as int).drop_first(),
                );
            }
            i = i + 1;
        }
        self.version = params.version;
        events
    }
}

} // verus!

verus! {

/// Edit locality at the document interface: when one applied change fell
/// strictly inside the interior of statement `m` and the new statement list
/// keeps every other statement's boundaries (the ones before the edit
/// unchanged, the ones after it shifted by the edit's length delta), then
/// the change produced exactly one `Modified` event, for that statement,
/// and every other statement kept its prior identity.
pub proof fn lemma_edit_locality_applied(
    old_positions: Seq<StatementPos>,
    old_content: Seq<char>,
    c: ChangeParams,
    new_positions: Seq<StatementPos>,
    new_content: Seq<char>,
    events: Seq<StatementChange>,
    next0: int,
    next1: int,
    m: int,
)
    requires
        change_reconciled(
            old_positions,
            old_content,
            c,
            new_positions,
            new_content,
            events,
            next0,
            next1,
        ),
        old_positions.len() == new_positions.len(),
        0 <= m < old_positions.len(),
        old_positions[m].1.start <= old_positions[m].1.end,
        old_positions[m].1.start < applied_edit(c, old_content.len() as int).0,
        applied_edit(c, old_content.len() as int).0 <= applied_edit(
            c,
            old_content.len() as int,
        ).1,
        applied_edit(c, old_content.len() as int).1 < old_positions[m].1.end,
        forall|i: int|
            0 <= i < m ==> ((#[trigger] new_positions[i]).1 == old_positions[i].1
                && old_positions[i].1.end <= applied_edit(c, old_content.len() as int).0),
        forall|i: int|
            m < i < old_positions.len() ==> ((#[trigger] old_positions[i]).1.start
                >= applied_edit(c, old_content.len() as int).1 && new_positions[i].1.start - (
            applied_edit(c, old_content.len() as int).0 + applied_edit(
                c,
                old_content.len() as int,
            ).2) == old_positions[i].1.start - applied_edit(c, old_content.len() as int).1
                && new_positions[i].1.end - new_positions[i].1.start == old_positions[i].1.end
                - old_positions[i].1.start),
    ensures
        events.len() == 1,
        events[0] matches StatementChange::Modified(mm) && mm.old_stmt == old_positions[m].0
            && mm.new_stmt == new_positions[m].0,
        forall|i: int|
            0 <= i < new_positions.len() && i != m ==> (#[trigger] new_positions[i]).0
                == old_positions[i].0,
        new_positions[m].0 == StatementId::Root(RootId { inner: next0 as usize }),
        next1 == next0 + 1,
{
    let e = applied_edit(c, old_content.len() as int);
    let news = choose|news: Seq<TextRange>|
        ranges_ordered_disjoint(news, new_content.len() as int) && #[trigger] reconcile_spec(
            old_positions,
            news,
            old_content,
            new_content,
            e.0,
            e.1,
            e.2,
            next0,
            new_positions,
            events,
            next1,
        );
    let (np, ns) = choose|np: int, ns: int|
        reconcile_post(
            old_positions,
            news,
            old_content,
            new_content,
            e.0,
            e.1,
            e.2,
            next0,
            new_positions,
            events,
            next1,
            np,
            ns,
        );
    // The new list carries exactly the re-split ranges, so the boundary
    // hypotheses transfer to them.
    assert forall|i: int| 0 <= i < m implies prefix_match(old_positions, news, e.0, i) by {
        assert(new_positions[i].1 == news[i]);
    }
    assert forall|oi: int, ni: int|
        m < oi < old_positions.len() && ni == oi implies #[trigger] suffix_match(
        old_positions,
        news,
        e.0,
        e.1,
        e.2,
        oi,
        ni,
    ) by {
        assert(new_positions[oi].1 == news[oi]);
    }
    lemma_edit_locality(
        old_positions,
        news,
        old_content,
        new_content,
        e.0,
        e.1,
        e.2,
        next0,
        new_positions,
        events,
        next1,
        m,
    );
}

/// Edit locality: when an edit falls strictly inside the interior of one
/// statement and the re-split keeps every other statement's boundaries (the
/// ones before the edit unchanged, the ones after it shifted by the edit's
/// length delta), then reconciliation reports exactly one `Modified` event,
/// for that statement, under a fresh identity; every other statement keeps
/// its prior identity with only its range moved.
pub proof fn lemma_edit_locality(
    olds: Seq<StatementPos>,
    news: Seq<TextRange>,
    oldc: Seq<char>,
    newc: Seq<char>,
    a: int,
    b: int,
    l: int,
    next0: int,
    res: Seq<StatementPos>,
    events: Seq<StatementChange>,
    next1: int,
    m: int,
)
    requires
        reconcile_spec(olds, news, oldc, newc, a, b, l, next0, res, events, next1),
        olds.len() == news.len(),
        0 <= m < olds.len(),
        olds[m].1.start <= olds[m].1.end,
        olds[m].1.start < a,
        a <= b,
        b < olds[m].1.end,
        forall|i: int| 0 <= i < m ==> prefix_match(olds, news, a, i),
        forall|oi: int, ni: int|
            m < oi < olds.len() && ni == oi ==> #[trigger] suffix_match(
                olds,
                news,
                a,
                b,
                l,
                oi,
                ni,
            ),
    ensures
        events.len() == 1,
        events[0] matches StatementChange::Modified(mm) && mm.old_stmt == olds[m].0
            && mm.new_stmt == res[m].0,
        res.len() == news.len(),
        forall|i: int| 0 <= i < res.len() ==> (#[trigger] res[i]).1 == news[i],
        forall|i: int| 0 <= i < res.len() && i != m ==> (#[trigger] res[i]).0 == olds[i].0,
        res[m].0 == StatementId::Root(RootId { inner: next0 as usize }),
        next1 == next0 + 1,
{
    let olen = olds.len() as int;
    let nlen = news.len() as int;
    let (np, ns) = choose|np: int, ns: int|
        reconcile_post(olds, news, oldc, newc, a, b, l, next0, res, events, next1, np, ns);
    // The greedy prefix stops exactly at the edited statement: every
    // earlier statement matches, and statement `m` itself ends after the
    // edit begins.
    assert(!prefix_match(olds, news, a, m));
    assert(np == m) by {
        if np < m {
            assert(prefix_match(olds, news, a, np));
        }
        if np > m {
            assert(prefix_match(olds, news, a, m));
        }
    }
    // The greedy suffix stops exactly behind it: every later statement
    // matches shifted, and statement `m` itself starts before the edit's
    // old end.
    assert(!suffix_match(olds, news, a, b, l, m, m)) by {
        assert(olds[m].1.start < b);
    }
    assert(ns == olen - 1 - m) by {
        if ns > olen - 1 - m {
            assert(suffix_match(olds, news, a, b, l, m, m));
        }
        if ns < olen - 1 - m {
            let oi = olen - 1 - ns;
            assert(m < oi < olen);
            assert(suffix_match(olds, news, a, b, l, oi, oi));
        }
    }
    assert(res[m].0 == StatementId::Root(RootId { inner: (next0 + m - np) as usize }));
    assert(events[0] matches StatementChange::Modified(mm) && mm.old_stmt == olds[np + 0].0
        && mm.new_stmt == res[np + 0].0);
    assert forall|i: int| 0 <= i < res.len() && i != m implies (#[trigger] res[i]).0
        == olds[i].0 by {
        if i < m {
        } else {
            assert(nlen - ns <= i);
            assert(res[i].0 == olds[i + olen - nlen].0);
        }
    }
}

} // verus!
