//! The `DocSet` capability: forward-only, seekable iteration over the sorted
//! set of document ids that match a term.

use crate::{DocId, TERMINATED};
use vstd::prelude::*;

verus! {

/// The document id visible at a cursor position: the entry itself while the
/// cursor is inside the list, and the terminal sentinel once the cursor has
/// moved past the end.
pub open spec fn doc_at(docs: Seq<DocId>, cursor: int) -> DocId {
    if 0 <= cursor < docs.len() {
        docs[cursor]
    } else {
        TERMINATED
    }
}

/// A document list is well formed when its ids are strictly increasing and
/// every id is a real document, below the terminal sentinel.
pub open spec fn docs_strictly_sorted(docs: Seq<DocId>) -> bool {
    &&& forall|i: int, j: int| 0 <= i < j < docs.len() ==> docs[i] < docs[j]
    &&& forall|i: int| 0 <= i < docs.len() ==> docs[i] < TERMINATED
}

/// Every entry of a strictly sorted list is at least as large as its index.
pub proof fn lemma_sorted_entry_lower_bound(docs: Seq<DocId>, i: int)
    requires
        docs_strictly_sorted(docs),
        0 <= i < docs.len(),
    ensures
        docs[i] >= i,
    decreases i,
{
    if i > 0 {
        lemma_sorted_entry_lower_bound(docs, i - 1);
    }
}

/// A strictly sorted list of real document ids cannot hold more entries than
/// there are ids below the sentinel.
pub proof fn lemma_sorted_len_bound(docs: Seq<DocId>)
    requires
        docs_strictly_sorted(docs),
    ensures
        docs.len() <= TERMINATED as int,
{
    if docs.len() > TERMINATED as int {
        lemma_sorted_entry_lower_bound(docs, TERMINATED as int);
    }
}

/// Monotonic iteration: moving the cursor of a well-formed document list
/// forward yields strictly increasing document ids until the terminal
/// sentinel, and once the sentinel has been reached every later position
/// yields the sentinel again. Since `advance` and `seek` only ever move the
/// cursor forward and never change the list, this holds across any sequence
/// of `advance`/`seek` calls.
pub proof fn lemma_iteration_monotonic(docs: Seq<DocId>, c1: int, c2: int)
    requires
        docs_strictly_sorted(docs),
        0 <= c1 < c2,
    ensures
        doc_at(docs, c1) != TERMINATED ==> doc_at(docs, c1) < doc_at(docs, c2),
        doc_at(docs, c1) == TERMINATED ==> doc_at(docs, c2) == TERMINATED,
{
}

/// Monotonic iteration through the `DocSet` capability: `advance` and
/// `seek` only ever grow the cursor of a well-formed set over an unchanged
/// document list, so across any sequence of such calls the document at an
/// earlier position is strictly below the document at a later one, until
/// the terminal sentinel, which is then returned forever.
pub proof fn lemma_docset_iteration_monotonic<D: DocSet>(d: &D, earlier: int, later: int)
    requires
        d.wf(),
        0 <= earlier < later,
    ensures
        doc_at(d.all_docs(), earlier) != TERMINATED ==> doc_at(d.all_docs(), earlier) < doc_at(
            d.all_docs(),
            later,
        ),
        doc_at(d.all_docs(), earlier) == TERMINATED ==> doc_at(d.all_docs(), later) == TERMINATED,
{
    d.lemma_wf();
    lemma_iteration_monotonic(d.all_docs(), earlier, later);
}

/// The capability of iterating a sorted set of matching document ids with
/// advance/seek semantics. A cursor starts positioned on the first match
/// (or already exhausted when there is none) and only ever moves forward.
pub trait DocSet: Sized {
    /// Internal consistency of the implementing cursor.
    spec fn wf(&self) -> bool;

    /// The full ascending list of matching document ids.
    spec fn all_docs(&self) -> Seq<DocId>;

    /// The cursor position within `all_docs()`; positions at or past the
    /// length denote exhaustion.
    spec fn cursor(&self) -> int;

    /// Holds when two cursor states share the same immutable backing data
    /// and differ at most in their position: `advance` and `seek` move the
    /// cursor and touch nothing else.
    spec fn same_index_data(&self, other: Self) -> bool;

    /// A well-formed cursor walks a strictly sorted list of real document
    /// ids and sits within its bounds.
    proof fn lemma_wf(&self)
        requires
            self.wf(),
        ensures
            docs_strictly_sorted(self.all_docs()),
            0 <= self.cursor() <= self.all_docs().len(),
            self.all_docs().len() <= TERMINATED as int,
    ;

    /// Moves to the next matching document; returns the terminal sentinel
    /// once exhausted, and keeps returning it on every later call.
    fn advance(&mut self) -> (r: DocId)
        requires
            old(self).wf(),
        ensures
            final(self).wf(),
            final(self).same_index_data(*old(self)),
            final(self).all_docs() == old(self).all_docs(),
            final(self).cursor() == if old(self).cursor() < old(self).all_docs().len() {
                old(self).cursor() + 1
            } else {
                old(self).cursor()
            },
            r == doc_at(final(self).all_docs(), final(self).cursor()),
    ;

    /// Advances to the first matching document with id at least `target`;
    /// returns that id, or the terminal sentinel when no such document
    /// remains. Seeking below the current position is disallowed.
    fn seek(&mut self, target: DocId) -> (r: DocId)
        requires
            old(self).wf(),
            doc_at(old(self).all_docs(), old(self).cursor()) <= target,
        ensures
            final(self).wf(),
            final(self).same_index_data(*old(self)),
            final(self).all_docs() == old(self).all_docs(),
            old(self).cursor() <= final(self).cursor() <= final(self).all_docs().len(),
            forall|i: int|
                old(self).cursor() <= i < final(self).cursor()
                    ==> final(self).all_docs()[i] < target,
            final(self).cursor() < final(self).all_docs().len()
                ==> final(self).all_docs()[final(self).cursor()] >= target,
            r == doc_at(final(self).all_docs(), final(self).cursor()),
    ;

    /// The document id at the current position; the terminal sentinel when
    /// exhausted.
    fn doc(&self) -> (r: DocId)
        ensures
            r == doc_at(self.all_docs(), self.cursor()),
    ;

    /// The number of matching documents not yet passed; for cost estimation.
    fn size_hint(&self) -> (r: u32)
        requires
            self.wf(),
        ensures
            r as int == self.all_docs().len() - self.cursor(),
    ;
}

} // verus!
