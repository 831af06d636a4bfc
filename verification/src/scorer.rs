//! The `Scorer` capability: a `DocSet` that can also score the document it
//! is positioned on. Consumers that only match documents depend on
//! `DocSet` alone; ranking consumers depend on this extension.

use crate::docset::{doc_at, DocSet};
use crate::{Score, TERMINATED};
use vstd::prelude::*;

verus! {

/// The capability of scoring the current document of a forward cursor.
/// Scoring an exhausted cursor is a caller error, ruled out by
/// precondition: the caller must check for the terminal sentinel first.
pub trait Scorer: DocSet {
    /// The score the implementation assigns to its current position.
    spec fn spec_score_at(&self) -> int;

    /// The score of the document at the current position, recomputed on
    /// every call from the position alone: repeated calls at one position
    /// return identical results, and scoring leaves the scorer untouched.
    fn score(&mut self) -> (r: Score)
        requires
            old(self).wf(),
            doc_at(old(self).all_docs(), old(self).cursor()) != TERMINATED,
        ensures
            *final(self) == *old(self),
            r as int == old(self).spec_score_at(),
    ;
}

} // verus!
