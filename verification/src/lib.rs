//! Per-term document scoring for a full-text search index.
//!
//! For a single indexed term the crate iterates the sorted list of documents
//! containing that term, reports the term's frequency in each document, and
//! computes a BM25 relevance score, together with the global and block-local
//! upper bounds that let a query executor prune documents without scoring
//! them.
//!
//! All scores are exact fixed-point numbers: a `Score` counts multiples of
//! `1 / SCORE_SCALE`, so every scoring contract is stated and proved over
//! plain integer arithmetic.

pub mod bm25;
pub mod docset;
pub mod fieldnorm;
pub mod postings;
pub mod scorer;
pub mod term_scorer;

pub use docset::DocSet;
pub use scorer::Scorer;

use vstd::prelude::*;

verus! {

/// A document identifier, monotonically increasing within a segment.
pub type DocId = u32;

/// A relevance score in fixed-point representation: a value `s` stands for
/// the real number `s / SCORE_SCALE`.
pub type Score = u64;

/// The fixed-point scale of a `Score`: this value represents `1.0`.
pub const SCORE_SCALE: u64 = 16777216;

/// Sentinel document id that a posting iterator returns once it is
/// exhausted; never a real document id.
pub const TERMINATED: DocId = 0x7fff_ffff;

} // verus!
