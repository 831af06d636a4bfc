//! The term scorer: the integration of a posting iterator, a field-length
//! reader and a BM25 weight. For the iterator's current position it
//! reports the document, its term frequency, its norm id and its score,
//! and exposes the global and block-local score bounds that pruning-aware
//! query executors rely on.

use crate::bm25::{spec_max_score, spec_score_value, BM25Weight, Explanation};
use crate::docset::{doc_at, DocSet};
use crate::fieldnorm::{spec_fieldnorm_to_id, spec_id_to_fieldnorm, FieldNormReader};
use crate::postings::{
    lemma_block_max_le_max_score, lemma_entry_le_block_max, FreqReadingOption, SegmentPostings,
    COMPRESSION_BLOCK_SIZE,
};
use crate::scorer::Scorer;
use crate::{DocId, Score, TERMINATED};
use vstd::arithmetic::div_mod::lemma_fundamental_div_mod;
use vstd::prelude::*;

verus! {

/// Scores the documents of one term: owns the posting iterator and reads
/// the field-length reader and the relevance weight it composes.
pub struct TermScorer {
    postings: SegmentPostings,
    fieldnorm_reader: FieldNormReader,
    similarity_weight: BM25Weight,
}

impl TermScorer {
    /// The composed posting iterator.
    pub closed spec fn spec_postings(&self) -> SegmentPostings {
        self.postings
    }

    /// The norm ids of the segment's documents.
    pub closed spec fn spec_norm_ids(&self) -> Seq<u8> {
        self.fieldnorm_reader@
    }

    /// The relevance weight of the term.
    pub closed spec fn spec_weight(&self) -> BM25Weight {
        self.similarity_weight
    }

    /// Composes a scorer. The collaborators must be consistent: every
    /// document of the postings needs a norm id in the reader.
    pub fn new(
        postings: SegmentPostings,
        fieldnorm_reader: FieldNormReader,
        similarity_weight: BM25Weight,
    ) -> (r: TermScorer)
        requires
            postings.wf(),
            similarity_weight.wf(),
            forall|i: int|
                0 <= i < postings.all_docs().len() ==> (#[trigger] postings.all_docs()[i] as int)
                    < fieldnorm_reader@.len(),
        ensures
            r.wf(),
            r.spec_postings() == postings,
            r.spec_norm_ids() == fieldnorm_reader@,
            r.spec_weight() == similarity_weight,
            r.all_docs() == postings.all_docs(),
            r.cursor() == postings.cursor(),
    {
        TermScorer { postings, fieldnorm_reader, similarity_weight }
    }

    /// Builds a scorer over explicit `(doc id, term frequency)` pairs and
    /// the true field length of each of those documents, quantizing the
    /// lengths the way a segment writer would.
    pub fn create_for_test(
        doc_and_tfs: &Vec<(DocId, u32)>,
        fieldnorm_vals: &Vec<u32>,
        similarity_weight: BM25Weight,
    ) -> (r: TermScorer)
        requires
            doc_and_tfs@.len() > 0,
            doc_and_tfs@.len() == fieldnorm_vals@.len(),
            forall|i: int, j: int|
                0 <= i < j < doc_and_tfs@.len() ==> doc_and_tfs@[i].0 < doc_and_tfs@[j].0,
            forall|i: int| 0 <= i < doc_and_tfs@.len() ==> (#[trigger] doc_and_tfs@[i].0)
                < TERMINATED,
            forall|i: int| 0 <= i < doc_and_tfs@.len() ==> (#[trigger] doc_and_tfs@[i].1) >= 1,
            similarity_weight.wf(),
        ensures
            r.wf(),
            r.spec_weight() == similarity_weight,
            r.cursor() == 0,
            r.all_docs().len() == doc_and_tfs@.len(),
            forall|i: int|
                0 <= i < doc_and_tfs@.len() ==> r.all_docs()[i] == doc_and_tfs@[i].0,
            forall|i: int|
                0 <= i < doc_and_tfs@.len() ==> r.spec_postings().term_freqs_view()[i]
                    == doc_and_tfs@[i].1,
            r.spec_postings().spec_freq_reading_option() == FreqReadingOption::ReadFreq,
            forall|i: int|
                0 <= i < doc_and_tfs@.len() ==> r.spec_norm_ids()[doc_and_tfs@[i].0 as int] as int
                    == spec_fieldnorm_to_id(fieldnorm_vals@[i] as int),
    {
        let segment_postings: SegmentPostings = SegmentPostings::create_from_docs_and_tfs(
            doc_and_tfs,
        );
        let doc_freq: usize = doc_and_tfs.len();
        let last_doc: DocId = doc_and_tfs[doc_freq - 1].0;
        let max_doc: DocId = last_doc + 1;
        let mut fieldnorms: Vec<u32> = Vec::new();
        let mut d: usize = 0;
        while d < max_doc as usize
            invariant
                d <= max_doc as int,
                fieldnorms@.len() == d as int,
            decreases max_doc as int - d,
        {
            fieldnorms.push(0);
            d = d + 1;
        }
        let mut i: usize = 0;
        while i < doc_freq
            invariant
                i <= doc_freq,
                doc_freq == doc_and_tfs@.len(),
                doc_freq == fieldnorm_vals@.len(),
                fieldnorms@.len() == max_doc as int,
                last_doc == doc_and_tfs@[doc_freq - 1].0,
                max_doc == last_doc + 1,
                forall|a: int, b: int|
                    0 <= a < b < doc_and_tfs@.len() ==> doc_and_tfs@[a].0 < doc_and_tfs@[b].0,
                forall|j: int|
                    0 <= j < i as int ==> fieldnorms@[doc_and_tfs@[j].0 as int]
                        == fieldnorm_vals@[j],
            decreases doc_freq - i,
        {
            let doc: DocId = doc_and_tfs[i].0;
            let fieldnorm: u32 = fieldnorm_vals[i];
            proof {
                if (i as int) < doc_freq - 1 {
                    assert(doc_and_tfs@[i as int].0 < doc_and_tfs@[doc_freq - 1].0);
                }
            }
            fieldnorms.set(doc as usize, fieldnorm);
            proof {
                assert forall|j: int| 0 <= j < (i as int) + 1 implies fieldnorms@[
                    doc_and_tfs@[j].0 as int] == fieldnorm_vals@[j] by {
                    if j < i as int {
                        assert(doc_and_tfs@[j].0 < doc_and_tfs@[i as int].0);
                    }
                }
            }
            i = i + 1;
        }
        let fieldnorm_reader: FieldNormReader = FieldNormReader::from_lengths(&fieldnorms);
        proof {
            assert forall|k: int| 0 <= k < segment_postings.all_docs().len() implies (
            #[trigger] segment_postings.all_docs()[k] as int) < fieldnorm_reader@.len() by {
                if k < doc_freq - 1 {
                    assert(doc_and_tfs@[k].0 < doc_and_tfs@[doc_freq - 1].0);
                }
            }
        }
        TermScorer::new(segment_postings, fieldnorm_reader, similarity_weight)
    }

    /// An upper bound on the score of every document of the cursor's
    /// current decode block; it must be read while positioned on a real
    /// document.
    pub fn block_max_score(&mut self) -> (r: Score)
        requires
            old(self).wf(),
            doc_at(old(self).all_docs(), old(self).cursor()) != TERMINATED,
        ensures
            *final(self) == *old(self),
            r as int == old(self).spec_postings().spec_block_max(
                old(self).spec_norm_ids(),
                old(self).spec_weight(),
            ),
    {
        self.postings.block_max_score(&self.fieldnorm_reader, &self.similarity_weight)
    }

    /// The term frequency at the current document.
    pub fn term_freq(&self) -> (r: u32)
        requires
            self.wf(),
            doc_at(self.all_docs(), self.cursor()) != TERMINATED,
        ensures
            r as int == self.spec_postings().spec_tf_at(self.cursor()),
            r >= 1,
    {
        self.postings.term_freq()
    }

    /// The number of documents containing the term.
    pub fn doc_freq(&self) -> (r: usize)
        requires
            self.wf(),
        ensures
            r == self.all_docs().len(),
    {
        self.postings.doc_freq() as usize
    }

    /// The norm id of the current document.
    pub fn fieldnorm_id(&self) -> (r: u8)
        requires
            self.wf(),
            doc_at(self.all_docs(), self.cursor()) != TERMINATED,
        ensures
            r == self.spec_norm_ids()[doc_at(self.all_docs(), self.cursor()) as int],
    {
        self.fieldnorm_reader.fieldnorm_id(self.postings.doc())
    }

    /// The frequency-reading policy of the composed iterator.
    pub fn freq_reading_option(&self) -> (r: FreqReadingOption)
        ensures
            r == self.spec_postings().spec_freq_reading_option(),
    {
        self.postings.freq_reading_option()
    }

    /// The breakdown of the current document's score; its total equals what
    /// `score` returns at the same position.
    pub fn explain(&self) -> (r: Explanation)
        requires
            self.wf(),
            doc_at(self.all_docs(), self.cursor()) != TERMINATED,
        ensures
            r.value as int == self.spec_score_at(),
            r.idf == self.spec_weight().idf(),
            r.term_freq as int == self.spec_postings().spec_tf_at(self.cursor()),
            r.fieldnorm as int == spec_id_to_fieldnorm(
                self.spec_norm_ids()[doc_at(self.all_docs(), self.cursor()) as int] as int,
            ),
            r.average_fieldnorm == self.spec_weight().average_fieldnorm(),
    {
        let fieldnorm_id: u8 = self.fieldnorm_id();
        let term_freq: u32 = self.term_freq();
        self.similarity_weight.explain(fieldnorm_id, term_freq)
    }

    /// The term's global score bound, independent of the position.
    pub fn max_score(&self) -> (r: Score)
        requires
            self.wf(),
        ensures
            r as int == spec_max_score(self.spec_weight()),
    {
        self.similarity_weight.max_score()
    }
}

impl DocSet for TermScorer {
    closed spec fn wf(&self) -> bool {
        &&& self.postings.wf()
        &&& self.similarity_weight.wf()
        &&& forall|i: int|
            0 <= i < self.postings.all_docs().len() ==> (
            #[trigger] self.postings.all_docs()[i] as int) < self.fieldnorm_reader@.len()
    }

    closed spec fn all_docs(&self) -> Seq<DocId> {
        self.postings.all_docs()
    }

    closed spec fn cursor(&self) -> int {
        self.postings.cursor()
    }

    closed spec fn same_index_data(&self, other: TermScorer) -> bool {
        &&& self.postings.same_index_data(other.postings)
        &&& self.fieldnorm_reader@ == other.fieldnorm_reader@
        &&& self.similarity_weight == other.similarity_weight
    }

    proof fn lemma_wf(&self) {
        self.postings.lemma_wf();
    }

    fn advance(&mut self) -> (r: DocId) {
        self.postings.advance()
    }

    fn seek(&mut self, target: DocId) -> (r: DocId) {
        self.postings.seek(target)
    }

    fn doc(&self) -> (r: DocId) {
        self.postings.doc()
    }

    fn size_hint(&self) -> (r: u32) {
        self.postings.size_hint()
    }
}

impl Scorer for TermScorer {
    /// The BM25 score of the current document: the weight applied to the
    /// document's norm id and reported term frequency.
    open spec fn spec_score_at(&self) -> int {
        spec_score_value(
            self.spec_weight().idf() as int,
            self.spec_weight().average_fieldnorm() as int,
            spec_id_to_fieldnorm(
                self.spec_norm_ids()[doc_at(self.all_docs(), self.cursor()) as int] as int,
            ),
            self.spec_postings().spec_tf_at(self.cursor()),
        )
    }

    fn score(&mut self) -> (r: Score) {
        let fieldnorm_id: u8 = self.fieldnorm_id();
        let term_freq: u32 = self.term_freq();
        self.similarity_weight.score(fieldnorm_id, term_freq)
    }
}

/// The scorer's iteration view is exactly its composed posting iterator's
/// view: same document list, same cursor. This ties the `DocSet` contract
/// of `TermScorer` to the block structure of `spec_postings()`, so that a
/// caller can place the cursor within `spec_block_start()` and
/// `spec_block_end()` and connect `block_max_score` to the scores of the
/// block's postings.
pub broadcast proof fn lemma_scorer_view_is_postings_view(s: TermScorer)
    ensures
        s.all_docs() == (#[trigger] s.spec_postings()).all_docs(),
        s.cursor() == s.spec_postings().cursor(),
{
}

/// Two scorer states over the same index data expose the same postings
/// data, norm ids and weight: what `advance` and `seek` leave untouched.
pub broadcast proof fn lemma_scorer_same_index_data(a: TermScorer, b: TermScorer)
    requires
        #[trigger] a.same_index_data(b),
    ensures
        a.spec_postings().same_index_data(b.spec_postings()),
        a.spec_norm_ids() == b.spec_norm_ids(),
        a.spec_weight() == b.spec_weight(),
{
}

/// Score bound invariant: while the scorer is positioned on a document, and
/// no posting of the current block reports a term frequency above its
/// document's quantized field length, the current score never exceeds the
/// block bound, which never exceeds the global bound.
pub proof fn lemma_score_bounds(s: &TermScorer)
    requires
        s.wf(),
        doc_at(s.all_docs(), s.cursor()) != TERMINATED,
        forall|i: int|
            s.spec_postings().spec_block_start() <= i < s.spec_postings().spec_block_end()
                ==> #[trigger] s.spec_postings().spec_tf_at(i) <= spec_id_to_fieldnorm(
                s.spec_norm_ids()[s.all_docs()[i] as int] as int,
            ),
    ensures
        s.spec_score_at() <= s.spec_postings().spec_block_max(
            s.spec_norm_ids(),
            s.spec_weight(),
        ),
        s.spec_postings().spec_block_max(s.spec_norm_ids(), s.spec_weight()) <= spec_max_score(
            s.spec_weight(),
        ),
{
    let p = s.spec_postings();
    let norms = s.spec_norm_ids();
    let w = s.spec_weight();
    let c = s.cursor();
    lemma_fundamental_div_mod(c, COMPRESSION_BLOCK_SIZE as int);
    assert(p.spec_block_start() <= c < p.spec_block_end());
    lemma_entry_le_block_max(&p, norms, w, c, p.spec_block_end());
    lemma_block_max_le_max_score(&p, norms, w, p.spec_block_end());
}

} // verus!
