//! The posting list of one term: a forward-only, seekable cursor over the
//! sorted `(document id, term frequency)` pairs of the documents containing
//! the term, organized in fixed-size blocks, with a block-local score bound
//! for top-k pruning.

use crate::bm25::{spec_max_score, spec_score_value, BM25Weight};
use crate::docset::{docs_strictly_sorted, lemma_sorted_len_bound, DocSet};
use crate::fieldnorm::{spec_id_to_fieldnorm, FieldNormReader};
use crate::{DocId, Score, TERMINATED};
use vstd::arithmetic::div_mod::lemma_fundamental_div_mod;
use vstd::prelude::*;

verus! {

/// Number of postings that one decode block holds.
pub const COMPRESSION_BLOCK_SIZE: usize = 128;

/// Whether the iterator must decode term frequencies. A caller that only
/// matches documents, without scoring them, may skip the decode; the
/// frequency reported then is a defined placeholder, never relevant.
#[derive(Clone, Copy, PartialEq, Eq, Structural, Debug)]
pub enum FreqReadingOption {
    /// The postings carry no frequencies at all.
    NoFreq,
    /// Frequencies exist but are not decoded.
    SkipFreq,
    /// Frequencies are decoded and reported.
    ReadFreq,
}

/// The posting iterator over one term's documents within a segment.
pub struct SegmentPostings {
    docs: Vec<DocId>,
    term_freqs: Vec<u32>,
    cursor: usize,
    freq_option: FreqReadingOption,
}

impl SegmentPostings {
    /// The stored term frequencies, one per matching document.
    pub closed spec fn term_freqs_view(&self) -> Seq<u32> {
        self.term_freqs@
    }

    /// The frequency-reading policy the iterator was created with.
    pub closed spec fn spec_freq_reading_option(&self) -> FreqReadingOption {
        self.freq_option
    }

    /// The term frequency the iterator reports at position `i`: the stored
    /// count when frequencies are read, a placeholder of one otherwise.
    pub open spec fn spec_tf_at(&self, i: int) -> int {
        if self.spec_freq_reading_option() == FreqReadingOption::ReadFreq {
            self.term_freqs_view()[i] as int
        } else {
            1
        }
    }

    /// First position of the block the cursor is in.
    pub open spec fn spec_block_start(&self) -> int {
        (self.cursor() / (COMPRESSION_BLOCK_SIZE as int)) * (COMPRESSION_BLOCK_SIZE as int)
    }

    /// One past the last position of the block the cursor is in.
    pub open spec fn spec_block_end(&self) -> int {
        if self.spec_block_start() + COMPRESSION_BLOCK_SIZE <= self.all_docs().len() {
            self.spec_block_start() + (COMPRESSION_BLOCK_SIZE as int)
        } else {
            self.all_docs().len() as int
        }
    }

    /// The exact score of the posting at position `i`, given the segment's
    /// norm ids and the term's weight.
    pub open spec fn spec_entry_score(&self, norms: Seq<u8>, w: BM25Weight, i: int) -> int {
        spec_score_value(
            w.idf() as int,
            w.average_fieldnorm() as int,
            spec_id_to_fieldnorm(norms[self.all_docs()[i] as int] as int),
            self.spec_tf_at(i),
        )
    }

    /// The largest posting score in the current block among positions
    /// before `j`.
    pub open spec fn spec_block_max_upto(&self, norms: Seq<u8>, w: BM25Weight, j: int) -> int
        decreases j - self.spec_block_start(),
    {
        if j <= self.spec_block_start() + 1 {
            self.spec_entry_score(norms, w, self.spec_block_start())
        } else {
            let prev = self.spec_block_max_upto(norms, w, j - 1);
            let cur = self.spec_entry_score(norms, w, j - 1);
            if cur >= prev {
                cur
            } else {
                prev
            }
        }
    }

    /// The largest posting score in the cursor's block.
    pub open spec fn spec_block_max(&self, norms: Seq<u8>, w: BM25Weight) -> int {
        self.spec_block_max_upto(norms, w, self.spec_block_end())
    }


    /// Builds the iterator over the given ascending `(doc id, frequency)`
    /// pairs, positioned on the first document, with the given
    /// frequency-reading policy.
    pub fn create(doc_and_tfs: &Vec<(DocId, u32)>, freq_reading_option: FreqReadingOption) -> (r:
        SegmentPostings)
        requires
            forall|i: int, j: int|
                0 <= i < j < doc_and_tfs@.len() ==> doc_and_tfs@[i].0 < doc_and_tfs@[j].0,
            forall|i: int| 0 <= i < doc_and_tfs@.len() ==> doc_and_tfs@[i].0 < TERMINATED,
            forall|i: int| 0 <= i < doc_and_tfs@.len() ==> doc_and_tfs@[i].1 >= 1,
        ensures
            r.wf(),
            r.cursor() == 0,
            r.all_docs().len() == doc_and_tfs@.len(),
            forall|i: int| 0 <= i < doc_and_tfs@.len() ==> r.all_docs()[i] == doc_and_tfs@[i].0,
            forall|i: int|
                0 <= i < doc_and_tfs@.len() ==> r.term_freqs_view()[i] == doc_and_tfs@[i].1,
            r.spec_freq_reading_option() == freq_reading_option,
    {
        let mut docs: Vec<DocId> = Vec::new();
        let mut term_freqs: Vec<u32> = Vec::new();
        let mut i: usize = 0;
        while i < doc_and_tfs.len()
            invariant
                i <= doc_and_tfs@.len(),
                docs@.len() == i as int,
                term_freqs@.len() == i as int,
                forall|j: int| 0 <= j < i as int ==> docs@[j] == doc_and_tfs@[j].0,
                forall|j: int| 0 <= j < i as int ==> term_freqs@[j] == doc_and_tfs@[j].1,
            decreases doc_and_tfs@.len() - i,
        {
            let pair: (DocId, u32) = doc_and_tfs[i];
            docs.push(pair.0);
            term_freqs.push(pair.1);
            i = i + 1;
        }
        SegmentPostings { docs, term_freqs, cursor: 0, freq_option: freq_reading_option }
    }

    /// Builds the iterator with frequencies decoded; the common case for a
    /// scoring consumer.
    pub fn create_from_docs_and_tfs(doc_and_tfs: &Vec<(DocId, u32)>) -> (r: SegmentPostings)
        requires
            forall|i: int, j: int|
                0 <= i < j < doc_and_tfs@.len() ==> doc_and_tfs@[i].0 < doc_and_tfs@[j].0,
            forall|i: int| 0 <= i < doc_and_tfs@.len() ==> doc_and_tfs@[i].0 < TERMINATED,
            forall|i: int| 0 <= i < doc_and_tfs@.len() ==> doc_and_tfs@[i].1 >= 1,
        ensures
            r.wf(),
            r.cursor() == 0,
            r.all_docs().len() == doc_and_tfs@.len(),
            forall|i: int| 0 <= i < doc_and_tfs@.len() ==> r.all_docs()[i] == doc_and_tfs@[i].0,
            forall|i: int|
                0 <= i < doc_and_tfs@.len() ==> r.term_freqs_view()[i] == doc_and_tfs@[i].1,
            r.spec_freq_reading_option() == FreqReadingOption::ReadFreq,
    {
        SegmentPostings::create(doc_and_tfs, FreqReadingOption::ReadFreq)
    }

    /// The term frequency at the current document. When frequencies are not
    /// read it reports the placeholder one; it is always positive.
    pub fn term_freq(&self) -> (r: u32)
        requires
            self.wf(),
            self.cursor() < self.all_docs().len(),
        ensures
            r as int == self.spec_tf_at(self.cursor()),
            r >= 1,
    {
        match self.freq_option {
            FreqReadingOption::ReadFreq => self.term_freqs[self.cursor],
            FreqReadingOption::SkipFreq => 1,
            FreqReadingOption::NoFreq => 1,
        }
    }

    /// The number of documents containing the term in this segment.
    pub fn doc_freq(&self) -> (r: u32)
        requires
            self.wf(),
        ensures
            r as int == self.all_docs().len(),
    {
        proof {
            self.lemma_wf();
        }
        self.docs.len() as u32
    }

    /// The frequency-reading policy the iterator was created with.
    pub fn freq_reading_option(&self) -> (r: FreqReadingOption)
        ensures
            r == self.spec_freq_reading_option(),
    {
        self.freq_option
    }

    /// An upper bound on the score of every posting in the cursor's current
    /// decode block: the exact maximum over the block's stored frequencies
    /// and norm ids.
    pub fn block_max_score(&self, fieldnorm_reader: &FieldNormReader, bm25_weight: &BM25Weight) -> (r:
        Score)
        requires
            self.wf(),
            bm25_weight.wf(),
            self.cursor() < self.all_docs().len(),
            forall|i: int|
                0 <= i < self.all_docs().len() ==> (self.all_docs()[i] as int)
                    < fieldnorm_reader@.len(),
        ensures
            r as int == self.spec_block_max(fieldnorm_reader@, *bm25_weight),
    {
        proof {
            self.lemma_wf();
            lemma_fundamental_div_mod(self.cursor() as int, COMPRESSION_BLOCK_SIZE as int);
        }
        let block_start: usize = (self.cursor / COMPRESSION_BLOCK_SIZE) * COMPRESSION_BLOCK_SIZE;
        let mut block_end: usize = block_start + COMPRESSION_BLOCK_SIZE;
        if block_end > self.docs.len() {
            block_end = self.docs.len();
        }
        let doc0: DocId = self.docs[block_start];
        let tf0: u32 = self.tf_at_index(block_start);
        let mut best: Score = bm25_weight.score(fieldnorm_reader.fieldnorm_id(doc0), tf0);
        let mut i: usize = block_start + 1;
        while i < block_end
            invariant
                self.wf(),
                bm25_weight.wf(),
                block_start as int == self.spec_block_start(),
                block_end as int == self.spec_block_end(),
                block_start < i <= block_end,
                forall|k: int|
                    0 <= k < self.all_docs().len() ==> (self.all_docs()[k] as int)
                        < fieldnorm_reader@.len(),
                best as int == self.spec_block_max_upto(fieldnorm_reader@, *bm25_weight, i as int),
            decreases block_end - i,
        {
            proof {
                self.lemma_wf();
            }
            let doc_i: DocId = self.docs[i];
            let tf_i: u32 = self.tf_at_index(i);
            let s: Score = bm25_weight.score(fieldnorm_reader.fieldnorm_id(doc_i), tf_i);
            if s > best {
                best = s;
            }
            i = i + 1;
        }
        best
    }

    /// The reported term frequency at an arbitrary position.
    fn tf_at_index(&self, i: usize) -> (r: u32)
        requires
            self.wf(),
            i < self.all_docs().len(),
        ensures
            r as int == self.spec_tf_at(i as int),
            r >= 1,
    {
        match self.freq_option {
            FreqReadingOption::ReadFreq => self.term_freqs[i],
            FreqReadingOption::SkipFreq => 1,
            FreqReadingOption::NoFreq => 1,
        }
    }
}

impl DocSet for SegmentPostings {
    closed spec fn wf(&self) -> bool {
        &&& self.docs@.len() == self.term_freqs@.len()
        &&& self.cursor <= self.docs@.len()
        &&& docs_strictly_sorted(self.docs@)
        &&& forall|i: int| 0 <= i < self.term_freqs@.len() ==> self.term_freqs@[i] >= 1
    }

    closed spec fn all_docs(&self) -> Seq<DocId> {
        self.docs@
    }

    closed spec fn cursor(&self) -> int {
        self.cursor as int
    }

    closed spec fn same_index_data(&self, other: SegmentPostings) -> bool {
        &&& self.docs@ == other.docs@
        &&& self.term_freqs@ == other.term_freqs@
        &&& self.freq_option == other.freq_option
    }

    proof fn lemma_wf(&self) {
        lemma_sorted_len_bound(self.docs@);
    }

    fn advance(&mut self) -> (r: DocId) {
        if self.cursor < self.docs.len() {
            self.cursor = self.cursor + 1;
        }
        self.doc()
    }

    fn seek(&mut self, target: DocId) -> (r: DocId) {
        while self.cursor < self.docs.len() && self.docs[self.cursor] < target
            invariant
                old(self).wf(),
                self.docs@ == old(self).docs@,
                self.term_freqs@ == old(self).term_freqs@,
                self.freq_option == old(self).freq_option,
                old(self).cursor <= self.cursor <= self.docs@.len(),
                forall|i: int|
                    old(self).cursor() <= i < self.cursor as int ==> self.docs@[i] < target,
            decreases self.docs@.len() - self.cursor,
        {
            self.cursor = self.cursor + 1;
        }
        self.doc()
    }

    fn doc(&self) -> (r: DocId) {
        if self.cursor < self.docs.len() {
            self.docs[self.cursor]
        } else {
            TERMINATED
        }
    }

    fn size_hint(&self) -> (r: u32) {
        proof {
            self.lemma_wf();
        }
        (self.docs.len() - self.cursor) as u32
    }
}

/// Two cursors over the same index data expose the same documents,
/// frequencies and policy: what `advance` and `seek` leave untouched.
pub broadcast proof fn lemma_same_index_data(a: SegmentPostings, b: SegmentPostings)
    requires
        #[trigger] a.same_index_data(b),
    ensures
        a.all_docs() == b.all_docs(),
        a.term_freqs_view() == b.term_freqs_view(),
        a.spec_freq_reading_option() == b.spec_freq_reading_option(),
{
}

/// Every posting of the current block scores at or below the block bound.
pub proof fn lemma_entry_le_block_max(
    p: &SegmentPostings,
    norms: Seq<u8>,
    w: BM25Weight,
    i: int,
    j: int,
)
    requires
        p.spec_block_start() <= i < j,
    ensures
        p.spec_entry_score(norms, w, i) <= p.spec_block_max_upto(norms, w, j),
    decreases j - i,
{
    if j == i + 1 {
        if j > p.spec_block_start() + 1 {
        }
    } else {
        lemma_entry_le_block_max(p, norms, w, i, j - 1);
    }
}

/// The block bound never exceeds the term's global bound, provided no
/// posting in the block reports a frequency above its document's quantized
/// field length.
pub proof fn lemma_block_max_le_max_score(
    p: &SegmentPostings,
    norms: Seq<u8>,
    w: BM25Weight,
    j: int,
)
    requires
        p.wf(),
        w.wf(),
        p.spec_block_start() < j <= p.spec_block_end(),
        p.spec_block_end() <= p.all_docs().len(),
        forall|i: int|
            p.spec_block_start() <= i < j ==> 0 <= (#[trigger] p.all_docs()[i] as int)
                < norms.len(),
        forall|i: int|
            p.spec_block_start() <= i < j ==> #[trigger] p.spec_tf_at(i) <= spec_id_to_fieldnorm(
                norms[p.all_docs()[i] as int] as int,
            ),
    ensures
        p.spec_block_max_upto(norms, w, j) <= spec_max_score(w),
    decreases j,
{
    let start = p.spec_block_start();
    if j > start + 1 {
        lemma_block_max_le_max_score(p, norms, w, j - 1);
    }
    let i = if j <= start + 1 {
        start
    } else {
        j - 1
    };
    let tfi = p.spec_tf_at(i);
    assert(1 <= tfi <= 0xffff_ffff);
    crate::bm25::lemma_score_le_max_score(w, norms[p.all_docs()[i] as int], tfi as u32);
}

} // verus!
