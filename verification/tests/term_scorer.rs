use term_bm25::bm25::BM25Weight;
use term_bm25::docset::DocSet;
use term_bm25::postings::{FreqReadingOption, SegmentPostings};
use term_bm25::scorer::Scorer;
use term_bm25::term_scorer::TermScorer;
use term_bm25::{SCORE_SCALE, TERMINATED};

fn to_float(score: u64) -> f32 {
    (score as f64 / SCORE_SCALE as f64) as f32
}

fn assert_nearly_equals(left: f32, right: f32) {
    assert!(
        (left - right).abs() <= 0.0005 * right.abs(),
        "{} is not nearly {}",
        left,
        right
    );
}

fn fixture_weight() -> BM25Weight {
    // document frequency 3, corpus of 6 documents, average field length
    // 10.0 (scaled by 256).
    BM25Weight::for_one_term(3, 6, 2560)
}

fn fixture_scorer() -> TermScorer {
    let doc_and_tfs = vec![(2u32, 3u32), (3, 12), (7, 8)];
    let fieldnorms = vec![10u32, 12, 100];
    TermScorer::create_for_test(&doc_and_tfs, &fieldnorms, fixture_weight())
}

#[test]
fn test_term_scorer_max_score() {
    let bm25_weight = fixture_weight();
    let doc_and_tfs = vec![(2u32, 3u32), (3, 12), (7, 8)];
    let fieldnorms = vec![10u32, 12, 100];
    let mut term_scorer = TermScorer::create_for_test(&doc_and_tfs, &fieldnorms, bm25_weight);
    let max_scorer = term_scorer.max_score();
    assert_nearly_equals(to_float(max_scorer), 1.3990127f32);
    assert_eq!(term_scorer.doc(), 2);
    assert_eq!(term_scorer.term_freq(), 3);
    assert_nearly_equals(to_float(term_scorer.block_max_score()), 1.3676447f32);
    assert_nearly_equals(to_float(term_scorer.score()), 1.0892314f32);
    assert_eq!(term_scorer.advance(), 3);
    assert_eq!(term_scorer.doc(), 3);
    assert_eq!(term_scorer.term_freq(), 12);
    assert_nearly_equals(to_float(term_scorer.score()), 1.3676447f32);
    assert_eq!(term_scorer.advance(), 7);
    assert_eq!(term_scorer.doc(), 7);
    assert_eq!(term_scorer.term_freq(), 8);
    assert_nearly_equals(to_float(term_scorer.score()), 0.72015285f32);
    assert_eq!(term_scorer.advance(), TERMINATED);
}

#[test]
fn test_advance_returns_sentinel_forever() {
    let mut scorer = fixture_scorer();
    assert_eq!(scorer.advance(), 3);
    assert_eq!(scorer.advance(), 7);
    assert_eq!(scorer.advance(), TERMINATED);
    assert_eq!(scorer.advance(), TERMINATED);
    assert_eq!(scorer.doc(), TERMINATED);
}

#[test]
fn test_docs_strictly_increase() {
    let mut scorer = fixture_scorer();
    let mut previous = scorer.doc();
    loop {
        let next = scorer.advance();
        if next == TERMINATED {
            break;
        }
        assert!(previous < next);
        previous = next;
    }
}

#[test]
fn test_seek() {
    let mut scorer = fixture_scorer();
    assert_eq!(scorer.seek(2), 2);
    assert_eq!(scorer.seek(3), 3);
    assert_eq!(scorer.doc(), 3);
    assert_eq!(scorer.term_freq(), 12);
    assert_eq!(scorer.seek(4), 7);
    assert_eq!(scorer.seek(8), TERMINATED);
    assert_eq!(scorer.seek(TERMINATED), TERMINATED);
}

#[test]
fn test_size_hint_and_doc_freq() {
    let mut scorer = fixture_scorer();
    assert_eq!(scorer.doc_freq(), 3);
    assert_eq!(scorer.size_hint(), 3);
    scorer.advance();
    assert_eq!(scorer.size_hint(), 2);
    assert_eq!(scorer.doc_freq(), 3);
    scorer.advance();
    scorer.advance();
    assert_eq!(scorer.size_hint(), 0);
}

#[test]
fn test_score_bounds_invariant() {
    // Every score is at most the block bound, which is at most the global
    // bound (all term frequencies here stay below the decoded lengths).
    let mut scorer = fixture_scorer();
    let max_score = scorer.max_score();
    let block_max = scorer.block_max_score();
    assert!(block_max <= max_score);
    while scorer.doc() != TERMINATED {
        let score = scorer.score();
        assert!(score <= block_max);
        assert!(score <= max_score);
        scorer.advance();
    }
}

#[test]
fn test_block_max_score_is_block_local() {
    // 130 documents span two decode blocks of 128; the bound follows the
    // cursor's block. All fields have true length 50 (quantized to 48).
    let mut doc_and_tfs: Vec<(u32, u32)> = Vec::new();
    let mut fieldnorms: Vec<u32> = Vec::new();
    for d in 0u32..130 {
        let tf = if d == 5 {
            40
        } else if d == 129 {
            7
        } else {
            1
        };
        doc_and_tfs.push((d, tf));
        fieldnorms.push(50);
    }
    let w = BM25Weight::for_one_term(130, 1000, 2560);
    let mut scorer = TermScorer::create_for_test(&doc_and_tfs, &fieldnorms, w);
    let norm_id = term_bm25::fieldnorm::fieldnorm_to_id(50);
    let first_block_max = scorer.block_max_score();
    assert_eq!(first_block_max, w.score(norm_id, 40));
    assert_eq!(scorer.seek(129), 129);
    let second_block_max = scorer.block_max_score();
    assert_eq!(second_block_max, w.score(norm_id, 7));
    assert!(second_block_max < first_block_max);
    assert!(first_block_max <= scorer.max_score());
}

#[test]
fn test_score_deterministic() {
    let mut scorer = fixture_scorer();
    let first = scorer.score();
    let second = scorer.score();
    assert_eq!(first, second);
    let e1 = scorer.explain();
    let e2 = scorer.explain();
    assert_eq!(e1.value, e2.value);
    assert_eq!(e1.idf, e2.idf);
    assert_eq!(e1.term_freq, e2.term_freq);
    assert_eq!(e1.fieldnorm, e2.fieldnorm);
    assert_eq!(e1.average_fieldnorm, e2.average_fieldnorm);
    assert_eq!(scorer.doc(), 2);
}

#[test]
fn test_explain_total_matches_score() {
    let mut scorer = fixture_scorer();
    while scorer.doc() != TERMINATED {
        let explanation = scorer.explain();
        assert_eq!(explanation.value, scorer.score());
        assert_eq!(explanation.term_freq, scorer.term_freq());
        scorer.advance();
    }
}

#[test]
fn test_explain_factors() {
    let scorer = fixture_scorer();
    let explanation = scorer.explain();
    // doc 2 has true length 10, which quantizes exactly.
    assert_eq!(explanation.term_freq, 3);
    assert_eq!(explanation.fieldnorm, 10);
    assert_eq!(explanation.average_fieldnorm, 2560);
}

#[test]
fn test_fieldnorm_id_readthrough() {
    let mut scorer = fixture_scorer();
    assert_eq!(scorer.fieldnorm_id(), 10);
    scorer.advance();
    assert_eq!(scorer.fieldnorm_id(), 12);
    scorer.advance();
    // length 100 is quantized: 2^6 + 4 * 2^3 = 96, id 16 + 2 * 8 + 4 = 36.
    assert_eq!(scorer.fieldnorm_id(), 36);
}

#[test]
fn test_empty_postings_start_terminated() {
    let empty: Vec<(u32, u32)> = vec![];
    let mut postings = SegmentPostings::create(&empty, FreqReadingOption::ReadFreq);
    assert_eq!(postings.doc(), TERMINATED);
    assert_eq!(postings.advance(), TERMINATED);
    assert_eq!(postings.size_hint(), 0);
    assert_eq!(postings.doc_freq(), 0);
}

#[test]
fn test_skip_freq_reports_placeholder() {
    let doc_and_tfs = vec![(1u32, 4u32), (5, 9)];
    let postings = SegmentPostings::create(&doc_and_tfs, FreqReadingOption::SkipFreq);
    assert!(matches!(
        postings.freq_reading_option(),
        FreqReadingOption::SkipFreq
    ));
    assert_eq!(postings.doc(), 1);
    assert!(postings.term_freq() >= 1);
    assert_eq!(postings.term_freq(), 1);
}

#[test]
fn test_read_freq_reports_stored_counts() {
    let doc_and_tfs = vec![(1u32, 4u32), (5, 9)];
    let mut postings = SegmentPostings::create_from_docs_and_tfs(&doc_and_tfs);
    assert!(matches!(
        postings.freq_reading_option(),
        FreqReadingOption::ReadFreq
    ));
    assert_eq!(postings.term_freq(), 4);
    assert_eq!(postings.advance(), 5);
    assert_eq!(postings.term_freq(), 9);
}
