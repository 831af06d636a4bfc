use term_bm25::bm25::BM25Weight;
use term_bm25::SCORE_SCALE;

fn fixture_weight() -> BM25Weight {
    BM25Weight::for_one_term(3, 6, 2560)
}

#[test]
fn test_idf_of_half_corpus_is_ln_two() {
    // df = 3 of n = 6 gives idf = ln((2n + 2) / (2 df + 1)) = ln 2, and the
    // max score is idf * 2.2 / 1.09: check it against ln 2 numerically.
    let w = fixture_weight();
    let max = w.max_score() as f64 / SCORE_SCALE as f64;
    let expected = 0.6931471805599453f64 * 2.2 / 1.09;
    assert!((max - expected).abs() < 1e-4 * expected);
}

#[test]
fn test_score_exact_fixed_point_values() {
    // The exact fixed-point scores this weight assigns.
    let w = fixture_weight();
    assert_eq!(w.score(10, 3), 18274268);
    assert_eq!(w.score(12, 12), 22945269);
    assert_eq!(w.score(36, 8), 12082161);
    assert_eq!(w.max_score(), 23471537);
}

#[test]
fn test_score_strictly_increasing_in_term_freq() {
    let w = fixture_weight();
    let mut previous: u64 = w.score(10, 1);
    for tf in 2u32..50 {
        let next = w.score(10, tf);
        assert!(next > previous);
        previous = next;
    }
}

#[test]
fn test_score_nonincreasing_in_length() {
    let w = fixture_weight();
    let mut previous: u64 = w.score(0, 5);
    for id in 1u16..256 {
        let next = w.score(id as u8, 5);
        assert!(next <= previous);
        previous = next;
    }
}

#[test]
fn test_scores_stay_below_max_score() {
    // Realistic postings never report a frequency above the field length.
    let w = fixture_weight();
    let max = w.max_score();
    for id in 0u16..256 {
        let len = term_bm25::fieldnorm::id_to_fieldnorm(id as u8);
        for tf in [1u32, 2, 5, 100, 1000] {
            if tf <= len {
                assert!(w.score(id as u8, tf) <= max);
            }
        }
    }
}

#[test]
fn test_explain_matches_score() {
    let w = fixture_weight();
    for (id, tf) in [(10u8, 3u32), (12, 12), (36, 8), (0, 1), (239, 1000)] {
        let explanation = w.explain(id, tf);
        assert_eq!(explanation.value, w.score(id, tf));
        assert_eq!(explanation.term_freq, tf);
        assert_eq!(explanation.average_fieldnorm, 2560);
    }
}

#[test]
fn test_average_length_is_clamped() {
    // A segment where the field is always empty must not divide by zero:
    // the average is clamped to the smallest positive value.
    let w = BM25Weight::for_one_term(2, 5, 0);
    assert!(w.max_score() > 0);
    assert!(w.score(0, 1) > 0);
}
