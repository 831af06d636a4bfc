//! The per-term BM25 relevance weight.
//!
//! A weight is built once per term from the term's document frequency, the
//! corpus document count and the average field length, and is immutable
//! afterwards. Scores are exact fixed-point numbers over `SCORE_SCALE`.
//!
//! With the standard tuning constants `k1 = 1.2` and `b = 0.75`, and an
//! average field length kept in units of `1 / AVG_SCALE`, the BM25 formula
//!
//! `idf * tf * (k1 + 1) / (tf + k1 * (1 - b + b * len / avg))`
//!
//! becomes, after multiplying numerator and denominator by `10 * avg`,
//!
//! `(22 * idf * tf * avg) / (10 * avg * tf + 3 * avg + 2304 * len)`
//!
//! which is evaluated exactly in integers (`2304 = 9 * AVG_SCALE` carries
//! the `k1 * b = 0.9` length penalty). The inverse document frequency
//! `ln(1 + (n - df + 0.5) / (df + 0.5)) = ln((2n + 2) / (2df + 1))` is
//! computed once, at construction, by a deterministic fixed-point natural
//! logarithm.

use crate::fieldnorm::{
    id_to_fieldnorm, lemma_id_to_fieldnorm_monotonic, lemma_id_to_fieldnorm_range,
    spec_id_to_fieldnorm,
};
use crate::{Score, SCORE_SCALE};
use vstd::arithmetic::div_mod::{
    lemma_div_is_ordered, lemma_div_is_ordered_by_denominator, lemma_div_multiples_vanish,
    lemma_fundamental_div_mod, lemma_multiply_divide_le, lemma_multiply_divide_lt,
};
use vstd::arithmetic::power2::{
    lemma2_to64, lemma2_to64_rest, lemma_pow2_adds, lemma_pow2_strictly_increases, pow2,
};
use vstd::prelude::*;

verus! {

/// `ln(2)` in fixed-point over `SCORE_SCALE`.
pub const LN2_SCALED: u64 = 11629080;

/// Fixed-point scale of the average field length: this value represents an
/// average length of one token.
pub const AVG_SCALE: u64 = 256;

/// Largest admitted scaled average field length (the largest representable
/// length, scaled); larger construction inputs are clamped to it.
pub const MAX_AVG_FIELDNORM: u64 = 1099511627776;

/// Strict upper bound on every idf the logarithm can produce.
pub const MAX_IDF: u64 = 0x4000_0000;

/// How often the fixed-point argument of the logarithm is halved before it
/// lies below `2 * SCORE_SCALE`.
pub open spec fn spec_ln_shift(m: int) -> int
    decreases m,
{
    if m < 2 * SCORE_SCALE {
        0
    } else {
        1 + spec_ln_shift(m / 2)
    }
}

/// The halved argument itself, in `[SCORE_SCALE, 2 * SCORE_SCALE)` for
/// arguments of at least `SCORE_SCALE`.
pub open spec fn spec_ln_mantissa(m: int) -> int
    decreases m,
{
    if m < 2 * SCORE_SCALE {
        m
    } else {
        spec_ln_mantissa(m / 2)
    }
}

/// Fixed-point `ln` of a mantissa in `[SCORE_SCALE, 2 * SCORE_SCALE)`, via
/// the inverse hyperbolic tangent series
/// `ln(y) = 2 * (t + t^3/3 + t^5/5 + t^7/7 + t^9/9 + ...)` at
/// `t = (y - 1) / (y + 1)`, truncated after five terms.
pub open spec fn spec_ln_series(m: int) -> int {
    let s = SCORE_SCALE as int;
    let t = (m - s) * s / (m + s);
    let t2 = t * t / s;
    let p3 = t * t2 / s;
    let p5 = p3 * t2 / s;
    let p7 = p5 * t2 / s;
    let p9 = p7 * t2 / s;
    t + p3 / 3 + p5 / 5 + p7 / 7 + p9 / 9
}

/// Deterministic fixed-point natural logarithm of `x / SCORE_SCALE`.
pub open spec fn spec_ln_fixed(x: int) -> int {
    spec_ln_shift(x) * (LN2_SCALED as int) + 2 * spec_ln_series(spec_ln_mantissa(x))
}

/// The idf coefficient for a term: `ln((2n + 2) / (2df + 1))`, the exact
/// rewriting of `ln(1 + (n - df + 0.5) / (df + 0.5))`.
pub open spec fn spec_idf(doc_freq: int, total_docs: int) -> int {
    spec_ln_fixed((2 * total_docs + 2) * (SCORE_SCALE as int) / (2 * doc_freq + 1))
}

/// The scaled average field length actually stored: clamped to at least one
/// (a segment of only empty fields must not divide by zero) and to the
/// largest representable length.
pub open spec fn spec_clamp_avg(avg: int) -> int {
    if avg < 1 {
        1
    } else if avg > MAX_AVG_FIELDNORM {
        MAX_AVG_FIELDNORM as int
    } else {
        avg
    }
}

/// Numerator of the exact BM25 score as a fraction.
pub open spec fn spec_score_num(idf: int, avg: int, tf: int) -> int {
    22 * idf * tf * avg
}

/// Denominator of the exact BM25 score as a fraction.
pub open spec fn spec_score_den(avg: int, fieldnorm: int, tf: int) -> int {
    10 * avg * tf + 3 * avg + 2304 * fieldnorm
}

/// The fixed-point BM25 score: the exact fraction, rounded down to a
/// multiple of `1 / SCORE_SCALE` (the idf factor already carries the
/// scale).
pub open spec fn spec_score_value(idf: int, avg: int, fieldnorm: int, tf: int) -> int {
    spec_score_num(idf, avg, tf) / spec_score_den(avg, fieldnorm, tf)
}

/// The score of a document presented by its norm id and term frequency.
pub open spec fn spec_score(w: BM25Weight, fieldnorm_id: u8, term_freq: u32) -> int {
    spec_score_value(
        w.idf() as int,
        w.average_fieldnorm() as int,
        spec_id_to_fieldnorm(fieldnorm_id as int),
        term_freq as int,
    )
}

/// The global score bound for the term: the supremum of the score as term
/// frequency and field length grow together without bound,
/// `idf * (k1 + 1) / (1 + k1 * b / avg)` in fixed point.
pub open spec fn spec_max_score(w: BM25Weight) -> int {
    22 * (w.idf() as int) * (w.average_fieldnorm() as int) / (10 * (w.average_fieldnorm() as int)
        + 2304)
}

/// Fixed-point natural logarithm of `x / SCORE_SCALE`, for `x` of at least
/// `SCORE_SCALE` (arguments of at least one).
pub fn ln_fixed(x: u64) -> (r: u64)
    requires
        x >= SCORE_SCALE,
    ensures
        r as int == spec_ln_fixed(x as int),
        r < MAX_IDF,
{
    let mut m: u64 = x;
    let mut k: u64 = 0;
    proof {
        lemma2_to64();
        lemma2_to64_rest();
    }
    while m >= 2 * SCORE_SCALE
        invariant
            m >= SCORE_SCALE,
            k <= 40,
            spec_ln_shift(x as int) == k + spec_ln_shift(m as int),
            spec_ln_mantissa(x as int) == spec_ln_mantissa(m as int),
            (pow2(k as nat) as int) * (m as int) <= x as int,
        decreases m,
    {
        proof {
            lemma2_to64();
            lemma2_to64_rest();
            lemma_pow2_adds(k as nat, 1);
            lemma_fundamental_div_mod(m as int, 2);
            assert((pow2((k + 1) as nat) as int) * ((m as int) / 2) <= (pow2(k as nat) as int) * (
            m as int)) by (nonlinear_arith)
                requires
                    pow2((k + 1) as nat) == 2 * pow2(k as nat),
                    2 * ((m as int) / 2) <= m as int,
                    pow2(k as nat) >= 1,
                    (m as int) / 2 >= 0,
            ;
            if k == 40 {
                lemma_pow2_adds(41, 24);
                lemma_pow2_strictly_increases(64, 65);
                assert((pow2(41) as int) * (SCORE_SCALE as int) <= (pow2(41) as int) * ((
                m as int) / 2)) by (nonlinear_arith)
                    requires
                        (m as int) / 2 >= SCORE_SCALE,
                        pow2(41) >= 1,
                ;
                assert(false);
            }
        }
        m = m / 2;
        k = k + 1;
    }
    // m is now the mantissa, in [SCORE_SCALE, 2 * SCORE_SCALE).
    let t: u64 = ((m - SCORE_SCALE) * SCORE_SCALE) / (m + SCORE_SCALE);
    proof {
        lemma_multiply_divide_lt(
            ((m - SCORE_SCALE) * SCORE_SCALE) as int,
            (m + SCORE_SCALE) as int,
            SCORE_SCALE as int,
        );
        assert((t as int) * (t as int) < (SCORE_SCALE as int) * (SCORE_SCALE as int))
            by (nonlinear_arith)
            requires
                0 <= (t as int) < (SCORE_SCALE as int),
        ;
    }
    let t2: u64 = (t * t) / SCORE_SCALE;
    proof {
        lemma_multiply_divide_lt((t * t) as int, SCORE_SCALE as int, SCORE_SCALE as int);
        assert((t as int) * (t2 as int) < (SCORE_SCALE as int) * (SCORE_SCALE as int))
            by (nonlinear_arith)
            requires
                0 <= (t as int) < (SCORE_SCALE as int),
                0 <= (t2 as int) < (SCORE_SCALE as int),
        ;
    }
    let p3: u64 = (t * t2) / SCORE_SCALE;
    proof {
        lemma_multiply_divide_lt((t * t2) as int, SCORE_SCALE as int, SCORE_SCALE as int);
        assert((p3 as int) * (t2 as int) < (SCORE_SCALE as int) * (SCORE_SCALE as int))
            by (nonlinear_arith)
            requires
                0 <= (p3 as int) < (SCORE_SCALE as int),
                0 <= (t2 as int) < (SCORE_SCALE as int),
        ;
    }
    let p5: u64 = (p3 * t2) / SCORE_SCALE;
    proof {
        lemma_multiply_divide_lt((p3 * t2) as int, SCORE_SCALE as int, SCORE_SCALE as int);
        assert((p5 as int) * (t2 as int) < (SCORE_SCALE as int) * (SCORE_SCALE as int))
            by (nonlinear_arith)
            requires
                0 <= (p5 as int) < (SCORE_SCALE as int),
                0 <= (t2 as int) < (SCORE_SCALE as int),
        ;
    }
    let p7: u64 = (p5 * t2) / SCORE_SCALE;
    proof {
        lemma_multiply_divide_lt((p5 * t2) as int, SCORE_SCALE as int, SCORE_SCALE as int);
        assert((p7 as int) * (t2 as int) < (SCORE_SCALE as int) * (SCORE_SCALE as int))
            by (nonlinear_arith)
            requires
                0 <= (p7 as int) < (SCORE_SCALE as int),
                0 <= (t2 as int) < (SCORE_SCALE as int),
        ;
    }
    let p9: u64 = (p7 * t2) / SCORE_SCALE;
    proof {
        lemma_multiply_divide_lt((p7 * t2) as int, SCORE_SCALE as int, SCORE_SCALE as int);
    }
    let series: u64 = t + p3 / 3 + p5 / 5 + p7 / 7 + p9 / 9;
    k * LN2_SCALED + 2 * series
}

/// A per-term, immutable BM25 weight: the idf-derived coefficient and the
/// clamped average field length it was built with.
#[derive(Clone, Copy)]
pub struct BM25Weight {
    idf: u64,
    average_fieldnorm: u64,
}

impl BM25Weight {
    /// The fixed-point idf coefficient.
    pub closed spec fn idf(&self) -> u64 {
        self.idf
    }

    /// The scaled average field length, clamped to be positive.
    pub closed spec fn average_fieldnorm(&self) -> u64 {
        self.average_fieldnorm
    }

    /// Bounds every constructed weight satisfies; they keep all score
    /// arithmetic exact in machine integers.
    pub open spec fn wf(&self) -> bool {
        &&& self.idf() < MAX_IDF
        &&& 1 <= self.average_fieldnorm() <= MAX_AVG_FIELDNORM
    }

    /// Builds the weight for one term from the term's document frequency,
    /// the corpus document count and the scaled average field length (in
    /// units of `1 / AVG_SCALE`). A term absent from the corpus, or an
    /// empty corpus, must not be scored: the document frequency must be
    /// positive and no larger than the corpus size.
    pub fn for_one_term(term_doc_freq: u64, total_num_docs: u64, average_fieldnorm: u64) -> (r:
        BM25Weight)
        requires
            1 <= term_doc_freq <= total_num_docs,
            total_num_docs <= 0xffff_ffff,
        ensures
            r.wf(),
            r.idf() as int == spec_idf(term_doc_freq as int, total_num_docs as int),
            r.average_fieldnorm() as int == spec_clamp_avg(average_fieldnorm as int),
    {
        let num: u64 = (2 * total_num_docs + 2) * SCORE_SCALE;
        let den: u64 = 2 * term_doc_freq + 1;
        let q: u64 = num / den;
        proof {
            lemma_div_multiples_vanish(SCORE_SCALE as int, den as int);
            lemma_div_is_ordered((den as int) * (SCORE_SCALE as int), num as int, den as int);
        }
        let idf: u64 = ln_fixed(q);
        let avg: u64 = if average_fieldnorm < 1 {
            1
        } else if average_fieldnorm > MAX_AVG_FIELDNORM {
            MAX_AVG_FIELDNORM
        } else {
            average_fieldnorm
        };
        BM25Weight { idf, average_fieldnorm: avg }
    }

    /// The BM25 score of a document with the given norm id and term
    /// frequency, exact over the fixed-point model.
    pub fn score(&self, fieldnorm_id: u8, term_freq: u32) -> (r: Score)
        requires
            self.wf(),
        ensures
            r as int == spec_score(*self, fieldnorm_id, term_freq),
    {
        let fieldnorm: u32 = id_to_fieldnorm(fieldnorm_id);
        let idf: u128 = self.idf as u128;
        let avg: u128 = self.average_fieldnorm as u128;
        let tf: u128 = term_freq as u128;
        let fnorm: u128 = fieldnorm as u128;
        let a1: u128 = 22 * idf;
        proof {
            assert((a1 as int) * (tf as int) <= 0x58_0000_0000 * 0x1_0000_0000)
                by (nonlinear_arith)
                requires
                    0 <= a1 as int <= 0x58_0000_0000,
                    0 <= tf as int <= 0x1_0000_0000,
            ;
        }
        let a2: u128 = a1 * tf;
        proof {
            assert((a2 as int) * (avg as int) <= 0x5800_0000_0000_0000_0000 * 0x100_0000_0000)
                by (nonlinear_arith)
                requires
                    0 <= a2 as int <= 0x5800_0000_0000_0000_0000,
                    0 <= avg as int <= 0x100_0000_0000,
            ;
        }
        let num: u128 = a2 * avg;
        let d1: u128 = 10 * avg;
        proof {
            assert((d1 as int) * (tf as int) <= 0xA00_0000_0000 * 0x1_0000_0000)
                by (nonlinear_arith)
                requires
                    0 <= d1 as int <= 0xA00_0000_0000,
                    0 <= tf as int <= 0x1_0000_0000,
            ;
        }
        let d2: u128 = d1 * tf;
        let den: u128 = d2 + 3 * avg + 2304 * fnorm;
        proof {
            assert(num as int <= (den as int) * (3 * (idf as int))) by (nonlinear_arith)
                requires
                    num as int == 22 * (idf as int) * (tf as int) * (avg as int),
                    den as int == 10 * (avg as int) * (tf as int) + 3 * (avg as int) + 2304 * (
                    fnorm as int),
                    0 <= idf as int,
                    1 <= avg as int,
                    0 <= tf as int,
                    0 <= fnorm as int,
            ;
        }
        let q: u128 = num / den;
        proof {
            lemma_multiply_divide_le(num as int, den as int, 3 * (idf as int));
        }
        q as u64
    }

    /// A global upper bound for pruning: no `score` call whose reported
    /// term frequency stays within the document's quantized field length
    /// can exceed it (`lemma_score_le_max_score`; quantization rounds the
    /// length down, so a frequency above the quantized length can step
    /// slightly over the bound).
    pub fn max_score(&self) -> (r: Score)
        requires
            self.wf(),
        ensures
            r as int == spec_max_score(*self),
    {
        let idf: u128 = self.idf as u128;
        let avg: u128 = self.average_fieldnorm as u128;
        let a1: u128 = 22 * idf;
        proof {
            assert((a1 as int) * (avg as int) <= 0x58_0000_0000 * 0x100_0000_0000)
                by (nonlinear_arith)
                requires
                    0 <= a1 as int <= 0x58_0000_0000,
                    0 <= avg as int <= 0x100_0000_0000,
            ;
        }
        let num: u128 = a1 * avg;
        let den: u128 = 10 * avg + 2304;
        proof {
            assert(num as int <= (den as int) * (3 * (idf as int))) by (nonlinear_arith)
                requires
                    num as int == 22 * (idf as int) * (avg as int),
                    den as int == 10 * (avg as int) + 2304,
                    0 <= idf as int,
                    1 <= avg as int,
            ;
        }
        let q: u128 = num / den;
        proof {
            lemma_multiply_divide_le(num as int, den as int, 3 * (idf as int));
        }
        q as u64
    }

    /// The same number as `score`, broken into the factors it is computed
    /// from; a pure decomposition for diagnostics. The total always equals
    /// what `score` returns for the same norm id and term frequency.
    pub fn explain(&self, fieldnorm_id: u8, term_freq: u32) -> (r: Explanation)
        requires
            self.wf(),
        ensures
            r.value as int == spec_score(*self, fieldnorm_id, term_freq),
            r.idf == self.idf(),
            r.term_freq == term_freq,
            r.fieldnorm as int == spec_id_to_fieldnorm(fieldnorm_id as int),
            r.average_fieldnorm == self.average_fieldnorm(),
    {
        let value: Score = self.score(fieldnorm_id, term_freq);
        let fieldnorm: u32 = id_to_fieldnorm(fieldnorm_id);
        Explanation {
            value,
            idf: self.idf,
            term_freq,
            fieldnorm,
            average_fieldnorm: self.average_fieldnorm,
        }
    }
}

/// A breakdown of one score: the total and every factor that entered it.
pub struct Explanation {
    /// The score itself.
    pub value: Score,
    /// The fixed-point idf coefficient of the term.
    pub idf: u64,
    /// The term frequency the score was computed with.
    pub term_freq: u32,
    /// The quantized field length the norm id decoded to.
    pub fieldnorm: u32,
    /// The scaled average field length of the weight.
    pub average_fieldnorm: u64,
}

/// Comparing two non-negative fractions by cross-multiplication.
proof fn lemma_div_le_div(a: int, b: int, c: int, d: int)
    requires
        0 <= a,
        0 < b,
        0 <= c,
        0 < d,
        a * d <= c * b,
    ensures
        a / b <= c / d,
{
    lemma_fundamental_div_mod(a, b);
    lemma_fundamental_div_mod(c, d);
    assert(a / b <= c / d) by (nonlinear_arith)
        requires
            a == b * (a / b) + a % b,
            0 <= a % b < b,
            c == d * (c / d) + c % d,
            0 <= c % d < d,
            a * d <= c * b,
            0 < b,
            0 < d,
            0 <= a,
            0 <= c,
    ;
}

/// Score bound invariant: the score of any document whose term frequency
/// does not exceed its quantized field length stays at or below the global
/// bound `max_score`. (A term cannot occur more often than the field is
/// long, so matched documents satisfy the hypothesis up to quantization.)
pub proof fn lemma_score_le_max_score(w: BM25Weight, fieldnorm_id: u8, term_freq: u32)
    requires
        w.wf(),
        1 <= term_freq,
        term_freq as int <= spec_id_to_fieldnorm(fieldnorm_id as int),
    ensures
        spec_score(w, fieldnorm_id, term_freq) <= spec_max_score(w),
{
    let i = w.idf() as int;
    let a = w.average_fieldnorm() as int;
    let l = spec_id_to_fieldnorm(fieldnorm_id as int);
    let tf = term_freq as int;
    lemma_id_to_fieldnorm_range(fieldnorm_id as int);
    assert(22 * i * tf * a * (10 * a + 2304) <= 22 * i * a * (10 * a * tf + 3 * a + 2304 * l) && 0
        < 10 * a * tf + 3 * a + 2304 * l && 0 <= 22 * i * tf * a && 0 <= 22 * i * a)
        by (nonlinear_arith)
        requires
            0 <= i,
            1 <= a,
            1 <= tf,
            tf <= l,
    ;
    lemma_div_le_div(22 * i * tf * a, 10 * a * tf + 3 * a + 2304 * l, 22 * i * a, 10 * a + 2304);
}

/// Length monotonicity: holding the term frequency fixed, the score never
/// grows as the quantized length code grows (longer documents are
/// penalized).
pub proof fn lemma_score_nonincreasing_in_fieldnorm(
    w: BM25Weight,
    fieldnorm_id1: u8,
    fieldnorm_id2: u8,
    term_freq: u32,
)
    requires
        w.wf(),
        fieldnorm_id1 <= fieldnorm_id2,
    ensures
        spec_score(w, fieldnorm_id2, term_freq) <= spec_score(w, fieldnorm_id1, term_freq),
{
    let i = w.idf() as int;
    let a = w.average_fieldnorm() as int;
    let l1 = spec_id_to_fieldnorm(fieldnorm_id1 as int);
    let l2 = spec_id_to_fieldnorm(fieldnorm_id2 as int);
    let tf = term_freq as int;
    lemma_id_to_fieldnorm_monotonic(fieldnorm_id1 as int, fieldnorm_id2 as int);
    lemma_id_to_fieldnorm_range(fieldnorm_id1 as int);
    assert(0 <= 22 * i * tf * a && 1 <= 10 * a * tf + 3 * a + 2304 * l1 <= 10 * a * tf + 3 * a
        + 2304 * l2) by (nonlinear_arith)
        requires
            0 <= i,
            1 <= a,
            0 <= tf,
            0 <= l1 <= l2,
    ;
    lemma_div_is_ordered_by_denominator(
        22 * i * tf * a,
        10 * a * tf + 3 * a + 2304 * l1,
        10 * a * tf + 3 * a + 2304 * l2,
    );
}

/// Frequency monotonicity, exact form: holding the length fixed, the score
/// as an exact fraction is strictly increasing in the term frequency
/// whenever the idf coefficient is positive. (The fixed-point rounding can
/// collapse a strict increase onto the same multiple of `1 / SCORE_SCALE`;
/// the rounded score is still non-decreasing, see
/// `lemma_score_nondecreasing_in_term_freq`.)
pub proof fn lemma_score_strictly_increasing_in_term_freq(
    w: BM25Weight,
    fieldnorm_id: u8,
    tf1: u32,
    tf2: u32,
)
    requires
        w.wf(),
        w.idf() >= 1,
        tf1 < tf2,
    ensures
        spec_score_num(w.idf() as int, w.average_fieldnorm() as int, tf1 as int) * spec_score_den(
            w.average_fieldnorm() as int,
            spec_id_to_fieldnorm(fieldnorm_id as int),
            tf2 as int,
        ) < spec_score_num(w.idf() as int, w.average_fieldnorm() as int, tf2 as int)
            * spec_score_den(
            w.average_fieldnorm() as int,
            spec_id_to_fieldnorm(fieldnorm_id as int),
            tf1 as int,
        ),
{
    let i = w.idf() as int;
    let a = w.average_fieldnorm() as int;
    let l = spec_id_to_fieldnorm(fieldnorm_id as int);
    lemma_id_to_fieldnorm_range(fieldnorm_id as int);
    assert(22 * i * (tf1 as int) * a * (10 * a * (tf2 as int) + 3 * a + 2304 * l) < 22 * i * (
    tf2 as int) * a * (10 * a * (tf1 as int) + 3 * a + 2304 * l)) by (nonlinear_arith)
        requires
            1 <= i,
            1 <= a,
            0 <= l,
            0 <= (tf1 as int) < (tf2 as int),
    ;
}

/// Frequency monotonicity, rounded form: the fixed-point score never
/// decreases as the term frequency grows.
pub proof fn lemma_score_nondecreasing_in_term_freq(
    w: BM25Weight,
    fieldnorm_id: u8,
    tf1: u32,
    tf2: u32,
)
    requires
        w.wf(),
        tf1 <= tf2,
    ensures
        spec_score(w, fieldnorm_id, tf1) <= spec_score(w, fieldnorm_id, tf2),
{
    let i = w.idf() as int;
    let a = w.average_fieldnorm() as int;
    let l = spec_id_to_fieldnorm(fieldnorm_id as int);
    lemma_id_to_fieldnorm_range(fieldnorm_id as int);
    assert(22 * i * (tf1 as int) * a * (10 * a * (tf2 as int) + 3 * a + 2304 * l) <= 22 * i * (
    tf2 as int) * a * (10 * a * (tf1 as int) + 3 * a + 2304 * l) && 0 <= 22 * i * (tf1 as int) * a
        && 0 < 10 * a * (tf1 as int) + 3 * a + 2304 * l && 0 <= 22 * i * (tf2 as int) * a && 0 < 10
        * a * (tf2 as int) + 3 * a + 2304 * l) by (nonlinear_arith)
        requires
            0 <= i,
            1 <= a,
            0 <= l,
            0 <= tf1 as int <= tf2 as int,
    ;
    lemma_div_le_div(
        22 * i * (tf1 as int) * a,
        10 * a * (tf1 as int) + 3 * a + 2304 * l,
        22 * i * (tf2 as int) * a,
        10 * a * (tf2 as int) + 3 * a + 2304 * l,
    );
}

} // verus!
