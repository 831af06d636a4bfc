//! Lossy quantization of per-document field lengths into one-byte norm ids,
//! and the read-only per-segment reader that stores one id per document.
//!
//! The encoding is exact for lengths below 16; above that a length is kept
//! with a three-bit mantissa: a length `n` with `2^e <= n < 2^(e+1)` is
//! rounded down to `2^e + m * 2^(e-3)` where `m` is the mantissa. The
//! mapping is monotonic, rounds down, and is invertible on its code points;
//! ids 240 and above are never produced by the encoder and decode to the
//! largest representable length.

use crate::DocId;
use vstd::arithmetic::div_mod::{
    lemma_div_is_ordered, lemma_div_multiples_vanish, lemma_fundamental_div_mod,
    lemma_fundamental_div_mod_converse, lemma_multiply_divide_lt,
};
use vstd::arithmetic::power2::{
    lemma2_to64, lemma2_to64_rest, lemma_pow2_adds, lemma_pow2_pos, lemma_pow2_strictly_increases,
    pow2,
};
use vstd::prelude::*;

verus! {

/// The largest norm id the encoder can produce.
pub const MAX_NORM_ID: u8 = 239;

/// Floor of the base-two logarithm.
pub open spec fn spec_floor_log2(n: int) -> nat
    decreases n,
{
    if n < 2 {
        0
    } else {
        1 + spec_floor_log2(n / 2)
    }
}

/// The quantized length a norm id stands for.
pub open spec fn spec_id_to_fieldnorm(id: int) -> int {
    if id < 16 {
        id
    } else if id <= MAX_NORM_ID {
        let e = (id - 16) / 8 + 4;
        let m = (id - 16) % 8;
        pow2(e as nat) + m * pow2((e - 3) as nat)
    } else {
        0xffff_ffff
    }
}

/// The norm id a true field length is quantized to.
pub open spec fn spec_fieldnorm_to_id(n: int) -> int {
    if n < 16 {
        n
    } else {
        let e = spec_floor_log2(n) as int;
        16 + (e - 4) * 8 + (n - pow2(e as nat)) / (pow2((e - 3) as nat) as int)
    }
}

/// `spec_floor_log2` is the exponent that brackets its argument between two
/// consecutive powers of two.
pub proof fn lemma_floor_log2_bracket(n: int)
    requires
        n >= 1,
    ensures
        pow2(spec_floor_log2(n)) <= n < pow2(spec_floor_log2(n) + 1),
    decreases n,
{
    lemma2_to64();
    if n < 2 {
    } else {
        let l: nat = spec_floor_log2(n / 2);
        lemma_floor_log2_bracket(n / 2);
        lemma_fundamental_div_mod(n, 2);
        assert(pow2(l + 1) == 2 * pow2(l)) by {
            lemma_pow2_adds(l, 1);
        }
        assert(pow2(l + 2) == 2 * pow2(l + 1)) by {
            lemma_pow2_adds(l + 1, 1);
        }
    }
}

/// A number bracketed between `pow2(e)` and `pow2(e + 1)` has floor log `e`.
pub proof fn lemma_floor_log2_unique(n: int, e: nat)
    requires
        pow2(e) <= n < pow2(e + 1),
    ensures
        spec_floor_log2(n) == e,
    decreases e,
{
    lemma2_to64();
    if e == 0 {
    } else {
        assert(pow2(e) == 2 * pow2((e - 1) as nat)) by {
            lemma_pow2_adds((e - 1) as nat, 1);
        }
        assert(pow2(e + 1) == 2 * pow2(e)) by {
            lemma_pow2_adds(e, 1);
        }
        lemma_pow2_pos((e - 1) as nat);
        // n / 2 is bracketed by pow2(e - 1) and pow2(e).
        assert(n / 2 >= pow2((e - 1) as nat)) by {
            lemma_div_is_ordered(2 * (pow2((e - 1) as nat) as int), n, 2);
            lemma_div_multiples_vanish(pow2((e - 1) as nat) as int, 2);
        }
        assert(n / 2 < pow2(e)) by {
            lemma_multiply_divide_lt(n, 2, pow2(e) as int);
        }
        lemma_floor_log2_unique(n / 2, (e - 1) as nat);
    }
}

/// The floor log is monotonic.
pub proof fn lemma_floor_log2_monotonic(n1: int, n2: int)
    requires
        1 <= n1 <= n2,
    ensures
        spec_floor_log2(n1) <= spec_floor_log2(n2),
{
    let e1 = spec_floor_log2(n1);
    let e2 = spec_floor_log2(n2);
    lemma_floor_log2_bracket(n1);
    lemma_floor_log2_bracket(n2);
    if e1 > e2 {
        if e1 > e2 + 1 {
            lemma_pow2_strictly_increases(e2 + 1, e1);
        }
        assert(pow2(e2 + 1) <= pow2(e1));
        assert(false);
    }
}

/// For lengths of at least 16 the encoder's exponent lies between 4 and 31
/// and its mantissa between 0 and 7.
proof fn lemma_encode_shape(n: int)
    requires
        16 <= n <= 0xffff_ffff,
    ensures
        4 <= spec_floor_log2(n) <= 31,
        0 <= (n - pow2(spec_floor_log2(n))) / (pow2((spec_floor_log2(n) - 3) as nat) as int) < 8,
        16 <= spec_fieldnorm_to_id(n) <= MAX_NORM_ID,
{
    let e = spec_floor_log2(n);
    lemma_floor_log2_bracket(n);
    lemma2_to64();
    lemma2_to64_rest();
    if e < 4 {
        lemma_pow2_strictly_increases(e + 1, 4);
        assert(false);
    }
    if e > 31 {
        lemma_pow2_strictly_increases(32, e);
        assert(false);
    }
    let s = pow2((e - 3) as nat) as int;
    lemma_pow2_pos((e - 3) as nat);
    assert(pow2(e) == 8 * s) by {
        lemma_pow2_adds((e - 3) as nat, 3);
    }
    assert(n - pow2(e) < 8 * s);
    lemma_multiply_divide_lt(n - pow2(e), s, 8);
    assert((n - pow2(e)) / s >= 0) by {
        lemma_div_is_ordered(0, n - pow2(e), s);
    }
}

/// Quantization rounds down: decoding the id of a length never exceeds the
/// true length.
pub proof fn lemma_decode_encode_le(n: int)
    requires
        0 <= n <= 0xffff_ffff,
    ensures
        spec_id_to_fieldnorm(spec_fieldnorm_to_id(n)) <= n,
{
    if n >= 16 {
        let e = spec_floor_log2(n) as int;
        lemma_encode_shape(n);
        lemma_floor_log2_bracket(n);
        let s = pow2((e - 3) as nat) as int;
        lemma_pow2_pos((e - 3) as nat);
        let m = (n - pow2(e as nat)) / s;
        let id = 16 + (e - 4) * 8 + m;
        assert((id - 16) / 8 == e - 4 && (id - 16) % 8 == m) by {
            lemma_fundamental_div_mod_converse(id - 16, 8, e - 4, m);
        }
        assert(m * s <= n - pow2(e as nat)) by {
            lemma_fundamental_div_mod(n - pow2(e as nat), s);
        }
    }
}

/// The encoding is invertible on its code points: encoding a decoded id
/// gives the id back.
pub proof fn lemma_encode_decode_id(id: int)
    requires
        0 <= id <= MAX_NORM_ID,
    ensures
        spec_fieldnorm_to_id(spec_id_to_fieldnorm(id)) == id,
{
    if id >= 16 {
        let e = (id - 16) / 8 + 4;
        let m = (id - 16) % 8;
        let s = pow2((e - 3) as nat) as int;
        let v = pow2(e as nat) + m * s;
        lemma2_to64();
        lemma2_to64_rest();
        lemma_pow2_pos((e - 3) as nat);
        lemma_pow2_pos(e as nat);
        assert(0 <= (id - 16) / 8 <= 27 && 0 <= m < 8) by {
            lemma_fundamental_div_mod(id - 16, 8);
        }
        assert(pow2(e as nat) == 8 * s) by {
            lemma_pow2_adds((e - 3) as nat, 3);
        }
        assert(m * s <= 7 * s) by (nonlinear_arith)
            requires m <= 7, s > 0;
        assert(v < pow2((e + 1) as nat)) by {
            lemma_pow2_adds(e as nat, 1);
        }
        lemma_floor_log2_unique(v, e as nat);
        assert((v - pow2(e as nat)) / s == m) by {
            lemma_div_multiples_vanish(m, s);
        }
        assert(16 + (e - 4) * 8 + m == id);
    }
}

/// Decoding is monotonic in the norm id.
pub proof fn lemma_id_to_fieldnorm_monotonic(id1: int, id2: int)
    requires
        0 <= id1 <= id2 <= 255,
    ensures
        spec_id_to_fieldnorm(id1) <= spec_id_to_fieldnorm(id2),
{
    lemma2_to64();
    lemma2_to64_rest();
    if id1 < 16 && 16 <= id2 && id2 <= MAX_NORM_ID {
        let e2 = (id2 - 16) / 8 + 4;
        let m2 = (id2 - 16) % 8;
        lemma_fundamental_div_mod(id2 - 16, 8);
        lemma_pow2_pos((e2 - 3) as nat);
        if e2 > 4 {
            lemma_pow2_strictly_increases(4, e2 as nat);
        }
        assert(m2 * pow2((e2 - 3) as nat) >= 0);
    } else if 16 <= id1 && id2 <= MAX_NORM_ID {
        let e1 = (id1 - 16) / 8 + 4;
        let m1 = (id1 - 16) % 8;
        let e2 = (id2 - 16) / 8 + 4;
        let m2 = (id2 - 16) % 8;
        lemma_fundamental_div_mod(id1 - 16, 8);
        lemma_fundamental_div_mod(id2 - 16, 8);
        lemma_div_is_ordered(id1 - 16, id2 - 16, 8);
        lemma_pow2_pos((e1 - 3) as nat);
        lemma_pow2_pos((e2 - 3) as nat);
        let s1 = pow2((e1 - 3) as nat) as int;
        let s2 = pow2((e2 - 3) as nat) as int;
        assert(pow2(e1 as nat) == 8 * s1) by {
            lemma_pow2_adds((e1 - 3) as nat, 3);
        }
        assert(pow2(e2 as nat) == 8 * s2) by {
            lemma_pow2_adds((e2 - 3) as nat, 3);
        }
        if e1 == e2 {
            assert(m1 <= m2);
            assert(m1 * s1 <= m2 * s1) by (nonlinear_arith)
                requires m1 <= m2, s1 > 0;
        } else {
            // e1 < e2: the value at (e1, m1) stays below pow2(e1 + 1),
            // which is at most pow2(e2).
            assert(m1 * s1 <= 7 * s1) by (nonlinear_arith)
                requires m1 <= 7, s1 > 0;
            assert(pow2(e1 as nat) + 7 * s1 < 2 * pow2(e1 as nat));
            assert(2 * pow2(e1 as nat) == pow2((e1 + 1) as nat)) by {
                lemma_pow2_adds(e1 as nat, 1);
            }
            if e1 + 1 < e2 {
                lemma_pow2_strictly_increases((e1 + 1) as nat, e2 as nat);
            }
            assert(m2 * s2 >= 0) by (nonlinear_arith)
                requires m2 >= 0, s2 > 0;
        }
    } else if id2 > MAX_NORM_ID && 16 <= id1 <= MAX_NORM_ID {
        let e1 = (id1 - 16) / 8 + 4;
        let m1 = (id1 - 16) % 8;
        lemma_fundamental_div_mod(id1 - 16, 8);
        let s1 = pow2((e1 - 3) as nat) as int;
        lemma_pow2_pos((e1 - 3) as nat);
        assert(pow2(e1 as nat) == 8 * s1) by {
            lemma_pow2_adds((e1 - 3) as nat, 3);
        }
        assert(m1 * s1 <= 7 * s1) by (nonlinear_arith)
            requires m1 <= 7, s1 > 0;
        if e1 < 31 {
            lemma_pow2_strictly_increases(e1 as nat, 31);
        }
        assert(pow2(e1 as nat) + 7 * s1 < 2 * pow2(e1 as nat));
    }
}

/// Every norm id decodes to a representable length.
pub proof fn lemma_id_to_fieldnorm_range(id: int)
    requires
        0 <= id <= 255,
    ensures
        0 <= spec_id_to_fieldnorm(id) <= 0xffff_ffff,
{
    lemma2_to64();
    lemma2_to64_rest();
    if 16 <= id && id <= MAX_NORM_ID {
        let e = (id - 16) / 8 + 4;
        let m = (id - 16) % 8;
        lemma_fundamental_div_mod(id - 16, 8);
        lemma_div_is_ordered(0, id - 16, 8);
        lemma_div_is_ordered(id - 16, 223, 8);
        let s = pow2((e - 3) as nat) as int;
        lemma_pow2_pos((e - 3) as nat);
        if e < 31 {
            lemma_pow2_strictly_increases(e as nat, 31);
        }
        if e - 3 < 28 {
            lemma_pow2_strictly_increases((e - 3) as nat, 28);
        }
        assert(m * s >= 0) by (nonlinear_arith)
            requires m >= 0, s > 0;
        assert(m * s <= 7 * 268435456) by (nonlinear_arith)
            requires m <= 7, 0 < s <= 268435456;
    }
}

/// Encoding is monotonic: a larger true length never gets a smaller id.
pub proof fn lemma_fieldnorm_to_id_monotonic(n1: int, n2: int)
    requires
        0 <= n1 <= n2 <= 0xffff_ffff,
    ensures
        spec_fieldnorm_to_id(n1) <= spec_fieldnorm_to_id(n2),
{
    if n1 >= 16 {
        let e1 = spec_floor_log2(n1) as int;
        let e2 = spec_floor_log2(n2) as int;
        lemma_encode_shape(n1);
        lemma_encode_shape(n2);
        lemma_floor_log2_bracket(n1);
        lemma_floor_log2_bracket(n2);
        lemma_floor_log2_monotonic(n1, n2);
        let s1 = pow2((e1 - 3) as nat) as int;
        let s2 = pow2((e2 - 3) as nat) as int;
        lemma_pow2_pos((e1 - 3) as nat);
        lemma_pow2_pos((e2 - 3) as nat);
        if e1 == e2 {
            lemma_div_is_ordered(n1 - pow2(e1 as nat), n2 - pow2(e2 as nat), s1);
        } else {
            assert((n1 - pow2(e1 as nat)) / s1 < 8);
            assert((n2 - pow2(e2 as nat)) / s2 >= 0);
        }
    } else if n2 >= 16 {
        lemma_encode_shape(n2);
    }
}

/// Computes `2^e` for exponents up to 31.
fn pow2_u32(e: u32) -> (r: u32)
    requires
        e <= 31,
    ensures
        r as int == pow2(e as nat),
{
    let mut i: u32 = 0;
    let mut p: u32 = 1;
    proof {
        lemma2_to64();
        lemma2_to64_rest();
    }
    while i < e
        invariant
            i <= e <= 31,
            p as int == pow2(i as nat),
        decreases e - i,
    {
        proof {
            lemma2_to64();
            lemma2_to64_rest();
            if (i as nat) < 31 {
                lemma_pow2_strictly_increases(i as nat, 31);
            }
            lemma_pow2_adds(i as nat, 1);
        }
        p = p * 2;
        i = i + 1;
    }
    p
}

/// Decodes a norm id back to the quantized field length it stands for.
pub fn id_to_fieldnorm(id: u8) -> (r: u32)
    ensures
        r as int == spec_id_to_fieldnorm(id as int),
{
    if id < 16 {
        id as u32
    } else if id <= MAX_NORM_ID {
        let e: u32 = (id as u32 - 16) / 8 + 4;
        let m: u32 = (id as u32 - 16) % 8;
        let p: u32 = pow2_u32(e);
        let s: u32 = pow2_u32(e - 3);
        proof {
            lemma2_to64();
            lemma2_to64_rest();
            lemma_pow2_adds((e - 3) as nat, 3);
            if (e as nat) < 31 {
                lemma_pow2_strictly_increases(e as nat, 31);
            }
            assert(m * s <= 7 * s) by (nonlinear_arith)
                requires m <= 7, s >= 0;
        }
        p + m * s
    } else {
        0xffff_ffff
    }
}

/// Quantizes a true field length to its norm id.
pub fn fieldnorm_to_id(fieldnorm: u32) -> (r: u8)
    ensures
        r as int == spec_fieldnorm_to_id(fieldnorm as int),
        r <= MAX_NORM_ID,
{
    if fieldnorm < 16 {
        return fieldnorm as u8;
    }
    let n: u32 = fieldnorm;
    let mut e: u32 = 4;
    let mut p: u32 = 16;
    proof {
        lemma2_to64();
        lemma2_to64_rest();
    }
    while e < 31 && p <= n / 2
        invariant
            4 <= e <= 31,
            p as int == pow2(e as nat),
            p <= n,
            n >= 16,
        decreases 31 - e,
    {
        proof {
            lemma2_to64();
            lemma2_to64_rest();
            lemma_pow2_strictly_increases(e as nat, 31);
            lemma_pow2_adds(e as nat, 1);
            assert(2 * (n / 2) <= n) by {
                lemma_fundamental_div_mod(n as int, 2);
            }
        }
        p = p * 2;
        e = e + 1;
    }
    proof {
        lemma2_to64();
        lemma2_to64_rest();
        assert(n < 2 * (p as int)) by {
            if e == 31 {
            } else {
                lemma_fundamental_div_mod(n as int, 2);
            }
        }
        assert(2 * (p as int) == pow2((e + 1) as nat)) by {
            lemma_pow2_adds(e as nat, 1);
        }
        lemma_floor_log2_unique(n as int, e as nat);
        lemma_encode_shape(n as int);
        lemma_pow2_adds((e - 3) as nat, 3);
    }
    let s: u32 = p / 8;
    let m: u32 = (n - p) / s;
    let id: u32 = 16 + (e - 4) * 8 + m;
    proof {
        lemma_div_multiples_vanish(pow2((e - 3) as nat) as int, 8);
    }
    id as u8
}

/// Read-only mapping from document id to norm id for one segment, built once
/// before any scorer runs and shared freely afterwards.
pub struct FieldNormReader {
    norm_ids: Vec<u8>,
}

impl View for FieldNormReader {
    type V = Seq<u8>;

    closed spec fn view(&self) -> Seq<u8> {
        self.norm_ids@
    }
}

impl FieldNormReader {
    /// Builds the reader by quantizing one true field length per document.
    pub fn from_lengths(field_lengths: &Vec<u32>) -> (r: FieldNormReader)
        ensures
            r@.len() == field_lengths@.len(),
            forall|i: int|
                0 <= i < field_lengths@.len()
                    ==> r@[i] as int == spec_fieldnorm_to_id(field_lengths@[i] as int),
    {
        let mut norm_ids: Vec<u8> = Vec::new();
        let mut i: usize = 0;
        while i < field_lengths.len()
            invariant
                i <= field_lengths@.len(),
                norm_ids@.len() == i as int,
                forall|j: int|
                    0 <= j < i as int
                        ==> norm_ids@[j] as int == spec_fieldnorm_to_id(field_lengths@[j] as int),
            decreases field_lengths@.len() - i,
        {
            norm_ids.push(fieldnorm_to_id(field_lengths[i]));
            i = i + 1;
        }
        FieldNormReader { norm_ids }
    }

    /// The number of documents the reader covers.
    pub fn num_docs(&self) -> (r: usize)
        ensures
            r == self@.len(),
    {
        self.norm_ids.len()
    }

    /// The norm id of a document; the document must be in range.
    pub fn fieldnorm_id(&self, doc_id: DocId) -> (r: u8)
        requires
            doc_id < self@.len(),
        ensures
            r == self@[doc_id as int],
    {
        self.norm_ids[doc_id as usize]
    }

    /// The quantized field length of a document.
    pub fn fieldnorm(&self, doc_id: DocId) -> (r: u32)
        requires
            doc_id < self@.len(),
        ensures
            r as int == spec_id_to_fieldnorm(self@[doc_id as int] as int),
    {
        id_to_fieldnorm(self.fieldnorm_id(doc_id))
    }
}

} // verus!
