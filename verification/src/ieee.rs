//! Ordering of IEEE-754 binary32 values, read off their bit patterns.
use vstd::prelude::*;
use vstd::arithmetic::power2::{pow2, lemma_pow2_pos, lemma_pow2_unfold, lemma_pow2_strictly_increases, lemma2_to64};
use vstd::arithmetic::mul::{lemma_mul_strict_inequality, lemma_mul_inequality};

verus! {

/// Bit pattern of positive infinity.
pub const POS_INFINITY_BITS: u32 = 0x7f80_0000;

/// Bit pattern of negative infinity.
pub const NEG_INFINITY_BITS: u32 = 0xff80_0000;

/// Bit pattern of the sign bit alone (negative zero).
pub const SIGN_BIT: u32 = 0x8000_0000;

/// The word encodes a NaN: all exponent bits set and a non-zero fraction.
pub open spec fn is_nan(w: u32) -> bool {
    w % 0x8000_0000 > 0x7f80_0000
}

/// Position of a non-NaN value on the real line (extended by the two
/// infinities): the magnitude bits, negated when the sign bit is set.
/// Both zeros sit at 0, and magnitude bits grow monotonically with the
/// value they encode, so comparing keys is comparing values.
pub open spec fn order_key(w: u32) -> int {
    if w >= 0x8000_0000 {
        -((w - 0x8000_0000) as int)
    } else {
        w as int
    }
}

/// `a > b` for binary32 values: false whenever either side is NaN.
pub open spec fn gt(a: u32, b: u32) -> bool {
    !is_nan(a) && !is_nan(b) && order_key(a) > order_key(b)
}

/// The word encodes a value strictly greater than zero.
pub open spec fn is_positive(w: u32) -> bool {
    gt(w, 0)
}

/// Rectified linear unit on one word: the value itself when it is greater
/// than zero, positive zero otherwise (negative values, both zeros, NaN).
pub open spec fn relu_word(w: u32) -> u32 {
    if is_positive(w) { w } else { 0 }
}

/// Tests whether the word encodes a value strictly greater than zero.
pub fn positive(w: u32) -> (r: bool)
    ensures
        r == is_positive(w),
        r == ((is_finite(w) && scaled_value(w) > 0) || w == POS_INFINITY_BITS),
{
    proof {
        crate::laws::law_relu_keeps_positive_values(w);
    }
    0 < w && w <= POS_INFINITY_BITS
}

/// Tests whether the word encodes a NaN.
pub fn nan(w: u32) -> (r: bool)
    ensures
        r == is_nan(w),
        r == (exponent_field(w) == 0xff && fraction_field(w) != 0),
{
    proof {
        crate::laws::law_nan_is_all_ones_exponent_with_fraction(w);
    }
    w % SIGN_BIT > POS_INFINITY_BITS
}

/// Compares two words as binary32 values: `a > b`.
pub fn greater(a: u32, b: u32) -> (r: bool)
    ensures
        r == gt(a, b),
        is_finite(a) && is_finite(b) ==> (r <==> scaled_value(a) > scaled_value(b)),
{
    proof {
        if is_finite(a) && is_finite(b) {
            crate::laws::law_gt_is_order_of_values(a, b);
        }
    }
    if nan(a) || nan(b) {
        return false;
    }
    let a_neg = a >= SIGN_BIT;
    let b_neg = b >= SIGN_BIT;
    if !a_neg && !b_neg {
        a > b
    } else if a_neg && b_neg {
        a - SIGN_BIT < b - SIGN_BIT
    } else if !a_neg {
        // a >= +0, b <= -0: greater unless both are zeros
        a != 0 || b != SIGN_BIT
    } else {
        false
    }
}

/// The biased exponent: bits 23 to 30.
pub open spec fn exponent_field(w: u32) -> int {
    ((w / 0x80_0000) % 0x100) as int
}

/// The fraction: bits 0 to 22.
pub open spec fn fraction_field(w: u32) -> int {
    (w % 0x80_0000) as int
}

/// The sign bit, bit 31.
pub open spec fn sign_field(w: u32) -> bool {
    w / 0x8000_0000 == 1
}

/// The word encodes a finite number: its exponent is not all ones.
pub open spec fn is_finite(w: u32) -> bool {
    exponent_field(w) != 0xff
}

/// Absolute value encoded by a finite word with exponent `e` and fraction
/// `f`, multiplied by 2^149 (so that every such value is an integer):
/// `f * 2^-149` for subnormals, `(1 + f / 2^23) * 2^(e - 127)` otherwise.
pub open spec fn scaled_magnitude(e: int, f: int) -> int {
    if e == 0 {
        f
    } else {
        (f + 0x80_0000) * pow2((e - 1) as nat)
    }
}

/// The real number a finite word encodes, multiplied by 2^149.
pub open spec fn scaled_value(w: u32) -> int {
    let m = scaled_magnitude(exponent_field(w), fraction_field(w));
    if sign_field(w) { -m } else { m }
}

/// The magnitude bits are the exponent field followed by the fraction field.
pub proof fn lemma_fields(w: u32)
    ensures
        w % 0x8000_0000 == exponent_field(w) * 0x80_0000 + fraction_field(w),
        0 <= exponent_field(w) < 0x100,
        0 <= fraction_field(w) < 0x80_0000,
        sign_field(w) <==> w >= 0x8000_0000,
{
    assert(w % 0x8000_0000 == ((w / 0x80_0000) % 0x100) * 0x80_0000 + w % 0x80_0000) by (bit_vector);
}

/// Larger fields encode a strictly larger magnitude.
pub proof fn lemma_scaled_magnitude_increases(e1: int, f1: int, e2: int, f2: int)
    requires
        0 <= e1 < 0x100,
        0 <= e2 < 0x100,
        0 <= f1 < 0x80_0000,
        0 <= f2 < 0x80_0000,
        e1 < e2 || (e1 == e2 && f1 < f2),
    ensures
        0 <= scaled_magnitude(e1, f1) < scaled_magnitude(e2, f2),
{
    let c: int = 0x80_0000;
    if e1 >= 1 {
        lemma_pow2_pos((e1 - 1) as nat);
        lemma_mul_inequality(0, f1 + c, pow2((e1 - 1) as nat) as int);
    }
    if e1 == e2 {
        if e1 >= 1 {
            lemma_mul_strict_inequality(f1 + c, f2 + c, pow2((e1 - 1) as nat) as int);
        }
    } else {
        // scaled_magnitude(e1, f1) < c * 2^e1 <= c * 2^(e2 - 1) <= scaled_magnitude(e2, f2)
        let p2 = pow2((e2 - 1) as nat) as int;
        lemma_pow2_pos((e2 - 1) as nat);
        lemma_mul_inequality(c, f2 + c, p2);
        if e1 == 0 {
            lemma2_to64();
            if e2 - 1 > 0 {
                lemma_pow2_strictly_increases(0, (e2 - 1) as nat);
            }
            lemma_mul_inequality(1, p2, c);
        } else {
            let p1 = pow2((e1 - 1) as nat) as int;
            lemma_pow2_unfold(e1 as nat);
            lemma_mul_strict_inequality(f1 + c, 2 * c, p1);
            if e1 < e2 - 1 {
                lemma_pow2_strictly_increases(e1 as nat, (e2 - 1) as nat);
            }
            let q = pow2(e1 as nat) as int;
            lemma_mul_inequality(q, p2, c);
            assert(2 * c * p1 == c * q) by (nonlinear_arith)
                requires q == 2 * p1;
        }
    }
}

/// Among finite words, magnitude bits and encoded magnitude are in the
/// same order, and only the zeros encode zero.
pub proof fn lemma_magnitude_order(a: u32, b: u32)
    requires
        is_finite(a),
        is_finite(b),
    ensures
        (a % 0x8000_0000 < b % 0x8000_0000) ==> scaled_magnitude(exponent_field(a), fraction_field(a))
            < scaled_magnitude(exponent_field(b), fraction_field(b)),
        (a % 0x8000_0000 == b % 0x8000_0000) ==> scaled_magnitude(exponent_field(a), fraction_field(a))
            == scaled_magnitude(exponent_field(b), fraction_field(b)),
        scaled_magnitude(exponent_field(a), fraction_field(a)) >= 0,
        scaled_magnitude(exponent_field(a), fraction_field(a)) == 0 <==> a % 0x8000_0000 == 0,
        a % 0x8000_0000 < POS_INFINITY_BITS,
{
    lemma_fields(a);
    lemma_fields(b);
    let (ea, fa, eb, fb) = (exponent_field(a), fraction_field(a), exponent_field(b), fraction_field(b));
    if ea < eb || (ea == eb && fa < fb) {
        lemma_scaled_magnitude_increases(ea, fa, eb, fb);
    } else if eb < ea || (ea == eb && fb < fa) {
        lemma_scaled_magnitude_increases(eb, fb, ea, fa);
    }
    if a % 0x8000_0000 != 0 {
        lemma_scaled_magnitude_increases(0, 0, ea, fa);
    }
}

} // verus!
