use vstd::prelude::*;

verus! {

/// Masks over the bit pattern of an IEEE-754 double: the sign bit, everything
/// but the sign bit, the exponent field, and the fraction field.
pub const SIGN_MASK: u64 = 0x8000_0000_0000_0000;
pub const MAG_MASK: u64 = 0x7FFF_FFFF_FFFF_FFFF;
pub const EXP_MASK: u64 = 0x7FF0_0000_0000_0000;
pub const FRAC_MASK: u64 = 0x000F_FFFF_FFFF_FFFF;

/// The bit pattern encodes a NaN: exponent all ones, fraction nonzero.
pub open spec fn is_nan_bits(a: u64) -> bool {
    a & EXP_MASK == EXP_MASK && a & FRAC_MASK != 0
}

/// The bit pattern encodes positive or negative zero.
pub open spec fn is_zero_bits(a: u64) -> bool {
    a & MAG_MASK == 0
}

/// IEEE-754 negation: flip the sign bit.
pub open spec fn neg_bits(a: u64) -> u64 {
    a ^ SIGN_MASK
}

/// IEEE-754 absolute value: clear the sign bit.
pub open spec fn abs_bits(a: u64) -> u64 {
    a & MAG_MASK
}

/// IEEE-754 equality on bit patterns: nothing equals a NaN, the two zeros are
/// equal, and every other double has exactly one bit pattern.
pub open spec fn eq_bits(a: u64, b: u64) -> bool {
    if is_nan_bits(a) || is_nan_bits(b) {
        false
    } else if is_zero_bits(a) && is_zero_bits(b) {
        true
    } else {
        a == b
    }
}

/// IEEE-754 strict order on bit patterns. For doubles of one sign the
/// magnitude bits order the values, so the comparison is sign dispatch plus an
/// integer comparison; comparisons involving a NaN are false.
pub open spec fn lt_bits(a: u64, b: u64) -> bool {
    if is_nan_bits(a) || is_nan_bits(b) {
        false
    } else if is_zero_bits(a) && is_zero_bits(b) {
        false
    } else {
        let neg_a = a & SIGN_MASK != 0;
        let neg_b = b & SIGN_MASK != 0;
        if neg_a != neg_b {
            neg_a
        } else if neg_a {
            a & MAG_MASK > b & MAG_MASK
        } else {
            a & MAG_MASK < b & MAG_MASK
        }
    }
}

/// IEEE-754 `<=`: less-than or equal (so false whenever a NaN is involved).
pub open spec fn le_bits(a: u64, b: u64) -> bool {
    lt_bits(a, b) || eq_bits(a, b)
}

pub fn f_is_zero(a: u64) -> (r: bool)
    ensures
        r == is_zero_bits(a),
{
    a & MAG_MASK == 0
}

pub fn f_is_nan(a: u64) -> (r: bool)
    ensures
        r == is_nan_bits(a),
{
    a & EXP_MASK == EXP_MASK && a & FRAC_MASK != 0
}

pub fn f_neg(a: u64) -> (r: u64)
    ensures
        r == neg_bits(a),
{
    a ^ SIGN_MASK
}

pub fn f_abs(a: u64) -> (r: u64)
    ensures
        r == abs_bits(a),
{
    a & MAG_MASK
}

pub fn f_eq(a: u64, b: u64) -> (r: bool)
    ensures
        r == eq_bits(a, b),
{
    if f_is_nan(a) || f_is_nan(b) {
        false
    } else if f_is_zero(a) && f_is_zero(b) {
        true
    } else {
        a == b
    }
}

pub fn f_lt(a: u64, b: u64) -> (r: bool)
    ensures
        r == lt_bits(a, b),
{
    if f_is_nan(a) || f_is_nan(b) {
        false
    } else if f_is_zero(a) && f_is_zero(b) {
        false
    } else {
        let neg_a = a & SIGN_MASK != 0;
        let neg_b = b & SIGN_MASK != 0;
        if neg_a != neg_b {
            neg_a
        } else if neg_a {
            a & MAG_MASK > b & MAG_MASK
        } else {
            a & MAG_MASK < b & MAG_MASK
        }
    }
}

pub fn f_le(a: u64, b: u64) -> (r: bool)
    ensures
        r == le_bits(a, b),
{
    f_lt(a, b) || f_eq(a, b)
}

/// What the embedder must supply for the evaluator to work with doubles: the
/// rounding arithmetic, conversions, text, and the clock. Every `u64` here is
/// the bit pattern of an IEEE-754 double. Nothing is assumed of the results;
/// the evaluator's contracts treat them as opaque doubles, and everything it
/// can decide at the bit level (zero tests, ordering, sign) it decides itself.
pub trait FloatHost {
    /// Bits of the rounded double sum of the doubles `a` and `b` encode.
    fn f_add(&self, a: u64, b: u64) -> u64;

    /// Bits of the rounded double difference.
    fn f_sub(&self, a: u64, b: u64) -> u64;

    /// Bits of the rounded double product.
    fn f_mul(&self, a: u64, b: u64) -> u64;

    /// Bits of the rounded double quotient.
    fn f_div(&self, a: u64, b: u64) -> u64;

    /// Bits of the double remainder.
    fn f_rem(&self, a: u64, b: u64) -> u64;

    /// Bits of the double nearest to the 128-bit integer `n`.
    fn f_from_int(&self, n: i128) -> u64;

    /// Bits of the double a decimal literal (digits, one dot) denotes, or
    /// `None` where the digits do not parse as a double.
    fn f_parse(&self, digits: &Vec<u8>) -> Option<u64>;

    /// The decimal rendering of the double, as bytes.
    fn f_render(&self, a: u64) -> Vec<u8>;

    /// The current time in seconds since the epoch, as double bits.
    fn now_seconds(&self) -> u64;
}

} // verus!
