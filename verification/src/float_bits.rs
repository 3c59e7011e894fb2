//! A bit-level model of the IEEE 754 binary64 values stored in the
//! container.
//!
//! The decoder never does floating-point arithmetic; it only needs to
//! order frequencies against fixed band edges, test the magic constant for
//! equality, and turn the stored counts into integers the way a
//! float-to-integer cast does. All three are decided exactly by the raw
//! bit pattern, so they are defined here as integer functions on `u64`.

use vstd::prelude::*;

verus! {

/// Mask of the sign bit of a binary64 value.
pub const F64_SIGN_MASK: u64 = 0x8000_0000_0000_0000;

/// Mask of the eleven exponent bits of a binary64 value.
pub const F64_EXP_MASK: u64 = 0x7FF0_0000_0000_0000;

/// Mask of the 52 fraction bits of a binary64 value.
pub const F64_FRAC_MASK: u64 = 0x000F_FFFF_FFFF_FFFF;

/// The implicit leading significand bit of a normal binary64 value.
pub const F64_IMPLICIT_BIT: u64 = 0x0010_0000_0000_0000;

/// The bit pattern of the value 123.0, the container's magic constant.
pub const MAGIC_BITS: u64 = 0x405E_C000_0000_0000;

/// True when `bits` encodes a NaN: all exponent bits set and a non-zero
/// fraction.
pub open spec fn f64_bits_is_nan(bits: u64) -> bool {
    bits & F64_EXP_MASK == F64_EXP_MASK && bits & F64_FRAC_MASK != 0
}

/// True when `bits` encodes positive or negative zero.
pub open spec fn f64_bits_is_zero(bits: u64) -> bool {
    bits == 0 || bits == F64_SIGN_MASK
}

/// True when the sign bit of `bits` is set.
pub open spec fn f64_bits_is_negative(bits: u64) -> bool {
    bits & F64_SIGN_MASK == F64_SIGN_MASK
}

/// The IEEE 754 order `a < b` on binary64 bit patterns. NaN compares
/// false against everything, the two zeros are equal, and otherwise
/// values order as sign-magnitude integers.
pub open spec fn f64_bits_lt(a: u64, b: u64) -> bool {
    if f64_bits_is_nan(a) || f64_bits_is_nan(b) {
        false
    } else if f64_bits_is_zero(a) && f64_bits_is_zero(b) {
        false
    } else if f64_bits_is_negative(a) != f64_bits_is_negative(b) {
        f64_bits_is_negative(a)
    } else if f64_bits_is_negative(a) {
        a > b
    } else {
        a < b
    }
}

/// The IEEE 754 equality `a == b` on binary64 bit patterns: equal bits,
/// or the two zeros; never true for NaN.
pub open spec fn f64_bits_eq(a: u64, b: u64) -> bool {
    !f64_bits_is_nan(a) && !f64_bits_is_nan(b) && (a == b || (f64_bits_is_zero(a)
        && f64_bits_is_zero(b)))
}

/// The IEEE 754 order `a <= b` on binary64 bit patterns.
pub open spec fn f64_bits_le(a: u64, b: u64) -> bool {
    f64_bits_lt(a, b) || f64_bits_eq(a, b)
}

/// Decides `a < b` for two binary64 bit patterns.
pub fn f64_lt(a: u64, b: u64) -> (r: bool)
    ensures
        r == f64_bits_lt(a, b),
{
    let a_neg = a & F64_SIGN_MASK == F64_SIGN_MASK;
    let b_neg = b & F64_SIGN_MASK == F64_SIGN_MASK;
    if (a & F64_EXP_MASK == F64_EXP_MASK && a & F64_FRAC_MASK != 0) || (b & F64_EXP_MASK
        == F64_EXP_MASK && b & F64_FRAC_MASK != 0) {
        false
    } else if (a == 0 || a == F64_SIGN_MASK) && (b == 0 || b == F64_SIGN_MASK) {
        false
    } else if a_neg != b_neg {
        a_neg
    } else if a_neg {
        a > b
    } else {
        a < b
    }
}

/// Decides `a <= b` for two binary64 bit patterns.
pub fn f64_le(a: u64, b: u64) -> (r: bool)
    ensures
        r == f64_bits_le(a, b),
{
    let a_neg = a & F64_SIGN_MASK == F64_SIGN_MASK;
    let b_neg = b & F64_SIGN_MASK == F64_SIGN_MASK;
    if (a & F64_EXP_MASK == F64_EXP_MASK && a & F64_FRAC_MASK != 0) || (b & F64_EXP_MASK
        == F64_EXP_MASK && b & F64_FRAC_MASK != 0) {
        false
    } else if (a == 0 || a == F64_SIGN_MASK) && (b == 0 || b == F64_SIGN_MASK) {
        true
    } else if a_neg != b_neg {
        a_neg
    } else if a_neg {
        a >= b
    } else {
        a <= b
    }
}

/// The value of a saturating cast of the binary64 value behind `bits`
/// to `u64`, truncating toward zero: NaN and negative values give 0,
/// values at or above `2^64` give `u64::MAX`.
pub open spec fn f64_bits_trunc(bits: u64) -> u64 {
    if f64_bits_is_nan(bits) {
        0
    } else if f64_bits_is_negative(bits) {
        0
    } else {
        let e = bits >> 52;
        let m = bits & F64_FRAC_MASK;
        if e >= 1087 {
            u64::MAX
        } else if e < 1023 {
            0
        } else if e >= 1075 {
            (m | F64_IMPLICIT_BIT) << (e - 1075)
        } else {
            (m | F64_IMPLICIT_BIT) >> (1075 - e)
        }
    }
}

/// Computes the saturating truncation of a binary64 bit pattern to `u64`,
/// the value a `f64`-to-`u64` `as` cast produces.
pub fn f64_trunc(bits: u64) -> (r: u64)
    ensures
        r == f64_bits_trunc(bits),
{
    if bits & F64_EXP_MASK == F64_EXP_MASK && bits & F64_FRAC_MASK != 0 {
        0
    } else if bits & F64_SIGN_MASK == F64_SIGN_MASK {
        0
    } else {
        let e = bits >> 52;
        let m = bits & F64_FRAC_MASK;
        if e >= 1087 {
            u64::MAX
        } else if e < 1023 {
            0
        } else if e >= 1075 {
            assert(e - 1075 < 64) by {
                assert(e < 1087);
            };
            (m | F64_IMPLICIT_BIT) << (e - 1075)
        } else {
            assert(1075 - e < 64) by {
                assert(e >= 1023);
            };
            (m | F64_IMPLICIT_BIT) >> (1075 - e)
        }
    }
}

} // verus!
