//! Bit-level model of IEEE 754 single-precision values.
//!
//! The library never holds a hardware float: a single-precision value is
//! carried as its 32-bit pattern, and everything the comparison logic has to
//! decide about such a value — whether it is a NaN or an infinity, its
//! absolute value, how two values are ordered, and whether it is exactly a
//! non-negative integer — is computed and specified here directly on the
//! bits, following the IEEE 754 encoding: 1 sign bit, 8 exponent bits,
//! 23 fraction bits.

use vstd::prelude::*;

verus! {

/// Mask that clears the sign bit of a single-precision bit pattern.
pub const SIGN_MASK_32: u32 = 0x7FFF_FFFF;

/// Bit pattern of positive infinity: maximal exponent, zero fraction.
pub const POS_INF_32: u32 = 0x7F80_0000;

/// Bit pattern of negative infinity.
pub const NEG_INF_32: u32 = 0xFF80_0000;

/// Bit pattern of `1.0`.
pub const ONE_32: u32 = 0x3F80_0000;

/// Bit pattern of `-1.0`.
pub const NEG_ONE_32: u32 = 0xBF80_0000;

/// Bit pattern of `100.0`.
pub const HUNDRED_32: u32 = 0x42C8_0000;

/// Bit pattern of the canonical quiet NaN.
pub const QUIET_NAN_32: u32 = 0x7FC0_0000;

/// The bits of the value with the sign cleared: the absolute value of a
/// single-precision float is obtained by clearing its sign bit alone, for
/// every value class including NaN.
pub open spec fn abs_32(b: u32) -> u32 {
    b & SIGN_MASK_32
}

/// The sign bit is set.
pub open spec fn is_negative_32(b: u32) -> bool {
    b >= 0x8000_0000
}

/// A NaN of either sign: maximal exponent and a non-zero fraction.
pub open spec fn is_nan_32(b: u32) -> bool {
    abs_32(b) > POS_INF_32
}

/// Positive or negative infinity.
pub open spec fn is_infinite_32(b: u32) -> bool {
    abs_32(b) == POS_INF_32
}

/// Zero, subnormal or normal: neither an infinity nor a NaN.
pub open spec fn is_finite_32(b: u32) -> bool {
    abs_32(b) < POS_INF_32
}

/// A zero of either sign.
pub open spec fn is_zero_32(b: u32) -> bool {
    abs_32(b) == 0
}

/// Numeric ordering key of a non-NaN value. Single-precision values other
/// than NaN are ordered exactly as the signed magnitude of their bit
/// patterns: the magnitude for positive values, its negation for negative
/// ones. Both zeros map to the key 0, so `+0.0` and `-0.0` compare equal.
pub open spec fn order_key_32(b: u32) -> int {
    if is_negative_32(b) {
        -(abs_32(b) as int)
    } else {
        abs_32(b) as int
    }
}

/// IEEE `<` on single-precision bit patterns: false whenever either side is
/// a NaN, otherwise the numeric order of the values.
pub open spec fn lt_32(a: u32, b: u32) -> bool {
    &&& !is_nan_32(a)
    &&& !is_nan_32(b)
    &&& order_key_32(a) < order_key_32(b)
}

/// IEEE `>` on single-precision bit patterns.
pub open spec fn gt_32(a: u32, b: u32) -> bool {
    lt_32(b, a)
}

/// Biased exponent field.
pub open spec fn exp_field_32(b: u32) -> u32 {
    (b >> 23) & 0xFF
}

/// Fraction field.
pub open spec fn frac_field_32(b: u32) -> u32 {
    b & 0x7F_FFFF
}

/// Significand of a finite value: the fraction with the implicit leading
/// bit added for normal values. Always below `2^24`.
pub open spec fn significand_32(b: u32) -> u32 {
    if exp_field_32(b) == 0 {
        frac_field_32(b)
    } else {
        frac_field_32(b) | 0x80_0000
    }
}

/// The exact value of the bit pattern as a non-negative 64-bit integer,
/// when it has one: the value must be finite, non-negative (a negative
/// zero is allowed, its value being zero), integral, and small enough for
/// a `u64`. A normal value with biased exponent `e` and significand `s`
/// equals `s * 2^(e - 150)`, so it is an integer exactly when `e >= 150`
/// or the low `150 - e` significand bits vanish, and it fits a `u64`
/// exactly when `e <= 190`.
pub open spec fn exact_u64_of_32(b: u32) -> Option<u64> {
    if !is_finite_32(b) {
        None
    } else if is_zero_32(b) {
        Some(0u64)
    } else if is_negative_32(b) {
        None
    } else if exp_field_32(b) >= 150 {
        if exp_field_32(b) <= 190 {
            Some((significand_32(b) as u64) << (exp_field_32(b) - 150) as u64)
        } else {
            None
        }
    } else if exp_field_32(b) + 24 <= 150 {
        // The value is positive and below one: never an integer.
        None
    } else if significand_32(b) & (((1u32 << (150 - exp_field_32(b)) as u32) - 1) as u32) == 0 {
        Some((significand_32(b) >> (150 - exp_field_32(b)) as u32) as u64)
    } else {
        None
    }
}

/// Mask that clears the sign bit of a double-precision bit pattern.
pub const SIGN_MASK_64: u64 = 0x7FFF_FFFF_FFFF_FFFF;

/// Double-precision bit pattern of positive infinity.
pub const POS_INF_64: u64 = 0x7FF0_0000_0000_0000;

/// Double-precision bit pattern of `1.0`.
pub const ONE_64: u64 = 0x3FF0_0000_0000_0000;

/// Double-precision bit pattern of `100.0`.
pub const HUNDRED_64: u64 = 0x4059_0000_0000_0000;

/// The double-precision bits with the sign cleared.
pub open spec fn abs_64(b: u64) -> u64 {
    b & SIGN_MASK_64
}

/// A double-precision NaN of either sign.
pub open spec fn is_nan_64(b: u64) -> bool {
    abs_64(b) > POS_INF_64
}

/// A finite double-precision value.
pub open spec fn is_finite_64(b: u64) -> bool {
    abs_64(b) < POS_INF_64
}

/// A double-precision zero of either sign.
pub open spec fn is_zero_64(b: u64) -> bool {
    abs_64(b) == 0
}

/// Absolute values of the bit patterns the contracts name: clearing the
/// sign bit fixes each of them.
pub proof fn lemma_abs_constants()
    ensures
        abs_32(0) == 0,
        abs_32(ONE_32) == ONE_32,
        abs_32(NEG_ONE_32) == ONE_32,
        abs_32(HUNDRED_32) == HUNDRED_32,
        abs_32(POS_INF_32) == POS_INF_32,
        abs_32(NEG_INF_32) == POS_INF_32,
{
    assert(0u32 & 0x7FFF_FFFF == 0u32) by (bit_vector);
    assert(0x3F80_0000u32 & 0x7FFF_FFFF == 0x3F80_0000u32) by (bit_vector);
    assert(0xBF80_0000u32 & 0x7FFF_FFFF == 0x3F80_0000u32) by (bit_vector);
    assert(0x42C8_0000u32 & 0x7FFF_FFFF == 0x42C8_0000u32) by (bit_vector);
    assert(0x7F80_0000u32 & 0x7FFF_FFFF == 0x7F80_0000u32) by (bit_vector);
    assert(0xFF80_0000u32 & 0x7FFF_FFFF == 0x7F80_0000u32) by (bit_vector);
}

/// Absolute value on the bits: clears the sign bit.
pub fn float_abs(b: u32) -> (r: u32)
    ensures
        r == abs_32(b),
{
    b & SIGN_MASK_32
}

/// Whether the bit pattern is a NaN.
pub fn float_is_nan(b: u32) -> (r: bool)
    ensures
        r == is_nan_32(b),
{
    (b & SIGN_MASK_32) > POS_INF_32
}

/// Whether the bit pattern is finite.
pub fn float_is_finite(b: u32) -> (r: bool)
    ensures
        r == is_finite_32(b),
{
    (b & SIGN_MASK_32) < POS_INF_32
}

/// IEEE `<` on bit patterns, as `order_key_32` specifies it.
pub fn float_lt(a: u32, b: u32) -> (r: bool)
    ensures
        r == lt_32(a, b),
{
    if (a & SIGN_MASK_32) > POS_INF_32 || (b & SIGN_MASK_32) > POS_INF_32 {
        return false;
    }
    let mag_a: u32 = a & SIGN_MASK_32;
    let mag_b: u32 = b & SIGN_MASK_32;
    if a >= 0x8000_0000 {
        if b >= 0x8000_0000 {
            mag_b < mag_a
        } else {
            // a <= -0.0 and b >= +0.0: strictly less unless both are zero.
            mag_a > 0 || mag_b > 0
        }
    } else {
        if b >= 0x8000_0000 {
            false
        } else {
            mag_a < mag_b
        }
    }
}

/// IEEE `>` on bit patterns.
pub fn float_gt(a: u32, b: u32) -> (r: bool)
    ensures
        r == gt_32(a, b),
{
    float_lt(b, a)
}

/// The exact non-negative integer value of a finite bit pattern, as
/// `exact_u64_of_32` specifies it, or `None` where the value is negative,
/// fractional, too large for a `u64`, or not finite.
pub fn float_exact_u64(b: u32) -> (r: Option<u64>)
    ensures
        r == exact_u64_of_32(b),
{
    if (b & SIGN_MASK_32) >= POS_INF_32 {
        return None;
    }
    if (b & SIGN_MASK_32) == 0 {
        return Some(0);
    }
    if b >= 0x8000_0000 {
        return None;
    }
    let e: u32 = (b >> 23) & 0xFF;
    let f: u32 = b & 0x7F_FFFF;
    let s: u32 = if e == 0 {
        f
    } else {
        f | 0x80_0000
    };
    if e >= 150 {
        if e <= 190 {
            Some((s as u64) << ((e - 150) as u64))
        } else {
            None
        }
    } else if e + 24 <= 150 {
        None
    } else {
        let shift: u32 = 150 - e;
        proof {
            assert(1u32 << shift >= 1) by (bit_vector)
                requires
                    1 <= shift && shift <= 23,
            ;
        }
        if s & ((1u32 << shift) - 1) == 0 {
            Some((s >> shift) as u64)
        } else {
            None
        }
    }
}

/// Every bucket key obtained from a real ceiling stays far below the three
/// sentinel keys at the top of the `u64` range: a single-precision integer
/// value is at most `0xFFFFFF * 2^40`, so the sentinels can never collide
/// with it.
pub proof fn lemma_exact_u64_below_sentinels(b: u32)
    ensures
        exact_u64_of_32(b) matches Some(v) ==> v <= 0xFFFF_FF00_0000_0000u64,
{
    if exact_u64_of_32(b) is Some {
        if !is_finite_32(b) || is_zero_32(b) || is_negative_32(b) {
        } else {
            let e = exp_field_32(b);
            let s = significand_32(b);
            let f = frac_field_32(b);
            assert(b & 0x7F_FFFF <= 0x7F_FFFF) by (bit_vector);
            assert(f | 0x80_0000 <= 0xFF_FFFF) by (bit_vector)
                requires
                    f <= 0x7F_FFFF,
            ;
            assert(s <= 0xFF_FFFF);
            if e >= 150 {
                let sh: u64 = (e - 150) as u64;
                assert((s as u64) << sh <= 0xFFFF_FF00_0000_0000u64) by (bit_vector)
                    requires
                        s <= 0xFF_FFFF && sh <= 40,
                ;
            } else {
                let sh: u32 = (150 - e) as u32;
                assert((s >> sh) as u64 <= 0xFFFF_FF00_0000_0000u64) by (bit_vector)
                    requires
                        s <= 0xFF_FFFFu32,
                ;
            }
        }
    }
}

} // verus!
