//! Trusted boundary to IEEE 754 arithmetic.
//!
//! The comparison logic needs a handful of arithmetic results — sums,
//! differences, quotients, products, ceilings, conversions and decimal
//! text — that only a floating-point implementation can produce. They are
//! obtained from the `rustc_apfloat` software implementation of IEEE 754,
//! which computes on bit patterns and is deterministic: each result is a
//! function of the operand bits alone, so it is given a name here, and the
//! few named results' properties that the contracts rely on are stated
//! beside the names. Everything the library decides about these results is
//! verified on the bits in the other modules.

use vstd::prelude::*;

use rustc_apfloat::Float;
use rustc_apfloat::FloatConvert;
use rustc_apfloat::Round;
use rustc_apfloat::ieee::Double;
use rustc_apfloat::ieee::Single;

use crate::bits::HUNDRED_32;
use crate::bits::HUNDRED_64;
use crate::bits::NEG_INF_32;
use crate::bits::NEG_ONE_32;
use crate::bits::ONE_32;
use crate::bits::ONE_64;
use crate::bits::POS_INF_32;
use crate::bits::is_finite_64;
use crate::bits::is_zero_64;

verus! {

/// The bits of the IEEE single-precision sum of two bit patterns.
pub uninterp spec fn add_bits(a: u32, b: u32) -> u32;

/// The bits of the IEEE single-precision difference of two bit patterns.
pub uninterp spec fn sub_bits(a: u32, b: u32) -> u32;

/// The bits of the IEEE single-precision product of two bit patterns.
pub uninterp spec fn mul_bits(a: u32, b: u32) -> u32;

/// The bits of the IEEE single-precision quotient of two bit patterns.
pub uninterp spec fn div_bits(a: u32, b: u32) -> u32;

/// The bits of the IEEE single-precision ceiling of a bit pattern.
pub uninterp spec fn ceil_bits(a: u32) -> u32;

/// The double-precision bits of a single-precision value: the conversion
/// is exact.
pub uninterp spec fn widen_bits(a: u32) -> u64;

/// The bits of the IEEE double-precision quotient of two bit patterns.
pub uninterp spec fn div_bits_64(a: u64, b: u64) -> u64;

/// The bits of the IEEE double-precision product of two bit patterns.
pub uninterp spec fn mul_bits_64(a: u64, b: u64) -> u64;

/// The double-precision bits nearest to an unsigned 64-bit integer.
pub uninterp spec fn from_u64_bits(n: u64) -> u64;

/// The single-precision bits nearest to an unsigned 64-bit integer.
pub uninterp spec fn from_u64_bits_32(n: u64) -> u32;

/// The decimal text of a single-precision value with the given bits.
pub uninterp spec fn text_of_32(b: u32) -> Seq<char>;

/// The decimal text of a double-precision value with the given bits.
pub uninterp spec fn text_of_64(b: u64) -> Seq<char>;

/// The decimal text of an unsigned 64-bit integer.
pub uninterp spec fn decimal_u64(n: u64) -> Seq<char>;

/// The decimal text of a signed 64-bit integer.
pub uninterp spec fn decimal_i64(n: i64) -> Seq<char>;

/// Relies on rustc_apfloat's single-precision addition (round to nearest,
/// ties to even). The sum of two positive zeros is a positive zero.
#[verifier::external_body]
pub(crate) fn f32_add(a: u32, b: u32) -> (r: u32)
    ensures
        r == add_bits(a, b),
        a == 0 && b == 0 ==> r == 0,
{
    (Single::from_bits(a as u128) + Single::from_bits(b as u128)).value.to_bits() as u32
}

/// Relies on rustc_apfloat's single-precision subtraction (round to
/// nearest, ties to even). `0.0 - 1.0` is exactly `-1.0`.
#[verifier::external_body]
pub(crate) fn f32_sub(a: u32, b: u32) -> (r: u32)
    ensures
        r == sub_bits(a, b),
        a == 0 && b == ONE_32 ==> r == NEG_ONE_32,
{
    (Single::from_bits(a as u128) - Single::from_bits(b as u128)).value.to_bits() as u32
}

/// Relies on rustc_apfloat's single-precision multiplication (round to
/// nearest, ties to even). `100.0` times a positive zero is a positive
/// zero, and `100.0` times positive infinity is positive infinity.
#[verifier::external_body]
pub(crate) fn f32_mul(a: u32, b: u32) -> (r: u32)
    ensures
        r == mul_bits(a, b),
        a == HUNDRED_32 && b == 0 ==> r == 0,
        a == HUNDRED_32 && b == POS_INF_32 ==> r == POS_INF_32,
{
    (Single::from_bits(a as u128) * Single::from_bits(b as u128)).value.to_bits() as u32
}

/// Relies on rustc_apfloat's single-precision division (round to nearest,
/// ties to even). `-1.0` divided by a positive zero is negative infinity.
#[verifier::external_body]
pub(crate) fn f32_div(a: u32, b: u32) -> (r: u32)
    ensures
        r == div_bits(a, b),
        a == NEG_ONE_32 && b == 0 ==> r == NEG_INF_32,
{
    (Single::from_bits(a as u128) / Single::from_bits(b as u128)).value.to_bits() as u32
}

/// Relies on rustc_apfloat's `round_to_integral` rounding toward positive
/// infinity, which is the IEEE ceiling. The ceiling of a positive zero is
/// a positive zero, and the ceiling of positive infinity is positive
/// infinity.
#[verifier::external_body]
pub(crate) fn f32_ceil(a: u32) -> (r: u32)
    ensures
        r == ceil_bits(a),
        a == 0 ==> r == 0,
        a == POS_INF_32 ==> r == POS_INF_32,
{
    Single::from_bits(a as u128).round_to_integral(Round::TowardPositive).value.to_bits() as u32
}

/// Relies on rustc_apfloat's conversion from single to double precision.
#[verifier::external_body]
pub(crate) fn f32_widen(a: u32) -> (r: u64)
    ensures
        r == widen_bits(a),
{
    let mut loses_info = false;
    let d: rustc_apfloat::StatusAnd<Double> = Single::from_bits(a as u128).convert(
        &mut loses_info,
    );
    d.value.to_bits() as u64
}

/// Relies on rustc_apfloat's double-precision division (round to nearest,
/// ties to even). A finite non-zero value divided by itself is exactly
/// `1.0`.
#[verifier::external_body]
pub(crate) fn f64_div(a: u64, b: u64) -> (r: u64)
    ensures
        r == div_bits_64(a, b),
        a == b && is_finite_64(a) && !is_zero_64(a) ==> r == ONE_64,
{
    (Double::from_bits(a as u128) / Double::from_bits(b as u128)).value.to_bits() as u64
}

/// Relies on rustc_apfloat's double-precision multiplication (round to
/// nearest, ties to even). `100.0` times `1.0` is exactly `100.0`.
#[verifier::external_body]
pub(crate) fn f64_mul(a: u64, b: u64) -> (r: u64)
    ensures
        r == mul_bits_64(a, b),
        a == HUNDRED_64 && b == ONE_64 ==> r == HUNDRED_64,
{
    (Double::from_bits(a as u128) * Double::from_bits(b as u128)).value.to_bits() as u64
}

/// Relies on rustc_apfloat's conversion from an unsigned integer to double
/// precision: the result is finite, and it is zero exactly for the input
/// zero, every other integer being rounded to a nearest value that stays
/// non-zero.
#[verifier::external_body]
pub(crate) fn f64_from_u64(n: u64) -> (r: u64)
    ensures
        r == from_u64_bits(n),
        is_finite_64(r),
        is_zero_64(r) <==> n == 0,
{
    Double::from_u128(n as u128).value.to_bits() as u64
}

/// Relies on rustc_apfloat's conversion from an unsigned integer to single
/// precision.
#[verifier::external_body]
pub(crate) fn f32_from_u64(n: u64) -> (r: u32)
    ensures
        r == from_u64_bits_32(n),
{
    Single::from_u128(n as u128).value.to_bits() as u32
}

/// Relies on rustc_apfloat's `Display` for single precision: the text
/// depends on the bits alone.
#[verifier::external_body]
pub(crate) fn f32_text(b: u32) -> (r: String)
    ensures
        r@ == text_of_32(b),
{
    format!("{}", Single::from_bits(b as u128))
}

/// Relies on rustc_apfloat's `Display` for double precision: the text
/// depends on the bits alone.
#[verifier::external_body]
pub(crate) fn f64_text(b: u64) -> (r: String)
    ensures
        r@ == text_of_64(b),
{
    format!("{}", Double::from_bits(b as u128))
}

/// Relies on std's `Display` for `u64`: the decimal text depends on the
/// value alone.
#[verifier::external_body]
pub(crate) fn u64_text(n: u64) -> (r: String)
    ensures
        r@ == decimal_u64(n),
{
    format!("{}", n)
}

/// Relies on std's `Display` for `i64`: the decimal text depends on the
/// value alone.
#[verifier::external_body]
pub(crate) fn i64_text(n: i64) -> (r: String)
    ensures
        r@ == decimal_i64(n),
{
    format!("{}", n)
}

} // verus!
