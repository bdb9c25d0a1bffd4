//! IEEE-754 binary64 arithmetic on raw bit patterns.
//!
//! Every number this library computes with is carried as the 64-bit pattern
//! of an IEEE-754 double. The arithmetic itself is done by `rustc_apfloat`,
//! whose `ieee::Double` implements the exactly-rounded IEEE-754 operations
//! (round to nearest, ties to even, as hardware doubles do). Each operation
//! is named by an uninterpreted spec function and performed by one trusted
//! wrapper; everything built on top of them is verified.

use vstd::prelude::*;
use rustc_apfloat::Float;
use rustc_apfloat::Round;
use rustc_apfloat::ieee::Double;

verus! {

/// The bit pattern of a binary64 value is finite (neither an infinity nor
/// a NaN) exactly when its exponent field is not all ones.
pub open spec fn is_finite_bits(b: u64) -> bool {
    (b >> 52) & 0x7ff != 0x7ff
}

/// The bit pattern has a zero sign bit.
pub open spec fn is_nonneg_bits(b: u64) -> bool {
    b >> 63 == 0
}

/// The bit pattern is one of the two IEEE zeros.
pub open spec fn is_zero_bits(b: u64) -> bool {
    b & 0x7fff_ffff_ffff_ffff == 0
}

/// Reports whether a bit pattern is a finite binary64 value.
pub fn finite64(b: u64) -> (r: bool)
    ensures
        r == is_finite_bits(b),
{
    (b >> 52) & 0x7ff != 0x7ff
}

/// The all-zero bit pattern (positive zero) is finite and non-negative.
pub proof fn lemma_zero_pattern()
    ensures
        is_finite_bits(0u64),
        is_nonneg_bits(0u64),
        is_zero_bits(0u64),
{
    assert((0u64 >> 52) & 0x7ff != 0x7ff) by (bit_vector);
    assert(0u64 >> 63 == 0) by (bit_vector);
    assert(0u64 & 0x7fff_ffff_ffff_ffff == 0) by (bit_vector);
}

/// Names the exactly-rounded binary64 product of two bit patterns.
pub uninterp spec fn mul_of(a: u64, b: u64) -> u64;

/// Names the exactly-rounded binary64 sum of two bit patterns.
pub uninterp spec fn add_of(a: u64, b: u64) -> u64;

/// Names the exactly-rounded binary64 difference of two bit patterns.
pub uninterp spec fn sub_of(a: u64, b: u64) -> u64;

/// Names the exactly-rounded binary64 quotient of two bit patterns.
pub uninterp spec fn div_of(a: u64, b: u64) -> u64;

/// Names the IEEE `<=` comparison of two bit patterns (false on NaN).
pub uninterp spec fn le_of(a: u64, b: u64) -> bool;

/// Names the IEEE `<` comparison of two bit patterns (false on NaN).
pub uninterp spec fn lt_of(a: u64, b: u64) -> bool;

/// Names rounding to the nearest integral value, ties away from zero.
pub uninterp spec fn round_half_away_of(a: u64) -> u64;

/// Names the binary64 value nearest to an unsigned integer (exact for
/// every integer below 2^53).
pub uninterp spec fn of_u64_of(n: u64) -> u64;

/// Names the saturating truncation of a binary64 value to `u8`
/// (toward zero; NaN and negative values go to 0, overflow to 255).
pub uninterp spec fn to_u8_of(a: u64) -> u8;

/// Names the saturating truncation of a binary64 value to `u32`.
pub uninterp spec fn to_u32_of(a: u64) -> u32;

/// Relies on `rustc_apfloat::ieee::Double`'s `Mul`: the exactly-rounded
/// IEEE-754 binary64 product. A product with a positive-zero factor and a
/// finite non-negative cofactor is positive zero, and one is neutral on
/// finite values.
#[verifier::external_body]
pub(crate) fn mul64(a: u64, b: u64) -> (r: u64)
    ensures
        r == mul_of(a, b),
        b == 0 && is_finite_bits(a) && is_nonneg_bits(a) ==> r == 0,
        a == of_u64_of(1) && is_finite_bits(b) ==> r == b,
{
    (Double::from_bits(a as u128) * Double::from_bits(b as u128)).value.to_bits() as u64
}

/// Relies on `rustc_apfloat::ieee::Double`'s `Add`: the exactly-rounded
/// IEEE-754 binary64 sum. The sum of two positive zeros is positive zero.
#[verifier::external_body]
pub(crate) fn add64(a: u64, b: u64) -> (r: u64)
    ensures
        r == add_of(a, b),
        a == 0 && b == 0 ==> r == 0,
{
    (Double::from_bits(a as u128) + Double::from_bits(b as u128)).value.to_bits() as u64
}

/// Relies on `rustc_apfloat::ieee::Double`'s `Sub`: the exactly-rounded
/// IEEE-754 binary64 difference. Positive zero minus positive zero is
/// positive zero under round-to-nearest.
#[verifier::external_body]
pub(crate) fn sub64(a: u64, b: u64) -> (r: u64)
    ensures
        r == sub_of(a, b),
        a == 0 && b == 0 ==> r == 0,
{
    (Double::from_bits(a as u128) - Double::from_bits(b as u128)).value.to_bits() as u64
}

/// Relies on `rustc_apfloat::ieee::Double`'s `Div`: the exactly-rounded
/// IEEE-754 binary64 quotient. A finite nonzero value divided by itself
/// is exactly one.
#[verifier::external_body]
pub(crate) fn div64(a: u64, b: u64) -> (r: u64)
    ensures
        r == div_of(a, b),
        a == b && is_finite_bits(a) && !is_zero_bits(a) ==> r == of_u64_of(1),
{
    (Double::from_bits(a as u128) / Double::from_bits(b as u128)).value.to_bits() as u64
}

/// Relies on `PartialOrd::le` of `rustc_apfloat::ieee::Double`: the IEEE
/// `<=` predicate, which is false whenever an operand is NaN.
#[verifier::external_body]
pub(crate) fn le64(a: u64, b: u64) -> (r: bool)
    ensures
        r == le_of(a, b),
{
    Double::from_bits(a as u128) <= Double::from_bits(b as u128)
}

/// Relies on `PartialOrd::lt` of `rustc_apfloat::ieee::Double`: the IEEE
/// `<` predicate, which is false whenever an operand is NaN.
#[verifier::external_body]
pub(crate) fn lt64(a: u64, b: u64) -> (r: bool)
    ensures
        r == lt_of(a, b),
{
    Double::from_bits(a as u128) < Double::from_bits(b as u128)
}

/// Relies on `rustc_apfloat::Float::round_to_integral` with
/// `NearestTiesToAway`: the IEEE rounding used by `round` on doubles.
#[verifier::external_body]
pub(crate) fn round64(a: u64) -> (r: u64)
    ensures
        r == round_half_away_of(a),
{
    Double::from_bits(a as u128).round_to_integral(Round::NearestTiesToAway).value.to_bits()
        as u64
}

/// Relies on `rustc_apfloat::Float::from_u128`: conversion of an unsigned
/// integer to the nearest binary64 value (exact below 2^53). The result is
/// always finite and non-negative, zero exactly on zero, and compares
/// `>= 0.0`.
#[verifier::external_body]
pub(crate) fn of_u64(n: u64) -> (r: u64)
    ensures
        r == of_u64_of(n),
        is_finite_bits(r),
        is_nonneg_bits(r),
        is_zero_bits(r) <==> n == 0,
        le_of(0u64, r),
{
    Double::from_u128(n as u128).value.to_bits() as u64
}

/// Relies on `rustc_apfloat::Float::to_u128` with width 8: truncation
/// toward zero saturated to `u8`, as a Rust `as u8` cast of a double
/// behaves. A converted integer at most 255 comes back unchanged.
#[verifier::external_body]
pub(crate) fn to_u8(a: u64) -> (r: u8)
    ensures
        r == to_u8_of(a),
        forall|n: u64| a == of_u64_of(n) && n <= 255 ==> r == n as u8,
{
    Double::from_bits(a as u128).to_u128(8).value as u8
}

/// Relies on `rustc_apfloat::Float::to_u128` with width 32: truncation
/// toward zero saturated to `u32`, as a Rust `as u32` cast of a double
/// behaves.
#[verifier::external_body]
pub(crate) fn to_u32(a: u64) -> (r: u32)
    ensures
        r == to_u32_of(a),
{
    Double::from_bits(a as u128).to_u128(32).value as u32
}

} // verus!
