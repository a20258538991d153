//! Numbers are IEEE 754 binary64 values, carried as their 64-bit patterns.
//!
//! The arithmetic itself is performed by `rustc_apfloat`, a software
//! implementation of IEEE 754; each operation is reached through one trusted
//! wrapper whose result is named by an uninterpreted function of the operand
//! bit patterns.  Sign, zero and finiteness tests are plain bit logic and are
//! verified here.

use rustc_apfloat::ieee::Double;
use rustc_apfloat::Float;
use vstd::prelude::*;

verus! {

/// Bit pattern of positive zero.
pub const ZERO_BITS: u64 = 0;

/// Bit pattern of 1.0.
pub const ONE_BITS: u64 = 0x3FF0_0000_0000_0000;

/// Bit pattern of the machine epsilon for binary64, 2^-52.
pub const EPSILON_BITS: u64 = 0x3CB0_0000_0000_0000;

/// The sign bit.
pub const SIGN_MASK: u64 = 0x8000_0000_0000_0000;

/// Everything but the sign bit.
pub const MAGNITUDE_MASK: u64 = 0x7FFF_FFFF_FFFF_FFFF;

/// The exponent field; all ones means an infinity or a NaN.
pub const EXPONENT_MASK: u64 = 0x7FF0_0000_0000_0000;

/// The sum of two numbers, rounded to nearest, ties to even.
pub uninterp spec fn add_bits(a: u64, b: u64) -> u64;

/// The difference of two numbers, rounded to nearest, ties to even.
pub uninterp spec fn sub_bits(a: u64, b: u64) -> u64;

/// The product of two numbers, rounded to nearest, ties to even.
pub uninterp spec fn mul_bits(a: u64, b: u64) -> u64;

/// The quotient of two numbers, rounded to nearest, ties to even.
pub uninterp spec fn div_bits(a: u64, b: u64) -> u64;

/// The remainder of two numbers, with the C `fmod` convention.
pub uninterp spec fn rem_bits(a: u64, b: u64) -> u64;

/// The IEEE 754 `<` comparison; false whenever either operand is a NaN.
pub uninterp spec fn lt_bits(a: u64, b: u64) -> bool;

/// The IEEE 754 `<=` comparison; false whenever either operand is a NaN.
pub uninterp spec fn le_bits(a: u64, b: u64) -> bool;

/// The decimal rendering of a number.
pub uninterp spec fn text_of_num(a: u64) -> Seq<char>;

/// The number a piece of text denotes, if it denotes one.
pub uninterp spec fn num_of_text(s: Seq<char>) -> Option<u64>;

/// The magnitude of a number: IEEE 754 `abs` clears the sign bit.
pub open spec fn abs_bits(a: u64) -> u64 {
    a & MAGNITUDE_MASK
}

/// IEEE 754 negation flips the sign bit, for every operand including NaN.
pub open spec fn neg_bits(a: u64) -> u64 {
    a ^ SIGN_MASK
}

/// Whether a number is distinct from zero under IEEE 754 `!=`: every pattern
/// but the two zeroes, a NaN included.
pub open spec fn nonzero_bits(a: u64) -> bool {
    a & MAGNITUDE_MASK != 0
}

/// Whether a pattern encodes a finite number (neither infinity nor NaN).
pub open spec fn finite_bits(a: u64) -> bool {
    a & EXPONENT_MASK != EXPONENT_MASK
}

/// Equality with a tolerance: two numbers are equal when the magnitude of
/// their difference is below the machine epsilon.
///
/// The magnitude of a difference does not depend on the order of the
/// subtraction, so it is computed here on a fixed order of the two patterns,
/// which makes symmetry plain.  A value subtracted from itself gives exactly
/// zero when finite, while an infinity or a NaN never compares equal to
/// itself; and on a non-negative or NaN pattern, the IEEE comparison against
/// the (positive) epsilon agrees with the unsigned order of the patterns.
pub open spec fn eq_bits(a: u64, b: u64) -> bool {
    if a == b {
        finite_bits(a)
    } else if a < b {
        abs_bits(sub_bits(a, b)) < EPSILON_BITS
    } else {
        abs_bits(sub_bits(b, a)) < EPSILON_BITS
    }
}

/// The bit pattern standing for a truth value: 1.0 for true, 0.0 for false.
pub open spec fn bool_to_num_spec(b: bool) -> u64 {
    if b {
        ONE_BITS
    } else {
        ZERO_BITS
    }
}

/// Relies on `rustc_apfloat::ieee::Double`'s addition: IEEE 754 binary64
/// addition, rounded to nearest, ties to even.
#[verifier::external_body]
pub(crate) fn num_add(a: u64, b: u64) -> (r: u64)
    ensures
        r == add_bits(a, b),
{
    (Double::from_bits(a as u128) + Double::from_bits(b as u128)).value.to_bits() as u64
}

/// Relies on `rustc_apfloat::ieee::Double`'s subtraction: IEEE 754 binary64
/// subtraction, rounded to nearest, ties to even.
#[verifier::external_body]
pub(crate) fn num_sub(a: u64, b: u64) -> (r: u64)
    ensures
        r == sub_bits(a, b),
{
    (Double::from_bits(a as u128) - Double::from_bits(b as u128)).value.to_bits() as u64
}

/// Relies on `rustc_apfloat::ieee::Double`'s multiplication: IEEE 754 binary64
/// multiplication, rounded to nearest, ties to even.
#[verifier::external_body]
pub(crate) fn num_mul(a: u64, b: u64) -> (r: u64)
    ensures
        r == mul_bits(a, b),
{
    (Double::from_bits(a as u128) * Double::from_bits(b as u128)).value.to_bits() as u64
}

/// Relies on `rustc_apfloat::ieee::Double`'s division: IEEE 754 binary64
/// division, rounded to nearest, ties to even.
#[verifier::external_body]
pub(crate) fn num_div(a: u64, b: u64) -> (r: u64)
    ensures
        r == div_bits(a, b),
{
    (Double::from_bits(a as u128) / Double::from_bits(b as u128)).value.to_bits() as u64
}

/// Relies on `rustc_apfloat::ieee::Double`'s `%`, which is `c_fmod`: the
/// remainder with the sign of the dividend, as `%` on doubles computes it.
#[verifier::external_body]
pub(crate) fn num_rem(a: u64, b: u64) -> (r: u64)
    ensures
        r == rem_bits(a, b),
{
    (Double::from_bits(a as u128) % Double::from_bits(b as u128)).value.to_bits() as u64
}

/// Relies on `rustc_apfloat::ieee::Double`'s `PartialOrd`: the IEEE 754
/// comparison, under which a NaN is unordered against everything.
#[verifier::external_body]
pub(crate) fn num_lt(a: u64, b: u64) -> (r: bool)
    ensures
        r == lt_bits(a, b),
{
    Double::from_bits(a as u128) < Double::from_bits(b as u128)
}

/// Relies on `rustc_apfloat::ieee::Double`'s `PartialOrd`: the IEEE 754
/// comparison, under which a NaN is unordered against everything.
#[verifier::external_body]
pub(crate) fn num_le(a: u64, b: u64) -> (r: bool)
    ensures
        r == le_bits(a, b),
{
    Double::from_bits(a as u128) <= Double::from_bits(b as u128)
}

/// Relies on `rustc_apfloat::ieee::Double`'s `Display`: a decimal rendering
/// that depends on the bit pattern alone.
#[verifier::external_body]
pub(crate) fn num_to_text(a: u64) -> (r: String)
    ensures
        r@ == text_of_num(a),
{
    format!("{}", Double::from_bits(a as u128))
}

/// Relies on `rustc_apfloat::ieee::Double`'s `FromStr`: the correctly rounded
/// decimal (or hexadecimal) reading of a numeral, `None` where the text is not
/// one.  The length bound keeps the parser's exponent bookkeeping, which
/// counts digit positions in a 32-bit integer, in range.
#[verifier::external_body]
pub(crate) fn num_from_text(s: &str) -> (r: Option<u64>)
    requires
        s@.len() < 0x8000_0000,
    ensures
        r == num_of_text(s@),
{
    match s.parse::<Double>() {
        Ok(d) => Some(d.to_bits() as u64),
        Err(_) => None,
    }
}

/// The magnitude of a number.
pub fn num_abs(a: u64) -> (r: u64)
    ensures
        r == abs_bits(a),
{
    a & MAGNITUDE_MASK
}

/// The negation of a number.
pub fn num_neg(a: u64) -> (r: u64)
    ensures
        r == neg_bits(a),
{
    a ^ SIGN_MASK
}

/// Whether a number is distinct from zero.
pub fn num_nonzero(a: u64) -> (r: bool)
    ensures
        r == nonzero_bits(a),
{
    a & MAGNITUDE_MASK != 0
}

/// Whether a pattern encodes a finite number.
pub fn num_finite(a: u64) -> (r: bool)
    ensures
        r == finite_bits(a),
{
    a & EXPONENT_MASK != EXPONENT_MASK
}

/// Equality with the epsilon tolerance.
pub fn num_eq(a: u64, b: u64) -> (r: bool)
    ensures
        r == eq_bits(a, b),
{
    if a == b {
        num_finite(a)
    } else {
        let d: u64 = if a < b {
            num_sub(a, b)
        } else {
            num_sub(b, a)
        };
        num_abs(d) < EPSILON_BITS
    }
}

} // verus!
