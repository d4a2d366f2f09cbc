use rustc_apfloat::Float;
use rustc_apfloat::ieee::Double;
use vstd::prelude::*;

verus! {

// Runtime numbers are IEEE-754 binary64 values, carried as their 64-bit
// representation. The arithmetic, ordering and rendering of that format
// are performed by the rustc_apfloat software implementation; each is a
// pure function of the operand bit patterns, so the results are given
// names here and every contract above speaks through those names.

/// The bit pattern of the IEEE-754 sum (round to nearest even) of the
/// doubles with bit patterns `a` and `b`.
pub uninterp spec fn sum_bits(a: u64, b: u64) -> u64;

/// The bit pattern of the IEEE-754 difference of `a` and `b`.
pub uninterp spec fn diff_bits(a: u64, b: u64) -> u64;

/// The bit pattern of the IEEE-754 product of `a` and `b`.
pub uninterp spec fn prod_bits(a: u64, b: u64) -> u64;

/// The bit pattern of the IEEE-754 quotient of `a` and `b`.
pub uninterp spec fn quot_bits(a: u64, b: u64) -> u64;

/// Whether the double with bit pattern `a` is IEEE-less-than the double
/// with bit pattern `b` (false whenever either is NaN).
pub uninterp spec fn lt_bits(a: u64, b: u64) -> bool;

/// Whether `a` is IEEE-less-than-or-equal `b` (false whenever either is NaN).
pub uninterp spec fn le_bits(a: u64, b: u64) -> bool;

/// Whether `a` and `b` are IEEE-equal: compared by value, so NaN equals
/// nothing and the two zeros are equal. No epsilon tolerance.
pub uninterp spec fn eq_bits(a: u64, b: u64) -> bool;

/// The decimal rendering of the double with bit pattern `a`.
pub uninterp spec fn text_of_bits(a: u64) -> Seq<char>;

/// Relies on rustc_apfloat's `ieee::Double` addition (`Add::add`, rounding
/// to nearest even), a pure function of the operand bits.
#[verifier::external_body]
pub(crate) fn num_add(a: u64, b: u64) -> (r: u64)
    ensures
        r == sum_bits(a, b),
{
    (Double::from_bits(a as u128) + Double::from_bits(b as u128)).value.to_bits() as u64
}

/// Relies on rustc_apfloat's `ieee::Double` subtraction (`Sub::sub`).
#[verifier::external_body]
pub(crate) fn num_sub(a: u64, b: u64) -> (r: u64)
    ensures
        r == diff_bits(a, b),
{
    (Double::from_bits(a as u128) - Double::from_bits(b as u128)).value.to_bits() as u64
}

/// Relies on rustc_apfloat's `ieee::Double` multiplication (`Mul::mul`).
#[verifier::external_body]
pub(crate) fn num_mul(a: u64, b: u64) -> (r: u64)
    ensures
        r == prod_bits(a, b),
{
    (Double::from_bits(a as u128) * Double::from_bits(b as u128)).value.to_bits() as u64
}

/// Relies on rustc_apfloat's `ieee::Double` division (`Div::div`).
#[verifier::external_body]
pub(crate) fn num_div(a: u64, b: u64) -> (r: u64)
    ensures
        r == quot_bits(a, b),
{
    (Double::from_bits(a as u128) / Double::from_bits(b as u128)).value.to_bits() as u64
}

/// Relies on rustc_apfloat's `ieee::Double` ordering (`PartialOrd::lt`,
/// the IEEE partial order: NaN compares less-than nothing).
#[verifier::external_body]
pub(crate) fn num_lt(a: u64, b: u64) -> (r: bool)
    ensures
        r == lt_bits(a, b),
{
    Double::from_bits(a as u128) < Double::from_bits(b as u128)
}

/// Relies on rustc_apfloat's `ieee::Double` ordering (`PartialOrd::le`).
#[verifier::external_body]
pub(crate) fn num_le(a: u64, b: u64) -> (r: bool)
    ensures
        r == le_bits(a, b),
{
    Double::from_bits(a as u128) <= Double::from_bits(b as u128)
}

/// Relies on rustc_apfloat's `ieee::Double` equality (`PartialEq::eq`,
/// defined there as `partial_cmp == Some(Equal)`, the IEEE equality).
#[verifier::external_body]
pub(crate) fn num_eq(a: u64, b: u64) -> (r: bool)
    ensures
        r == eq_bits(a, b),
{
    Double::from_bits(a as u128) == Double::from_bits(b as u128)
}

/// Relies on rustc_apfloat's `ieee::Double` `Display`: the decimal
/// rendering of the value, a pure function of the bits.
#[verifier::external_body]
pub(crate) fn num_render(a: u64) -> (r: String)
    ensures
        r@ == text_of_bits(a),
{
    format!("{}", Double::from_bits(a as u128))
}

/// The bit pattern of the IEEE-754 negation of `a`: negation flips the
/// sign bit and leaves the rest of the representation unchanged.
pub open spec fn neg_bits(a: u64) -> u64 {
    a ^ 0x8000_0000_0000_0000u64
}

/// Unary minus on a runtime number.
pub fn num_neg(a: u64) -> (r: u64)
    ensures
        r == neg_bits(a),
{
    a ^ 0x8000_0000_0000_0000u64
}

} // verus!
