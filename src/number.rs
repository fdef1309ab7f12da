use vstd::prelude::*;
use rustc_apfloat::ieee::Double;
use rustc_apfloat::Float;

verus! {

/// Bit pattern of the sign of an IEEE-754 binary64 value.
pub const SIGN_BIT: u64 = 0x8000_0000_0000_0000;

/// Every bit but the sign.
pub const MAGNITUDE_BITS: u64 = 0x7fff_ffff_ffff_ffff;

/// The double that `text` denotes, rounded to nearest, or `None` where the text is no number.
pub uninterp spec fn double_of_decimal(text: Seq<char>) -> Option<u64>;

/// The correctly rounded sum of two doubles.
pub uninterp spec fn double_sum(a: u64, b: u64) -> u64;

/// The correctly rounded difference of two doubles.
pub uninterp spec fn double_difference(a: u64, b: u64) -> u64;

/// The correctly rounded product of two doubles.
pub uninterp spec fn double_product(a: u64, b: u64) -> u64;

/// The correctly rounded quotient of two doubles.
pub uninterp spec fn double_quotient(a: u64, b: u64) -> u64;

/// How two doubles compare; `None` where either is a NaN.
pub uninterp spec fn double_order(a: u64, b: u64) -> Option<std::cmp::Ordering>;

/// Relies on `FromStr for IeeeFloat` of rustc_apfloat (rounding to nearest, ties to even):
/// the result depends on the text alone.
#[verifier::external_body]
pub(crate) fn parse_double(text: &str) -> (r: Option<u64>)
    ensures
        r == double_of_decimal(text@),
{
    match text.parse::<Double>() {
        Ok(d) => Some(d.to_bits() as u64),
        Err(_) => None,
    }
}

/// Relies on `Add for IeeeFloat` of rustc_apfloat: the sum depends on the operands alone.
#[verifier::external_body]
pub(crate) fn add_doubles(a: u64, b: u64) -> (r: u64)
    ensures
        r == double_sum(a, b),
{
    (Double::from_bits(a as u128) + Double::from_bits(b as u128)).value.to_bits() as u64
}

/// Relies on `Sub for IeeeFloat` of rustc_apfloat: the difference depends on the operands alone.
#[verifier::external_body]
pub(crate) fn sub_doubles(a: u64, b: u64) -> (r: u64)
    ensures
        r == double_difference(a, b),
{
    (Double::from_bits(a as u128) - Double::from_bits(b as u128)).value.to_bits() as u64
}

/// Relies on `Mul for IeeeFloat` of rustc_apfloat: the product depends on the operands alone.
#[verifier::external_body]
pub(crate) fn mul_doubles(a: u64, b: u64) -> (r: u64)
    ensures
        r == double_product(a, b),
{
    (Double::from_bits(a as u128) * Double::from_bits(b as u128)).value.to_bits() as u64
}

/// Relies on `Div for IeeeFloat` of rustc_apfloat: the quotient depends on the operands alone;
/// a zero divisor gives an infinity or a NaN, never a panic.
#[verifier::external_body]
pub(crate) fn div_doubles(a: u64, b: u64) -> (r: u64)
    ensures
        r == double_quotient(a, b),
{
    (Double::from_bits(a as u128) / Double::from_bits(b as u128)).value.to_bits() as u64
}

/// Relies on `PartialOrd for IeeeFloat` of rustc_apfloat: the order depends on the operands alone.
#[verifier::external_body]
pub(crate) fn compare_doubles(a: u64, b: u64) -> (r: Option<std::cmp::Ordering>)
    ensures
        r == double_order(a, b),
{
    Double::from_bits(a as u128).partial_cmp(&Double::from_bits(b as u128))
}

/// The negation of a double: its sign flipped.
pub open spec fn negated(a: u64) -> u64 {
    a ^ SIGN_BIT
}

/// Whether a double is zero, of either sign.
pub open spec fn is_zero_double(a: u64) -> bool {
    a & MAGNITUDE_BITS == 0
}

/// The negation of a double.
pub fn negate_double(a: u64) -> (r: u64)
    ensures
        r == negated(a),
{
    a ^ SIGN_BIT
}

/// Whether a double is zero, of either sign.
pub fn double_is_zero(a: u64) -> (r: bool)
    ensures
        r == is_zero_double(a),
{
    a & MAGNITUDE_BITS == 0
}

} // verus!
