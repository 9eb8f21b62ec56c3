//! Fixed-width binary floating point, IEEE 754 binary32, held as its bit
//! pattern. The arithmetic is done by `rustc_apfloat`; what a finite pattern
//! is worth as a decimal is worked out here.

use crate::decimal::{Decimal, PreciseDecimal};
use crate::integer::{integer_from_i64, integer_power, integer_product};
use crate::literal::is_decimal_literal;
use crate::operator::Operator;
use rustc_apfloat::ieee::Single;
use rustc_apfloat::Float;
use vstd::arithmetic::power::pow;
use vstd::prelude::*;

verus! {

/// The longest text that is read as a binary32 value.
pub const MAX_LITERAL_LENGTH: usize = 16777216;

/// The bits of the sum of two binary32 values, rounded to nearest, ties to even.
pub uninterp spec fn binary32_sum(a: u32, b: u32) -> u32;

/// The bits of the difference of two binary32 values, rounded to nearest, ties to even.
pub uninterp spec fn binary32_difference(a: u32, b: u32) -> u32;

/// The bits of the product of two binary32 values, rounded to nearest, ties to even.
pub uninterp spec fn binary32_product(a: u32, b: u32) -> u32;

/// The bits of the quotient of two binary32 values, rounded to nearest, ties to even.
pub uninterp spec fn binary32_quotient(a: u32, b: u32) -> u32;

/// The bits of the binary32 value nearest to an integer.
pub uninterp spec fn binary32_of_integer(value: i64) -> u32;

/// The bits of the binary32 value nearest to the number that a decimal
/// literal writes, ties to even.
pub uninterp spec fn binary32_parsed(text: Seq<char>) -> u32;

/// `Single + Single`, with the default rounding.
#[verifier::external_body]
pub(crate) fn float_add(a: u32, b: u32) -> (r: u32)
    ensures
        r == binary32_sum(a, b),
{
    (Single::from_bits(a as u128) + Single::from_bits(b as u128)).value.to_bits() as u32
}

/// `Single - Single`, with the default rounding.
#[verifier::external_body]
pub(crate) fn float_subtract(a: u32, b: u32) -> (r: u32)
    ensures
        r == binary32_difference(a, b),
{
    (Single::from_bits(a as u128) - Single::from_bits(b as u128)).value.to_bits() as u32
}

/// `Single * Single`, with the default rounding.
#[verifier::external_body]
pub(crate) fn float_multiply(a: u32, b: u32) -> (r: u32)
    ensures
        r == binary32_product(a, b),
{
    (Single::from_bits(a as u128) * Single::from_bits(b as u128)).value.to_bits() as u32
}

/// `Single / Single`, with the default rounding. A zero divisor gives an
/// infinity or a NaN, as IEEE 754 has it.
#[verifier::external_body]
pub(crate) fn float_divide(a: u32, b: u32) -> (r: u32)
    ensures
        r == binary32_quotient(a, b),
{
    (Single::from_bits(a as u128) / Single::from_bits(b as u128)).value.to_bits() as u32
}

/// `Single::from_i128`, with the default rounding.
#[verifier::external_body]
pub(crate) fn float_from_integer(value: i64) -> (r: u32)
    ensures
        r == binary32_of_integer(value),
{
    Single::from_i128(value as i128).value.to_bits() as u32
}

/// `Single::from_str`, with the default rounding, on a decimal literal,
/// which it always reads as a number. The count of digits is kept where it
/// fits the signed 32-bit arithmetic that `rustc_apfloat` does on it.
#[verifier::external_body]
pub(crate) fn float_from_text(text: &str) -> (r: Option<u32>)
    requires
        is_decimal_literal(text@),
        text@.len() <= MAX_LITERAL_LENGTH,
    ensures
        r == Some(binary32_parsed(text@)),
{
    match text.parse::<Single>() {
        Ok(v) => Some(v.to_bits() as u32),
        Err(_) => None,
    }
}

/// The eight exponent bits of a pattern.
pub open spec fn exponent_field(bits: u32) -> u32 {
    (bits >> 23) & 0xff
}

/// The twenty-three fraction bits of a pattern.
pub open spec fn fraction_field(bits: u32) -> u32 {
    bits & 0x7f_ffff
}

/// Whether the sign bit of a pattern is set.
pub open spec fn sign_bit(bits: u32) -> bool {
    bits >> 31 == 1
}

/// Whether a pattern is a number: neither an infinity nor a NaN.
pub open spec fn is_finite(bits: u32) -> bool {
    exponent_field(bits) != 255
}

/// The integer significand of a finite pattern, with its sign.
pub open spec fn significand(bits: u32) -> int {
    let magnitude: int = if exponent_field(bits) == 0 {
        fraction_field(bits) as int
    } else {
        fraction_field(bits) + 0x80_0000
    };
    if sign_bit(bits) {
        -magnitude
    } else {
        magnitude
    }
}

/// The power of two that scales the significand of a finite pattern.
pub open spec fn binary_exponent(bits: u32) -> int {
    if exponent_field(bits) == 0 {
        -149
    } else {
        exponent_field(bits) - 150
    }
}

/// The decimal that a finite pattern is exactly equal to:
/// `significand * 2^e` for `e >= 0`, and `significand * 5^(-e)` at scale
/// `-e` otherwise.
pub open spec fn binary32_exact(bits: u32) -> Decimal {
    if binary_exponent(bits) >= 0 {
        Decimal {
            unscaled: significand(bits) * pow(2, binary_exponent(bits) as nat),
            scale: 0,
        }
    } else {
        Decimal {
            unscaled: significand(bits) * pow(5, (-binary_exponent(bits)) as nat),
            scale: -binary_exponent(bits),
        }
    }
}

/// What an operator makes of two binary32 values.
pub open spec fn binary32_result(op: Operator, a: u32, b: u32) -> u32 {
    match op {
        Operator::Addition => binary32_sum(a, b),
        Operator::Subtraction => binary32_difference(a, b),
        Operator::Multiplication => binary32_product(a, b),
        Operator::Division => binary32_quotient(a, b),
    }
}

/// Applies an operator to two binary32 values.
pub fn binary32_apply(op: Operator, a: u32, b: u32) -> (r: u32)
    ensures
        r == binary32_result(op, a, b),
{
    match op {
        Operator::Addition => float_add(a, b),
        Operator::Subtraction => float_subtract(a, b),
        Operator::Multiplication => float_multiply(a, b),
        Operator::Division => float_divide(a, b),
    }
}

/// Whether a pattern is a number: neither an infinity nor a NaN.
pub fn binary32_is_finite(bits: u32) -> (r: bool)
    ensures
        r == is_finite(bits),
{
    (bits >> 23) & 0xff != 255
}

/// The exact decimal value of a finite pattern; `None` for an infinity or a NaN.
pub fn binary32_to_decimal(bits: u32) -> (r: Option<PreciseDecimal>)
    ensures
        match r {
            Some(d) => is_finite(bits) && d@ == binary32_exact(bits),
            None => !is_finite(bits),
        },
{
    let exponent: u32 = (bits >> 23) & 0xff;
    let fraction: u32 = bits & 0x7f_ffff;
    let negative: bool = bits >> 31 == 1;
    assert(((bits >> 23) & 0xff) <= 255 && (bits & 0x7f_ffff) < 0x80_0000) by (bit_vector);
    if exponent == 255 {
        return None;
    }
    let magnitude: i64 = if exponent == 0 {
        fraction as i64
    } else {
        fraction as i64 + 0x80_0000
    };
    let signed: i64 = if negative {
        -magnitude
    } else {
        magnitude
    };
    let mantissa = integer_from_i64(signed);
    if exponent >= 150 {
        let two = integer_from_i64(2);
        let factor = integer_power(&two, exponent - 150);
        Some(PreciseDecimal::new(integer_product(&mantissa, &factor), 0))
    } else {
        let five = integer_from_i64(5);
        let places: u32 = if exponent == 0 {
            149
        } else {
            150 - exponent
        };
        let factor = integer_power(&five, places);
        Some(PreciseDecimal::new(integer_product(&mantissa, &factor), places as i64))
    }
}

} // verus!
