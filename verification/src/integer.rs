//! Arbitrary-precision signed integers, computed by `num_bigint`.

use crate::literal::{integer_literal_value, is_integer_literal};
use num_bigint::BigInt;
use vstd::arithmetic::power::pow;
use vstd::prelude::*;

verus! {

/// An arbitrary-precision signed integer, held as its two's-complement bytes,
/// least significant first. The empty sequence is zero.
#[derive(Debug)]
pub struct PreciseInteger {
    pub bytes: Vec<u8>,
}

/// The natural number whose base-256 digits are `bytes`, least significant first.
pub open spec fn unsigned_value(bytes: Seq<u8>) -> nat
    decreases bytes.len(),
{
    if bytes.len() == 0 {
        0
    } else {
        bytes[0] as nat + 256 * unsigned_value(bytes.skip(1))
    }
}

/// The integer whose two's-complement representation is `bytes`.
pub open spec fn signed_value(bytes: Seq<u8>) -> int {
    if bytes.len() > 0 && bytes.last() >= 128 {
        unsigned_value(bytes) - pow(256, bytes.len())
    } else {
        unsigned_value(bytes) as int
    }
}

impl View for PreciseInteger {
    type V = int;

    open spec fn view(&self) -> int {
        signed_value(self.bytes@)
    }
}

/// What `BigInt::from_str_radix` with radix 10 makes of `text`: the integer, or
/// `None` where it reports an error.
pub uninterp spec fn parsed_integer(text: Seq<char>) -> Option<int>;

/// `BigInt + BigInt`: the exact sum.
#[verifier::external_body]
pub(crate) fn integer_sum(a: &PreciseInteger, b: &PreciseInteger) -> (r: PreciseInteger)
    ensures
        r@ == a@ + b@,
{
    let x = BigInt::from_signed_bytes_le(&a.bytes);
    let y = BigInt::from_signed_bytes_le(&b.bytes);
    PreciseInteger { bytes: (x + y).to_signed_bytes_le() }
}

/// `BigInt - BigInt`: the exact difference.
#[verifier::external_body]
pub(crate) fn integer_difference(a: &PreciseInteger, b: &PreciseInteger) -> (r: PreciseInteger)
    ensures
        r@ == a@ - b@,
{
    let x = BigInt::from_signed_bytes_le(&a.bytes);
    let y = BigInt::from_signed_bytes_le(&b.bytes);
    PreciseInteger { bytes: (x - y).to_signed_bytes_le() }
}

/// `BigInt * BigInt`: the exact product.
#[verifier::external_body]
pub(crate) fn integer_product(a: &PreciseInteger, b: &PreciseInteger) -> (r: PreciseInteger)
    ensures
        r@ == a@ * b@,
{
    let x = BigInt::from_signed_bytes_le(&a.bytes);
    let y = BigInt::from_signed_bytes_le(&b.bytes);
    PreciseInteger { bytes: (x * y).to_signed_bytes_le() }
}

/// `BigInt::pow`: `base` raised to `exponent`, exactly.
#[verifier::external_body]
pub(crate) fn integer_power(base: &PreciseInteger, exponent: u32) -> (r: PreciseInteger)
    ensures
        r@ == pow(base@, exponent as nat),
{
    let x = BigInt::from_signed_bytes_le(&base.bytes);
    PreciseInteger { bytes: x.pow(exponent).to_signed_bytes_le() }
}

/// `BigInt == BigInt`: whether the two are the same integer.
#[verifier::external_body]
pub(crate) fn integer_equal(a: &PreciseInteger, b: &PreciseInteger) -> (r: bool)
    ensures
        r == (a@ == b@),
{
    BigInt::from_signed_bytes_le(&a.bytes) == BigInt::from_signed_bytes_le(&b.bytes)
}

/// `BigInt::from(i64)`: the same integer.
#[verifier::external_body]
pub(crate) fn integer_from_i64(value: i64) -> (r: PreciseInteger)
    ensures
        r@ == value,
{
    PreciseInteger { bytes: BigInt::from(value).to_signed_bytes_le() }
}

/// `BigInt::from_str_radix` with radix 10. An optional `-` and digits is read
/// as the integer that the digits denote; what else is accepted is left to
/// `parsed_integer`.
#[verifier::external_body]
pub(crate) fn integer_from_text(text: &str) -> (r: Option<PreciseInteger>)
    ensures
        match r {
            Some(i) => parsed_integer(text@) == Some(i@) && (is_integer_literal(text@) ==> i@
                == integer_literal_value(text@)),
            None => parsed_integer(text@) is None && !is_integer_literal(text@),
        },
{
    match <BigInt as bigdecimal::num_traits::Num>::from_str_radix(text, 10) {
        Ok(v) => Some(PreciseInteger { bytes: v.to_signed_bytes_le() }),
        Err(_) => None,
    }
}

impl Clone for PreciseInteger {
    fn clone(&self) -> (r: Self)
        ensures
            r@ == self@,
    {
        PreciseInteger { bytes: self.bytes.clone() }
    }
}

impl PreciseInteger {
    /// The integer zero.
    pub fn zero() -> (r: Self)
        ensures
            r@ == 0,
    {
        PreciseInteger { bytes: Vec::new() }
    }

    /// The arbitrary-precision form of a machine integer.
    pub fn from_i64(value: i64) -> (r: Self)
        ensures
            r@ == value,
    {
        integer_from_i64(value)
    }

    /// Reads decimal text. `None` where `BigInt` rejects the text.
    pub fn from_text(text: &str) -> (r: Option<Self>)
        ensures
            match r {
                Some(i) => parsed_integer(text@) == Some(i@),
                None => parsed_integer(text@) is None,
            },
            is_integer_literal(text@) ==> r is Some && r->0@ == integer_literal_value(text@),
    {
        integer_from_text(text)
    }

    /// Whether this is the integer zero.
    pub fn is_zero(&self) -> (r: bool)
        ensures
            r == (self@ == 0),
    {
        let zero = PreciseInteger::zero();
        integer_equal(self, &zero)
    }
}

} // verus!
