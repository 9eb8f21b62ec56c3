//! Arbitrary-precision signed decimals, computed by `bigdecimal`.

use crate::integer::{
    integer_equal, integer_from_i64, integer_power, integer_product, PreciseInteger,
};
use crate::operator::Operator;
use bigdecimal::num_bigint::BigInt;
use bigdecimal::BigDecimal;
use vstd::arithmetic::power::{lemma_pow0, lemma_pow_adds, pow};
use vstd::prelude::*;

verus! {

/// The largest scale, in absolute value, that arithmetic takes in an
/// operand: scales of 32 bits, so that the sums and differences that
/// `bigdecimal` forms of two of them fit the 64 bits in which it holds them.
pub const MAX_SCALE: i64 = 2147483647;

/// An arbitrary-precision signed decimal: `unscaled` times ten to the power
/// of minus `scale`.
#[derive(Debug)]
pub struct PreciseDecimal {
    pub unscaled: PreciseInteger,
    pub scale: i64,
}

/// The mathematical content of a `PreciseDecimal`: the number
/// `unscaled * 10^(-scale)`, in this representation.
pub ghost struct Decimal {
    pub unscaled: int,
    pub scale: int,
}

impl View for PreciseDecimal {
    type V = Decimal;

    open spec fn view(&self) -> Decimal {
        Decimal { unscaled: self.unscaled@, scale: self.scale as int }
    }
}

/// Whether arithmetic accepts an operand of this scale.
pub open spec fn scale_in_range(scale: int) -> bool {
    -MAX_SCALE <= scale <= MAX_SCALE
}

/// The larger of two scales.
pub open spec fn wider_scale(a: int, b: int) -> int {
    if a >= b {
        a
    } else {
        b
    }
}

/// The unscaled integer that `d` has at `scale`, for a `scale` that is not
/// below its own.
pub open spec fn aligned(d: Decimal, scale: int) -> int {
    d.unscaled * pow(10, (scale - d.scale) as nat)
}

/// Two representations stand for the same number.
pub open spec fn same_number(a: Decimal, b: Decimal) -> bool {
    aligned(a, wider_scale(a.scale, b.scale)) == aligned(b, wider_scale(a.scale, b.scale))
}

/// An integer as a decimal of scale zero.
pub open spec fn decimal_of_integer(value: int) -> Decimal {
    Decimal { unscaled: value, scale: 0 }
}

/// The sum of two decimals, at the wider of their scales.
pub open spec fn exact_sum(a: Decimal, b: Decimal) -> Decimal {
    Decimal {
        unscaled: aligned(a, wider_scale(a.scale, b.scale)) + aligned(
            b,
            wider_scale(a.scale, b.scale),
        ),
        scale: wider_scale(a.scale, b.scale),
    }
}

/// The difference of two decimals, at the wider of their scales.
pub open spec fn exact_difference(a: Decimal, b: Decimal) -> Decimal {
    Decimal {
        unscaled: aligned(a, wider_scale(a.scale, b.scale)) - aligned(
            b,
            wider_scale(a.scale, b.scale),
        ),
        scale: wider_scale(a.scale, b.scale),
    }
}

/// The product of two decimals, at the sum of their scales.
pub open spec fn exact_product(a: Decimal, b: Decimal) -> Decimal {
    Decimal { unscaled: a.unscaled * b.unscaled, scale: a.scale + b.scale }
}

/// The representation that `BigDecimal + BigDecimal` gives to a sum.
pub uninterp spec fn decimal_sum(a: Decimal, b: Decimal) -> Decimal;

/// The representation that `BigDecimal - BigDecimal` gives to a difference.
pub uninterp spec fn decimal_difference(a: Decimal, b: Decimal) -> Decimal;

/// The representation that `BigDecimal * BigDecimal` gives to a product.
pub uninterp spec fn decimal_product(a: Decimal, b: Decimal) -> Decimal;

/// What `BigDecimal / BigDecimal` returns: the quotient, cut to the number of
/// digits that `bigdecimal` was built to keep.
pub uninterp spec fn decimal_quotient(a: Decimal, b: Decimal) -> Decimal;

/// What `BigDecimal::from_str_radix` with radix 10 makes of `text`: the
/// decimal, or `None` where it reports an error.
pub uninterp spec fn parsed_decimal(text: Seq<char>) -> Option<Decimal>;

/// `BigDecimal + BigDecimal`. The result stands for the exact sum; which
/// scale it is given is left to `decimal_sum`.
#[verifier::external_body]
pub(crate) fn decimal_add(a: &PreciseDecimal, b: &PreciseDecimal) -> (r: PreciseDecimal)
    requires
        scale_in_range(a@.scale),
        scale_in_range(b@.scale),
    ensures
        r@ == decimal_sum(a@, b@),
        same_number(r@, exact_sum(a@, b@)),
{
    let x = BigDecimal::new(BigInt::from_signed_bytes_le(&a.unscaled.bytes), a.scale);
    let y = BigDecimal::new(BigInt::from_signed_bytes_le(&b.unscaled.bytes), b.scale);
    let (digits, scale) = (x + y).into_bigint_and_exponent();
    PreciseDecimal { unscaled: PreciseInteger { bytes: digits.to_signed_bytes_le() }, scale }
}

/// `BigDecimal - BigDecimal`. The result stands for the exact difference;
/// which scale it is given is left to `decimal_difference`.
#[verifier::external_body]
pub(crate) fn decimal_subtract(a: &PreciseDecimal, b: &PreciseDecimal) -> (r: PreciseDecimal)
    requires
        scale_in_range(a@.scale),
        scale_in_range(b@.scale),
    ensures
        r@ == decimal_difference(a@, b@),
        same_number(r@, exact_difference(a@, b@)),
{
    let x = BigDecimal::new(BigInt::from_signed_bytes_le(&a.unscaled.bytes), a.scale);
    let y = BigDecimal::new(BigInt::from_signed_bytes_le(&b.unscaled.bytes), b.scale);
    let (digits, scale) = (x - y).into_bigint_and_exponent();
    PreciseDecimal { unscaled: PreciseInteger { bytes: digits.to_signed_bytes_le() }, scale }
}

/// `BigDecimal * BigDecimal`. The result stands for the exact product; which
/// scale it is given is left to `decimal_product`.
#[verifier::external_body]
pub(crate) fn decimal_multiply(a: &PreciseDecimal, b: &PreciseDecimal) -> (r: PreciseDecimal)
    requires
        scale_in_range(a@.scale),
        scale_in_range(b@.scale),
    ensures
        r@ == decimal_product(a@, b@),
        same_number(r@, exact_product(a@, b@)),
{
    let x = BigDecimal::new(BigInt::from_signed_bytes_le(&a.unscaled.bytes), a.scale);
    let y = BigDecimal::new(BigInt::from_signed_bytes_le(&b.unscaled.bytes), b.scale);
    let (digits, scale) = (x * y).into_bigint_and_exponent();
    PreciseDecimal { unscaled: PreciseInteger { bytes: digits.to_signed_bytes_le() }, scale }
}

/// `BigDecimal / BigDecimal`, which panics on a zero divisor. How many
/// digits the quotient is given is left to `decimal_quotient`.
#[verifier::external_body]
pub(crate) fn decimal_divide(a: &PreciseDecimal, b: &PreciseDecimal) -> (r: PreciseDecimal)
    requires
        scale_in_range(a@.scale),
        scale_in_range(b@.scale),
        b@.unscaled != 0,
    ensures
        r@ == decimal_quotient(a@, b@),
{
    let x = BigDecimal::new(BigInt::from_signed_bytes_le(&a.unscaled.bytes), a.scale);
    let y = BigDecimal::new(BigInt::from_signed_bytes_le(&b.unscaled.bytes), b.scale);
    let (digits, scale) = (x / y).into_bigint_and_exponent();
    PreciseDecimal { unscaled: PreciseInteger { bytes: digits.to_signed_bytes_le() }, scale }
}

/// `BigDecimal::from_str_radix` with radix 10.
#[verifier::external_body]
pub(crate) fn decimal_from_text(text: &str) -> (r: Option<PreciseDecimal>)
    ensures
        match r {
            Some(d) => parsed_decimal(text@) == Some(d@),
            None => parsed_decimal(text@) is None,
        },
{
    match <BigDecimal as bigdecimal::num_traits::Num>::from_str_radix(text, 10) {
        Ok(v) => {
            let (digits, scale) = v.into_bigint_and_exponent();
            let unscaled = PreciseInteger { bytes: digits.to_signed_bytes_le() };
            Some(PreciseDecimal { unscaled, scale })
        },
        Err(_) => None,
    }
}

/// What an operator makes of two decimals.
pub open spec fn decimal_result(op: Operator, a: Decimal, b: Decimal) -> Decimal {
    match op {
        Operator::Addition => decimal_sum(a, b),
        Operator::Subtraction => decimal_difference(a, b),
        Operator::Multiplication => decimal_product(a, b),
        Operator::Division => decimal_quotient(a, b),
    }
}

/// The exact result of an operator other than division.
pub open spec fn exact_result(op: Operator, a: Decimal, b: Decimal) -> Decimal {
    match op {
        Operator::Addition => exact_sum(a, b),
        Operator::Subtraction => exact_difference(a, b),
        _ => exact_product(a, b),
    }
}

/// Whether an operator can be applied to two decimals: both scales are in
/// range and a divisor is not zero.
pub open spec fn decimal_defined(op: Operator, a: Decimal, b: Decimal) -> bool {
    &&& scale_in_range(a.scale)
    &&& scale_in_range(b.scale)
    &&& (op == Operator::Division ==> b.unscaled != 0)
}

/// What an operator other than division makes of two integers.
pub open spec fn integer_result(op: Operator, x: int, y: int) -> int {
    match op {
        Operator::Addition => x + y,
        Operator::Subtraction => x - y,
        _ => x * y,
    }
}

/// Arithmetic on integers is arithmetic on decimals of scale zero.
pub proof fn lemma_integer_result_is_exact(op: Operator, x: int, y: int)
    requires
        op != Operator::Division,
    ensures
        same_number(
            decimal_of_integer(integer_result(op, x, y)),
            exact_result(op, decimal_of_integer(x), decimal_of_integer(y)),
        ),
{
    lemma_pow0(10);
    let one = pow(10, 0);
    assert(x * one == x && y * one == y && (x + y) * one == x + y && (x - y) * one == x - y && (x
        * y) * one == x * y) by (nonlinear_arith)
        requires
            one == 1,
    ;
}

/// Raising the scale at which a decimal is taken multiplies by a power of
/// ten.
pub proof fn lemma_aligned_further(d: Decimal, near: int, far: int)
    requires
        d.scale <= near <= far,
    ensures
        aligned(d, far) == aligned(d, near) * pow(10, (far - near) as nat),
{
    lemma_pow_adds(10, (near - d.scale) as nat, (far - near) as nat);
    assert(d.unscaled * (pow(10, (near - d.scale) as nat) * pow(10, (far - near) as nat)) == (
    d.unscaled * pow(10, (near - d.scale) as nat)) * pow(10, (far - near) as nat))
        by (nonlinear_arith);
}

/// Two decimals stand for the same number exactly when they agree at any
/// scale that neither lies above.
pub proof fn lemma_same_number_at(a: Decimal, b: Decimal, scale: int)
    requires
        a.scale <= scale,
        b.scale <= scale,
    ensures
        same_number(a, b) <==> aligned(a, scale) == aligned(b, scale),
{
    let near = wider_scale(a.scale, b.scale);
    let factor = pow(10, (scale - near) as nat);
    lemma_aligned_further(a, near, scale);
    lemma_aligned_further(b, near, scale);
    vstd::arithmetic::power::lemma_pow_positive(10, (scale - near) as nat);
    if aligned(a, scale) == aligned(b, scale) {
        assert(factor * aligned(a, near) == factor * aligned(b, near)) by (nonlinear_arith)
            requires
                aligned(a, near) * factor == aligned(b, near) * factor,
        ;
        vstd::arithmetic::mul::lemma_mul_equality_converse(
            factor,
            aligned(a, near),
            aligned(b, near),
        );
    }
}

/// Standing for the same number is an equivalence.
pub proof fn lemma_same_number_is_an_equivalence(a: Decimal, b: Decimal, c: Decimal)
    ensures
        same_number(a, a),
        same_number(a, b) == same_number(b, a),
        same_number(a, b) && same_number(b, c) ==> same_number(a, c),
{
    let far = wider_scale(wider_scale(a.scale, b.scale), c.scale);
    lemma_same_number_at(a, b, far);
    lemma_same_number_at(b, c, far);
    lemma_same_number_at(a, c, far);
}

/// Ten to the power of `exponent`.
fn power_of_ten(exponent: u64) -> (r: PreciseInteger)
    ensures
        r@ == pow(10, exponent as nat),
{
    let ten = integer_from_i64(10);
    let mut result = integer_from_i64(1);
    let mut left: u64 = exponent;
    proof {
        lemma_pow0(10);
    }
    while left > 0xffff_ffff
        invariant
            ten@ == 10,
            result@ * pow(10, left as nat) == pow(10, exponent as nat),
        decreases left,
    {
        let chunk = integer_power(&ten, 0xffff_ffff);
        proof {
            lemma_pow_adds(10, 0xffff_ffff, (left - 0xffff_ffff) as nat);
            assert(result@ * (chunk@ * pow(10, (left - 0xffff_ffff) as nat)) == (result@ * chunk@)
                * pow(10, (left - 0xffff_ffff) as nat)) by (nonlinear_arith);
        }
        result = integer_product(&result, &chunk);
        left = left - 0xffff_ffff;
    }
    let rest = integer_power(&ten, left as u32);
    integer_product(&result, &rest)
}

/// How far scale `a` lies above scale `b`.
fn scale_gap(a: i64, b: i64) -> (gap: u64)
    requires
        a >= b,
    ensures
        gap == a - b,
{
    let wide: i128 = a as i128 - b as i128;
    wide as u64
}

impl Clone for PreciseDecimal {
    fn clone(&self) -> (r: Self)
        ensures
            r@ == self@,
    {
        PreciseDecimal { unscaled: self.unscaled.clone(), scale: self.scale }
    }
}

impl PreciseDecimal {
    /// The decimal `unscaled * 10^(-scale)`.
    pub fn new(unscaled: PreciseInteger, scale: i64) -> (r: Self)
        ensures
            r@ == (Decimal { unscaled: unscaled@, scale: scale as int }),
    {
        PreciseDecimal { unscaled, scale }
    }

    /// An integer as a decimal of scale zero.
    pub fn from_integer(value: PreciseInteger) -> (r: Self)
        ensures
            r@ == decimal_of_integer(value@),
    {
        PreciseDecimal { unscaled: value, scale: 0 }
    }

    /// Reads decimal text. `None` where `BigDecimal` rejects the text.
    pub fn from_text(text: &str) -> (r: Option<Self>)
        ensures
            match r {
                Some(d) => parsed_decimal(text@) == Some(d@),
                None => parsed_decimal(text@) is None,
            },
    {
        decimal_from_text(text)
    }

    /// Whether this is zero.
    pub fn is_zero(&self) -> (r: bool)
        ensures
            r == (self@.unscaled == 0),
    {
        self.unscaled.is_zero()
    }

    /// Whether arithmetic accepts this decimal's scale.
    pub fn has_scale_in_range(&self) -> (r: bool)
        ensures
            r == scale_in_range(self@.scale),
    {
        -MAX_SCALE <= self.scale && self.scale <= MAX_SCALE
    }

    /// Whether two decimals stand for the same number, whatever their scales.
    pub fn same_number_as(&self, other: &PreciseDecimal) -> (r: bool)
        ensures
            r == same_number(self@, other@),
    {
        proof {
            lemma_pow0(10);
        }
        if self.scale >= other.scale {
            let shift = power_of_ten(scale_gap(self.scale, other.scale));
            let lifted = integer_product(&other.unscaled, &shift);
            integer_equal(&self.unscaled, &lifted)
        } else {
            let shift = power_of_ten(scale_gap(other.scale, self.scale));
            let lifted = integer_product(&self.unscaled, &shift);
            integer_equal(&lifted, &other.unscaled)
        }
    }

    /// Applies an operator to two decimals.
    pub fn apply(op: Operator, a: &PreciseDecimal, b: &PreciseDecimal) -> (r: PreciseDecimal)
        requires
            decimal_defined(op, a@, b@),
        ensures
            r@ == decimal_result(op, a@, b@),
            op != Operator::Division ==> same_number(r@, exact_result(op, a@, b@)),
    {
        match op {
            Operator::Addition => decimal_add(a, b),
            Operator::Subtraction => decimal_subtract(a, b),
            Operator::Multiplication => decimal_multiply(a, b),
            Operator::Division => decimal_divide(a, b),
        }
    }
}

} // verus!
