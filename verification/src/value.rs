//! The four-variant numeric value and its promotion rules.
//!
//! Two values of the precise tier stay precise; two of the fast tier stay
//! fast; a precise and a fast value meet as arbitrary-precision decimals.
//! Within a tier an integer and a decimal meet as decimals, and division
//! gives a decimal whatever it is given.

use crate::decimal::{
    decimal_defined, decimal_result, exact_result, lemma_integer_result_is_exact, same_number,
    Decimal, PreciseDecimal,
};
use crate::fast::{
    binary32_apply, binary32_exact, binary32_of_integer, binary32_quotient, binary32_result,
    binary32_to_decimal, float_from_integer, is_finite,
};
use crate::integer::PreciseInteger;
use crate::model::ValueType;
use crate::numeric::{precise_defined, precise_outcome, Numeric, NumericValue, PreciseNumber};
use crate::operator::Operator;
use vstd::prelude::*;

verus! {

/// A number in one of four representations.
#[derive(Debug)]
pub enum Value {
    /// An arbitrary-precision integer.
    PreciseInteger(PreciseInteger),
    /// An arbitrary-precision decimal.
    PreciseDecimal(PreciseDecimal),
    /// A 64-bit signed integer.
    FastInteger(i64),
    /// An IEEE 754 binary32 number, as its bit pattern.
    FastDecimal(u32),
}

/// The mathematical content of a `Value`.
pub ghost enum Number {
    PreciseInteger(int),
    PreciseDecimal(Decimal),
    FastInteger(i64),
    FastDecimal(u32),
}

impl View for Value {
    type V = Number;

    open spec fn view(&self) -> Number {
        match self {
            Value::PreciseInteger(i) => Number::PreciseInteger(i@),
            Value::PreciseDecimal(d) => Number::PreciseDecimal(d@),
            Value::FastInteger(i) => Number::FastInteger(*i),
            Value::FastDecimal(bits) => Number::FastDecimal(*bits),
        }
    }
}

/// Whether an integer fits the fast integer.
pub open spec fn fits_fast_integer(value: int) -> bool {
    i64::MIN <= value <= i64::MAX
}

impl Number {
    /// The tier and kind of the number.
    pub open spec fn value_type(self) -> ValueType {
        match self {
            Number::PreciseInteger(_) => ValueType::PreciseInteger,
            Number::PreciseDecimal(_) => ValueType::PreciseDecimal,
            Number::FastInteger(_) => ValueType::FastInteger,
            Number::FastDecimal(_) => ValueType::FastDecimal,
        }
    }

    /// A number of the precise tier as a precise number; a fast integer is
    /// taken as the same integer, a fast decimal as its exact value.
    pub open spec fn as_precise(self) -> PreciseNumber {
        match self {
            Number::PreciseInteger(i) => PreciseNumber::Integer(i),
            Number::PreciseDecimal(d) => PreciseNumber::Decimal(d),
            Number::FastInteger(i) => PreciseNumber::Integer(i as int),
            Number::FastDecimal(bits) => PreciseNumber::Decimal(binary32_exact(bits)),
        }
    }

    /// Whether the number has an exact decimal value: every number but an
    /// infinity or a NaN.
    pub open spec fn convertible(self) -> bool {
        match self {
            Number::FastDecimal(bits) => is_finite(bits),
            _ => true,
        }
    }

    /// The arbitrary-precision decimal that the number is equal to.
    pub open spec fn exact(self) -> Decimal {
        self.as_precise().as_decimal()
    }

    /// A number of the fast tier as binary32 bits; an integer is rounded to
    /// the nearest binary32 value.
    pub open spec fn as_binary32(self) -> u32 {
        match self {
            Number::FastInteger(i) => binary32_of_integer(i),
            Number::FastDecimal(bits) => bits,
            _ => 0,
        }
    }
}

/// Whether `op` can be applied to two numbers of the fast tier: integer
/// arithmetic must not overflow.
pub open spec fn fast_defined(op: Operator, a: Number, b: Number) -> bool {
    match (a, b) {
        (Number::FastInteger(x), Number::FastInteger(y)) => match op {
            Operator::Addition => fits_fast_integer(x + y),
            Operator::Subtraction => fits_fast_integer(x - y),
            Operator::Multiplication => fits_fast_integer(x * y),
            Operator::Division => true,
        },
        _ => true,
    }
}

/// What `op` makes of two numbers of the fast tier.
pub open spec fn fast_outcome(op: Operator, a: Number, b: Number) -> Number {
    match (a, b) {
        (Number::FastInteger(x), Number::FastInteger(y)) => match op {
            Operator::Addition => Number::FastInteger((x + y) as i64),
            Operator::Subtraction => Number::FastInteger((x - y) as i64),
            Operator::Multiplication => Number::FastInteger((x * y) as i64),
            Operator::Division => Number::FastDecimal(
                binary32_quotient(binary32_of_integer(x), binary32_of_integer(y)),
            ),
        },
        _ => Number::FastDecimal(binary32_result(op, a.as_binary32(), b.as_binary32())),
    }
}

/// Whether `op` can be applied to `a` and `b`.
pub open spec fn value_defined(op: Operator, a: Number, b: Number) -> bool {
    if a.value_type().is_precise() && b.value_type().is_precise() {
        precise_defined(op, a.as_precise(), b.as_precise())
    } else if !a.value_type().is_precise() && !b.value_type().is_precise() {
        fast_defined(op, a, b)
    } else {
        a.convertible() && b.convertible() && decimal_defined(op, a.exact(), b.exact())
    }
}

/// A precise number as a number of the precise tier.
pub open spec fn number_of_precise(value: PreciseNumber) -> Number {
    match value {
        PreciseNumber::Integer(i) => Number::PreciseInteger(i),
        PreciseNumber::Decimal(d) => Number::PreciseDecimal(d),
    }
}

/// What `op` makes of `a` and `b`, where it can be applied.
pub open spec fn value_outcome(op: Operator, a: Number, b: Number) -> Number {
    if a.value_type().is_precise() && b.value_type().is_precise() {
        number_of_precise(precise_outcome(op, a.as_precise(), b.as_precise()))
    } else if !a.value_type().is_precise() && !b.value_type().is_precise() {
        fast_outcome(op, a, b)
    } else {
        Number::PreciseDecimal(decimal_result(op, a.exact(), b.exact()))
    }
}

/// Whether `a` and `b` are the same number, whatever their representations.
/// An infinity or a NaN is the same as nothing.
pub open spec fn same_value(a: Number, b: Number) -> bool {
    a.convertible() && b.convertible() && same_number(a.exact(), b.exact())
}

/// Whether `op` on `a` and `b` is exact arithmetic: every operator but
/// division, unless a fast decimal meets a value of the fast tier.
pub open spec fn is_exact(op: Operator, a: Number, b: Number) -> bool {
    &&& op != Operator::Division
    &&& a.value_type().is_precise() || b.value_type().is_precise() || (a is FastInteger && b
        is FastInteger)
}

/// Whether the sum, difference or product of two fast integers fits.
fn fast_integer_defined(op: Operator, x: i64, y: i64) -> (r: bool)
    ensures
        r == fast_defined(op, Number::FastInteger(x), Number::FastInteger(y)),
{
    match op {
        Operator::Addition => {
            let wide: i128 = x as i128 + y as i128;
            -0x8000_0000_0000_0000 <= wide && wide <= 0x7fff_ffff_ffff_ffff
        },
        Operator::Subtraction => {
            let wide: i128 = x as i128 - y as i128;
            -0x8000_0000_0000_0000 <= wide && wide <= 0x7fff_ffff_ffff_ffff
        },
        Operator::Multiplication => {
            assert(-0x4000_0000_0000_0000_0000_0000_0000_0000 <= x * y
                <= 0x4000_0000_0000_0000_0000_0000_0000_0000) by (nonlinear_arith)
                requires
                    -0x8000_0000_0000_0000 <= x <= 0x7fff_ffff_ffff_ffff,
                    -0x8000_0000_0000_0000 <= y <= 0x7fff_ffff_ffff_ffff,
            ;
            let wide: i128 = x as i128 * y as i128;
            -0x8000_0000_0000_0000 <= wide && wide <= 0x7fff_ffff_ffff_ffff
        },
        Operator::Division => true,
    }
}

/// Applies `op` to two numbers of the fast tier.
fn fast_apply(op: Operator, a: &Value, b: &Value) -> (r: Value)
    requires
        !a@.value_type().is_precise(),
        !b@.value_type().is_precise(),
        fast_defined(op, a@, b@),
    ensures
        r@ == fast_outcome(op, a@, b@),
        is_exact(op, a@, b@) ==> r@.convertible() && same_number(
            r@.exact(),
            exact_result(op, a@.exact(), b@.exact()),
        ),
{
    match (a, b) {
        (Value::FastInteger(x), Value::FastInteger(y)) => {
            proof {
                if op != Operator::Division {
                    lemma_integer_result_is_exact(op, *x as int, *y as int);
                }
            }
            match op {
                Operator::Addition => Value::FastInteger(*x + *y),
                Operator::Subtraction => Value::FastInteger(*x - *y),
                Operator::Multiplication => Value::FastInteger(*x * *y),
                Operator::Division => Value::FastDecimal(
                    binary32_apply(op, float_from_integer(*x), float_from_integer(*y)),
                ),
            }
        },
        (Value::FastInteger(x), Value::FastDecimal(y)) => Value::FastDecimal(
            binary32_apply(op, float_from_integer(*x), *y),
        ),
        (Value::FastDecimal(x), Value::FastInteger(y)) => Value::FastDecimal(
            binary32_apply(op, *x, float_from_integer(*y)),
        ),
        (Value::FastDecimal(x), Value::FastDecimal(y)) => Value::FastDecimal(
            binary32_apply(op, *x, *y),
        ),
        _ => Value::FastInteger(0),
    }
}

impl Clone for Value {
    fn clone(&self) -> (r: Self)
        ensures
            r@ == self@,
    {
        match self {
            Value::PreciseInteger(i) => Value::PreciseInteger(i.clone()),
            Value::PreciseDecimal(d) => Value::PreciseDecimal(d.clone()),
            Value::FastInteger(i) => Value::FastInteger(*i),
            Value::FastDecimal(bits) => Value::FastDecimal(*bits),
        }
    }
}

impl Value {
    /// The tier and kind of the value.
    pub fn value_type(&self) -> (r: ValueType)
        ensures
            r == self@.value_type(),
    {
        match self {
            Value::PreciseInteger(_) => ValueType::PreciseInteger,
            Value::PreciseDecimal(_) => ValueType::PreciseDecimal,
            Value::FastInteger(_) => ValueType::FastInteger,
            Value::FastDecimal(_) => ValueType::FastDecimal,
        }
    }

    /// Whether the value is of the precise tier.
    pub fn is_precise(&self) -> (r: bool)
        ensures
            r == self@.value_type().is_precise(),
    {
        match self {
            Value::PreciseInteger(_) | Value::PreciseDecimal(_) => true,
            _ => false,
        }
    }

    /// The arbitrary-precision decimal that the value is equal to; `None` for
    /// an infinity or a NaN.
    pub fn to_decimal(&self) -> (r: Option<PreciseDecimal>)
        ensures
            match r {
                Some(d) => self@.convertible() && d@ == self@.exact(),
                None => !self@.convertible(),
            },
    {
        match self {
            Value::PreciseInteger(i) => Some(PreciseDecimal::from_integer(i.clone())),
            Value::PreciseDecimal(d) => Some(d.clone()),
            Value::FastInteger(i) => Some(
                PreciseDecimal::from_integer(PreciseInteger::from_i64(*i)),
            ),
            Value::FastDecimal(bits) => binary32_to_decimal(*bits),
        }
    }

    /// A value of the precise tier as a precise number.
    fn to_numeric(&self) -> (r: NumericValue)
        requires
            self@.value_type().is_precise(),
        ensures
            r@ == self@.as_precise(),
    {
        match self {
            Value::PreciseInteger(i) => NumericValue::Integer(i.clone()),
            Value::PreciseDecimal(d) => NumericValue::Decimal(d.clone()),
            _ => NumericValue::Integer(PreciseInteger::zero()),
        }
    }

    /// A precise number as a value of the precise tier.
    pub fn from_numeric(value: NumericValue) -> (r: Value)
        ensures
            r@ == number_of_precise(value@),
    {
        match value {
            NumericValue::Integer(i) => Value::PreciseInteger(i),
            NumericValue::Decimal(d) => Value::PreciseDecimal(d),
        }
    }

    /// Whether `op` can be applied to `a` and `b`.
    pub fn can_apply(op: Operator, a: &Value, b: &Value) -> (r: bool)
        ensures
            r == value_defined(op, a@, b@),
    {
        if a.is_precise() && b.is_precise() {
            let left = a.to_numeric();
            let right = b.to_numeric();
            NumericValue::can_apply(op, &left, &right)
        } else if !a.is_precise() && !b.is_precise() {
            match (a, b) {
                (Value::FastInteger(x), Value::FastInteger(y)) => fast_integer_defined(op, *x, *y),
                _ => true,
            }
        } else {
            match (a.to_decimal(), b.to_decimal()) {
                (Some(left), Some(right)) => {
                    left.has_scale_in_range() && right.has_scale_in_range() && match op {
                        Operator::Division => !right.is_zero(),
                        _ => true,
                    }
                },
                _ => false,
            }
        }
    }

    /// Applies `op` to `a` and `b`. Where the arithmetic is exact, the result
    /// stands for the exact sum, difference or product.
    pub fn apply(op: Operator, a: Value, b: Value) -> (r: Value)
        requires
            value_defined(op, a@, b@),
        ensures
            r@ == value_outcome(op, a@, b@),
            is_exact(op, a@, b@) ==> r@.convertible() && same_number(
                r@.exact(),
                exact_result(op, a@.exact(), b@.exact()),
            ),
    {
        if a.is_precise() && b.is_precise() {
            Value::from_numeric(NumericValue::apply(op, a.to_numeric(), b.to_numeric()))
        } else if !a.is_precise() && !b.is_precise() {
            fast_apply(op, &a, &b)
        } else {
            match (a.to_decimal(), b.to_decimal()) {
                (Some(left), Some(right)) => Value::PreciseDecimal(
                    PreciseDecimal::apply(op, &left, &right),
                ),
                _ => a,
            }
        }
    }

    /// Applies `op` to `a` and `b` where it can be applied.
    pub fn checked_apply(op: Operator, a: Value, b: Value) -> (r: Option<Value>)
        ensures
            match r {
                Some(v) => value_defined(op, a@, b@) && v@ == value_outcome(op, a@, b@) && (
                is_exact(op, a@, b@) ==> v@.convertible() && same_number(
                    v@.exact(),
                    exact_result(op, a@.exact(), b@.exact()),
                )),
                None => !value_defined(op, a@, b@),
            },
    {
        if Value::can_apply(op, &a, &b) {
            Some(Value::apply(op, a, b))
        } else {
            None
        }
    }
}

impl Numeric<Value> for Value {
    open spec fn defined(op: Operator, left: Number, right: Number) -> bool {
        value_defined(op, left, right)
    }

    open spec fn outcome(op: Operator, left: Number, right: Number) -> Number {
        value_outcome(op, left, right)
    }

    open spec fn same(left: Number, right: Number) -> bool {
        same_value(left, right)
    }

    fn add(self, other: Value) -> (r: Value) {
        Value::apply(Operator::Addition, self, other)
    }

    fn subtract(self, other: Value) -> (r: Value) {
        Value::apply(Operator::Subtraction, self, other)
    }

    fn multiply(self, other: Value) -> (r: Value) {
        Value::apply(Operator::Multiplication, self, other)
    }

    fn divide(self, other: Value) -> (r: Value)
        ensures
            r@.value_type().is_decimal(),
    {
        Value::apply(Operator::Division, self, other)
    }

    fn equal(self, other: Value) -> (r: bool) {
        match (self.to_decimal(), other.to_decimal()) {
            (Some(left), Some(right)) => left.same_number_as(&right),
            _ => false,
        }
    }
}

} // verus!
