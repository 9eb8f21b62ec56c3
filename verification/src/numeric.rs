//! The precise tier on its own: a value that is an arbitrary-precision
//! integer or decimal, and the arithmetic between any two of them.

use crate::decimal::{
    decimal_defined, decimal_of_integer, decimal_quotient, decimal_result, exact_result,
    lemma_integer_result_is_exact, same_number, Decimal, PreciseDecimal,
};
use crate::decimal::parsed_decimal;
use crate::error::{DataError, DataFailure};
use crate::integer::{
    integer_difference, integer_product, integer_sum, parsed_integer, PreciseInteger,
};
use crate::operator::Operator;
use vstd::prelude::*;

verus! {

/// The scale at which two integers are divided.
pub const DEFAULT_DECIMAL_SCALE: i64 = 10;

/// Pairwise arithmetic and equality between a value and an `N`.
pub trait Numeric<N: View>: View + Sized {
    /// Whether `op` can be applied to `left` and `right`.
    spec fn defined(op: Operator, left: Self::V, right: N::V) -> bool;

    /// What `op` makes of `left` and `right`, where it can be applied.
    spec fn outcome(op: Operator, left: Self::V, right: N::V) -> Self::V;

    /// Whether `left` and `right` are the same number.
    spec fn same(left: Self::V, right: N::V) -> bool;

    fn add(self, other: N) -> (r: Self)
        requires
            Self::defined(Operator::Addition, self@, other@),
        ensures
            r@ == Self::outcome(Operator::Addition, self@, other@),
    ;

    fn subtract(self, other: N) -> (r: Self)
        requires
            Self::defined(Operator::Subtraction, self@, other@),
        ensures
            r@ == Self::outcome(Operator::Subtraction, self@, other@),
    ;

    fn multiply(self, other: N) -> (r: Self)
        requires
            Self::defined(Operator::Multiplication, self@, other@),
        ensures
            r@ == Self::outcome(Operator::Multiplication, self@, other@),
    ;

    fn divide(self, other: N) -> (r: Self)
        requires
            Self::defined(Operator::Division, self@, other@),
        ensures
            r@ == Self::outcome(Operator::Division, self@, other@),
    ;

    fn equal(self, other: N) -> (r: bool)
        ensures
            r == Self::same(self@, other@),
    ;
}

/// A precise number: a decimal or an integer.
#[derive(Debug)]
pub enum NumericValue {
    Decimal(PreciseDecimal),
    Integer(PreciseInteger),
}

/// The mathematical content of a `NumericValue`.
pub ghost enum PreciseNumber {
    Decimal(Decimal),
    Integer(int),
}

impl View for NumericValue {
    type V = PreciseNumber;

    open spec fn view(&self) -> PreciseNumber {
        match self {
            NumericValue::Decimal(d) => PreciseNumber::Decimal(d@),
            NumericValue::Integer(i) => PreciseNumber::Integer(i@),
        }
    }
}

impl PreciseNumber {
    /// The number as a decimal: an integer gets scale zero.
    pub open spec fn as_decimal(self) -> Decimal {
        match self {
            PreciseNumber::Decimal(d) => d,
            PreciseNumber::Integer(i) => decimal_of_integer(i),
        }
    }
}

/// An integer at the scale at which integers are divided.
pub open spec fn division_operand(value: int) -> Decimal {
    Decimal { unscaled: value, scale: DEFAULT_DECIMAL_SCALE as int }
}

/// Whether `op` can be applied to two precise numbers: a divisor is not zero,
/// and where a decimal takes part, the scales are in range.
pub open spec fn precise_defined(op: Operator, a: PreciseNumber, b: PreciseNumber) -> bool {
    match (a, b) {
        (PreciseNumber::Integer(_), PreciseNumber::Integer(y)) => op == Operator::Division ==> y
            != 0,
        _ => decimal_defined(op, a.as_decimal(), b.as_decimal()),
    }
}

/// What `op` makes of two precise numbers. Two integers stay integers, except
/// under division; everything else is decimal arithmetic.
pub open spec fn precise_outcome(
    op: Operator,
    a: PreciseNumber,
    b: PreciseNumber,
) -> PreciseNumber {
    match (a, b) {
        (PreciseNumber::Integer(x), PreciseNumber::Integer(y)) => match op {
            Operator::Addition => PreciseNumber::Integer(x + y),
            Operator::Subtraction => PreciseNumber::Integer(x - y),
            Operator::Multiplication => PreciseNumber::Integer(x * y),
            Operator::Division => PreciseNumber::Decimal(
                decimal_quotient(division_operand(x), division_operand(y)),
            ),
        },
        _ => PreciseNumber::Decimal(decimal_result(op, a.as_decimal(), b.as_decimal())),
    }
}

/// What reading `text` as a precise number gives: an integer where the text
/// is read as one, else a decimal where it is read as one.
pub open spec fn parsed_numeric(text: Seq<char>) -> Option<PreciseNumber> {
    match parsed_integer(text) {
        Some(i) => Some(PreciseNumber::Integer(i)),
        None => match parsed_decimal(text) {
            Some(d) => Some(PreciseNumber::Decimal(d)),
            None => None,
        },
    }
}

impl Clone for NumericValue {
    fn clone(&self) -> (r: Self)
        ensures
            r@ == self@,
    {
        match self {
            NumericValue::Decimal(d) => NumericValue::Decimal(d.clone()),
            NumericValue::Integer(i) => NumericValue::Integer(i.clone()),
        }
    }
}

impl NumericValue {
    /// The value as a decimal: an integer gets scale zero.
    pub fn into_decimal(self) -> (r: PreciseDecimal)
        ensures
            r@ == self@.as_decimal(),
    {
        match self {
            NumericValue::Decimal(d) => d,
            NumericValue::Integer(i) => PreciseDecimal::from_integer(i),
        }
    }

    /// Whether `op` can be applied to `a` and `b`.
    pub fn can_apply(op: Operator, a: &NumericValue, b: &NumericValue) -> (r: bool)
        ensures
            r == precise_defined(op, a@, b@),
    {
        match (a, b) {
            (NumericValue::Integer(_), NumericValue::Integer(y)) => {
                match op {
                    Operator::Division => !y.is_zero(),
                    _ => true,
                }
            },
            (NumericValue::Integer(_), NumericValue::Decimal(y)) => {
                y.has_scale_in_range() && match op {
                    Operator::Division => !y.is_zero(),
                    _ => true,
                }
            },
            (NumericValue::Decimal(x), NumericValue::Integer(y)) => {
                x.has_scale_in_range() && match op {
                    Operator::Division => !y.is_zero(),
                    _ => true,
                }
            },
            (NumericValue::Decimal(x), NumericValue::Decimal(y)) => {
                x.has_scale_in_range() && y.has_scale_in_range() && match op {
                    Operator::Division => !y.is_zero(),
                    _ => true,
                }
            },
        }
    }

    /// Applies `op` to two precise numbers. A sum, a difference and a product
    /// are exact.
    pub fn apply(op: Operator, a: NumericValue, b: NumericValue) -> (r: NumericValue)
        requires
            precise_defined(op, a@, b@),
        ensures
            r@ == precise_outcome(op, a@, b@),
            op != Operator::Division ==> same_number(
                r@.as_decimal(),
                exact_result(op, a@.as_decimal(), b@.as_decimal()),
            ),
    {
        match (a, b) {
            (NumericValue::Integer(x), NumericValue::Integer(y)) => {
                proof {
                    if op != Operator::Division {
                        lemma_integer_result_is_exact(op, x@, y@);
                    }
                }
                match op {
                    Operator::Addition => NumericValue::Integer(integer_sum(&x, &y)),
                    Operator::Subtraction => NumericValue::Integer(integer_difference(&x, &y)),
                    Operator::Multiplication => NumericValue::Integer(integer_product(&x, &y)),
                    Operator::Division => {
                        let left = PreciseDecimal::new(x, DEFAULT_DECIMAL_SCALE);
                        let right = PreciseDecimal::new(y, DEFAULT_DECIMAL_SCALE);
                        NumericValue::Decimal(PreciseDecimal::apply(op, &left, &right))
                    },
                }
            },
            (x, y) => {
                let left = x.into_decimal();
                let right = y.into_decimal();
                NumericValue::Decimal(PreciseDecimal::apply(op, &left, &right))
            },
        }
    }

    /// The sum of two precise numbers.
    pub fn add(self, other: NumericValue) -> (r: NumericValue)
        requires
            precise_defined(Operator::Addition, self@, other@),
        ensures
            r@ == precise_outcome(Operator::Addition, self@, other@),
    {
        NumericValue::apply(Operator::Addition, self, other)
    }

    /// The difference of two precise numbers.
    pub fn sub(self, other: NumericValue) -> (r: NumericValue)
        requires
            precise_defined(Operator::Subtraction, self@, other@),
        ensures
            r@ == precise_outcome(Operator::Subtraction, self@, other@),
    {
        NumericValue::apply(Operator::Subtraction, self, other)
    }

    /// The product of two precise numbers.
    pub fn mul(self, other: NumericValue) -> (r: NumericValue)
        requires
            precise_defined(Operator::Multiplication, self@, other@),
        ensures
            r@ == precise_outcome(Operator::Multiplication, self@, other@),
    {
        NumericValue::apply(Operator::Multiplication, self, other)
    }

    /// The quotient of two precise numbers, always a decimal.
    pub fn div(self, other: NumericValue) -> (r: NumericValue)
        requires
            precise_defined(Operator::Division, self@, other@),
        ensures
            r@ == precise_outcome(Operator::Division, self@, other@),
            r is Decimal,
    {
        NumericValue::apply(Operator::Division, self, other)
    }

    /// Reads text as an integer where it is one, else as a decimal.
    pub fn try_from(value: String) -> (r: Result<NumericValue, DataError>)
        ensures
            match r {
                Ok(v) => parsed_numeric(value@) == Some(v@),
                Err(e) => parsed_numeric(value@) is None && e@
                    == (DataFailure::StringConversionError {
                    value: value@,
                    type_label: "numeric value"@,
                }),
            },
    {
        match PreciseInteger::from_text(value.as_str()) {
            Some(number) => Ok(NumericValue::Integer(number)),
            None => match PreciseDecimal::from_text(value.as_str()) {
                Some(number) => Ok(NumericValue::Decimal(number)),
                None => Err(
                    DataError::StringConversionError {
                        value,
                        type_label: "numeric value".to_owned(),
                    },
                ),
            },
        }
    }
}

impl Numeric<NumericValue> for NumericValue {
    open spec fn defined(op: Operator, left: PreciseNumber, right: PreciseNumber) -> bool {
        precise_defined(op, left, right)
    }

    open spec fn outcome(op: Operator, left: PreciseNumber, right: PreciseNumber) -> PreciseNumber {
        precise_outcome(op, left, right)
    }

    open spec fn same(left: PreciseNumber, right: PreciseNumber) -> bool {
        same_number(left.as_decimal(), right.as_decimal())
    }

    fn add(self, other: NumericValue) -> (r: NumericValue) {
        NumericValue::apply(Operator::Addition, self, other)
    }

    fn subtract(self, other: NumericValue) -> (r: NumericValue) {
        NumericValue::apply(Operator::Subtraction, self, other)
    }

    fn multiply(self, other: NumericValue) -> (r: NumericValue) {
        NumericValue::apply(Operator::Multiplication, self, other)
    }

    fn divide(self, other: NumericValue) -> (r: NumericValue) {
        NumericValue::apply(Operator::Division, self, other)
    }

    fn equal(self, other: NumericValue) -> (r: bool) {
        let left = self.into_decimal();
        let right = other.into_decimal();
        left.same_number_as(&right)
    }
}

} // verus!
