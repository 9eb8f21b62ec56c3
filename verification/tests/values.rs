use expressive::decimal::PreciseDecimal;
use expressive::error::{DataError, EvaluationError};
use expressive::fast::{binary32_apply, binary32_is_finite, binary32_to_decimal};
use expressive::integer::PreciseInteger;
use expressive::model::ValueType;
use expressive::numeric::{Numeric, NumericValue};
use expressive::operator::Operator;
use expressive::value::Value;

fn integer(value: i64) -> PreciseInteger {
    PreciseInteger::from_i64(value)
}

fn decimal(unscaled: i64, scale: i64) -> PreciseDecimal {
    PreciseDecimal::new(integer(unscaled), scale)
}

fn all_kinds(value: i64) -> Vec<Value> {
    vec![
        Value::PreciseInteger(integer(value)),
        Value::PreciseDecimal(decimal(value * 10, 1)),
        Value::FastInteger(value),
        Value::FastDecimal((value as f32).to_bits()),
    ]
}

#[test]
fn equality_across_representations() {
    assert_eq!(Value::FastInteger(2), Value::PreciseDecimal(decimal(20, 1)));
    assert!(Value::FastInteger(2).equal(Value::PreciseDecimal(decimal(20, 1))));
    for left in all_kinds(2) {
        for right in all_kinds(2) {
            assert_eq!(left, right);
        }
        for right in all_kinds(3) {
            assert_ne!(left, right);
        }
    }
    assert_eq!(Value::PreciseDecimal(decimal(5, 1)), Value::FastDecimal(0.5f32.to_bits()));
    assert_eq!(Value::PreciseDecimal(decimal(-2500, 3)), Value::PreciseDecimal(decimal(-25, 1)));
    assert_eq!(Value::PreciseDecimal(decimal(3, -2)), Value::FastInteger(300));
}

#[test]
fn an_infinity_or_a_nan_equals_nothing() {
    let infinity = Value::FastDecimal(f32::INFINITY.to_bits());
    let nan = Value::FastDecimal(f32::NAN.to_bits());
    assert_ne!(infinity, Value::FastDecimal(f32::INFINITY.to_bits()));
    assert_ne!(nan, Value::FastInteger(0));
    assert!(!binary32_is_finite(f32::NAN.to_bits()));
    assert!(!binary32_is_finite(f32::NEG_INFINITY.to_bits()));
    assert!(binary32_is_finite(f32::MAX.to_bits()));
    assert!(binary32_to_decimal(f32::INFINITY.to_bits()).is_none());
}

#[test]
fn a_binary32_value_has_an_exact_decimal() {
    let tenth = binary32_to_decimal(0.1f32.to_bits()).unwrap();
    let expected = PreciseDecimal::new(
        PreciseInteger::from_text("100000001490116119384765625").unwrap(),
        27,
    );
    assert!(tenth.same_number_as(&expected));
    let large = binary32_to_decimal(33554432.0f32.to_bits()).unwrap();
    assert!(large.same_number_as(&decimal(33554432, 0)));
    let negative = binary32_to_decimal((-1.5f32).to_bits()).unwrap();
    assert!(negative.same_number_as(&decimal(-15, 1)));
    let smallest = binary32_to_decimal(1u32).unwrap();
    assert!(!smallest.is_zero());
    assert!(binary32_to_decimal(0u32).unwrap().is_zero());
    assert!(binary32_to_decimal((-0.0f32).to_bits()).unwrap().is_zero());
}

#[test]
fn the_result_has_the_promoted_type() {
    let types = [
        ValueType::PreciseInteger,
        ValueType::PreciseDecimal,
        ValueType::FastInteger,
        ValueType::FastDecimal,
    ];
    for (i, left) in all_kinds(6).into_iter().enumerate() {
        for (j, right) in all_kinds(3).into_iter().enumerate() {
            let expected = if i < 2 && j < 2 {
                if i == 0 && j == 0 {
                    ValueType::PreciseInteger
                } else {
                    ValueType::PreciseDecimal
                }
            } else if i >= 2 && j >= 2 {
                if i == 2 && j == 2 {
                    ValueType::FastInteger
                } else {
                    ValueType::FastDecimal
                }
            } else {
                ValueType::PreciseDecimal
            };
            assert_eq!(left.value_type(), types[i]);
            let sum = left.clone().add(right.clone());
            assert_eq!(sum.value_type(), expected);
            assert_eq!(sum, Value::FastInteger(9));
            let difference = left.clone().subtract(right.clone());
            assert_eq!(difference.value_type(), expected);
            assert_eq!(difference, Value::FastInteger(3));
            let product = left.clone().multiply(right.clone());
            assert_eq!(product.value_type(), expected);
            assert_eq!(product, Value::FastInteger(18));
            let quotient = left.clone().divide(right.clone());
            let expected_quotient = if i >= 2 && j >= 2 {
                ValueType::FastDecimal
            } else {
                ValueType::PreciseDecimal
            };
            assert_eq!(quotient.value_type(), expected_quotient);
            assert_eq!(quotient, Value::FastInteger(2));
        }
    }
}

#[test]
fn fast_integers_divide_as_binary32() {
    let quotient = Value::FastInteger(1).divide(Value::FastInteger(4));
    assert!(matches!(quotient, Value::FastDecimal(bits) if bits == 0.25f32.to_bits()));
    let quotient = Value::FastInteger(1).divide(Value::FastInteger(0));
    assert!(matches!(quotient, Value::FastDecimal(bits) if bits == f32::INFINITY.to_bits()));
    let sum = Value::FastInteger(16777217).add(Value::FastDecimal(0.0f32.to_bits()));
    assert!(matches!(sum, Value::FastDecimal(bits) if bits == 16777216.0f32.to_bits()));
}

#[test]
fn binary32_arithmetic_is_the_machine_s() {
    let cases = [(1.5f32, 2.25f32), (0.1, 0.2), (-7.0, 3.0), (1.0e38, 10.0), (1.0e-40, 3.0)];
    for (a, b) in cases {
        let (x, y) = (a.to_bits(), b.to_bits());
        assert_eq!(binary32_apply(Operator::Addition, x, y), (a + b).to_bits());
        assert_eq!(binary32_apply(Operator::Subtraction, x, y), (a - b).to_bits());
        assert_eq!(binary32_apply(Operator::Multiplication, x, y), (a * b).to_bits());
        assert_eq!(binary32_apply(Operator::Division, x, y), (a / b).to_bits());
    }
}

#[test]
fn what_cannot_be_applied() {
    let zero = Value::PreciseInteger(integer(0));
    let one = Value::PreciseInteger(integer(1));
    assert!(!Value::can_apply(Operator::Division, &one, &zero));
    assert!(Value::can_apply(Operator::Division, &zero, &one));
    assert!(Value::checked_apply(Operator::Division, one.clone(), zero.clone()).is_none());
    let zero_decimal = Value::PreciseDecimal(decimal(0, 3));
    assert!(!Value::can_apply(Operator::Division, &Value::FastInteger(1), &zero_decimal));
    let nan = Value::FastDecimal(f32::NAN.to_bits());
    assert!(!Value::can_apply(Operator::Addition, &one, &nan));
    assert!(Value::can_apply(Operator::Addition, &Value::FastInteger(1), &nan));
    let far = Value::PreciseDecimal(decimal(1, 2147483648));
    assert!(!Value::can_apply(Operator::Addition, &one, &far));
    let near = Value::PreciseDecimal(decimal(1, 2147483647));
    assert!(Value::can_apply(Operator::Multiplication, &one, &near));
    let most = Value::FastInteger(i64::MAX);
    let least = Value::FastInteger(i64::MIN);
    assert!(!Value::can_apply(Operator::Addition, &most, &Value::FastInteger(1)));
    assert!(!Value::can_apply(Operator::Subtraction, &least, &Value::FastInteger(1)));
    assert!(!Value::can_apply(Operator::Multiplication, &least, &Value::FastInteger(-1)));
    assert!(Value::can_apply(Operator::Multiplication, &most, &Value::FastInteger(-1)));
    assert!(Value::can_apply(Operator::Division, &least, &Value::FastInteger(0)));
    assert_eq!(
        Value::checked_apply(Operator::Addition, most, least).unwrap(),
        Value::FastInteger(-1)
    );
}

#[test]
fn precise_numbers_from_text() {
    match NumericValue::try_from("42".to_string()).unwrap() {
        NumericValue::Integer(value) => assert!(integer(42).clone().is_zero() == value.is_zero()),
        other => panic!("expected an integer, got {:?}", other),
    }
    let value = NumericValue::try_from("-17".to_string()).unwrap();
    assert!(value.equal(NumericValue::Integer(integer(-17))));
    match NumericValue::try_from("12.50".to_string()).unwrap() {
        NumericValue::Decimal(value) => assert!(value.same_number_as(&decimal(125, 1))),
        other => panic!("expected a decimal, got {:?}", other),
    }
    match NumericValue::try_from("twelve".to_string()) {
        Err(DataError::StringConversionError { value, type_label }) => {
            assert_eq!(value, "twelve");
            assert_eq!(type_label, "numeric value");
        }
        other => panic!("expected a conversion error, got {:?}", other),
    }
    assert!(PreciseInteger::from_text("1.5").is_none());
    assert!(PreciseDecimal::from_text("").is_none());
}

#[test]
fn precise_arithmetic() {
    let number = |text: &str| NumericValue::try_from(text.to_string()).unwrap();
    assert!(number("7").add(number("5")).equal(number("12")));
    assert!(number("7").sub(number("5")).equal(number("2")));
    assert!(number("7").mul(number("5")).equal(number("35")));
    let quotient = number("7").div(number("5"));
    assert!(matches!(quotient, NumericValue::Decimal(_)));
    assert!(quotient.equal(number("1.4")));
    assert!(number("1.25").add(number("2")).equal(number("3.25")));
    assert!(number("2").sub(number("1.25")).equal(number("0.75")));
    assert!(number("1.5").mul(number("1.5")).equal(number("2.25")));
    assert!(number("4.5").div(number("1.5")).equal(number("3")));
    assert!(number("1.5").subtract(number("0.5")).equal(number("1")));
    assert!(number("1.5").multiply(number("2")).equal(number("3")));
    assert!(number("3").divide(number("1.5")).equal(number("2")));
    assert!(matches!(number("3").add(number("4")), NumericValue::Integer(_)));
    assert!(matches!(number("3").add(number("4.0")), NumericValue::Decimal(_)));
    let big = number("340282366920938463463374607431768211456");
    assert!(big.clone().mul(big).equal(
        number("115792089237316195423570985008687907853269984665640564039457584007913129639936")
    ));
    let third = number("1").div(number("3"));
    assert!(third.mul(number("3")).equal(
        number("0.9999999999999999999999999999999999999999999999999999999999999999999999999999999999999999999999999999")
    ));
    assert!(!NumericValue::can_apply(Operator::Division, &number("1"), &number("0.00")));
    assert!(NumericValue::can_apply(Operator::Subtraction, &number("1"), &number("0.00")));
}

#[test]
fn precise_parts() {
    assert!(PreciseInteger::zero().is_zero());
    assert!(!integer(-1).is_zero());
    assert!(decimal(0, 5).is_zero());
    assert!(decimal(10, 1).same_number_as(&decimal(1, 0)));
    assert!(decimal(1, -3).same_number_as(&decimal(1000, 0)));
    assert!(!decimal(10, 1).same_number_as(&decimal(10, 2)));
    assert!(PreciseDecimal::from_integer(integer(5)).same_number_as(&decimal(50, 1)));
    assert!(decimal(1, 2147483647).has_scale_in_range());
    assert!(!decimal(1, -2147483648).has_scale_in_range());
    let sum = PreciseDecimal::apply(Operator::Addition, &decimal(15, 1), &decimal(225, 2));
    assert!(sum.same_number_as(&decimal(375, 2)));
}

#[test]
fn evaluation_error_keeps_its_message() {
    let error = EvaluationError::new("division by zero");
    assert_eq!(error.message(), "division by zero");
}

#[test]
fn binary32_arithmetic_agrees_with_the_machine_on_many_values() {
    let mut state: u64 = 0x2545_f491_4f6c_dd1d;
    let mut next = || {
        state ^= state << 13;
        state ^= state >> 7;
        state ^= state << 17;
        (state >> 16) as u32
    };
    let mut compared = 0;
    for _ in 0..20000 {
        let (x, y) = (next(), next());
        let (a, b) = (f32::from_bits(x), f32::from_bits(y));
        if a.is_nan() || b.is_nan() {
            continue;
        }
        let cases = [
            (Operator::Addition, a + b),
            (Operator::Subtraction, a - b),
            (Operator::Multiplication, a * b),
            (Operator::Division, a / b),
        ];
        for (op, expected) in cases {
            if expected.is_nan() {
                continue;
            }
            assert_eq!(binary32_apply(op, x, y), expected.to_bits(), "{:?} {} {}", op, a, b);
            compared += 1;
        }
    }
    assert!(compared > 50000);
}

#[test]
fn fast_integers_become_the_nearest_binary32() {
    let values = [
        0i64,
        1,
        -1,
        16777216,
        16777217,
        16777219,
        -33554435,
        123456789012345,
        i64::MAX,
        i64::MIN,
        i64::MAX - 274877906944,
    ];
    for value in values {
        let sum = Value::FastInteger(value).add(Value::FastDecimal(0.0f32.to_bits()));
        match sum {
            Value::FastDecimal(bits) => assert_eq!(bits, (value as f32 + 0.0).to_bits(), "{}", value),
            other => panic!("expected a fast decimal, got {:?}", other),
        }
    }
}
