use expressive::decimal::PreciseDecimal;
use expressive::error::ExpressionError;
use expressive::evaluate::evaluate;
use expressive::integer::PreciseInteger;
use expressive::value::Value;
use expressive::variables::Variables;

fn precise_integer(value: i64) -> Value {
    Value::PreciseInteger(PreciseInteger::from_i64(value))
}

fn precise_decimal(unscaled: i64, scale: i64) -> Value {
    Value::PreciseDecimal(PreciseDecimal::new(PreciseInteger::from_i64(unscaled), scale))
}

fn fast_decimal(value: f32) -> Value {
    Value::FastDecimal(value.to_bits())
}

#[test]
fn test_evaluate() {
    let expression = "a / b";
    let mut variables = Variables::new();
    variables.insert("a".to_string(), Value::FastInteger(3));
    variables.insert("b".to_string(), precise_decimal(15, 1));
    let result = evaluate(expression, &variables);
    assert!(result.is_ok(), "result = {:?}", result);
    let value = result.unwrap();
    assert_eq!(value, precise_decimal(20, 1));
    assert!(matches!(value, Value::PreciseDecimal(_)));
}

#[test]
fn integer_literal_is_a_precise_integer() {
    let value = evaluate("42", &Variables::new()).unwrap();
    assert!(matches!(value, Value::PreciseInteger(_)));
    assert_eq!(value, precise_integer(42));
    let value = evaluate("-123456789012345678901234567890", &Variables::new()).unwrap();
    let expected = PreciseInteger::from_text("-123456789012345678901234567890").unwrap();
    assert_eq!(value, Value::PreciseInteger(expected));
}

#[test]
fn decimal_literal_is_a_fast_decimal() {
    let value = evaluate("3.14", &Variables::new()).unwrap();
    match value {
        Value::FastDecimal(bits) => assert_eq!(bits, 3.14f32.to_bits()),
        other => panic!("expected a fast decimal, got {:?}", other),
    }
    let value = evaluate("-0.5", &Variables::new()).unwrap();
    assert_eq!(value, fast_decimal(-0.5));
}

#[test]
fn subtraction_associates_to_the_left() {
    let value = evaluate("10 - 3 - 2", &Variables::new()).unwrap();
    assert_eq!(value, precise_integer(5));
    assert_ne!(value, precise_integer(9));
}

#[test]
fn multiplication_binds_more_strongly() {
    assert_eq!(evaluate("2 + 3 * 4", &Variables::new()).unwrap(), precise_integer(14));
    assert_eq!(evaluate("(2 + 3) * 4", &Variables::new()).unwrap(), precise_integer(20));
    assert_eq!(evaluate("2 * 3 + 4 * 5 - 6 / 2", &Variables::new()).unwrap(), precise_integer(23));
    assert_eq!(evaluate("100 / 10 / 5", &Variables::new()).unwrap(), precise_integer(2));
}

#[test]
fn division_of_integers_gives_a_decimal() {
    let value = evaluate("4 / 2", &Variables::new()).unwrap();
    assert!(matches!(value, Value::PreciseDecimal(_)));
    assert_eq!(value, precise_integer(2));
    let value = evaluate("1 / 4", &Variables::new()).unwrap();
    assert_eq!(value, precise_decimal(25, 2));
}

#[test]
fn undefined_variable_is_reported_by_name() {
    match evaluate("x + 1", &Variables::new()) {
        Err(ExpressionError::UndefinedVariable { name }) => assert_eq!(name, "x"),
        other => panic!("expected an undefined variable, got {:?}", other),
    }
}

#[test]
fn malformed_input_is_a_parse_error() {
    for input in ["1 + 2 garbage", "1++2", "", "1.", ".1", "   ", "(1 + 2", "1 + 2)", "+1", "1 2"] {
        match evaluate(input, &Variables::new()) {
            Err(ExpressionError::ParseError { .. }) => {}
            other => panic!("expected a parse error for {:?}, got {:?}", input, other),
        }
    }
}

#[test]
fn parse_error_names_the_position() {
    match evaluate("1 + 2 garbage", &Variables::new()) {
        Err(ExpressionError::ParseError { message }) => {
            assert_eq!(message, "unexpected input at position 6")
        }
        other => panic!("expected a parse error, got {:?}", other),
    }
    match evaluate("12 + * 2", &Variables::new()) {
        Err(ExpressionError::ParseError { message }) => {
            assert_eq!(message, "unexpected input at position 5")
        }
        other => panic!("expected a parse error, got {:?}", other),
    }
}

#[test]
fn spaces_do_not_matter_but_newlines_do() {
    let spaced = evaluate("  1   +    1  ", &Variables::new()).unwrap();
    let tight = evaluate("1+1", &Variables::new()).unwrap();
    assert_eq!(spaced, tight);
    assert_eq!(spaced, precise_integer(2));
    assert_eq!(evaluate("\t1\t+\t1\t", &Variables::new()).unwrap(), precise_integer(2));
    assert!(evaluate("1 +\n2", &Variables::new()).is_err());
}

#[test]
fn division_by_zero_is_an_evaluation_error() {
    match evaluate("1 + 2 / 0", &Variables::new()) {
        Err(ExpressionError::EvaluationError { expression }) => assert_eq!(expression, "1 + 2 / 0"),
        other => panic!("expected an evaluation error, got {:?}", other),
    }
    match evaluate("1 + (2 / (3 - 3)) ", &Variables::new()) {
        Err(ExpressionError::EvaluationError { expression }) => assert_eq!(expression, "2 / (3 - 3)"),
        other => panic!("expected an evaluation error, got {:?}", other),
    }
}

#[test]
fn the_first_failure_from_the_left_is_returned() {
    match evaluate("1 / 0 + x", &Variables::new()) {
        Err(ExpressionError::EvaluationError { .. }) => {}
        other => panic!("expected an evaluation error, got {:?}", other),
    }
    match evaluate("x + 1 / 0", &Variables::new()) {
        Err(ExpressionError::UndefinedVariable { name }) => assert_eq!(name, "x"),
        other => panic!("expected an undefined variable, got {:?}", other),
    }
}

#[test]
fn fast_integers_overflow_into_an_error() {
    let mut variables = Variables::new();
    variables.insert("big".to_string(), Value::FastInteger(i64::MAX));
    variables.insert("one".to_string(), Value::FastInteger(1));
    assert!(matches!(
        evaluate("big + one", &variables),
        Err(ExpressionError::EvaluationError { .. })
    ));
    assert_eq!(evaluate("big - one", &variables).unwrap(), Value::FastInteger(i64::MAX - 1));
}

#[test]
fn variables_are_case_sensitive() {
    let mut variables = Variables::new();
    variables.insert("price".to_string(), Value::FastInteger(7));
    assert_eq!(evaluate("price * 2", &variables).unwrap(), Value::FastInteger(14));
    assert!(matches!(
        evaluate("Price * 2", &variables),
        Err(ExpressionError::UndefinedVariable { .. })
    ));
}

#[test]
fn fast_decimals_use_binary32_arithmetic() {
    let value = evaluate("1.5 + 2.25", &Variables::new()).unwrap();
    match value {
        Value::FastDecimal(bits) => assert_eq!(bits, 3.75f32.to_bits()),
        other => panic!("expected a fast decimal, got {:?}", other),
    }
    let value = evaluate("0.1 + 0.2", &Variables::new()).unwrap();
    match value {
        Value::FastDecimal(bits) => assert_eq!(bits, (0.1f32 + 0.2f32).to_bits()),
        other => panic!("expected a fast decimal, got {:?}", other),
    }
    let value = evaluate("1.0 / 3.0 * 7.5 - 0.25", &Variables::new()).unwrap();
    match value {
        Value::FastDecimal(bits) => assert_eq!(bits, (1.0f32 / 3.0f32 * 7.5f32 - 0.25f32).to_bits()),
        other => panic!("expected a fast decimal, got {:?}", other),
    }
}

#[test]
fn a_literal_of_each_kind_meets_as_a_precise_decimal() {
    let value = evaluate("1 + 0.5", &Variables::new()).unwrap();
    assert!(matches!(value, Value::PreciseDecimal(_)));
    assert_eq!(value, precise_decimal(15, 1));
}

#[test]
fn parentheses_nest() {
    assert_eq!(evaluate("((((1))))", &Variables::new()).unwrap(), precise_integer(1));
    assert_eq!(evaluate("2 * (3 + (4 - (5 * 6)))", &Variables::new()).unwrap(), precise_integer(-46));
    assert_eq!(evaluate("( 7 )", &Variables::new()).unwrap(), precise_integer(7));
}

#[test]
fn a_sign_belongs_to_its_number() {
    assert_eq!(evaluate("-3", &Variables::new()).unwrap(), precise_integer(-3));
    assert_eq!(evaluate("1--2", &Variables::new()).unwrap(), precise_integer(3));
    assert_eq!(evaluate("1 -2", &Variables::new()).unwrap(), precise_integer(-1));
    assert_eq!(evaluate("2*-3", &Variables::new()).unwrap(), precise_integer(-6));
}

#[test]
fn an_infinity_cannot_meet_a_precise_value() {
    let mut variables = Variables::new();
    variables.insert("huge".to_string(), fast_decimal(f32::INFINITY));
    variables.insert("nothing".to_string(), fast_decimal(f32::NAN));
    assert!(matches!(
        evaluate("huge + 1", &variables),
        Err(ExpressionError::EvaluationError { .. })
    ));
    assert!(matches!(
        evaluate("2 * nothing", &variables),
        Err(ExpressionError::EvaluationError { .. })
    ));
    match evaluate("huge * 2.0", &variables).unwrap() {
        Value::FastDecimal(bits) => assert_eq!(bits, f32::INFINITY.to_bits()),
        other => panic!("expected a fast decimal, got {:?}", other),
    }
}

#[test]
fn a_decimal_literal_too_large_for_binary32_is_an_infinity() {
    let text = format!("1{}.0", "0".repeat(40));
    match evaluate(&text, &Variables::new()).unwrap() {
        Value::FastDecimal(bits) => assert_eq!(bits, f32::INFINITY.to_bits()),
        other => panic!("expected a fast decimal, got {:?}", other),
    }
}

#[test]
fn a_scale_out_of_range_is_an_evaluation_error() {
    let mut variables = Variables::new();
    variables.insert("tiny".to_string(), precise_decimal(1, 4_000_000_000));
    assert!(matches!(
        evaluate("tiny + 1", &variables),
        Err(ExpressionError::EvaluationError { .. })
    ));
    assert_eq!(evaluate("tiny", &variables).unwrap(), precise_decimal(1, 4_000_000_000));
}

#[test]
fn decimal_literals_are_read_as_the_machine_reads_them() {
    let literals = [
        "0.0", "-0.0", "0.1", "3.14", "2.5", "16777217.0", "0.000000000000000000000000000000000000000000001",
        "340282346638528859811704183484516925440.0", "340282356779733661637539395458142568448.0",
        "1.17549435e-38", "123456.789", "-99999999.99999999", "0.3333333333333333333333333333",
        "4.35", "1.00000017881393432617187500", "1.00000017881393421514957253748434595763683319091796875",
    ];
    for literal in literals {
        if literal.contains('e') {
            assert!(evaluate(literal, &Variables::new()).is_err());
            continue;
        }
        let expected: f32 = literal.parse().unwrap();
        match evaluate(literal, &Variables::new()).unwrap() {
            Value::FastDecimal(bits) => assert_eq!(bits, expected.to_bits(), "{}", literal),
            other => panic!("expected a fast decimal, got {:?}", other),
        }
    }
}
