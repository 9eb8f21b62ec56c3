use expressive::evaluate::{apply_operator, evaluate, get_precedence};
use expressive::error::ExpressionError;
use expressive::grammar::{ExpressionParser, Rule};
use expressive::render::{evaluate_expression, render};
use expressive::value::Value;
use expressive::variables::Variables;
use std::collections::HashMap;

#[test]
fn only_the_input_rule_starts_a_parse() {
    let error = ExpressionParser::parse(Rule::expression, "1 + 1").unwrap_err();
    assert_eq!(error.position, 0);
    assert_eq!(error.input, "1 + 1");
}

#[test]
fn syntax_error_carries_input_and_position() {
    let error = ExpressionParser::parse(Rule::input, "(1 + 2").unwrap_err();
    assert_eq!(error.input, "(1 + 2");
    assert_eq!(error.position, 6);
    assert_eq!(error.message(), "unexpected input at position 6");
    let error = ExpressionParser::parse(Rule::input, "1 + \u{e9}").unwrap_err();
    assert_eq!(error.position, 4);
    let error = ExpressionParser::parse(Rule::input, "12345678901 x").unwrap_err();
    assert_eq!(error.message(), "unexpected input at position 12");
}

#[test]
fn signs_belong_to_numbers_only() {
    let pairs = ExpressionParser::parse(Rule::input, "-1--2.5").unwrap().flatten();
    let seen: Vec<(Rule, &str)> = pairs.iter().map(|p| (p.as_rule(), p.as_str())).collect();
    assert_eq!(
        seen,
        vec![
            (Rule::expression, "-1--2.5"),
            (Rule::integer, "-1"),
            (Rule::subtraction, "-"),
            (Rule::decimal, "-2.5"),
            (Rule::EOI, ""),
        ]
    );
    assert!(ExpressionParser::parse(Rule::input, "-a").is_err());
    assert!(ExpressionParser::parse(Rule::input, "- 1").is_err());
    assert!(ExpressionParser::parse(Rule::input, "+1").is_err());
    assert!(ExpressionParser::parse(Rule::input, "-(1)").is_err());
    assert!(ExpressionParser::parse(Rule::input, "1.5.2").is_err());
    assert!(ExpressionParser::parse(Rule::input, "()").is_err());
}

#[test]
fn names_are_letters_then_letters_digits_and_underscores() {
    let pairs = ExpressionParser::parse(Rule::input, "unit_price2 * Q").unwrap().flatten();
    assert_eq!(pairs[1].as_rule(), Rule::variable_name);
    assert_eq!(pairs[1].as_str(), "unit_price2");
    assert_eq!(pairs[3].as_str(), "Q");
    assert!(ExpressionParser::parse(Rule::input, "_a").is_err());
    assert!(ExpressionParser::parse(Rule::input, "2a").is_err());
}

#[test]
fn spans_are_character_positions() {
    let pairs = ExpressionParser::parse(Rule::input, " ( 1 + 22 ) ").unwrap();
    let top = pairs.pairs();
    assert_eq!((top[0].start(), top[0].end()), (1, 12));
    assert_eq!(top[0].as_str(), "( 1 + 22 ) ");
    let group = &top[0].inner()[0];
    assert_eq!(group.as_str(), "( 1 + 22 )");
    let inner = &group.inner()[0];
    assert_eq!(inner.as_str(), "1 + 22 ");
    assert_eq!((inner.start(), inner.end()), (3, 10));
    assert_eq!(inner.inner()[2].as_str(), "22");
    assert_eq!((top[1].start(), top[1].end()), (12, 12));
    assert_eq!(top[0].clone().into_inner().len(), 1);
    assert_eq!(pairs.into_pairs().len(), 2);
}

#[test]
fn parsing_twice_gives_the_same_tree() {
    let text = "a * (b + c) - d / e";
    let first = ExpressionParser::parse(Rule::input, text).unwrap().flatten();
    let second = ExpressionParser::parse(Rule::input, text).unwrap().flatten();
    assert_eq!(first.len(), second.len());
    for (one, other) in first.iter().zip(second.iter()) {
        assert_eq!(one.as_rule(), other.as_rule());
        assert_eq!(one.as_str(), other.as_str());
        assert_eq!(one.start(), other.start());
        assert_eq!(render(one), render(other));
    }
}

#[test]
fn report_of_a_parse() {
    assert_eq!(
        evaluate_expression("1 + (a)", HashMap::new()),
        Ok("[expression(0, 7, [integer(0, 1), addition(2, 3), parenthesized(4, 7, \
            [expression(5, 6, [variable_name(5, 6)])])]), EOI(7, 7)]"
            .to_string())
    );
    assert_eq!(
        evaluate_expression("1 +", HashMap::new()),
        Err("Error: unexpected input at position 3".to_string())
    );
}

#[test]
fn operators_by_pair() {
    let pairs = ExpressionParser::parse(Rule::input, "1 + 2 * 3 - 4 / 5").unwrap().flatten();
    let strengths: Vec<u32> = pairs.iter().map(get_precedence).collect();
    assert_eq!(strengths, vec![0, 0, 1, 0, 2, 0, 1, 0, 2, 0, 0]);
    let six = apply_operator(Value::FastInteger(2), &pairs[4], Value::FastInteger(3), "2 * 3");
    assert_eq!(six.unwrap(), Value::FastInteger(6));
    let minus = apply_operator(Value::FastInteger(2), &pairs[6], Value::FastInteger(3), "2 - 3");
    assert_eq!(minus.unwrap(), Value::FastInteger(-1));
    let not_an_operator =
        apply_operator(Value::FastInteger(2), &pairs[1], Value::FastInteger(3), "2 3");
    assert!(matches!(not_an_operator, Err(ExpressionError::UnexpectedAbstractSyntaxTree)));
    let overflow = apply_operator(
        Value::FastInteger(i64::MAX),
        &pairs[2],
        Value::FastInteger(1),
        "big + 1",
    );
    match overflow {
        Err(ExpressionError::EvaluationError { expression }) => assert_eq!(expression, "big + 1"),
        other => panic!("expected an evaluation error, got {:?}", other),
    }
}

#[test]
fn a_later_value_replaces_an_earlier_one() {
    let mut variables = Variables::new();
    variables.insert("x".to_string(), Value::FastInteger(1));
    variables.insert("x".to_string(), Value::FastInteger(4));
    assert_eq!(variables.get("x"), Some(&Value::FastInteger(4)));
    assert!(variables.get("y").is_none());
    assert_eq!(evaluate("(x + 1) * x", &variables).unwrap(), Value::FastInteger(20));
}
