use expressive::grammar::{ExpressionParser, Rule};

struct ExpectedPair {
    pub rule: Rule,
    pub value: &'static str,
}

fn assert_expression_is_valid(input: &str, expected_pairs: &[ExpectedPair]) {
    let result = ExpressionParser::parse(Rule::input, input);
    assert!(
        result.is_ok(),
        "the parse result for input '{}' was expected to succeed instead got error: {:?}",
        input,
        result.unwrap_err(),
    );
    let pairs = result.unwrap().flatten();
    assert_eq!(
        pairs.len(),
        expected_pairs.len(),
        "the parsed result was expected to have {} pairs instead got {}",
        expected_pairs.len(),
        pairs.len()
    );
    for comparison_pair in pairs.iter().zip(expected_pairs.iter()) {
        let actual = comparison_pair.0;
        let expected = comparison_pair.1;
        assert_eq!(
            actual.as_rule(),
            expected.rule,
            "expected a pair to have rule '{:?}' instead got '{:?}'",
            expected.rule,
            actual.as_rule()
        );
        assert_eq!(
            actual.as_str(),
            expected.value,
            "expected a pair to have value '{}' instead got '{}'",
            expected.value,
            actual.as_str()
        );
    }
}

fn assert_expression_is_invalid(input: &str) {
    let result = ExpressionParser::parse(Rule::input, input);
    assert!(result.is_err(), "expected the expression to be invalid");
}

fn pair(rule: Rule, value: &'static str) -> ExpectedPair {
    ExpectedPair { rule, value }
}

#[test]
fn test_valid_expression() {
    let input = "1 + 1 + (2 - 2)";
    let expected_pairs = vec![
        pair(Rule::expression, input),
        pair(Rule::integer, "1"),
        pair(Rule::addition, "+"),
        pair(Rule::integer, "1"),
        pair(Rule::addition, "+"),
        pair(Rule::parenthesized, "(2 - 2)"),
        pair(Rule::expression, "2 - 2"),
        pair(Rule::integer, "2"),
        pair(Rule::subtraction, "-"),
        pair(Rule::integer, "2"),
        pair(Rule::EOI, ""),
    ];
    assert_expression_is_valid(input, &expected_pairs);
}

#[test]
fn test_simple_variable_expression() {
    let input = "a + 2";
    let expected_pairs = vec![
        pair(Rule::expression, "a + 2"),
        pair(Rule::variable_name, "a"),
        pair(Rule::addition, "+"),
        pair(Rule::integer, "2"),
        pair(Rule::EOI, ""),
    ];
    assert_expression_is_valid(input, &expected_pairs);
}

#[test]
fn test_simple_decimal_expression() {
    let input = "3.14 * 2";
    let expected_pairs = vec![
        pair(Rule::expression, "3.14 * 2"),
        pair(Rule::decimal, "3.14"),
        pair(Rule::multiplication, "*"),
        pair(Rule::integer, "2"),
        pair(Rule::EOI, ""),
    ];
    assert_expression_is_valid(input, &expected_pairs);
}

#[test]
fn test_complex_expression() {
    let input = "a * (b + c) - d / e";
    let expected_pairs = vec![
        pair(Rule::expression, "a * (b + c) - d / e"),
        pair(Rule::variable_name, "a"),
        pair(Rule::multiplication, "*"),
        pair(Rule::parenthesized, "(b + c)"),
        pair(Rule::expression, "b + c"),
        pair(Rule::variable_name, "b"),
        pair(Rule::addition, "+"),
        pair(Rule::variable_name, "c"),
        pair(Rule::subtraction, "-"),
        pair(Rule::variable_name, "d"),
        pair(Rule::division, "/"),
        pair(Rule::variable_name, "e"),
        pair(Rule::EOI, ""),
    ];
    assert_expression_is_valid(input, &expected_pairs);
}

#[test]
fn test_whitespace_handling() {
    let input = "  1+  1 ";
    let expected_pairs = vec![
        pair(Rule::expression, "1+  1 "),
        pair(Rule::integer, "1"),
        pair(Rule::addition, "+"),
        pair(Rule::integer, "1"),
        pair(Rule::EOI, ""),
    ];
    assert_expression_is_valid(input, &expected_pairs);
}

#[test]
fn test_nested_expression() {
    let input = "((1+2)*3) - 4.5/var";
    let expected_pairs = vec![
        pair(Rule::expression, "((1+2)*3) - 4.5/var"),
        pair(Rule::parenthesized, "((1+2)*3)"),
        pair(Rule::expression, "(1+2)*3"),
        pair(Rule::parenthesized, "(1+2)"),
        pair(Rule::expression, "1+2"),
        pair(Rule::integer, "1"),
        pair(Rule::addition, "+"),
        pair(Rule::integer, "2"),
        pair(Rule::multiplication, "*"),
        pair(Rule::integer, "3"),
        pair(Rule::subtraction, "-"),
        pair(Rule::decimal, "4.5"),
        pair(Rule::division, "/"),
        pair(Rule::variable_name, "var"),
        pair(Rule::EOI, ""),
    ];
    assert_expression_is_valid(input, &expected_pairs);
}

#[test]
fn test_invalid_newline() {
    let input = "1 +\n2";
    assert_expression_is_invalid(input);
}

#[test]
fn test_invalid_operator_sequence() {
    let input = "1 + * 2";
    assert_expression_is_invalid(input);
}

#[test]
fn test_invalid_empty_input() {
    let input = "";
    assert_expression_is_invalid(input);
}

#[test]
fn test_invalid_decimal_format() {
    let input = "1.";
    assert_expression_is_invalid(input);
}
