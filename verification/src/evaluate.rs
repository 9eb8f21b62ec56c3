//! Reducing a parse tree to a value.
//!
//! An expression is a sum of terms and a term is a product of factors, both
//! taken from the left: `10 - 3 - 2` is `(10 - 3) - 2` and `2 + 3 * 4` is
//! `2 + (3 * 4)`. The resolver computes this with two stacks, one of operands
//! and one of operators, and never recurses into precedence.

use crate::climbing::lemma_climbing_is_summing;
use crate::derivation::{lemma_derived_is_well_formed, lemma_parse_is_derived};
use crate::error::{ExpressionError, Failure};
use crate::fast::{binary32_parsed, float_from_text, MAX_LITERAL_LENGTH};
use crate::grammar::{
    chain_well_formed, nodes_of, parse_input, syntax_message, well_formed, ExpressionParser, Node,
    Pair, Pairs, Rule,
};
use crate::integer::integer_from_text;
use crate::literal::{integer_literal_value, is_decimal_literal, is_integer_literal};
use crate::value::{value_defined, value_outcome, Number, Value};
use crate::variables::Variables;
use vstd::prelude::*;

verus! {

/// The binding strength of an operator node; 0 for any other node.
pub open spec fn precedence_of(node: Node) -> nat {
    match node.rule.spec_operator() {
        Some(operator) => operator.precedence(),
        None => 0,
    }
}

/// What applying an operator node to two numbers gives. `source` is the text
/// of the expression that the operator stands in.
pub open spec fn applied(left: Number, operator: Node, right: Number, source: Seq<char>) -> Result<
    Number,
    Failure,
> {
    match operator.rule.spec_operator() {
        None => Err(Failure::UnexpectedAbstractSyntaxTree),
        Some(op) => if value_defined(op, left, right) {
            Ok(value_outcome(op, left, right))
        } else {
            Err(Failure::EvaluationError { expression: source })
        },
    }
}

/// The first operator position at or after `at` that does not hold `*` or
/// `/`: where the term that is being read at `at` ends.
pub open spec fn term_end(children: Seq<Node>, at: int) -> int
    decreases children.len() - at,
{
    if 0 <= at && at + 1 < children.len() && precedence_of(children[at]) == 2 {
        term_end(children, at + 2)
    } else {
        at
    }
}

/// A term ends at or after the place from which it is read.
pub proof fn lemma_term_end(children: Seq<Node>, at: int)
    ensures
        term_end(children, at) >= at,
        (term_end(children, at) - at) % 2 == 0,
        at <= children.len() ==> term_end(children, at) <= children.len(),
    decreases children.len() - at,
{
    if 0 <= at && at + 1 < children.len() && precedence_of(children[at]) == 2 {
        lemma_term_end(children, at + 2);
    }
}

/// The value of a node under `env`.
pub open spec fn value_of(node: Node, env: Map<Seq<char>, Number>) -> Result<Number, Failure>
    decreases node, 0int,
{
    match node.rule {
        Rule::integer => if is_integer_literal(node.text) {
            Ok(Number::PreciseInteger(integer_literal_value(node.text)))
        } else {
            Err(Failure::EvaluationError { expression: node.text })
        },
        Rule::decimal => if is_decimal_literal(node.text) && node.text.len()
            <= MAX_LITERAL_LENGTH {
            Ok(Number::FastDecimal(binary32_parsed(node.text)))
        } else {
            Err(Failure::EvaluationError { expression: node.text })
        },
        Rule::variable_name => if env.contains_key(node.text) {
            Ok(env[node.text])
        } else {
            Err(Failure::UndefinedVariable { name: node.text })
        },
        Rule::parenthesized => if node.children.len() > 0 {
            value_of(node.children[0], env)
        } else {
            Err(Failure::UnexpectedAbstractSyntaxTree)
        },
        Rule::expression => chain_value(node.children, env, node.text),
        _ => Err(Failure::UnexpectedAbstractSyntaxTree),
    }
}

/// The value of the term that has come to `product` and goes on at the
/// operator position `at`: each `*` or `/` that follows is applied to the
/// product so far and the operand after it.
pub open spec fn term_from(
    children: Seq<Node>,
    env: Map<Seq<char>, Number>,
    source: Seq<char>,
    product: Number,
    at: int,
) -> Result<Number, Failure>
    decreases children, children.len() - at,
{
    if 0 <= at && at + 1 < children.len() && precedence_of(children[at]) == 2 {
        match value_of(children[at + 1], env) {
            Err(failure) => Err(failure),
            Ok(factor) => match applied(product, children[at], factor, source) {
                Err(failure) => Err(failure),
                Ok(next) => term_from(children, env, source, next, at + 2),
            },
        }
    } else {
        Ok(product)
    }
}

/// The value of the sum that has come to `total` and goes on at the operator
/// position `at`: each operator that follows is applied to the total so far
/// and the whole term after it.
pub open spec fn sum_from(
    children: Seq<Node>,
    env: Map<Seq<char>, Number>,
    source: Seq<char>,
    total: Number,
    at: int,
) -> Result<Number, Failure>
    decreases children, children.len() - at,
{
    if 0 <= at && at + 1 < children.len() {
        match value_of(children[at + 1], env) {
            Err(failure) => Err(failure),
            Ok(first) => match term_from(children, env, source, first, at + 2) {
                Err(failure) => Err(failure),
                Ok(term) => match applied(total, children[at], term, source) {
                    Err(failure) => Err(failure),
                    Ok(next) => {
                        proof {
                            lemma_term_end(children, at + 2);
                        }
                        sum_from(children, env, source, next, term_end(children, at + 2))
                    },
                },
            },
        }
    } else {
        Ok(total)
    }
}

/// The value of an expression with these children: the sum of its terms.
pub open spec fn chain_value(
    children: Seq<Node>,
    env: Map<Seq<char>, Number>,
    source: Seq<char>,
) -> Result<Number, Failure>
    decreases children, children.len() + 1,
{
    if children.len() == 0 {
        Err(Failure::UnexpectedAbstractSyntaxTree)
    } else {
        match value_of(children[0], env) {
            Err(failure) => Err(failure),
            Ok(first) => match term_from(children, env, source, first, 1) {
                Err(failure) => Err(failure),
                Ok(term) => {
                    proof {
                        lemma_term_end(children, 1);
                    }
                    sum_from(children, env, source, term, term_end(children, 1))
                },
            },
        }
    }
}

/// The value of the expression that `text` writes, under `env`.
pub open spec fn evaluation(text: Seq<char>, env: Map<Seq<char>, Number>) -> Result<
    Number,
    Failure,
> {
    match parse_input(text) {
        Err(position) => Err(Failure::ParseError { message: syntax_message(position) }),
        Ok(nodes) => value_of(nodes[0], env),
    }
}

/// Whether a result is the expected one.
pub open spec fn agrees(
    result: Result<Value, ExpressionError>,
    expected: Result<Number, Failure>,
) -> bool {
    match result {
        Ok(value) => expected == Ok::<Number, Failure>(value@),
        Err(error) => expected == Err::<Number, Failure>(error@),
    }
}

/// The numbers that a sequence of values stands for.
pub open spec fn numbers_of(values: Seq<Value>) -> Seq<Number> {
    Seq::new(values.len(), |i: int| values[i]@)
}

/// The nodes that a sequence of borrowed pairs stands for.
pub open spec fn nodes_of_borrowed(pairs: Seq<&Pair>) -> Seq<Node> {
    Seq::new(pairs.len(), |i: int| pairs[i]@)
}

/// The two stacks after every operator on top that binds at least as
/// strongly as `floor` has been applied to the two operands on top.
pub open spec fn reduced(
    operands: Seq<Number>,
    operators: Seq<Node>,
    floor: nat,
    source: Seq<char>,
) -> Result<(Seq<Number>, Seq<Node>), Failure>
    decreases operators.len(),
{
    if operators.len() > 0 && precedence_of(operators.last()) >= floor {
        if operands.len() < 2 {
            Err(Failure::UnexpectedAbstractSyntaxTree)
        } else {
            match applied(
                operands[operands.len() - 2],
                operators.last(),
                operands.last(),
                source,
            ) {
                Err(failure) => Err(failure),
                Ok(value) => reduced(
                    operands.subrange(0, operands.len() - 2).push(value),
                    operators.drop_last(),
                    floor,
                    source,
                ),
            }
        }
    } else {
        Ok((operands, operators))
    }
}

/// What precedence climbing makes of `children` from position `at` on, with
/// these two stacks: an operand is resolved and pushed; an operator first
/// has the stacks reduced to its own strength and is then pushed; at the end
/// the stacks are reduced altogether and one operand must remain.
pub open spec fn climbed(
    children: Seq<Node>,
    env: Map<Seq<char>, Number>,
    source: Seq<char>,
    at: int,
    operands: Seq<Number>,
    operators: Seq<Node>,
) -> Result<Number, Failure>
    decreases children.len() - at,
{
    if !(0 <= at < children.len()) {
        match reduced(operands, operators, 0, source) {
            Err(failure) => Err(failure),
            Ok((values, _)) => if values.len() == 1 {
                Ok(values[0])
            } else {
                Err(Failure::UnexpectedAbstractSyntaxTree)
            },
        }
    } else if at % 2 == 0 {
        match value_of(children[at], env) {
            Err(failure) => Err(failure),
            Ok(value) => climbed(children, env, source, at + 1, operands.push(value), operators),
        }
    } else {
        match reduced(operands, operators, precedence_of(children[at]), source) {
            Err(failure) => Err(failure),
            Ok((values, pending)) => climbed(
                children,
                env,
                source,
                at + 1,
                values,
                pending.push(children[at]),
            ),
        }
    }
}

/// The binding strength of an operator pair; 0 for any other pair.
pub fn get_precedence(operator: &Pair) -> (r: u32)
    ensures
        r == precedence_of(operator@),
{
    match operator.as_rule() {
        Rule::multiplication | Rule::division => 2,
        Rule::addition | Rule::subtraction => 1,
        _ => 0,
    }
}

/// Applies an operator pair to two values. `source` is the text of the
/// expression that the operator stands in.
pub fn apply_operator(left: Value, operator: &Pair, right: Value, source: &str) -> (r: Result<
    Value,
    ExpressionError,
>)
    ensures
        agrees(r, applied(left@, operator@, right@, source@)),
{
    match operator.as_rule().operator() {
        None => Err(ExpressionError::UnexpectedAbstractSyntaxTree),
        Some(op) => match Value::checked_apply(op, left, right) {
            Some(value) => Ok(value),
            None => Err(ExpressionError::EvaluationError { expression: source.to_owned() }),
        },
    }
}

/// Applies every operator on top of the stack that binds at least as
/// strongly as `floor`.
fn reduce(
    operand_stack: &mut Vec<Value>,
    operator_stack: &mut Vec<&Pair>,
    floor: u32,
    source: &str,
) -> (r: Result<(), ExpressionError>)
    ensures
        match r {
            Ok(_) => reduced(
                numbers_of(old(operand_stack)@),
                nodes_of_borrowed(old(operator_stack)@),
                floor as nat,
                source@,
            ) == Ok::<(Seq<Number>, Seq<Node>), Failure>(
                (numbers_of(final(operand_stack)@), nodes_of_borrowed(final(operator_stack)@)),
            ),
            Err(error) => reduced(
                numbers_of(old(operand_stack)@),
                nodes_of_borrowed(old(operator_stack)@),
                floor as nat,
                source@,
            ) == Err::<(Seq<Number>, Seq<Node>), Failure>(error@),
        },
{
    loop
        invariant
            reduced(
                numbers_of(old(operand_stack)@),
                nodes_of_borrowed(old(operator_stack)@),
                floor as nat,
                source@,
            ) == reduced(
                numbers_of(operand_stack@),
                nodes_of_borrowed(operator_stack@),
                floor as nat,
                source@,
            ),
        decreases operator_stack.len(),
    {
        let ghost operands = numbers_of(operand_stack@);
        let ghost operators = nodes_of_borrowed(operator_stack@);
        if operator_stack.len() == 0 {
            return Ok(());
        }
        let top: &Pair = operator_stack[operator_stack.len() - 1];
        assert(top@ == operators.last());
        if get_precedence(top) < floor {
            return Ok(());
        }
        let operator = match operator_stack.pop() {
            Some(operator) => operator,
            None => {
                return Err(ExpressionError::UnexpectedAbstractSyntaxTree);
            },
        };
        assert(nodes_of_borrowed(operator_stack@) =~= operators.drop_last());
        let right = match operand_stack.pop() {
            Some(right) => right,
            None => {
                return Err(ExpressionError::UnexpectedAbstractSyntaxTree);
            },
        };
        let left = match operand_stack.pop() {
            Some(left) => left,
            None => {
                return Err(ExpressionError::UnexpectedAbstractSyntaxTree);
            },
        };
        assert(right@ == operands.last());
        assert(left@ == operands[operands.len() - 2]);
        let ghost rest = numbers_of(operand_stack@);
        assert(rest =~= operands.subrange(0, operands.len() - 2));
        let value = match apply_operator(left, operator, right, source) {
            Ok(value) => value,
            Err(error) => {
                return Err(error);
            },
        };
        operand_stack.push(value);
        assert(numbers_of(operand_stack@) =~= rest.push(value@));
    }
}

/// Resolves a pair to its value: a literal to the number that it writes, a
/// name to its value in `variables`, parentheses to what they hold and an
/// expression to the sum of its terms.
pub(crate) fn resolve_branch(pair: &Pair, variables: &Variables) -> (r: Result<
    Value,
    ExpressionError,
>)
    requires
        well_formed(pair@),
    ensures
        agrees(r, value_of(pair@, variables@)),
    decreases pair@,
{
    match pair.as_rule() {
        Rule::integer => {
            match integer_from_text(pair.as_str()) {
                Some(value) => Ok(Value::PreciseInteger(value)),
                None => Err(
                    ExpressionError::EvaluationError { expression: pair.as_str().to_owned() },
                ),
            }
        },
        Rule::decimal => {
            if pair.as_str().unicode_len() > MAX_LITERAL_LENGTH {
                return Err(
                    ExpressionError::EvaluationError { expression: pair.as_str().to_owned() },
                );
            }
            match float_from_text(pair.as_str()) {
                Some(bits) => Ok(Value::FastDecimal(bits)),
                None => Err(
                    ExpressionError::EvaluationError { expression: pair.as_str().to_owned() },
                ),
            }
        },
        Rule::variable_name => {
            match variables.get(pair.as_str()) {
                Some(value) => Ok(value.clone()),
                None => Err(ExpressionError::UndefinedVariable { name: pair.as_str().to_owned() }),
            }
        },
        Rule::parenthesized => {
            let inner = pair.inner();
            if inner.len() > 0 {
                resolve_branch(&inner[0], variables)
            } else {
                Err(ExpressionError::UnexpectedAbstractSyntaxTree)
            }
        },
        Rule::expression => resolve_terminals(pair.inner(), variables, pair.as_str()),
        _ => Err(ExpressionError::UnexpectedAbstractSyntaxTree),
    }
}

/// Resolves the children of an expression by precedence climbing. `source`
/// is the text of the expression.
pub(crate) fn resolve_terminals(
    pairs: &Vec<Pair>,
    variables: &Variables,
    source: &str,
) -> (r: Result<Value, ExpressionError>)
    requires
        chain_well_formed(nodes_of(pairs@)),
    ensures
        agrees(r, chain_value(nodes_of(pairs@), variables@, source@)),
    decreases nodes_of(pairs@),
{
    let ghost children = nodes_of(pairs@);
    let ghost env = variables@;
    let mut operand_stack: Vec<Value> = Vec::new();
    let mut operator_stack: Vec<&Pair> = Vec::new();
    let mut index: usize = 0;
    assert(numbers_of(operand_stack@) =~= Seq::<Number>::empty());
    assert(nodes_of_borrowed(operator_stack@) =~= Seq::<Node>::empty());
    while index < pairs.len()
        invariant
            index <= pairs.len(),
            children == nodes_of(pairs@),
            env == variables@,
            chain_well_formed(children),
            climbed(
                children,
                env,
                source@,
                index as int,
                numbers_of(operand_stack@),
                nodes_of_borrowed(operator_stack@),
            ) == climbed(children, env, source@, 0, Seq::empty(), Seq::empty()),
        decreases pairs.len() - index,
    {
        let pair = &pairs[index];
        assert(pair@ == children[index as int]);
        if index % 2 == 0 {
            let ghost operands = numbers_of(operand_stack@);
            match resolve_branch(pair, variables) {
                Err(error) => {
                    proof {
                        lemma_climbing_is_summing(children, env, source@);
                    }
                    return Err(error);
                },
                Ok(value) => {
                    operand_stack.push(value);
                    assert(numbers_of(operand_stack@) =~= operands.push(value@));
                },
            }
        } else {
            let ghost operators_before = nodes_of_borrowed(operator_stack@);
            match reduce(&mut operand_stack, &mut operator_stack, get_precedence(pair), source) {
                Err(error) => {
                    proof {
                        lemma_climbing_is_summing(children, env, source@);
                    }
                    return Err(error);
                },
                Ok(_) => {
                    let ghost operators = nodes_of_borrowed(operator_stack@);
                    operator_stack.push(pair);
                    assert(nodes_of_borrowed(operator_stack@) =~= operators.push(pair@));
                },
            }
        }
        index += 1;
    }
    proof {
        lemma_climbing_is_summing(children, env, source@);
    }
    match reduce(&mut operand_stack, &mut operator_stack, 0, source) {
        Err(error) => {
            return Err(error);
        },
        Ok(_) => {},
    }
    if operand_stack.len() == 1 {
        match operand_stack.pop() {
            Some(value) => Ok(value),
            None => Err(ExpressionError::UnexpectedAbstractSyntaxTree),
        }
    } else {
        Err(ExpressionError::UnexpectedAbstractSyntaxTree)
    }
}

/// Resolves the first pair of a parse to its value.
pub(crate) fn resolve(pairs: &Pairs, variables: &Variables) -> (r: Result<Value, ExpressionError>)
    requires
        pairs@.len() > 0 ==> well_formed(pairs@[0]),
    ensures
        agrees(
            r,
            if pairs@.len() > 0 {
                value_of(pairs@[0], variables@)
            } else {
                Err(Failure::UnexpectedAbstractSyntaxTree)
            },
        ),
{
    let top = pairs.pairs();
    if top.len() > 0 {
        resolve_branch(&top[0], variables)
    } else {
        Err(ExpressionError::UnexpectedAbstractSyntaxTree)
    }
}

/// Evaluates the expression that `input` writes, with the values that
/// `variables` gives to its names.
///
/// The whole input must be an expression of the grammar, else the result is
/// a `ParseError`. A name without a value gives `UndefinedVariable`. An
/// operator that cannot be applied to its operands (a fast integer that
/// overflows, a precise division by zero, an infinity or a NaN that meets a
/// precise value, a decimal scale out of range) gives `EvaluationError` with
/// the text of the expression that the operator stands in. The first failure
/// from the left is the one returned.
pub fn evaluate(input: &str, variables: &Variables) -> (r: Result<Value, ExpressionError>)
    ensures
        agrees(r, evaluation(input@, variables@)),
{
    match ExpressionParser::parse(Rule::input, input) {
        Ok(pairs) => {
            proof {
                lemma_parse_is_derived(input@);
                lemma_derived_is_well_formed(input@, pairs@[0]);
            }
            resolve(&pairs, variables)
        },
        Err(error) => Err(ExpressionError::ParseError { message: error.message() }),
    }
}

} // verus!
