//! Why precedence climbing computes the sum of terms.
//!
//! Between two operators the two stacks are in one of four states: the
//! operand stack ends with the factor just read; under it may lie the
//! product so far with a pending `*` or `/`; under that may lie the total so
//! far with a pending `+` or `-`.

use crate::error::Failure;
use crate::evaluate::{
    applied, chain_value, climbed, precedence_of, reduced, sum_from, term_end, term_from, value_of,
};
use crate::grammar::{chain_well_formed, Node};
use crate::value::Number;
use vstd::prelude::*;

verus! {

/// The operand stack of a state.
pub open spec fn operand_stack(
    total: Option<(Number, Node)>,
    product: Option<(Number, Node)>,
    factor: Number,
) -> Seq<Number> {
    let low: Seq<Number> = match total {
        Some((value, _)) => seq![value],
        None => Seq::empty(),
    };
    let middle: Seq<Number> = match product {
        Some((value, _)) => low.push(value),
        None => low,
    };
    middle.push(factor)
}

/// The operator stack of a state.
pub open spec fn operator_stack(
    total: Option<(Number, Node)>,
    product: Option<(Number, Node)>,
) -> Seq<Node> {
    let low: Seq<Node> = match total {
        Some((_, operator)) => seq![operator],
        None => Seq::empty(),
    };
    match product {
        Some((_, operator)) => low.push(operator),
        None => low,
    }
}

/// Whether a state can arise: the lower pending operator is `+` or `-`, the
/// upper one `*` or `/`.
pub open spec fn state_in_order(
    total: Option<(Number, Node)>,
    product: Option<(Number, Node)>,
) -> bool {
    &&& total matches Some((_, operator)) ==> precedence_of(operator) == 1
    &&& product matches Some((_, operator)) ==> precedence_of(operator) == 2
}

/// The product so far, with the pending `*` or `/` applied to the last factor.
pub open spec fn closed_product(
    product: Option<(Number, Node)>,
    factor: Number,
    source: Seq<char>,
) -> Result<Number, Failure> {
    match product {
        Some((value, operator)) => applied(value, operator, factor, source),
        None => Ok(factor),
    }
}

/// The total so far, with the pending `+` or `-` applied to a finished term.
pub open spec fn closed_total(
    total: Option<(Number, Node)>,
    term: Number,
    source: Seq<char>,
) -> Result<Number, Failure> {
    match total {
        Some((value, operator)) => applied(value, operator, term, source),
        None => Ok(term),
    }
}

/// What the sum of terms comes to from a state at the operator position `at`.
pub open spec fn summed(
    children: Seq<Node>,
    env: Map<Seq<char>, Number>,
    source: Seq<char>,
    at: int,
    total: Option<(Number, Node)>,
    product: Option<(Number, Node)>,
    factor: Number,
) -> Result<Number, Failure> {
    match closed_product(product, factor, source) {
        Err(failure) => Err(failure),
        Ok(value) => match term_from(children, env, source, value, at) {
            Err(failure) => Err(failure),
            Ok(term) => match closed_total(total, term, source) {
                Err(failure) => Err(failure),
                Ok(next) => sum_from(children, env, source, next, term_end(children, at)),
            },
        },
    }
}

/// Reducing a state to the strength of `*` applies the pending `*` or `/`,
/// if there is one, and nothing else.
proof fn lemma_reduced_to_product(
    total: Option<(Number, Node)>,
    product: Option<(Number, Node)>,
    factor: Number,
    source: Seq<char>,
)
    requires
        state_in_order(total, product),
    ensures
        reduced(operand_stack(total, product, factor), operator_stack(total, product), 2, source)
            == match closed_product(product, factor, source) {
            Err(failure) => Err::<(Seq<Number>, Seq<Node>), Failure>(failure),
            Ok(value) => Ok(
                (operand_stack(total, None, value), operator_stack(total, None)),
            ),
        },
{
    reveal_with_fuel(reduced, 3);
    let operands = operand_stack(total, product, factor);
    let operators = operator_stack(total, product);
    match product {
        Some((value, operator)) => {
            assert(operators.last() == operator);
            assert(operands.last() == factor);
            assert(operands[operands.len() - 2] == value);
            assert(operators.drop_last() =~= operator_stack(total, None));
            match applied(value, operator, factor, source) {
                Ok(next) => {
                    assert(operands.subrange(0, operands.len() - 2).push(next) =~= operand_stack(
                        total,
                        None,
                        next,
                    ));
                },
                Err(_) => {},
            }
        },
        None => {},
    }
}

/// Reducing a state to the strength of `+`, or altogether, applies both
/// pending operators and leaves one operand.
proof fn lemma_reduced_to_total(
    total: Option<(Number, Node)>,
    product: Option<(Number, Node)>,
    factor: Number,
    source: Seq<char>,
    floor: nat,
)
    requires
        state_in_order(total, product),
        floor <= 1,
    ensures
        reduced(
            operand_stack(total, product, factor),
            operator_stack(total, product),
            floor,
            source,
        ) == match closed_product(product, factor, source) {
            Err(failure) => Err::<(Seq<Number>, Seq<Node>), Failure>(failure),
            Ok(term) => match closed_total(total, term, source) {
                Err(failure) => Err(failure),
                Ok(value) => Ok((seq![value], Seq::empty())),
            },
        },
    decreases operator_stack(total, product).len(),
{
    lemma_reduced_to_product(total, product, factor, source);
    reveal_with_fuel(reduced, 3);
    let operands = operand_stack(total, product, factor);
    let operators = operator_stack(total, product);
    match product {
        Some((value, operator)) => {
            assert(operators.last() == operator);
            assert(operands.last() == factor);
            assert(operands[operands.len() - 2] == value);
            assert(operators.drop_last() =~= operator_stack(total, None));
            match applied(value, operator, factor, source) {
                Ok(next) => {
                    assert(operands.subrange(0, operands.len() - 2).push(next) =~= operand_stack(
                        total,
                        None,
                        next,
                    ));
                    lemma_reduced_to_total(total, None, next, source, floor);
                },
                Err(_) => {},
            }
        },
        None => {
            match total {
                Some((value, operator)) => {
                    assert(operators.last() == operator);
                    assert(operands.last() == factor);
                    assert(operands[operands.len() - 2] == value);
                    assert(operators.drop_last() =~= Seq::<Node>::empty());
                    match applied(value, operator, factor, source) {
                        Ok(next) => {
                            assert(operands.subrange(0, operands.len() - 2).push(next)
                                =~= seq![next]);
                        },
                        Err(_) => {},
                    }
                },
                None => {
                    assert(operands =~= seq![factor]);
                    assert(operators =~= Seq::<Node>::empty());
                },
            }
        },
    }
}

/// From any state that can arise, precedence climbing and the sum of terms
/// come to the same.
proof fn lemma_climbed_from_state(
    children: Seq<Node>,
    env: Map<Seq<char>, Number>,
    source: Seq<char>,
    at: int,
    total: Option<(Number, Node)>,
    product: Option<(Number, Node)>,
    factor: Number,
)
    requires
        chain_well_formed(children),
        1 <= at <= children.len(),
        at % 2 == 1,
        state_in_order(total, product),
    ensures
        climbed(
            children,
            env,
            source,
            at,
            operand_stack(total, product, factor),
            operator_stack(total, product),
        ) == summed(children, env, source, at, total, product, factor),
    decreases children.len() - at,
{
    let operands = operand_stack(total, product, factor);
    let operators = operator_stack(total, product);
    if at >= children.len() {
        lemma_reduced_to_total(total, product, factor, source, 0);
    } else {
        let operator = children[at];
        let operand = children[at + 1];
        assert(operator.rule.spec_operator() is Some);
        reveal_with_fuel(climbed, 2);
        reveal_with_fuel(term_from, 2);
        reveal_with_fuel(term_end, 2);
        if precedence_of(operator) == 2 {
            lemma_reduced_to_product(total, product, factor, source);
            match closed_product(product, factor, source) {
                Err(_) => {},
                Ok(value) => {
                    assert(operator_stack(total, None).push(operator) =~= operator_stack(
                        total,
                        Some((value, operator)),
                    ));
                    match value_of(operand, env) {
                        Err(_) => {},
                        Ok(next) => {
                            assert(operand_stack(total, None, value).push(next) =~= operand_stack(
                                total,
                                Some((value, operator)),
                                next,
                            ));
                            lemma_climbed_from_state(
                                children,
                                env,
                                source,
                                at + 2,
                                total,
                                Some((value, operator)),
                                next,
                            );
                        },
                    }
                },
            }
        } else {
            assert(precedence_of(operator) == 1);
            lemma_reduced_to_total(total, product, factor, source, 1);
            match closed_product(product, factor, source) {
                Err(_) => {},
                Ok(term) => match closed_total(total, term, source) {
                    Err(_) => {},
                    Ok(value) => {
                        assert(Seq::<Node>::empty().push(operator) =~= operator_stack(
                            Some((value, operator)),
                            None,
                        ));
                        match value_of(operand, env) {
                            Err(_) => {},
                            Ok(next) => {
                                assert(seq![value].push(next) =~= operand_stack(
                                    Some((value, operator)),
                                    None,
                                    next,
                                ));
                                lemma_climbed_from_state(
                                    children,
                                    env,
                                    source,
                                    at + 2,
                                    Some((value, operator)),
                                    None,
                                    next,
                                );
                            },
                        }
                    },
                },
            }
        }
    }
}

/// Precedence climbing over the children of a well-formed expression gives
/// the sum of its terms.
pub proof fn lemma_climbing_is_summing(
    children: Seq<Node>,
    env: Map<Seq<char>, Number>,
    source: Seq<char>,
)
    requires
        chain_well_formed(children),
    ensures
        climbed(children, env, source, 0, Seq::empty(), Seq::empty()) == chain_value(
            children,
            env,
            source,
        ),
{
    match value_of(children[0], env) {
        Err(_) => {},
        Ok(first) => {
            assert(Seq::<Number>::empty().push(first) =~= operand_stack(None, None, first));
            assert(Seq::<Node>::empty() =~= operator_stack(None, None));
            lemma_climbed_from_state(children, env, source, 1, None, None, first);
        },
    }
}

} // verus!
