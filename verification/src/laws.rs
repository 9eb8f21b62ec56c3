//! What holds of every text, every tree and every value.

use crate::decimal::{lemma_same_number_is_an_equivalence, Decimal};
use crate::derivation::{
    derives, derives_chain, derives_input, lemma_derivation_is_parsed, lemma_parse_is_derived,
};
use crate::error::Failure;
use crate::evaluate::{
    applied, chain_value, evaluation, lemma_term_end, precedence_of, sum_from, term_end,
    term_from, value_of,
};
use crate::fast::{binary32_parsed, MAX_LITERAL_LENGTH};
use crate::grammar::{
    branch, leaf, lemma_failure_is_within, parse_input, preorder_all, syntax_message, Node, Rule,
};
use crate::literal::{
    integer_literal_value, is_decimal_literal, is_integer_literal, unsigned_part,
};
use crate::operator::Operator;
use crate::value::{same_value, value_outcome, Number};
use vstd::arithmetic::power::{lemma_pow0, pow};
use vstd::prelude::*;

verus! {

/// Parsing is a function of the text: the same text gives the same tree, and
/// so the same nodes in the same order.
pub proof fn law_parsing_is_repeatable(first: Seq<char>, second: Seq<char>)
    requires
        first == second,
    ensures
        parse_input(first) == parse_input(second),
        parse_input(first) matches Ok(nodes) ==> preorder_all(nodes) == preorder_all(
            parse_input(second)->Ok_0,
        ),
{
}

/// A text is accepted exactly when the whole of it has a derivation, and
/// what is yielded is that derivation: nothing is parsed in part.
pub proof fn law_accepted_means_derived(text: Seq<char>)
    ensures
        parse_input(text) is Ok <==> exists|nodes: Seq<Node>| #[trigger] derives_input(text, nodes),
        parse_input(text) matches Ok(nodes) ==> derives_input(text, nodes) && nodes[0].end
            == text.len(),
{
    if parse_input(text) is Ok {
        lemma_parse_is_derived(text);
    }
    assert forall|nodes: Seq<Node>| #[trigger] derives_input(text, nodes) implies parse_input(
        text,
    ) is Ok by {
        lemma_derivation_is_parsed(text, nodes);
    }
}

/// A value of no node is a failure to parse.
proof fn lemma_value_is_no_parse_error(node: Node, env: Map<Seq<char>, Number>)
    ensures
        !(value_of(node, env) matches Err(Failure::ParseError { .. })),
    decreases node, 0int,
{
    if node.rule == Rule::parenthesized {
        if node.children.len() > 0 {
            lemma_value_is_no_parse_error(node.children[0], env);
        }
    } else if node.rule == Rule::expression {
        if node.children.len() > 0 {
            lemma_value_is_no_parse_error(node.children[0], env);
            match value_of(node.children[0], env) {
                Ok(first) => {
                    lemma_term_is_no_parse_error(node.children, env, node.text, first, 1);
                    match term_from(node.children, env, node.text, first, 1) {
                        Ok(term) => {
                            lemma_term_end(node.children, 1);
                            lemma_sum_is_no_parse_error(
                                node.children,
                                env,
                                node.text,
                                term,
                                term_end(node.children, 1),
                            );
                        },
                        Err(_) => {},
                    }
                },
                Err(_) => {},
            }
        }
        assert(value_of(node, env) == chain_value(node.children, env, node.text));
    }
}

/// A term is no failure to parse.
proof fn lemma_term_is_no_parse_error(
    children: Seq<Node>,
    env: Map<Seq<char>, Number>,
    source: Seq<char>,
    product: Number,
    at: int,
)
    ensures
        !(term_from(children, env, source, product, at) matches Err(Failure::ParseError { .. })),
    decreases children, children.len() - at,
{
    if 0 <= at && at + 1 < children.len() && precedence_of(children[at]) == 2 {
        lemma_value_is_no_parse_error(children[at + 1], env);
        match value_of(children[at + 1], env) {
            Ok(factor) => match applied(product, children[at], factor, source) {
                Ok(next) => {
                    lemma_term_is_no_parse_error(children, env, source, next, at + 2);
                },
                Err(_) => {},
            },
            Err(_) => {},
        }
    }
}

/// A sum is no failure to parse.
proof fn lemma_sum_is_no_parse_error(
    children: Seq<Node>,
    env: Map<Seq<char>, Number>,
    source: Seq<char>,
    total: Number,
    at: int,
)
    ensures
        !(sum_from(children, env, source, total, at) matches Err(Failure::ParseError { .. })),
    decreases children, children.len() - at,
{
    if 0 <= at && at + 1 < children.len() {
        lemma_value_is_no_parse_error(children[at + 1], env);
        match value_of(children[at + 1], env) {
            Ok(factor) => {
                lemma_term_is_no_parse_error(children, env, source, factor, at + 2);
                match term_from(children, env, source, factor, at + 2) {
                    Ok(term) => match applied(total, children[at], term, source) {
                        Ok(next) => {
                            lemma_term_end(children, at + 2);
                            lemma_sum_is_no_parse_error(
                                children,
                                env,
                                source,
                                next,
                                term_end(children, at + 2),
                            );
                        },
                        Err(_) => {},
                    },
                    Err(_) => {},
                }
            },
            Err(_) => {},
        }
    }
}

/// Evaluation fails with a `ParseError` exactly on the texts that have no
/// derivation, and names the place where the text stopped conforming.
pub proof fn law_parse_error_means_no_derivation(text: Seq<char>, env: Map<Seq<char>, Number>)
    ensures
        (evaluation(text, env) matches Err(Failure::ParseError { .. })) <==> !exists|
            nodes: Seq<Node>,
        | #[trigger] derives_input(text, nodes),
        parse_input(text) matches Err(position) ==> 0 <= position <= text.len() && evaluation(
            text,
            env,
        ) == Err::<Number, Failure>(Failure::ParseError { message: syntax_message(position) }),
{
    law_accepted_means_derived(text);
    if parse_input(text) is Ok {
        lemma_value_is_no_parse_error(parse_input(text)->Ok_0[0], env);
    } else {
        lemma_failure_is_within(text);
    }
}

/// A text has at most one derivation.
pub proof fn law_derivation_is_unique(text: Seq<char>, first: Seq<Node>, second: Seq<Node>)
    requires
        derives_input(text, first),
        derives_input(text, second),
    ensures
        first == second,
{
    lemma_derivation_is_parsed(text, first);
    lemma_derivation_is_parsed(text, second);
}

/// The parse of a text that is one literal and nothing else.
proof fn lemma_single_literal(text: Seq<char>, rule: Rule)
    requires
        (rule == Rule::integer && is_integer_literal(text)) || (rule == Rule::decimal
            && is_decimal_literal(text)),
    ensures
        parse_input(text) == Ok::<Seq<Node>, int>(
            seq![
                branch(
                    text,
                    Rule::expression,
                    0,
                    text.len() as int,
                    seq![leaf(text, rule, 0, text.len() as int)],
                ),
                leaf(text, Rule::EOI, text.len() as int, text.len() as int),
            ],
        ),
        leaf(text, rule, 0, text.len() as int).text == text,
{
    let end = text.len() as int;
    let operand = leaf(text, rule, 0, end);
    let expression = branch(text, Rule::expression, 0, end, seq![operand]);
    let nodes = seq![expression, leaf(text, Rule::EOI, end, end)];
    assert(unsigned_part(text).len() > 0);
    assert(operand.text =~= text);
    assert(derives(text, operand));
    assert(derives_chain(text, seq![operand]));
    assert(derives(text, expression));
    assert(derives_input(text, nodes));
    lemma_derivation_is_parsed(text, nodes);
}

/// The value of an expression that holds one operand is the value of the
/// operand.
proof fn lemma_single_operand_value(operand: Node, env: Map<Seq<char>, Number>, source: Seq<char>)
    ensures
        chain_value(seq![operand], env, source) == value_of(operand, env),
{
    let children = seq![operand];
    assert(children[0] == operand);
    assert(term_end(children, 1) == 1);
    match value_of(operand, env) {
        Ok(first) => {
            assert(term_from(children, env, source, first, 1) == Ok::<Number, Failure>(first));
            assert(sum_from(children, env, source, first, 1) == Ok::<Number, Failure>(first));
        },
        Err(_) => {},
    }
}

/// An integer literal, evaluated on its own, is the precise integer that it
/// denotes, whatever the variables.
pub proof fn law_integer_literal(text: Seq<char>, env: Map<Seq<char>, Number>)
    requires
        is_integer_literal(text),
    ensures
        evaluation(text, env) == Ok::<Number, Failure>(
            Number::PreciseInteger(integer_literal_value(text)),
        ),
{
    lemma_single_literal(text, Rule::integer);
    lemma_single_operand_value(
        leaf(text, Rule::integer, 0, text.len() as int),
        env,
        text.subrange(0, text.len() as int),
    );
}

/// A decimal literal, evaluated on its own, is the fast decimal that its
/// text is read as, whatever the variables.
pub proof fn law_decimal_literal(text: Seq<char>, env: Map<Seq<char>, Number>)
    requires
        is_decimal_literal(text),
        text.len() <= MAX_LITERAL_LENGTH,
    ensures
        evaluation(text, env) == Ok::<Number, Failure>(
            Number::FastDecimal(binary32_parsed(text)),
        ),
{
    lemma_single_literal(text, Rule::decimal);
    lemma_single_operand_value(
        leaf(text, Rule::decimal, 0, text.len() as int),
        env,
        text.subrange(0, text.len() as int),
    );
}

/// Division gives a decimal, whatever it is given.
pub proof fn law_division_gives_a_decimal(a: Number, b: Number)
    ensures
        value_outcome(Operator::Division, a, b).value_type().is_decimal(),
{
}

/// Of three operands, the first two are combined first, unless the second
/// operator binds more strongly than the first.
pub proof fn law_three_operands(
    children: Seq<Node>,
    env: Map<Seq<char>, Number>,
    source: Seq<char>,
    a: Number,
    b: Number,
    c: Number,
)
    requires
        children.len() == 5,
        children[1].rule.spec_operator() is Some,
        children[3].rule.spec_operator() is Some,
        value_of(children[0], env) == Ok::<Number, Failure>(a),
        value_of(children[2], env) == Ok::<Number, Failure>(b),
        value_of(children[4], env) == Ok::<Number, Failure>(c),
    ensures
        chain_value(children, env, source) == if children[3].rule.spec_operator()->0.precedence()
            > children[1].rule.spec_operator()->0.precedence() {
            match applied(b, children[3], c, source) {
                Err(failure) => Err(failure),
                Ok(right) => applied(a, children[1], right, source),
            }
        } else {
            match applied(a, children[1], b, source) {
                Err(failure) => Err(failure),
                Ok(left) => applied(left, children[3], c, source),
            }
        },
{
    reveal_with_fuel(term_from, 4);
    reveal_with_fuel(sum_from, 4);
    reveal_with_fuel(term_end, 4);
    let first = precedence_of(children[1]);
    let second = precedence_of(children[3]);
    assert(first == 1 || first == 2);
    assert(second == 1 || second == 2);
    assert(term_from(children, env, source, c, 5) == Ok::<Number, Failure>(c));
    assert(term_end(children, 5) == 5);
    assert(term_end(children, 3) == if second == 2 {
        5int
    } else {
        3int
    });
    assert(term_end(children, 1) == if first == 2 {
        term_end(children, 3)
    } else {
        1int
    });
    assert(forall|total: Number|
        sum_from(children, env, source, total, 5) == Ok::<Number, Failure>(total));
    assert(forall|product: Number|
        term_from(children, env, source, product, 5) == Ok::<Number, Failure>(product));
    assert(forall|total: Number|
        sum_from(children, env, source, total, 3) == #[trigger] applied(
            total,
            children[3],
            c,
            source,
        ));
    if first == 2 {
        match applied(a, children[1], b, source) {
            Err(_) => {},
            Ok(left) => {
                assert(term_from(children, env, source, a, 1) == term_from(
                    children,
                    env,
                    source,
                    left,
                    3,
                ));
                if second == 2 {
                    assert(term_from(children, env, source, left, 3) == applied(
                        left,
                        children[3],
                        c,
                        source,
                    ));
                } else {
                    assert(term_from(children, env, source, left, 3) == Ok::<Number, Failure>(
                        left,
                    ));
                }
            },
        }
    } else {
        assert(term_from(children, env, source, a, 1) == Ok::<Number, Failure>(a));
        assert(chain_value(children, env, source) == sum_from(children, env, source, a, 1));
        if second == 2 {
            assert(term_from(children, env, source, b, 3) == applied(b, children[3], c, source));
            assert(sum_from(children, env, source, a, 1) == match applied(
                b,
                children[3],
                c,
                source,
            ) {
                Err(failure) => Err::<Number, Failure>(failure),
                Ok(right) => applied(a, children[1], right, source),
            });
        } else {
            assert(term_from(children, env, source, b, 3) == Ok::<Number, Failure>(b));
            assert(sum_from(children, env, source, a, 1) == match applied(
                a,
                children[1],
                b,
                source,
            ) {
                Err(failure) => Err::<Number, Failure>(failure),
                Ok(left) => applied(left, children[3], c, source),
            });
        }
    }
}

/// Equality is about the number alone: an integer is the same in the fast
/// tier, in the precise tier, and as a decimal with any number of zeros after
/// the point.
pub proof fn law_equality_ignores_representation(value: i64, zeros: nat)
    ensures
        same_value(Number::FastInteger(value), Number::PreciseInteger(value as int)),
        same_value(
            Number::FastInteger(value),
            Number::PreciseDecimal(
                Decimal { unscaled: value * pow(10, zeros), scale: zeros as int },
            ),
        ),
        same_value(
            Number::PreciseDecimal(
                Decimal { unscaled: value * pow(10, zeros), scale: zeros as int },
            ),
            Number::PreciseInteger(value as int),
        ),
{
    lemma_pow0(10);
    let scaled = value * pow(10, zeros);
    let one = pow(10, 0);
    assert(scaled * one == scaled && value * one == value) by (nonlinear_arith)
        requires
            one == 1,
    ;
}

/// Equality is an equivalence on the numbers that have a decimal value:
/// it holds of a number and itself, in both directions or in none, and
/// passes from one pair to the next.
pub proof fn law_equality_is_an_equivalence(a: Number, b: Number, c: Number)
    ensures
        a.convertible() ==> same_value(a, a),
        same_value(a, b) == same_value(b, a),
        same_value(a, b) && same_value(b, c) ==> same_value(a, c),
{
    lemma_same_number_is_an_equivalence(a.exact(), b.exact(), c.exact());
}

/// Two trees are alike when they differ in nothing but where their nodes
/// stand in the text and how much space lies inside them: the same rules,
/// the same children in the same order, and the same text in every literal
/// and name.
pub open spec fn alike(first: Node, second: Node) -> bool
    decreases first,
{
    &&& first.rule == second.rule
    &&& first.children.len() == second.children.len()
    &&& first.rule != Rule::expression && first.rule != Rule::parenthesized ==> first.text
        == second.text
    &&& forall|i: int|
        0 <= i < first.children.len() ==> alike(
            #[trigger] first.children[i],
            second.children[i],
        )
}

/// Two outcomes are the same value, or the same failure but for the text
/// that a failure to evaluate quotes.
pub open spec fn same_outcome(
    first: Result<Number, Failure>,
    second: Result<Number, Failure>,
) -> bool {
    match (first, second) {
        (Ok(one), Ok(other)) => one == other,
        (
            Err(Failure::EvaluationError { .. }),
            Err(Failure::EvaluationError { .. }),
        ) => true,
        (Err(one), Err(other)) => one == other,
        _ => false,
    }
}

/// Children that are alike one by one.
spec fn all_alike(first: Seq<Node>, second: Seq<Node>) -> bool {
    &&& first.len() == second.len()
    &&& forall|i: int| 0 <= i < first.len() ==> alike(#[trigger] first[i], second[i])
}

/// Terms of children that are alike end at the same place.
proof fn lemma_alike_term_end(first: Seq<Node>, second: Seq<Node>, at: int)
    requires
        all_alike(first, second),
    ensures
        term_end(first, at) == term_end(second, at),
    decreases first.len() - at,
{
    if 0 <= at && at + 1 < first.len() {
        assert(alike(first[at], second[at]));
        if precedence_of(first[at]) == 2 {
            lemma_alike_term_end(first, second, at + 2);
        }
    }
}

/// Terms of children that are alike come to the same.
proof fn lemma_alike_term(
    first: Seq<Node>,
    second: Seq<Node>,
    env: Map<Seq<char>, Number>,
    first_source: Seq<char>,
    second_source: Seq<char>,
    product: Number,
    at: int,
)
    requires
        all_alike(first, second),
    ensures
        same_outcome(
            term_from(first, env, first_source, product, at),
            term_from(second, env, second_source, product, at),
        ),
    decreases first, first.len() - at,
{
    if 0 <= at && at + 1 < first.len() {
        assert(alike(first[at], second[at]));
        assert(alike(first[at + 1], second[at + 1]));
        if precedence_of(first[at]) == 2 {
            lemma_alike_value(first[at + 1], second[at + 1], env);
            match value_of(first[at + 1], env) {
                Ok(factor) => match applied(product, first[at], factor, first_source) {
                    Ok(next) => {
                        lemma_alike_term(
                            first,
                            second,
                            env,
                            first_source,
                            second_source,
                            next,
                            at + 2,
                        );
                    },
                    Err(_) => {},
                },
                Err(_) => {},
            }
        }
    }
}

/// Sums of children that are alike come to the same.
proof fn lemma_alike_sum(
    first: Seq<Node>,
    second: Seq<Node>,
    env: Map<Seq<char>, Number>,
    first_source: Seq<char>,
    second_source: Seq<char>,
    total: Number,
    at: int,
)
    requires
        all_alike(first, second),
    ensures
        same_outcome(
            sum_from(first, env, first_source, total, at),
            sum_from(second, env, second_source, total, at),
        ),
    decreases first, first.len() - at,
{
    if 0 <= at && at + 1 < first.len() {
        assert(alike(first[at], second[at]));
        assert(alike(first[at + 1], second[at + 1]));
        lemma_alike_value(first[at + 1], second[at + 1], env);
        lemma_alike_term_end(first, second, at + 2);
        lemma_term_end(first, at + 2);
        match value_of(first[at + 1], env) {
            Ok(factor) => {
                lemma_alike_term(first, second, env, first_source, second_source, factor, at + 2);
                match term_from(first, env, first_source, factor, at + 2) {
                    Ok(term) => match applied(total, first[at], term, first_source) {
                        Ok(next) => {
                            lemma_alike_sum(
                                first,
                                second,
                                env,
                                first_source,
                                second_source,
                                next,
                                term_end(first, at + 2),
                            );
                        },
                        Err(_) => {},
                    },
                    Err(_) => {},
                }
            },
            Err(_) => {},
        }
    }
}

/// Trees that are alike have the same value.
proof fn lemma_alike_value(first: Node, second: Node, env: Map<Seq<char>, Number>)
    requires
        alike(first, second),
    ensures
        same_outcome(value_of(first, env), value_of(second, env)),
    decreases first, 0int,
{
    if first.rule == Rule::parenthesized {
        if first.children.len() > 0 {
            lemma_alike_value(first.children[0], second.children[0], env);
        }
    } else if first.rule == Rule::expression {
        if first.children.len() > 0 {
            let one = first.children;
            let other = second.children;
            assert(all_alike(one, other));
            lemma_alike_value(one[0], other[0], env);
            lemma_alike_term_end(one, other, 1);
            lemma_term_end(one, 1);
            match value_of(one[0], env) {
                Ok(factor) => {
                    lemma_alike_term(one, other, env, first.text, second.text, factor, 1);
                    match term_from(one, env, first.text, factor, 1) {
                        Ok(term) => {
                            lemma_alike_sum(
                                one,
                                other,
                                env,
                                first.text,
                                second.text,
                                term,
                                term_end(one, 1),
                            );
                        },
                        Err(_) => {},
                    }
                },
                Err(_) => {},
            }
            assert(same_outcome(
                chain_value(one, env, first.text),
                chain_value(other, env, second.text),
            ));
        } else {
            assert(second.children.len() == 0);
        }
        assert(same_outcome(value_of(first, env), value_of(second, env)));
    } else {
        assert(first.text == second.text);
        assert(same_outcome(value_of(first, env), value_of(second, env)));
    }
}

/// The value of a tree does not depend on where its nodes stand in the text
/// nor on the space between them: two texts whose trees are alike evaluate
/// to the same.
pub proof fn law_spacing_does_not_matter(
    first: Seq<char>,
    second: Seq<char>,
    env: Map<Seq<char>, Number>,
)
    requires
        parse_input(first) is Ok,
        parse_input(second) is Ok,
        alike(parse_input(first)->Ok_0[0], parse_input(second)->Ok_0[0]),
    ensures
        same_outcome(evaluation(first, env), evaluation(second, env)),
{
    lemma_alike_value(parse_input(first)->Ok_0[0], parse_input(second)->Ok_0[0], env);
}

} // verus!
