//! The grammar as a relation between a text and a tree, and the proof that
//! the parser yields exactly the trees of the relation.
//!
//! A tree is a derivation of a text when every node spans the text that it
//! holds, every literal and name is a longest run of its characters, an
//! expression holds operands and operators in turn with nothing but spaces
//! between them and goes on as long as an operator follows, and parentheses
//! enclose one expression.

use crate::grammar::{
    chain_well_formed, digits_start, is_letter, is_name, is_space, leaf, lemma_run_end,
    operator_rule, parse_chain, parse_expression, parse_input, parse_operand, run_end,
    well_formed, CharClass, Node, Rule,
};
use crate::literal::{
    has_sign, is_decimal_literal, is_digit, is_integer_literal, splits_at_dot, unsigned_part,
};
use vstd::prelude::*;

verus! {

/// Nothing but spaces stands in `from..to`.
pub open spec fn only_spaces(text: Seq<char>, from: int, to: int) -> bool {
    0 <= from <= to <= text.len() && forall|i: int| from <= i < to ==> is_space(#[trigger] text[i])
}

/// No character of `class` stands at `at`.
pub open spec fn none_at(text: Seq<char>, at: int, class: CharClass) -> bool {
    !(0 <= at < text.len()) || !class.spec_holds(text[at])
}

/// No operator stands at `at`.
pub open spec fn no_operator_at(text: Seq<char>, at: int) -> bool {
    !(0 <= at < text.len()) || operator_rule(text[at]) is None
}

/// A `.` and a digit stand at `at`: a number that ends here is the whole
/// part of a decimal.
pub open spec fn fraction_at(text: Seq<char>, at: int) -> bool {
    0 <= at && at + 1 < text.len() && text[at] == '.' && is_digit(text[at + 1])
}

/// `node` is the one-character node of the operator that stands at its start.
pub open spec fn is_operator_node(text: Seq<char>, node: Node) -> bool {
    &&& 0 <= node.start < text.len()
    &&& operator_rule(text[node.start]) is Some
    &&& node == leaf(text, operator_rule(text[node.start])->0, node.start, node.start + 1)
}

/// `node` is a derivation of the part of `text` that it spans, as an operand
/// or as an expression.
pub open spec fn derives(text: Seq<char>, node: Node) -> bool
    decreases node,
{
    &&& 0 <= node.start < node.end <= text.len()
    &&& node.text == text.subrange(node.start, node.end)
    &&& match node.rule {
        Rule::integer => {
            &&& node.children.len() == 0
            &&& is_integer_literal(node.text)
            &&& none_at(text, node.end, CharClass::Digit)
            &&& !fraction_at(text, node.end)
        },
        Rule::decimal => {
            &&& node.children.len() == 0
            &&& is_decimal_literal(node.text)
            &&& none_at(text, node.end, CharClass::Digit)
        },
        Rule::variable_name => {
            &&& node.children.len() == 0
            &&& is_name(node.text)
            &&& none_at(text, node.end, CharClass::Name)
        },
        Rule::parenthesized => {
            &&& node.children.len() == 1
            &&& node.children[0].rule == Rule::expression
            &&& derives(text, node.children[0])
            &&& text[node.start] == '('
            &&& only_spaces(text, node.start + 1, node.children[0].start)
            &&& node.children[0].end + 1 == node.end
            &&& text[node.children[0].end] == ')'
        },
        Rule::expression => {
            &&& derives_chain(text, node.children)
            &&& node.children[0].start == node.start
            &&& only_spaces(text, node.children.last().end, node.end)
            &&& none_at(text, node.end, CharClass::Space)
            &&& no_operator_at(text, node.end)
        },
        _ => false,
    }
}

/// `children` are operands and operators in turn, each operand a derivation,
/// with nothing but spaces between one and the next.
pub open spec fn derives_chain(text: Seq<char>, children: Seq<Node>) -> bool
    decreases children,
{
    &&& children.len() % 2 == 1
    &&& forall|k: int|
        0 <= k < children.len() ==> if k % 2 == 0 {
            (#[trigger] children[k]).rule.is_operand() && derives(text, children[k])
        } else {
            is_operator_node(text, children[k])
        }
    &&& forall|k: int| 0 <= k < children.len() - 1 ==> #[trigger] spaced(text, children, k)
}

/// Nothing but spaces stands between child `k` and the next.
pub open spec fn spaced(text: Seq<char>, children: Seq<Node>, k: int) -> bool {
    only_spaces(text, children[k].end, children[k + 1].start)
}

/// `nodes` are a derivation of the whole of `text`: an expression after
/// nothing but spaces, up to the end, and the end-of-input node.
pub open spec fn derives_input(text: Seq<char>, nodes: Seq<Node>) -> bool {
    &&& nodes.len() == 2
    &&& nodes[0].rule == Rule::expression
    &&& derives(text, nodes[0])
    &&& only_spaces(text, 0, nodes[0].start)
    &&& nodes[0].end == text.len()
    &&& nodes[1] == leaf(text, Rule::EOI, text.len() as int, text.len() as int)
}

/// The text from a number's start to the end of its digits is an integer
/// literal.
proof fn lemma_integer_text(text: Seq<char>, at: int)
    requires
        0 <= at < text.len(),
        run_end(text, digits_start(text, at), CharClass::Digit) > digits_start(text, at),
    ensures
        is_integer_literal(
            text.subrange(at, run_end(text, digits_start(text, at), CharClass::Digit)),
        ),
{
    let first = digits_start(text, at);
    let end = run_end(text, first, CharClass::Digit);
    lemma_run_end(text, first, CharClass::Digit);
    let literal = text.subrange(at, end);
    let digits = unsigned_part(literal);
    assert(literal[0] == text[at]);
    assert(digits =~= text.subrange(first, end));
    assert forall|i: int| 0 <= i < digits.len() implies is_digit(#[trigger] digits[i]) by {
        assert(digits[i] == text[first + i]);
    }
}

/// The text from a number's start through a `.` to the end of the digits
/// after it is a decimal literal.
proof fn lemma_decimal_text(text: Seq<char>, at: int)
    requires
        0 <= at < text.len(),
        run_end(text, digits_start(text, at), CharClass::Digit) > digits_start(text, at),
        run_end(text, digits_start(text, at), CharClass::Digit) < text.len(),
        text[run_end(text, digits_start(text, at), CharClass::Digit)] == '.',
        run_end(
            text,
            run_end(text, digits_start(text, at), CharClass::Digit) + 1,
            CharClass::Digit,
        ) > run_end(text, digits_start(text, at), CharClass::Digit) + 1,
    ensures
        is_decimal_literal(
            text.subrange(
                at,
                run_end(
                    text,
                    run_end(text, digits_start(text, at), CharClass::Digit) + 1,
                    CharClass::Digit,
                ),
            ),
        ),
{
    let first = digits_start(text, at);
    let whole_end = run_end(text, first, CharClass::Digit);
    let end = run_end(text, whole_end + 1, CharClass::Digit);
    lemma_run_end(text, first, CharClass::Digit);
    lemma_run_end(text, whole_end + 1, CharClass::Digit);
    let literal = text.subrange(at, end);
    let digits = unsigned_part(literal);
    assert(literal[0] == text[at]);
    assert(digits =~= text.subrange(first, end));
    let dot = whole_end - first;
    assert(digits[dot] == '.');
    assert forall|i: int| 0 <= i < dot implies is_digit(
        #[trigger] digits.subrange(0, dot)[i],
    ) by {
        assert(digits.subrange(0, dot)[i] == text[first + i]);
    }
    assert forall|i: int| 0 <= i < digits.len() - dot - 1 implies is_digit(
        #[trigger] digits.subrange(dot + 1, digits.len() as int)[i],
    ) by {
        assert(digits.subrange(dot + 1, digits.len() as int)[i] == text[whole_end + 1 + i]);
    }
    assert(splits_at_dot(digits, dot));
}

/// The text from a letter to the end of the name characters after it is a
/// name.
proof fn lemma_name_text(text: Seq<char>, at: int)
    requires
        0 <= at < text.len(),
        is_letter(text[at]),
    ensures
        is_name(text.subrange(at, run_end(text, at + 1, CharClass::Name))),
{
    let end = run_end(text, at + 1, CharClass::Name);
    lemma_run_end(text, at + 1, CharClass::Name);
    let name = text.subrange(at, end);
    assert forall|i: int| 0 <= i < name.len() implies CharClass::Name.spec_holds(
        #[trigger] name[i],
    ) by {
        assert(name[i] == text[at + i]);
    }
}

/// An operand that the parser reads at `at` is a derivation that starts at
/// `at`.
pub proof fn lemma_operand_is_derived(text: Seq<char>, at: int)
    requires
        parse_operand(text, at) is Ok,
    ensures
        derives(text, parse_operand(text, at)->Ok_0),
        parse_operand(text, at)->Ok_0.rule.is_operand(),
        parse_operand(text, at)->Ok_0.start == at,
    decreases text.len() - at, 0int,
{
    reveal_with_fuel(derives, 2);
    if text[at] == '(' {
        lemma_run_end(text, at + 1, CharClass::Space);
        lemma_expression_is_derived(text, run_end(text, at + 1, CharClass::Space));
    } else if is_letter(text[at]) {
        lemma_run_end(text, at + 1, CharClass::Name);
        lemma_name_text(text, at);
    } else {
        let whole_end = run_end(text, digits_start(text, at), CharClass::Digit);
        let fraction_end = run_end(text, whole_end + 1, CharClass::Digit);
        lemma_run_end(text, digits_start(text, at), CharClass::Digit);
        if whole_end < text.len() && text[whole_end] == '.' && fraction_end > whole_end + 1 {
            lemma_run_end(text, whole_end + 1, CharClass::Digit);
            lemma_decimal_text(text, at);
        } else {
            lemma_integer_text(text, at);
            if fraction_at(text, whole_end) {
                lemma_run_end(text, whole_end + 2, CharClass::Digit);
                assert(fraction_end == run_end(text, whole_end + 2, CharClass::Digit));
            }
        }
    }
}

/// An expression that the parser reads at `at` is a derivation that starts
/// at `at`.
pub proof fn lemma_expression_is_derived(text: Seq<char>, at: int)
    requires
        parse_expression(text, at) is Ok,
    ensures
        derives(text, parse_expression(text, at)->Ok_0),
        parse_expression(text, at)->Ok_0.rule == Rule::expression,
        parse_expression(text, at)->Ok_0.start == at,
    decreases text.len() - at, 2int,
{
    reveal_with_fuel(derives, 2);
    reveal_with_fuel(derives_chain, 2);
    lemma_operand_is_derived(text, at);
    let first = parse_operand(text, at)->Ok_0;
    assert(derives_chain(text, seq![first]));
    lemma_chain_is_derived(text, first.end, seq![first]);
}

/// Where the parser goes on from a chain of derived children, it ends with a
/// chain of derived children that starts with the same, followed by nothing
/// but spaces up to a place where neither a space nor an operator stands.
pub proof fn lemma_chain_is_derived(text: Seq<char>, at: int, children: Seq<Node>)
    requires
        derives_chain(text, children),
        children.last().end == at,
        parse_chain(text, at, children) is Ok,
    ensures
        derives_chain(text, parse_chain(text, at, children)->Ok_0.0),
        parse_chain(text, at, children)->Ok_0.0[0] == children[0],
        only_spaces(
            text,
            parse_chain(text, at, children)->Ok_0.0.last().end,
            parse_chain(text, at, children)->Ok_0.1,
        ),
        none_at(text, parse_chain(text, at, children)->Ok_0.1, CharClass::Space),
        no_operator_at(text, parse_chain(text, at, children)->Ok_0.1),
        at <= parse_chain(text, at, children)->Ok_0.1,
    decreases text.len() - at, 1int,
{
    let operator_at = run_end(text, at, CharClass::Space);
    let operand_at = run_end(text, operator_at + 1, CharClass::Space);
    assert(derives(text, children[children.len() - 1]));
    lemma_run_end(text, at, CharClass::Space);
    if 0 <= operator_at < text.len() && operator_rule(text[operator_at]) is Some {
        lemma_run_end(text, operator_at + 1, CharClass::Space);
        lemma_operand_is_derived(text, operand_at);
        let operand = parse_operand(text, operand_at)->Ok_0;
        let operator = leaf(
            text,
            operator_rule(text[operator_at])->0,
            operator_at,
            operator_at + 1,
        );
        let longer = children.push(operator).push(operand);
        assert(is_operator_node(text, operator));
        assert forall|k: int| 0 <= k < longer.len() implies if k % 2 == 0 {
            (#[trigger] longer[k]).rule.is_operand() && derives(text, longer[k])
        } else {
            is_operator_node(text, longer[k])
        } by {
            if k < children.len() {
                assert(longer[k] == children[k]);
            }
        }
        assert forall|k: int| 0 <= k < longer.len() - 1 implies #[trigger] spaced(
            text,
            longer,
            k,
        ) by {
            if k < children.len() - 1 {
                assert(spaced(text, children, k));
                assert(longer[k] == children[k]);
                assert(longer[k + 1] == children[k + 1]);
            }
        }
        assert(derives_chain(text, longer));
        lemma_chain_is_derived(text, operand.end, longer);
        assert(longer[0] == children[0]);
    }
}

/// What the parser yields for a text is a derivation of the text.
pub proof fn lemma_parse_is_derived(text: Seq<char>)
    requires
        parse_input(text) is Ok,
    ensures
        derives_input(text, parse_input(text)->Ok_0),
{
    lemma_run_end(text, 0, CharClass::Space);
    lemma_expression_is_derived(text, run_end(text, 0, CharClass::Space));
}

/// A derivation is well formed.
pub proof fn lemma_derived_is_well_formed(text: Seq<char>, node: Node)
    requires
        derives(text, node),
    ensures
        well_formed(node),
    decreases node,
{
    reveal_with_fuel(derives, 2);
    reveal_with_fuel(derives_chain, 2);
    reveal_with_fuel(well_formed, 2);
    reveal_with_fuel(chain_well_formed, 2);
    if node.rule == Rule::parenthesized {
        lemma_derived_is_well_formed(text, node.children[0]);
    } else if node.rule == Rule::expression {
        let children = node.children;
        assert forall|i: int| 0 <= i < children.len() implies if i % 2 == 0 {
            (#[trigger] children[i]).rule.is_operand() && well_formed(children[i])
        } else {
            children[i].rule.spec_operator() is Some
        } by {
            if i % 2 == 0 {
                lemma_derived_is_well_formed(text, children[i]);
            } else {
                assert(is_operator_node(text, children[i]));
            }
        }
    }
}

/// A run of characters of one class that is followed by none of the class
/// is the longest run from its start.
proof fn lemma_run_is_longest(text: Seq<char>, from: int, to: int, class: CharClass)
    requires
        0 <= from <= to <= text.len(),
        forall|i: int| from <= i < to ==> class.spec_holds(#[trigger] text[i]),
        none_at(text, to, class),
    ensures
        run_end(text, from, class) == to,
    decreases to - from,
{
    if from < to {
        lemma_run_is_longest(text, from + 1, to, class);
    }
}

/// Spaces that are followed by something else are the longest run of spaces
/// from their start.
proof fn lemma_spaces_are_skipped(text: Seq<char>, from: int, to: int)
    requires
        only_spaces(text, from, to),
        none_at(text, to, CharClass::Space),
    ensures
        run_end(text, from, CharClass::Space) == to,
{
    lemma_run_is_longest(text, from, to, CharClass::Space);
}

/// A derivation starts with a character that is not a space.
proof fn lemma_starts_with_no_space(text: Seq<char>, node: Node)
    requires
        derives(text, node),
    ensures
        none_at(text, node.start, CharClass::Space),
    decreases node,
{
    reveal_with_fuel(derives, 2);
    reveal_with_fuel(derives_chain, 2);
    let literal = node.text;
    assert(literal[0] == text[node.start]);
    match node.rule {
        Rule::integer => {
            if !has_sign(literal) {
                assert(is_digit(unsigned_part(literal)[0]));
            }
        },
        Rule::decimal => {
            let digits = unsigned_part(literal);
            let dot = choose|dot: int|
                0 < dot < digits.len() - 1 && #[trigger] splits_at_dot(digits, dot);
            if !has_sign(literal) {
                assert(is_digit(digits.subrange(0, dot)[0]));
            }
        },
        Rule::expression => {
            assert(derives(text, node.children[0]));
            lemma_starts_with_no_space(text, node.children[0]);
        },
        _ => {},
    }
}

/// The parser reads a derived operand where the operand starts.
pub proof fn lemma_derived_operand_is_parsed(text: Seq<char>, node: Node)
    requires
        derives(text, node),
        node.rule.is_operand(),
    ensures
        parse_operand(text, node.start) == Ok::<Node, int>(node),
    decreases node, 0int,
{
    reveal_with_fuel(derives, 2);
    let start = node.start;
    let end = node.end;
    let literal = node.text;
    assert(literal[0] == text[start]);
    match node.rule {
        Rule::integer => {
            let digits = unsigned_part(literal);
            let first = digits_start(text, start);
            if !has_sign(literal) {
                assert(is_digit(digits[0]));
            }
            assert(digits =~= text.subrange(first, end));
            assert forall|i: int| first <= i < end implies CharClass::Digit.spec_holds(
                #[trigger] text[i],
            ) by {
                assert(text[i] == digits[i - first]);
            }
            lemma_run_is_longest(text, first, end, CharClass::Digit);
            if end < text.len() && text[end] == '.' {
                if end + 1 < text.len() {
                    assert(run_end(text, end + 1, CharClass::Digit) == end + 1);
                }
            }
            assert(node.children =~= Seq::<Node>::empty());
        },
        Rule::decimal => {
            let digits = unsigned_part(literal);
            let first = digits_start(text, start);
            let dot = choose|dot: int|
                0 < dot < digits.len() - 1 && #[trigger] splits_at_dot(digits, dot);
            if !has_sign(literal) {
                assert(is_digit(digits.subrange(0, dot)[0]));
            }
            assert(digits =~= text.subrange(first, end));
            assert(text[first + dot] == digits[dot]);
            assert forall|i: int| first <= i < first + dot implies CharClass::Digit.spec_holds(
                #[trigger] text[i],
            ) by {
                assert(text[i] == digits.subrange(0, dot)[i - first]);
            }
            lemma_run_is_longest(text, first, first + dot, CharClass::Digit);
            assert forall|i: int| first + dot + 1 <= i < end implies CharClass::Digit.spec_holds(
                #[trigger] text[i],
            ) by {
                assert(text[i] == digits.subrange(dot + 1, digits.len() as int)[i - first - dot
                    - 1]);
            }
            lemma_run_is_longest(text, first + dot + 1, end, CharClass::Digit);
            assert(node.children =~= Seq::<Node>::empty());
        },
        Rule::variable_name => {
            assert forall|i: int| start + 1 <= i < end implies CharClass::Name.spec_holds(
                #[trigger] text[i],
            ) by {
                assert(text[i] == literal[i - start]);
            }
            lemma_run_is_longest(text, start + 1, end, CharClass::Name);
            assert(node.children =~= Seq::<Node>::empty());
        },
        Rule::parenthesized => {
            let inner = node.children[0];
            lemma_starts_with_no_space(text, inner);
            lemma_spaces_are_skipped(text, start + 1, inner.start);
            lemma_derived_expression_is_parsed(text, inner);
            assert(node.children =~= seq![inner]);
        },
        _ => {},
    }
}

/// The parser reads a derived expression where the expression starts.
pub proof fn lemma_derived_expression_is_parsed(text: Seq<char>, node: Node)
    requires
        derives(text, node),
        node.rule == Rule::expression,
    ensures
        parse_expression(text, node.start) == Ok::<Node, int>(node),
    decreases node, node.children.len() + 1,
{
    reveal_with_fuel(derives, 2);
    reveal_with_fuel(derives_chain, 2);
    let first = node.children[0];
    assert(derives(text, first));
    lemma_derived_operand_is_parsed(text, first);
    assert(node.children.take(1) =~= seq![first]);
    lemma_derived_chain_is_parsed(text, node, 1);
}

/// Having read the first `count` children of a derived expression, the
/// parser reads the rest and ends where the expression ends.
proof fn lemma_derived_chain_is_parsed(text: Seq<char>, node: Node, count: int)
    requires
        derives(text, node),
        node.rule == Rule::expression,
        1 <= count <= node.children.len(),
        count % 2 == 1,
    ensures
        parse_chain(text, node.children[count - 1].end, node.children.take(count)) == Ok::<
            (Seq<Node>, int),
            int,
        >((node.children, node.end)),
    decreases node, node.children.len() - count,
{
    reveal_with_fuel(derives, 2);
    reveal_with_fuel(derives_chain, 2);
    let children = node.children;
    let at = children[count - 1].end;
    assert(derives(text, children[count - 1]));
    if count == children.len() {
        assert(children.take(count) =~= children);
        lemma_spaces_are_skipped(text, at, node.end);
    } else {
        let operator = children[count];
        let operand = children[count + 1];
        assert(is_operator_node(text, operator));
        assert(derives(text, operand) && operand.rule.is_operand());
        assert(spaced(text, children, count - 1));
        assert(spaced(text, children, count));
        lemma_spaces_are_skipped(text, at, operator.start);
        lemma_starts_with_no_space(text, operand);
        lemma_spaces_are_skipped(text, operator.start + 1, operand.start);
        lemma_derived_operand_is_parsed(text, operand);
        assert(children.take(count).push(operator).push(operand) =~= children.take(count + 2));
        lemma_derived_chain_is_parsed(text, node, count + 2);
    }
}

/// The parser yields every derivation of a whole text.
pub proof fn lemma_derivation_is_parsed(text: Seq<char>, nodes: Seq<Node>)
    requires
        derives_input(text, nodes),
    ensures
        parse_input(text) == Ok::<Seq<Node>, int>(nodes),
{
    lemma_starts_with_no_space(text, nodes[0]);
    lemma_spaces_are_skipped(text, 0, nodes[0].start);
    lemma_derived_expression_is_parsed(text, nodes[0]);
    assert(nodes =~= seq![
        nodes[0],
        leaf(text, Rule::EOI, text.len() as int, text.len() as int),
    ]);
}

} // verus!
