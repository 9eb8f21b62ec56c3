//! A parse tree as text, for tools and tests:
//! `rule(start, end)` for a node without children and
//! `rule(start, end, [child, child])` for one with.

use crate::grammar::{nodes_of, syntax_message, ExpressionParser, Node, Pair, Rule};
use crate::text::{concat, decimal_digits, decimal_text};
use std::collections::HashMap;
use vstd::prelude::*;

verus! {

/// The name of a rule.
pub open spec fn rule_name(rule: Rule) -> Seq<char> {
    match rule {
        Rule::input => "input"@,
        Rule::expression => "expression"@,
        Rule::parenthesized => "parenthesized"@,
        Rule::integer => "integer"@,
        Rule::decimal => "decimal"@,
        Rule::variable_name => "variable_name"@,
        Rule::addition => "addition"@,
        Rule::subtraction => "subtraction"@,
        Rule::multiplication => "multiplication"@,
        Rule::division => "division"@,
        Rule::EOI => "EOI"@,
    }
}

/// A node as text.
pub open spec fn rendered(node: Node) -> Seq<char>
    decreases node,
{
    rule_name(node.rule) + "("@ + decimal_digits(node.start as nat) + ", "@ + decimal_digits(
        node.end as nat,
    ) + if node.children.len() == 0 {
        ")"@
    } else {
        ", ["@ + rendered_all(node.children) + "])"@
    }
}

/// Nodes as text, with `, ` between them.
pub open spec fn rendered_all(nodes: Seq<Node>) -> Seq<char>
    decreases nodes, 1int,
{
    if nodes.len() == 0 {
        Seq::empty()
    } else {
        rendered(nodes[0]) + rendered_rest(nodes.skip(1))
    }
}

/// Nodes as text, with `, ` before each.
pub open spec fn rendered_rest(nodes: Seq<Node>) -> Seq<char>
    decreases nodes, 0int,
{
    if nodes.len() == 0 {
        Seq::empty()
    } else {
        ", "@ + rendered(nodes[0]) + rendered_rest(nodes.skip(1))
    }
}

/// What `evaluate_expression` says of a text: the top of its parse tree in
/// brackets, or `Error: ` and what is wrong with it.
pub open spec fn expression_report(text: Seq<char>) -> Result<Seq<char>, Seq<char>> {
    match crate::grammar::parse_input(text) {
        Ok(nodes) => Ok("["@ + rendered_all(nodes) + "]"@),
        Err(position) => Err("Error: "@ + syntax_message(position)),
    }
}

/// The name of a rule.
pub fn name_of(rule: Rule) -> (r: &'static str)
    ensures
        r@ == rule_name(rule),
{
    match rule {
        Rule::input => "input",
        Rule::expression => "expression",
        Rule::parenthesized => "parenthesized",
        Rule::integer => "integer",
        Rule::decimal => "decimal",
        Rule::variable_name => "variable_name",
        Rule::addition => "addition",
        Rule::subtraction => "subtraction",
        Rule::multiplication => "multiplication",
        Rule::division => "division",
        Rule::EOI => "EOI",
    }
}

/// Pairs as text, with `, ` between them.
pub fn render_all(pairs: &Vec<Pair>) -> (r: String)
    ensures
        r@ == rendered_all(nodes_of(pairs@)),
    decreases nodes_of(pairs@), 0int,
{
    let ghost nodes = nodes_of(pairs@);
    if pairs.len() == 0 {
        return String::new();
    }
    assert(pairs[0]@ == nodes[0]);
    let mut out = render(&pairs[0]);
    let mut at: usize = 1;
    assert(nodes.skip(1) =~= nodes.skip(at as int));
    while at < pairs.len()
        invariant
            1 <= at <= pairs.len(),
            nodes == nodes_of(pairs@),
            out@ + rendered_rest(nodes.skip(at as int)) == rendered_all(nodes),
        decreases pairs.len() - at,
    {
        let ghost before = out@;
        let ghost rest = nodes.skip(at as int);
        assert(pairs[at as int]@ == nodes[at as int]);
        let next = render(&pairs[at]);
        let separated = concat(out.as_str(), ", ");
        out = concat(separated.as_str(), next.as_str());
        assert(rest.skip(1) =~= nodes.skip(at + 1));
        assert(rest[0] == nodes[at as int]);
        assert(out@ + rendered_rest(rest.skip(1)) =~= before + rendered_rest(rest));
        at += 1;
    }
    assert(rendered_rest(nodes.skip(at as int)) =~= Seq::<char>::empty());
    assert(out@ =~= out@ + Seq::<char>::empty());
    out
}

/// A pair as text.
pub fn render(pair: &Pair) -> (r: String)
    ensures
        r@ == rendered(pair@),
    decreases pair@, 1int,
{
    let start = decimal_text(pair.start());
    let end = decimal_text(pair.end());
    let opened = concat(name_of(pair.as_rule()), "(");
    let from = concat(opened.as_str(), start.as_str());
    let comma = concat(from.as_str(), ", ");
    let span = concat(comma.as_str(), end.as_str());
    let inner = pair.inner();
    if inner.len() == 0 {
        let r = concat(span.as_str(), ")");
        assert(r@ =~= rendered(pair@));
        r
    } else {
        let children = render_all(inner);
        let bracket = concat(span.as_str(), ", [");
        let filled = concat(bracket.as_str(), children.as_str());
        let r = concat(filled.as_str(), "])");
        assert(r@ =~= rendered(pair@));
        r
    }
}

/// Parses `input` and reports the parse tree, or what is wrong with the
/// text. The variables play no part.
pub fn evaluate_expression(input: &str, variables: HashMap<String, String>) -> (r: Result<
    String,
    String,
>)
    ensures
        match r {
            Ok(report) => expression_report(input@) == Ok::<Seq<char>, Seq<char>>(report@),
            Err(report) => expression_report(input@) == Err::<Seq<char>, Seq<char>>(report@),
        },
{
    match ExpressionParser::parse(Rule::input, input) {
        Ok(pairs) => {
            let body = render_all(pairs.pairs());
            let opened = concat("[", body.as_str());
            Ok(concat(opened.as_str(), "]"))
        },
        Err(error) => {
            let message = error.message();
            Err(concat("Error: ", message.as_str()))
        },
    }
}

} // verus!
