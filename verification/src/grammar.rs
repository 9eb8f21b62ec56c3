//! The grammar of arithmetic expressions, as a function from text to parse
//! tree.
//!
//! ```text
//! input         := space* expression end-of-input
//! expression    := operand (space* operator space* operand)* space*
//! operand       := decimal | integer | variable_name | parenthesized
//! parenthesized := "(" space* expression ")"
//! decimal       := "-"? digit+ "." digit+
//! integer       := "-"? digit+
//! variable_name := letter (letter | digit | "_")*
//! operator      := "+" | "-" | "*" | "/"
//! space         := " " | tab
//! ```
//!
//! An expression's span runs from its first operand through the spaces that
//! follow its last one; every other span is exactly its token.

use crate::derivation::{derives_input, lemma_derivation_is_parsed, lemma_parse_is_derived};
use crate::literal::{is_decimal_literal, is_digit, is_integer_literal};
use crate::operator::Operator;
use crate::text::{concat, decimal_digits, decimal_text};
use vstd::prelude::*;
use vstd::string::is_ascii;
use vstd::std_specs::iter::IteratorSpec;

verus! {

/// The kinds of node in a parse tree.
#[allow(non_camel_case_types)]
#[derive(Clone, Copy, Debug, PartialEq, Eq, Structural)]
pub enum Rule {
    /// The whole input: an expression and the end of input.
    input,
    /// Operands separated by operators.
    expression,
    /// An expression in parentheses.
    parenthesized,
    /// An integer literal.
    integer,
    /// A decimal literal.
    decimal,
    /// The name of a variable.
    variable_name,
    /// `+`
    addition,
    /// `-`
    subtraction,
    /// `*`
    multiplication,
    /// `/`
    division,
    /// The end of the input.
    EOI,
}

impl Rule {
    /// The operator that a rule stands for, if it is one.
    pub open spec fn spec_operator(self) -> Option<Operator> {
        match self {
            Rule::addition => Some(Operator::Addition),
            Rule::subtraction => Some(Operator::Subtraction),
            Rule::multiplication => Some(Operator::Multiplication),
            Rule::division => Some(Operator::Division),
            _ => None,
        }
    }

    /// The operator that a rule stands for, if it is one.
    pub fn operator(self) -> (r: Option<Operator>)
        ensures
            r == self.spec_operator(),
    {
        match self {
            Rule::addition => Some(Operator::Addition),
            Rule::subtraction => Some(Operator::Subtraction),
            Rule::multiplication => Some(Operator::Multiplication),
            Rule::division => Some(Operator::Division),
            _ => None,
        }
    }

    /// Whether a node of this rule can stand as an operand.
    pub open spec fn is_operand(self) -> bool {
        self == Rule::integer || self == Rule::decimal || self == Rule::variable_name || self
            == Rule::parenthesized
    }
}

/// A class of characters that a token is a run of.
#[derive(Clone, Copy, Debug, PartialEq, Eq, Structural)]
pub enum CharClass {
    /// A space or a tab.
    Space,
    /// `0` to `9`.
    Digit,
    /// A letter, a digit or an underscore.
    Name,
}

/// A space or a tab. A newline is not a space.
pub open spec fn is_space(c: char) -> bool {
    c == ' ' || c == '\t'
}

/// An ASCII letter.
pub open spec fn is_letter(c: char) -> bool {
    ('a' <= c && c <= 'z') || ('A' <= c && c <= 'Z')
}

impl CharClass {
    /// Whether `c` belongs to the class.
    pub open spec fn spec_holds(self, c: char) -> bool {
        match self {
            CharClass::Space => is_space(c),
            CharClass::Digit => is_digit(c),
            CharClass::Name => is_letter(c) || is_digit(c) || c == '_',
        }
    }

    /// Whether `c` belongs to the class.
    pub fn holds(self, c: char) -> (r: bool)
        ensures
            r == self.spec_holds(c),
    {
        match self {
            CharClass::Space => c == ' ' || c == '\t',
            CharClass::Digit => '0' <= c && c <= '9',
            CharClass::Name => ('a' <= c && c <= 'z') || ('A' <= c && c <= 'Z') || ('0' <= c && c
                <= '9') || c == '_',
        }
    }
}

/// The operator that a character writes, if it writes one.
pub open spec fn operator_rule(c: char) -> Option<Rule> {
    if c == '+' {
        Some(Rule::addition)
    } else if c == '-' {
        Some(Rule::subtraction)
    } else if c == '*' {
        Some(Rule::multiplication)
    } else if c == '/' {
        Some(Rule::division)
    } else {
        None
    }
}

/// The end of the longest run of `class` that starts at `from`.
pub open spec fn run_end(text: Seq<char>, from: int, class: CharClass) -> int
    decreases text.len() - from,
{
    if 0 <= from < text.len() && class.spec_holds(text[from]) {
        run_end(text, from + 1, class)
    } else {
        from
    }
}

/// A run ends at or after its start, within the text, on a character that is
/// not of the class; all before it are of the class.
pub proof fn lemma_run_end(text: Seq<char>, from: int, class: CharClass)
    requires
        0 <= from <= text.len(),
    ensures
        from <= run_end(text, from, class) <= text.len(),
        run_end(text, from, class) < text.len() ==> !class.spec_holds(
            text[run_end(text, from, class)],
        ),
        forall|i: int|
            from <= i < run_end(text, from, class) ==> class.spec_holds(#[trigger] text[i]),
    decreases text.len() - from,
{
    if from < text.len() && class.spec_holds(text[from]) {
        lemma_run_end(text, from + 1, class);
    }
}

/// The end of the longest run of `class` that starts at `from`.
pub fn scan(text: &Vec<char>, from: usize, class: CharClass) -> (end: usize)
    requires
        from <= text.len(),
    ensures
        end == run_end(text@, from as int, class),
        from <= end <= text.len(),
{
    let mut at: usize = from;
    while at < text.len() && class.holds(text[at])
        invariant
            from <= at <= text.len(),
            run_end(text@, from as int, class) == run_end(text@, at as int, class),
        decreases text.len() - at,
    {
        at += 1;
    }
    at
}

/// A node of a parse tree: its rule, the text that it matched, the span of
/// that text in the input, and the nodes inside it.
pub ghost struct Node {
    pub rule: Rule,
    pub text: Seq<char>,
    pub start: int,
    pub end: int,
    pub children: Seq<Node>,
}

/// The node without children that spans `start..end` of `text`.
pub open spec fn leaf(text: Seq<char>, rule: Rule, start: int, end: int) -> Node {
    Node { rule, text: text.subrange(start, end), start, end, children: Seq::empty() }
}

/// The node with `children` that spans `start..end` of `text`.
pub open spec fn branch(
    text: Seq<char>,
    rule: Rule,
    start: int,
    end: int,
    children: Seq<Node>,
) -> Node {
    Node { rule, text: text.subrange(start, end), start, end, children }
}

/// Whether a node that was read at `at` ends after `at` and within the text.
pub open spec fn advances(text: Seq<char>, at: int, node: Node) -> bool {
    at < node.end <= text.len()
}

/// Where the digits of a number at `at` start: after its sign, if it has one.
pub open spec fn digits_start(text: Seq<char>, at: int) -> int {
    if 0 <= at < text.len() && text[at] == '-' {
        at + 1
    } else {
        at
    }
}

/// The operand that starts at `at`, or the position at which none could be
/// read. A number is a decimal where a `.` and a digit follow its digits.
pub open spec fn parse_operand(text: Seq<char>, at: int) -> Result<Node, int>
    decreases text.len() - at, 0int,
{
    if !(0 <= at < text.len()) {
        Err(at)
    } else if text[at] == '(' {
        proof {
            lemma_run_end(text, at + 1, CharClass::Space);
        }
        match parse_expression(text, run_end(text, at + 1, CharClass::Space)) {
            Err(position) => Err(position),
            Ok(inner) => if 0 <= inner.end < text.len() && text[inner.end] == ')' {
                Ok(branch(text, Rule::parenthesized, at, inner.end + 1, seq![inner]))
            } else {
                Err(inner.end)
            },
        }
    } else if is_letter(text[at]) {
        Ok(leaf(text, Rule::variable_name, at, run_end(text, at + 1, CharClass::Name)))
    } else {
        let whole_end = run_end(text, digits_start(text, at), CharClass::Digit);
        let fraction_end = run_end(text, whole_end + 1, CharClass::Digit);
        if whole_end == digits_start(text, at) {
            Err(whole_end)
        } else if 0 <= whole_end < text.len() && text[whole_end] == '.' && fraction_end
            > whole_end + 1 {
            Ok(leaf(text, Rule::decimal, at, fraction_end))
        } else {
            Ok(leaf(text, Rule::integer, at, whole_end))
        }
    }
}

/// The expression that starts at `at`, or the position at which the text
/// stopped being one. (An operand always ends after its start and within the
/// text; the test on that only shows that the definition comes to an end.)
pub open spec fn parse_expression(text: Seq<char>, at: int) -> Result<Node, int>
    decreases text.len() - at, 2int,
{
    if !(0 <= at <= text.len()) {
        Err(at)
    } else {
        match parse_operand(text, at) {
            Err(position) => Err(position),
            Ok(first) => if !advances(text, at, first) {
                Err(at)
            } else {
                match parse_chain(text, first.end, seq![first]) {
                    Err(position) => Err(position),
                    Ok((children, end)) => Ok(branch(text, Rule::expression, at, end, children)),
                }
            },
        }
    }
}

/// Continues an expression that has read `children` up to `at`: any number of
/// operator and operand, then spaces. Gives all the children and the end of
/// the expression.
pub open spec fn parse_chain(text: Seq<char>, at: int, children: Seq<Node>) -> Result<
    (Seq<Node>, int),
    int,
>
    decreases text.len() - at, 1int,
{
    if !(0 <= at <= text.len()) {
        Err(at)
    } else {
        let operator_at = run_end(text, at, CharClass::Space);
        let operand_at = run_end(text, operator_at + 1, CharClass::Space);
        if 0 <= operator_at < text.len() && operator_rule(text[operator_at]) is Some {
            proof {
                lemma_run_end(text, at, CharClass::Space);
                lemma_run_end(text, operator_at + 1, CharClass::Space);
            }
            match parse_operand(text, operand_at) {
                Err(position) => Err(position),
                Ok(operand) => if !advances(text, operand_at, operand) {
                    Err(operand_at)
                } else {
                    parse_chain(
                        text,
                        operand.end,
                        children.push(
                            leaf(
                                text,
                                operator_rule(text[operator_at])->0,
                                operator_at,
                                operator_at + 1,
                            ),
                        ).push(operand),
                    )
                },
            }
        } else {
            Ok((children, operator_at))
        }
    }
}

/// Where an operand cannot be read, the position given lies within the
/// text or at its end; so it does for an expression and for what goes on
/// after one.
pub proof fn lemma_failure_position(text: Seq<char>, at: int, children: Seq<Node>)
    requires
        0 <= at <= text.len(),
    ensures
        parse_operand(text, at) matches Err(position) ==> 0 <= position <= text.len(),
        parse_operand(text, at) matches Ok(node) ==> advances(text, at, node),
        parse_expression(text, at) matches Err(position) ==> 0 <= position <= text.len(),
        parse_expression(text, at) matches Ok(node) ==> advances(text, at, node),
        parse_chain(text, at, children) matches Err(position) ==> 0 <= position <= text.len(),
        parse_chain(text, at, children) matches Ok(all) ==> at <= all.1 <= text.len(),
    decreases text.len() - at,
{
    lemma_run_end(text, at, CharClass::Space);
    if at < text.len() {
        lemma_run_end(text, at + 1, CharClass::Space);
        lemma_run_end(text, at + 1, CharClass::Name);
        lemma_run_end(text, digits_start(text, at), CharClass::Digit);
        let whole_end = run_end(text, digits_start(text, at), CharClass::Digit);
        if whole_end < text.len() {
            lemma_run_end(text, whole_end + 1, CharClass::Digit);
        }
        lemma_failure_position(text, run_end(text, at + 1, CharClass::Space), children);
    }
    if let Ok(first) = parse_operand(text, at) {
        lemma_failure_position(text, first.end, seq![first]);
    }
    let operator_at = run_end(text, at, CharClass::Space);
    if operator_at < text.len() {
        lemma_run_end(text, operator_at + 1, CharClass::Space);
        let operand_at = run_end(text, operator_at + 1, CharClass::Space);
        lemma_failure_position(text, operand_at, children);
        if let Ok(operand) = parse_operand(text, operand_at) {
            if operator_rule(text[operator_at]) is Some {
                lemma_failure_position(
                    text,
                    operand.end,
                    children.push(
                        leaf(
                            text,
                            operator_rule(text[operator_at])->0,
                            operator_at,
                            operator_at + 1,
                        ),
                    ).push(operand),
                );
            }
        }
    }
}

/// Where a text does not parse, the position given lies within the text or
/// at its end.
pub proof fn lemma_failure_is_within(text: Seq<char>)
    ensures
        parse_input(text) matches Err(position) ==> 0 <= position <= text.len(),
{
    lemma_run_end(text, 0, CharClass::Space);
    lemma_failure_position(text, run_end(text, 0, CharClass::Space), Seq::empty());
}

/// The parse of a whole input: the expression and the end-of-input node, or
/// the position at which the text stopped conforming to the grammar.
pub open spec fn parse_input(text: Seq<char>) -> Result<Seq<Node>, int> {
    match parse_expression(text, run_end(text, 0, CharClass::Space)) {
        Err(position) => Err(position),
        Ok(expression) => if expression.end == text.len() {
            Ok(seq![expression, leaf(text, Rule::EOI, expression.end, expression.end)])
        } else {
            Err(expression.end)
        },
    }
}

/// A node of a parse tree over the input `'i`.
#[derive(Debug)]
pub struct Pair<'i> {
    rule: Rule,
    text: &'i str,
    start: usize,
    end: usize,
    inner: Vec<Pair<'i>>,
}

impl<'i> Pair<'i> {
    /// The node that the pair stands for.
    pub closed spec fn node(&self) -> Node
        decreases self,
    {
        Node {
            rule: self.rule,
            text: self.text@,
            start: self.start as int,
            end: self.end as int,
            children: Seq::new(
                self.inner@.len(),
                |i: int|
                    if 0 <= i < self.inner@.len() {
                        self.inner@[i].node()
                    } else {
                        arbitrary()
                    },
            ),
        }
    }
}

impl<'i> View for Pair<'i> {
    type V = Node;

    open spec fn view(&self) -> Node {
        self.node()
    }
}

/// The nodes that a sequence of pairs stands for.
pub open spec fn nodes_of(pairs: Seq<Pair>) -> Seq<Node> {
    Seq::new(pairs.len(), |i: int| pairs[i]@)
}

/// The characters of a text, one by one.
fn characters(input: &str) -> (r: Vec<char>)
    ensures
        r@ == input@,
{
    broadcast use vstd::string::group_string_axioms;

    let mut rest = input.chars();
    let mut r: Vec<char> = Vec::new();
    assert(r@ + rest.remaining() =~= input@);
    loop
        invariant
            rest.obeys_prophetic_iter_laws(),
            rest.decrease() is Some,
            r@ + rest.remaining() == input@,
        ensures
            r@ == input@,
        decreases rest.decrease()->0,
    {
        let ghost before = rest.remaining();
        let ghost so_far = r@;
        match rest.next() {
            Some(c) => {
                r.push(c);
                assert(r@ + rest.remaining() =~= so_far + before);
            },
            None => {
                assert(r@ + before =~= r@);
                break;
            },
        }
    }
    r
}

/// The part of `input` between two character positions. `ascii` says that
/// characters and bytes are the same in `input`, so that no decoding is needed.
fn slice<'i>(input: &'i str, ascii: bool, from: usize, to: usize) -> (r: &'i str)
    requires
        from <= to <= input@.len(),
        ascii ==> is_ascii(input),
    ensures
        r@ == input@.subrange(from as int, to as int),
{
    if ascii {
        input.substring_ascii(from, to)
    } else {
        input.substring_char(from, to)
    }
}

impl<'i> Pair<'i> {
    /// The rule that the node was read by.
    pub fn as_rule(&self) -> (r: Rule)
        ensures
            r == self@.rule,
    {
        self.rule
    }

    /// The text that the node matched.
    pub fn as_str(&self) -> (r: &'i str)
        ensures
            r@ == self@.text,
    {
        self.text
    }

    /// The character position at which the node's text starts in the input.
    pub fn start(&self) -> (r: usize)
        ensures
            r == self@.start,
    {
        self.start
    }

    /// The character position at which the node's text ends in the input.
    pub fn end(&self) -> (r: usize)
        ensures
            r == self@.end,
    {
        self.end
    }

    /// The view of a pair holds the views of the pairs inside it.
    proof fn lemma_children(&self)
        ensures
            self@.children == nodes_of(self.inner@),
            self@.rule == self.rule,
            self@.text == self.text@,
            self@.start == self.start,
            self@.end == self.end,
    {
        assert(self@.children.len() == self.inner@.len());
        assert forall|i: int| 0 <= i < self.inner@.len() implies self@.children[i] == nodes_of(
            self.inner@,
        )[i] by {}
        assert(self@.children =~= nodes_of(self.inner@));
    }

    /// The nodes inside this one.
    pub fn inner(&self) -> (r: &Vec<Pair<'i>>)
        ensures
            nodes_of(r@) == self@.children,
    {
        proof {
            self.lemma_children();
        }
        &self.inner
    }

    /// The nodes inside this one.
    pub fn into_inner(self) -> (r: Vec<Pair<'i>>)
        ensures
            nodes_of(r@) == self@.children,
    {
        proof {
            self.lemma_children();
        }
        self.inner
    }
}

/// The operator that a character writes, if it writes one.
fn operator_of(c: char) -> (r: Option<Rule>)
    ensures
        r == operator_rule(c),
{
    if c == '+' {
        Some(Rule::addition)
    } else if c == '-' {
        Some(Rule::subtraction)
    } else if c == '*' {
        Some(Rule::multiplication)
    } else if c == '/' {
        Some(Rule::division)
    } else {
        None
    }
}

/// The pair without children that spans `start..end` of the input.
fn token<'i>(input: &'i str, ascii: bool, rule: Rule, start: usize, end: usize) -> (r: Pair<'i>)
    requires
        start <= end <= input@.len(),
        ascii ==> is_ascii(input),
    ensures
        r@ == leaf(input@, rule, start as int, end as int),
{
    let pair = Pair { rule, text: slice(input, ascii, start, end), start, end, inner: Vec::new() };
    proof {
        pair.lemma_children();
        assert(pair@.children =~= Seq::empty());
    }
    pair
}

/// The pair with `inner` that spans `start..end` of the input.
fn composite<'i>(
    input: &'i str,
    ascii: bool,
    rule: Rule,
    start: usize,
    end: usize,
    inner: Vec<Pair<'i>>,
) -> (r: Pair<'i>)
    requires
        start <= end <= input@.len(),
        ascii ==> is_ascii(input),
    ensures
        r@ == branch(input@, rule, start as int, end as int, nodes_of(inner@)),
{
    let pair = Pair { rule, text: slice(input, ascii, start, end), start, end, inner };
    proof {
        pair.lemma_children();
    }
    pair
}

/// Reads the operand that starts at `at`.
fn read_operand<'i>(input: &'i str, ascii: bool, text: &Vec<char>, at: usize) -> (r: Result<
    Pair<'i>,
    usize,
>)
    requires
        text@ == input@,
        ascii ==> is_ascii(input),
        at <= text.len(),
    ensures
        match r {
            Ok(pair) => parse_operand(text@, at as int) == Ok::<Node, int>(pair@) && advances(
                text@,
                at as int,
                pair@,
            ),
            Err(position) => parse_operand(text@, at as int) == Err::<Node, int>(position as int)
                && position <= text.len(),
        },
    decreases text.len() - at, 0int,
{
    if at >= text.len() {
        return Err(at);
    }
    let c = text[at];
    if c == '(' {
        let inner_at = scan(text, at + 1, CharClass::Space);
        match read_expression(input, ascii, text, inner_at) {
            Err(position) => Err(position),
            Ok(inner) => {
                let close = inner.end();
                if close < text.len() && text[close] == ')' {
                    let mut children: Vec<Pair<'i>> = Vec::new();
                    children.push(inner);
                    assert(nodes_of(children@) =~= seq![inner@]);
                    Ok(composite(input, ascii, Rule::parenthesized, at, close + 1, children))
                } else {
                    Err(close)
                }
            },
        }
    } else if ('a' <= c && c <= 'z') || ('A' <= c && c <= 'Z') {
        let end = scan(text, at + 1, CharClass::Name);
        Ok(token(input, ascii, Rule::variable_name, at, end))
    } else {
        let first_digit: usize = if c == '-' {
            at + 1
        } else {
            at
        };
        let whole_end = scan(text, first_digit, CharClass::Digit);
        if whole_end == first_digit {
            return Err(whole_end);
        }
        if whole_end < text.len() && text[whole_end] == '.' {
            let fraction_end = scan(text, whole_end + 1, CharClass::Digit);
            if fraction_end > whole_end + 1 {
                return Ok(token(input, ascii, Rule::decimal, at, fraction_end));
            }
        }
        Ok(token(input, ascii, Rule::integer, at, whole_end))
    }
}

/// Reads the expression that starts at `at`.
fn read_expression<'i>(
    input: &'i str,
    ascii: bool,
    text: &Vec<char>,
    at: usize,
) -> (r: Result<
    Pair<'i>,
    usize,
>)
    requires
        text@ == input@,
        ascii ==> is_ascii(input),
        at <= text.len(),
    ensures
        match r {
            Ok(pair) => parse_expression(text@, at as int) == Ok::<Node, int>(pair@) && advances(
                text@,
                at as int,
                pair@,
            ),
            Err(position) => parse_expression(text@, at as int) == Err::<Node, int>(
                position as int,
            ) && position <= text.len(),
        },
    decreases text.len() - at, 2int,
{
    let first = match read_operand(input, ascii, text, at) {
        Err(position) => {
            return Err(position);
        },
        Ok(first) => first,
    };
    let ghost first_node = first@;
    let mut end: usize = first.end();
    let mut children: Vec<Pair<'i>> = Vec::new();
    children.push(first);
    assert(nodes_of(children@) =~= seq![first_node]);
    loop
        invariant
            text@ == input@,
            ascii ==> is_ascii(input),
            at < end <= text.len(),
            parse_operand(text@, at as int) == Ok::<Node, int>(first_node),
            advances(text@, at as int, first_node),
            parse_chain(text@, first_node.end, seq![first_node]) == parse_chain(
                text@,
                end as int,
                nodes_of(children@),
            ),
        decreases text.len() - end,
    {
        let operator_at = scan(text, end, CharClass::Space);
        let found: Option<Rule> = if operator_at < text.len() {
            operator_of(text[operator_at])
        } else {
            None
        };
        match found {
            None => {
                return Ok(composite(input, ascii, Rule::expression, at, operator_at, children));
            },
            Some(rule) => {
                let operand_at = scan(text, operator_at + 1, CharClass::Space);
                match read_operand(input, ascii, text, operand_at) {
                    Err(position) => {
                        return Err(position);
                    },
                    Ok(operand) => {
                        let ghost before = nodes_of(children@);
                        let operator = token(input, ascii, rule, operator_at, operator_at + 1);
                        end = operand.end();
                        children.push(operator);
                        children.push(operand);
                        assert(nodes_of(children@) =~= before.push(operator@).push(operand@));
                    },
                }
            },
        }
    }
}

/// The pairs at the top of a parse tree: the expression and the end of input.
#[derive(Debug)]
pub struct Pairs<'i> {
    pairs: Vec<Pair<'i>>,
}

impl<'i> View for Pairs<'i> {
    type V = Seq<Node>;

    closed spec fn view(&self) -> Seq<Node> {
        nodes_of(self.pairs@)
    }
}

/// A text that does not conform to the grammar, and the character position
/// at which it stopped conforming.
#[derive(Debug)]
pub struct SyntaxError {
    pub input: String,
    pub position: usize,
}

/// What is said of a text that stopped conforming at `position`.
pub open spec fn syntax_message(position: int) -> Seq<char> {
    "unexpected input at position "@ + decimal_digits(position as nat)
}

impl SyntaxError {
    /// A sentence that names the position of the error.
    pub fn message(&self) -> (r: String)
        ensures
            r@ == syntax_message(self.position as int),
    {
        let position = decimal_text(self.position);
        concat("unexpected input at position ", position.as_str())
    }
}

/// What parsing from `rule` makes of `text`. Only `Rule::input` starts a parse.
pub open spec fn spec_parse(rule: Rule, text: Seq<char>) -> Result<Seq<Node>, int> {
    if rule == Rule::input {
        parse_input(text)
    } else {
        Err(0)
    }
}

/// The parser of arithmetic expressions.
pub struct ExpressionParser;

impl ExpressionParser {
    /// Parses `input` from `rule`, which must be `Rule::input`. The parse
    /// succeeds exactly when the whole input has a derivation, and then
    /// yields it; else it gives the position at which the input stopped
    /// conforming.
    pub fn parse<'i>(rule: Rule, input: &'i str) -> (r: Result<Pairs<'i>, SyntaxError>)
        ensures
            match r {
                Ok(pairs) => spec_parse(rule, input@) == Ok::<Seq<Node>, int>(pairs@)
                    && derives_input(input@, pairs@),
                Err(error) => spec_parse(rule, input@) == Err::<Seq<Node>, int>(
                    error.position as int,
                ) && error.input@ == input@ && error.position <= input@.len(),
            },
            r is Ok <==> rule == Rule::input && exists|nodes: Seq<Node>| #[trigger]
                derives_input(input@, nodes),
    {
        proof {
            if parse_input(input@) is Ok {
                lemma_parse_is_derived(input@);
            }
            assert forall|nodes: Seq<Node>| #[trigger]
                derives_input(input@, nodes) implies parse_input(input@) is Ok by {
                lemma_derivation_is_parsed(input@, nodes);
            }
        }
        if rule != Rule::input {
            return Err(SyntaxError { input: input.to_owned(), position: 0 });
        }
        let ascii = input.is_ascii();
        let text = characters(input);
        let start = scan(&text, 0, CharClass::Space);
        match read_expression(input, ascii, &text, start) {
            Err(position) => Err(SyntaxError { input: input.to_owned(), position }),
            Ok(expression) => {
                let end = expression.end();
                if end == text.len() {
                    let end_of_input = token(input, ascii, Rule::EOI, end, end);
                    let mut pairs: Vec<Pair<'i>> = Vec::new();
                    pairs.push(expression);
                    pairs.push(end_of_input);
                    assert(nodes_of(pairs@) =~= seq![expression@, end_of_input@]);
                    Ok(Pairs { pairs })
                } else {
                    Err(SyntaxError { input: input.to_owned(), position: end })
                }
            },
        }
    }
}

/// A node and all the nodes under it, each before the nodes inside it.
pub open spec fn preorder(node: Node) -> Seq<Node>
    decreases node,
{
    seq![node] + preorder_all(node.children)
}

/// The nodes of `nodes` and all the nodes under them, in order, each before
/// the nodes inside it.
pub open spec fn preorder_all(nodes: Seq<Node>) -> Seq<Node>
    decreases nodes,
{
    if nodes.len() == 0 {
        Seq::empty()
    } else {
        preorder(nodes[0]) + preorder_all(nodes.skip(1))
    }
}

impl<'i> Clone for Pair<'i> {
    fn clone(&self) -> (r: Self)
        ensures
            r@ == self@,
        decreases self,
    {
        let mut inner: Vec<Pair<'i>> = Vec::new();
        let mut at: usize = 0;
        while at < self.inner.len()
            invariant
                at <= self.inner.len(),
                nodes_of(inner@) == nodes_of(self.inner@).subrange(0, at as int),
            decreases self.inner.len() - at,
        {
            let ghost before = nodes_of(inner@);
            let child = self.inner[at].clone();
            inner.push(child);
            at += 1;
            assert(nodes_of(inner@) =~= before.push(child@));
            assert(nodes_of(inner@) =~= nodes_of(self.inner@).subrange(0, at as int));
        }
        let r = Pair { rule: self.rule, text: self.text, start: self.start, end: self.end, inner };
        proof {
            assert(nodes_of(inner@) =~= nodes_of(self.inner@));
            r.lemma_children();
            self.lemma_children();
        }
        r
    }
}

/// Appends `pair` and all the pairs under it to `out`.
fn flatten_into<'i>(pair: &Pair<'i>, out: &mut Vec<Pair<'i>>)
    ensures
        nodes_of(final(out)@) == nodes_of(old(out)@) + preorder(pair@),
    decreases pair,
{
    let ghost before = nodes_of(out@);
    out.push(pair.clone());
    assert(nodes_of(out@) =~= before + seq![pair@]);
    proof {
        pair.lemma_children();
        assert(pair@.children.skip(0) =~= pair@.children);
        assert(before + seq![pair@] + preorder_all(pair@.children) =~= before + preorder(pair@));
    }
    let mut at: usize = 0;
    while at < pair.inner.len()
        invariant
            at <= pair.inner.len(),
            pair@.children == nodes_of(pair.inner@),
            nodes_of(out@) + preorder_all(pair@.children.skip(at as int)) == before + preorder(
                pair@,
            ),
        decreases pair.inner.len() - at,
    {
        let ghost so_far = nodes_of(out@);
        let ghost rest = pair@.children.skip(at as int);
        flatten_into(&pair.inner[at], out);
        assert(rest.skip(1) =~= pair@.children.skip(at + 1));
        assert(nodes_of(out@) + preorder_all(rest.skip(1)) =~= so_far + preorder_all(rest));
        at += 1;
    }
    assert(preorder_all(pair@.children.skip(at as int)) =~= Seq::<Node>::empty());
    assert(nodes_of(out@) =~= nodes_of(out@) + Seq::<Node>::empty());
}

impl<'i> Pairs<'i> {
    /// The pairs at the top of the tree.
    pub fn pairs(&self) -> (r: &Vec<Pair<'i>>)
        ensures
            nodes_of(r@) == self@,
    {
        &self.pairs
    }

    /// The pairs at the top of the tree.
    pub fn into_pairs(self) -> (r: Vec<Pair<'i>>)
        ensures
            nodes_of(r@) == self@,
    {
        self.pairs
    }

    /// Every pair of the tree, each before the pairs inside it.
    pub fn flatten(self) -> (r: Vec<Pair<'i>>)
        ensures
            nodes_of(r@) == preorder_all(self@),
    {
        let mut out: Vec<Pair<'i>> = Vec::new();
        let mut at: usize = 0;
        assert(nodes_of(out@) =~= Seq::<Node>::empty());
        assert(self@.skip(0) =~= self@);
        assert(nodes_of(out@) + preorder_all(self@) =~= preorder_all(self@));
        while at < self.pairs.len()
            invariant
                at <= self.pairs.len(),
                nodes_of(out@) + preorder_all(self@.skip(at as int)) == preorder_all(self@),
            decreases self.pairs.len() - at,
        {
            let ghost so_far = nodes_of(out@);
            let ghost rest = self@.skip(at as int);
            flatten_into(&self.pairs[at], &mut out);
            assert(rest.skip(1) =~= self@.skip(at + 1));
            assert(nodes_of(out@) + preorder_all(rest.skip(1)) =~= so_far + preorder_all(rest));
            at += 1;
        }
        assert(preorder_all(self@.skip(at as int)) =~= Seq::<Node>::empty());
        assert(nodes_of(out@) =~= nodes_of(out@) + Seq::<Node>::empty());
        out
    }
}

/// Whether a tree has the shape that the grammar gives to an operand or an
/// expression: an expression holds operands and operators in turn, starting
/// and ending with an operand; parentheses hold one expression; a literal or
/// a name holds nothing and its text is of its kind.
pub open spec fn well_formed(node: Node) -> bool
    decreases node,
{
    match node.rule {
        Rule::expression => chain_well_formed(node.children),
        Rule::parenthesized => node.children.len() == 1 && node.children[0].rule
            == Rule::expression && well_formed(node.children[0]),
        Rule::integer => node.children.len() == 0 && is_integer_literal(node.text),
        Rule::decimal => node.children.len() == 0 && is_decimal_literal(node.text),
        Rule::variable_name => node.children.len() == 0 && is_name(node.text),
        _ => false,
    }
}

/// Whether nodes are the children of a well-formed expression: an odd
/// number, well-formed operands at the even places and operators at the odd.
pub open spec fn chain_well_formed(children: Seq<Node>) -> bool
    decreases children,
{
    children.len() % 2 == 1 && forall|i: int|
        0 <= i < children.len() ==> if i % 2 == 0 {
            (#[trigger] children[i]).rule.is_operand() && well_formed(children[i])
        } else {
            children[i].rule.spec_operator() is Some
        }
}

/// A letter followed by letters, digits and underscores.
pub open spec fn is_name(text: Seq<char>) -> bool {
    &&& text.len() > 0
    &&& is_letter(text[0])
    &&& forall|i: int| 0 <= i < text.len() ==> CharClass::Name.spec_holds(#[trigger] text[i])
}

} // verus!
