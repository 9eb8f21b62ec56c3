//! The shapes of numeric literals and the integers that their digits denote.

use vstd::prelude::*;

verus! {

/// `'0'` to `'9'`.
pub open spec fn is_digit(c: char) -> bool {
    '0' <= c && c <= '9'
}

/// The number that a digit character stands for.
pub open spec fn digit_value(c: char) -> nat {
    (c as nat - '0' as nat) as nat
}

/// Every character of `text` is a digit.
pub open spec fn all_digits(text: Seq<char>) -> bool {
    forall|i: int| 0 <= i < text.len() ==> is_digit(#[trigger] text[i])
}

/// The natural number written by a run of digits, most significant first.
pub open spec fn digits_value(text: Seq<char>) -> nat
    decreases text.len(),
{
    if text.len() == 0 {
        0
    } else {
        digits_value(text.drop_last()) * 10 + digit_value(text.last())
    }
}

/// Whether `text` starts with a minus sign.
pub open spec fn has_sign(text: Seq<char>) -> bool {
    text.len() > 0 && text[0] == '-'
}

/// `text` without its leading minus sign, if it has one.
pub open spec fn unsigned_part(text: Seq<char>) -> Seq<char> {
    if has_sign(text) {
        text.skip(1)
    } else {
        text
    }
}

/// An optional `-` followed by one or more digits.
pub open spec fn is_integer_literal(text: Seq<char>) -> bool {
    unsigned_part(text).len() > 0 && all_digits(unsigned_part(text))
}

/// The integer that an integer literal denotes.
pub open spec fn integer_literal_value(text: Seq<char>) -> int {
    if has_sign(text) {
        -(digits_value(unsigned_part(text)) as int)
    } else {
        digits_value(unsigned_part(text)) as int
    }
}

/// An optional `-`, one or more digits, a `.`, and one or more digits.
pub open spec fn is_decimal_literal(text: Seq<char>) -> bool {
    exists|dot: int|
        0 < dot < unsigned_part(text).len() - 1 && #[trigger] splits_at_dot(
            unsigned_part(text),
            dot,
        )
}

/// `text` is digits, a `.` at index `dot`, and digits.
pub open spec fn splits_at_dot(text: Seq<char>, dot: int) -> bool {
    &&& 0 <= dot < text.len()
    &&& text[dot] == '.'
    &&& all_digits(text.subrange(0, dot))
    &&& all_digits(text.subrange(dot + 1, text.len() as int))
}

} // verus!
