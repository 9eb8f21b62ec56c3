//! The four binary operators.

use vstd::prelude::*;

verus! {

/// A binary arithmetic operator.
#[derive(Clone, Copy, Debug, PartialEq, Eq, Structural)]
pub enum Operator {
    Addition,
    Subtraction,
    Multiplication,
    Division,
}

impl Operator {
    /// Binding strength: 2 for `*` and `/`, 1 for `+` and `-`.
    pub open spec fn precedence(self) -> nat {
        match self {
            Operator::Multiplication | Operator::Division => 2,
            Operator::Addition | Operator::Subtraction => 1,
        }
    }
}

} // verus!
