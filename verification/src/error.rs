//! The errors that the library returns.

use vstd::prelude::*;

verus! {

/// A failure to build a value from text.
#[derive(Debug)]
pub enum DataError {
    /// `value` could not be read as a `type_label`.
    StringConversionError { value: String, type_label: String },
}

/// The mathematical content of a `DataError`.
pub ghost enum DataFailure {
    StringConversionError { value: Seq<char>, type_label: Seq<char> },
}

impl View for DataError {
    type V = DataFailure;

    open spec fn view(&self) -> DataFailure {
        match self {
            DataError::StringConversionError { value, type_label } => {
                DataFailure::StringConversionError { value: value@, type_label: type_label@ }
            },
        }
    }
}

/// A failure to evaluate an expression.
#[derive(Debug)]
pub enum ExpressionError {
    /// The text is not an expression of the grammar.
    ParseError { message: String },
    /// An operator could not be applied to its operands.
    EvaluationError { expression: String },
    /// The expression names a variable that has no value.
    UndefinedVariable { name: String },
    /// The parse tree does not have the shape that the grammar gives it.
    UnexpectedAbstractSyntaxTree,
}

/// The mathematical content of an `ExpressionError`.
pub ghost enum Failure {
    ParseError { message: Seq<char> },
    EvaluationError { expression: Seq<char> },
    UndefinedVariable { name: Seq<char> },
    UnexpectedAbstractSyntaxTree,
}

impl View for ExpressionError {
    type V = Failure;

    open spec fn view(&self) -> Failure {
        match self {
            ExpressionError::ParseError { message } => Failure::ParseError { message: message@ },
            ExpressionError::EvaluationError { expression } => Failure::EvaluationError {
                expression: expression@,
            },
            ExpressionError::UndefinedVariable { name } => Failure::UndefinedVariable {
                name: name@,
            },
            ExpressionError::UnexpectedAbstractSyntaxTree => Failure::UnexpectedAbstractSyntaxTree,
        }
    }
}

/// An evaluation failure that carries only a message.
#[derive(Debug)]
pub struct EvaluationError {
    message: String,
}

impl View for EvaluationError {
    type V = Seq<char>;

    closed spec fn view(&self) -> Seq<char> {
        self.message@
    }
}

impl EvaluationError {
    /// An error with the given message.
    pub fn new(message: &str) -> (r: Self)
        ensures
            r@ == message@,
    {
        Self { message: message.to_owned() }
    }

    /// The message that the error was made with.
    pub fn message(&self) -> (r: &str)
        ensures
            r@ == self@,
    {
        self.message.as_str()
    }
}

} // verus!
