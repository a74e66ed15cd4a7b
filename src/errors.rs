//! The failures that parsing and evaluation report.
use vstd::prelude::*;

use crate::ast::BinaryOperator;
use crate::interpret::Value;

verus! {

/// Every way in which parsing or evaluating a program can fail.
#[derive(Debug, Clone, PartialEq, Eq)]
pub enum Error {
    /// The source text is not a program; holds the text.
    Parsing(String),
    /// A boolean literal of a form the language does not know.
    Boolean(String),
    /// An operator the language does not know; holds its spelling.
    Operator(String),
    /// The operator does not apply to operands of the named kind.
    OperatorType(String, BinaryOperator),
    /// The two operands of a binary operator have different kinds.
    TypeError(Value, Value),
    /// A value of the wrong kind where the named kind was expected.
    UnexpectedType(Value, String),
    /// A variable read before any `let` bound it.
    UndeclaredVar(String),
    /// An integer division whose divisor is zero.
    DivisionByZero,
    /// An integer operation whose result does not fit in 64 bits.
    Overflow,
}

/// The mathematical value of an [`Error`].
pub ghost enum ErrorModel {
    Parsing(Seq<char>),
    Boolean(Seq<char>),
    Operator(Seq<char>),
    OperatorType(Seq<char>, BinaryOperator),
    TypeError(Value, Value),
    UnexpectedType(Value, Seq<char>),
    UndeclaredVar(Seq<char>),
    DivisionByZero,
    Overflow,
}

impl View for Error {
    type V = ErrorModel;

    open spec fn view(&self) -> ErrorModel {
        match self {
            Error::Parsing(s) => ErrorModel::Parsing(s@),
            Error::Boolean(s) => ErrorModel::Boolean(s@),
            Error::Operator(s) => ErrorModel::Operator(s@),
            Error::OperatorType(s, op) => ErrorModel::OperatorType(s@, *op),
            Error::TypeError(a, b) => ErrorModel::TypeError(*a, *b),
            Error::UnexpectedType(v, s) => ErrorModel::UnexpectedType(*v, s@),
            Error::UndeclaredVar(s) => ErrorModel::UndeclaredVar(s@),
            Error::DivisionByZero => ErrorModel::DivisionByZero,
            Error::Overflow => ErrorModel::Overflow,
        }
    }
}

} // verus!
