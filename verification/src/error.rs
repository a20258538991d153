//! The error kinds a run can end with.  Every one is fatal for its run.

use crate::value::{Value, ValueModel};
use vstd::prelude::*;

verus! {

/// The operation named inside a type-mismatch error.
///
/// `Neq` reports under `Eq`, whose result it merely inverts.
#[derive(Debug, Clone, Copy, PartialEq, Eq, Structural)]
pub enum OpKind {
    Add,
    Sub,
    Mul,
    Div,
    Mod,
    Eq,
    Lt,
    Le,
    Gt,
    Ge,
    And,
    Or,
    Not,
    Neg,
}

/// The mathematical image of a [`VmError`].
pub enum ErrorModel {
    UndefinedVariable(Seq<char>),
    StackUnderflow,
    MissingLabel(Seq<char>),
    MissingCallFrame,
    MissingScope,
    MissingInstruction(usize),
    TypeMismatch(OpKind, ValueModel, Option<ValueModel>),
    InvalidLiteral(Seq<char>),
    IoFailure,
}

/// A fatal execution error.
#[derive(Debug, Clone, PartialEq)]
pub enum VmError {
    /// A named read against an identifier absent from the current scope.
    UndefinedVariable(String),
    /// A pop from the value stack with nothing on it.
    StackUnderflow,
    /// No label marker matches a jump or call target.
    MissingLabel(String),
    /// A scope exit with no return address on the call stack.
    MissingCallFrame,
    /// An instruction executed with no scope on the scope stack.
    MissingScope,
    /// The program counter left the program.
    MissingInstruction(usize),
    /// An operation applied to operands of the wrong kinds; the second
    /// operand is absent for the unary operations.
    TypeMismatch(OpKind, Value, Option<Value>),
    /// Input that is neither a quoted literal nor a numeral.
    InvalidLiteral(String),
    /// The input channel failed at the transport level; raised by the
    /// embedding, never by the engine itself.
    IoFailure,
}

impl View for VmError {
    type V = ErrorModel;

    open spec fn view(&self) -> ErrorModel {
        match self {
            VmError::UndefinedVariable(name) => ErrorModel::UndefinedVariable(name@),
            VmError::StackUnderflow => ErrorModel::StackUnderflow,
            VmError::MissingLabel(name) => ErrorModel::MissingLabel(name@),
            VmError::MissingCallFrame => ErrorModel::MissingCallFrame,
            VmError::MissingScope => ErrorModel::MissingScope,
            VmError::MissingInstruction(i) => ErrorModel::MissingInstruction(*i),
            VmError::TypeMismatch(op, lhs, rhs) => ErrorModel::TypeMismatch(
                *op,
                lhs@,
                match rhs {
                    Some(v) => Some(v@),
                    None => None,
                },
            ),
            VmError::InvalidLiteral(text) => ErrorModel::InvalidLiteral(text@),
            VmError::IoFailure => ErrorModel::IoFailure,
        }
    }
}

} // verus!
