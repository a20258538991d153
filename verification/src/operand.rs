//! Operands: the ways an instruction reads a value.
//!
//! A named read looks an identifier up in the current scope (the innermost
//! scope only — there is no lexical parent lookup), a literal yields its own
//! value, and a pop removes and yields the top of the value stack.

use crate::error::{ErrorModel, VmError};
use crate::scope::Scope;
use crate::value::{stack_model, Value, ValueModel};
use vstd::prelude::*;

verus! {

/// The mathematical image of an [`Operand`].
pub enum OperandModel {
    Id(Seq<char>),
    Value(ValueModel),
    Pop,
}

/// A source of one value: a named variable, a literal, or the top of the
/// value stack.
#[derive(Debug, Clone, PartialEq)]
pub enum Operand {
    Id(String),
    Value(Value),
    Pop,
}

impl View for Operand {
    type V = OperandModel;

    open spec fn view(&self) -> OperandModel {
        match self {
            Operand::Id(name) => OperandModel::Id(name@),
            Operand::Value(v) => OperandModel::Value(v@),
            Operand::Pop => OperandModel::Pop,
        }
    }
}

/// What resolving an operand yields: the value read and the value stack as
/// the read leaves it.  A named read of an absent identifier and a pop from
/// an empty stack are the only failures, and a failure leaves the stack as it
/// was.
pub open spec fn resolve_spec(
    op: OperandModel,
    scope: Map<Seq<char>, ValueModel>,
    stack: Seq<ValueModel>,
) -> Result<(ValueModel, Seq<ValueModel>), ErrorModel> {
    match op {
        OperandModel::Id(name) => if scope.contains_key(name) {
            Ok((scope[name], stack))
        } else {
            Err(ErrorModel::UndefinedVariable(name))
        },
        OperandModel::Value(v) => Ok((v, stack)),
        OperandModel::Pop => if stack.len() > 0 {
            Ok((stack.last(), stack.drop_last()))
        } else {
            Err(ErrorModel::StackUnderflow)
        },
    }
}

impl Operand {
    /// Resolves this operand against the given scope and value stack; a pop
    /// removes the top of the stack.
    pub fn get_value(&self, variables: &Scope, stack: &mut Vec<Value>) -> (r: Result<
        Value,
        VmError,
    >)
        ensures
            match r {
                Ok(v) => resolve_spec(self@, variables@, stack_model(old(stack)@)) == Ok::<
                    _,
                    ErrorModel,
                >((v@, stack_model(final(stack)@))),
                Err(e) => resolve_spec(self@, variables@, stack_model(old(stack)@)) == Err::<
                    (ValueModel, Seq<ValueModel>),
                    _,
                >(e@) && final(stack)@ == old(stack)@,
            },
    {
        match self {
            Operand::Id(id) => match variables.get(id) {
                Some(v) => Ok(v),
                None => Err(VmError::UndefinedVariable(id.clone())),
            },
            Operand::Value(v) => Ok(v.clone()),
            Operand::Pop => match stack.pop() {
                Some(v) => {
                    proof {
                        assert(stack_model(final(stack)@) =~= stack_model(
                            old(stack)@,
                        ).drop_last());
                        assert(stack_model(old(stack)@).last() == v@);
                    }
                    Ok(v)
                },
                None => Err(VmError::StackUnderflow),
            },
        }
    }
}

} // verus!
