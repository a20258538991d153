//! Targets: the ways an instruction writes a value.
//!
//! A named write inserts or overwrites a binding in the current scope; a push
//! puts the value on top of the value stack.  A commit always succeeds.

use crate::scope::Scope;
use crate::value::{stack_model, Value, ValueModel};
use vstd::prelude::*;

verus! {

/// The mathematical image of a [`Target`].
pub enum TargetModel {
    Id(Seq<char>),
    Push,
}

/// A destination for one value: a named variable or the value stack.
#[derive(Debug, Clone, PartialEq, Eq)]
pub enum Target {
    Id(String),
    Push,
}

impl View for Target {
    type V = TargetModel;

    open spec fn view(&self) -> TargetModel {
        match self {
            Target::Id(name) => TargetModel::Id(name@),
            Target::Push => TargetModel::Push,
        }
    }
}

/// The scope and value stack a commit leaves behind: a named write binds the
/// name, a push extends the stack.
pub open spec fn commit_spec(
    t: TargetModel,
    v: ValueModel,
    scope: Map<Seq<char>, ValueModel>,
    stack: Seq<ValueModel>,
) -> (Map<Seq<char>, ValueModel>, Seq<ValueModel>) {
    match t {
        TargetModel::Id(name) => (scope.insert(name, v), stack),
        TargetModel::Push => (scope, stack.push(v)),
    }
}

impl Target {
    /// Commits a value into this target, against the given scope and value
    /// stack.
    pub fn set_value(&self, value: Value, variables: &mut Scope, stack: &mut Vec<Value>)
        ensures
            final(variables)@ == commit_spec(self@, value@, old(variables)@, stack_model(old(stack)@)).0,
            stack_model(final(stack)@) == commit_spec(
                self@,
                value@,
                old(variables)@,
                stack_model(old(stack)@),
            ).1,
    {
        match self {
            Target::Id(id) => {
                variables.insert(id.clone(), value);
            },
            Target::Push => {
                stack.push(value);
                proof {
                    assert(stack_model(final(stack)@) =~= stack_model(old(stack)@).push(value@));
                }
            },
        }
    }
}

} // verus!
