//! The closed set of operations the engine executes.
//!
//! Instructions are produced upstream by an assembler and consumed verbatim
//! here; a label marker is an ordinary instruction that does nothing and only
//! serves as a scan target.

use crate::label::Label;
use crate::operand::{Operand, OperandModel};
use crate::target::{Target, TargetModel};
use vstd::prelude::*;

verus! {

/// The mathematical image of an [`Instruction`].
pub enum InstrModel {
    Mov(TargetModel, OperandModel),
    Add(OperandModel, OperandModel, TargetModel),
    Sub(OperandModel, OperandModel, TargetModel),
    Mul(OperandModel, OperandModel, TargetModel),
    Div(OperandModel, OperandModel, TargetModel),
    Mod(OperandModel, OperandModel, TargetModel),
    And(OperandModel, OperandModel, TargetModel),
    Or(OperandModel, OperandModel, TargetModel),
    Not(OperandModel, TargetModel),
    Neg(OperandModel, TargetModel),
    Eq(OperandModel, OperandModel, TargetModel),
    Neq(OperandModel, OperandModel, TargetModel),
    Less(OperandModel, OperandModel, TargetModel),
    LessEq(OperandModel, OperandModel, TargetModel),
    Greater(OperandModel, OperandModel, TargetModel),
    GreaterEq(OperandModel, OperandModel, TargetModel),
    Jmp(Seq<char>),
    JmpFalse(Seq<char>, OperandModel),
    Print(OperandModel),
    Read,
    Call(Seq<char>),
    ScopeOut,
    Label(Seq<char>),
}

/// One operation of the machine.
#[derive(Debug, Clone, PartialEq)]
pub enum Instruction {
    /// Resolve the operand, commit it into the target.
    Mov(Target, Operand),
    Add(Operand, Operand, Target),
    Sub(Operand, Operand, Target),
    Mul(Operand, Operand, Target),
    Div(Operand, Operand, Target),
    Mod(Operand, Operand, Target),
    And(Operand, Operand, Target),
    Or(Operand, Operand, Target),
    Not(Operand, Target),
    Neg(Operand, Target),
    Eq(Operand, Operand, Target),
    Neq(Operand, Operand, Target),
    Less(Operand, Operand, Target),
    LessEq(Operand, Operand, Target),
    Greater(Operand, Operand, Target),
    GreaterEq(Operand, Operand, Target),
    /// Unconditional jump to a label.
    Jmp(Label),
    /// Jump to the label when the operand is not truthy.
    JmpFalse(Label, Operand),
    /// Resolve the operand and write its rendering to the output channel.
    Print(Operand),
    /// Read one line from the input channel and push its value.
    Read,
    /// Push the return address, open a fresh scope, jump to the label.
    Call(Label),
    /// Close the current scope: return to the caller, or, at top level, end
    /// the run with the top of the value stack.
    ScopeOut,
    /// A no-op marker, meaningful only as a scan target.
    Label(Label),
}

impl View for Instruction {
    type V = InstrModel;

    open spec fn view(&self) -> InstrModel {
        match self {
            Instruction::Mov(t, o) => InstrModel::Mov(t@, o@),
            Instruction::Add(o1, o2, t) => InstrModel::Add(o1@, o2@, t@),
            Instruction::Sub(o1, o2, t) => InstrModel::Sub(o1@, o2@, t@),
            Instruction::Mul(o1, o2, t) => InstrModel::Mul(o1@, o2@, t@),
            Instruction::Div(o1, o2, t) => InstrModel::Div(o1@, o2@, t@),
            Instruction::Mod(o1, o2, t) => InstrModel::Mod(o1@, o2@, t@),
            Instruction::And(o1, o2, t) => InstrModel::And(o1@, o2@, t@),
            Instruction::Or(o1, o2, t) => InstrModel::Or(o1@, o2@, t@),
            Instruction::Not(o, t) => InstrModel::Not(o@, t@),
            Instruction::Neg(o, t) => InstrModel::Neg(o@, t@),
            Instruction::Eq(o1, o2, t) => InstrModel::Eq(o1@, o2@, t@),
            Instruction::Neq(o1, o2, t) => InstrModel::Neq(o1@, o2@, t@),
            Instruction::Less(o1, o2, t) => InstrModel::Less(o1@, o2@, t@),
            Instruction::LessEq(o1, o2, t) => InstrModel::LessEq(o1@, o2@, t@),
            Instruction::Greater(o1, o2, t) => InstrModel::Greater(o1@, o2@, t@),
            Instruction::GreaterEq(o1, o2, t) => InstrModel::GreaterEq(o1@, o2@, t@),
            Instruction::Jmp(l) => InstrModel::Jmp(l@),
            Instruction::JmpFalse(l, o) => InstrModel::JmpFalse(l@, o@),
            Instruction::Print(o) => InstrModel::Print(o@),
            Instruction::Read => InstrModel::Read,
            Instruction::Call(l) => InstrModel::Call(l@),
            Instruction::ScopeOut => InstrModel::ScopeOut,
            Instruction::Label(l) => InstrModel::Label(l@),
        }
    }
}

} // verus!
