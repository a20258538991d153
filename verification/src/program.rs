//! A program: an ordered, index-addressable sequence of instructions.
//!
//! Indices are stable for the lifetime of a run and the sequence is never
//! mutated during execution; labels are embedded inline as no-op markers.

use crate::instruction::{InstrModel, Instruction};
use vstd::prelude::*;

verus! {

/// An ordered, zero-indexed sequence of instructions.
#[derive(Debug)]
pub struct Program(pub Vec<Instruction>);

impl View for Program {
    type V = Seq<InstrModel>;

    open spec fn view(&self) -> Seq<InstrModel> {
        self.0@.map_values(|i: Instruction| i@)
    }
}

} // verus!
