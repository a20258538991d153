//! A small stack/register hybrid virtual machine.
//!
//! A program is an ordered sequence of typed instructions over a value stack,
//! named variables and symbolic jump targets.  The engine owns three stacks
//! (values, return addresses, variable scopes), runs the fetch-execute loop and
//! enforces the call/return and scope lifetime rules.  Every instruction's
//! effect is specified against a mathematical small-step semantics and proved.

pub mod error;
pub mod instruction;
pub mod label;
pub mod numeric;
pub mod operand;
pub mod program;
pub mod scope;
pub mod semantics;
pub mod target;
pub mod text;
pub mod value;
pub mod vm;
