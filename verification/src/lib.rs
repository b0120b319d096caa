//! The binary codec of a small sixteen-bit instruction set: instructions to
//! words and back, with the addresses of jumps, branches and calls resolved
//! against a table of labels.
//!
//! Every instruction is one word. The opcode fills the top four bits. Below
//! it lie the operands, each kind of instruction in its own way:
//!
//! - three registers of four bits each, for arithmetic and logic (a shift
//!   has two and leaves the middle one clear);
//! - a register and an immediate of eight bits;
//! - two registers and an offset of four bits, for memory access;
//! - a condition of two bits, which only a branch has, and an address of ten
//!   bits, for jumps, branches and calls.
//!
//! [`instructions_to_binary`] and [`binary_to_instructions`] work on whole
//! programs and report every failure with its place, not only the first.

use crate::instruction::Instruction;
pub use crate::program::{binary_to_instructions, instructions_to_binary};
use vstd::hash_map::StringHashMap;
use vstd::prelude::*;

pub mod assembly_error;
pub mod components;
pub mod instruction;
pub mod opcode;
pub mod program;
pub mod text;

verus! {

/// The symbol table: the value of each label, by its name.
pub type Labels = StringHashMap<u32>;

/// A program as instructions, in the order of their addresses.
pub type InstructionVec = Vec<Instruction>;

/// One machine word: the binary form of one instruction.
pub type Binary = u16;

/// A program as words, in the order of their addresses.
pub type BinaryVec = Vec<Binary>;

} // verus!
