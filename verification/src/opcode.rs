use vstd::prelude::*;

verus! {

/// Width of the opcode field in a word, in bits.
pub const BITS: u32 = 4;

/// The bits of an opcode field, at the low end of a word.
pub const MASK: u32 = 15;

/// How many opcodes the field can tell apart.
pub const MAX_POSSIBLE_COUNT: u32 = 16;

/// The highest opcode.
pub const MAX_VALUE: u32 = 15;

} // verus!
