use crate::assembly_error::{outcome, AssemblyError, AssemblyErrorView};
use crate::components::address::Address;
use crate::components::condition::Condition;
use crate::components::immediate::Immediate;
use crate::components::location::Location;
use crate::components::offset::Offset;
use crate::components::register::Register;
use crate::components::{address, condition, immediate, offset, register};
use crate::{opcode, Binary, Labels};
use crate::text::{decimal, prefixed_binary, push_decimal, push_prefixed_binary};
use vstd::arithmetic::power2::{lemma2_to64, pow2};
use vstd::layout::{layout_of_primitives, size_of};
use vstd::prelude::*;
use vstd::string::*;

verus! {

/// Width of a word, in bits.
pub const BITS: u32 = 16;

/// Number of the lowest bit of the opcode field, which fills the top of the
/// word.
pub const OPCODE_SHIFT: u32 = BITS - opcode::BITS;

/// Number of the lowest bit of a branch's condition field, which lies right
/// below the opcode.
pub const CONDITION_SHIFT: u32 = BITS - opcode::BITS - condition::BITS;

/// What one step of the opcode field is worth in the word.
pub const OPCODE_WEIGHT: u32 = 4096;

/// What one step of the condition field is worth in the word.
pub const CONDITION_WEIGHT: u32 = 1024;

/// One instruction of the machine, with its operands. The variants stand in
/// the order of their opcodes, from zero.
#[derive(Debug, Clone, PartialEq, Eq)]
pub enum Instruction {
    NoOperation,
    Halt,
    Addition(Register, Register, Register),
    Subtraction(Register, Register, Register),
    BitwiseNOR(Register, Register, Register),
    BitwiseAND(Register, Register, Register),
    BitwiseXOR(Register, Register, Register),
    RightShift(Register, Register),
    LoadImmediate(Register, Immediate),
    AddImmediate(Register, Immediate),
    Jump(Location),
    Branch(Condition, Location),
    Call(Location),
    Return,
    MemoryLoad(Register, Register, Offset),
    MemoryStore(Register, Register, Offset),
}

/// What one step of register field `index` is worth in the word. The fields
/// are counted from the low end of the word and lie side by side.
pub open spec fn register_weight(index: u32) -> nat {
    if index == 0 {
        1
    } else if index == 1 {
        register::MAX_POSSIBLE_COUNT as nat
    } else {
        (register::MAX_POSSIBLE_COUNT * register::MAX_POSSIBLE_COUNT) as nat
    }
}

/// The bits of a register that stands in field `index`.
pub open spec fn register_bits(register: Register, index: u32) -> nat {
    register@ * register_weight(index)
}

/// The bits of an offset: its value in two's complement, as wide as the
/// offset field.
pub open spec fn offset_bits(offset: Offset) -> nat {
    (offset@ % (offset::MAX_POSSIBLE_COUNT as int)) as nat
}

/// The bits of the address that a location resolves to: the low bits of the
/// address, as many as the address field holds.
pub open spec fn location_bits(
    location: Location,
    address: u32,
    labels: Map<Seq<char>, u32>,
) -> Result<nat, AssemblyErrorView> {
    match location.resolved(address, labels) {
        Ok(target) => Ok((target % address::MAX_POSSIBLE_COUNT) as nat),
        Err(error) => Err(error),
    }
}

/// The opcode that a word holds.
pub open spec fn opcode_field(word: Binary) -> u32 {
    (word as nat / (OPCODE_WEIGHT as nat)) as u32
}

/// The register that a word holds in field `index`.
pub open spec fn register_field(word: Binary, index: u32) -> Register {
    Register::holding(
        (word as nat / register_weight(index)) % (register::MAX_POSSIBLE_COUNT as nat),
    )
}

/// The immediate that a word holds.
pub open spec fn immediate_field(word: Binary) -> Immediate {
    Immediate::holding(word as nat % (immediate::MAX_POSSIBLE_COUNT as nat))
}

/// The location that a word holds, which is always an address.
pub open spec fn location_field(word: Binary) -> Location {
    Location::Address(Address::holding(word as nat % (address::MAX_POSSIBLE_COUNT as nat)))
}

/// The number in the condition field of a word.
pub open spec fn condition_field(word: Binary) -> u32 {
    ((word as nat / (CONDITION_WEIGHT as nat)) % (condition::MAX_POSSIBLE_COUNT as nat)) as u32
}

/// The value of a bit pattern of the offset field, read in two's complement.
pub open spec fn sign_extended(pattern: nat) -> int {
    if pattern > offset::MAX_SIGNED_VALUE {
        pattern - offset::MAX_POSSIBLE_COUNT
    } else {
        pattern as int
    }
}

/// The offset that a word holds.
pub open spec fn offset_field(word: Binary) -> Offset {
    Offset::holding(sign_extended(word as nat % (offset::MAX_POSSIBLE_COUNT as nat)))
}

/// The error for an opcode that stands for no instruction.
pub open spec fn unknown_opcode(opcode: u32) -> AssemblyErrorView {
    AssemblyErrorView::unplaced(
        "Unknown opcode "@ + decimal(opcode as nat) + " ("@ + prefixed_binary(opcode as nat)
            + ")"@,
    )
}

/// A location as a word can hold it: the address that it resolves to, cut to
/// the width of the address field. A label that `labels` lacks stays as it
/// is.
pub open spec fn settled_location(
    location: Location,
    address: u32,
    labels: Map<Seq<char>, u32>,
) -> Location {
    match location_bits(location, address, labels) {
        Ok(bits) => Location::Address(Address::holding(bits)),
        Err(_) => location,
    }
}

/// The constants of the layout agree with the widths that they are made
/// from: a word is as wide as its type, each kind of instruction fills the
/// word exactly, each weight is two to the power of the number of its field's
/// lowest bit, and each operand's range is what its width can hold.
pub proof fn lemma_layout()
    ensures
        BITS == 8 * size_of::<Binary>(),
        opcode::BITS + 3 * register::BITS == BITS,
        opcode::BITS + register::BITS + immediate::BITS == BITS,
        opcode::BITS + condition::BITS + address::BITS == BITS,
        opcode::BITS + 2 * register::BITS + offset::BITS == BITS,
        OPCODE_WEIGHT == pow2(OPCODE_SHIFT as nat),
        CONDITION_WEIGHT == pow2(CONDITION_SHIFT as nat),
        register_weight(0) == pow2(0),
        register_weight(1) == pow2(register::BITS as nat),
        register_weight(2) == pow2((2 * register::BITS) as nat),
        opcode::MAX_POSSIBLE_COUNT == pow2(opcode::BITS as nat),
        opcode::MAX_VALUE == opcode::MAX_POSSIBLE_COUNT - 1 == opcode::MASK,
        register::MAX_POSSIBLE_COUNT == pow2(register::BITS as nat),
        register::MAX_VALUE == register::MAX_POSSIBLE_COUNT - 1 == register::MASK,
        immediate::MAX_POSSIBLE_COUNT == pow2(immediate::BITS as nat),
        immediate::MAX_VALUE == immediate::MAX_POSSIBLE_COUNT - 1 == immediate::MASK,
        immediate::MAX_SIGNED_VALUE == immediate::MAX_POSSIBLE_COUNT / 2 - 1,
        immediate::MIN_SIGNED_VALUE == -(immediate::MAX_POSSIBLE_COUNT / 2),
        address::MAX_POSSIBLE_COUNT == pow2(address::BITS as nat),
        address::MAX_VALUE == address::MAX_POSSIBLE_COUNT - 1 == address::MASK,
        condition::MAX_POSSIBLE_COUNT == pow2(condition::BITS as nat),
        condition::MAX_VALUE == condition::MAX_POSSIBLE_COUNT - 1 == condition::MASK,
        offset::MAX_POSSIBLE_COUNT == pow2(offset::BITS as nat),
        offset::MAX_VALUE == offset::MAX_POSSIBLE_COUNT - 1 == offset::MASK,
        offset::MAX_SIGNED_VALUE == offset::MAX_POSSIBLE_COUNT / 2 - 1,
        offset::MIN_SIGNED_VALUE == -(offset::MAX_POSSIBLE_COUNT / 2),
{
    broadcast use layout_of_primitives;

    lemma2_to64();
}

impl Instruction {
    /// The opcode of the instruction.
    pub open spec fn spec_index(&self) -> u32 {
        match self {
            Instruction::NoOperation => 0,
            Instruction::Halt => 1,
            Instruction::Addition(_, _, _) => 2,
            Instruction::Subtraction(_, _, _) => 3,
            Instruction::BitwiseNOR(_, _, _) => 4,
            Instruction::BitwiseAND(_, _, _) => 5,
            Instruction::BitwiseXOR(_, _, _) => 6,
            Instruction::RightShift(_, _) => 7,
            Instruction::LoadImmediate(_, _) => 8,
            Instruction::AddImmediate(_, _) => 9,
            Instruction::Jump(_) => 10,
            Instruction::Branch(_, _) => 11,
            Instruction::Call(_) => 12,
            Instruction::Return => 13,
            Instruction::MemoryLoad(_, _, _) => 14,
            Instruction::MemoryStore(_, _, _) => 15,
        }
    }

    /// Whether every operand is in range.
    pub open spec fn wf(&self) -> bool {
        match self {
            Instruction::NoOperation => true,
            Instruction::Halt => true,
            Instruction::Addition(a, b, c) => a.wf() && b.wf() && c.wf(),
            Instruction::Subtraction(a, b, c) => a.wf() && b.wf() && c.wf(),
            Instruction::BitwiseNOR(a, b, c) => a.wf() && b.wf() && c.wf(),
            Instruction::BitwiseAND(a, b, c) => a.wf() && b.wf() && c.wf(),
            Instruction::BitwiseXOR(a, b, c) => a.wf() && b.wf() && c.wf(),
            Instruction::RightShift(a, c) => a.wf() && c.wf(),
            Instruction::LoadImmediate(a, immediate) => a.wf() && immediate.wf(),
            Instruction::AddImmediate(a, immediate) => a.wf() && immediate.wf(),
            Instruction::Jump(location) => location.wf(),
            Instruction::Branch(_, location) => location.wf(),
            Instruction::Call(location) => location.wf(),
            Instruction::Return => true,
            Instruction::MemoryLoad(a, b, offset) => a.wf() && b.wf() && offset.wf(),
            Instruction::MemoryStore(a, b, offset) => a.wf() && b.wf() && offset.wf(),
        }
    }

    /// Whether the instruction names no label and no offset: it has no
    /// location, or one that is an address.
    pub open spec fn is_settled(&self) -> bool {
        match self {
            Instruction::Jump(location) => location.is_absolute(),
            Instruction::Branch(_, location) => location.is_absolute(),
            Instruction::Call(location) => location.is_absolute(),
            _ => true,
        }
    }

    /// The bits of the word below the opcode: the operands, each in its
    /// field. Only a label that `labels` lacks stands in the way.
    pub open spec fn operand_bits(&self, address: u32, labels: Map<Seq<char>, u32>) -> Result<
        nat,
        AssemblyErrorView,
    > {
        match self {
            Instruction::NoOperation => Ok(0),
            Instruction::Halt => Ok(0),
            Instruction::Addition(a, b, c) => Ok(
                register_bits(*a, 2) + register_bits(*b, 1) + register_bits(*c, 0),
            ),
            Instruction::Subtraction(a, b, c) => Ok(
                register_bits(*a, 2) + register_bits(*b, 1) + register_bits(*c, 0),
            ),
            Instruction::BitwiseNOR(a, b, c) => Ok(
                register_bits(*a, 2) + register_bits(*b, 1) + register_bits(*c, 0),
            ),
            Instruction::BitwiseAND(a, b, c) => Ok(
                register_bits(*a, 2) + register_bits(*b, 1) + register_bits(*c, 0),
            ),
            Instruction::BitwiseXOR(a, b, c) => Ok(
                register_bits(*a, 2) + register_bits(*b, 1) + register_bits(*c, 0),
            ),
            Instruction::RightShift(a, c) => Ok(register_bits(*a, 2) + register_bits(*c, 0)),
            Instruction::LoadImmediate(a, immediate) => Ok(register_bits(*a, 2) + immediate@),
            Instruction::AddImmediate(a, immediate) => Ok(register_bits(*a, 2) + immediate@),
            Instruction::Jump(location) => location_bits(*location, address, labels),
            Instruction::Branch(condition, location) => match location_bits(
                *location,
                address,
                labels,
            ) {
                Ok(bits) => Ok((condition.spec_index() * CONDITION_WEIGHT + bits) as nat),
                Err(error) => Err(error),
            },
            Instruction::Call(location) => location_bits(*location, address, labels),
            Instruction::Return => Ok(0),
            Instruction::MemoryLoad(a, b, offset) => Ok(
                register_bits(*a, 2) + register_bits(*b, 1) + offset_bits(*offset),
            ),
            Instruction::MemoryStore(a, b, offset) => Ok(
                register_bits(*a, 2) + register_bits(*b, 1) + offset_bits(*offset),
            ),
        }
    }

    /// The word for the instruction at `address`: the opcode on top of the
    /// operand bits.
    pub open spec fn encoded(&self, address: u32, labels: Map<Seq<char>, u32>) -> Result<
        Binary,
        AssemblyErrorView,
    > {
        match self.operand_bits(address, labels) {
            Ok(bits) => Ok((self.spec_index() * OPCODE_WEIGHT + bits) as Binary),
            Err(error) => Err(error),
        }
    }

    /// The instruction that `word` stands for when its opcode is taken to be
    /// `opcode`, or the error for an opcode outside the table.
    pub open spec fn decoded_as(opcode: u32, word: Binary) -> Result<
        Instruction,
        AssemblyErrorView,
    > {
        if opcode == 0 {
            Ok(Instruction::NoOperation)
        } else if opcode == 1 {
            Ok(Instruction::Halt)
        } else if opcode == 2 {
            Ok(
                Instruction::Addition(
                    register_field(word, 2),
                    register_field(word, 1),
                    register_field(word, 0),
                ),
            )
        } else if opcode == 3 {
            Ok(
                Instruction::Subtraction(
                    register_field(word, 2),
                    register_field(word, 1),
                    register_field(word, 0),
                ),
            )
        } else if opcode == 4 {
            Ok(
                Instruction::BitwiseNOR(
                    register_field(word, 2),
                    register_field(word, 1),
                    register_field(word, 0),
                ),
            )
        } else if opcode == 5 {
            Ok(
                Instruction::BitwiseAND(
                    register_field(word, 2),
                    register_field(word, 1),
                    register_field(word, 0),
                ),
            )
        } else if opcode == 6 {
            Ok(
                Instruction::BitwiseXOR(
                    register_field(word, 2),
                    register_field(word, 1),
                    register_field(word, 0),
                ),
            )
        } else if opcode == 7 {
            Ok(Instruction::RightShift(register_field(word, 2), register_field(word, 0)))
        } else if opcode == 8 {
            Ok(Instruction::LoadImmediate(register_field(word, 2), immediate_field(word)))
        } else if opcode == 9 {
            Ok(Instruction::AddImmediate(register_field(word, 2), immediate_field(word)))
        } else if opcode == 10 {
            Ok(Instruction::Jump(location_field(word)))
        } else if opcode == 11 {
            Ok(
                Instruction::Branch(
                    Condition::spec_from_index(condition_field(word)),
                    location_field(word),
                ),
            )
        } else if opcode == 12 {
            Ok(Instruction::Call(location_field(word)))
        } else if opcode == 13 {
            Ok(Instruction::Return)
        } else if opcode == 14 {
            Ok(
                Instruction::MemoryLoad(
                    register_field(word, 2),
                    register_field(word, 1),
                    offset_field(word),
                ),
            )
        } else if opcode == 15 {
            Ok(
                Instruction::MemoryStore(
                    register_field(word, 2),
                    register_field(word, 1),
                    offset_field(word),
                ),
            )
        } else {
            Err(unknown_opcode(opcode))
        }
    }

    /// The instruction that `word` stands for.
    pub open spec fn decoded(word: Binary) -> Result<Instruction, AssemblyErrorView> {
        Instruction::decoded_as(opcode_field(word), word)
    }

    /// The instruction as a word can hold it: with the location, if it has
    /// one, replaced by the address that it resolves to, cut to the width of
    /// the address field.
    pub open spec fn settled(&self, address: u32, labels: Map<Seq<char>, u32>) -> Instruction {
        match self {
            Instruction::Jump(location) => Instruction::Jump(
                settled_location(*location, address, labels),
            ),
            Instruction::Branch(condition, location) => Instruction::Branch(
                *condition,
                settled_location(*location, address, labels),
            ),
            Instruction::Call(location) => Instruction::Call(
                settled_location(*location, address, labels),
            ),
            _ => *self,
        }
    }

    /// The opcode of the instruction.
    #[verifier::when_used_as_spec(spec_index)]
    pub fn index(&self) -> (index: u32)
        ensures
            index == self.spec_index(),
            index <= opcode::MAX_VALUE,
    {
        match self {
            Instruction::NoOperation => 0,
            Instruction::Halt => 1,
            Instruction::Addition(_, _, _) => 2,
            Instruction::Subtraction(_, _, _) => 3,
            Instruction::BitwiseNOR(_, _, _) => 4,
            Instruction::BitwiseAND(_, _, _) => 5,
            Instruction::BitwiseXOR(_, _, _) => 6,
            Instruction::RightShift(_, _) => 7,
            Instruction::LoadImmediate(_, _) => 8,
            Instruction::AddImmediate(_, _) => 9,
            Instruction::Jump(_) => 10,
            Instruction::Branch(_, _) => 11,
            Instruction::Call(_) => 12,
            Instruction::Return => 13,
            Instruction::MemoryLoad(_, _, _) => 14,
            Instruction::MemoryStore(_, _, _) => 15,
        }
    }

    /// Encodes the instruction that stands at `address`. It fails only where
    /// the instruction names a label that `labels` lacks.
    pub fn binary(&self, address: u32, labels: &Labels) -> (result: Result<Binary, AssemblyError>)
        ensures
            outcome(result) == self.encoded(address, labels@),
    {
        let opcode: u32 = self.index();
        let top: u32 = (opcode & opcode::MASK) << OPCODE_SHIFT;
        proof {
            assert(top == opcode * OPCODE_WEIGHT) by (bit_vector)
                requires
                    opcode <= opcode::MAX_VALUE,
                    top == (opcode & opcode::MASK) << OPCODE_SHIFT,
            ;
        }
        let mut binary: Binary = top as Binary;
        assert(clear_below(binary, OPCODE_WEIGHT as int));

        match self {
            Instruction::Addition(a, b, c) => {
                add_register(&mut binary, a, 2);
                add_register(&mut binary, b, 1);
                add_register(&mut binary, c, 0);
            },
            Instruction::Subtraction(a, b, c) => {
                add_register(&mut binary, a, 2);
                add_register(&mut binary, b, 1);
                add_register(&mut binary, c, 0);
            },
            Instruction::BitwiseNOR(a, b, c) => {
                add_register(&mut binary, a, 2);
                add_register(&mut binary, b, 1);
                add_register(&mut binary, c, 0);
            },
            Instruction::BitwiseAND(a, b, c) => {
                add_register(&mut binary, a, 2);
                add_register(&mut binary, b, 1);
                add_register(&mut binary, c, 0);
            },
            Instruction::BitwiseXOR(a, b, c) => {
                add_register(&mut binary, a, 2);
                add_register(&mut binary, b, 1);
                add_register(&mut binary, c, 0);
            },
            Instruction::RightShift(a, c) => {
                add_register(&mut binary, a, 2);
                assert(clear_below(binary, register::MAX_POSSIBLE_COUNT as int));
                add_register(&mut binary, c, 0);
            },
            Instruction::LoadImmediate(a, immediate) => {
                add_register(&mut binary, a, 2);
                add_immediate(&mut binary, immediate);
            },
            Instruction::AddImmediate(a, immediate) => {
                add_register(&mut binary, a, 2);
                add_immediate(&mut binary, immediate);
            },
            Instruction::Jump(location) => {
                add_location(&mut binary, location, address, labels)?;
            },
            Instruction::Branch(condition, location) => {
                add_condition(&mut binary, condition);
                add_location(&mut binary, location, address, labels)?;
            },
            Instruction::Call(location) => {
                add_location(&mut binary, location, address, labels)?;
            },
            Instruction::MemoryLoad(a, b, offset) => {
                add_register(&mut binary, a, 2);
                add_register(&mut binary, b, 1);
                add_offset(&mut binary, offset);
            },
            Instruction::MemoryStore(a, b, offset) => {
                add_register(&mut binary, a, 2);
                add_register(&mut binary, b, 1);
                add_offset(&mut binary, offset);
            },
            _ => {},
        }

        Ok(binary)
    }

    /// Decodes a word. Every word stands for an instruction, so this never
    /// fails.
    pub fn instruction(binary: Binary) -> (result: Result<Instruction, AssemblyError>)
        ensures
            outcome(result) == Instruction::decoded(binary),
            result is Ok,
    {
        let opcode: u32 = (binary >> OPCODE_SHIFT) as u32 & opcode::MASK;
        proof {
            assert(opcode == binary / 4096) by (bit_vector)
                requires
                    opcode == (binary >> OPCODE_SHIFT) as u32 & opcode::MASK,
            ;
        }
        Instruction::from_opcode(opcode, binary)
    }

    /// Decodes the operands of a word as those of the instruction with the
    /// given opcode. It fails where the table holds no such opcode.
    pub fn from_opcode(opcode: u32, binary: Binary) -> (result: Result<Instruction, AssemblyError>)
        ensures
            outcome(result) == Instruction::decoded_as(opcode, binary),
    {
        let instruction = match opcode {
            0 => Instruction::NoOperation,
            1 => Instruction::Halt,
            2 => Instruction::Addition(
                get_register(binary, 2)?,
                get_register(binary, 1)?,
                get_register(binary, 0)?,
            ),
            3 => Instruction::Subtraction(
                get_register(binary, 2)?,
                get_register(binary, 1)?,
                get_register(binary, 0)?,
            ),
            4 => Instruction::BitwiseNOR(
                get_register(binary, 2)?,
                get_register(binary, 1)?,
                get_register(binary, 0)?,
            ),
            5 => Instruction::BitwiseAND(
                get_register(binary, 2)?,
                get_register(binary, 1)?,
                get_register(binary, 0)?,
            ),
            6 => Instruction::BitwiseXOR(
                get_register(binary, 2)?,
                get_register(binary, 1)?,
                get_register(binary, 0)?,
            ),
            7 => Instruction::RightShift(get_register(binary, 2)?, get_register(binary, 0)?),
            8 => Instruction::LoadImmediate(get_register(binary, 2)?, get_immediate(binary)?),
            9 => Instruction::AddImmediate(get_register(binary, 2)?, get_immediate(binary)?),
            10 => Instruction::Jump(get_location(binary)?),
            11 => Instruction::Branch(get_condition(binary)?, get_location(binary)?),
            12 => Instruction::Call(get_location(binary)?),
            13 => Instruction::Return,
            14 => Instruction::MemoryLoad(
                get_register(binary, 2)?,
                get_register(binary, 1)?,
                get_offset(binary)?,
            ),
            15 => Instruction::MemoryStore(
                get_register(binary, 2)?,
                get_register(binary, 1)?,
                get_offset(binary)?,
            ),
            _ => {
                let mut description = String::from_str("Unknown opcode ");
                push_decimal(&mut description, opcode);
                description.append(" (");
                push_prefixed_binary(&mut description, opcode);
                description.append(")");
                return Err(AssemblyError::new(description));
            },
        };

        Ok(instruction)
    }

    /// Every opcode of the table stands for the instruction that has this
    /// opcode, whatever the rest of the word holds, and the first number above
    /// the table, like every later one, stands for none.
    pub proof fn lemma_opcode_table(opcode: u32, word: Binary)
        ensures
            opcode <= opcode::MAX_VALUE ==> Instruction::decoded_as(opcode, word) is Ok,
            opcode <= opcode::MAX_VALUE ==> Instruction::decoded_as(opcode, word)->Ok_0.spec_index()
                == opcode,
            opcode > opcode::MAX_VALUE ==> Instruction::decoded_as(opcode, word) == Err::<
                Instruction,
                AssemblyErrorView,
            >(unknown_opcode(opcode)),
    {
    }

    /// Every word stands for an instruction: the opcodes fill their field, the
    /// conditions fill theirs, and each operand is as wide as its field. The
    /// instruction has the opcode that the word holds, its operands are in
    /// range, and its location, if it has one, is an address.
    pub proof fn lemma_decoded_total(word: Binary)
        ensures
            Instruction::decoded(word) is Ok,
            Instruction::decoded(word)->Ok_0.spec_index() == opcode_field(word),
            Instruction::decoded(word)->Ok_0.wf(),
            Instruction::decoded(word)->Ok_0.is_settled(),
    {
        broadcast use {
            register::group_register,
            immediate::group_immediate,
            address::group_address,
            offset::group_offset,
        };

        Instruction::lemma_opcode_table(opcode_field(word), word);
    }

    /// Decoding the word of an instruction gives the instruction back, but
    /// for its location: a word holds an address, so a label or an offset
    /// comes back as the address that it resolved to.
    pub proof fn lemma_round_trip_settled(self, address: u32, labels: Map<Seq<char>, u32>)
        requires
            self.wf(),
            self.encoded(address, labels) is Ok,
        ensures
            Instruction::decoded(self.encoded(address, labels)->Ok_0) == Ok::<
                Instruction,
                AssemblyErrorView,
            >(self.settled(address, labels)),
    {
        broadcast use {
            register::group_register,
            immediate::group_immediate,
            address::group_address,
            offset::group_offset,
            condition::group_condition,
        };

        match self {
            Instruction::NoOperation => lemma_location_fields(0, 0, 0),
            Instruction::Halt => lemma_location_fields(1, 0, 0),
            Instruction::Addition(a, b, c) => lemma_register_fields(2, a, b, c@),
            Instruction::Subtraction(a, b, c) => lemma_register_fields(3, a, b, c@),
            Instruction::BitwiseNOR(a, b, c) => lemma_register_fields(4, a, b, c@),
            Instruction::BitwiseAND(a, b, c) => lemma_register_fields(5, a, b, c@),
            Instruction::BitwiseXOR(a, b, c) => lemma_register_fields(6, a, b, c@),
            Instruction::RightShift(a, c) => lemma_register_fields(7, a, Register::holding(0), c@),
            // An immediate lies where the two lower registers would.
            Instruction::LoadImmediate(a, immediate) => lemma_register_fields(
                8,
                a,
                Register::holding(immediate@ / 16),
                immediate@ % 16,
            ),
            Instruction::AddImmediate(a, immediate) => lemma_register_fields(
                9,
                a,
                Register::holding(immediate@ / 16),
                immediate@ % 16,
            ),
            Instruction::Jump(location) => lemma_location_fields(
                10,
                0,
                location_bits(location, address, labels)->Ok_0,
            ),
            Instruction::Branch(condition, location) => lemma_location_fields(
                11,
                condition.spec_index(),
                location_bits(location, address, labels)->Ok_0,
            ),
            Instruction::Call(location) => lemma_location_fields(
                12,
                0,
                location_bits(location, address, labels)->Ok_0,
            ),
            Instruction::Return => lemma_location_fields(13, 0, 0),
            Instruction::MemoryLoad(a, b, offset) => {
                lemma_register_fields(14, a, b, offset_bits(offset));
                assert(sign_extended(offset_bits(offset)) == offset@);
            },
            Instruction::MemoryStore(a, b, offset) => {
                lemma_register_fields(15, a, b, offset_bits(offset));
                assert(sign_extended(offset_bits(offset)) == offset@);
            },
        }
    }

    /// Decoding the word of an instruction gives the same instruction back,
    /// where the instruction names no label and no offset.
    pub proof fn lemma_round_trip(self, address: u32, labels: Map<Seq<char>, u32>)
        requires
            self.wf(),
            self.is_settled(),
        ensures
            self.encoded(address, labels) is Ok,
            Instruction::decoded(self.encoded(address, labels)->Ok_0) == Ok::<
                Instruction,
                AssemblyErrorView,
            >(self),
    {
        broadcast use address::group_address;

        self.lemma_round_trip_settled(address, labels);
    }

    /// The word of an instruction depends on its address only as far as the
    /// address space goes: two addresses that are the same modulo its size
    /// give the same word.
    pub proof fn lemma_address_modulo(self, first: u32, second: u32, labels: Map<Seq<char>, u32>)
        requires
            first % address::MAX_POSSIBLE_COUNT == second % address::MAX_POSSIBLE_COUNT,
        ensures
            self.encoded(first, labels) == self.encoded(second, labels),
    {
        match self {
            Instruction::Jump(location) => location.lemma_address_modulo(first, second, labels),
            Instruction::Branch(_, location) => location.lemma_address_modulo(
                first,
                second,
                labels,
            ),
            Instruction::Call(location) => location.lemma_address_modulo(first, second, labels),
            _ => {},
        }
    }
}

/// Whether the bits of the word that are worth less than `span` are all
/// clear.
spec fn clear_below(word: Binary, span: int) -> bool {
    word as int % span == 0
}

/// Bits that fit into a clear stretch at the low end of the word can be set
/// by `|`, and the word then grows by their value.
proof fn lemma_fill(word: u16, bits: u16, span: u16)
    by (bit_vector)
    requires
        span == 16 || span == 256 || span == 1024 || span == 4096,
        word % span == 0,
        bits < span,
    ensures
        word | bits == word + bits,
        span >= 16 && bits % 16 == 0 ==> (word | bits) % 16 == 0,
        span >= 256 && bits % 256 == 0 ==> (word | bits) % 256 == 0,
        span >= 1024 && bits % 1024 == 0 ==> (word | bits) % 1024 == 0,
{
}

/// Writes a register into field `index` of a word whose bits from that field
/// down are still clear.
fn add_register(binary: &mut Binary, register: &Register, index: u32)
    requires
        index <= 2,
        clear_below(*old(binary), register::MAX_POSSIBLE_COUNT * register_weight(index)),
    ensures
        *final(binary) == *old(binary) + register_bits(*register, index),
        clear_below(*final(binary), register_weight(index) as int),
{
    let value: u32 = register.register();
    let field: u32 = (value & register::MASK) << (register::BITS * index);
    proof {
        assert(field == value * (if index == 0 {
            1u32
        } else if index == 1 {
            16u32
        } else {
            256u32
        })) by (bit_vector)
            requires
                value <= register::MAX_VALUE,
                index <= 2,
                field == (value & register::MASK) << (register::BITS * index),
        ;
        lemma_fill(
            *binary,
            field as u16,
            (register::MAX_POSSIBLE_COUNT * register_weight(index)) as u16,
        );
    }
    *binary = *binary | (field as Binary);
}

/// Writes an immediate into the low end of a word that is still clear there.
fn add_immediate(binary: &mut Binary, immediate: &Immediate)
    requires
        clear_below(*old(binary), immediate::MAX_POSSIBLE_COUNT as int),
    ensures
        *final(binary) == *old(binary) + immediate@,
{
    let value: u32 = immediate.immediate();
    let field: u32 = value & immediate::MASK;
    proof {
        assert(field == value) by (bit_vector)
            requires
                value <= immediate::MAX_VALUE,
                field == value & immediate::MASK,
        ;
        lemma_fill(*binary, field as u16, immediate::MAX_POSSIBLE_COUNT as u16);
    }
    *binary = *binary | (field as Binary);
}

/// Resolves a location and writes its address into the low end of a word
/// that is still clear there. Where the location cannot be resolved the word
/// stays as it is.
fn add_location(binary: &mut Binary, location: &Location, address: u32, labels: &Labels) -> (result:
    Result<(), AssemblyError>)
    requires
        clear_below(*old(binary), address::MAX_POSSIBLE_COUNT as int),
    ensures
        match location_bits(*location, address, labels@) {
            Ok(bits) => result is Ok && *final(binary) == *old(binary) + bits,
            Err(error) => outcome(result) == Err::<(), AssemblyErrorView>(error)
                && *final(binary) == *old(binary),
        },
{
    let target: u32 = location.get_address(address, labels)?;
    let field: u32 = target & address::MASK;
    proof {
        assert(field == target % address::MAX_POSSIBLE_COUNT) by (bit_vector)
            requires
                field == target & address::MASK,
        ;
        lemma_fill(*binary, field as u16, address::MAX_POSSIBLE_COUNT as u16);
    }
    *binary = *binary | (field as Binary);
    Ok(())
}

/// Writes a condition right below the opcode of a word that is still clear
/// below the opcode.
fn add_condition(binary: &mut Binary, condition: &Condition)
    requires
        clear_below(*old(binary), OPCODE_WEIGHT as int),
    ensures
        *final(binary) == *old(binary) + condition.spec_index() * CONDITION_WEIGHT,
        clear_below(*final(binary), CONDITION_WEIGHT as int),
{
    let value: u32 = condition.index();
    let field: u32 = (value & condition::MASK) << CONDITION_SHIFT;
    proof {
        assert(field == value * CONDITION_WEIGHT) by (bit_vector)
            requires
                value <= condition::MAX_VALUE,
                field == (value & condition::MASK) << CONDITION_SHIFT,
        ;
        lemma_fill(*binary, field as u16, OPCODE_WEIGHT as u16);
    }
    *binary = *binary | (field as Binary);
}

/// Writes an offset, in two's complement, into the low end of a word that is
/// still clear there.
fn add_offset(binary: &mut Binary, offset: &Offset)
    requires
        clear_below(*old(binary), offset::MAX_POSSIBLE_COUNT as int),
    ensures
        *final(binary) == *old(binary) + offset_bits(*offset),
{
    let value: i32 = offset.offset();
    let field: u32 = value as u32 & offset::MASK;
    proof {
        assert(field == (if value < 0 {
            (value + offset::MAX_POSSIBLE_COUNT) as u32
        } else {
            value as u32
        })) by (bit_vector)
            requires
                offset::MIN_SIGNED_VALUE <= value <= offset::MAX_SIGNED_VALUE,
                field == (value as u32) & offset::MASK,
        ;
        lemma_fill(*binary, field as u16, offset::MAX_POSSIBLE_COUNT as u16);
    }
    *binary = *binary | (field as Binary);
}

/// Reads the register in field `index` of a word.
fn get_register(binary: Binary, index: u32) -> (result: Result<Register, AssemblyError>)
    requires
        index <= 2,
    ensures
        result == Ok::<Register, AssemblyError>(register_field(binary, index)),
{
    let register: u32 = (binary as u32 >> (register::BITS * index)) & register::MASK;
    proof {
        assert(register == (binary as u32 / (if index == 0 {
            1u32
        } else if index == 1 {
            register::MAX_POSSIBLE_COUNT
        } else {
            (register::MAX_POSSIBLE_COUNT * register::MAX_POSSIBLE_COUNT) as u32
        })) % register::MAX_POSSIBLE_COUNT) by (bit_vector)
            requires
                index <= 2,
                register == (binary as u32 >> (register::BITS * index)) & register::MASK,
        ;
    }
    Register::new(register)
}

/// Reads the immediate at the low end of a word.
fn get_immediate(binary: Binary) -> (result: Result<Immediate, AssemblyError>)
    ensures
        result == Ok::<Immediate, AssemblyError>(immediate_field(binary)),
{
    let immediate: u32 = binary as u32 & immediate::MASK;
    proof {
        assert(immediate == binary as u32 % immediate::MAX_POSSIBLE_COUNT) by (bit_vector)
            requires
                immediate == binary as u32 & immediate::MASK,
        ;
    }
    Immediate::new(immediate)
}

/// Reads the address at the low end of a word.
fn get_location(binary: Binary) -> (result: Result<Location, AssemblyError>)
    ensures
        result == Ok::<Location, AssemblyError>(location_field(binary)),
{
    let address: u32 = binary as u32 & address::MASK;
    proof {
        assert(address == binary as u32 % address::MAX_POSSIBLE_COUNT) by (bit_vector)
            requires
                address == binary as u32 & address::MASK,
        ;
    }
    let address = Address::new(address)?;
    Ok(Location::Address(address))
}

/// Reads the condition right below the opcode of a word.
fn get_condition(binary: Binary) -> (result: Result<Condition, AssemblyError>)
    ensures
        result == Ok::<Condition, AssemblyError>(
            Condition::spec_from_index(condition_field(binary)),
        ),
{
    let condition: u32 = (binary as u32 >> CONDITION_SHIFT) & condition::MASK;
    proof {
        assert(condition == (binary as u32 / CONDITION_WEIGHT) % condition::MAX_POSSIBLE_COUNT)
            by (bit_vector)
            requires
                condition == (binary as u32 >> CONDITION_SHIFT) & condition::MASK,
        ;
    }
    Condition::from_index(condition)
}

/// Reads the offset at the low end of a word and extends its sign.
fn get_offset(binary: Binary) -> (result: Result<Offset, AssemblyError>)
    ensures
        result == Ok::<Offset, AssemblyError>(offset_field(binary)),
{
    let offset: u32 = binary as u32 & offset::MASK;
    let unused: u32 = u32::BITS - offset::BITS;
    let offset_signed: i32 = ((offset << unused) as i32) >> unused;
    proof {
        assert(offset == binary as u32 % offset::MAX_POSSIBLE_COUNT && offset_signed == (if offset
            > offset::MAX_SIGNED_VALUE {
            offset - offset::MAX_POSSIBLE_COUNT
        } else {
            offset as int
        })) by (bit_vector)
            requires
                offset == binary as u32 & offset::MASK,
                offset_signed == ((offset << 28u32) as i32) >> 28u32,
        ;
    }
    Offset::new(offset_signed)
}

/// The digits of a number in base sixteen can be read off by division.
proof fn lemma_hex_digits(d3: u32, d2: u32, d1: u32, d0: u32)
    by (bit_vector)
    requires
        d3 <= 15,
        d2 <= 15,
        d1 <= 15,
        d0 <= 15,
    ensures
        ({
            let word = (d3 * 4096 + d2 * 256 + d1 * 16 + d0) as u32;
            &&& word == d3 * 4096 + d2 * 256 + d1 * 16 + d0
            &&& word <= 0xFFFF
            &&& word / 4096 == d3
            &&& (word / 256) % 16 == d2
            &&& (word / 16) % 16 == d1
            &&& (word / 1) % 16 == d0
            &&& word % 256 == d1 * 16 + d0
        }),
{
}

/// A word that is put together from an opcode, two registers and four low
/// bits gives each of them back.
proof fn lemma_register_fields(opcode: u32, a: Register, b: Register, low: nat)
    requires
        opcode <= opcode::MAX_VALUE,
        a.wf(),
        b.wf(),
        low < register::MAX_POSSIBLE_COUNT,
    ensures
        ({
            let bits = register_bits(a, 2) + register_bits(b, 1) + low;
            let word = (opcode * OPCODE_WEIGHT + bits) as Binary;
            &&& bits < OPCODE_WEIGHT
            &&& word == opcode * OPCODE_WEIGHT + bits
            &&& opcode_field(word) == opcode
            &&& register_field(word, 2) == a
            &&& register_field(word, 1) == b
            &&& register_field(word, 0) == Register::holding(low)
            &&& word as nat % (register::MAX_POSSIBLE_COUNT as nat) == low
            &&& word as nat % (immediate::MAX_POSSIBLE_COUNT as nat) == b@ * 16 + low
        }),
{
    broadcast use register::group_register;

    lemma_hex_digits(opcode, a@ as u32, b@ as u32, low as u32);
}

/// An opcode, a condition and an address that lie side by side in a number
/// can be read off by division.
proof fn lemma_branch_digits(opcode: u32, condition: u32, target: u32)
    by (bit_vector)
    requires
        opcode <= 15,
        condition <= 3,
        target < 1024,
    ensures
        ({
            let word = (opcode * 4096 + condition * 1024 + target) as u32;
            &&& word == opcode * 4096 + condition * 1024 + target
            &&& word <= 0xFFFF
            &&& word / 4096 == opcode
            &&& (word / 1024) % 4 == condition
            &&& word % 1024 == target
        }),
{
}

/// A word that is put together from an opcode, a condition and an address
/// gives each of them back.
proof fn lemma_location_fields(opcode: u32, condition: u32, target: nat)
    requires
        opcode <= opcode::MAX_VALUE,
        condition <= condition::MAX_VALUE,
        target < address::MAX_POSSIBLE_COUNT,
    ensures
        ({
            let bits = condition * CONDITION_WEIGHT + target;
            let word = (opcode * OPCODE_WEIGHT + bits) as Binary;
            &&& bits < OPCODE_WEIGHT
            &&& word == opcode * OPCODE_WEIGHT + bits
            &&& opcode_field(word) == opcode
            &&& condition_field(word) == condition
            &&& word as nat % (address::MAX_POSSIBLE_COUNT as nat) == target
        }),
{
    lemma_branch_digits(opcode, condition, target as u32);
}

} // verus!
