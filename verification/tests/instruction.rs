use isa_codec::assembly_error::AssemblyError;
use isa_codec::components::address::Address;
use isa_codec::components::condition::Condition;
use isa_codec::components::immediate::Immediate;
use isa_codec::components::location::Location;
use isa_codec::components::offset::Offset;
use isa_codec::components::register::Register;
use isa_codec::instruction::Instruction;
use isa_codec::{opcode, Labels};

fn reg(number: u32) -> Register {
    Register::new(number).unwrap()
}

fn at(address: u32) -> Location {
    Location::Address(Address::new(address).unwrap())
}

fn by(offset: i32) -> Location {
    Location::Offset(Offset::new(offset).unwrap())
}

fn label(name: &str) -> Location {
    Location::Label(name.to_string())
}

fn table(entries: &[(&str, u32)]) -> Labels {
    let mut labels = Labels::new();
    for (name, value) in entries {
        labels.insert(name.to_string(), *value);
    }
    labels
}

fn one_of_each() -> Vec<Instruction> {
    vec![
        Instruction::NoOperation,
        Instruction::Halt,
        Instruction::Addition(reg(1), reg(2), reg(3)),
        Instruction::Subtraction(reg(4), reg(5), reg(6)),
        Instruction::BitwiseNOR(reg(7), reg(8), reg(9)),
        Instruction::BitwiseAND(reg(10), reg(11), reg(12)),
        Instruction::BitwiseXOR(reg(13), reg(14), reg(15)),
        Instruction::RightShift(reg(1), reg(2)),
        Instruction::LoadImmediate(reg(3), Immediate::new(200).unwrap()),
        Instruction::AddImmediate(reg(4), Immediate::new(1).unwrap()),
        Instruction::Jump(at(1023)),
        Instruction::Branch(Condition::Carry, at(512)),
        Instruction::Call(at(0)),
        Instruction::Return,
        Instruction::MemoryLoad(reg(5), reg(6), Offset::new(-8).unwrap()),
        Instruction::MemoryStore(reg(7), reg(8), Offset::new(7).unwrap()),
    ]
}

#[test]
fn index_is_the_opcode_of_each_variant() {
    let indices: Vec<u32> = one_of_each().iter().map(|instruction| instruction.index()).collect();
    assert_eq!(indices, (0..16).collect::<Vec<u32>>());
    assert_eq!(opcode::MAX_VALUE, 15);
}

#[test]
fn binary_lays_out_each_variant() {
    let labels = table(&[]);
    let words: Vec<u16> = one_of_each()
        .iter()
        .map(|instruction| instruction.binary(0, &labels).unwrap())
        .collect();
    assert_eq!(
        words,
        vec![
            0x0000, 0x1000, 0x2123, 0x3456, 0x4789, 0x5ABC, 0x6DEF, 0x7102, 0x83C8, 0x9401,
            0xA3FF, 0xBA00, 0xC000, 0xD000, 0xE568, 0xF787,
        ]
    );
}

#[test]
fn binary_puts_registers_at_their_highest_into_their_fields() {
    let labels = table(&[]);
    assert_eq!(Instruction::Addition(reg(15), reg(0), reg(0)).binary(0, &labels), Ok(0x2F00));
    assert_eq!(Instruction::Addition(reg(0), reg(15), reg(0)).binary(0, &labels), Ok(0x20F0));
    assert_eq!(Instruction::Addition(reg(0), reg(0), reg(15)).binary(0, &labels), Ok(0x200F));
    assert_eq!(Instruction::RightShift(reg(15), reg(15)).binary(0, &labels), Ok(0x7F0F));
    assert_eq!(
        Instruction::LoadImmediate(reg(15), Immediate::new(255).unwrap()).binary(0, &labels),
        Ok(0x8FFF)
    );
    assert_eq!(
        Instruction::MemoryStore(reg(15), reg(15), Offset::new(-1).unwrap()).binary(0, &labels),
        Ok(0xFFFF)
    );
}

#[test]
fn binary_writes_an_offset_operand_in_twos_complement() {
    let labels = table(&[]);
    let word = |offset: i32| {
        Instruction::MemoryLoad(reg(1), reg(2), Offset::new(offset).unwrap())
            .binary(0, &labels)
            .unwrap()
    };
    assert_eq!(word(0), 0xE120);
    assert_eq!(word(1), 0xE121);
    assert_eq!(word(7), 0xE127);
    assert_eq!(word(-1), 0xE12F);
    assert_eq!(word(-8), 0xE128);
}

#[test]
fn binary_puts_the_condition_right_below_the_opcode() {
    let labels = table(&[]);
    assert_eq!(Instruction::Branch(Condition::Zero, at(5)).binary(0, &labels), Ok(0xB005));
    assert_eq!(Instruction::Branch(Condition::NotZero, at(5)).binary(0, &labels), Ok(0xB405));
    assert_eq!(Instruction::Branch(Condition::Carry, at(5)).binary(0, &labels), Ok(0xB805));
    assert_eq!(Instruction::Branch(Condition::NotCarry, at(5)).binary(0, &labels), Ok(0xBC05));
    assert_eq!(Instruction::Branch(Condition::NotCarry, at(1023)).binary(0, &labels), Ok(0xBFFF));
}

#[test]
fn binary_resolves_the_location_at_the_given_address() {
    let labels = table(&[("end", 5), ("far", 1029)]);
    assert_eq!(Instruction::Jump(by(-1)).binary(0, &labels), Ok(0xA3FF));
    assert_eq!(Instruction::Jump(by(-1)).binary(1, &labels), Ok(0xA000));
    assert_eq!(Instruction::Call(by(7)).binary(1020, &labels), Ok(0xC003));
    assert_eq!(Instruction::Jump(label("end")).binary(9, &labels), Ok(0xA005));
    assert_eq!(Instruction::Call(label("end")).binary(9, &labels), Ok(0xC005));
    assert_eq!(
        Instruction::Branch(Condition::NotZero, label("end")).binary(9, &labels),
        Ok(0xB405)
    );
    assert_eq!(Instruction::Jump(label("far")).binary(9, &labels), Ok(0xA005));
}

#[test]
fn binary_of_a_jump_to_a_missing_label_is_that_one_error() {
    let labels = table(&[("start", 1)]);
    let expected =
        AssemblyError { description: "Unknown label \"end\"".to_string(), address: None };
    assert_eq!(Instruction::Jump(label("end")).binary(0, &labels), Err(expected.clone()));
    assert_eq!(Instruction::Call(label("end")).binary(0, &labels), Err(expected.clone()));
    assert_eq!(
        Instruction::Branch(Condition::Carry, label("end")).binary(0, &labels),
        Err(expected)
    );
}

#[test]
fn instruction_decodes_each_variant() {
    let words: Vec<u16> = vec![
        0x0000, 0x1000, 0x2123, 0x3456, 0x4789, 0x5ABC, 0x6DEF, 0x7102, 0x83C8, 0x9401, 0xA3FF,
        0xBA00, 0xC000, 0xD000, 0xE568, 0xF787,
    ];
    let decoded: Vec<Instruction> =
        words.iter().map(|word| Instruction::instruction(*word).unwrap()).collect();
    assert_eq!(decoded, one_of_each());
}

#[test]
fn instruction_sign_extends_the_offset() {
    assert_eq!(
        Instruction::instruction(0xE12F),
        Ok(Instruction::MemoryLoad(reg(1), reg(2), Offset::new(-1).unwrap()))
    );
    assert_eq!(
        Instruction::instruction(0xF128),
        Ok(Instruction::MemoryStore(reg(1), reg(2), Offset::new(-8).unwrap()))
    );
    assert_eq!(
        Instruction::instruction(0xE127),
        Ok(Instruction::MemoryLoad(reg(1), reg(2), Offset::new(7).unwrap()))
    );
}

#[test]
fn instruction_ignores_the_bits_that_its_variant_does_not_use() {
    assert_eq!(Instruction::instruction(0x0FFF), Ok(Instruction::NoOperation));
    assert_eq!(Instruction::instruction(0x1ABC), Ok(Instruction::Halt));
    assert_eq!(Instruction::instruction(0xDFFF), Ok(Instruction::Return));
    assert_eq!(Instruction::instruction(0x71F2), Ok(Instruction::RightShift(reg(1), reg(2))));
    assert_eq!(Instruction::instruction(0xAC05), Ok(Instruction::Jump(at(5))));
    assert_eq!(Instruction::instruction(0xCC05), Ok(Instruction::Call(at(5))));
}

#[test]
fn every_opcode_decodes_to_the_variant_with_that_index() {
    for opcode in 0..16u16 {
        for low in [0x000u16, 0x001, 0x123, 0x800, 0xFFF] {
            let word = (opcode << 12) | low;
            let decoded = Instruction::instruction(word).unwrap();
            assert_eq!(decoded.index(), opcode as u32);
            assert_eq!(Instruction::from_opcode(opcode as u32, word), Ok(decoded));
        }
    }
}

#[test]
fn the_first_opcode_above_the_table_is_unknown() {
    assert_eq!(
        Instruction::from_opcode(16, 0),
        Err(AssemblyError { description: "Unknown opcode 16 (0b10000)".to_string(), address: None })
    );
    assert_eq!(
        Instruction::from_opcode(16, 0xFFFF),
        Err(AssemblyError { description: "Unknown opcode 16 (0b10000)".to_string(), address: None })
    );
    for opcode in [17u32, 31, 32, 1000, 4294967295] {
        assert_eq!(
            Instruction::from_opcode(opcode, 0x0123).unwrap_err().description,
            format!("Unknown opcode {} ({:#6b})", opcode, opcode)
        );
    }
}

#[test]
fn every_word_decodes_and_goes_there_and_back() {
    let labels = table(&[]);
    for word in 0..=65535u16 {
        let decoded = Instruction::instruction(word).unwrap();
        assert_eq!(decoded.index(), (word >> 12) as u32);
        let encoded = decoded.binary(0, &labels).unwrap();
        assert_eq!(encoded >> 12, word >> 12);
        assert_eq!(Instruction::instruction(encoded), Ok(decoded));
    }
}

#[test]
fn every_instruction_goes_there_and_back() {
    let labels = table(&[]);
    for address in [0u32, 1, 1023, 70000] {
        for instruction in one_of_each() {
            let word = instruction.binary(address, &labels).unwrap();
            assert_eq!(Instruction::instruction(word), Ok(instruction));
        }
    }
    for a in 0..16 {
        for b in 0..16 {
            for c in 0..16 {
                let instruction = Instruction::BitwiseXOR(reg(a), reg(b), reg(c));
                let word = instruction.binary(3, &labels).unwrap();
                assert_eq!(Instruction::instruction(word), Ok(instruction));
            }
        }
    }
    for offset in -8..8 {
        let instruction = Instruction::MemoryStore(reg(9), reg(1), Offset::new(offset).unwrap());
        let word = instruction.binary(3, &labels).unwrap();
        assert_eq!(Instruction::instruction(word), Ok(instruction));
    }
    for value in 0..256 {
        let instruction = Instruction::AddImmediate(reg(9), Immediate::new(value).unwrap());
        let word = instruction.binary(3, &labels).unwrap();
        assert_eq!(Instruction::instruction(word), Ok(instruction));
    }
    for target in 0..1024 {
        for condition in 0..4 {
            let instruction =
                Instruction::Branch(Condition::from_index(condition).unwrap(), at(target));
            let word = instruction.binary(3, &labels).unwrap();
            assert_eq!(Instruction::instruction(word), Ok(instruction));
        }
    }
}

#[test]
fn addresses_that_differ_by_the_address_space_give_the_same_word() {
    let labels = table(&[("end", 5)]);
    for instruction in [
        Instruction::Jump(by(-1)),
        Instruction::Call(by(7)),
        Instruction::Branch(Condition::Zero, by(3)),
        Instruction::Jump(label("end")),
        Instruction::Addition(reg(1), reg(2), reg(3)),
    ] {
        for address in [0u32, 5, 1023] {
            let word = instruction.binary(address, &labels);
            assert_eq!(instruction.binary(address + 1024, &labels), word);
            assert_eq!(instruction.binary(address + 4294966272, &labels), word);
        }
    }
}

#[test]
fn a_label_or_an_offset_comes_back_as_its_address() {
    let labels = table(&[("end", 5), ("far", 1029)]);
    let word = Instruction::Jump(label("end")).binary(2, &labels).unwrap();
    assert_eq!(Instruction::instruction(word), Ok(Instruction::Jump(at(5))));
    let word = Instruction::Call(label("far")).binary(2, &labels).unwrap();
    assert_eq!(Instruction::instruction(word), Ok(Instruction::Call(at(5))));
    let word = Instruction::Branch(Condition::Carry, by(-3)).binary(2, &labels).unwrap();
    assert_eq!(Instruction::instruction(word), Ok(Instruction::Branch(Condition::Carry, at(1023))));
}
