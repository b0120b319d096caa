use isa_codec::assembly_error::AssemblyError;
use isa_codec::components::address::Address;
use isa_codec::components::condition::Condition;
use isa_codec::components::immediate::Immediate;
use isa_codec::components::location::Location;
use isa_codec::components::offset::Offset;
use isa_codec::components::register::Register;
use isa_codec::instruction::Instruction;
use isa_codec::{binary_to_instructions, instructions_to_binary, Labels};

fn reg(number: u32) -> Register {
    Register::new(number).unwrap()
}

fn label(name: &str) -> Location {
    Location::Label(name.to_string())
}

fn table(entries: &[(&str, u32)]) -> Labels {
    let mut labels = Labels::new();
    for (name, value) in entries {
        labels.insert(name.to_string(), *value);
    }
    labels
}

fn placed(description: &str, place: u32) -> AssemblyError {
    AssemblyError { description: description.to_string(), address: Some(place) }
}

#[test]
fn addition_then_jump_to_a_label() {
    let labels = table(&[("end", 5)]);
    let program =
        vec![Instruction::Addition(reg(1), reg(2), reg(3)), Instruction::Jump(label("end"))];
    let words = instructions_to_binary(&program, &labels).unwrap();
    assert_eq!(words.len(), 2);
    assert_eq!(words[1] & 0x03FF, 5);
    assert_eq!(words[1] & 0x0FFF, 5);
    assert_eq!(words[1] >> 12, 10);
    assert_eq!(words, vec![0x2123, 0xA005]);
}

#[test]
fn two_failures_of_three_are_both_reported_in_order() {
    let labels = table(&[("start", 0)]);
    let program = vec![
        Instruction::Jump(label("start")),
        Instruction::Jump(label("middle")),
        Instruction::Call(label("end")),
    ];
    let errors = instructions_to_binary(&program, &labels).unwrap_err();
    assert_eq!(errors.len(), 2);
    assert_eq!(errors[0].address, Some(2));
    assert_eq!(errors[1].address, Some(3));
    assert_eq!(
        errors,
        vec![placed("Unknown label \"middle\"", 2), placed("Unknown label \"end\"", 3)]
    );
}

#[test]
fn one_missing_label_gives_exactly_one_error() {
    let labels = table(&[]);
    let program = vec![Instruction::Jump(label("end"))];
    assert_eq!(
        instructions_to_binary(&program, &labels),
        Err(vec![placed("Unknown label \"end\"", 1)])
    );
}

#[test]
fn a_failure_in_the_middle_does_not_stop_the_pass() {
    let labels = table(&[("known", 9)]);
    let program = vec![
        Instruction::Branch(Condition::Zero, label("a")),
        Instruction::NoOperation,
        Instruction::Jump(label("known")),
        Instruction::Call(label("b")),
        Instruction::Halt,
        Instruction::Jump(label("a")),
    ];
    assert_eq!(
        instructions_to_binary(&program, &labels),
        Err(vec![
            placed("Unknown label \"a\"", 1),
            placed("Unknown label \"b\"", 4),
            placed("Unknown label \"a\"", 6),
        ])
    );
}

#[test]
fn each_instruction_is_encoded_at_its_own_address() {
    let labels = table(&[]);
    let back = Location::Offset(Offset::new(-1).unwrap());
    let forward = Location::Offset(Offset::new(2).unwrap());
    let program = vec![
        Instruction::Jump(back.clone()),
        Instruction::Jump(back.clone()),
        Instruction::Call(forward.clone()),
        Instruction::Branch(Condition::NotCarry, back),
    ];
    assert_eq!(
        instructions_to_binary(&program, &labels),
        Ok(vec![0xA3FF, 0xA000, 0xC004, 0xBC02])
    );
}

#[test]
fn an_empty_program_has_no_words_and_no_errors() {
    let labels = table(&[]);
    assert_eq!(instructions_to_binary(&Vec::new(), &labels), Ok(Vec::new()));
    assert_eq!(binary_to_instructions(&Vec::new()), Ok(Vec::new()));
}

#[test]
fn words_decode_in_order() {
    let words = vec![0x2123, 0xA005, 0x0000, 0xE12F, 0x8F80];
    assert_eq!(
        binary_to_instructions(&words),
        Ok(vec![
            Instruction::Addition(reg(1), reg(2), reg(3)),
            Instruction::Jump(Location::Address(Address::new(5).unwrap())),
            Instruction::NoOperation,
            Instruction::MemoryLoad(reg(1), reg(2), Offset::new(-1).unwrap()),
            Instruction::LoadImmediate(reg(15), Immediate::new(128).unwrap()),
        ])
    );
}

#[test]
fn every_word_decodes_in_one_pass() {
    let words: Vec<u16> = (0..=65535).collect();
    let program = binary_to_instructions(&words).unwrap();
    assert_eq!(program.len(), 65536);
    for (place, instruction) in program.iter().enumerate() {
        assert_eq!(instruction.index(), (place >> 12) as u32);
    }
}

#[test]
fn a_program_goes_there_and_back() {
    let labels = table(&[]);
    let program = vec![
        Instruction::LoadImmediate(reg(1), Immediate::new(10).unwrap()),
        Instruction::AddImmediate(reg(1), Immediate::new_signed(-1).unwrap()),
        Instruction::Branch(Condition::NotZero, Location::Address(Address::new(1).unwrap())),
        Instruction::MemoryStore(reg(1), reg(2), Offset::new(-4).unwrap()),
        Instruction::Call(Location::Address(Address::new(1000).unwrap())),
        Instruction::Return,
        Instruction::Halt,
    ];
    let words = instructions_to_binary(&program, &labels).unwrap();
    assert_eq!(words, vec![0x810A, 0x91FF, 0xB401, 0xF12C, 0xC3E8, 0xD000, 0x1000]);
    assert_eq!(binary_to_instructions(&words), Ok(program));
}

#[test]
fn labels_and_offsets_come_back_as_addresses() {
    let labels = table(&[("loop", 1), ("end", 3)]);
    let program = vec![
        Instruction::Jump(label("end")),
        Instruction::NoOperation,
        Instruction::Branch(Condition::Carry, Location::Offset(Offset::new(-1).unwrap())),
        Instruction::Call(label("loop")),
    ];
    let words = instructions_to_binary(&program, &labels).unwrap();
    assert_eq!(
        binary_to_instructions(&words),
        Ok(vec![
            Instruction::Jump(Location::Address(Address::new(3).unwrap())),
            Instruction::NoOperation,
            Instruction::Branch(Condition::Carry, Location::Address(Address::new(1).unwrap())),
            Instruction::Call(Location::Address(Address::new(1).unwrap())),
        ])
    );
}
