use iridium::instruction::{Instruction, Opcode};

#[test]
fn test_create_hlt() {
    let opcode = Opcode::HLT;
    assert_eq!(opcode, Opcode::HLT);
}

#[test]
fn test_create_instruction() {
    let instruction = Instruction::new(Opcode::HLT);
    assert_eq!(instruction.opcode, Opcode::HLT);
}

#[test]
fn opcode_from_every_byte() {
    assert_eq!(Opcode::from(0u8), Opcode::HLT);
    assert_eq!(Opcode::from(1u8), Opcode::LOAD);
    assert_eq!(Opcode::from(5u8), Opcode::DIV);
    assert_eq!(Opcode::from(15u8), Opcode::JEQ);
    assert_eq!(Opcode::from(17u8), Opcode::SW);
    assert_eq!(Opcode::from(18u8), Opcode::IGL);
    assert_eq!(Opcode::from(255u8), Opcode::IGL);
}

#[test]
fn opcode_from_mnemonics() {
    assert_eq!(Opcode::from("hlt"), Opcode::HLT);
    assert_eq!(Opcode::from("load"), Opcode::LOAD);
    assert_eq!(Opcode::from("jmpb"), Opcode::JMPB);
    assert_eq!(Opcode::from("lmpb"), Opcode::IGL);
    assert_eq!(Opcode::from("sw"), Opcode::SW);
    assert_eq!(Opcode::from("LOAD"), Opcode::IGL);
    assert_eq!(Opcode::from(""), Opcode::IGL);
}
