use crate::text::same_text;
use vstd::prelude::*;

verus! {

/// The closed instruction set. Every byte that names no operation decodes
/// to `IGL`.
#[derive(Debug, PartialEq, Eq, Structural, Copy, Clone)]
pub enum Opcode {
    HLT,
    LOAD,
    ADD,
    SUB,
    MUL,
    DIV,
    JMP,
    JMPF,
    JMPB,
    /// equal
    EQ,
    /// not equal
    NEQ,
    /// greater than
    GT,
    /// less than
    LT,
    /// greater or equal
    GTQ,
    /// less or equal
    LTQ,
    /// jump if the flag register holds 1
    JEQ,
    LW,
    SW,
    IGL,
}

/// The opcode that a byte encodes: bytes 0 to 17 in table order, anything
/// else is illegal.
pub open spec fn opcode_of_byte(v: u8) -> Opcode {
    if v == 0 {
        Opcode::HLT
    } else if v == 1 {
        Opcode::LOAD
    } else if v == 2 {
        Opcode::ADD
    } else if v == 3 {
        Opcode::SUB
    } else if v == 4 {
        Opcode::MUL
    } else if v == 5 {
        Opcode::DIV
    } else if v == 6 {
        Opcode::JMP
    } else if v == 7 {
        Opcode::JMPF
    } else if v == 8 {
        Opcode::JMPB
    } else if v == 9 {
        Opcode::EQ
    } else if v == 10 {
        Opcode::NEQ
    } else if v == 11 {
        Opcode::GT
    } else if v == 12 {
        Opcode::LT
    } else if v == 13 {
        Opcode::GTQ
    } else if v == 14 {
        Opcode::LTQ
    } else if v == 15 {
        Opcode::JEQ
    } else if v == 16 {
        Opcode::LW
    } else if v == 17 {
        Opcode::SW
    } else {
        Opcode::IGL
    }
}

impl From<u8> for Opcode {
    fn from(v: u8) -> (r: Opcode)
        ensures
            r == opcode_of_byte(v),
    {
        match v {
            0 => Opcode::HLT,
            1 => Opcode::LOAD,
            2 => Opcode::ADD,
            3 => Opcode::SUB,
            4 => Opcode::MUL,
            5 => Opcode::DIV,
            6 => Opcode::JMP,
            7 => Opcode::JMPF,
            8 => Opcode::JMPB,
            9 => Opcode::EQ,
            10 => Opcode::NEQ,
            11 => Opcode::GT,
            12 => Opcode::LT,
            13 => Opcode::GTQ,
            14 => Opcode::LTQ,
            15 => Opcode::JEQ,
            16 => Opcode::LW,
            17 => Opcode::SW,
            _ => Opcode::IGL,
        }
    }
}

impl vstd::std_specs::convert::FromSpecImpl<u8> for Opcode {
    open spec fn obeys_from_spec() -> bool {
        true
    }

    open spec fn from_spec(v: u8) -> Opcode {
        opcode_of_byte(v)
    }
}

/// The opcode that an assembly mnemonic names; unknown words are illegal.
pub open spec fn opcode_of_mnemonic(m: Seq<char>) -> Opcode {
    if m == "hlt"@ {
        Opcode::HLT
    } else if m == "load"@ {
        Opcode::LOAD
    } else if m == "add"@ {
        Opcode::ADD
    } else if m == "sub"@ {
        Opcode::SUB
    } else if m == "mul"@ {
        Opcode::MUL
    } else if m == "div"@ {
        Opcode::DIV
    } else if m == "jmp"@ {
        Opcode::JMP
    } else if m == "jmpf"@ {
        Opcode::JMPF
    } else if m == "jmpb"@ {
        Opcode::JMPB
    } else if m == "eq"@ {
        Opcode::EQ
    } else if m == "neq"@ {
        Opcode::NEQ
    } else if m == "gt"@ {
        Opcode::GT
    } else if m == "lt"@ {
        Opcode::LT
    } else if m == "gtq"@ {
        Opcode::GTQ
    } else if m == "ltq"@ {
        Opcode::LTQ
    } else if m == "jeq"@ {
        Opcode::JEQ
    } else if m == "lw"@ {
        Opcode::LW
    } else if m == "sw"@ {
        Opcode::SW
    } else {
        Opcode::IGL
    }
}

/// The opcode that the mnemonic `v` names.
pub fn opcode_from_mnemonic(v: &str) -> (r: Opcode)
    ensures
        r == opcode_of_mnemonic(v@),
{
    if same_text(v, "hlt") {
        Opcode::HLT
    } else if same_text(v, "load") {
        Opcode::LOAD
    } else if same_text(v, "add") {
        Opcode::ADD
    } else if same_text(v, "sub") {
        Opcode::SUB
    } else if same_text(v, "mul") {
        Opcode::MUL
    } else if same_text(v, "div") {
        Opcode::DIV
    } else if same_text(v, "jmp") {
        Opcode::JMP
    } else if same_text(v, "jmpf") {
        Opcode::JMPF
    } else if same_text(v, "jmpb") {
        Opcode::JMPB
    } else if same_text(v, "eq") {
        Opcode::EQ
    } else if same_text(v, "neq") {
        Opcode::NEQ
    } else if same_text(v, "gt") {
        Opcode::GT
    } else if same_text(v, "lt") {
        Opcode::LT
    } else if same_text(v, "gtq") {
        Opcode::GTQ
    } else if same_text(v, "ltq") {
        Opcode::LTQ
    } else if same_text(v, "jeq") {
        Opcode::JEQ
    } else if same_text(v, "lw") {
        Opcode::LW
    } else if same_text(v, "sw") {
        Opcode::SW
    } else {
        Opcode::IGL
    }
}

impl<'a> From<&'a str> for Opcode {
    fn from(v: &'a str) -> (r: Opcode)
        ensures
            r == opcode_of_mnemonic(v@),
    {
        opcode_from_mnemonic(v)
    }
}

impl<'a> vstd::std_specs::convert::FromSpecImpl<&'a str> for Opcode {
    open spec fn obeys_from_spec() -> bool {
        true
    }

    open spec fn from_spec(v: &'a str) -> Opcode {
        opcode_of_mnemonic(v@)
    }
}

/// A decoded instruction.
#[derive(Debug, PartialEq, Eq, Structural)]
pub struct Instruction {
    pub opcode: Opcode,
}

impl Instruction {
    pub fn new(opcode: Opcode) -> (r: Instruction)
        ensures
            r.opcode == opcode,
    {
        Instruction { opcode }
    }
}

} // verus!
