//! The mathematical model of the machine and the meaning of each opcode.
use crate::instruction::{Opcode, opcode_of_byte};
use vstd::prelude::*;

verus! {

/// Number of general-purpose registers.
pub const REGISTER_COUNT: usize = 32;

/// Size of the heap in bytes.
pub const HEAP_SIZE: usize = 1000;

/// What a single step reports when it did not fail.
#[derive(Debug, PartialEq, Eq, Structural, Copy, Clone)]
pub enum StepOutcome {
    /// An instruction ran and execution may go on.
    Continue,
    /// `HLT` was executed.
    Halt,
    /// The opcode byte named no operation; execution stops.
    IllegalOpcode,
    /// The program counter is at or past the end of the program.
    EndOfProgram,
}

/// Why a step was refused. A refused step leaves the machine unchanged.
#[derive(Debug, PartialEq, Eq, Structural, Copy, Clone)]
pub enum VmError {
    /// The program ends before the instruction's operand bytes do.
    TruncatedInstruction,
    /// An operand byte names a register that does not exist.
    RegisterOutOfRange,
    /// A four-byte heap window does not lie inside the heap.
    HeapOutOfBounds,
    /// `DIV` with a zero divisor.
    DivisionByZero,
    /// A jump would move the program counter below zero or past `usize`.
    JumpOutOfRange,
}

/// The abstract state of a machine.
pub struct MachineState {
    pub registers: Seq<i32>,
    pub heap: Seq<u8>,
    pub pc: int,
    pub program: Seq<u8>,
    pub remainder: u32,
}

/// Two's-complement wraparound of an integer into 32 bits.
pub open spec fn wrap_i32(x: int) -> i32 {
    let m = x % 0x1_0000_0000;
    if m > i32::MAX {
        (m - 0x1_0000_0000) as i32
    } else {
        m as i32
    }
}

/// The unsigned 32-bit pattern of a signed value.
pub open spec fn u32_bits(v: i32) -> u32 {
    if v < 0 {
        (v + 0x1_0000_0000) as u32
    } else {
        v as u32
    }
}

/// Remainder of truncating division: the sign follows the dividend.
pub open spec fn trunc_rem(a: int, b: int) -> int {
    let d = if b < 0 { -b } else { b };
    if a >= 0 {
        a % d
    } else {
        -((-a) % d)
    }
}

/// The big-endian word stored at `addr`.
pub open spec fn word_at(heap: Seq<u8>, addr: int) -> u32 {
    (heap[addr] * 0x100_0000 + heap[addr + 1] * 0x1_0000 + heap[addr + 2] * 0x100
        + heap[addr + 3]) as u32
}

/// The heap with `w` written big-endian at `addr`.
pub open spec fn store_word(heap: Seq<u8>, addr: int, w: u32) -> Seq<u8> {
    heap.update(addr, (w / 0x100_0000) as u8).update(addr + 1, ((w / 0x1_0000) % 0x100) as u8).update(
        addr + 2,
        ((w / 0x100) % 0x100) as u8,
    ).update(addr + 3, (w % 0x100) as u8)
}

/// Whether a four-byte window at `addr` lies inside a heap of `HEAP_SIZE` bytes.
pub open spec fn heap_window_ok(addr: int) -> bool {
    0 <= addr && addr + 4 <= HEAP_SIZE
}

/// Operand bytes that must follow the opcode byte before the instruction
/// can run. `JEQ` needs one more when it falls through.
pub open spec fn operand_count(op: Opcode) -> int {
    match op {
        Opcode::HLT | Opcode::IGL => 0,
        Opcode::JMP | Opcode::JMPF | Opcode::JMPB => 1,
        Opcode::JEQ => 2,
        _ => 3,
    }
}

/// The value that a three-register opcode writes to its destination.
pub open spec fn alu(op: Opcode, a: i32, b: i32) -> i32 {
    match op {
        Opcode::ADD => wrap_i32(a + b),
        Opcode::SUB => wrap_i32(a - b),
        Opcode::MUL => wrap_i32(a * b),
        Opcode::DIV => wrap_i32(a + b),
        Opcode::EQ => if a == b { 1 } else { 0 },
        Opcode::NEQ => if a != b { 1 } else { 0 },
        Opcode::GT => if a > b { 1 } else { 0 },
        Opcode::LT => if a < b { 1 } else { 0 },
        Opcode::GTQ => if a >= b { 1 } else { 0 },
        Opcode::LTQ => if a <= b { 1 } else { 0 },
        _ => 0,
    }
}

/// Opcodes that read two registers and write a third.
pub open spec fn is_three_register(op: Opcode) -> bool {
    match op {
        Opcode::ADD | Opcode::SUB | Opcode::MUL | Opcode::DIV | Opcode::EQ | Opcode::NEQ
        | Opcode::GT | Opcode::LT | Opcode::GTQ | Opcode::LTQ => true,
        _ => false,
    }
}

/// Opcodes whose result is a comparison.
pub open spec fn is_comparison(op: Opcode) -> bool {
    match op {
        Opcode::EQ | Opcode::NEQ | Opcode::GT | Opcode::LT | Opcode::GTQ | Opcode::LTQ => true,
        _ => false,
    }
}

pub open spec fn valid_register(b: u8) -> bool {
    b < REGISTER_COUNT
}

impl MachineState {
    /// The `k`-th byte of the instruction at the program counter.
    pub open spec fn operand(self, k: int) -> u8 {
        self.program[self.pc + k]
    }

    pub open spec fn reg(self, b: u8) -> i32 {
        self.registers[b as int]
    }

    pub open spec fn with_pc(self, pc: int) -> MachineState {
        MachineState { pc, ..self }
    }

    pub open spec fn with_register(self, b: u8, v: i32, pc: int) -> MachineState {
        MachineState { registers: self.registers.update(b as int, v), pc, ..self }
    }

    /// A well-formed state: a full register file and heap, and a program
    /// counter that a `usize` holds.
    pub open spec fn wf(self) -> bool {
        &&& self.registers.len() == REGISTER_COUNT
        &&& self.heap.len() == HEAP_SIZE
        &&& 0 <= self.pc <= usize::MAX
        &&& self.program.len() <= usize::MAX
    }
}

/// Where a jump lands, if a `usize` program counter can hold it.
pub open spec fn jump_result(m: MachineState, target: int) -> (MachineState, Result<StepOutcome, VmError>) {
    if 0 <= target <= usize::MAX {
        (m.with_pc(target), Ok(StepOutcome::Continue))
    } else {
        (m, Err(VmError::JumpOutOfRange))
    }
}

/// Effect of a three-register opcode.
pub open spec fn step_three_register(m: MachineState, op: Opcode) -> (MachineState, Result<StepOutcome, VmError>) {
    let (r1, r2, rd) = (m.operand(1), m.operand(2), m.operand(3));
    if !valid_register(r1) || !valid_register(r2) || !valid_register(rd) {
        (m, Err(VmError::RegisterOutOfRange))
    } else if op == Opcode::DIV && m.reg(r2) == 0 {
        (m, Err(VmError::DivisionByZero))
    } else {
        let a = m.reg(r1);
        let b = m.reg(r2);
        let next = m.with_register(rd, alu(op, a, b), m.pc + 4);
        if op == Opcode::DIV {
            (MachineState { remainder: u32_bits(trunc_rem(a as int, b as int) as i32), ..next }, Ok(StepOutcome::Continue))
        } else {
            (next, Ok(StepOutcome::Continue))
        }
    }
}

/// Effect of `JMP`, `JMPF`, `JMPB` and `JEQ`.
pub open spec fn step_jump(m: MachineState, op: Opcode) -> (MachineState, Result<StepOutcome, VmError>) {
    let r = m.operand(1);
    if !valid_register(r) {
        (m, Err(VmError::RegisterOutOfRange))
    } else if op == Opcode::JMP {
        jump_result(m, m.reg(r) as int)
    } else if op == Opcode::JMPF {
        jump_result(m, m.pc + 2 + m.reg(r))
    } else if op == Opcode::JMPB {
        jump_result(m, m.pc + 2 - m.reg(r))
    } else {
        let f = m.operand(2);
        if !valid_register(f) {
            (m, Err(VmError::RegisterOutOfRange))
        } else if m.reg(f) == 1 {
            jump_result(m, m.reg(r) as int)
        } else if m.pc + 4 > m.program.len() {
            (m, Err(VmError::TruncatedInstruction))
        } else {
            (m.with_pc(m.pc + 4), Ok(StepOutcome::Continue))
        }
    }
}

/// Effect of `LW` and `SW`.
pub open spec fn step_memory(m: MachineState, op: Opcode) -> (MachineState, Result<StepOutcome, VmError>) {
    let (r, base, offset) = (m.operand(1), m.operand(2), m.operand(3));
    if !valid_register(r) || !valid_register(base) {
        (m, Err(VmError::RegisterOutOfRange))
    } else {
        let addr = m.reg(base) + offset;
        if !heap_window_ok(addr) {
            (m, Err(VmError::HeapOutOfBounds))
        } else if op == Opcode::LW {
            (m.with_register(r, wrap_i32(word_at(m.heap, addr) as int), m.pc + 4), Ok(StepOutcome::Continue))
        } else {
            (MachineState { heap: store_word(m.heap, addr, u32_bits(m.reg(r))), pc: m.pc + 4, ..m }, Ok(StepOutcome::Continue))
        }
    }
}

/// One fetch-decode-execute step: the next state and what the step reports.
/// A refused step leaves the state as it was.
pub open spec fn exec_step(m: MachineState) -> (MachineState, Result<StepOutcome, VmError>) {
    if m.pc >= m.program.len() {
        (m, Ok(StepOutcome::EndOfProgram))
    } else {
        let op = opcode_of_byte(m.program[m.pc]);
        if m.pc + 1 + operand_count(op) > m.program.len() {
            (m, Err(VmError::TruncatedInstruction))
        } else {
            match op {
                Opcode::HLT => (m.with_pc(m.pc + 1), Ok(StepOutcome::Halt)),
                Opcode::IGL => (m.with_pc(m.pc + 1), Ok(StepOutcome::IllegalOpcode)),
                Opcode::LOAD => {
                    let r = m.operand(1);
                    if !valid_register(r) {
                        (m, Err(VmError::RegisterOutOfRange))
                    } else {
                        let v = m.operand(2) * 0x100 + m.operand(3);
                        (m.with_register(r, v as i32, m.pc + 4), Ok(StepOutcome::Continue))
                    }
                },
                Opcode::JMP | Opcode::JMPF | Opcode::JMPB | Opcode::JEQ => step_jump(m, op),
                Opcode::LW | Opcode::SW => step_memory(m, op),
                _ => step_three_register(m, op),
            }
        }
    }
}

/// Steps taken one after another while each reports `Continue`, for at most
/// `fuel` steps. When the fuel runs out the report is `Continue`.
pub open spec fn run_steps(m: MachineState, fuel: nat) -> (MachineState, Result<StepOutcome, VmError>)
    decreases fuel,
{
    if fuel == 0 {
        (m, Ok(StepOutcome::Continue))
    } else {
        let (next, r) = exec_step(m);
        if r == Ok::<StepOutcome, VmError>(StepOutcome::Continue) {
            run_steps(next, (fuel - 1) as nat)
        } else {
            (next, r)
        }
    }
}

} // verus!
