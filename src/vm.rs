//! The interpreter: a machine value that executes its program one
//! instruction at a time.
use crate::instruction::{Opcode, opcode_of_byte};
use crate::machine::{
    exec_step, heap_window_ok, is_three_register, operand_count, run_steps, step_jump,
    step_memory, step_three_register, store_word, trunc_rem, u32_bits, valid_register, word_at,
    wrap_i32, MachineState, StepOutcome, VmError, HEAP_SIZE, REGISTER_COUNT,
};
use vstd::prelude::*;

verus! {

/// A register machine with its program, heap and status.
pub struct VM {
    pub registers: [i32; 32],
    pub heap: [u8; 1000],
    pub pc: usize,
    pub program: Vec<u8>,
    pub remainder: u32,
}

impl View for VM {
    type V = MachineState;

    open spec fn view(&self) -> MachineState {
        MachineState {
            registers: self.registers@,
            heap: self.heap@,
            pc: self.pc as int,
            program: self.program@,
            remainder: self.remainder,
        }
    }
}

impl VM {
    /// A machine with zeroed registers and heap and an empty program.
    pub fn new() -> (r: VM)
        ensures
            r@.registers == Seq::new(REGISTER_COUNT as nat, |i: int| 0i32),
            r@.heap == Seq::new(HEAP_SIZE as nat, |i: int| 0u8),
            r@.pc == 0,
            r@.program == Seq::<u8>::empty(),
            r@.remainder == 0,
    {
        let r = VM { registers: [0; 32], heap: [0; 1000], pc: 0, program: Vec::new(), remainder: 0 };
        assert(r@.registers =~= Seq::new(REGISTER_COUNT as nat, |i: int| 0i32));
        assert(r@.heap =~= Seq::new(HEAP_SIZE as nat, |i: int| 0u8));
        r
    }

    /// Appends one byte to the program.
    pub fn add_program_byte(&mut self, byte: u8)
        ensures
            final(self)@ == (MachineState { program: old(self)@.program.push(byte), ..old(self)@ }),
    {
        self.program.push(byte);
    }

    fn decode_opcode(&mut self) -> (r: Opcode)
        requires
            old(self).pc < old(self).program.len(),
        ensures
            r == opcode_of_byte(old(self).program@[old(self).pc as int]),
            final(self)@ == old(self)@.with_pc(old(self).pc + 1),
    {
        let opcode = Opcode::from(self.program[self.pc]);
        self.pc = self.pc + 1;
        opcode
    }

    fn next_8_bits(&mut self) -> (r: u8)
        requires
            old(self).pc < old(self).program.len(),
        ensures
            r == old(self).program@[old(self).pc as int],
            final(self)@ == old(self)@.with_pc(old(self).pc + 1),
    {
        let result = self.program[self.pc];
        self.pc = self.pc + 1;
        result
    }

    fn next_16_bits(&mut self) -> (r: u16)
        requires
            old(self).pc + 2 <= old(self).program.len(),
        ensures
            r == old(self).program@[old(self).pc as int] * 0x100 + old(self).program@[old(self).pc + 1],
            final(self)@ == old(self)@.with_pc(old(self).pc + 2),
    {
        let result = (self.program[self.pc] as u16) * 0x100 + self.program[self.pc + 1] as u16;
        self.pc = self.pc + 2;
        result
    }

    /// Executes one instruction, or reports the end of the program when the
    /// program counter is at or past its last byte. A refused step leaves
    /// the machine as it was.
    fn execute_instruction(&mut self) -> (r: Result<StepOutcome, VmError>)
        ensures
            final(self)@ == exec_step(old(self)@).0,
            r == exec_step(old(self)@).1,
    {
        if self.pc >= self.program.len() {
            return Ok(StepOutcome::EndOfProgram);
        }
        let start = self.pc;
        let opcode = self.decode_opcode();
        if operand_width(opcode) > self.program.len() - self.pc {
            self.pc = start;
            return Err(VmError::TruncatedInstruction);
        }
        let r = match opcode {
            Opcode::HLT => Ok(StepOutcome::Halt),
            Opcode::IGL => Ok(StepOutcome::IllegalOpcode),
            Opcode::LOAD => self.execute_load(),
            Opcode::JMP | Opcode::JMPF | Opcode::JMPB | Opcode::JEQ => self.execute_jump(opcode),
            Opcode::LW | Opcode::SW => self.execute_memory(opcode),
            _ => self.execute_three_register(opcode),
        };
        if r.is_err() {
            self.pc = start;
        }
        r
    }

    /// Executes exactly one instruction (or performs the end-of-program
    /// check) and reports what happened.
    pub fn run_once(&mut self) -> (r: Result<StepOutcome, VmError>)
        ensures
            final(self)@ == exec_step(old(self)@).0,
            r == exec_step(old(self)@).1,
    {
        self.execute_instruction()
    }

    /// Executes instructions until a step reports anything but `Continue`,
    /// for at most `max_steps` steps, and returns that report (`Continue`
    /// when the steps ran out).
    pub fn run_for(&mut self, max_steps: u64) -> (r: Result<StepOutcome, VmError>)
        ensures
            final(self)@ == run_steps(old(self)@, max_steps as nat).0,
            r == run_steps(old(self)@, max_steps as nat).1,
    {
        let mut left = max_steps;
        while left > 0
            invariant
                run_steps(self@, left as nat) == run_steps(old(self)@, max_steps as nat),
            decreases left,
        {
            let r = self.execute_instruction();
            match r {
                Ok(StepOutcome::Continue) => {},
                _ => return r,
            }
            left = left - 1;
        }
        Ok(StepOutcome::Continue)
    }

    /// Executes instructions until the program halts, hits an illegal
    /// opcode, runs off its end or a step is refused, and returns that
    /// report. The loop gives up, reporting `Continue`, only after
    /// `u64::MAX` steps.
    pub fn run(&mut self) -> (r: Result<StepOutcome, VmError>)
        ensures
            final(self)@ == run_steps(old(self)@, u64::MAX as nat).0,
            r == run_steps(old(self)@, u64::MAX as nat).1,
    {
        self.run_for(u64::MAX)
    }

    /// Runs a two-source, one-destination opcode whose opcode byte sits just
    /// before the program counter.
    fn execute_three_register(&mut self, op: Opcode) -> (r: Result<StepOutcome, VmError>)
        requires
            is_three_register(op),
            1 <= old(self).pc,
            old(self).pc + 3 <= old(self).program.len(),
        ensures
            ({
                let m = old(self)@.with_pc(old(self).pc - 1);
                &&& r == step_three_register(m, op).1
                &&& r is Ok ==> final(self)@ == step_three_register(m, op).0
                &&& r is Err ==> final(self)@.with_pc(m.pc) == m
            }),
    {
        let r1 = self.next_8_bits();
        let r2 = self.next_8_bits();
        let rd = self.next_8_bits();
        if r1 as usize >= REGISTER_COUNT || r2 as usize >= REGISTER_COUNT || rd as usize >= REGISTER_COUNT {
            return Err(VmError::RegisterOutOfRange);
        }
        let a = self.registers[r1 as usize];
        let b = self.registers[r2 as usize];
        if op == Opcode::DIV && b == 0 {
            return Err(VmError::DivisionByZero);
        }
        proof {
            lemma_wrapping_add(a, b);
            lemma_wrapping_sub(a, b);
            lemma_wrapping_mul(a, b);
        }
        let v: i32 = match op {
            Opcode::ADD => a.wrapping_add(b),
            Opcode::SUB => a.wrapping_sub(b),
            Opcode::MUL => a.wrapping_mul(b),
            Opcode::DIV => a.wrapping_add(b),
            Opcode::EQ => if a == b { 1 } else { 0 },
            Opcode::NEQ => if a != b { 1 } else { 0 },
            Opcode::GT => if a > b { 1 } else { 0 },
            Opcode::LT => if a < b { 1 } else { 0 },
            Opcode::GTQ => if a >= b { 1 } else { 0 },
            _ => if a <= b { 1 } else { 0 },
        };
        self.registers[rd as usize] = v;
        assert(self@.registers =~= old(self)@.registers.update(rd as int, v));
        if op == Opcode::DIV {
            let ua: u32 = if a < 0 { (-(a as i64)) as u32 } else { a as u32 };
            let ub: u32 = if b < 0 { (-(b as i64)) as u32 } else { b as u32 };
            let m: u32 = ua % ub;
            let rem: i32 = if a < 0 { -(m as i64) as i32 } else { m as i32 };
            assert(rem as int == trunc_rem(a as int, b as int));
            self.remainder = to_u32_bits(rem);
        }
        Ok(StepOutcome::Continue)
    }

    /// Runs `LOAD` whose opcode byte sits just before the program counter.
    fn execute_load(&mut self) -> (r: Result<StepOutcome, VmError>)
        requires
            1 <= old(self).pc,
            old(self).pc + 3 <= old(self).program.len(),
        ensures
            ({
                let m = old(self)@.with_pc(old(self).pc - 1);
                let reg = m.operand(1);
                &&& valid_register(reg) ==> r == Ok::<StepOutcome, VmError>(StepOutcome::Continue)
                    && final(self)@ == m.with_register(
                        reg,
                        (m.operand(2) * 0x100 + m.operand(3)) as i32,
                        m.pc + 4,
                    )
                &&& !valid_register(reg) ==> r == Err::<StepOutcome, VmError>(VmError::RegisterOutOfRange)
                    && final(self)@.with_pc(m.pc) == m
            }),
    {
        let register = self.next_8_bits();
        let number = self.next_16_bits();
        if register as usize >= REGISTER_COUNT {
            return Err(VmError::RegisterOutOfRange);
        }
        self.registers[register as usize] = number as i32;
        assert(self@.registers =~= old(self)@.registers.update(register as int, number as i32));
        Ok(StepOutcome::Continue)
    }

    /// Runs `JMP`, `JMPF`, `JMPB` or `JEQ` whose opcode byte sits just before
    /// the program counter.
    fn execute_jump(&mut self, op: Opcode) -> (r: Result<StepOutcome, VmError>)
        requires
            op == Opcode::JMP || op == Opcode::JMPF || op == Opcode::JMPB || op == Opcode::JEQ,
            1 <= old(self).pc,
            old(self).pc + operand_count(op) <= old(self).program.len(),
        ensures
            ({
                let m = old(self)@.with_pc(old(self).pc - 1);
                &&& r == step_jump(m, op).1
                &&& r is Ok ==> final(self)@ == step_jump(m, op).0
                &&& r is Err ==> final(self)@.with_pc(m.pc) == m
            }),
    {
        let register = self.next_8_bits();
        if register as usize >= REGISTER_COUNT {
            return Err(VmError::RegisterOutOfRange);
        }
        let value = self.registers[register as usize];
        match op {
            Opcode::JMP => self.jump(displaced(0, value, true)),
            Opcode::JMPF => self.jump(displaced(self.pc, value, true)),
            Opcode::JMPB => self.jump(displaced(self.pc, value, false)),
            _ => {
                let flag = self.next_8_bits();
                if flag as usize >= REGISTER_COUNT {
                    return Err(VmError::RegisterOutOfRange);
                }
                if self.registers[flag as usize] == 1 {
                    self.jump(displaced(0, value, true))
                } else if self.pc >= self.program.len() {
                    Err(VmError::TruncatedInstruction)
                } else {
                    self.next_8_bits();
                    Ok(StepOutcome::Continue)
                }
            },
        }
    }

    /// Moves the program counter to `target`, or refuses when there is none.
    fn jump(&mut self, target: Option<usize>) -> (r: Result<StepOutcome, VmError>)
        ensures
            target is Some ==> r == Ok::<StepOutcome, VmError>(StepOutcome::Continue)
                && final(self)@ == old(self)@.with_pc(target->0 as int),
            target is None ==> r == Err::<StepOutcome, VmError>(VmError::JumpOutOfRange)
                && final(self)@ == old(self)@,
    {
        match target {
            Some(t) => {
                self.pc = t;
                Ok(StepOutcome::Continue)
            },
            None => Err(VmError::JumpOutOfRange),
        }
    }

    /// Runs `LW` or `SW` whose opcode byte sits just before the program
    /// counter.
    fn execute_memory(&mut self, op: Opcode) -> (r: Result<StepOutcome, VmError>)
        requires
            op == Opcode::LW || op == Opcode::SW,
            1 <= old(self).pc,
            old(self).pc + 3 <= old(self).program.len(),
        ensures
            ({
                let m = old(self)@.with_pc(old(self).pc - 1);
                &&& r == step_memory(m, op).1
                &&& r is Ok ==> final(self)@ == step_memory(m, op).0
                &&& r is Err ==> final(self)@.with_pc(m.pc) == m
            }),
    {
        let register = self.next_8_bits();
        let base = self.next_8_bits();
        let offset = self.next_8_bits();
        if register as usize >= REGISTER_COUNT || base as usize >= REGISTER_COUNT {
            return Err(VmError::RegisterOutOfRange);
        }
        let composed = self.registers[base as usize] as i64 + offset as i64;
        if composed < 0 {
            return Err(VmError::HeapOutOfBounds);
        }
        let addr = composed as usize;
        if op == Opcode::LW {
            match self.load_word_from_heap(addr) {
                Ok(w) => {
                    let v = from_u32_bits(w);
                    self.registers[register as usize] = v;
                    assert(self@.registers =~= old(self)@.registers.update(register as int, v));
                    Ok(StepOutcome::Continue)
                },
                Err(e) => Err(e),
            }
        } else {
            let value = self.registers[register as usize];
            match self.store_word_into_heap(value, addr) {
                Ok(()) => Ok(StepOutcome::Continue),
                Err(e) => Err(e),
            }
        }
    }

    /// Reads the big-endian word whose first byte is at `addr`.
    fn load_word_from_heap(&self, addr: usize) -> (r: Result<u32, VmError>)
        ensures
            heap_window_ok(addr as int) ==> r == Ok::<u32, VmError>(word_at(self.heap@, addr as int)),
            !heap_window_ok(addr as int) ==> r == Err::<u32, VmError>(VmError::HeapOutOfBounds),
    {
        if addr > HEAP_SIZE - 4 {
            return Err(VmError::HeapOutOfBounds);
        }
        let w = (self.heap[addr] as u32) * 0x100_0000 + (self.heap[addr + 1] as u32) * 0x1_0000
            + (self.heap[addr + 2] as u32) * 0x100 + self.heap[addr + 3] as u32;
        Ok(w)
    }

    /// Writes `value` big-endian at `addr`; a window outside the heap is
    /// refused and nothing is written.
    fn store_word_into_heap(&mut self, value: i32, addr: usize) -> (r: Result<(), VmError>)
        ensures
            heap_window_ok(addr as int) ==> r is Ok && final(self)@ == (MachineState {
                heap: store_word(old(self)@.heap, addr as int, u32_bits(value)),
                ..old(self)@
            }),
            !heap_window_ok(addr as int) ==> r == Err::<(), VmError>(VmError::HeapOutOfBounds)
                && final(self)@ == old(self)@,
    {
        if addr > HEAP_SIZE - 4 {
            return Err(VmError::HeapOutOfBounds);
        }
        let u = to_u32_bits(value);
        self.heap[addr] = (u / 0x100_0000) as u8;
        self.heap[addr + 1] = ((u / 0x1_0000) % 0x100) as u8;
        self.heap[addr + 2] = ((u / 0x100) % 0x100) as u8;
        self.heap[addr + 3] = (u % 0x100) as u8;
        assert(self@.heap =~= store_word(old(self)@.heap, addr as int, u32_bits(value)));
        Ok(())
    }
}

/// `pc` moved by `d` forward or backward, if the result is a `usize`.
fn displaced(pc: usize, d: i32, forward: bool) -> (r: Option<usize>)
    ensures
        ({
            let t = if forward { pc + d } else { pc - d };
            &&& 0 <= t <= usize::MAX ==> r == Some(t as usize)
            &&& !(0 <= t <= usize::MAX) ==> r is None
        }),
{
    let up = if forward { d >= 0 } else { d < 0 };
    let magnitude: usize = if d >= 0 { d as usize } else { (-(d as i64)) as usize };
    if up {
        if magnitude > usize::MAX - pc {
            None
        } else {
            Some(pc + magnitude)
        }
    } else {
        if magnitude > pc {
            None
        } else {
            Some(pc - magnitude)
        }
    }
}

/// The exec counterpart of `operand_count`.
fn operand_width(op: Opcode) -> (r: usize)
    ensures
        r == operand_count(op),
{
    match op {
        Opcode::HLT | Opcode::IGL => 0,
        Opcode::JMP | Opcode::JMPF | Opcode::JMPB => 1,
        Opcode::JEQ => 2,
        _ => 3,
    }
}

proof fn lemma_wrapping_add(a: i32, b: i32)
    ensures
        vstd::wrapping::i32_specs::wrapping_add(a, b) == wrap_i32(a + b),
{
}

proof fn lemma_wrapping_sub(a: i32, b: i32)
    ensures
        vstd::wrapping::i32_specs::wrapping_sub(a, b) == wrap_i32(a - b),
{
}

proof fn lemma_wrapping_mul(a: i32, b: i32)
    ensures
        vstd::wrapping::i32_specs::wrapping_mul(a, b) == wrap_i32(a * b),
{
}

/// The unsigned bit pattern of `v`.
fn to_u32_bits(v: i32) -> (r: u32)
    ensures
        r == u32_bits(v),
{
    if v < 0 {
        (v as i64 + 0x1_0000_0000) as u32
    } else {
        v as u32
    }
}

/// The signed value whose bit pattern is `w`.
fn from_u32_bits(w: u32) -> (r: i32)
    ensures
        r == wrap_i32(w as int),
{
    if w > 0x7fff_ffff {
        (w as i64 - 0x1_0000_0000) as i32
    } else {
        w as i32
    }
}

} // verus!
