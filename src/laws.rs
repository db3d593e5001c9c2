//! Properties of the instruction semantics, stated over the machine model
//! and proved from the definition of a step. `VM::run_once` ensures that
//! its new state is `exec_step(old@).0` and its report `exec_step(old@).1`,
//! so each lemma here describes what one call of it does.
use crate::instruction::{Opcode, opcode_of_byte};
use crate::machine::{
    exec_step, heap_window_ok, is_comparison, run_steps, store_word, u32_bits, valid_register,
    word_at, wrap_i32, MachineState, StepOutcome, VmError,
};
use vstd::prelude::*;

verus! {

/// `wrap_i32` keeps a value's residue modulo 2^32, and leaves a value that
/// already fits in 32 signed bits alone.
pub proof fn lemma_wrap_i32(x: int)
    ensures
        (wrap_i32(x) - x) % 0x1_0000_0000 == 0,
        i32::MIN <= x <= i32::MAX ==> wrap_i32(x) == x,
{
}

/// `LOAD r, hi, lo` with a valid register sets that register to the
/// big-endian 16-bit immediate and moves the program counter by 4.
pub proof fn lemma_load_sets_register(m: MachineState)
    requires
        m.wf(),
        0 <= m.pc,
        m.pc + 4 <= m.program.len(),
        opcode_of_byte(m.program[m.pc]) == Opcode::LOAD,
        valid_register(m.operand(1)),
    ensures
        exec_step(m).1 == Ok::<StepOutcome, VmError>(StepOutcome::Continue),
        exec_step(m).0.reg(m.operand(1)) as int == m.operand(2) * 0x100 + m.operand(3),
        0 <= exec_step(m).0.reg(m.operand(1)) <= 0xffff,
        exec_step(m).0.pc == m.pc + 4,
{
}

/// `ADD`, `SUB` and `MUL` write the exact result reduced to 32 bits in two's
/// complement, and move the program counter by 4.
pub proof fn lemma_arithmetic_wraps(m: MachineState)
    requires
        m.wf(),
        0 <= m.pc,
        m.pc + 4 <= m.program.len(),
        opcode_of_byte(m.program[m.pc]) == Opcode::ADD || opcode_of_byte(m.program[m.pc])
            == Opcode::SUB || opcode_of_byte(m.program[m.pc]) == Opcode::MUL,
        valid_register(m.operand(1)),
        valid_register(m.operand(2)),
        valid_register(m.operand(3)),
    ensures
        ({
            let op = opcode_of_byte(m.program[m.pc]);
            let a = m.reg(m.operand(1)) as int;
            let b = m.reg(m.operand(2)) as int;
            let exact = if op == Opcode::ADD {
                a + b
            } else if op == Opcode::SUB {
                a - b
            } else {
                a * b
            };
            let (next, r) = exec_step(m);
            &&& r == Ok::<StepOutcome, VmError>(StepOutcome::Continue)
            &&& next.reg(m.operand(3)) == wrap_i32(exact)
            &&& (next.reg(m.operand(3)) - exact) % 0x1_0000_0000 == 0
            &&& i32::MIN <= exact <= i32::MAX ==> next.reg(m.operand(3)) == exact
            &&& next.pc == m.pc + 4
        }),
{
    let op = opcode_of_byte(m.program[m.pc]);
    let a = m.reg(m.operand(1)) as int;
    let b = m.reg(m.operand(2)) as int;
    if op == Opcode::ADD {
        lemma_wrap_i32(a + b);
    } else if op == Opcode::SUB {
        lemma_wrap_i32(a - b);
    } else {
        lemma_wrap_i32(a * b);
    }
}

/// A comparison writes 1 when its relation holds and 0 otherwise, and no
/// other value, for every pair of signed operands.
pub proof fn lemma_comparison_is_boolean(m: MachineState)
    requires
        m.wf(),
        0 <= m.pc,
        m.pc + 4 <= m.program.len(),
        is_comparison(opcode_of_byte(m.program[m.pc])),
        valid_register(m.operand(1)),
        valid_register(m.operand(2)),
        valid_register(m.operand(3)),
    ensures
        ({
            let op = opcode_of_byte(m.program[m.pc]);
            let a = m.reg(m.operand(1));
            let b = m.reg(m.operand(2));
            let holds = match op {
                Opcode::EQ => a == b,
                Opcode::NEQ => a != b,
                Opcode::GT => a > b,
                Opcode::LT => a < b,
                Opcode::GTQ => a >= b,
                _ => a <= b,
            };
            let (next, r) = exec_step(m);
            &&& r == Ok::<StepOutcome, VmError>(StepOutcome::Continue)
            &&& next.reg(m.operand(3)) == 0 || next.reg(m.operand(3)) == 1
            &&& next.reg(m.operand(3)) == 1 <==> holds
            &&& next.pc == m.pc + 4
        }),
{
}

/// `JMPF` and `JMPB` move the program counter by the register's value,
/// forward or back, from the byte after the instruction.
pub proof fn lemma_relative_jump(m: MachineState)
    requires
        m.wf(),
        0 <= m.pc,
        m.pc + 2 <= m.program.len(),
        opcode_of_byte(m.program[m.pc]) == Opcode::JMPF || opcode_of_byte(m.program[m.pc])
            == Opcode::JMPB,
        valid_register(m.operand(1)),
    ensures
        ({
            let d = m.reg(m.operand(1)) as int;
            let target = if opcode_of_byte(m.program[m.pc]) == Opcode::JMPF {
                m.pc + 2 + d
            } else {
                m.pc + 2 - d
            };
            let (next, r) = exec_step(m);
            &&& 0 <= target <= usize::MAX ==> r == Ok::<StepOutcome, VmError>(StepOutcome::Continue)
                && next == m.with_pc(target)
            &&& !(0 <= target <= usize::MAX) ==> r == Err::<StepOutcome, VmError>(VmError::JumpOutOfRange)
                && next == m
        }),
{
}

/// `JEQ t, f, _` jumps to the value of register `t` when register `f`
/// holds exactly 1; otherwise it consumes all four bytes and changes nothing
/// else.
pub proof fn lemma_jump_if_equal(m: MachineState)
    requires
        m.wf(),
        0 <= m.pc,
        m.pc + 4 <= m.program.len(),
        opcode_of_byte(m.program[m.pc]) == Opcode::JEQ,
        valid_register(m.operand(1)),
        valid_register(m.operand(2)),
    ensures
        ({
            let target = m.reg(m.operand(1));
            let (next, r) = exec_step(m);
            &&& m.reg(m.operand(2)) == 1 && target >= 0 ==> r == Ok::<StepOutcome, VmError>(StepOutcome::Continue)
                && next == m.with_pc(target as int)
            &&& m.reg(m.operand(2)) != 1 ==> r == Ok::<StepOutcome, VmError>(StepOutcome::Continue)
                && next == m.with_pc(m.pc + 4)
        }),
{
}

/// Writing a word into the heap and reading it back from the same address
/// gives the word.
pub proof fn lemma_word_round_trip(heap: Seq<u8>, addr: int, w: u32)
    requires
        0 <= addr,
        addr + 4 <= heap.len(),
    ensures
        word_at(store_word(heap, addr, w), addr) == w,
{
    let h = store_word(heap, addr, w);
    assert(h[addr] == w / 0x100_0000);
    assert(h[addr + 1] == (w / 0x1_0000) % 0x100);
    assert(h[addr + 2] == (w / 0x100) % 0x100);
    assert(h[addr + 3] == w % 0x100);
}

/// `SW s, b, o` followed by `LW d, b, o` leaves in `d` the value that was in
/// `s`.
pub proof fn lemma_store_then_load(m: MachineState)
    requires
        m.wf(),
        0 <= m.pc,
        m.pc + 8 <= m.program.len(),
        opcode_of_byte(m.program[m.pc]) == Opcode::SW,
        opcode_of_byte(m.program[m.pc + 4]) == Opcode::LW,
        m.operand(6) == m.operand(2),
        m.operand(7) == m.operand(3),
        valid_register(m.operand(1)),
        valid_register(m.operand(2)),
        valid_register(m.operand(5)),
        heap_window_ok(m.reg(m.operand(2)) + m.operand(3)),
    ensures
        ({
            let (mid, r1) = exec_step(m);
            let (last, r2) = exec_step(mid);
            &&& r1 == Ok::<StepOutcome, VmError>(StepOutcome::Continue)
            &&& r2 == Ok::<StepOutcome, VmError>(StepOutcome::Continue)
            &&& last.reg(m.operand(5)) == m.reg(m.operand(1))
            &&& last.pc == m.pc + 8
        }),
{
    let addr = m.reg(m.operand(2)) + m.operand(3);
    let v = m.reg(m.operand(1));
    lemma_word_round_trip(m.heap, addr, u32_bits(v));
    let (mid, r1) = exec_step(m);
    assert(mid.program == m.program);
    assert(mid.pc == m.pc + 4);
    assert(mid.operand(1) == m.operand(5));
    assert(mid.operand(2) == m.operand(6));
    assert(mid.operand(3) == m.operand(7));
    assert(word_at(mid.heap, addr) == u32_bits(v));
}

/// At or past the end of the program a step reports the end and changes
/// nothing, so asking again gives the same report; running does the same.
pub proof fn lemma_end_of_program_is_stable(m: MachineState, fuel: nat)
    requires
        m.pc >= m.program.len(),
        fuel > 0,
    ensures
        exec_step(m) == (m, Ok::<StepOutcome, VmError>(StepOutcome::EndOfProgram)),
        exec_step(exec_step(m).0) == exec_step(m),
        run_steps(m, fuel) == (m, Ok::<StepOutcome, VmError>(StepOutcome::EndOfProgram)),
{
}

/// An opcode byte that names no operation stops execution, consumes only
/// that byte and changes nothing else.
pub proof fn lemma_illegal_opcode_halts(m: MachineState)
    requires
        0 <= m.pc < m.program.len(),
        opcode_of_byte(m.program[m.pc]) == Opcode::IGL,
    ensures
        exec_step(m) == (m.with_pc(m.pc + 1), Ok::<StepOutcome, VmError>(StepOutcome::IllegalOpcode)),
        exec_step(m).0.registers == m.registers,
        exec_step(m).0.heap == m.heap,
{
}

/// A heap access whose window does not lie inside the heap is refused and
/// leaves the whole state, heap included, unchanged.
pub proof fn lemma_heap_window_refused(m: MachineState)
    requires
        m.wf(),
        0 <= m.pc,
        m.pc + 4 <= m.program.len(),
        opcode_of_byte(m.program[m.pc]) == Opcode::LW || opcode_of_byte(m.program[m.pc])
            == Opcode::SW,
        valid_register(m.operand(1)),
        valid_register(m.operand(2)),
        !heap_window_ok(m.reg(m.operand(2)) + m.operand(3)),
    ensures
        exec_step(m) == (m, Err::<StepOutcome, VmError>(VmError::HeapOutOfBounds)),
{
}

} // verus!
