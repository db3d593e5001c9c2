use iridium::machine::{StepOutcome, VmError};
use iridium::vm::VM;

#[test]
fn test_create_vm() {
    let test_vm = VM::new();
    assert_eq!(test_vm.registers[0], 0)
}

#[test]
fn test_opcode_hlt() {
    let mut test_vm = VM::new();
    let test_bytes = vec![0, 0, 0, 0];
    test_vm.program = test_bytes;
    let _ = test_vm.run_once();
    assert_eq!(test_vm.pc, 1);
}

#[test]
fn test_opcode_igl() {
    let mut test_vm = VM::new();
    let test_bytes = vec![200, 0, 0, 0];
    test_vm.program = test_bytes;
    let _ = test_vm.run_once();
    assert_eq!(test_vm.pc, 1);
}

#[test]
fn test_load_opcode() {
    let mut test_vm = VM::new();
    test_vm.program = vec![1, 0, 1, 244];
    let _ = test_vm.run_once();
    assert_eq!(test_vm.registers[0], 500);
}

#[test]
fn test_jmpf_opcode() {
    let mut test_vm = VM::new();
    test_vm.registers[0] = 2;
    test_vm.program = vec![7, 0, 0, 0, 6, 0, 0, 0];
    let _ = test_vm.run_once();
    assert_eq!(test_vm.pc, 4);
}

#[test]
fn test_eq_opcode() {
    let mut test_vm = VM::new();
    test_vm.registers[0] = 10;
    test_vm.registers[1] = 10;
    test_vm.program = vec![9, 0, 1, 2, 9, 0, 1, 2];
    let _ = test_vm.run_once();
    assert_eq!(test_vm.registers[2], 1);
    test_vm.registers[1] = 20;
    let _ = test_vm.run_once();
    assert_eq!(test_vm.registers[2], 0);
}

#[test]
fn test_jeq_opcode() {
    let mut test_vm = VM::new();
    test_vm.registers[0] = 7;
    test_vm.registers[1] = 1;
    test_vm.program = vec![15, 0, 1, 2, 15, 0, 1, 2];
    let _ = test_vm.run_once();
    assert_eq!(test_vm.pc, 7);
    test_vm.pc = 4;
    test_vm.registers[1] = 0;
    let _ = test_vm.run_once();
    println!("{}", test_vm.pc);
    assert_eq!(test_vm.pc, 8);
}

#[test]
fn test_lw_sw_opcodes() {
    let mut test_vm = VM::new();
    test_vm.registers[1] = 1589;
    test_vm.registers[2] = 32;
    test_vm.program = vec![17, 1, 2, 8, 16, 3, 2, 8];
    let _ = test_vm.run_once();
    assert_eq!(test_vm.registers[3], 0);
    let _ = test_vm.run_once();
    assert_eq!(test_vm.registers[3], 1589);
}

#[test]
fn load_every_register_and_largest_immediate() {
    for i in 0..32u8 {
        let mut vm = VM::new();
        vm.program = vec![1, i, 0xff, 0xff];
        assert_eq!(vm.run_once(), Ok(StepOutcome::Continue));
        assert_eq!(vm.registers[i as usize], 65535);
        assert_eq!(vm.pc, 4);
    }
}

#[test]
fn add_sub_mul_exact_values() {
    let mut vm = VM::new();
    vm.registers[0] = 10;
    vm.registers[1] = 10;
    vm.program = vec![2, 0, 1, 2, 3, 0, 1, 3, 4, 0, 1, 4];
    assert_eq!(vm.run_once(), Ok(StepOutcome::Continue));
    assert_eq!(vm.registers[2], 20);
    assert_eq!(vm.pc, 4);
    assert_eq!(vm.run_once(), Ok(StepOutcome::Continue));
    assert_eq!(vm.registers[3], 0);
    assert_eq!(vm.run_once(), Ok(StepOutcome::Continue));
    assert_eq!(vm.registers[4], 100);
    assert_eq!(vm.pc, 12);
}

#[test]
fn arithmetic_wraps_around() {
    let mut vm = VM::new();
    vm.registers[0] = i32::MAX;
    vm.registers[1] = 1;
    vm.registers[5] = i32::MIN;
    vm.registers[6] = 65536;
    vm.program = vec![2, 0, 1, 2, 3, 5, 1, 3, 4, 6, 6, 4];
    let _ = vm.run_once();
    assert_eq!(vm.registers[2], i32::MIN);
    let _ = vm.run_once();
    assert_eq!(vm.registers[3], i32::MAX);
    let _ = vm.run_once();
    assert_eq!(vm.registers[4], 0);
}

#[test]
fn div_adds_and_keeps_remainder() {
    let mut vm = VM::new();
    vm.registers[0] = 17;
    vm.registers[1] = 5;
    vm.registers[2] = -17;
    vm.program = vec![5, 0, 1, 3, 5, 2, 1, 4];
    assert_eq!(vm.run_once(), Ok(StepOutcome::Continue));
    assert_eq!(vm.registers[3], 22);
    assert_eq!(vm.remainder, 2);
    assert_eq!(vm.run_once(), Ok(StepOutcome::Continue));
    assert_eq!(vm.registers[4], -12);
    assert_eq!(vm.remainder, (-2i32) as u32);
}

#[test]
fn div_by_zero_is_refused() {
    let mut vm = VM::new();
    vm.registers[0] = 17;
    vm.program = vec![5, 0, 1, 3];
    assert_eq!(vm.run_once(), Err(VmError::DivisionByZero));
    assert_eq!(vm.pc, 0);
    assert_eq!(vm.registers[3], 0);
}

#[test]
fn comparisons_write_zero_or_one() {
    let pairs = [(0, 0), (1, 2), (2, 1), (-1, 1), (i32::MIN, i32::MAX), (i32::MAX, i32::MIN)];
    for (a, b) in pairs {
        for op in 9u8..=14 {
            let mut vm = VM::new();
            vm.registers[0] = a;
            vm.registers[1] = b;
            vm.registers[2] = 77;
            vm.program = vec![op, 0, 1, 2];
            assert_eq!(vm.run_once(), Ok(StepOutcome::Continue));
            let expected = match op {
                9 => a == b,
                10 => a != b,
                11 => a > b,
                12 => a < b,
                13 => a >= b,
                _ => a <= b,
            };
            assert_eq!(vm.registers[2], if expected { 1 } else { 0 });
        }
    }
}

#[test]
fn jumps_absolute_and_backward() {
    let mut vm = VM::new();
    vm.registers[0] = 6;
    vm.registers[1] = 4;
    vm.program = vec![6, 0, 0, 0, 0, 0, 8, 1];
    assert_eq!(vm.run_once(), Ok(StepOutcome::Continue));
    assert_eq!(vm.pc, 6);
    assert_eq!(vm.run_once(), Ok(StepOutcome::Continue));
    assert_eq!(vm.pc, 4);
}

#[test]
fn jump_below_zero_is_refused() {
    let mut vm = VM::new();
    vm.registers[0] = 3;
    vm.program = vec![8, 0];
    assert_eq!(vm.run_once(), Err(VmError::JumpOutOfRange));
    assert_eq!(vm.pc, 0);
    vm.registers[0] = -1;
    vm.program = vec![6, 0];
    assert_eq!(vm.run_once(), Err(VmError::JumpOutOfRange));
}

#[test]
fn jmpf_with_negative_register_moves_back() {
    let mut vm = VM::new();
    vm.registers[0] = -2;
    vm.program = vec![0, 0, 7, 0];
    vm.pc = 2;
    assert_eq!(vm.run_once(), Ok(StepOutcome::Continue));
    assert_eq!(vm.pc, 2);
}

#[test]
fn end_of_program_is_a_clean_stop() {
    let mut vm = VM::new();
    assert_eq!(vm.run_once(), Ok(StepOutcome::EndOfProgram));
    assert_eq!(vm.run_once(), Ok(StepOutcome::EndOfProgram));
    assert_eq!(vm.pc, 0);
    vm.program = vec![1, 0, 0, 5];
    vm.pc = 9;
    assert_eq!(vm.run_once(), Ok(StepOutcome::EndOfProgram));
    assert_eq!(vm.pc, 9);
    assert_eq!(vm.run(), Ok(StepOutcome::EndOfProgram));
}

#[test]
fn illegal_opcode_changes_nothing_else() {
    let mut vm = VM::new();
    vm.registers[4] = 9;
    vm.program = vec![18, 1, 4, 0];
    assert_eq!(vm.run_once(), Ok(StepOutcome::IllegalOpcode));
    assert_eq!(vm.pc, 1);
    assert_eq!(vm.registers[4], 9);
    assert!(vm.registers.iter().enumerate().all(|(i, r)| *r == if i == 4 { 9 } else { 0 }));
}

#[test]
fn heap_window_past_end_is_refused() {
    let mut vm = VM::new();
    vm.registers[1] = -1;
    vm.registers[2] = 997;
    vm.program = vec![17, 1, 2, 0, 16, 3, 2, 0];
    assert_eq!(vm.run_once(), Err(VmError::HeapOutOfBounds));
    assert_eq!(vm.pc, 0);
    assert!(vm.heap.iter().all(|b| *b == 0));
    vm.pc = 4;
    assert_eq!(vm.run_once(), Err(VmError::HeapOutOfBounds));
    assert_eq!(vm.registers[3], 0);
    vm.registers[2] = 996;
    vm.pc = 0;
    assert_eq!(vm.run_once(), Ok(StepOutcome::Continue));
    assert_eq!(&vm.heap[996..1000], &[0xff, 0xff, 0xff, 0xff]);
}

#[test]
fn store_is_big_endian() {
    let mut vm = VM::new();
    vm.registers[1] = 0x0102_0304;
    vm.program = vec![17, 1, 0, 10];
    let _ = vm.run_once();
    assert_eq!(&vm.heap[10..14], &[1, 2, 3, 4]);
}

#[test]
fn negative_base_with_offset_inside_heap() {
    let mut vm = VM::new();
    vm.registers[1] = 42;
    vm.registers[2] = -4;
    vm.program = vec![17, 1, 2, 8, 16, 3, 2, 8];
    assert_eq!(vm.run_once(), Ok(StepOutcome::Continue));
    assert_eq!(vm.run_once(), Ok(StepOutcome::Continue));
    assert_eq!(vm.registers[3], 42);
    assert_eq!(vm.heap[7], 42);
}

#[test]
fn bad_register_and_truncated_instruction() {
    let mut vm = VM::new();
    vm.program = vec![1, 32, 0, 1];
    assert_eq!(vm.run_once(), Err(VmError::RegisterOutOfRange));
    assert_eq!(vm.pc, 0);
    vm.program = vec![2, 0, 1];
    assert_eq!(vm.run_once(), Err(VmError::TruncatedInstruction));
    assert_eq!(vm.pc, 0);
    vm.program = vec![15, 0, 1];
    assert_eq!(vm.run_once(), Err(VmError::TruncatedInstruction));
}

#[test]
fn run_stops_at_halt() {
    let mut vm = VM::new();
    vm.add_program_byte(1);
    vm.add_program_byte(0);
    vm.add_program_byte(0);
    vm.add_program_byte(7);
    vm.add_program_byte(0);
    vm.add_program_byte(1);
    vm.add_program_byte(1);
    vm.add_program_byte(1);
    assert_eq!(vm.run(), Ok(StepOutcome::Halt));
    assert_eq!(vm.registers[0], 7);
    assert_eq!(vm.pc, 5);
    assert_eq!(vm.registers[1], 0);
}

#[test]
fn run_for_stops_when_steps_run_out() {
    let mut vm = VM::new();
    vm.program = vec![6, 0];
    assert_eq!(vm.run_for(10), Ok(StepOutcome::Continue));
    assert_eq!(vm.pc, 0);
}
