use iridium::machine::{StepOutcome, VmError};
use iridium::repl::{ReplAction, REPL};

#[test]
fn parse_hex_bytes() {
    let repl = REPL::new();
    assert_eq!(repl.parse_hex("01 00 01 f4"), Ok(vec![1, 0, 1, 0xf4]));
    assert_eq!(repl.parse_hex("FF"), Ok(vec![255]));
    assert_eq!(repl.parse_hex("0a Bc"), Ok(vec![10, 0xbc]));
    assert!(repl.parse_hex("+a 0").is_err());
    assert!(repl.parse_hex("a").is_err());
    assert!(repl.parse_hex("00ff").is_err());
    assert!(repl.parse_hex("zz").is_err());
    assert!(repl.parse_hex("100").is_err());
    assert!(repl.parse_hex("").is_err());
    assert!(repl.parse_hex("   ").is_err());
    assert_eq!(repl.parse_hex("01  02\t03"), Ok(vec![1, 2, 3]));
    assert_eq!(repl.parse_hex(" 7f "), Ok(vec![0x7f]));
}

#[test]
fn handle_line_runs_one_step() {
    let mut repl = REPL::new();
    assert_eq!(repl.handle_line("01 02 01 f4"), ReplAction::Ran(Ok(StepOutcome::Continue)));
    assert_eq!(repl.vm.registers[2], 500);
    assert_eq!(repl.vm.program, vec![1, 2, 1, 0xf4]);
    assert_eq!(repl.handle_line("05 02 03 04"), ReplAction::Ran(Err(VmError::DivisionByZero)));
    assert_eq!(repl.handle_line("00"), ReplAction::Ran(Err(VmError::DivisionByZero)));
}

#[test]
fn handle_line_bad_hex_changes_nothing() {
    let mut repl = REPL::new();
    assert_eq!(repl.handle_line("01 0x"), ReplAction::BadHex);
    assert_eq!(repl.handle_line("1"), ReplAction::BadHex);
    assert!(repl.vm.program.is_empty());
    assert_eq!(repl.vm.pc, 0);
    assert_eq!(repl.command_buffer, vec!["01 0x".to_string(), "1".to_string()]);
}

#[test]
fn handle_line_commands() {
    let mut repl = REPL::new();
    assert_eq!(repl.handle_line(".history"), ReplAction::ShowHistory);
    assert_eq!(repl.handle_line(".program"), ReplAction::ShowProgram);
    assert_eq!(repl.handle_line(".registers"), ReplAction::ShowRegisters);
    assert_eq!(repl.handle_line(".quit"), ReplAction::Quit);
    assert_eq!(repl.command_buffer.len(), 4);
    assert!(repl.vm.program.is_empty());
}
