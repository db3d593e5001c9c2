//! The decisions of the interactive shell: what a line of input asks for,
//! and its effect on the machine. Reading lines and printing stay with the
//! caller.
use crate::machine::{exec_step, MachineState, StepOutcome, VmError};
use crate::text::{hex_pair, parse_hex_pair, same_text, split_words, words};
use crate::vm::VM;
use vstd::prelude::*;

verus! {

/// The bytes that a line of blank-separated tokens denotes, each token
/// exactly two hexadecimal digits; `None` when some token is anything else,
/// or when the line holds no token.
pub open spec fn hex_line(s: Seq<char>) -> Option<Seq<u8>> {
    let toks = words(s);
    if toks.len() > 0 && forall|i: int| 0 <= i < toks.len() ==> (#[trigger] hex_pair(toks[i])) is Some {
        Some(Seq::new(toks.len(), |i: int| hex_pair(toks[i])->0))
    } else {
        None
    }
}

/// What the caller is to do after a line was handled.
#[derive(Debug, PartialEq, Eq, Copy, Clone)]
pub enum ReplAction {
    /// `.quit`: end the session.
    Quit,
    /// `.history`: show the lines entered so far.
    ShowHistory,
    /// `.program`: show the program bytes.
    ShowProgram,
    /// `.registers`: show the registers.
    ShowRegisters,
    /// The line's bytes were appended and one step ran with this report.
    Ran(Result<StepOutcome, VmError>),
    /// The line was not a list of hexadecimal bytes; nothing changed.
    BadHex,
}

/// The shell's state: the lines entered so far and the machine they drive.
pub struct REPL {
    pub command_buffer: Vec<String>,
    pub vm: VM,
}

impl REPL {
    /// A shell with no history and a fresh machine.
    pub fn new() -> (r: REPL)
        ensures
            r.command_buffer@.len() == 0,
            r.vm@.pc == 0,
            r.vm@.program.len() == 0,
            r.vm@.registers == Seq::new(32, |i: int| 0i32),
            r.vm@.heap == Seq::new(1000, |i: int| 0u8),
            r.vm@.remainder == 0,
    {
        REPL { vm: VM::new(), command_buffer: Vec::new() }
    }

    /// Reads a line of bytes, each written as two hexadecimal digits, separated
    /// by blanks.
    pub fn parse_hex(&self, c: &str) -> (r: Result<Vec<u8>, &'static str>)
        ensures
            hex_line(c@) is None <==> r is Err,
            r matches Ok(v) ==> v@ == hex_line(c@)->0,
    {
        let split = split_words(c);
        let ghost toks = words(c@);
        if split.len() == 0 {
            return Err("Error parsing the command!");
        }
        proof {
            assert(split@.len() == toks.len());
            assert(forall|k: int| 0 <= k < split@.len() ==> (#[trigger] split@[k])@ == toks[k]);
        }
        let mut results: Vec<u8> = Vec::new();
        let mut i: usize = 0;
        while i < split.len()
            invariant
                i <= split@.len() == toks.len(),
                toks == words(c@),
                toks.len() > 0,
                forall|k: int| 0 <= k < split@.len() ==> (#[trigger] split@[k])@ == toks[k],
                results@.len() == i,
                forall|k: int| 0 <= k < i ==> (#[trigger] hex_pair(toks[k])) is Some
                    && results@[k] == hex_pair(toks[k])->0,
            decreases split@.len() - i,
        {
            match parse_hex_pair(split[i]) {
                Some(b) => results.push(b),
                None => {
                    assert(hex_pair(toks[i as int]) is None);
                    return Err("Error parsing the command!");
                },
            }
            i = i + 1;
        }
        proof {
            let expected = Seq::new(toks.len(), |k: int| hex_pair(toks[k])->0);
            assert(results@ =~= expected);
        }
        Ok(results)
    }

    /// Handles one line of input: records it, then runs the dot-command it
    /// names, or appends its hexadecimal bytes to the program and executes
    /// one step. A line that is neither leaves the machine unchanged.
    pub fn handle_line(&mut self, line: &str) -> (r: ReplAction)
        ensures
            final(self).command_buffer@.len() == old(self).command_buffer@.len() + 1,
            final(self).command_buffer@.drop_last() == old(self).command_buffer@,
            final(self).command_buffer@.last()@ == line@,
            line@ == ".quit"@ ==> r == ReplAction::Quit && final(self).vm@ == old(self).vm@,
            line@ == ".history"@ ==> r == ReplAction::ShowHistory && final(self).vm@ == old(self).vm@,
            line@ == ".program"@ ==> r == ReplAction::ShowProgram && final(self).vm@ == old(self).vm@,
            line@ == ".registers"@ ==> r == ReplAction::ShowRegisters && final(self).vm@
                == old(self).vm@,
            !is_command(line@) && hex_line(line@) is None ==> r == ReplAction::BadHex
                && final(self).vm@ == old(self).vm@,
            !is_command(line@) && hex_line(line@) is Some ==> ({
                let loaded = MachineState {
                    program: old(self).vm@.program + hex_line(line@)->0,
                    ..old(self).vm@
                };
                &&& final(self).vm@ == exec_step(loaded).0
                &&& r == ReplAction::Ran(exec_step(loaded).1)
            }),
    {
        self.command_buffer.push(line.to_owned());
        proof {
            reveal_strlit(".quit");
            reveal_strlit(".history");
            reveal_strlit(".program");
            reveal_strlit(".registers");
            assert(self.command_buffer@.drop_last() =~= old(self).command_buffer@);
        }
        if same_text(line, ".quit") {
            ReplAction::Quit
        } else if same_text(line, ".history") {
            ReplAction::ShowHistory
        } else if same_text(line, ".program") {
            ReplAction::ShowProgram
        } else if same_text(line, ".registers") {
            ReplAction::ShowRegisters
        } else {
            match self.parse_hex(line) {
                Ok(bytes) => {
                    let ghost buffer = self.command_buffer@;
                    let mut i: usize = 0;
                    while i < bytes.len()
                        invariant
                            i <= bytes@.len(),
                            self.vm@ == (MachineState {
                                program: old(self).vm@.program + bytes@.take(i as int),
                                ..old(self).vm@
                            }),
                            self.command_buffer@ == buffer,
                        decreases bytes@.len() - i,
                    {
                        self.vm.add_program_byte(bytes[i]);
                        assert(old(self).vm@.program + bytes@.take(i + 1) =~= (old(self).vm@.program
                            + bytes@.take(i as int)).push(bytes@[i as int]));
                        i = i + 1;
                    }
                    assert(bytes@.take(bytes@.len() as int) =~= bytes@);
                    ReplAction::Ran(self.vm.run_once())
                },
                Err(_) => ReplAction::BadHex,
            }
        }
    }
}

/// Whether a line is one of the dot-commands.
pub open spec fn is_command(s: Seq<char>) -> bool {
    s == ".quit"@ || s == ".history"@ || s == ".program"@ || s == ".registers"@
}

} // verus!
