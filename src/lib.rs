//! A small register machine: a closed instruction set encoded as bytes, an
//! interpreter whose every opcode has a proved meaning, an assembler front
//! end and the decisions of an interactive shell.
pub mod instruction;
pub mod laws;
pub mod lexer;
pub mod machine;
pub mod repl;
pub mod text;
pub mod vm;
