//! A tiny just-in-time compiler for an accumulator language of four opcodes
//! (`+`, `-`, `*`, `/`), emitting x86-64 machine code.

pub mod opcode;
pub mod lexer;
pub mod codegen;
pub mod machine;
pub mod laws;
pub mod memory;
