//! Core of a CHIP-8 virtual machine: instruction semantics, the opcode
//! decoder, and the interpreter family built on top of them.

pub mod block;
pub mod cache;
pub mod cached_interpreter;
pub mod cached_interpreter_2;
pub mod cached_interpreter_3;
pub mod chip8;
pub mod clock;
pub mod decoder;
pub mod frontend;
pub mod instruction;
pub mod interpreter;
pub mod jit;
pub mod laws;
pub mod opcode;
mod random;
pub mod state;
pub mod x86;
