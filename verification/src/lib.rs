//! A register-allocating bytecode compiler and its matching virtual machine.
//!
//! The compiler walks an abstract syntax tree depth-first, allocating
//! registers with a single stack-discipline cursor, and emits an ordered
//! instruction sequence.  The virtual machine owns a fixed-size register
//! file and executes such a sequence against a lexical environment,
//! yielding the final content of register 0.

pub mod ast;
pub mod bytecode;
pub mod compiler;
pub mod environment;
pub mod laws;
pub mod value;
pub mod vm;

pub use bytecode::{In, Reg};
pub use compiler::Compiler;
pub use value::Value;
pub use vm::VM;
