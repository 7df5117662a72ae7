//! The bytecode: the instruction set, its wire format and the program
//! container.

pub mod builtins;
pub mod code;
pub mod instruction;
pub mod instructions;
pub mod program;
pub mod wire;
