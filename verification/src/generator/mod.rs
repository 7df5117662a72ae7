//! The generator of the target code.

pub mod bytecode;
