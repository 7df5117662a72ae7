//! A compiler and virtual machine for a small language of zero-knowledge
//! programs: the comment lexer, parts of the semantic analyzer, the bytecode
//! model with its wire format, the bytecode container of the generator, and
//! the constraint-building element operator of the virtual machine.

use vstd::prelude::*;

pub mod bytecode;
pub mod generator;
pub mod json;
pub mod lexical;
pub mod number;
pub mod semantic;
pub mod text;
pub mod vm;

verus! {

/// The number of bits in a byte.
pub const BITLENGTH_BYTE: usize = 8;

/// The largest bitlength an integer type may have.
pub const BITLENGTH_MAX_INT: usize = 248;

/// The bitlength of a field element.
pub const BITLENGTH_FIELD: usize = 254;

/// The largest number of bits a Schnorr signature message may hold.
pub const LIMIT_SCHNORR_MESSAGE_BITS: usize = 248;

} // verus!
