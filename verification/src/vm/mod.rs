//! The virtual machine that builds a constraint system.

pub mod comparison;
pub mod constrained_element;
pub mod constraint;
pub mod error;
pub mod field;
pub mod instructions;
pub mod machine;
pub mod satisfaction;
