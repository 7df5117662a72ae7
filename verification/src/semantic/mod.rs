//! The semantic analyzer.

pub mod element;
pub mod function_error;
pub mod integer;
pub mod place_error;
pub mod schnorr_verify;
pub mod types;
