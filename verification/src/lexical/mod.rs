//! The lexical analyzer.

pub mod comment;
pub mod location;
