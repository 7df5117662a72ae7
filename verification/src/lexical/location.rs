//! The position of a lexeme in the source text.

use vstd::prelude::*;

verus! {

/// A line and a column of the source text, both counted from one.
#[derive(Debug, Clone, Copy, PartialEq, Eq, Structural)]
pub struct Location {
    pub line: usize,
    pub column: usize,
}

impl Location {
    /// The location of the given line and column.
    pub fn new(line: usize, column: usize) -> (location: Self)
        ensures
            location.line == line,
            location.column == column,
    {
        Location { line, column }
    }

    /// The location of the first character of a file.
    pub fn new_beginning() -> (location: Self)
        ensures
            location.line == 1,
            location.column == 1,
    {
        Location { line: 1, column: 1 }
    }
}

} // verus!
