//! The errors of a function call.

use vstd::prelude::*;

verus! {

/// The reasons for which a call is refused.
#[derive(Debug, PartialEq, Eq)]
pub enum Error {
    /// The function takes `expected` arguments and got `found`.
    ArgumentCount { function: String, expected: usize, found: usize },
    /// The argument `name` at `position`, counted from one, has not the
    /// type that the function expects.
    ArgumentType {
        function: String,
        name: String,
        position: usize,
        expected: String,
        found: String,
    },
    /// The argument at `position`, counted from one, is neither a value nor
    /// a constant.
    ArgumentNotEvaluable { function: String, position: usize, found: String },
}

/// What an error says, with its texts as sequences of characters.
pub enum ErrorView {
    ArgumentCount { function: Seq<char>, expected: usize, found: usize },
    ArgumentType {
        function: Seq<char>,
        name: Seq<char>,
        position: usize,
        expected: Seq<char>,
        found: Seq<char>,
    },
    ArgumentNotEvaluable { function: Seq<char>, position: usize, found: Seq<char> },
}

impl View for Error {
    type V = ErrorView;

    open spec fn view(&self) -> ErrorView {
        match self {
            Error::ArgumentCount { function, expected, found } => ErrorView::ArgumentCount {
                function: function@,
                expected: *expected,
                found: *found,
            },
            Error::ArgumentType {
                function,
                name,
                position,
                expected,
                found,
            } => ErrorView::ArgumentType {
                function: function@,
                name: name@,
                position: *position,
                expected: expected@,
                found: found@,
            },
            Error::ArgumentNotEvaluable {
                function,
                position,
                found,
            } => ErrorView::ArgumentNotEvaluable {
                function: function@,
                position: *position,
                found: found@,
            },
        }
    }
}

impl Error {
    /// The error of a wrong number of arguments.
    pub fn argument_count(function: String, expected: usize, found: usize) -> (error: Self)
        ensures
            error@ == (ErrorView::ArgumentCount { function: function@, expected, found }),
    {
        Error::ArgumentCount { function, expected, found }
    }

    /// The error of an argument of a wrong type.
    pub fn argument_type(
        function: String,
        name: String,
        position: usize,
        expected: String,
        found: String,
    ) -> (error: Self)
        ensures
            error@ == (ErrorView::ArgumentType {
                function: function@,
                name: name@,
                position,
                expected: expected@,
                found: found@,
            }),
    {
        Error::ArgumentType { function, name, position, expected, found }
    }

    /// The error of an argument that cannot be evaluated.
    pub fn argument_not_evaluable(function: String, position: usize, found: String) -> (error:
        Self)
        ensures
            error@ == (ErrorView::ArgumentNotEvaluable {
                function: function@,
                position,
                found: found@,
            }),
    {
        Error::ArgumentNotEvaluable { function, position, found }
    }
}

} // verus!
