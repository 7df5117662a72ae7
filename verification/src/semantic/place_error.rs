//! The errors of the places: the expressions that can be assigned to.

use vstd::prelude::*;
use vstd::string::*;

use crate::text::decimal;
use crate::text::decimal_text;

verus! {

/// The reasons for which an expression is no place.
#[derive(Debug, PartialEq, Eq)]
pub enum Error {
    /// The first operand of `[]` is no array.
    OperatorIndexFirstOperandExpectedArray(String),
    /// The second operand of `[]` is neither an integer nor a range.
    OperatorIndexSecondOperandExpectedIntegerOrRange(String),
    /// The left bound of a slice is negative.
    IndexSliceStartOutOfRange(String),
    /// The right bound of a slice lies beyond the array.
    IndexSliceEndOutOfRange(String, String),
    /// The right bound of a slice lies before the left one.
    IndexSliceEndLesserThanStart(String, String),
    /// The first operand of `.` with a number is no tuple.
    OperatorFieldFirstOperandExpectedTuple(String),
    /// The first operand of `.` with a name is no structure.
    OperatorFieldFirstOperandExpectedStructure(String),
    /// The tuple has no field of the given number.
    FieldDoesNotExistInTuple(usize, String),
    /// The structure has no field of the given name.
    FieldDoesNotExistInStructure(String, String),
}

impl Error {
    /// The message of the error.
    pub open spec fn message(self) -> Seq<char> {
        match self {
            Error::OperatorIndexFirstOperandExpectedArray(a) => "'[]' operator expected an array as the first operand, but got '"@ + a@ + "'"@,
            Error::OperatorIndexSecondOperandExpectedIntegerOrRange(a) => "'[]' operator expected an integer as the second operand, but got '"@ + a@ + "'"@,
            Error::IndexSliceStartOutOfRange(a) => "left range bound "@ + a@ + " cannot be negative"@,
            Error::IndexSliceEndOutOfRange(a, b) => "right range bound "@ + a@ + " is out of range of the array of size "@ + b@,
            Error::IndexSliceEndLesserThanStart(a, b) => "right range bound "@ + a@ + " is lesser than the left one "@ + b@,
            Error::OperatorFieldFirstOperandExpectedTuple(a) => "'.' operator expected a tuple as the first operand, but got '"@ + a@ + "'"@,
            Error::OperatorFieldFirstOperandExpectedStructure(a) => "'.' operator expected a structure as the first operand, but got '"@ + a@ + "'"@,
            Error::FieldDoesNotExistInTuple(a, b) => "tuple field "@ + decimal(a as nat) + " does not exist in '"@ + b@ + "'"@,
            Error::FieldDoesNotExistInStructure(a, b) => "structure field '"@ + a@ + "' does not exist in '"@ + b@ + "'"@,
        }
    }

    /// Writes the message of the error.
    pub fn to_text(&self) -> (text: String)
        ensures
            text@ == self.message(),
    {
        match self {
            Error::OperatorIndexFirstOperandExpectedArray(a) => {
                let mut text = String::from_str("'[]' operator expected an array as the first operand, but got '");
                text.append(a.as_str());
                text.append("'");
                text
            },
            Error::OperatorIndexSecondOperandExpectedIntegerOrRange(a) => {
                let mut text = String::from_str("'[]' operator expected an integer as the second operand, but got '");
                text.append(a.as_str());
                text.append("'");
                text
            },
            Error::IndexSliceStartOutOfRange(a) => {
                let mut text = String::from_str("left range bound ");
                text.append(a.as_str());
                text.append(" cannot be negative");
                text
            },
            Error::IndexSliceEndOutOfRange(a, b) => {
                let mut text = String::from_str("right range bound ");
                text.append(a.as_str());
                text.append(" is out of range of the array of size ");
                text.append(b.as_str());
                text
            },
            Error::IndexSliceEndLesserThanStart(a, b) => {
                let mut text = String::from_str("right range bound ");
                text.append(a.as_str());
                text.append(" is lesser than the left one ");
                text.append(b.as_str());
                text
            },
            Error::OperatorFieldFirstOperandExpectedTuple(a) => {
                let mut text = String::from_str("'.' operator expected a tuple as the first operand, but got '");
                text.append(a.as_str());
                text.append("'");
                text
            },
            Error::OperatorFieldFirstOperandExpectedStructure(a) => {
                let mut text = String::from_str("'.' operator expected a structure as the first operand, but got '");
                text.append(a.as_str());
                text.append("'");
                text
            },
            Error::FieldDoesNotExistInTuple(a, b) => {
                let mut text = String::from_str("tuple field ");
                text.append(decimal_text(*a as u64).as_str());
                text.append(" does not exist in '");
                text.append(b.as_str());
                text.append("'");
                text
            },
            Error::FieldDoesNotExistInStructure(a, b) => {
                let mut text = String::from_str("structure field '");
                text.append(a.as_str());
                text.append("' does not exist in '");
                text.append(b.as_str());
                text.append("'");
                text
            },
        }
    }
}

} // verus!
