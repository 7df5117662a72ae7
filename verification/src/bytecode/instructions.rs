//! The instructions without operands that stand as types of their own.

use vstd::prelude::*;
use vstd::string::*;

use crate::bytecode::builtins::BuiltinIdentifier;
use crate::bytecode::code::DecodingError;
use crate::bytecode::code::InstructionCode;

verus! {

/// What every instruction says of itself.
pub trait InstructionInfo: Sized {
    /// The mnemonic of the instruction.
    fn to_assembly(&self) -> String;

    /// The code of the instruction.
    fn code() -> InstructionCode;

    /// The bytes of the instruction.
    fn encode(&self) -> Vec<u8>;

    /// Reads the instruction from the beginning of `bytes`, and says how many
    /// bytes it took.
    fn decode(bytes: &[u8]) -> Result<(Self, usize), DecodingError>;

    /// The number of values that the instruction takes from the stack.
    fn inputs_count(&self) -> usize;

    /// The number of values that the instruction puts on the stack.
    fn outputs_count(&self) -> usize;
}

/// Whether `bytes` begin with the one byte of the instruction without
/// operands that has the given code: the number of bytes read, or the error
/// of the decoder.
pub open spec fn simple_decoding(code: InstructionCode, bytes: Seq<u8>) -> Result<
    usize,
    DecodingError,
> {
    if bytes.len() < 1 {
        Err(DecodingError::UnexpectedEOF)
    } else if bytes[0] != code.byte() {
        Err(DecodingError::UnknownInstructionCode(bytes[0]))
    } else {
        Ok(1usize)
    }
}

/// Reads an instruction without operands from the beginning of `bytes`: the
/// first byte must be the instruction's code, and is all that is read.
pub fn decode_simple_instruction(code: InstructionCode, bytes: &[u8]) -> (result: Result<
    usize,
    DecodingError,
>)
    ensures
        result == simple_decoding(code, bytes@),
{
    if bytes.len() < 1 {
        Err(DecodingError::UnexpectedEOF)
    } else if bytes[0] != code.to_byte() {
        Err(DecodingError::UnknownInstructionCode(bytes[0]))
    } else {
        Ok(1)
    }
}

/// The `ge` instruction: greater or equal.
#[derive(Debug, Clone, Copy, PartialEq, Eq, Structural)]
pub struct Ge;

impl Default for Ge {
    fn default() -> (instruction: Self)
        ensures
            instruction == Ge,
    {
        Ge
    }
}

impl InstructionInfo for Ge {
    fn to_assembly(&self) -> (assembly: String)
        ensures
            assembly@ == "ge"@,
    {
        String::from_str("ge")
    }

    fn code() -> (code: InstructionCode)
        ensures
            code == InstructionCode::Ge,
    {
        InstructionCode::Ge
    }

    fn encode(&self) -> (bytes: Vec<u8>)
        ensures
            bytes@ == seq![InstructionCode::Ge.byte()],
    {
        let mut bytes = Vec::new();
        bytes.push(InstructionCode::Ge.to_byte());
        assert(bytes@ =~= seq![InstructionCode::Ge.byte()]);
        bytes
    }

    fn decode(bytes: &[u8]) -> (result: Result<(Ge, usize), DecodingError>)
        ensures
            match result {
                Ok((instruction, size)) => simple_decoding(InstructionCode::Ge, bytes@) == Ok::<
                    usize,
                    DecodingError,
                >(size),
                Err(error) => simple_decoding(InstructionCode::Ge, bytes@) == Err::<
                    usize,
                    DecodingError,
                >(error),
            },
    {
        match decode_simple_instruction(InstructionCode::Ge, bytes) {
            Ok(size) => Ok((Ge, size)),
            Err(error) => Err(error),
        }
    }

    fn inputs_count(&self) -> (count: usize)
        ensures
            count == 2,
    {
        2
    }

    fn outputs_count(&self) -> (count: usize)
        ensures
            count == 1,
    {
        1
    }
}

/// The `gt` instruction: greater.
#[derive(Debug, Clone, Copy, PartialEq, Eq, Structural)]
pub struct Gt;

impl Default for Gt {
    fn default() -> (instruction: Self)
        ensures
            instruction == Gt,
    {
        Gt
    }
}

impl InstructionInfo for Gt {
    fn to_assembly(&self) -> (assembly: String)
        ensures
            assembly@ == "gt"@,
    {
        String::from_str("gt")
    }

    fn code() -> (code: InstructionCode)
        ensures
            code == InstructionCode::Gt,
    {
        InstructionCode::Gt
    }

    fn encode(&self) -> (bytes: Vec<u8>)
        ensures
            bytes@ == seq![InstructionCode::Gt.byte()],
    {
        let mut bytes = Vec::new();
        bytes.push(InstructionCode::Gt.to_byte());
        assert(bytes@ =~= seq![InstructionCode::Gt.byte()]);
        bytes
    }

    fn decode(bytes: &[u8]) -> (result: Result<(Gt, usize), DecodingError>)
        ensures
            match result {
                Ok((instruction, size)) => simple_decoding(InstructionCode::Gt, bytes@) == Ok::<
                    usize,
                    DecodingError,
                >(size),
                Err(error) => simple_decoding(InstructionCode::Gt, bytes@) == Err::<
                    usize,
                    DecodingError,
                >(error),
            },
    {
        match decode_simple_instruction(InstructionCode::Gt, bytes) {
            Ok(size) => Ok((Gt, size)),
            Err(error) => Err(error),
        }
    }

    fn inputs_count(&self) -> (count: usize)
        ensures
            count == 2,
    {
        2
    }

    fn outputs_count(&self) -> (count: usize)
        ensures
            count == 1,
    {
        1
    }
}

/// The `neg` instruction: negation.
#[derive(Debug, Clone, Copy, PartialEq, Eq, Structural)]
pub struct Neg;

impl Default for Neg {
    fn default() -> (instruction: Self)
        ensures
            instruction == Neg,
    {
        Neg
    }
}

impl InstructionInfo for Neg {
    fn to_assembly(&self) -> (assembly: String)
        ensures
            assembly@ == "neg"@,
    {
        String::from_str("neg")
    }

    fn code() -> (code: InstructionCode)
        ensures
            code == InstructionCode::Neg,
    {
        InstructionCode::Neg
    }

    fn encode(&self) -> (bytes: Vec<u8>)
        ensures
            bytes@ == seq![InstructionCode::Neg.byte()],
    {
        let mut bytes = Vec::new();
        bytes.push(InstructionCode::Neg.to_byte());
        assert(bytes@ =~= seq![InstructionCode::Neg.byte()]);
        bytes
    }

    fn decode(bytes: &[u8]) -> (result: Result<(Neg, usize), DecodingError>)
        ensures
            match result {
                Ok((instruction, size)) => simple_decoding(InstructionCode::Neg, bytes@) == Ok::<
                    usize,
                    DecodingError,
                >(size),
                Err(error) => simple_decoding(InstructionCode::Neg, bytes@) == Err::<
                    usize,
                    DecodingError,
                >(error),
            },
    {
        match decode_simple_instruction(InstructionCode::Neg, bytes) {
            Ok(size) => Ok((Neg, size)),
            Err(error) => Err(error),
        }
    }

    fn inputs_count(&self) -> (count: usize)
        ensures
            count == 1,
    {
        1
    }

    fn outputs_count(&self) -> (count: usize)
        ensures
            count == 1,
    {
        1
    }
}

/// The `sub` instruction: subtraction.
#[derive(Debug, Clone, Copy, PartialEq, Eq, Structural)]
pub struct Sub;

impl Default for Sub {
    fn default() -> (instruction: Self)
        ensures
            instruction == Sub,
    {
        Sub
    }
}

impl InstructionInfo for Sub {
    fn to_assembly(&self) -> (assembly: String)
        ensures
            assembly@ == "sub"@,
    {
        String::from_str("sub")
    }

    fn code() -> (code: InstructionCode)
        ensures
            code == InstructionCode::Sub,
    {
        InstructionCode::Sub
    }

    fn encode(&self) -> (bytes: Vec<u8>)
        ensures
            bytes@ == seq![InstructionCode::Sub.byte()],
    {
        let mut bytes = Vec::new();
        bytes.push(InstructionCode::Sub.to_byte());
        assert(bytes@ =~= seq![InstructionCode::Sub.byte()]);
        bytes
    }

    fn decode(bytes: &[u8]) -> (result: Result<(Sub, usize), DecodingError>)
        ensures
            match result {
                Ok((instruction, size)) => simple_decoding(InstructionCode::Sub, bytes@) == Ok::<
                    usize,
                    DecodingError,
                >(size),
                Err(error) => simple_decoding(InstructionCode::Sub, bytes@) == Err::<
                    usize,
                    DecodingError,
                >(error),
            },
    {
        match decode_simple_instruction(InstructionCode::Sub, bytes) {
            Ok(size) => Ok((Sub, size)),
            Err(error) => Err(error),
        }
    }

    fn inputs_count(&self) -> (count: usize)
        ensures
            count == 2,
    {
        2
    }

    fn outputs_count(&self) -> (count: usize)
        ensures
            count == 1,
    {
        1
    }
}

/// The `pop_condition` instruction: removes the top of the condition stack.
#[derive(Debug, Clone, Copy, PartialEq, Eq, Structural)]
pub struct PopCondition;

impl Default for PopCondition {
    fn default() -> (instruction: Self)
        ensures
            instruction == PopCondition,
    {
        PopCondition
    }
}

impl InstructionInfo for PopCondition {
    fn to_assembly(&self) -> (assembly: String)
        ensures
            assembly@ == "pop_condition"@,
    {
        String::from_str("pop_condition")
    }

    fn code() -> (code: InstructionCode)
        ensures
            code == InstructionCode::PopCondition,
    {
        InstructionCode::PopCondition
    }

    fn encode(&self) -> (bytes: Vec<u8>)
        ensures
            bytes@ == seq![InstructionCode::PopCondition.byte()],
    {
        let mut bytes = Vec::new();
        bytes.push(InstructionCode::PopCondition.to_byte());
        assert(bytes@ =~= seq![InstructionCode::PopCondition.byte()]);
        bytes
    }

    fn decode(bytes: &[u8]) -> (result: Result<(PopCondition, usize), DecodingError>)
        ensures
            match result {
                Ok((instruction, size)) => simple_decoding(InstructionCode::PopCondition, bytes@) == Ok::<
                    usize,
                    DecodingError,
                >(size),
                Err(error) => simple_decoding(InstructionCode::PopCondition, bytes@) == Err::<
                    usize,
                    DecodingError,
                >(error),
            },
    {
        match decode_simple_instruction(InstructionCode::PopCondition, bytes) {
            Ok(size) => Ok((PopCondition, size)),
            Err(error) => Err(error),
        }
    }

    fn inputs_count(&self) -> (count: usize)
        ensures
            count == 0,
    {
        0
    }

    fn outputs_count(&self) -> (count: usize)
        ensures
            count == 0,
    {
        0
    }
}

/// The `call_builtin` instruction: calls a built-in function with the given
/// number of inputs.
#[derive(Debug, Clone, Copy, PartialEq, Eq, Structural)]
pub struct CallBuiltin {
    pub identifier: BuiltinIdentifier,
    pub inputs_count: usize,
}

impl CallBuiltin {
    /// The call of the given function with the given number of inputs.
    pub fn new(identifier: BuiltinIdentifier, inputs_count: usize) -> (instruction: Self)
        ensures
            instruction.identifier == identifier,
            instruction.inputs_count == inputs_count,
    {
        CallBuiltin { identifier, inputs_count }
    }
}

} // verus!
