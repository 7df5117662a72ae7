//! The instruction codes of the bytecode and the errors of its decoder.

use vstd::prelude::*;

verus! {

/// The code of an instruction: the first byte of its encoding.
#[derive(Debug, Clone, Copy, PartialEq, Eq, Structural)]
pub enum InstructionCode {
    NoOperation,
    PushConst,
    Pop,
    Slice,
    Copy,
    Load,
    Store,
    LoadGlobal,
    StoreGlobal,
    LoadByIndex,
    StoreByIndex,
    Add,
    Sub,
    Mul,
    Div,
    Rem,
    Neg,
    Not,
    And,
    Or,
    Xor,
    Eq,
    Ne,
    Lt,
    Le,
    Gt,
    Ge,
    Cast,
    Call,
    Return,
    Exit,
    LoopBegin,
    LoopEnd,
    If,
    Else,
    EndIf,
    PushCondition,
    PopCondition,
    AssertConstraint,
    CallBuiltin,
    FileMarker,
    FunctionMarker,
    LineMarker,
    ColumnMarker,
}

/// The layout of the operands that follow an instruction code.
#[derive(Debug, Clone, Copy, PartialEq, Eq, Structural)]
pub enum Shape {
    /// No operand.
    Nothing,
    /// One address or size.
    Size,
    /// Two addresses or sizes.
    Pair,
    /// The signedness and the bitlength of an integer type.
    Cast,
    /// An integer constant with its type.
    Constant,
    /// The identifier of a built-in function and the number of its inputs.
    Builtin,
    /// A text.
    Text,
}

/// The errors of the bytecode decoder.
#[derive(Debug, Clone, Copy, PartialEq, Eq, Structural)]
pub enum DecodingError {
    /// The bytes end before the instruction does.
    UnexpectedEOF,
    /// The first byte is the code of no instruction.
    UnknownInstructionCode(u8),
    /// The byte is the identifier of no built-in function.
    UnknownBuiltinIdentifier(u8),
    /// The bytes of a text are not UTF-8.
    InvalidText,
}

impl InstructionCode {
    /// The byte that stands for the code.
    pub open spec fn byte(self) -> u8 {
        match self {
            InstructionCode::NoOperation => 0u8,
            InstructionCode::PushConst => 1u8,
            InstructionCode::Pop => 2u8,
            InstructionCode::Slice => 3u8,
            InstructionCode::Copy => 4u8,
            InstructionCode::Load => 5u8,
            InstructionCode::Store => 6u8,
            InstructionCode::LoadGlobal => 7u8,
            InstructionCode::StoreGlobal => 8u8,
            InstructionCode::LoadByIndex => 9u8,
            InstructionCode::StoreByIndex => 10u8,
            InstructionCode::Add => 11u8,
            InstructionCode::Sub => 12u8,
            InstructionCode::Mul => 13u8,
            InstructionCode::Div => 14u8,
            InstructionCode::Rem => 15u8,
            InstructionCode::Neg => 16u8,
            InstructionCode::Not => 17u8,
            InstructionCode::And => 18u8,
            InstructionCode::Or => 19u8,
            InstructionCode::Xor => 20u8,
            InstructionCode::Eq => 21u8,
            InstructionCode::Ne => 22u8,
            InstructionCode::Lt => 23u8,
            InstructionCode::Le => 24u8,
            InstructionCode::Gt => 25u8,
            InstructionCode::Ge => 26u8,
            InstructionCode::Cast => 27u8,
            InstructionCode::Call => 28u8,
            InstructionCode::Return => 29u8,
            InstructionCode::Exit => 30u8,
            InstructionCode::LoopBegin => 31u8,
            InstructionCode::LoopEnd => 32u8,
            InstructionCode::If => 33u8,
            InstructionCode::Else => 34u8,
            InstructionCode::EndIf => 35u8,
            InstructionCode::PushCondition => 36u8,
            InstructionCode::PopCondition => 37u8,
            InstructionCode::AssertConstraint => 38u8,
            InstructionCode::CallBuiltin => 39u8,
            InstructionCode::FileMarker => 40u8,
            InstructionCode::FunctionMarker => 41u8,
            InstructionCode::LineMarker => 42u8,
            InstructionCode::ColumnMarker => 43u8,
        }
    }

    /// The code that the byte stands for, if any.
    pub open spec fn of_byte(byte: u8) -> Option<InstructionCode> {
        if byte == 0u8 {
            Some(InstructionCode::NoOperation)
        } else if byte == 1u8 {
            Some(InstructionCode::PushConst)
        } else if byte == 2u8 {
            Some(InstructionCode::Pop)
        } else if byte == 3u8 {
            Some(InstructionCode::Slice)
        } else if byte == 4u8 {
            Some(InstructionCode::Copy)
        } else if byte == 5u8 {
            Some(InstructionCode::Load)
        } else if byte == 6u8 {
            Some(InstructionCode::Store)
        } else if byte == 7u8 {
            Some(InstructionCode::LoadGlobal)
        } else if byte == 8u8 {
            Some(InstructionCode::StoreGlobal)
        } else if byte == 9u8 {
            Some(InstructionCode::LoadByIndex)
        } else if byte == 10u8 {
            Some(InstructionCode::StoreByIndex)
        } else if byte == 11u8 {
            Some(InstructionCode::Add)
        } else if byte == 12u8 {
            Some(InstructionCode::Sub)
        } else if byte == 13u8 {
            Some(InstructionCode::Mul)
        } else if byte == 14u8 {
            Some(InstructionCode::Div)
        } else if byte == 15u8 {
            Some(InstructionCode::Rem)
        } else if byte == 16u8 {
            Some(InstructionCode::Neg)
        } else if byte == 17u8 {
            Some(InstructionCode::Not)
        } else if byte == 18u8 {
            Some(InstructionCode::And)
        } else if byte == 19u8 {
            Some(InstructionCode::Or)
        } else if byte == 20u8 {
            Some(InstructionCode::Xor)
        } else if byte == 21u8 {
            Some(InstructionCode::Eq)
        } else if byte == 22u8 {
            Some(InstructionCode::Ne)
        } else if byte == 23u8 {
            Some(InstructionCode::Lt)
        } else if byte == 24u8 {
            Some(InstructionCode::Le)
        } else if byte == 25u8 {
            Some(InstructionCode::Gt)
        } else if byte == 26u8 {
            Some(InstructionCode::Ge)
        } else if byte == 27u8 {
            Some(InstructionCode::Cast)
        } else if byte == 28u8 {
            Some(InstructionCode::Call)
        } else if byte == 29u8 {
            Some(InstructionCode::Return)
        } else if byte == 30u8 {
            Some(InstructionCode::Exit)
        } else if byte == 31u8 {
            Some(InstructionCode::LoopBegin)
        } else if byte == 32u8 {
            Some(InstructionCode::LoopEnd)
        } else if byte == 33u8 {
            Some(InstructionCode::If)
        } else if byte == 34u8 {
            Some(InstructionCode::Else)
        } else if byte == 35u8 {
            Some(InstructionCode::EndIf)
        } else if byte == 36u8 {
            Some(InstructionCode::PushCondition)
        } else if byte == 37u8 {
            Some(InstructionCode::PopCondition)
        } else if byte == 38u8 {
            Some(InstructionCode::AssertConstraint)
        } else if byte == 39u8 {
            Some(InstructionCode::CallBuiltin)
        } else if byte == 40u8 {
            Some(InstructionCode::FileMarker)
        } else if byte == 41u8 {
            Some(InstructionCode::FunctionMarker)
        } else if byte == 42u8 {
            Some(InstructionCode::LineMarker)
        } else if byte == 43u8 {
            Some(InstructionCode::ColumnMarker)
        } else {
            None
        }
    }

    /// The layout of the operands of the instruction with this code.
    pub open spec fn shape(self) -> Shape {
        match self {
            InstructionCode::NoOperation => Shape::Nothing,
            InstructionCode::PushConst => Shape::Constant,
            InstructionCode::Pop => Shape::Size,
            InstructionCode::Slice => Shape::Pair,
            InstructionCode::Copy => Shape::Size,
            InstructionCode::Load => Shape::Size,
            InstructionCode::Store => Shape::Size,
            InstructionCode::LoadGlobal => Shape::Size,
            InstructionCode::StoreGlobal => Shape::Size,
            InstructionCode::LoadByIndex => Shape::Pair,
            InstructionCode::StoreByIndex => Shape::Pair,
            InstructionCode::Add => Shape::Nothing,
            InstructionCode::Sub => Shape::Nothing,
            InstructionCode::Mul => Shape::Nothing,
            InstructionCode::Div => Shape::Nothing,
            InstructionCode::Rem => Shape::Nothing,
            InstructionCode::Neg => Shape::Nothing,
            InstructionCode::Not => Shape::Nothing,
            InstructionCode::And => Shape::Nothing,
            InstructionCode::Or => Shape::Nothing,
            InstructionCode::Xor => Shape::Nothing,
            InstructionCode::Eq => Shape::Nothing,
            InstructionCode::Ne => Shape::Nothing,
            InstructionCode::Lt => Shape::Nothing,
            InstructionCode::Le => Shape::Nothing,
            InstructionCode::Gt => Shape::Nothing,
            InstructionCode::Ge => Shape::Nothing,
            InstructionCode::Cast => Shape::Cast,
            InstructionCode::Call => Shape::Pair,
            InstructionCode::Return => Shape::Size,
            InstructionCode::Exit => Shape::Size,
            InstructionCode::LoopBegin => Shape::Size,
            InstructionCode::LoopEnd => Shape::Nothing,
            InstructionCode::If => Shape::Nothing,
            InstructionCode::Else => Shape::Nothing,
            InstructionCode::EndIf => Shape::Nothing,
            InstructionCode::PushCondition => Shape::Nothing,
            InstructionCode::PopCondition => Shape::Nothing,
            InstructionCode::AssertConstraint => Shape::Nothing,
            InstructionCode::CallBuiltin => Shape::Builtin,
            InstructionCode::FileMarker => Shape::Text,
            InstructionCode::FunctionMarker => Shape::Text,
            InstructionCode::LineMarker => Shape::Size,
            InstructionCode::ColumnMarker => Shape::Size,
        }
    }

    /// The byte that stands for the code.
    pub fn to_byte(self) -> (byte: u8)
        ensures
            byte == self.byte(),
    {
        match self {
            InstructionCode::NoOperation => 0u8,
            InstructionCode::PushConst => 1u8,
            InstructionCode::Pop => 2u8,
            InstructionCode::Slice => 3u8,
            InstructionCode::Copy => 4u8,
            InstructionCode::Load => 5u8,
            InstructionCode::Store => 6u8,
            InstructionCode::LoadGlobal => 7u8,
            InstructionCode::StoreGlobal => 8u8,
            InstructionCode::LoadByIndex => 9u8,
            InstructionCode::StoreByIndex => 10u8,
            InstructionCode::Add => 11u8,
            InstructionCode::Sub => 12u8,
            InstructionCode::Mul => 13u8,
            InstructionCode::Div => 14u8,
            InstructionCode::Rem => 15u8,
            InstructionCode::Neg => 16u8,
            InstructionCode::Not => 17u8,
            InstructionCode::And => 18u8,
            InstructionCode::Or => 19u8,
            InstructionCode::Xor => 20u8,
            InstructionCode::Eq => 21u8,
            InstructionCode::Ne => 22u8,
            InstructionCode::Lt => 23u8,
            InstructionCode::Le => 24u8,
            InstructionCode::Gt => 25u8,
            InstructionCode::Ge => 26u8,
            InstructionCode::Cast => 27u8,
            InstructionCode::Call => 28u8,
            InstructionCode::Return => 29u8,
            InstructionCode::Exit => 30u8,
            InstructionCode::LoopBegin => 31u8,
            InstructionCode::LoopEnd => 32u8,
            InstructionCode::If => 33u8,
            InstructionCode::Else => 34u8,
            InstructionCode::EndIf => 35u8,
            InstructionCode::PushCondition => 36u8,
            InstructionCode::PopCondition => 37u8,
            InstructionCode::AssertConstraint => 38u8,
            InstructionCode::CallBuiltin => 39u8,
            InstructionCode::FileMarker => 40u8,
            InstructionCode::FunctionMarker => 41u8,
            InstructionCode::LineMarker => 42u8,
            InstructionCode::ColumnMarker => 43u8,
        }
    }

    /// The code that the byte stands for, if any.
    pub fn from_byte(byte: u8) -> (code: Option<InstructionCode>)
        ensures
            code == Self::of_byte(byte),
    {
        match byte {
            0u8 => Some(InstructionCode::NoOperation),
            1u8 => Some(InstructionCode::PushConst),
            2u8 => Some(InstructionCode::Pop),
            3u8 => Some(InstructionCode::Slice),
            4u8 => Some(InstructionCode::Copy),
            5u8 => Some(InstructionCode::Load),
            6u8 => Some(InstructionCode::Store),
            7u8 => Some(InstructionCode::LoadGlobal),
            8u8 => Some(InstructionCode::StoreGlobal),
            9u8 => Some(InstructionCode::LoadByIndex),
            10u8 => Some(InstructionCode::StoreByIndex),
            11u8 => Some(InstructionCode::Add),
            12u8 => Some(InstructionCode::Sub),
            13u8 => Some(InstructionCode::Mul),
            14u8 => Some(InstructionCode::Div),
            15u8 => Some(InstructionCode::Rem),
            16u8 => Some(InstructionCode::Neg),
            17u8 => Some(InstructionCode::Not),
            18u8 => Some(InstructionCode::And),
            19u8 => Some(InstructionCode::Or),
            20u8 => Some(InstructionCode::Xor),
            21u8 => Some(InstructionCode::Eq),
            22u8 => Some(InstructionCode::Ne),
            23u8 => Some(InstructionCode::Lt),
            24u8 => Some(InstructionCode::Le),
            25u8 => Some(InstructionCode::Gt),
            26u8 => Some(InstructionCode::Ge),
            27u8 => Some(InstructionCode::Cast),
            28u8 => Some(InstructionCode::Call),
            29u8 => Some(InstructionCode::Return),
            30u8 => Some(InstructionCode::Exit),
            31u8 => Some(InstructionCode::LoopBegin),
            32u8 => Some(InstructionCode::LoopEnd),
            33u8 => Some(InstructionCode::If),
            34u8 => Some(InstructionCode::Else),
            35u8 => Some(InstructionCode::EndIf),
            36u8 => Some(InstructionCode::PushCondition),
            37u8 => Some(InstructionCode::PopCondition),
            38u8 => Some(InstructionCode::AssertConstraint),
            39u8 => Some(InstructionCode::CallBuiltin),
            40u8 => Some(InstructionCode::FileMarker),
            41u8 => Some(InstructionCode::FunctionMarker),
            42u8 => Some(InstructionCode::LineMarker),
            43u8 => Some(InstructionCode::ColumnMarker),
            _ => None,
        }
    }

    /// The layout of the operands of the instruction with this code.
    pub fn operands_shape(self) -> (shape: Shape)
        ensures
            shape == self.shape(),
    {
        match self {
            InstructionCode::NoOperation => Shape::Nothing,
            InstructionCode::PushConst => Shape::Constant,
            InstructionCode::Pop => Shape::Size,
            InstructionCode::Slice => Shape::Pair,
            InstructionCode::Copy => Shape::Size,
            InstructionCode::Load => Shape::Size,
            InstructionCode::Store => Shape::Size,
            InstructionCode::LoadGlobal => Shape::Size,
            InstructionCode::StoreGlobal => Shape::Size,
            InstructionCode::LoadByIndex => Shape::Pair,
            InstructionCode::StoreByIndex => Shape::Pair,
            InstructionCode::Add => Shape::Nothing,
            InstructionCode::Sub => Shape::Nothing,
            InstructionCode::Mul => Shape::Nothing,
            InstructionCode::Div => Shape::Nothing,
            InstructionCode::Rem => Shape::Nothing,
            InstructionCode::Neg => Shape::Nothing,
            InstructionCode::Not => Shape::Nothing,
            InstructionCode::And => Shape::Nothing,
            InstructionCode::Or => Shape::Nothing,
            InstructionCode::Xor => Shape::Nothing,
            InstructionCode::Eq => Shape::Nothing,
            InstructionCode::Ne => Shape::Nothing,
            InstructionCode::Lt => Shape::Nothing,
            InstructionCode::Le => Shape::Nothing,
            InstructionCode::Gt => Shape::Nothing,
            InstructionCode::Ge => Shape::Nothing,
            InstructionCode::Cast => Shape::Cast,
            InstructionCode::Call => Shape::Pair,
            InstructionCode::Return => Shape::Size,
            InstructionCode::Exit => Shape::Size,
            InstructionCode::LoopBegin => Shape::Size,
            InstructionCode::LoopEnd => Shape::Nothing,
            InstructionCode::If => Shape::Nothing,
            InstructionCode::Else => Shape::Nothing,
            InstructionCode::EndIf => Shape::Nothing,
            InstructionCode::PushCondition => Shape::Nothing,
            InstructionCode::PopCondition => Shape::Nothing,
            InstructionCode::AssertConstraint => Shape::Nothing,
            InstructionCode::CallBuiltin => Shape::Builtin,
            InstructionCode::FileMarker => Shape::Text,
            InstructionCode::FunctionMarker => Shape::Text,
            InstructionCode::LineMarker => Shape::Size,
            InstructionCode::ColumnMarker => Shape::Size,
        }
    }

    /// Every code is the code of its byte, and no two codes share a byte.
    pub proof fn lemma_byte_round_trip(self)
        ensures
            Self::of_byte(self.byte()) == Some(self),
    {
    }

    /// A byte that stands for a code is the byte of that code.
    pub proof fn lemma_of_byte_is_inverse(byte: u8)
        ensures
            Self::of_byte(byte) matches Some(code) ==> code.byte() == byte,
    {
    }
}

} // verus!
