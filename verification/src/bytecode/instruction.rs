//! The instruction set and its wire format.
//!
//! An instruction is written as the byte of its code, followed by its
//! operands: an address or a size as four bytes, the lowest first; a flag
//! as one byte; a bitlength as one byte; an integer constant as the
//! signedness and the bitlength of its type, its sign, the length of its
//! magnitude and the bytes of the magnitude, the highest first; a text as
//! the length of its UTF-8 form and that form.

use vstd::prelude::*;
use vstd::string::*;
use vstd::utf8::*;

use crate::bytecode::builtins::BuiltinIdentifier;
use crate::bytecode::code::DecodingError;
use crate::bytecode::code::InstructionCode;
use crate::bytecode::code::Shape;
use crate::bytecode::instructions::CallBuiltin;
use crate::bytecode::instructions::Ge;
use crate::bytecode::instructions::Gt;
use crate::bytecode::instructions::Neg;
use crate::bytecode::instructions::PopCondition;
use crate::bytecode::instructions::Sub;
use crate::bytecode::wire::append_bytes;
use crate::bytecode::wire::flag_byte;
use crate::bytecode::wire::lemma_u32_le_round_trip;
use crate::bytecode::wire::read_u32_le;
use crate::bytecode::wire::u32_le;
use crate::bytecode::wire::u32_le_value;
use crate::bytecode::wire::write_u32_le;
use crate::number::BigInteger;

verus! {

/// An instruction of the virtual machine.
#[derive(Debug, Clone, PartialEq, Eq)]
pub enum Instruction {
    /// Does nothing.
    NoOperation,
    /// Pushes an integer constant of the given type.
    PushConst { value: BigInteger, is_signed: bool, bitlength: usize },
    /// Removes the given number of values from the stack.
    Pop(usize),
    /// Takes a slice of the given length from an array of the given length.
    Slice(usize, usize),
    /// Pushes a copy of the value at the given depth of the stack.
    Copy(usize),
    /// Pushes the value at the given address of the frame.
    Load(usize),
    /// Stores the top of the stack at the given address of the frame.
    Store(usize),
    /// Pushes the value at the given global address.
    LoadGlobal(usize),
    /// Stores the top of the stack at the given global address.
    StoreGlobal(usize),
    /// Pushes an element, chosen by the index on the stack, of the array of the given length at the given address.
    LoadByIndex(usize, usize),
    /// Stores into an element, chosen by the index on the stack, of the array of the given length at the given address.
    StoreByIndex(usize, usize),
    /// Addition.
    Add,
    /// Subtraction.
    Sub(Sub),
    /// Multiplication.
    Mul,
    /// Division.
    Div,
    /// Remainder.
    Rem,
    /// Negation.
    Neg(Neg),
    /// Logical negation.
    Not,
    /// Logical conjunction.
    And,
    /// Logical disjunction.
    Or,
    /// Logical exclusive disjunction.
    Xor,
    /// Equality.
    Eq,
    /// Inequality.
    Ne,
    /// Lesser.
    Lt,
    /// Lesser or equal.
    Le,
    /// Greater.
    Gt(Gt),
    /// Greater or equal.
    Ge(Ge),
    /// Casts the top of the stack to the integer type of the given signedness and bitlength.
    Cast { is_signed: bool, bitlength: usize },
    /// Calls the function at the given address with the given number of arguments.
    Call(usize, usize),
    /// Returns the given number of values to the caller.
    Return(usize),
    /// Ends the program with the given number of output values.
    Exit(usize),
    /// Begins a loop of the given number of iterations.
    LoopBegin(usize),
    /// Ends the body of a loop.
    LoopEnd,
    /// Begins the first branch of a conditional.
    If,
    /// Begins the second branch of a conditional.
    Else,
    /// Ends a conditional.
    EndIf,
    /// Moves the top of the stack to the condition stack.
    PushCondition,
    /// Removes the top of the condition stack.
    PopCondition(PopCondition),
    /// Requires the top of the stack to be true.
    AssertConstraint,
    /// Calls the built-in function with the given number of inputs.
    CallBuiltin(CallBuiltin),
    /// Names the source file of what follows.
    FileMarker(String),
    /// Names the function of what follows.
    FunctionMarker(String),
    /// Gives the source line of what follows.
    LineMarker(usize),
    /// Gives the source column of what follows.
    ColumnMarker(usize),
}

/// The operands of an instruction, as the wire format sees them.
pub enum Operands {
    Nothing,
    Size(nat),
    Pair(nat, nat),
    Cast(bool, nat),
    Constant { is_signed: bool, bitlength: nat, negative: bool, magnitude: Seq<u8> },
    Builtin(BuiltinIdentifier, nat),
    Text(Seq<char>),
}

/// What an instruction is: its code and its operands.
pub struct InstructionView {
    pub code: InstructionCode,
    pub operands: Operands,
}

impl Operands {
    /// The layout of the operands.
    pub open spec fn shape(self) -> Shape {
        match self {
            Operands::Nothing => Shape::Nothing,
            Operands::Size(_) => Shape::Size,
            Operands::Pair(_, _) => Shape::Pair,
            Operands::Cast(_, _) => Shape::Cast,
            Operands::Constant { .. } => Shape::Constant,
            Operands::Builtin(_, _) => Shape::Builtin,
            Operands::Text(_) => Shape::Text,
        }
    }

    /// The operands fit the fields of the wire format: an address or a size
    /// in 32 bits, a bitlength in one byte, the length of a magnitude or of
    /// a text in 32 bits.
    pub open spec fn fits(self) -> bool {
        match self {
            Operands::Nothing => true,
            Operands::Size(n) => n <= u32::MAX,
            Operands::Pair(a, b) => a <= u32::MAX && b <= u32::MAX,
            Operands::Cast(_, bitlength) => bitlength <= u8::MAX,
            Operands::Constant { bitlength, magnitude, .. } => bitlength <= u8::MAX
                && magnitude.len() <= u32::MAX,
            Operands::Builtin(_, n) => n <= u32::MAX,
            Operands::Text(text) => encode_utf8(text).len() <= u32::MAX,
        }
    }

    /// The bytes of the operands.
    pub open spec fn encoding(self) -> Seq<u8> {
        match self {
            Operands::Nothing => Seq::<u8>::empty(),
            Operands::Size(n) => u32_le(n),
            Operands::Pair(a, b) => u32_le(a) + u32_le(b),
            Operands::Cast(is_signed, bitlength) => seq![
                flag_byte(is_signed),
                (bitlength % 256) as u8,
            ],
            Operands::Constant { is_signed, bitlength, negative, magnitude } => seq![
                flag_byte(is_signed),
                (bitlength % 256) as u8,
                flag_byte(negative),
            ] + u32_le(magnitude.len()) + magnitude,
            Operands::Builtin(identifier, n) => seq![identifier.byte()] + u32_le(n),
            Operands::Text(text) => u32_le(encode_utf8(text).len()) + encode_utf8(text),
        }
    }
}

impl InstructionView {
    /// The operands are those of the code, and fit the wire format.
    pub open spec fn wf(self) -> bool {
        self.operands.shape() == self.code.shape() && self.operands.fits()
    }

    /// The bytes of the instruction.
    pub open spec fn encoding(self) -> Seq<u8> {
        seq![self.code.byte()] + self.operands.encoding()
    }
}

/// The operands of the given layout that follow the first byte of `bytes`,
/// and the number of bytes of the whole instruction.
pub open spec fn decoded_operands(shape: Shape, bytes: Seq<u8>) -> Result<
    (Operands, nat),
    DecodingError,
> {
    match shape {
        Shape::Nothing => Ok((Operands::Nothing, 1nat)),
        Shape::Size => if bytes.len() < 5 {
            Err(DecodingError::UnexpectedEOF)
        } else {
            Ok((Operands::Size(u32_le_value(bytes.subrange(1, 5))), 5nat))
        },
        Shape::Pair => if bytes.len() < 9 {
            Err(DecodingError::UnexpectedEOF)
        } else {
            Ok(
                (
                    Operands::Pair(
                        u32_le_value(bytes.subrange(1, 5)),
                        u32_le_value(bytes.subrange(5, 9)),
                    ),
                    9nat,
                ),
            )
        },
        Shape::Cast => if bytes.len() < 3 {
            Err(DecodingError::UnexpectedEOF)
        } else {
            Ok((Operands::Cast(bytes[1] != 0, bytes[2] as nat), 3nat))
        },
        Shape::Constant => if bytes.len() < 8 {
            Err(DecodingError::UnexpectedEOF)
        } else {
            let length = u32_le_value(bytes.subrange(4, 8));
            if bytes.len() < 8 + length {
                Err(DecodingError::UnexpectedEOF)
            } else {
                Ok(
                    (
                        Operands::Constant {
                            is_signed: bytes[1] != 0,
                            bitlength: bytes[2] as nat,
                            negative: bytes[3] != 0,
                            magnitude: bytes.subrange(8, 8 + length as int),
                        },
                        8 + length,
                    ),
                )
            }
        },
        Shape::Builtin => if bytes.len() < 6 {
            Err(DecodingError::UnexpectedEOF)
        } else {
            match BuiltinIdentifier::of_byte(bytes[1]) {
                None => Err(DecodingError::UnknownBuiltinIdentifier(bytes[1])),
                Some(identifier) => Ok(
                    (Operands::Builtin(identifier, u32_le_value(bytes.subrange(2, 6))), 6nat),
                ),
            }
        },
        Shape::Text => if bytes.len() < 5 {
            Err(DecodingError::UnexpectedEOF)
        } else {
            let length = u32_le_value(bytes.subrange(1, 5));
            if bytes.len() < 5 + length {
                Err(DecodingError::UnexpectedEOF)
            } else if !valid_utf8(bytes.subrange(5, 5 + length as int)) {
                Err(DecodingError::InvalidText)
            } else {
                Ok((Operands::Text(decode_utf8(bytes.subrange(5, 5 + length as int))), 5 + length))
            }
        },
    }
}

/// The instruction at the beginning of `bytes` and the number of its bytes,
/// or the reason for which there is none.
pub open spec fn decoded(bytes: Seq<u8>) -> Result<(InstructionView, nat), DecodingError> {
    if bytes.len() == 0 {
        Err(DecodingError::UnexpectedEOF)
    } else {
        match InstructionCode::of_byte(bytes[0]) {
            None => Err(DecodingError::UnknownInstructionCode(bytes[0])),
            Some(code) => match decoded_operands(code.shape(), bytes) {
                Err(error) => Err(error),
                Ok((operands, size)) => Ok((InstructionView { code, operands }, size)),
            },
        }
    }
}

impl View for Instruction {
    type V = InstructionView;

    open spec fn view(&self) -> InstructionView {
        InstructionView { code: self.spec_code(), operands: self.spec_operands() }
    }
}

impl Instruction {
    /// The code of the instruction.
    pub open spec fn spec_code(self) -> InstructionCode {
        match self {
            Instruction::NoOperation => InstructionCode::NoOperation,
            Instruction::PushConst { .. } => InstructionCode::PushConst,
            Instruction::Pop(_) => InstructionCode::Pop,
            Instruction::Slice(_, _) => InstructionCode::Slice,
            Instruction::Copy(_) => InstructionCode::Copy,
            Instruction::Load(_) => InstructionCode::Load,
            Instruction::Store(_) => InstructionCode::Store,
            Instruction::LoadGlobal(_) => InstructionCode::LoadGlobal,
            Instruction::StoreGlobal(_) => InstructionCode::StoreGlobal,
            Instruction::LoadByIndex(_, _) => InstructionCode::LoadByIndex,
            Instruction::StoreByIndex(_, _) => InstructionCode::StoreByIndex,
            Instruction::Add => InstructionCode::Add,
            Instruction::Sub(_) => InstructionCode::Sub,
            Instruction::Mul => InstructionCode::Mul,
            Instruction::Div => InstructionCode::Div,
            Instruction::Rem => InstructionCode::Rem,
            Instruction::Neg(_) => InstructionCode::Neg,
            Instruction::Not => InstructionCode::Not,
            Instruction::And => InstructionCode::And,
            Instruction::Or => InstructionCode::Or,
            Instruction::Xor => InstructionCode::Xor,
            Instruction::Eq => InstructionCode::Eq,
            Instruction::Ne => InstructionCode::Ne,
            Instruction::Lt => InstructionCode::Lt,
            Instruction::Le => InstructionCode::Le,
            Instruction::Gt(_) => InstructionCode::Gt,
            Instruction::Ge(_) => InstructionCode::Ge,
            Instruction::Cast { .. } => InstructionCode::Cast,
            Instruction::Call(_, _) => InstructionCode::Call,
            Instruction::Return(_) => InstructionCode::Return,
            Instruction::Exit(_) => InstructionCode::Exit,
            Instruction::LoopBegin(_) => InstructionCode::LoopBegin,
            Instruction::LoopEnd => InstructionCode::LoopEnd,
            Instruction::If => InstructionCode::If,
            Instruction::Else => InstructionCode::Else,
            Instruction::EndIf => InstructionCode::EndIf,
            Instruction::PushCondition => InstructionCode::PushCondition,
            Instruction::PopCondition(_) => InstructionCode::PopCondition,
            Instruction::AssertConstraint => InstructionCode::AssertConstraint,
            Instruction::CallBuiltin(_) => InstructionCode::CallBuiltin,
            Instruction::FileMarker(_) => InstructionCode::FileMarker,
            Instruction::FunctionMarker(_) => InstructionCode::FunctionMarker,
            Instruction::LineMarker(_) => InstructionCode::LineMarker,
            Instruction::ColumnMarker(_) => InstructionCode::ColumnMarker,
        }
    }

    /// The operands of the instruction.
    pub open spec fn spec_operands(self) -> Operands {
        match self {
            Instruction::NoOperation => Operands::Nothing,
            Instruction::PushConst { value, is_signed, bitlength } => Operands::Constant {
                is_signed,
                bitlength: bitlength as nat,
                negative: value.negative,
                magnitude: value.magnitude@,
            },
            Instruction::Pop(n) => Operands::Size(n as nat),
            Instruction::Slice(a, b) => Operands::Pair(a as nat, b as nat),
            Instruction::Copy(n) => Operands::Size(n as nat),
            Instruction::Load(n) => Operands::Size(n as nat),
            Instruction::Store(n) => Operands::Size(n as nat),
            Instruction::LoadGlobal(n) => Operands::Size(n as nat),
            Instruction::StoreGlobal(n) => Operands::Size(n as nat),
            Instruction::LoadByIndex(a, b) => Operands::Pair(a as nat, b as nat),
            Instruction::StoreByIndex(a, b) => Operands::Pair(a as nat, b as nat),
            Instruction::Add => Operands::Nothing,
            Instruction::Sub(_) => Operands::Nothing,
            Instruction::Mul => Operands::Nothing,
            Instruction::Div => Operands::Nothing,
            Instruction::Rem => Operands::Nothing,
            Instruction::Neg(_) => Operands::Nothing,
            Instruction::Not => Operands::Nothing,
            Instruction::And => Operands::Nothing,
            Instruction::Or => Operands::Nothing,
            Instruction::Xor => Operands::Nothing,
            Instruction::Eq => Operands::Nothing,
            Instruction::Ne => Operands::Nothing,
            Instruction::Lt => Operands::Nothing,
            Instruction::Le => Operands::Nothing,
            Instruction::Gt(_) => Operands::Nothing,
            Instruction::Ge(_) => Operands::Nothing,
            Instruction::Cast { is_signed, bitlength } => Operands::Cast(is_signed, bitlength as nat),
            Instruction::Call(a, b) => Operands::Pair(a as nat, b as nat),
            Instruction::Return(n) => Operands::Size(n as nat),
            Instruction::Exit(n) => Operands::Size(n as nat),
            Instruction::LoopBegin(n) => Operands::Size(n as nat),
            Instruction::LoopEnd => Operands::Nothing,
            Instruction::If => Operands::Nothing,
            Instruction::Else => Operands::Nothing,
            Instruction::EndIf => Operands::Nothing,
            Instruction::PushCondition => Operands::Nothing,
            Instruction::PopCondition(_) => Operands::Nothing,
            Instruction::AssertConstraint => Operands::Nothing,
            Instruction::CallBuiltin(call) => Operands::Builtin(
                call.identifier,
                call.inputs_count as nat,
            ),
            Instruction::FileMarker(text) => Operands::Text(text@),
            Instruction::FunctionMarker(text) => Operands::Text(text@),
            Instruction::LineMarker(n) => Operands::Size(n as nat),
            Instruction::ColumnMarker(n) => Operands::Size(n as nat),
        }
    }

    /// The operands of an instruction are those that its code asks for.
    pub proof fn lemma_operands_match_code(self)
        ensures
            self@.operands.shape() == self@.code.shape(),
    {
    }

    /// The code of the instruction.
    pub fn code(&self) -> (code: InstructionCode)
        ensures
            code == self@.code,
    {
        match self {
            Instruction::NoOperation => InstructionCode::NoOperation,
            Instruction::PushConst { .. } => InstructionCode::PushConst,
            Instruction::Pop(_) => InstructionCode::Pop,
            Instruction::Slice(_, _) => InstructionCode::Slice,
            Instruction::Copy(_) => InstructionCode::Copy,
            Instruction::Load(_) => InstructionCode::Load,
            Instruction::Store(_) => InstructionCode::Store,
            Instruction::LoadGlobal(_) => InstructionCode::LoadGlobal,
            Instruction::StoreGlobal(_) => InstructionCode::StoreGlobal,
            Instruction::LoadByIndex(_, _) => InstructionCode::LoadByIndex,
            Instruction::StoreByIndex(_, _) => InstructionCode::StoreByIndex,
            Instruction::Add => InstructionCode::Add,
            Instruction::Sub(_) => InstructionCode::Sub,
            Instruction::Mul => InstructionCode::Mul,
            Instruction::Div => InstructionCode::Div,
            Instruction::Rem => InstructionCode::Rem,
            Instruction::Neg(_) => InstructionCode::Neg,
            Instruction::Not => InstructionCode::Not,
            Instruction::And => InstructionCode::And,
            Instruction::Or => InstructionCode::Or,
            Instruction::Xor => InstructionCode::Xor,
            Instruction::Eq => InstructionCode::Eq,
            Instruction::Ne => InstructionCode::Ne,
            Instruction::Lt => InstructionCode::Lt,
            Instruction::Le => InstructionCode::Le,
            Instruction::Gt(_) => InstructionCode::Gt,
            Instruction::Ge(_) => InstructionCode::Ge,
            Instruction::Cast { .. } => InstructionCode::Cast,
            Instruction::Call(_, _) => InstructionCode::Call,
            Instruction::Return(_) => InstructionCode::Return,
            Instruction::Exit(_) => InstructionCode::Exit,
            Instruction::LoopBegin(_) => InstructionCode::LoopBegin,
            Instruction::LoopEnd => InstructionCode::LoopEnd,
            Instruction::If => InstructionCode::If,
            Instruction::Else => InstructionCode::Else,
            Instruction::EndIf => InstructionCode::EndIf,
            Instruction::PushCondition => InstructionCode::PushCondition,
            Instruction::PopCondition(_) => InstructionCode::PopCondition,
            Instruction::AssertConstraint => InstructionCode::AssertConstraint,
            Instruction::CallBuiltin(_) => InstructionCode::CallBuiltin,
            Instruction::FileMarker(_) => InstructionCode::FileMarker,
            Instruction::FunctionMarker(_) => InstructionCode::FunctionMarker,
            Instruction::LineMarker(_) => InstructionCode::LineMarker,
            Instruction::ColumnMarker(_) => InstructionCode::ColumnMarker,
        }
    }

    /// The bytes of the instruction. An operand that does not fit its field
    /// is written without its higher bits.
    pub fn encode(&self) -> (bytes: Vec<u8>)
        ensures
            bytes@ == self@.encoding(),
    {
        let mut bytes: Vec<u8> = Vec::new();
        bytes.push(self.code().to_byte());
        assert(bytes@ =~= seq![self@.code.byte()]);
        match self {
            Instruction::NoOperation => {},
            Instruction::PushConst { value, is_signed, bitlength } => {
                bytes.push(encode_flag(*is_signed));
                bytes.push((*bitlength % 256) as u8);
                bytes.push(encode_flag(value.negative));
                write_u32_le(&mut bytes, value.magnitude.len());
                append_bytes(&mut bytes, value.magnitude.as_slice());
            },
            Instruction::Pop(n) => {
                write_u32_le(&mut bytes, *n);
            },
            Instruction::Slice(a, b) => {
                write_u32_le(&mut bytes, *a);
                write_u32_le(&mut bytes, *b);
            },
            Instruction::Copy(n) => {
                write_u32_le(&mut bytes, *n);
            },
            Instruction::Load(n) => {
                write_u32_le(&mut bytes, *n);
            },
            Instruction::Store(n) => {
                write_u32_le(&mut bytes, *n);
            },
            Instruction::LoadGlobal(n) => {
                write_u32_le(&mut bytes, *n);
            },
            Instruction::StoreGlobal(n) => {
                write_u32_le(&mut bytes, *n);
            },
            Instruction::LoadByIndex(a, b) => {
                write_u32_le(&mut bytes, *a);
                write_u32_le(&mut bytes, *b);
            },
            Instruction::StoreByIndex(a, b) => {
                write_u32_le(&mut bytes, *a);
                write_u32_le(&mut bytes, *b);
            },
            Instruction::Add => {},
            Instruction::Sub(_) => {},
            Instruction::Mul => {},
            Instruction::Div => {},
            Instruction::Rem => {},
            Instruction::Neg(_) => {},
            Instruction::Not => {},
            Instruction::And => {},
            Instruction::Or => {},
            Instruction::Xor => {},
            Instruction::Eq => {},
            Instruction::Ne => {},
            Instruction::Lt => {},
            Instruction::Le => {},
            Instruction::Gt(_) => {},
            Instruction::Ge(_) => {},
            Instruction::Cast { is_signed, bitlength } => {
                bytes.push(encode_flag(*is_signed));
                bytes.push((*bitlength % 256) as u8);
            },
            Instruction::Call(a, b) => {
                write_u32_le(&mut bytes, *a);
                write_u32_le(&mut bytes, *b);
            },
            Instruction::Return(n) => {
                write_u32_le(&mut bytes, *n);
            },
            Instruction::Exit(n) => {
                write_u32_le(&mut bytes, *n);
            },
            Instruction::LoopBegin(n) => {
                write_u32_le(&mut bytes, *n);
            },
            Instruction::LoopEnd => {},
            Instruction::If => {},
            Instruction::Else => {},
            Instruction::EndIf => {},
            Instruction::PushCondition => {},
            Instruction::PopCondition(_) => {},
            Instruction::AssertConstraint => {},
            Instruction::CallBuiltin(call) => {
                bytes.push(call.identifier.to_byte());
                write_u32_le(&mut bytes, call.inputs_count);
            },
            Instruction::FileMarker(text) => {
                let text_bytes = text.as_str().as_bytes();
                write_u32_le(&mut bytes, text_bytes.len());
                append_bytes(&mut bytes, text_bytes);
            },
            Instruction::FunctionMarker(text) => {
                let text_bytes = text.as_str().as_bytes();
                write_u32_le(&mut bytes, text_bytes.len());
                append_bytes(&mut bytes, text_bytes);
            },
            Instruction::LineMarker(n) => {
                write_u32_le(&mut bytes, *n);
            },
            Instruction::ColumnMarker(n) => {
                write_u32_le(&mut bytes, *n);
            },
        }
        assert(bytes@ =~= self@.encoding());
        bytes
    }

    /// Reads the instruction at the beginning of `bytes`, and says how many
    /// bytes it took.
    pub fn decode(bytes: &[u8]) -> (result: Result<(Instruction, usize), DecodingError>)
        ensures
            match result {
                Ok((instruction, size)) => decoded(bytes@) == Ok::<
                    (InstructionView, nat),
                    DecodingError,
                >((instruction@, size as nat)),
                Err(error) => decoded(bytes@) == Err::<(InstructionView, nat), DecodingError>(
                    error,
                ),
            },
    {
        if bytes.len() == 0 {
            return Err(DecodingError::UnexpectedEOF);
        }
        let code = match InstructionCode::from_byte(bytes[0]) {
            None => return Err(DecodingError::UnknownInstructionCode(bytes[0])),
            Some(code) => code,
        };
        match code.operands_shape() {
            Shape::Nothing => Ok((without_operands(code), 1)),
            Shape::Size => match read_u32_le(bytes, 1) {
                None => Err(DecodingError::UnexpectedEOF),
                Some(n) => Ok((with_size(code, n), 5)),
            },
            Shape::Pair => match read_u32_le(bytes, 5) {
                None => Err(DecodingError::UnexpectedEOF),
                Some(b) => match read_u32_le(bytes, 1) {
                    None => Err(DecodingError::UnexpectedEOF),
                    Some(a) => Ok((with_pair(code, a, b), 9)),
                },
            },
            Shape::Cast => if bytes.len() < 3 {
                Err(DecodingError::UnexpectedEOF)
            } else {
                let bitlength: usize = bytes[2] as usize;
                Ok((Instruction::Cast { is_signed: bytes[1] != 0, bitlength }, 3))
            },
            Shape::Constant => match read_u32_le(bytes, 4) {
                None => Err(DecodingError::UnexpectedEOF),
                Some(length) => if bytes.len() - 8 < length {
                    Err(DecodingError::UnexpectedEOF)
                } else {
                    let magnitude = copy_range(bytes, 8, 8 + length);
                    let value = BigInteger { negative: bytes[3] != 0, magnitude };
                    let bitlength: usize = bytes[2] as usize;
                    Ok(
                        (
                            Instruction::PushConst { value, is_signed: bytes[1] != 0, bitlength },
                            8 + length,
                        ),
                    )
                },
            },
            Shape::Builtin => match read_u32_le(bytes, 2) {
                None => Err(DecodingError::UnexpectedEOF),
                Some(inputs_count) => match BuiltinIdentifier::from_byte(bytes[1]) {
                    None => Err(DecodingError::UnknownBuiltinIdentifier(bytes[1])),
                    Some(identifier) => Ok(
                        (Instruction::CallBuiltin(CallBuiltin { identifier, inputs_count }), 6),
                    ),
                },
            },
            Shape::Text => match read_u32_le(bytes, 1) {
                None => Err(DecodingError::UnexpectedEOF),
                Some(length) => if bytes.len() - 5 < length {
                    Err(DecodingError::UnexpectedEOF)
                } else {
                    match text_from_utf8(copy_range(bytes, 5, 5 + length)) {
                        None => Err(DecodingError::InvalidText),
                        Some(text) => Ok((with_text(code, text), 5 + length)),
                    }
                },
            },
        }
    }
}

/// The byte of a flag.
fn encode_flag(flag: bool) -> (byte: u8)
    ensures
        byte == flag_byte(flag),
{
    if flag {
        1
    } else {
        0
    }
}

/// The bytes of `bytes` from `from` up to `to`.
pub fn copy_range(bytes: &[u8], from: usize, to: usize) -> (copy: Vec<u8>)
    requires
        from <= to <= bytes@.len(),
    ensures
        copy@ == bytes@.subrange(from as int, to as int),
{
    let mut copy: Vec<u8> = Vec::new();
    let mut i: usize = from;
    while i < to
        invariant
            from <= i <= to <= bytes@.len(),
            copy@ == bytes@.subrange(from as int, i as int),
        decreases to - i,
    {
        copy.push(bytes[i]);
        i += 1;
        assert(copy@ =~= bytes@.subrange(from as int, i as int));
    }
    copy
}

/// `String::from_utf8` of std, with its error dropped: the text that the
/// bytes are the UTF-8 form of, and none where they are the form of no text.
#[verifier::external_body]
fn text_from_utf8(bytes: Vec<u8>) -> (text: Option<String>)
    ensures
        text is Some <==> valid_utf8(bytes@),
        text matches Some(t) ==> t@ == decode_utf8(bytes@),
{
    String::from_utf8(bytes).ok()
}

/// The operands are read back from their bytes, whatever precedes them as
/// the first byte and whatever follows them.
proof fn lemma_decoded_operands(first: u8, operands: Operands, rest: Seq<u8>)
    requires
        operands.fits(),
    ensures
        decoded_operands(operands.shape(), seq![first] + operands.encoding() + rest) == Ok::<
            (Operands, nat),
            DecodingError,
        >((operands, 1 + operands.encoding().len())),
{
    let bytes = seq![first] + operands.encoding() + rest;
    match operands {
        Operands::Nothing => {},
        Operands::Size(n) => {
            lemma_u32_le_round_trip(n);
            assert(bytes.subrange(1, 5) =~= u32_le(n));
        },
        Operands::Pair(a, b) => {
            lemma_u32_le_round_trip(a);
            lemma_u32_le_round_trip(b);
            assert(bytes.subrange(1, 5) =~= u32_le(a));
            assert(bytes.subrange(5, 9) =~= u32_le(b));
        },
        Operands::Cast(is_signed, bitlength) => {
            assert(bytes[1] == flag_byte(is_signed));
            assert(bytes[2] == (bitlength % 256) as u8);
        },
        Operands::Constant { is_signed, bitlength, negative, magnitude } => {
            lemma_constant_read_back(first, is_signed, bitlength, negative, magnitude, rest);
        },
        Operands::Builtin(identifier, n) => {
            lemma_u32_le_round_trip(n);
            assert(bytes[1] == identifier.byte());
            assert(bytes.subrange(2, 6) =~= u32_le(n));
        },
        Operands::Text(text) => {
            lemma_text_read_back(first, text, rest);
        },
    }
}

/// A constant is read back from its bytes.
proof fn lemma_constant_read_back(
    first: u8,
    is_signed: bool,
    bitlength: nat,
    negative: bool,
    magnitude: Seq<u8>,
    rest: Seq<u8>,
)
    requires
        bitlength <= u8::MAX,
        magnitude.len() <= u32::MAX,
    ensures
        ({
            let operands = Operands::Constant { is_signed, bitlength, negative, magnitude };
            decoded_operands(Shape::Constant, seq![first] + operands.encoding() + rest) == Ok::<
                (Operands, nat),
                DecodingError,
            >((operands, 1 + operands.encoding().len()))
        }),
{
    let operands = Operands::Constant { is_signed, bitlength, negative, magnitude };
    let bytes = seq![first] + operands.encoding() + rest;
    let length = u32_le(magnitude.len());
    lemma_u32_le_round_trip(magnitude.len());
    assert(operands.encoding() == seq![
        flag_byte(is_signed),
        (bitlength % 256) as u8,
        flag_byte(negative),
    ] + length + magnitude);
    assert(operands.encoding().len() == 7 + magnitude.len());
    assert(bytes[1] == flag_byte(is_signed));
    assert(bytes[2] == (bitlength % 256) as u8);
    assert(bytes[3] == flag_byte(negative));
    assert(bytes.subrange(4, 8) =~= length);
    assert(bytes.subrange(8, 8 + magnitude.len() as int) =~= magnitude);
}

/// A text is read back from its bytes.
proof fn lemma_text_read_back(first: u8, text: Seq<char>, rest: Seq<u8>)
    requires
        encode_utf8(text).len() <= u32::MAX,
    ensures
        decoded_operands(Shape::Text, seq![first] + Operands::Text(text).encoding() + rest) == Ok::<
            (Operands, nat),
            DecodingError,
        >((Operands::Text(text), 1 + Operands::Text(text).encoding().len())),
{
    let form = encode_utf8(text);
    let length = u32_le(form.len());
    let bytes = seq![first] + Operands::Text(text).encoding() + rest;
    lemma_u32_le_round_trip(form.len());
    assert(Operands::Text(text).encoding() == length + form);
    assert(bytes.subrange(1, 5) =~= length);
    assert(bytes.subrange(5, 5 + form.len() as int) =~= form);
    encode_utf8_valid_utf8(text);
    encode_utf8_decode_utf8(text);
}

/// Decoding reads an instruction back from its bytes, whatever follows them:
/// it gives the instruction and the number of its bytes.
pub proof fn lemma_decode_encode(view: InstructionView, rest: Seq<u8>)
    requires
        view.wf(),
    ensures
        decoded(view.encoding() + rest) == Ok::<(InstructionView, nat), DecodingError>(
            (view, view.encoding().len()),
        ),
{
    let bytes = view.encoding() + rest;
    view.code.lemma_byte_round_trip();
    assert(bytes[0] == view.code.byte());
    lemma_decoded_operands(view.code.byte(), view.operands, rest);
    assert(bytes =~= seq![view.code.byte()] + view.operands.encoding() + rest);
}

/// The round trip of the wire format: the bytes of an instruction whose
/// operands fit their fields decode to that instruction, and the decoder
/// takes them all.
pub proof fn lemma_round_trip(instruction: Instruction)
    requires
        instruction@.operands.fits(),
    ensures
        decoded(instruction@.encoding()) == Ok::<(InstructionView, nat), DecodingError>(
            (instruction@, instruction@.encoding().len()),
        ),
{
    instruction.lemma_operands_match_code();
    lemma_decode_encode(instruction@, Seq::<u8>::empty());
    assert(instruction@.encoding() + Seq::<u8>::empty() =~= instruction@.encoding());
}

/// The instruction without operands that has the given code.
fn without_operands(code: InstructionCode) -> (instruction: Instruction)
    requires
        code.shape() == Shape::Nothing,
    ensures
        instruction@ == (InstructionView { code, operands: Operands::Nothing }),
{
    match code {
        InstructionCode::NoOperation => Instruction::NoOperation,
        InstructionCode::Add => Instruction::Add,
        InstructionCode::Sub => Instruction::Sub(Sub),
        InstructionCode::Mul => Instruction::Mul,
        InstructionCode::Div => Instruction::Div,
        InstructionCode::Rem => Instruction::Rem,
        InstructionCode::Neg => Instruction::Neg(Neg),
        InstructionCode::Not => Instruction::Not,
        InstructionCode::And => Instruction::And,
        InstructionCode::Or => Instruction::Or,
        InstructionCode::Xor => Instruction::Xor,
        InstructionCode::Eq => Instruction::Eq,
        InstructionCode::Ne => Instruction::Ne,
        InstructionCode::Lt => Instruction::Lt,
        InstructionCode::Le => Instruction::Le,
        InstructionCode::Gt => Instruction::Gt(Gt),
        InstructionCode::Ge => Instruction::Ge(Ge),
        InstructionCode::LoopEnd => Instruction::LoopEnd,
        InstructionCode::If => Instruction::If,
        InstructionCode::Else => Instruction::Else,
        InstructionCode::EndIf => Instruction::EndIf,
        InstructionCode::PushCondition => Instruction::PushCondition,
        InstructionCode::PopCondition => Instruction::PopCondition(PopCondition),
        InstructionCode::AssertConstraint => Instruction::AssertConstraint,
        _ => vstd::pervasive::unreached(),
    }
}

/// The instruction with one address or size that has the given code.
fn with_size(code: InstructionCode, n: usize) -> (instruction: Instruction)
    requires
        code.shape() == Shape::Size,
    ensures
        instruction@ == (InstructionView { code, operands: Operands::Size(n as nat) }),
{
    match code {
        InstructionCode::Pop => Instruction::Pop(n),
        InstructionCode::Copy => Instruction::Copy(n),
        InstructionCode::Load => Instruction::Load(n),
        InstructionCode::Store => Instruction::Store(n),
        InstructionCode::LoadGlobal => Instruction::LoadGlobal(n),
        InstructionCode::StoreGlobal => Instruction::StoreGlobal(n),
        InstructionCode::Return => Instruction::Return(n),
        InstructionCode::Exit => Instruction::Exit(n),
        InstructionCode::LoopBegin => Instruction::LoopBegin(n),
        InstructionCode::LineMarker => Instruction::LineMarker(n),
        InstructionCode::ColumnMarker => Instruction::ColumnMarker(n),
        _ => vstd::pervasive::unreached(),
    }
}

/// The instruction with two addresses or sizes that has the given code.
fn with_pair(code: InstructionCode, a: usize, b: usize) -> (instruction: Instruction)
    requires
        code.shape() == Shape::Pair,
    ensures
        instruction@ == (InstructionView { code, operands: Operands::Pair(a as nat, b as nat) }),
{
    match code {
        InstructionCode::Slice => Instruction::Slice(a, b),
        InstructionCode::LoadByIndex => Instruction::LoadByIndex(a, b),
        InstructionCode::StoreByIndex => Instruction::StoreByIndex(a, b),
        InstructionCode::Call => Instruction::Call(a, b),
        _ => vstd::pervasive::unreached(),
    }
}

/// The instruction with a text that has the given code.
fn with_text(code: InstructionCode, text: String) -> (instruction: Instruction)
    requires
        code.shape() == Shape::Text,
    ensures
        instruction@ == (InstructionView { code, operands: Operands::Text(text@) }),
{
    match code {
        InstructionCode::FileMarker => Instruction::FileMarker(text),
        InstructionCode::FunctionMarker => Instruction::FunctionMarker(text),
        _ => vstd::pervasive::unreached(),
    }
}

} // verus!
