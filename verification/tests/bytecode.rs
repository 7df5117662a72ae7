use zinc::bytecode::builtins::BuiltinIdentifier;
use zinc::bytecode::code::DecodingError;
use zinc::bytecode::code::InstructionCode;
use zinc::bytecode::instruction::Instruction;
use zinc::bytecode::instructions::decode_simple_instruction;
use zinc::bytecode::instructions::CallBuiltin;
use zinc::bytecode::instructions::Ge;
use zinc::bytecode::instructions::Gt;
use zinc::bytecode::instructions::InstructionInfo;
use zinc::bytecode::instructions::Neg;
use zinc::bytecode::instructions::PopCondition;
use zinc::bytecode::instructions::Sub;
use zinc::bytecode::program::Program;
use zinc::number::BigInteger;
use zinc::semantic::types::Type;

#[test]
fn simple_instructions_describe_themselves() {
    assert_eq!(Ge.to_assembly(), "ge");
    assert_eq!(Gt.to_assembly(), "gt");
    assert_eq!(Neg.to_assembly(), "neg");
    assert_eq!(Sub.to_assembly(), "sub");
    assert_eq!(Ge::code(), InstructionCode::Ge);
    assert_eq!(Gt::code(), InstructionCode::Gt);
    assert_eq!(Neg::code(), InstructionCode::Neg);
    assert_eq!(Sub::code(), InstructionCode::Sub);
    assert_eq!((Ge.inputs_count(), Ge.outputs_count()), (2, 1));
    assert_eq!((Gt.inputs_count(), Gt.outputs_count()), (2, 1));
    assert_eq!((Neg.inputs_count(), Neg.outputs_count()), (1, 1));
    assert_eq!((Sub.inputs_count(), Sub.outputs_count()), (2, 1));
    assert_eq!((PopCondition.inputs_count(), PopCondition.outputs_count()), (0, 0));
    assert_eq!(Ge::default(), Ge);
}

#[test]
fn simple_instructions_encode_to_their_code() {
    assert_eq!(Ge.encode(), vec![InstructionCode::Ge.to_byte()]);
    assert_eq!(Gt.encode(), vec![25]);
    assert_eq!(Neg.encode(), vec![16]);
    assert_eq!(Sub.encode(), vec![12]);
    assert_eq!(Ge.encode(), vec![26]);
}

#[test]
fn simple_instructions_decode() {
    assert_eq!(Ge::decode(&[26, 1, 2]), Ok((Ge, 1)));
    assert_eq!(Gt::decode(&[25]), Ok((Gt, 1)));
    assert_eq!(Neg::decode(&[16]), Ok((Neg, 1)));
    assert_eq!(Sub::decode(&[12]), Ok((Sub, 1)));
    assert_eq!(Ge::decode(&[]), Err(DecodingError::UnexpectedEOF));
    assert_eq!(Ge::decode(&[25]), Err(DecodingError::UnknownInstructionCode(25)));
    assert_eq!(
        decode_simple_instruction(InstructionCode::Sub, &[200]),
        Err(DecodingError::UnknownInstructionCode(200))
    );
    assert_eq!(decode_simple_instruction(InstructionCode::Sub, &[12, 0]), Ok(1));
}

#[test]
fn instruction_code_bytes_round_trip() {
    for byte in 0u8..=255 {
        match InstructionCode::from_byte(byte) {
            Some(code) => assert_eq!(code.to_byte(), byte),
            None => assert!(byte >= 44),
        }
    }
    assert_eq!(InstructionCode::from_byte(0), Some(InstructionCode::NoOperation));
    assert_eq!(InstructionCode::from_byte(43), Some(InstructionCode::ColumnMarker));
}

fn samples() -> Vec<Instruction> {
    vec![
        Instruction::NoOperation,
        Instruction::PushConst {
            value: BigInteger::new(false, vec![1, 0]),
            is_signed: false,
            bitlength: 16,
        },
        Instruction::PushConst {
            value: BigInteger::new(true, vec![128]),
            is_signed: true,
            bitlength: 8,
        },
        Instruction::PushConst { value: BigInteger::new(false, vec![]), is_signed: false, bitlength: 254 },
        Instruction::Pop(3),
        Instruction::Slice(10, 4),
        Instruction::Copy(1),
        Instruction::Load(7),
        Instruction::Store(0),
        Instruction::LoadGlobal(0),
        Instruction::StoreGlobal(4294967295),
        Instruction::LoadByIndex(2, 8),
        Instruction::StoreByIndex(2, 8),
        Instruction::Add,
        Instruction::Sub(Sub),
        Instruction::Mul,
        Instruction::Div,
        Instruction::Rem,
        Instruction::Neg(Neg),
        Instruction::Not,
        Instruction::And,
        Instruction::Or,
        Instruction::Xor,
        Instruction::Eq,
        Instruction::Ne,
        Instruction::Lt,
        Instruction::Le,
        Instruction::Gt(Gt),
        Instruction::Ge(Ge),
        Instruction::Cast { is_signed: true, bitlength: 248 },
        Instruction::Call(5, 0),
        Instruction::Return(1),
        Instruction::Exit(1),
        Instruction::LoopBegin(10),
        Instruction::LoopEnd,
        Instruction::If,
        Instruction::Else,
        Instruction::EndIf,
        Instruction::PushCondition,
        Instruction::PopCondition(PopCondition),
        Instruction::AssertConstraint,
        Instruction::CallBuiltin(CallBuiltin::new(BuiltinIdentifier::CryptoSchnorrSignatureVerify, 2)),
        Instruction::FileMarker("main.zn".to_owned()),
        Instruction::FunctionMarker("größe".to_owned()),
        Instruction::LineMarker(3),
        Instruction::ColumnMarker(19),
    ]
}

#[test]
fn every_instruction_round_trips() {
    for instruction in samples() {
        let bytes = instruction.encode();
        assert_eq!(Instruction::decode(&bytes), Ok((instruction, bytes.len())));
    }
}

#[test]
fn decoding_ignores_what_follows() {
    for instruction in samples() {
        let mut bytes = instruction.encode();
        let size = bytes.len();
        bytes.extend_from_slice(&[255, 0, 7]);
        assert_eq!(Instruction::decode(&bytes), Ok((instruction, size)));
    }
}

#[test]
fn instructions_encode_exactly() {
    assert_eq!(Instruction::Add.encode(), vec![11]);
    assert_eq!(Instruction::Call(5, 258).encode(), vec![28, 5, 0, 0, 0, 2, 1, 0, 0]);
    assert_eq!(Instruction::Exit(1).encode(), vec![30, 1, 0, 0, 0]);
    assert_eq!(
        Instruction::Cast { is_signed: false, bitlength: 254 }.encode(),
        vec![27, 0, 254]
    );
    assert_eq!(
        Instruction::PushConst {
            value: BigInteger::new(true, vec![1, 44]),
            is_signed: true,
            bitlength: 16
        }
        .encode(),
        vec![1, 1, 16, 1, 2, 0, 0, 0, 1, 44]
    );
    assert_eq!(
        Instruction::CallBuiltin(CallBuiltin::new(BuiltinIdentifier::CryptoPedersen, 3)).encode(),
        vec![39, 1, 3, 0, 0, 0]
    );
    assert_eq!(
        Instruction::FileMarker("é".to_owned()).encode(),
        vec![40, 2, 0, 0, 0, 0xc3, 0xa9]
    );
}

#[test]
fn decoding_errors() {
    assert_eq!(Instruction::decode(&[]), Err(DecodingError::UnexpectedEOF));
    assert_eq!(Instruction::decode(&[44]), Err(DecodingError::UnknownInstructionCode(44)));
    assert_eq!(Instruction::decode(&[28, 5, 0, 0, 0, 2, 1, 0]), Err(DecodingError::UnexpectedEOF));
    assert_eq!(Instruction::decode(&[2, 3, 0, 0]), Err(DecodingError::UnexpectedEOF));
    assert_eq!(Instruction::decode(&[27, 1]), Err(DecodingError::UnexpectedEOF));
    assert_eq!(
        Instruction::decode(&[1, 0, 8, 0, 2, 0, 0, 0, 1]),
        Err(DecodingError::UnexpectedEOF)
    );
    assert_eq!(
        Instruction::decode(&[39, 9, 1, 0, 0, 0]),
        Err(DecodingError::UnknownBuiltinIdentifier(9))
    );
    assert_eq!(Instruction::decode(&[39, 9, 1, 0, 0]), Err(DecodingError::UnexpectedEOF));
    assert_eq!(
        Instruction::decode(&[40, 2, 0, 0, 0, 0xc3, 0x28]),
        Err(DecodingError::InvalidText)
    );
    assert_eq!(Instruction::decode(&[40, 2, 0, 0, 0, 0xc3]), Err(DecodingError::UnexpectedEOF));
}

#[test]
fn oversized_operand_loses_its_higher_bits() {
    let bytes = Instruction::Cast { is_signed: false, bitlength: 256 + 8 }.encode();
    assert_eq!(bytes, vec![27, 0, 8]);
    assert_eq!(
        Instruction::decode(&bytes),
        Ok((Instruction::Cast { is_signed: false, bitlength: 8 }, 3))
    );
}

#[test]
fn builtin_identifier_bytes() {
    assert_eq!(BuiltinIdentifier::CryptoSha256.to_byte(), 0);
    assert_eq!(BuiltinIdentifier::from_byte(1), Some(BuiltinIdentifier::CryptoPedersen));
    assert_eq!(
        BuiltinIdentifier::from_byte(2),
        Some(BuiltinIdentifier::CryptoSchnorrSignatureVerify)
    );
    assert_eq!(BuiltinIdentifier::from_byte(3), None);
}

#[test]
fn program_bytes() {
    let input = Type::Structure {
        unique_id: 0,
        identifier: "input".to_owned(),
        fields: vec![("x".to_owned(), Type::IntegerUnsigned { bitlength: 8 })],
    };
    let output = Type::Tuple { types: vec![Type::Boolean, Type::Field] };
    let program = Program::new(input, output, vec![Instruction::Call(2, 1), Instruction::Exit(2)]);
    let header: Vec<u8> = vec![
        7, 0, 0, 0, 0, 5, 0, 0, 0, b'i', b'n', b'p', b'u', b't', 1, 0, 0, 0, // structure
        1, 0, 0, 0, b'x', 2, 8, 0, 0, 0, // field x: u8
        6, 2, 0, 0, 0, 1, 4, // tuple of bool and field
    ];
    let mut expected: Vec<u8> = vec![header.len() as u8, 0, 0, 0];
    expected.extend_from_slice(&header);
    expected.extend_from_slice(&[2, 0, 0, 0]);
    expected.extend_from_slice(&[28, 2, 0, 0, 0, 1, 0, 0, 0]);
    expected.extend_from_slice(&[30, 2, 0, 0, 0]);
    assert_eq!(program.to_bytes(), expected);
}
