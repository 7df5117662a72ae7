use zinc::bytecode::builtins::BuiltinIdentifier;
use zinc::number::BigInteger;
use zinc::semantic::element::Constant;
use zinc::semantic::element::Element;
use zinc::semantic::element::RuntimeValue;
use zinc::semantic::function_error::Error as FunctionError;
use zinc::semantic::integer::Integer;
use zinc::semantic::place_error::Error as PlaceError;
use zinc::semantic::schnorr_verify::Function;
use zinc::semantic::schnorr_verify::TYPE_ID_STD_CRYPTO_SCHNORR_SIGNATURE;
use zinc::semantic::types::Type;

fn signature() -> Element {
    Element::Value(RuntimeValue {
        kind: Type::Structure {
            unique_id: TYPE_ID_STD_CRYPTO_SCHNORR_SIGNATURE,
            identifier: "Signature".to_owned(),
            fields: vec![("s".to_owned(), Type::Field)],
        },
    })
}

fn message(size: usize) -> Element {
    Element::Value(RuntimeValue {
        kind: Type::Array { element: Box::new(Type::Boolean), size },
    })
}

fn verify() -> Function {
    Function::new(BuiltinIdentifier::CryptoSchnorrSignatureVerify)
}

const MESSAGE_EXPECTED: &str = "[bool; N], 0 < N <= 248, N % 8 == 0";
const SIGNATURE_EXPECTED: &str = "std::crypto::schnorr::Signature { r: std::crypto::ecc::Point, s: field, pk: std::crypto::ecc::Point }";

#[test]
fn schnorr_verify_describes_itself() {
    let function = verify();
    assert_eq!(function.identifier(), "verify");
    assert_eq!(function.builtin_identifier(), BuiltinIdentifier::CryptoSchnorrSignatureVerify);
    assert_eq!(Function::ARGUMENT_COUNT, 2);
    assert_eq!(Function::ARGUMENT_INDEX_SIGNATURE, 0);
    assert_eq!(Function::ARGUMENT_INDEX_MESSAGE, 1);
}

#[test]
fn schnorr_verify_accepts_a_message_of_whole_bytes() {
    assert_eq!(verify().call(vec![signature(), message(16)]), Ok(Type::Boolean));
    assert_eq!(verify().call(vec![signature(), message(8)]), Ok(Type::Boolean));
    assert_eq!(verify().call(vec![signature(), message(248)]), Ok(Type::Boolean));
}

#[test]
fn schnorr_verify_refuses_a_message_of_seven_bits() {
    assert_eq!(
        verify().call(vec![signature(), message(7)]),
        Err(FunctionError::ArgumentType {
            function: "verify".to_owned(),
            name: "message".to_owned(),
            position: 2,
            expected: MESSAGE_EXPECTED.to_owned(),
            found: "[bool; 7]".to_owned(),
        })
    );
}

#[test]
fn schnorr_verify_refuses_other_messages() {
    for size in [0usize, 256, 249, 12] {
        assert_eq!(
            verify().call(vec![signature(), message(size)]),
            Err(FunctionError::argument_type(
                "verify".to_owned(),
                "message".to_owned(),
                2,
                MESSAGE_EXPECTED.to_owned(),
                format!("[bool; {}]", size),
            ))
        );
    }
    let bytes = Element::Value(RuntimeValue {
        kind: Type::Array { element: Box::new(Type::IntegerUnsigned { bitlength: 8 }), size: 16 },
    });
    assert_eq!(
        verify().call(vec![signature(), bytes]),
        Err(FunctionError::argument_type(
            "verify".to_owned(),
            "message".to_owned(),
            2,
            MESSAGE_EXPECTED.to_owned(),
            "[u8; 16]".to_owned(),
        ))
    );
    assert_eq!(
        verify().call(vec![signature(), Element::Constant(Constant::Boolean(true))]),
        Err(FunctionError::argument_type(
            "verify".to_owned(),
            "message".to_owned(),
            2,
            MESSAGE_EXPECTED.to_owned(),
            "bool".to_owned(),
        ))
    );
}

#[test]
fn schnorr_verify_refuses_another_signature() {
    let other = Element::Value(RuntimeValue {
        kind: Type::Structure {
            unique_id: 77,
            identifier: "Other".to_owned(),
            fields: vec![],
        },
    });
    assert_eq!(
        verify().call(vec![other, message(16)]),
        Err(FunctionError::argument_type(
            "verify".to_owned(),
            "signature".to_owned(),
            1,
            SIGNATURE_EXPECTED.to_owned(),
            "struct Other".to_owned(),
        ))
    );
    assert_eq!(
        verify().call(vec![message(16), message(16)]),
        Err(FunctionError::argument_type(
            "verify".to_owned(),
            "signature".to_owned(),
            1,
            SIGNATURE_EXPECTED.to_owned(),
            "[bool; 16]".to_owned(),
        ))
    );
}

#[test]
fn schnorr_verify_counts_its_arguments() {
    assert_eq!(
        verify().call(vec![]),
        Err(FunctionError::argument_count("verify".to_owned(), 2, 0))
    );
    assert_eq!(
        verify().call(vec![signature()]),
        Err(FunctionError::argument_count("verify".to_owned(), 2, 1))
    );
    assert_eq!(
        verify().call(vec![signature(), message(16), message(16)]),
        Err(FunctionError::ArgumentCount { function: "verify".to_owned(), expected: 2, found: 3 })
    );
}

#[test]
fn schnorr_verify_wants_values() {
    assert_eq!(
        verify().call(vec![signature(), Element::Type(Type::Field), Element::Module("m".to_owned())]),
        Err(FunctionError::argument_not_evaluable("verify".to_owned(), 2, "field".to_owned()))
    );
    assert_eq!(
        verify().call(vec![Element::Module("std".to_owned())]),
        Err(FunctionError::ArgumentNotEvaluable {
            function: "verify".to_owned(),
            position: 1,
            found: "module std".to_owned(),
        })
    );
}

#[test]
fn types_are_written() {
    assert_eq!(Type::Unit.to_text(), "()");
    assert_eq!(Type::Boolean.to_text(), "bool");
    assert_eq!(Type::IntegerUnsigned { bitlength: 64 }.to_text(), "u64");
    assert_eq!(Type::IntegerUnsigned { bitlength: 128 }.to_text(), "u128");
    assert_eq!(Type::IntegerSigned { bitlength: 8 }.to_text(), "i8");
    assert_eq!(Type::Field.to_text(), "field");
    assert_eq!(
        Type::Array { element: Box::new(Type::Tuple { types: vec![] }), size: 10 }.to_text(),
        "[(); 10]"
    );
    assert_eq!(
        Type::Tuple { types: vec![Type::Boolean, Type::Field, Type::IntegerUnsigned { bitlength: 8 }] }
            .to_text(),
        "(bool, field, u8)"
    );
    assert_eq!(Type::Tuple { types: vec![Type::Boolean] }.to_text(), "(bool)");
    assert_eq!(
        Type::Enumeration { unique_id: 3, identifier: "Default".to_owned(), bitlength: 8 }.to_text(),
        "enum Default"
    );
    assert_eq!(Type::empty_structure().to_text(), "struct ");
}

#[test]
fn types_have_sizes() {
    assert_eq!(Type::Unit.size(), 0);
    assert_eq!(Type::Boolean.size(), 1);
    assert_eq!(Type::Field.size(), 1);
    assert_eq!(Type::IntegerSigned { bitlength: 248 }.size(), 1);
    assert_eq!(Type::Enumeration { unique_id: 1, identifier: "E".to_owned(), bitlength: 8 }.size(), 1);
    let pair = Type::Tuple { types: vec![Type::Boolean, Type::Field] };
    assert_eq!(pair.size(), 2);
    let array = Type::Array { element: Box::new(pair), size: 5 };
    assert_eq!(array.size(), 10);
    let structure = Type::Structure {
        unique_id: 9,
        identifier: "S".to_owned(),
        fields: vec![("a".to_owned(), array), ("b".to_owned(), Type::Unit), ("c".to_owned(), Type::Field)],
    };
    assert_eq!(structure.size(), 11);
    assert_eq!(Type::Array { element: Box::new(Type::Field), size: 0 }.size(), 0);
    assert_eq!(Type::empty_structure().size(), 0);
}

#[test]
fn constants_have_types() {
    assert_eq!(Constant::Unit.to_kind(), Type::Unit);
    assert_eq!(Constant::Boolean(false).to_kind(), Type::Boolean);
    let integer = |is_signed, bitlength| {
        Constant::Integer(Integer::new(BigInteger::new(false, vec![5]), is_signed, bitlength))
    };
    assert_eq!(integer(false, 8).to_kind(), Type::IntegerUnsigned { bitlength: 8 });
    assert_eq!(integer(true, 16).to_kind(), Type::IntegerSigned { bitlength: 16 });
    assert_eq!(integer(false, 254).to_kind(), Type::Field);
    assert!(Element::Constant(integer(false, 8)).is_evaluable());
    assert!(!Element::Type(Type::Field).is_evaluable());
    assert_eq!(Element::Constant(integer(true, 8)).to_text(), "i8");
}

#[test]
fn place_errors_are_written() {
    assert_eq!(
        PlaceError::OperatorIndexFirstOperandExpectedArray("u8".to_owned()).to_text(),
        "'[]' operator expected an array as the first operand, but got 'u8'"
    );
    assert_eq!(
        PlaceError::OperatorIndexSecondOperandExpectedIntegerOrRange("bool".to_owned()).to_text(),
        "'[]' operator expected an integer as the second operand, but got 'bool'"
    );
    assert_eq!(
        PlaceError::IndexSliceStartOutOfRange("-1".to_owned()).to_text(),
        "left range bound -1 cannot be negative"
    );
    assert_eq!(
        PlaceError::IndexSliceEndOutOfRange("6".to_owned(), "5".to_owned()).to_text(),
        "right range bound 6 is out of range of the array of size 5"
    );
    assert_eq!(
        PlaceError::IndexSliceEndLesserThanStart("1".to_owned(), "2".to_owned()).to_text(),
        "right range bound 1 is lesser than the left one 2"
    );
    assert_eq!(
        PlaceError::OperatorFieldFirstOperandExpectedTuple("field".to_owned()).to_text(),
        "'.' operator expected a tuple as the first operand, but got 'field'"
    );
    assert_eq!(
        PlaceError::OperatorFieldFirstOperandExpectedStructure("(u8, u8)".to_owned()).to_text(),
        "'.' operator expected a structure as the first operand, but got '(u8, u8)'"
    );
    assert_eq!(
        PlaceError::FieldDoesNotExistInTuple(120, "(u8, u8)".to_owned()).to_text(),
        "tuple field 120 does not exist in '(u8, u8)'"
    );
    assert_eq!(
        PlaceError::FieldDoesNotExistInStructure("x".to_owned(), "struct S".to_owned()).to_text(),
        "structure field 'x' does not exist in 'struct S'"
    );
}

#[test]
fn comment_errors_are_written() {
    assert_eq!(zinc::lexical::comment::Error::UnexpectedEnd.to_text(), "unexpected end");
    assert_eq!(zinc::lexical::comment::Error::NotAComment.to_text(), "not a comment");
}

#[test]
fn numbers_are_written_in_decimal() {
    assert_eq!(zinc::text::decimal_text(0), "0");
    assert_eq!(zinc::text::decimal_text(9), "9");
    assert_eq!(zinc::text::decimal_text(10), "10");
    assert_eq!(zinc::text::decimal_text(18446744073709551615), "18446744073709551615");
}

#[test]
fn sizes_that_do_not_fit_are_none() {
    let row = Type::Array { element: Box::new(Type::Field), size: usize::MAX };
    assert_eq!(row.checked_size(), Some(usize::MAX));
    let table = Type::Array { element: Box::new(row), size: 2 };
    assert_eq!(table.checked_size(), None);
    let pair = Type::Tuple {
        types: vec![
            Type::Array { element: Box::new(Type::Field), size: usize::MAX },
            Type::Boolean,
        ],
    };
    assert_eq!(pair.checked_size(), None);
    let empty = Type::Array { element: Box::new(table), size: 0 };
    assert_eq!(empty.checked_size(), Some(0));
    let structure = Type::Structure {
        unique_id: 1,
        identifier: "S".to_owned(),
        fields: vec![("a".to_owned(), Type::Field), ("b".to_owned(), pair)],
    };
    assert_eq!(structure.checked_size(), None);
    assert_eq!(Type::Tuple { types: vec![Type::Field, Type::Boolean] }.checked_size(), Some(2));
}

#[test]
fn bitlengths_of_the_types() {
    for bitlength in [8usize, 16, 248, 254] {
        assert!(Integer::is_valid_bitlength(bitlength));
    }
    for bitlength in [0usize, 7, 9, 249, 256, 255] {
        assert!(!Integer::is_valid_bitlength(bitlength));
    }
}
