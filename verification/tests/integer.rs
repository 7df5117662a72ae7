use std::str::FromStr;

use num_bigint::BigInt;
use num_bigint::Sign;

use zinc::number::BigInteger;
use zinc::semantic::integer::Comparison;
use zinc::semantic::integer::Error;
use zinc::semantic::integer::Integer;

fn big(text: &str) -> BigInteger {
    let (sign, magnitude) = BigInt::from_str(text).unwrap_or_default().to_bytes_be();
    BigInteger::new(sign == Sign::Minus, magnitude)
}

#[test]
fn minimal_bitlength() {
    assert_eq!(
        Integer::minimal_bitlength(&big("0"), false),
        Ok(zinc::BITLENGTH_BYTE * 1),
    );
    assert_eq!(
        Integer::minimal_bitlength(&big("255"), false),
        Ok(zinc::BITLENGTH_BYTE * 1),
    );
    assert_eq!(
        Integer::minimal_bitlength(&big("256"), false),
        Ok(zinc::BITLENGTH_BYTE * 2),
    );
    assert_eq!(
        Integer::minimal_bitlength(&big("65535"), false),
        Ok(zinc::BITLENGTH_BYTE * 2),
    );
    assert_eq!(
        Integer::minimal_bitlength(&big("65536"), false),
        Ok(zinc::BITLENGTH_BYTE * 3),
    );
    assert_eq!(
        Integer::minimal_bitlength(&big("4294967295"), false),
        Ok(zinc::BITLENGTH_BYTE * 4),
    );
    assert_eq!(
        Integer::minimal_bitlength(&big("4294967296"), false),
        Ok(zinc::BITLENGTH_BYTE * 5),
    );
    assert_eq!(
        Integer::minimal_bitlength(&big("18446744073709551615"), false),
        Ok(zinc::BITLENGTH_BYTE * 8),
    );
    assert_eq!(
        Integer::minimal_bitlength(&big("18446744073709551616"), false),
        Ok(zinc::BITLENGTH_BYTE * 9),
    );
    assert_eq!(
        Integer::minimal_bitlength(&big("-128"), true),
        Ok(zinc::BITLENGTH_BYTE * 1),
    );
    assert_eq!(
        Integer::minimal_bitlength(&big("127"), true),
        Ok(zinc::BITLENGTH_BYTE * 1),
    );
    assert_eq!(
        Integer::minimal_bitlength(&big("128"), true),
        Ok(zinc::BITLENGTH_BYTE * 2),
    );
    assert_eq!(
        Integer::minimal_bitlength(&big("32767"), true),
        Ok(zinc::BITLENGTH_BYTE * 2),
    );
    assert_eq!(
        Integer::minimal_bitlength(&big("32768"), true),
        Ok(zinc::BITLENGTH_BYTE * 3),
    );
    assert_eq!(
        Integer::minimal_bitlength(&big("2147483647"), true),
        Ok(zinc::BITLENGTH_BYTE * 4),
    );
    assert_eq!(
        Integer::minimal_bitlength(&big("2147483648"), true),
        Ok(zinc::BITLENGTH_BYTE * 5),
    );
    assert_eq!(
        Integer::minimal_bitlength(&big("9223372036854775807"), true),
        Ok(zinc::BITLENGTH_BYTE * 8),
    );
    assert_eq!(
        Integer::minimal_bitlength(&big("9223372036854775808"), true),
        Ok(zinc::BITLENGTH_BYTE * 9),
    );
}

#[test]
fn minimal_bitlength_too_large() {
    let value = big(
        "115792089237316195423570985008687907853269984665640564039457584007913129639935",
    );
    let expected = Err(Error::IntegerTooLarge {
        value: big(
            "115792089237316195423570985008687907853269984665640564039457584007913129639935",
        ),
        bitlength: zinc::BITLENGTH_FIELD,
    });
    assert_eq!(Integer::minimal_bitlength(&value, false), expected);
    assert_eq!(Integer::minimal_bitlength(&value, true), expected);
}

#[test]
fn minimal_bitlength_of_the_field() {
    // 2^248 needs 249 bits: beyond the largest integer, within the field.
    let two_to_248 = BigInteger::new(false, {
        let mut bytes = vec![0u8; 32];
        bytes[0] = 1;
        bytes
    });
    assert_eq!(Integer::minimal_bitlength(&two_to_248, false), Ok(254));
    assert_eq!(Integer::minimal_bitlength(&two_to_248, true), Ok(254));
    // 2^248 - 1 is the largest unsigned integer.
    let largest = BigInteger::new(false, vec![255u8; 31]);
    assert_eq!(Integer::minimal_bitlength(&largest, false), Ok(248));
    assert_eq!(Integer::minimal_bitlength(&largest, true), Ok(254));
    // 2^254 - 1 fits the field as unsigned, and 2^254 does not.
    let mut bytes = vec![255u8; 32];
    bytes[0] = 63;
    assert_eq!(Integer::minimal_bitlength(&BigInteger::new(false, bytes.clone()), false), Ok(254));
    bytes[0] = 64;
    assert!(Integer::minimal_bitlength(&BigInteger::new(false, bytes), false).is_err());
    // -2^253 is the least signed value of the field.
    let mut bytes = vec![0u8; 32];
    bytes[0] = 32;
    assert_eq!(Integer::minimal_bitlength(&BigInteger::new(true, bytes.clone()), true), Ok(254));
    assert!(Integer::minimal_bitlength(&BigInteger::new(false, bytes.clone()), true).is_err());
    bytes[31] = 1;
    assert!(Integer::minimal_bitlength(&BigInteger::new(true, bytes), true).is_err());
}

#[test]
fn minimal_bitlength_ignores_leading_zeros() {
    assert_eq!(Integer::minimal_bitlength(&BigInteger::new(false, vec![0, 0, 1, 0]), false), Ok(16));
    assert_eq!(Integer::minimal_bitlength(&BigInteger::new(true, vec![0, 0]), true), Ok(8));
    assert_eq!(Integer::minimal_bitlength(&BigInteger::new(false, vec![]), true), Ok(8));
}

#[test]
fn minimal_bitlength_signed_boundaries() {
    assert_eq!(Integer::minimal_bitlength(&big("-129"), true), Ok(16));
    assert_eq!(Integer::minimal_bitlength(&big("-32768"), true), Ok(16));
    assert_eq!(Integer::minimal_bitlength(&big("-32769"), true), Ok(24));
    assert_eq!(Integer::minimal_bitlength(&big("-1"), true), Ok(8));
    // A negative value, taken as unsigned, counts as fitting a byte.
    assert_eq!(Integer::minimal_bitlength(&big("-1000"), false), Ok(8));
}

#[test]
fn big_integer_to_decimal() {
    assert_eq!(big("0").to_decimal(), "0");
    assert_eq!(big("-1125").to_decimal(), "-1125");
    assert_eq!(BigInteger::new(true, vec![0]).to_decimal(), "0");
    assert_eq!(BigInteger::new(false, vec![1, 0]).to_decimal(), "256");
    assert_eq!(
        big("18446744073709551616").to_decimal(),
        "18446744073709551616"
    );
}

fn literal(text: &str) -> Integer {
    Integer::literal(big(text)).unwrap()
}

fn typed(text: &str, is_signed: bool, bitlength: usize) -> Integer {
    Integer::new(big(text), is_signed, bitlength)
}

fn describe(integer: &Integer) -> (String, bool, usize, bool) {
    (integer.value.to_decimal(), integer.is_signed, integer.bitlength, integer.is_literal)
}

#[test]
fn literals_enter_with_the_least_type() {
    assert_eq!(describe(&literal("0")), ("0".to_owned(), false, 8, true));
    assert_eq!(describe(&literal("255")), ("255".to_owned(), false, 8, true));
    assert_eq!(describe(&literal("256")), ("256".to_owned(), false, 16, true));
    assert_eq!(describe(&literal("-1")), ("-1".to_owned(), true, 8, true));
    assert_eq!(describe(&literal("-128")), ("-128".to_owned(), true, 8, true));
    assert_eq!(describe(&literal("-129")), ("-129".to_owned(), true, 16, true));
    assert_eq!(
        Integer::literal(big(
            "115792089237316195423570985008687907853269984665640564039457584007913129639935"
        )),
        Err(Error::IntegerTooLarge {
            value: big(
                "115792089237316195423570985008687907853269984665640564039457584007913129639935"
            ),
            bitlength: zinc::BITLENGTH_FIELD,
        })
    );
}

#[test]
fn division_by_zero_is_an_error() {
    assert_eq!(literal("42").divide(&literal("0")), Err(Error::ZeroDivision));
    assert_eq!(literal("42").remainder(&literal("0")), Err(Error::ZeroRemainder));
    assert_eq!(typed("42", false, 8).divide(&typed("0", false, 16)), Err(Error::ZeroDivision));
    assert_eq!(typed("42", true, 8).remainder(&typed("0", true, 8)), Err(Error::ZeroRemainder));
}

#[test]
fn least_signed_value_by_minus_one_overflows() {
    let expected = Err(Error::OverflowDivision { value: big("128"), kind: "i8".to_owned() });
    assert_eq!(literal("-128").divide(&literal("-1")), expected);
    assert_eq!(typed("-128", true, 8).divide(&typed("-1", true, 8)), expected);
    assert_eq!(typed("-128", true, 8).divide(&literal("-1")), expected);
    assert_eq!(
        typed("-32768", true, 16).divide(&literal("-1")),
        Err(Error::OverflowDivision { value: big("32768"), kind: "i16".to_owned() })
    );
    assert_eq!(
        describe(&typed("-127", true, 8).divide(&typed("-1", true, 8)).unwrap()),
        ("127".to_owned(), true, 8, false)
    );
    assert_eq!(
        describe(&literal("-128").divide(&literal("1")).unwrap()),
        ("-128".to_owned(), true, 8, true)
    );
}

#[test]
fn results_must_fit_a_closed_type() {
    assert_eq!(
        typed("42", true, 8).add(&typed("100", true, 8)),
        Err(Error::OverflowAddition { value: big("142"), kind: "i8".to_owned() })
    );
    assert_eq!(
        typed("200", false, 8).add(&typed("100", false, 8)),
        Err(Error::OverflowAddition { value: big("300"), kind: "u8".to_owned() })
    );
    assert_eq!(
        literal("-42").subtract(&typed("100", true, 8)),
        Err(Error::OverflowSubtraction { value: big("-142"), kind: "i8".to_owned() })
    );
    assert_eq!(
        typed("50", true, 8).subtract(&literal("-100")),
        Err(Error::OverflowSubtraction { value: big("150"), kind: "i8".to_owned() })
    );
    assert_eq!(
        typed("42", false, 8).subtract(&literal("255")),
        Err(Error::OverflowSubtraction { value: big("-213"), kind: "u8".to_owned() })
    );
    assert_eq!(
        literal("-100").multiply(&typed("2", true, 8)),
        Err(Error::OverflowMultiplication { value: big("-200"), kind: "i8".to_owned() })
    );
    assert_eq!(
        typed("100", true, 8).multiply(&typed("2", true, 8)),
        Err(Error::OverflowMultiplication { value: big("200"), kind: "i8".to_owned() })
    );
    assert_eq!(
        typed("-5", true, 8).remainder(&typed("3", true, 8)).map(|r| describe(&r)),
        Ok(("-2".to_owned(), true, 8, false))
    );
    assert_eq!(
        literal("-5").remainder(&typed("3", false, 8)),
        Err(Error::OverflowRemainder { value: big("-2"), kind: "u8".to_owned() })
    );
    assert_eq!(
        describe(&typed("200", false, 8).add(&literal("55")).unwrap()),
        ("255".to_owned(), false, 8, false)
    );
    assert_eq!(
        describe(&typed("5", false, 254).multiply(&typed("7", false, 254)).unwrap()),
        ("35".to_owned(), false, 254, false)
    );
}

#[test]
fn open_types_widen() {
    assert_eq!(
        describe(&literal("42").add(&literal("255")).unwrap()),
        ("297".to_owned(), false, 16, true)
    );
    assert_eq!(
        describe(&literal("42").subtract(&literal("255")).unwrap()),
        ("-213".to_owned(), true, 16, true)
    );
    assert_eq!(
        describe(&literal("42").multiply(&literal("10")).unwrap()),
        ("420".to_owned(), false, 16, true)
    );
    assert_eq!(
        describe(&literal("-120").add(&literal("-50")).unwrap()),
        ("-170".to_owned(), true, 16, true)
    );
    assert_eq!(
        describe(&literal("-7").divide(&literal("2")).unwrap()),
        ("-3".to_owned(), true, 8, true)
    );
    assert_eq!(
        describe(&literal("-7").remainder(&literal("2")).unwrap()),
        ("-1".to_owned(), true, 8, true)
    );
    assert_eq!(
        describe(&literal("7").divide(&literal("-2")).unwrap()),
        ("-3".to_owned(), true, 8, true)
    );
    assert_eq!(
        describe(&literal("7").remainder(&literal("-2")).unwrap()),
        ("1".to_owned(), true, 8, true)
    );
}

#[test]
fn closed_types_must_be_the_same() {
    assert_eq!(
        typed("42", false, 64).add(&typed("69", false, 128)),
        Err(Error::TypesMismatchAddition("u64".to_owned(), "u128".to_owned()))
    );
    assert_eq!(
        typed("42", false, 64).subtract(&typed("69", false, 128)),
        Err(Error::TypesMismatchSubtraction("u64".to_owned(), "u128".to_owned()))
    );
    assert_eq!(
        typed("42", false, 64).multiply(&typed("69", false, 128)),
        Err(Error::TypesMismatchMultiplication("u64".to_owned(), "u128".to_owned()))
    );
    assert_eq!(
        typed("42", false, 64).divide(&typed("69", false, 128)),
        Err(Error::TypesMismatchDivision("u64".to_owned(), "u128".to_owned()))
    );
    assert_eq!(
        typed("42", false, 64).remainder(&typed("69", false, 128)),
        Err(Error::TypesMismatchRemainder("u64".to_owned(), "u128".to_owned()))
    );
    assert_eq!(
        typed("42", true, 8).add(&typed("1", false, 8)),
        Err(Error::TypesMismatchAddition("i8".to_owned(), "u8".to_owned()))
    );
    assert_eq!(
        typed("42", false, 8).add(&typed("1", false, 254)),
        Err(Error::TypesMismatchAddition("u8".to_owned(), "field".to_owned()))
    );
}

#[test]
fn negation() {
    assert_eq!(
        typed("-128", true, 8).negate(),
        Err(Error::OverflowNegation { value: big("128"), kind: "i8".to_owned() })
    );
    assert_eq!(
        typed("200", false, 8).negate(),
        Err(Error::OverflowNegation { value: big("-200"), kind: "u8".to_owned() })
    );
    assert_eq!(describe(&typed("0", false, 8).negate().unwrap()), ("0".to_owned(), false, 8, false));
    assert_eq!(describe(&literal("200").negate().unwrap()), ("-200".to_owned(), true, 16, true));
    assert_eq!(describe(&literal("-128").negate().unwrap()), ("128".to_owned(), true, 16, true));
    assert_eq!(describe(&typed("5", true, 8).negate().unwrap()), ("-5".to_owned(), true, 8, false));
}

#[test]
fn casting() {
    assert_eq!(
        literal("200").cast(true, 8),
        Err(Error::OverflowCasting { value: big("200"), kind: "i8".to_owned() })
    );
    assert_eq!(
        literal("-100").cast(false, 8),
        Err(Error::OverflowCasting { value: big("-100"), kind: "u8".to_owned() })
    );
    assert_eq!(describe(&literal("100").cast(true, 8).unwrap()), ("100".to_owned(), true, 8, false));
    assert_eq!(
        describe(&typed("100", false, 8).cast(false, 64).unwrap()),
        ("100".to_owned(), false, 64, false)
    );
    assert_eq!(
        describe(&typed("100", false, 8).cast(false, 254).unwrap()),
        ("100".to_owned(), false, 254, false)
    );
    assert_eq!(
        typed("100", false, 254).cast(false, 8),
        Err(Error::CastingFromField { kind: "u8".to_owned() })
    );
    assert_eq!(
        describe(&typed("100", false, 254).cast(false, 254).unwrap()),
        ("100".to_owned(), false, 254, false)
    );
}

#[test]
fn ranges_of_the_types() {
    assert!(Integer::is_in_range(&big("255"), false, 8));
    assert!(!Integer::is_in_range(&big("256"), false, 8));
    assert!(!Integer::is_in_range(&big("-1"), false, 8));
    assert!(Integer::is_in_range(&big("-128"), true, 8));
    assert!(!Integer::is_in_range(&big("128"), true, 8));
    assert!(Integer::is_in_range(&big("128"), true, 16));
    assert!(Integer::is_in_range(&big("0"), true, 254));
}

#[test]
fn big_integer_arithmetic() {
    assert_eq!(big("-5").add(&big("3")).to_decimal(), "-2");
    assert_eq!(big("18446744073709551615").add(&big("1")).to_decimal(), "18446744073709551616");
    assert_eq!(big("3").sub(&big("5")).to_decimal(), "-2");
    assert_eq!(big("-4").mul(&big("-6")).to_decimal(), "24");
    let (quotient, remainder) = big("-17").div_rem(&big("5"));
    assert_eq!((quotient.to_decimal(), remainder.to_decimal()), ("-3".to_owned(), "-2".to_owned()));
    let (quotient, remainder) = big("17").div_rem(&big("-5"));
    assert_eq!((quotient.to_decimal(), remainder.to_decimal()), ("-3".to_owned(), "2".to_owned()));
    assert_eq!(big("7").negate().to_decimal(), "-7");
    assert_eq!(big("0").negate().to_decimal(), "0");
    assert!(big("0").is_zero() && BigInteger::new(true, vec![0, 0]).is_zero() && !big("1").is_zero());
    assert!(big("-1").is_negative() && !big("0").is_negative());
    assert!(big("-1").is_minus_one() && BigInteger::new(true, vec![0, 1]).is_minus_one());
    assert!(!big("1").is_minus_one() && !big("-257").is_minus_one() && !big("-2").is_minus_one());
}

#[test]
fn comparisons_of_constants() {
    let cases = [("5", "7"), ("7", "5"), ("7", "7"), ("-3", "2"), ("-3", "-4")];
    for (l, r) in cases.iter() {
        let (a, b): (i64, i64) = (l.parse().unwrap(), r.parse().unwrap());
        let (left, right) = (literal(l), literal(r));
        assert_eq!(left.compare(Comparison::Equals, &right), Ok(a == b));
        assert_eq!(left.compare(Comparison::NotEquals, &right), Ok(a != b));
        assert_eq!(left.compare(Comparison::GreaterEquals, &right), Ok(a >= b));
        assert_eq!(left.compare(Comparison::LesserEquals, &right), Ok(a <= b));
        assert_eq!(left.compare(Comparison::Greater, &right), Ok(a > b));
        assert_eq!(left.compare(Comparison::Lesser, &right), Ok(a < b));
    }
    let (left, right) = (typed("42", false, 64), typed("69", false, 128));
    let types = ("u64".to_owned(), "u128".to_owned());
    assert_eq!(
        left.compare(Comparison::GreaterEquals, &right),
        Err(Error::TypesMismatchGreaterEquals(types.0.clone(), types.1.clone()))
    );
    assert_eq!(
        left.compare(Comparison::LesserEquals, &right),
        Err(Error::TypesMismatchLesserEquals(types.0.clone(), types.1.clone()))
    );
    assert_eq!(
        left.compare(Comparison::Greater, &right),
        Err(Error::TypesMismatchGreater(types.0.clone(), types.1.clone()))
    );
    assert_eq!(
        left.compare(Comparison::Lesser, &right),
        Err(Error::TypesMismatchLesser(types.0.clone(), types.1.clone()))
    );
    assert_eq!(
        left.compare(Comparison::Equals, &right),
        Err(Error::TypesMismatchEquals(types.0.clone(), types.1.clone()))
    );
    assert_eq!(
        left.compare(Comparison::NotEquals, &right),
        Err(Error::TypesMismatchNotEquals(types.0, types.1))
    );
    assert_eq!(typed("42", false, 64).compare(Comparison::Lesser, &literal("69")), Ok(true));
}
