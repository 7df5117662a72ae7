//! The integer constants of the analyzer.

use vstd::arithmetic::power2::lemma2_to64;
use vstd::arithmetic::power2::lemma_pow2_adds;
use vstd::arithmetic::power2::lemma_pow2_pos;
use vstd::arithmetic::power2::lemma_pow2_strictly_increases;
use vstd::arithmetic::power2::pow2;
use vstd::prelude::*;

use crate::bytecode::instruction::copy_range;
use crate::number::be_value;
use crate::number::lemma_be_value_leading;
use crate::number::lemma_be_value_zero;
use crate::number::truncated_quotient;
use crate::number::truncated_remainder;
use crate::number::BigInteger;
use crate::semantic::types::Type;

verus! {

/// An integer constant: its value, the integer type it has, and whether
/// that type is still open. A literal enters with the least type that holds
/// it, and that type stays open until the constant meets a typed one. A
/// bitlength of the field stands for the field type.
#[derive(Debug, PartialEq, Eq)]
pub struct Integer {
    pub value: BigInteger,
    pub is_signed: bool,
    pub bitlength: usize,
    pub is_literal: bool,
}

/// An integer constant with a number for its value.
pub struct IntegerView {
    pub value: int,
    pub is_signed: bool,
    pub bitlength: nat,
    pub is_literal: bool,
}

/// The operations on two integer constants.
#[derive(Debug, Clone, Copy, PartialEq, Eq, Structural)]
pub enum Operation {
    Addition,
    Subtraction,
    Multiplication,
    Division,
    Remainder,
}

/// The comparisons of two integer constants.
#[derive(Debug, Clone, Copy, PartialEq, Eq, Structural)]
pub enum Comparison {
    Equals,
    NotEquals,
    GreaterEquals,
    LesserEquals,
    Greater,
    Lesser,
}

/// What can leave the range of a type.
#[derive(Debug, Clone, Copy, PartialEq, Eq, Structural)]
pub enum Overflowing {
    Operation(Operation),
    Negation,
    Casting,
}

/// The errors of the integer constants.
#[derive(Debug, PartialEq, Eq)]
pub enum Error {
    /// The value fits no integer type and not the field: it needs more bits
    /// than `bitlength`.
    IntegerTooLarge { value: BigInteger, bitlength: usize },
    /// The operands of the addition have two different types.
    TypesMismatchAddition(String, String),
    /// The operands of the subtraction have two different types.
    TypesMismatchSubtraction(String, String),
    /// The operands of the multiplication have two different types.
    TypesMismatchMultiplication(String, String),
    /// The operands of the division have two different types.
    TypesMismatchDivision(String, String),
    /// The operands of the remainder have two different types.
    TypesMismatchRemainder(String, String),
    /// The operands of the comparison have two different types.
    TypesMismatchEquals(String, String),
    /// The operands of the comparison have two different types.
    TypesMismatchNotEquals(String, String),
    /// The operands of the comparison have two different types.
    TypesMismatchGreaterEquals(String, String),
    /// The operands of the comparison have two different types.
    TypesMismatchLesserEquals(String, String),
    /// The operands of the comparison have two different types.
    TypesMismatchGreater(String, String),
    /// The operands of the comparison have two different types.
    TypesMismatchLesser(String, String),
    /// The result of the addition is out of the range of the type.
    OverflowAddition { value: BigInteger, kind: String },
    /// The result of the subtraction is out of the range of the type.
    OverflowSubtraction { value: BigInteger, kind: String },
    /// The result of the multiplication is out of the range of the type.
    OverflowMultiplication { value: BigInteger, kind: String },
    /// The result of the division is out of the range of the type.
    OverflowDivision { value: BigInteger, kind: String },
    /// The result of the remainder is out of the range of the type.
    OverflowRemainder { value: BigInteger, kind: String },
    /// The result of the negation is out of the range of the type.
    OverflowNegation { value: BigInteger, kind: String },
    /// The result of the casting is out of the range of the type.
    OverflowCasting { value: BigInteger, kind: String },
    /// The divisor is zero.
    ZeroDivision,
    /// The divisor of a remainder is zero.
    ZeroRemainder,
    /// A constant of the field is cast to an integer type.
    CastingFromField { kind: String },
}

/// An error with numbers for its values and sequences for its texts.
pub enum ErrorView {
    IntegerTooLarge { value: int, bitlength: nat },
    TypesMismatch { operation: Operation, first: Seq<char>, second: Seq<char> },
    TypesMismatchComparison { comparison: Comparison, first: Seq<char>, second: Seq<char> },
    Overflow { what: Overflowing, value: int, kind: Seq<char> },
    ZeroDivision,
    ZeroRemainder,
    CastingFromField { kind: Seq<char> },
}

impl View for Integer {
    type V = IntegerView;

    open spec fn view(&self) -> IntegerView {
        IntegerView {
            value: self.value.value(),
            is_signed: self.is_signed,
            bitlength: self.bitlength as nat,
            is_literal: self.is_literal,
        }
    }
}

impl View for Error {
    type V = ErrorView;

    open spec fn view(&self) -> ErrorView {
        match self {
            Error::IntegerTooLarge { value, bitlength } => ErrorView::IntegerTooLarge {
                value: value.value(),
                bitlength: *bitlength as nat,
            },
            Error::TypesMismatchAddition(first, second) => ErrorView::TypesMismatch {
                operation: Operation::Addition,
                first: first@,
                second: second@,
            },
            Error::TypesMismatchSubtraction(first, second) => ErrorView::TypesMismatch {
                operation: Operation::Subtraction,
                first: first@,
                second: second@,
            },
            Error::TypesMismatchMultiplication(first, second) => ErrorView::TypesMismatch {
                operation: Operation::Multiplication,
                first: first@,
                second: second@,
            },
            Error::TypesMismatchDivision(first, second) => ErrorView::TypesMismatch {
                operation: Operation::Division,
                first: first@,
                second: second@,
            },
            Error::TypesMismatchRemainder(first, second) => ErrorView::TypesMismatch {
                operation: Operation::Remainder,
                first: first@,
                second: second@,
            },
            Error::TypesMismatchEquals(first, second) => ErrorView::TypesMismatchComparison {
                comparison: Comparison::Equals,
                first: first@,
                second: second@,
            },
            Error::TypesMismatchNotEquals(first, second) => ErrorView::TypesMismatchComparison {
                comparison: Comparison::NotEquals,
                first: first@,
                second: second@,
            },
            Error::TypesMismatchGreaterEquals(first, second) => ErrorView::TypesMismatchComparison {
                comparison: Comparison::GreaterEquals,
                first: first@,
                second: second@,
            },
            Error::TypesMismatchLesserEquals(first, second) => ErrorView::TypesMismatchComparison {
                comparison: Comparison::LesserEquals,
                first: first@,
                second: second@,
            },
            Error::TypesMismatchGreater(first, second) => ErrorView::TypesMismatchComparison {
                comparison: Comparison::Greater,
                first: first@,
                second: second@,
            },
            Error::TypesMismatchLesser(first, second) => ErrorView::TypesMismatchComparison {
                comparison: Comparison::Lesser,
                first: first@,
                second: second@,
            },
            Error::OverflowAddition { value, kind } => ErrorView::Overflow {
                what: Overflowing::Operation(Operation::Addition),
                value: value.value(),
                kind: kind@,
            },
            Error::OverflowSubtraction { value, kind } => ErrorView::Overflow {
                what: Overflowing::Operation(Operation::Subtraction),
                value: value.value(),
                kind: kind@,
            },
            Error::OverflowMultiplication { value, kind } => ErrorView::Overflow {
                what: Overflowing::Operation(Operation::Multiplication),
                value: value.value(),
                kind: kind@,
            },
            Error::OverflowDivision { value, kind } => ErrorView::Overflow {
                what: Overflowing::Operation(Operation::Division),
                value: value.value(),
                kind: kind@,
            },
            Error::OverflowRemainder { value, kind } => ErrorView::Overflow {
                what: Overflowing::Operation(Operation::Remainder),
                value: value.value(),
                kind: kind@,
            },
            Error::OverflowNegation { value, kind } => ErrorView::Overflow {
                what: Overflowing::Negation,
                value: value.value(),
                kind: kind@,
            },
            Error::OverflowCasting { value, kind } => ErrorView::Overflow {
                what: Overflowing::Casting,
                value: value.value(),
                kind: kind@,
            },
            Error::ZeroDivision => ErrorView::ZeroDivision,
            Error::ZeroRemainder => ErrorView::ZeroRemainder,
            Error::CastingFromField { kind } => ErrorView::CastingFromField { kind: kind@ },
        }
    }
}

/// A bitlength that a type can have: a multiple of eight up to the largest
/// integer, or that of the field.
pub open spec fn is_bitlength(bitlength: nat) -> bool {
    ||| bitlength % 8 == 0 && 8 <= bitlength <= crate::BITLENGTH_MAX_INT
    ||| bitlength == crate::BITLENGTH_FIELD
}

/// The value fits the integers of the given bitlength: `0 .. 2^b` for
/// the unsigned ones, where a negative value counts as fitting, and
/// `-2^(b-1) .. 2^(b-1)` for the signed ones.
pub open spec fn fits(value: int, bitlength: nat, is_signed: bool) -> bool
    recommends
        bitlength >= 1,
{
    if is_signed {
        -(pow2((bitlength - 1) as nat) as int) <= value < pow2((bitlength - 1) as nat)
    } else {
        value < pow2(bitlength)
    }
}

/// The bitlength is the least that the value fits, among those that a type
/// can have.
pub open spec fn is_minimal_bitlength(value: int, is_signed: bool, bitlength: nat) -> bool {
    &&& is_bitlength(bitlength)
    &&& fits(value, bitlength, is_signed)
    &&& forall|other: nat|
        is_bitlength(other) && other < bitlength ==> !#[trigger] fits(value, other, is_signed)
}

/// The number of bits of a number: zero for zero, and one more than the
/// bits of its half for any other.
pub open spec fn bit_length(n: nat) -> nat
    decreases n,
{
    if n == 0 {
        0
    } else {
        1 + bit_length(n / 2)
    }
}

/// The least multiple of eight that is not below `bits`.
pub open spec fn round_up_to_bytes(bits: nat) -> nat {
    ((bits + 7) / 8) * 8
}

/// A number lies between the powers of two that its bits name.
pub proof fn lemma_bit_length_bounds(n: nat)
    ensures
        n < pow2(bit_length(n)),
        n > 0 ==> pow2((bit_length(n) - 1) as nat) <= n,
    decreases n,
{
    lemma2_to64();
    if n > 0 {
        lemma_bit_length_bounds(n / 2);
        lemma_pow2_adds(bit_length(n / 2), 1);
        if n / 2 > 0 {
            lemma_pow2_adds((bit_length(n / 2) - 1) as nat, 1);
        }
    }
}

/// Where a number of `count` bytes, the first of them `top` and not zero,
/// stands against a power of two: it is below two to the power of
/// `8 * (k - 1) + s` where it has fewer bytes than `k`, or `k` bytes and a
/// first byte below two to the power of `s`.
pub proof fn lemma_below_power(top: nat, rest: nat, count: nat, k: nat, s: nat)
    requires
        count >= 1,
        1 <= top <= 255,
        rest < pow2((8 * (count - 1)) as nat),
        k >= 1,
        1 <= s <= 8,
    ensures
        ({
            let v = top * pow2((8 * (count - 1)) as nat) + rest;
            let e = (8 * (k - 1) + s) as nat;
            &&& v < pow2(e) <==> (count < k || (count == k && top < pow2(s)))
            &&& s <= 7 ==> (v <= pow2(e) <==> (count < k || (count == k && (top < pow2(s) || (top
                == pow2(s) && rest == 0)))))
        }),
{
    lemma2_to64();
    let unit = pow2((8 * (count - 1)) as nat);
    let e = (8 * (k - 1) + s) as nat;
    let v = top * unit + rest;
    lemma_pow2_pos((8 * (count - 1)) as nat);
    lemma_pow2_adds((8 * (count - 1)) as nat, 8);
    assert(unit <= v && v < unit * 256) by (nonlinear_arith)
        requires
            v == top * unit + rest,
            1 <= top <= 255,
            rest < unit,
    ;
    if count < k {
        if 8 * count < e {
            lemma_pow2_strictly_increases(8 * count, e);
        }
    } else if count == k {
        lemma_pow2_adds((8 * (k - 1)) as nat, s);
        let q = pow2(s);
        assert(pow2(e) == unit * q);
        assert((v < unit * q <==> top < q) && (v <= unit * q <==> (top < q || (top == q && rest
            == 0)))) by (nonlinear_arith)
            requires
                v == top * unit + rest,
                rest < unit,
                unit > 0,
        ;
    } else {
        if e < 8 * (count - 1) {
            lemma_pow2_strictly_increases(e, (8 * (count - 1)) as nat);
        }
    }
}

/// The value lies in the range of the integer type: `0 .. 2^b` for an
/// unsigned type, `-2^(b-1) .. 2^(b-1)` for a signed one.
pub open spec fn in_range(value: int, is_signed: bool, bitlength: nat) -> bool {
    fits(value, bitlength, is_signed) && (is_signed || value >= 0)
}

/// The type of the integers of the given signedness and bitlength: the
/// field for the bitlength of the field.
pub open spec fn integer_kind(is_signed: bool, bitlength: nat) -> Type {
    if bitlength == crate::BITLENGTH_FIELD {
        Type::Field
    } else if is_signed {
        Type::IntegerSigned { bitlength: bitlength as usize }
    } else {
        Type::IntegerUnsigned { bitlength: bitlength as usize }
    }
}

/// The number that an operation gives on two numbers. Division rounds
/// towards zero, and the remainder has the sign of the dividend.
pub open spec fn computed(operation: Operation, left: int, right: int) -> int {
    match operation {
        Operation::Addition => left + right,
        Operation::Subtraction => left - right,
        Operation::Multiplication => left * right,
        Operation::Division => truncated_quotient(left, right),
        Operation::Remainder => truncated_remainder(left, right),
    }
}

/// The least bitlength that the value fits, where it fits the field.
pub open spec fn minimal_bitlength_of(value: int, is_signed: bool) -> nat {
    choose|bitlength: nat| is_minimal_bitlength(value, is_signed, bitlength)
}

/// The constant with an open type that holds the value: signed where asked
/// or where the value is negative, of the least bitlength that the value
/// fits. A value that does not fit the field is too large.
pub open spec fn inferred(value: int, is_signed: bool) -> Result<IntegerView, ErrorView> {
    let is_signed = is_signed || value < 0;
    if fits(value, crate::BITLENGTH_FIELD as nat, is_signed) {
        Ok(
            IntegerView {
                value,
                is_signed,
                bitlength: minimal_bitlength_of(value, is_signed),
                is_literal: true,
            },
        )
    } else {
        Err(ErrorView::IntegerTooLarge { value, bitlength: crate::BITLENGTH_FIELD as nat })
    }
}

/// The constant of the given type that holds the value, where the value is
/// in the range of the type.
pub open spec fn checked(what: Overflowing, value: int, is_signed: bool, bitlength: nat) -> Result<
    IntegerView,
    ErrorView,
> {
    if in_range(value, is_signed, bitlength) {
        Ok(IntegerView { value, is_signed, bitlength, is_literal: false })
    } else {
        Err(
            ErrorView::Overflow {
                what,
                value,
                kind: integer_kind(is_signed, bitlength).text(),
            },
        )
    }
}

/// What an operation on two constants gives.
///
/// A division and a remainder by zero are errors. Two constants with
/// closed types must have the same type. The least value of a signed type,
/// divided by minus one, overflows. Where one of the types is closed, the
/// result has that type, and must be in its range; where both are open, the
/// result has the least type that holds it, and that type is open.
pub open spec fn operated(operation: Operation, left: IntegerView, right: IntegerView) -> Result<
    IntegerView,
    ErrorView,
> {
    let value = computed(operation, left.value, right.value);
    if operation == Operation::Division && right.value == 0 {
        Err(ErrorView::ZeroDivision)
    } else if operation == Operation::Remainder && right.value == 0 {
        Err(ErrorView::ZeroRemainder)
    } else if !left.is_literal && !right.is_literal && (left.is_signed != right.is_signed
        || left.bitlength != right.bitlength) {
        Err(
            ErrorView::TypesMismatch {
                operation,
                first: integer_kind(left.is_signed, left.bitlength).text(),
                second: integer_kind(right.is_signed, right.bitlength).text(),
            },
        )
    } else if operation == Operation::Division && left.is_signed && right.value == -1
        && left.value == -(pow2((left.bitlength - 1) as nat) as int) {
        Err(
            ErrorView::Overflow {
                what: Overflowing::Operation(Operation::Division),
                value,
                kind: integer_kind(true, left.bitlength).text(),
            },
        )
    } else if !left.is_literal {
        checked(Overflowing::Operation(operation), value, left.is_signed, left.bitlength)
    } else if !right.is_literal {
        checked(Overflowing::Operation(operation), value, right.is_signed, right.bitlength)
    } else {
        inferred(value, left.is_signed || right.is_signed)
    }
}

/// The truth of a comparison of two numbers.
pub open spec fn holds(comparison: Comparison, left: int, right: int) -> bool {
    match comparison {
        Comparison::Equals => left == right,
        Comparison::NotEquals => left != right,
        Comparison::GreaterEquals => left >= right,
        Comparison::LesserEquals => left <= right,
        Comparison::Greater => left > right,
        Comparison::Lesser => left < right,
    }
}

/// What a comparison of two constants gives: two constants with closed
/// types must have the same type.
pub open spec fn compared(comparison: Comparison, left: IntegerView, right: IntegerView) -> Result<
    bool,
    ErrorView,
> {
    if !left.is_literal && !right.is_literal && (left.is_signed != right.is_signed
        || left.bitlength != right.bitlength) {
        Err(
            ErrorView::TypesMismatchComparison {
                comparison,
                first: integer_kind(left.is_signed, left.bitlength).text(),
                second: integer_kind(right.is_signed, right.bitlength).text(),
            },
        )
    } else {
        Ok(holds(comparison, left.value, right.value))
    }
}

/// What the negation of a constant gives: a constant of the same type,
/// where that type is closed, and must hold the result; else a constant of
/// the least type that holds the result.
pub open spec fn negated(operand: IntegerView) -> Result<IntegerView, ErrorView> {
    if !operand.is_literal {
        checked(Overflowing::Negation, -operand.value, operand.is_signed, operand.bitlength)
    } else {
        inferred(-operand.value, operand.is_signed)
    }
}

/// What the cast of a constant to an integer type or to the field gives: a
/// constant of that type, which must hold the value. A constant of the
/// field is cast to the field only.
pub open spec fn casted(operand: IntegerView, is_signed: bool, bitlength: nat) -> Result<
    IntegerView,
    ErrorView,
> {
    if operand.bitlength == crate::BITLENGTH_FIELD && bitlength != crate::BITLENGTH_FIELD {
        Err(ErrorView::CastingFromField { kind: integer_kind(is_signed, bitlength).text() })
    } else {
        checked(Overflowing::Casting, operand.value, is_signed, bitlength)
    }
}

/// A value that fits a bitlength fits every greater one.
pub proof fn lemma_fits_greater(value: int, is_signed: bool, lesser: nat, greater: nat)
    requires
        1 <= lesser <= greater,
        fits(value, lesser, is_signed),
    ensures
        fits(value, greater, is_signed),
{
    lemma_pow2_increases(lesser, greater);
    lemma_pow2_increases((lesser - 1) as nat, (greater - 1) as nat);
}

/// There is one least bitlength at most.
pub proof fn lemma_minimal_bitlength_unique(value: int, is_signed: bool, first: nat, second: nat)
    requires
        is_minimal_bitlength(value, is_signed, first),
        is_minimal_bitlength(value, is_signed, second),
    ensures
        first == second,
{
}

/// A power of two with a greater exponent is not lesser.
proof fn lemma_pow2_increases(low: nat, high: nat)
    requires
        low <= high,
    ensures
        pow2(low) <= pow2(high),
{
    if low < high {
        lemma_pow2_strictly_increases(low, high);
    }
}

/// The least bitlength of a value that is not negative, taken as unsigned,
/// is the number of its bits, and one for zero, rounded up to whole bytes:
/// for every value for which that is no more than the largest integer.
pub proof fn lemma_minimal_bitlength_unsigned(value: nat)
    requires
        round_up_to_bytes(
            if bit_length(value) < 1 {
                1
            } else {
                bit_length(value)
            },
        ) <= crate::BITLENGTH_MAX_INT,
    ensures
        is_minimal_bitlength(
            value as int,
            false,
            round_up_to_bytes(
                if bit_length(value) < 1 {
                    1
                } else {
                    bit_length(value)
                },
            ),
        ),
{
    let bits = bit_length(value);
    let bitlength = round_up_to_bytes(
        if bits < 1 {
            1
        } else {
            bits
        },
    );
    lemma_bit_length_bounds(value);
    lemma_pow2_increases(bits, bitlength);
    assert forall|other: nat| is_bitlength(other) && other < bitlength implies !#[trigger] fits(
        value as int,
        other,
        false,
    ) by {
        assert(other <= bits - 1);
        lemma_pow2_increases(other, (bits - 1) as nat);
    }
}

/// The least bitlength of a value, taken as signed, is the number of bits
/// of its magnitude and one more, rounded up to whole bytes: for every value
/// for which that is no more than the largest integer, but for the least
/// value of each signed type, whose magnitude alone fills the bytes.
pub proof fn lemma_minimal_bitlength_signed(value: int)
    requires
        round_up_to_bytes(bit_length(vstd::math::abs(value) as nat) + 1)
            <= crate::BITLENGTH_MAX_INT,
        !(value < 0 && bit_length((-value) as nat) % 8 == 0 && -value == pow2(
            (bit_length((-value) as nat) - 1) as nat,
        )),
    ensures
        is_minimal_bitlength(
            value,
            true,
            round_up_to_bytes(bit_length(vstd::math::abs(value) as nat) + 1),
        ),
{
    let magnitude = vstd::math::abs(value) as nat;
    let bits = bit_length(magnitude);
    let bitlength = round_up_to_bytes(bits + 1);
    lemma_bit_length_bounds(magnitude);
    lemma_pow2_increases(bits, (bitlength - 1) as nat);
    lemma_pow2_pos((bitlength - 1) as nat);
    assert forall|other: nat| is_bitlength(other) && other < bitlength implies !#[trigger] fits(
        value,
        other,
        true,
    ) by {
        assert(other <= bits);
        assert(magnitude > 0);
        lemma_pow2_increases((other - 1) as nat, (bits - 1) as nat);
        if other < bits {
            lemma_pow2_strictly_increases((other - 1) as nat, (bits - 1) as nat);
        }
    }
}

impl Integer {
    /// The bitlength is one that a type can have.
    pub open spec fn wf(self) -> bool {
        is_bitlength(self.bitlength as nat)
    }

    /// Whether a type can have the bitlength.
    pub fn is_valid_bitlength(bitlength: usize) -> (valid: bool)
        ensures
            valid == is_bitlength(bitlength as nat),
    {
        (bitlength % crate::BITLENGTH_BYTE == 0 && crate::BITLENGTH_BYTE <= bitlength && bitlength
            <= crate::BITLENGTH_MAX_INT) || bitlength == crate::BITLENGTH_FIELD
    }

    /// The type of the constant.
    pub open spec fn kind(self) -> Type {
        integer_kind(self.is_signed, self.bitlength as nat)
    }

    /// The constant of the given type, which is closed.
    pub fn new(value: BigInteger, is_signed: bool, bitlength: usize) -> (integer: Self)
        ensures
            integer.value == value,
            integer.is_signed == is_signed,
            integer.bitlength == bitlength,
            !integer.is_literal,
    {
        Integer { value, is_signed, bitlength, is_literal: false }
    }

    /// The constant of a literal: its type is the least that holds the
    /// value, unsigned where the value is not negative, and open.
    pub fn literal(value: BigInteger) -> (result: Result<Self, Error>)
        ensures
            match result {
                Ok(integer) => integer.wf() && Ok::<IntegerView, ErrorView>(integer@) == inferred(
                    value.value(),
                    false,
                ),
                Err(error) => Err::<IntegerView, ErrorView>(error@) == inferred(value.value(), false),
            },
    {
        Self::infer(value, false)
    }

    /// The type of the constant.
    pub fn to_kind(&self) -> (kind: Type)
        ensures
            kind == self.kind(),
    {
        Self::type_of(self.is_signed, self.bitlength)
    }

    /// The type of the integers of the given signedness and bitlength.
    fn type_of(is_signed: bool, bitlength: usize) -> (kind: Type)
        ensures
            kind == integer_kind(is_signed, bitlength as nat),
    {
        if bitlength == crate::BITLENGTH_FIELD {
            Type::Field
        } else if is_signed {
            Type::IntegerSigned { bitlength }
        } else {
            Type::IntegerUnsigned { bitlength }
        }
    }

    /// Whether the value lies in the range of the integer type.
    pub fn is_in_range(value: &BigInteger, is_signed: bool, bitlength: usize) -> (result: bool)
        requires
            is_bitlength(bitlength as nat),
        ensures
            result == in_range(value.value(), is_signed, bitlength as nat),
    {
        if !is_signed && value.is_negative() {
            return false;
        }
        match Self::minimal_bitlength(value, is_signed) {
            Ok(minimal) => {
                proof {
                    if minimal <= bitlength {
                        lemma_fits_greater(
                            value.value(),
                            is_signed,
                            minimal as nat,
                            bitlength as nat,
                        );
                    }
                }
                minimal <= bitlength
            },
            Err(_) => {
                proof {
                    if fits(value.value(), bitlength as nat, is_signed) {
                        lemma_fits_greater(
                            value.value(),
                            is_signed,
                            bitlength as nat,
                            crate::BITLENGTH_FIELD as nat,
                        );
                    }
                }
                false
            },
        }
    }

    /// The constant with an open type that holds the value.
    fn infer(value: BigInteger, is_signed: bool) -> (result: Result<Self, Error>)
        ensures
            match result {
                Ok(integer) => integer.wf() && Ok::<IntegerView, ErrorView>(integer@) == inferred(
                    value.value(),
                    is_signed,
                ),
                Err(error) => Err::<IntegerView, ErrorView>(error@) == inferred(
                    value.value(),
                    is_signed,
                ),
            },
    {
        let is_signed = is_signed || value.is_negative();
        match Self::minimal_bitlength(&value, is_signed) {
            Ok(bitlength) => {
                proof {
                    lemma_fits_greater(
                        value.value(),
                        is_signed,
                        bitlength as nat,
                        crate::BITLENGTH_FIELD as nat,
                    );
                    lemma_minimal_bitlength_unique(
                        value.value(),
                        is_signed,
                        bitlength as nat,
                        minimal_bitlength_of(value.value(), is_signed),
                    );
                }
                Ok(Integer { value, is_signed, bitlength, is_literal: true })
            },
            Err(error) => Err(error),
        }
    }

    /// The constant of the given closed type that holds the value, where
    /// the value is in the range of the type.
    fn check(what: Overflowing, value: BigInteger, is_signed: bool, bitlength: usize) -> (result:
        Result<Self, Error>)
        requires
            is_bitlength(bitlength as nat),
        ensures
            match result {
                Ok(integer) => integer.wf() && Ok::<IntegerView, ErrorView>(integer@) == checked(
                    what,
                    value.value(),
                    is_signed,
                    bitlength as nat,
                ),
                Err(error) => Err::<IntegerView, ErrorView>(error@) == checked(
                    what,
                    value.value(),
                    is_signed,
                    bitlength as nat,
                ),
            },
    {
        if Self::is_in_range(&value, is_signed, bitlength) {
            Ok(Integer { value, is_signed, bitlength, is_literal: false })
        } else {
            let kind = Self::type_of(is_signed, bitlength).to_text();
            Err(Self::overflow(what, value, kind))
        }
    }

    /// The error of a result out of range.
    fn overflow(what: Overflowing, value: BigInteger, kind: String) -> (error: Error)
        ensures
            error@ == (ErrorView::Overflow { what, value: value.value(), kind: kind@ }),
    {
        match what {
            Overflowing::Operation(Operation::Addition) => Error::OverflowAddition { value, kind },
            Overflowing::Operation(Operation::Subtraction) => Error::OverflowSubtraction { value, kind },
            Overflowing::Operation(Operation::Multiplication) => Error::OverflowMultiplication { value, kind },
            Overflowing::Operation(Operation::Division) => Error::OverflowDivision { value, kind },
            Overflowing::Operation(Operation::Remainder) => Error::OverflowRemainder { value, kind },
            Overflowing::Negation => Error::OverflowNegation { value, kind },
            Overflowing::Casting => Error::OverflowCasting { value, kind },
        }
    }

    /// The error of two different types.
    fn mismatch(operation: Operation, first: String, second: String) -> (error: Error)
        ensures
            error@ == (ErrorView::TypesMismatch { operation, first: first@, second: second@ }),
    {
        match operation {
            Operation::Addition => Error::TypesMismatchAddition(first, second),
            Operation::Subtraction => Error::TypesMismatchSubtraction(first, second),
            Operation::Multiplication => Error::TypesMismatchMultiplication(first, second),
            Operation::Division => Error::TypesMismatchDivision(first, second),
            Operation::Remainder => Error::TypesMismatchRemainder(first, second),
        }
    }

    /// Computes an operation on two constants.
    pub fn operate(&self, operation: Operation, other: &Integer) -> (result: Result<Integer, Error>)
        requires
            self.wf(),
            other.wf(),
        ensures
            match result {
                Ok(integer) => integer.wf() && Ok::<IntegerView, ErrorView>(integer@) == operated(
                    operation,
                    self@,
                    other@,
                ),
                Err(error) => Err::<IntegerView, ErrorView>(error@) == operated(
                    operation,
                    self@,
                    other@,
                ),
            },
    {
        let value = match operation {
            Operation::Addition => self.value.add(&other.value),
            Operation::Subtraction => self.value.sub(&other.value),
            Operation::Multiplication => self.value.mul(&other.value),
            Operation::Division => {
                if other.value.is_zero() {
                    return Err(Error::ZeroDivision);
                }
                self.value.div_rem(&other.value).0
            },
            Operation::Remainder => {
                if other.value.is_zero() {
                    return Err(Error::ZeroRemainder);
                }
                self.value.div_rem(&other.value).1
            },
        };
        if !self.is_literal && !other.is_literal && (self.is_signed != other.is_signed
            || self.bitlength != other.bitlength) {
            return Err(
                Self::mismatch(operation, self.to_kind().to_text(), other.to_kind().to_text()),
            );
        }
        let least_by_minus_one = match operation {
            Operation::Division => self.is_signed && other.value.is_minus_one()
                && Self::is_in_range(&self.value, true, self.bitlength) && !Self::is_in_range(
                &value,
                true,
                self.bitlength,
            ),
            _ => false,
        };
        proof {
            lemma_pow2_pos((self.bitlength - 1) as nat);
            if operation == Operation::Division && other.value.value() == -1 {
                assert(vstd::math::abs(self.value.value()) / 1 == vstd::math::abs(
                    self.value.value(),
                ));
                assert(value.value() == -self.value.value());
            }
        }
        if least_by_minus_one {
            let kind = Self::type_of(true, self.bitlength).to_text();
            return Err(
                Self::overflow(Overflowing::Operation(Operation::Division), value, kind),
            );
        }
        if !self.is_literal {
            Self::check(Overflowing::Operation(operation), value, self.is_signed, self.bitlength)
        } else if !other.is_literal {
            Self::check(Overflowing::Operation(operation), value, other.is_signed, other.bitlength)
        } else {
            Self::infer(value, self.is_signed || other.is_signed)
        }
    }

    /// The sum of two constants.
    pub fn add(&self, other: &Integer) -> (result: Result<Integer, Error>)
        requires
            self.wf(),
            other.wf(),
        ensures
            match result {
                Ok(integer) => integer.wf() && Ok::<IntegerView, ErrorView>(integer@) == operated(
                    Operation::Addition,
                    self@,
                    other@,
                ),
                Err(error) => Err::<IntegerView, ErrorView>(error@) == operated(
                    Operation::Addition,
                    self@,
                    other@,
                ),
            },
    {
        self.operate(Operation::Addition, other)
    }

    /// The difference of two constants.
    pub fn subtract(&self, other: &Integer) -> (result: Result<Integer, Error>)
        requires
            self.wf(),
            other.wf(),
        ensures
            match result {
                Ok(integer) => integer.wf() && Ok::<IntegerView, ErrorView>(integer@) == operated(
                    Operation::Subtraction,
                    self@,
                    other@,
                ),
                Err(error) => Err::<IntegerView, ErrorView>(error@) == operated(
                    Operation::Subtraction,
                    self@,
                    other@,
                ),
            },
    {
        self.operate(Operation::Subtraction, other)
    }

    /// The product of two constants.
    pub fn multiply(&self, other: &Integer) -> (result: Result<Integer, Error>)
        requires
            self.wf(),
            other.wf(),
        ensures
            match result {
                Ok(integer) => integer.wf() && Ok::<IntegerView, ErrorView>(integer@) == operated(
                    Operation::Multiplication,
                    self@,
                    other@,
                ),
                Err(error) => Err::<IntegerView, ErrorView>(error@) == operated(
                    Operation::Multiplication,
                    self@,
                    other@,
                ),
            },
    {
        self.operate(Operation::Multiplication, other)
    }

    /// The quotient of two constants, rounded towards zero.
    pub fn divide(&self, other: &Integer) -> (result: Result<Integer, Error>)
        requires
            self.wf(),
            other.wf(),
        ensures
            match result {
                Ok(integer) => integer.wf() && Ok::<IntegerView, ErrorView>(integer@) == operated(
                    Operation::Division,
                    self@,
                    other@,
                ),
                Err(error) => Err::<IntegerView, ErrorView>(error@) == operated(
                    Operation::Division,
                    self@,
                    other@,
                ),
            },
    {
        self.operate(Operation::Division, other)
    }

    /// The remainder of two constants, with the sign of the dividend.
    pub fn remainder(&self, other: &Integer) -> (result: Result<Integer, Error>)
        requires
            self.wf(),
            other.wf(),
        ensures
            match result {
                Ok(integer) => integer.wf() && Ok::<IntegerView, ErrorView>(integer@) == operated(
                    Operation::Remainder,
                    self@,
                    other@,
                ),
                Err(error) => Err::<IntegerView, ErrorView>(error@) == operated(
                    Operation::Remainder,
                    self@,
                    other@,
                ),
            },
    {
        self.operate(Operation::Remainder, other)
    }

    /// Compares two constants.
    pub fn compare(&self, comparison: Comparison, other: &Integer) -> (result: Result<bool, Error>)
        ensures
            match result {
                Ok(truth) => Ok::<bool, ErrorView>(truth) == compared(comparison, self@, other@),
                Err(error) => Err::<bool, ErrorView>(error@) == compared(comparison, self@, other@),
            },
    {
        if !self.is_literal && !other.is_literal && (self.is_signed != other.is_signed
            || self.bitlength != other.bitlength) {
            let first = self.to_kind().to_text();
            let second = other.to_kind().to_text();
            return Err(
                match comparison {
                    Comparison::Equals => Error::TypesMismatchEquals(first, second),
                    Comparison::NotEquals => Error::TypesMismatchNotEquals(first, second),
                    Comparison::GreaterEquals => Error::TypesMismatchGreaterEquals(first, second),
                    Comparison::LesserEquals => Error::TypesMismatchLesserEquals(first, second),
                    Comparison::Greater => Error::TypesMismatchGreater(first, second),
                    Comparison::Lesser => Error::TypesMismatchLesser(first, second),
                },
            );
        }
        let difference = self.value.sub(&other.value);
        let lesser = difference.is_negative();
        let equal = difference.is_zero();
        Ok(
            match comparison {
                Comparison::Equals => equal,
                Comparison::NotEquals => !equal,
                Comparison::GreaterEquals => !lesser,
                Comparison::LesserEquals => lesser || equal,
                Comparison::Greater => !lesser && !equal,
                Comparison::Lesser => lesser,
            },
        )
    }

    /// The negation of the constant.
    pub fn negate(&self) -> (result: Result<Integer, Error>)
        requires
            self.wf(),
        ensures
            match result {
                Ok(integer) => integer.wf() && Ok::<IntegerView, ErrorView>(integer@) == negated(
                    self@,
                ),
                Err(error) => Err::<IntegerView, ErrorView>(error@) == negated(self@),
            },
    {
        let value = self.value.negate();
        if !self.is_literal {
            Self::check(Overflowing::Negation, value, self.is_signed, self.bitlength)
        } else {
            Self::infer(value, self.is_signed)
        }
    }

    /// The constant cast to the integer type of the given signedness and
    /// bitlength, or to the field.
    pub fn cast(&self, is_signed: bool, bitlength: usize) -> (result: Result<Integer, Error>)
        requires
            is_bitlength(bitlength as nat),
        ensures
            match result {
                Ok(integer) => integer.wf() && Ok::<IntegerView, ErrorView>(integer@) == casted(
                    self@,
                    is_signed,
                    bitlength as nat,
                ),
                Err(error) => Err::<IntegerView, ErrorView>(error@) == casted(
                    self@,
                    is_signed,
                    bitlength as nat,
                ),
            },
    {
        if self.bitlength == crate::BITLENGTH_FIELD && bitlength != crate::BITLENGTH_FIELD {
            return Err(
                Error::CastingFromField { kind: Self::type_of(is_signed, bitlength).to_text() },
            );
        }
        let value = self.value.negate().negate();
        Self::check(Overflowing::Casting, value, is_signed, bitlength)
    }

    /// The least bitlength that the value fits: the least multiple of eight
    /// up to the largest integer, or else the bitlength of the field. A value
    /// that does not fit the field is too large.
    pub fn minimal_bitlength(value: &BigInteger, is_signed: bool) -> (result: Result<usize, Error>)
        ensures
            match result {
                Ok(bitlength) => is_minimal_bitlength(value.value(), is_signed, bitlength as nat),
                Err(Error::IntegerTooLarge { value: found, bitlength }) => {
                    &&& !fits(value.value(), crate::BITLENGTH_FIELD as nat, is_signed)
                    &&& bitlength == crate::BITLENGTH_FIELD
                    &&& found.negative == value.negative
                    &&& found.magnitude@ == value.magnitude@
                },
                Err(_) => false,
            },
    {
        let length = value.magnitude.len();
        let start = value.first_significant();
        proof {
            lemma2_to64();
        }
        if start == length {
            proof {
                lemma_be_value_zero(value.magnitude@);
                lemma_pow2_pos(7);
                lemma_pow2_pos(8);
            }
            return Ok(crate::BITLENGTH_BYTE);
        }
        let count = length - start;
        let top = value.magnitude[start];
        let rest_zero = value.is_zero_from(start + 1);
        let negative = value.negative;
        let ghost rest = be_value(value.magnitude@.subrange(start + 1, length as int));
        let ghost magnitude = be_value(value.magnitude@);
        proof {
            lemma_be_value_leading(value.magnitude@, start as int);
            lemma_pow2_pos((8 * (count - 1)) as nat);
            assert(magnitude >= 1) by (nonlinear_arith)
                requires
                    magnitude == top as nat * pow2((8 * (count - 1)) as nat) + rest,
                    top >= 1,
                    pow2((8 * (count - 1)) as nat) > 0,
            ;
        }
        if !is_signed && negative {
            proof {
                lemma_pow2_pos(8);
            }
            return Ok(crate::BITLENGTH_BYTE);
        }
        // The least number of bytes that hold the value, and whether the field holds it.
        let fits_bytes = if !is_signed {
            true
        } else if !negative {
            top < 128
        } else {
            top < 128 || (top == 128 && rest_zero)
        };
        let fits_field = if !is_signed {
            count <= 31 || (count == 32 && top < 64)
        } else if !negative {
            count <= 31 || (count == 32 && top < 32)
        } else {
            count <= 31 || (count == 32 && (top < 32 || (top == 32 && rest_zero)))
        };
        proof {
            lemma_below_power(top as nat, rest, count as nat, 32, 6);
            lemma_below_power(top as nat, rest, count as nat, 32, 5);
            assert(fits_field == fits(value.value(), 254, is_signed));
            assert forall|k: nat| k >= 1 implies #[trigger] fits(value.value(), 8 * k, is_signed) == (
            count < k || (count == k && fits_bytes)) by {
                lemma_below_power(top as nat, rest, count as nat, k, 8);
                lemma_below_power(top as nat, rest, count as nat, k, 7);
                assert((8 * k - 1) as nat == (8 * (k - 1) + 7) as nat);
                assert(8 * k == (8 * (k - 1) + 8) as nat);
            }
        }
        if count <= 30 || (count == 31 && fits_bytes) {
            let bytes = if fits_bytes {
                count
            } else {
                count + 1
            };
            let bitlength = crate::BITLENGTH_BYTE * bytes;
            proof {
                assert(fits(value.value(), 8 * (bytes as nat), is_signed));
                assert forall|other: nat|
                    is_bitlength(other) && other < bitlength implies !#[trigger] fits(
                    value.value(),
                    other,
                    is_signed,
                ) by {
                    let k = other / 8;
                    assert(other == 8 * k);
                    assert(fits(value.value(), 8 * k, is_signed) == (count < k || (count == k
                        && fits_bytes)));
                }
            }
            Ok(bitlength)
        } else if fits_field {
            proof {
                assert forall|other: nat|
                    is_bitlength(other) && other < crate::BITLENGTH_FIELD implies !#[trigger] fits(
                    value.value(),
                    other,
                    is_signed,
                ) by {
                    let k = other / 8;
                    assert(other == 8 * k);
                    assert(fits(value.value(), 8 * k, is_signed) == (count < k || (count == k
                        && fits_bytes)));
                }
            }
            Ok(crate::BITLENGTH_FIELD)
        } else {
            let found = BigInteger::new(
                value.negative,
                copy_range(value.magnitude.as_slice(), 0, length),
            );
            assert(found.magnitude@ =~= value.magnitude@);
            Err(Error::IntegerTooLarge { value: found, bitlength: crate::BITLENGTH_FIELD })
        }
    }
}

} // verus!
