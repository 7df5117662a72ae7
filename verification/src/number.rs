//! Integers of any size, held as a sign and the bytes of a magnitude.

use num_bigint::BigInt;
use num_bigint::Sign;
use num_integer::Integer;
use vstd::arithmetic::power2::lemma2_to64;
use vstd::arithmetic::power2::lemma_pow2_adds;
use vstd::arithmetic::power2::lemma_pow2_pos;
use vstd::arithmetic::power2::pow2;
use vstd::prelude::*;

use crate::text::decimal;

verus! {

/// An integer of any size: a sign and a magnitude, whose bytes are written
/// with the highest first. Leading zero bytes are allowed and change
/// nothing; a zero with the sign set stands for zero.
#[derive(Debug, Clone, PartialEq, Eq)]
pub struct BigInteger {
    pub negative: bool,
    pub magnitude: Vec<u8>,
}

/// The number that the bytes stand for, the highest byte first.
pub open spec fn be_value(bytes: Seq<u8>) -> nat
    decreases bytes.len(),
{
    if bytes.len() == 0 {
        0
    } else {
        be_value(bytes.drop_last()) * 256 + bytes.last() as nat
    }
}

/// The bytes stand for a number below 256 to the power of their count.
pub proof fn lemma_be_value_bound(bytes: Seq<u8>)
    ensures
        be_value(bytes) < pow2(8 * bytes.len()),
    decreases bytes.len(),
{
    lemma2_to64();
    if bytes.len() > 0 {
        let shorter = bytes.drop_last();
        lemma_be_value_bound(shorter);
        lemma_pow2_adds(8 * shorter.len(), 8);
        let bound = pow2(8 * shorter.len());
        assert(be_value(shorter) * 256 + bytes.last() < bound * 256) by (nonlinear_arith)
            requires
                be_value(shorter) < bound,
                bytes.last() < 256,
        ;
    }
}

/// The number of two runs of bytes, one after the other: the first is
/// shifted by the bytes of the second.
pub proof fn lemma_be_value_concat(high: Seq<u8>, low: Seq<u8>)
    ensures
        be_value(high + low) == be_value(high) * pow2(8 * low.len()) + be_value(low),
    decreases low.len(),
{
    lemma2_to64();
    if low.len() == 0 {
        assert(high + low =~= high);
        assert(pow2(0) == 1);
        assert(be_value(high) * 1 == be_value(high)) by (nonlinear_arith);
    } else {
        let shorter = low.drop_last();
        let whole = high + low;
        assert(whole.drop_last() =~= high + shorter);
        assert(whole.last() == low.last());
        lemma_be_value_concat(high, shorter);
        lemma_pow2_adds(8 * shorter.len(), 8);
        let shift = pow2(8 * shorter.len());
        assert(pow2(8 * low.len()) == shift * 256);
        assert(be_value(whole) == be_value(high + shorter) * 256 + low.last() as nat);
        assert(be_value(low) == be_value(shorter) * 256 + low.last() as nat);
        assert((be_value(high) * shift + be_value(shorter)) * 256 == be_value(high) * (shift * 256)
            + be_value(shorter) * 256) by (nonlinear_arith);
    }
}

/// Bytes stand for zero where each of them is zero, and only there.
pub proof fn lemma_be_value_zero(bytes: Seq<u8>)
    ensures
        be_value(bytes) == 0 <==> forall|i: int| 0 <= i < bytes.len() ==> bytes[i] == 0,
    decreases bytes.len(),
{
    if bytes.len() > 0 {
        let shorter = bytes.drop_last();
        lemma_be_value_zero(shorter);
        if be_value(bytes) == 0 {
            assert forall|i: int| 0 <= i < bytes.len() implies bytes[i] == 0 by {
                if i < shorter.len() {
                    assert(shorter[i] == bytes[i]);
                }
            }
        } else {
            if forall|i: int| 0 <= i < bytes.len() ==> bytes[i] == 0 {
                assert forall|i: int| 0 <= i < shorter.len() implies shorter[i] == 0 by {
                    assert(shorter[i] == bytes[i]);
                }
            }
        }
    }
}

/// The number of bytes whose first `start` bytes are zero and whose next
/// byte is not: that byte, shifted by the bytes after it, and the number
/// of those.
pub proof fn lemma_be_value_leading(bytes: Seq<u8>, start: int)
    requires
        0 <= start < bytes.len(),
        forall|i: int| 0 <= i < start ==> bytes[i] == 0,
    ensures
        be_value(bytes) == bytes[start] as nat * pow2((8 * (bytes.len() - start - 1)) as nat)
            + be_value(bytes.subrange(start + 1, bytes.len() as int)),
        be_value(bytes.subrange(start + 1, bytes.len() as int)) < pow2(
            (8 * (bytes.len() - start - 1)) as nat,
        ),
{
    let zeros = bytes.subrange(0, start);
    let top = seq![bytes[start]];
    let rest = bytes.subrange(start + 1, bytes.len() as int);
    assert(bytes =~= zeros + (top + rest));
    lemma_be_value_zero(zeros);
    lemma_be_value_concat(zeros, top + rest);
    lemma_be_value_concat(top, rest);
    lemma_be_value_bound(rest);
    assert(top.drop_last() =~= Seq::<u8>::empty());
    assert(be_value(top.drop_last()) == 0);
    assert(top.last() == bytes[start]);
    assert(be_value(top) == bytes[start] as nat);
    assert(0 * pow2(8 * (top + rest).len()) == 0) by (nonlinear_arith);
}

/// The quotient of two integers, rounded towards zero.
pub open spec fn truncated_quotient(dividend: int, divisor: int) -> int {
    let quotient = (vstd::math::abs(dividend) / vstd::math::abs(divisor)) as int;
    if (dividend < 0) != (divisor < 0) {
        -quotient
    } else {
        quotient
    }
}

/// The remainder that the quotient rounded towards zero leaves: it has the
/// sign of the dividend.
pub open spec fn truncated_remainder(dividend: int, divisor: int) -> int {
    let remainder = (vstd::math::abs(dividend) % vstd::math::abs(divisor)) as int;
    if dividend < 0 {
        -remainder
    } else {
        remainder
    }
}

impl BigInteger {
    /// The integer that the sign and the magnitude stand for.
    pub open spec fn value(self) -> int {
        if self.negative {
            -(be_value(self.magnitude@) as int)
        } else {
            be_value(self.magnitude@) as int
        }
    }

    /// The integer with the given sign and magnitude.
    pub fn new(negative: bool, magnitude: Vec<u8>) -> (integer: Self)
        ensures
            integer.negative == negative,
            integer.magnitude == magnitude,
    {
        BigInteger { negative, magnitude }
    }

    /// The place of the first byte of the magnitude that is not zero, or the
    /// number of bytes where all are zero.
    pub fn first_significant(&self) -> (start: usize)
        ensures
            start <= self.magnitude@.len(),
            forall|i: int| 0 <= i < start ==> self.magnitude@[i] == 0,
            start < self.magnitude@.len() ==> self.magnitude@[start as int] != 0,
    {
        let mut start: usize = 0;
        while start < self.magnitude.len() && self.magnitude[start] == 0
            invariant
                start <= self.magnitude@.len(),
                forall|i: int| 0 <= i < start ==> self.magnitude@[i] == 0,
            decreases self.magnitude@.len() - start,
        {
            start += 1;
        }
        start
    }

    /// Whether every byte of the magnitude from `from` on is zero.
    pub fn is_zero_from(&self, from: usize) -> (zero: bool)
        requires
            from <= self.magnitude@.len(),
        ensures
            zero == (be_value(self.magnitude@.subrange(from as int, self.magnitude@.len() as int))
                == 0),
    {
        let ghost rest = self.magnitude@.subrange(from as int, self.magnitude@.len() as int);
        proof {
            lemma_be_value_zero(rest);
        }
        let mut i: usize = from;
        while i < self.magnitude.len()
            invariant
                from <= i <= self.magnitude@.len(),
                rest == self.magnitude@.subrange(from as int, self.magnitude@.len() as int),
                forall|j: int| 0 <= j < i - from ==> rest[j] == 0,
            decreases self.magnitude@.len() - i,
        {
            if self.magnitude[i] != 0 {
                proof {
                    assert(rest[i - from] != 0);
                    lemma_be_value_zero(rest);
                }
                return false;
            }
            i += 1;
        }
        proof {
            lemma_be_value_zero(rest);
        }
        true
    }

    /// Whether the integer is zero.
    pub fn is_zero(&self) -> (zero: bool)
        ensures
            zero == (self.value() == 0),
    {
        assert(self.magnitude@.subrange(0, self.magnitude@.len() as int) =~= self.magnitude@);
        self.is_zero_from(0)
    }

    /// Whether the integer is below zero.
    pub fn is_negative(&self) -> (negative: bool)
        ensures
            negative == (self.value() < 0),
    {
        self.negative && !self.is_zero()
    }

    /// Whether the integer is minus one.
    pub fn is_minus_one(&self) -> (minus_one: bool)
        ensures
            minus_one == (self.value() == -1),
    {
        let start = self.first_significant();
        if start == self.magnitude.len() {
            proof {
                lemma_be_value_zero(self.magnitude@);
            }
            return false;
        }
        proof {
            lemma2_to64();
            lemma_be_value_leading(self.magnitude@, start as int);
            let rest = self.magnitude@.subrange(start + 1, self.magnitude@.len() as int);
            let unit = pow2((8 * (self.magnitude@.len() - start - 1)) as nat);
            lemma_pow2_pos((8 * (self.magnitude@.len() - start - 1)) as nat);
            if start + 1 < self.magnitude@.len() {
                vstd::arithmetic::power2::lemma_pow2_strictly_increases(
                    0,
                    (8 * (self.magnitude@.len() - start - 1)) as nat,
                );
                assert(self.magnitude@[start as int] as nat * unit >= unit) by (nonlinear_arith)
                    requires
                        self.magnitude@[start as int] >= 1,
                        unit > 0,
                ;
            } else {
                assert(rest =~= Seq::<u8>::empty());
                assert(self.magnitude@[start as int] as nat * 1 == self.magnitude@[start as int])
                    by (nonlinear_arith);
            }
        }
        self.negative && start + 1 == self.magnitude.len() && self.magnitude[start] == 1
    }

    /// The integer with the other sign.
    pub fn negate(&self) -> (negation: Self)
        ensures
            negation.value() == -self.value(),
    {
        let mut magnitude: Vec<u8> = Vec::new();
        let mut i: usize = 0;
        while i < self.magnitude.len()
            invariant
                i <= self.magnitude@.len(),
                magnitude@ == self.magnitude@.subrange(0, i as int),
            decreases self.magnitude@.len() - i,
        {
            magnitude.push(self.magnitude[i]);
            i += 1;
            assert(magnitude@ =~= self.magnitude@.subrange(0, i as int));
        }
        assert(magnitude@ =~= self.magnitude@);
        BigInteger { negative: !self.negative, magnitude }
    }

    /// The sum of two integers.
    pub fn add(&self, other: &Self) -> (sum: Self)
        ensures
            sum.value() == self.value() + other.value(),
    {
        bigint_add(self, other)
    }

    /// The difference of two integers.
    pub fn sub(&self, other: &Self) -> (difference: Self)
        ensures
            difference.value() == self.value() - other.value(),
    {
        bigint_sub(self, other)
    }

    /// The product of two integers.
    pub fn mul(&self, other: &Self) -> (product: Self)
        ensures
            product.value() == self.value() * other.value(),
    {
        bigint_mul(self, other)
    }

    /// The quotient of two integers, rounded towards zero, and the
    /// remainder, which has the sign of the dividend.
    pub fn div_rem(&self, other: &Self) -> (result: (Self, Self))
        requires
            other.value() != 0,
        ensures
            result.0.value() == truncated_quotient(self.value(), other.value()),
            result.1.value() == truncated_remainder(self.value(), other.value()),
    {
        bigint_div_rem(self, other)
    }

    /// Writes the integer in decimal, with `-` before a negative one.
    pub fn to_decimal(&self) -> (text: String)
        ensures
            self.value() >= 0 ==> text@ == decimal(self.value() as nat),
            self.value() < 0 ==> text@ == seq!['-'] + decimal((-self.value()) as nat),
    {
        to_str_radix_10(self.negative, self.magnitude.as_slice())
    }
}

/// `BigInt::to_str_radix` of num_bigint with radix ten, on the integer that
/// `BigInt::from_bytes_be` makes of a sign and a magnitude: the decimal form
/// of the magnitude, without leading zeros, after a `-` where the integer is
/// negative.
#[verifier::external_body]
fn to_str_radix_10(negative: bool, magnitude: &[u8]) -> (text: String)
    ensures
        !negative || be_value(magnitude@) == 0 ==> text@ == decimal(be_value(magnitude@)),
        negative && be_value(magnitude@) != 0 ==> text@ == seq!['-'] + decimal(
            be_value(magnitude@),
        ),
{
    let sign = if negative {
        Sign::Minus
    } else {
        Sign::Plus
    };
    BigInt::from_bytes_be(sign, magnitude).to_str_radix(10)
}

/// `+` of num_bigint on two integers: their sum.
#[verifier::external_body]
fn bigint_add(a: &BigInteger, b: &BigInteger) -> (sum: BigInteger)
    ensures
        sum.value() == a.value() + b.value(),
{
    let left = BigInt::from_bytes_be(if a.negative { Sign::Minus } else { Sign::Plus }, &a.magnitude);
    let right = BigInt::from_bytes_be(if b.negative { Sign::Minus } else { Sign::Plus }, &b.magnitude);
    let (sign, magnitude) = (left + right).to_bytes_be();
    BigInteger { negative: sign == Sign::Minus, magnitude }
}

/// `-` of num_bigint on two integers: their difference.
#[verifier::external_body]
fn bigint_sub(a: &BigInteger, b: &BigInteger) -> (difference: BigInteger)
    ensures
        difference.value() == a.value() - b.value(),
{
    let left = BigInt::from_bytes_be(if a.negative { Sign::Minus } else { Sign::Plus }, &a.magnitude);
    let right = BigInt::from_bytes_be(if b.negative { Sign::Minus } else { Sign::Plus }, &b.magnitude);
    let (sign, magnitude) = (left - right).to_bytes_be();
    BigInteger { negative: sign == Sign::Minus, magnitude }
}

/// `*` of num_bigint on two integers: their product.
#[verifier::external_body]
fn bigint_mul(a: &BigInteger, b: &BigInteger) -> (product: BigInteger)
    ensures
        product.value() == a.value() * b.value(),
{
    let left = BigInt::from_bytes_be(if a.negative { Sign::Minus } else { Sign::Plus }, &a.magnitude);
    let right = BigInt::from_bytes_be(if b.negative { Sign::Minus } else { Sign::Plus }, &b.magnitude);
    let (sign, magnitude) = (left * right).to_bytes_be();
    BigInteger { negative: sign == Sign::Minus, magnitude }
}

/// `Integer::div_rem` of num_integer on two integers of num_bigint: the
/// quotient rounded towards zero, and the remainder with the sign of the
/// dividend. The divisor is not zero.
#[verifier::external_body]
fn bigint_div_rem(a: &BigInteger, b: &BigInteger) -> (result: (BigInteger, BigInteger))
    requires
        b.value() != 0,
    ensures
        result.0.value() == truncated_quotient(a.value(), b.value()),
        result.1.value() == truncated_remainder(a.value(), b.value()),
{
    let left = BigInt::from_bytes_be(if a.negative { Sign::Minus } else { Sign::Plus }, &a.magnitude);
    let right = BigInt::from_bytes_be(if b.negative { Sign::Minus } else { Sign::Plus }, &b.magnitude);
    let (quotient, remainder) = left.div_rem(&right);
    let (quotient_sign, quotient_magnitude) = quotient.to_bytes_be();
    let (remainder_sign, remainder_magnitude) = remainder.to_bytes_be();
    (
        BigInteger { negative: quotient_sign == Sign::Minus, magnitude: quotient_magnitude },
        BigInteger { negative: remainder_sign == Sign::Minus, magnitude: remainder_magnitude },
    )
}

} // verus!
