//! The scalar field of the curve BN256, over which the machine computes.

use bellman_ce::pairing::bn256::Fr;
use bellman_ce::pairing::bn256::FrRepr;
use bellman_ce::pairing::ff::Field;
use bellman_ce::pairing::ff::PrimeField;
use vstd::arithmetic::power2::lemma2_to64_rest;
use vstd::prelude::*;

use crate::number::be_value;
use crate::number::lemma_be_value_concat;
use crate::number::BigInteger;
use crate::text::decimal;
use crate::text::decimal_value;
use crate::text::lemma_decimal_value;
use crate::text::is_decimal;

verus! {

/// The prime modulus of the field.
pub open spec fn modulus() -> nat {
    21888242871839275222246405745257275088548364400416034343698204186575808495617nat
}

/// The number of bits that a difference must fit in for a comparison to
/// hold: one less than the bits of the field.
pub const BITLENGTH_COMPARISON: usize = 253;

/// Two to the power of the bits of a comparison.
pub open spec fn comparison_bound() -> nat {
    0x2000_0000_0000_0000_0000_0000_0000_0000_0000_0000_0000_0000_0000_0000_0000_0000nat
}

/// An element of the field: a number below the modulus, held in four limbs
/// of 64 bits, the lowest first.
#[derive(Debug, Clone, Copy, PartialEq, Eq)]
pub struct FieldElement {
    limbs: [u64; 4],
}

impl FieldElement {
    /// The number that the limbs stand for.
    pub closed spec fn value(self) -> nat {
        (self.limbs[0] as nat) + (self.limbs[1] as nat) * 0x1_0000_0000_0000_0000nat + (
        self.limbs[2] as nat) * 0x1_0000_0000_0000_0000_0000_0000_0000_0000nat + (
        self.limbs[3] as nat)
            * 0x1_0000_0000_0000_0000_0000_0000_0000_0000_0000_0000_0000_0000nat
    }

    /// The number is below the modulus.
    pub open spec fn wf(self) -> bool {
        self.value() < modulus()
    }

    /// The element of the given limbs, the lowest first, if their number is
    /// below the modulus.
    pub fn from_limbs(limbs: [u64; 4]) -> (element: Option<Self>)
        ensures
            match element {
                Some(element) => element.wf() && element.spec_limbs() == limbs && element.value()
                    == limbs_value(
                    limbs[0] as nat,
                    limbs[1] as nat,
                    limbs[2] as nat,
                    limbs[3] as nat,
                ),
                None => limbs_value(
                    limbs[0] as nat,
                    limbs[1] as nat,
                    limbs[2] as nat,
                    limbs[3] as nat,
                ) >= modulus(),
            },
    {
        let below = if limbs[3] != 0x30644e72e131a029 {
            limbs[3] < 0x30644e72e131a029
        } else if limbs[2] != 0xb85045b68181585d {
            limbs[2] < 0xb85045b68181585d
        } else if limbs[1] != 0x2833e84879b97091 {
            limbs[1] < 0x2833e84879b97091
        } else {
            limbs[0] < 0x43e1f593f0000001
        };
        proof {
            lemma_modulus_limbs();
            lemma_limbs_order(
                limbs[0] as nat,
                limbs[1] as nat,
                limbs[2] as nat,
                limbs[3] as nat,
                0x43e1f593f0000001,
                0x2833e84879b97091,
                0xb85045b68181585d,
                0x30644e72e131a029,
            );
        }
        if below {
            Some(FieldElement { limbs })
        } else {
            None
        }
    }

    /// The four limbs of the element, the lowest first.
    pub fn limbs(&self) -> (limbs: [u64; 4])
        ensures
            limbs == self.spec_limbs(),
    {
        self.limbs
    }

    /// The four limbs of the element, the lowest first.
    pub closed spec fn spec_limbs(self) -> [u64; 4] {
        self.limbs
    }

    /// The element as an integer: its number, with the highest byte first.
    pub fn to_bigint(&self) -> (integer: BigInteger)
        ensures
            integer.value() == self.value(),
            !integer.negative,
            integer.magnitude@.len() == 32,
    {
        let mut magnitude: Vec<u8> = Vec::new();
        write_u64_be(&mut magnitude, self.limbs[3]);
        write_u64_be(&mut magnitude, self.limbs[2]);
        write_u64_be(&mut magnitude, self.limbs[1]);
        write_u64_be(&mut magnitude, self.limbs[0]);
        proof {
            lemma_limbs_be_value(self.limbs[0], self.limbs[1], self.limbs[2], self.limbs[3]);
            assert(magnitude@ =~= u64_be(self.limbs[3]) + u64_be(self.limbs[2]) + u64_be(
                self.limbs[1],
            ) + u64_be(self.limbs[0]));
        }
        BigInteger::new(false, magnitude)
    }

    /// Writes the element in decimal.
    pub fn to_decimal(&self) -> (text: String)
        ensures
            text@ == decimal(self.value()),
    {
        self.to_bigint().to_decimal()
    }

    /// Whether the element fits in the bits of a comparison.
    pub fn fits_comparison(&self) -> (fits: bool)
        ensures
            fits == (self.value() < comparison_bound()),
    {
        proof {
            let low = (self.limbs[0] as nat) + (self.limbs[1] as nat) * 0x1_0000_0000_0000_0000nat
                + (self.limbs[2] as nat) * 0x1_0000_0000_0000_0000_0000_0000_0000_0000nat;
            let high = self.limbs[3] as nat;
            assert(low < 0x1_0000_0000_0000_0000_0000_0000_0000_0000_0000_0000_0000_0000nat);
            assert(self.value() == low + high
                * 0x1_0000_0000_0000_0000_0000_0000_0000_0000_0000_0000_0000_0000nat);
            assert(comparison_bound() == 0x2000_0000_0000_0000nat
                * 0x1_0000_0000_0000_0000_0000_0000_0000_0000_0000_0000_0000_0000nat);
            if high < 0x2000_0000_0000_0000nat {
                assert(high + 1 <= 0x2000_0000_0000_0000nat);
            }
        }
        self.limbs[3] < 0x2000_0000_0000_0000
    }

    /// The zero of the field.
    pub fn zero() -> (zero: Self)
        ensures
            zero.wf(),
            zero.value() == 0,
    {
        fr_zero()
    }

    /// The one of the field.
    pub fn one() -> (one: Self)
        ensures
            one.wf(),
            one.value() == 1,
    {
        fr_one()
    }

    /// Whether the element is the zero of the field.
    pub fn is_zero(&self) -> (zero: bool)
        requires
            self.wf(),
        ensures
            zero == (self.value() == 0),
    {
        fr_is_zero(self)
    }

    /// The sum of two elements.
    pub fn add(&self, other: &Self) -> (sum: Self)
        requires
            self.wf(),
            other.wf(),
        ensures
            sum.wf(),
            sum.value() == (self.value() + other.value()) % modulus(),
    {
        fr_add(self, other)
    }

    /// The difference of two elements.
    pub fn sub(&self, other: &Self) -> (difference: Self)
        requires
            self.wf(),
            other.wf(),
        ensures
            difference.wf(),
            difference.value() == (self.value() + modulus() - other.value()) % (modulus() as int),
    {
        fr_sub(self, other)
    }

    /// The product of two elements.
    pub fn mul(&self, other: &Self) -> (product: Self)
        requires
            self.wf(),
            other.wf(),
        ensures
            product.wf(),
            product.value() == (self.value() * other.value()) % modulus(),
    {
        fr_mul(self, other)
    }

    /// The quotient and the remainder of two elements, taken as numbers.
    pub fn div_rem(&self, other: &Self) -> (result: (Self, Self))
        requires
            self.wf(),
            other.wf(),
            other.value() != 0,
        ensures
            result.0.wf(),
            result.1.wf(),
            result.0.value() == self.value() / other.value(),
            result.1.value() == self.value() % other.value(),
    {
        let (quotient, remainder) = self.to_bigint().div_rem(&other.to_bigint());
        let ghost q = self.value() / other.value();
        let ghost r = self.value() % other.value();
        proof {
            lemma_decimal_value(q);
            lemma_decimal_value(r);
            vstd::arithmetic::div_mod::lemma_fundamental_div_mod(
                self.value() as int,
                other.value() as int,
            );
            vstd::arithmetic::div_mod::lemma_div_pos_is_pos(self.value() as int, other.value() as int);
            vstd::arithmetic::div_mod::lemma_mod_bound(self.value() as int, other.value() as int);
            assert(q <= self.value()) by (nonlinear_arith)
                requires
                    self.value() == other.value() * q + r,
                    other.value() >= 1,
                    r >= 0,
                    q >= 0,
            ;
            vstd::arithmetic::div_mod::lemma_small_mod(q, modulus());
            vstd::arithmetic::div_mod::lemma_small_mod(r, modulus());
        }
        let quotient = FieldElement::from_decimal(quotient.to_decimal().as_str());
        let remainder = FieldElement::from_decimal(remainder.to_decimal().as_str());
        match (quotient, remainder) {
            (Some(quotient), Some(remainder)) => (quotient, remainder),
            _ => (FieldElement::zero(), FieldElement::zero()),
        }
    }

    /// The element that a decimal number stands for: the number modulo the
    /// modulus. A text that is no decimal number without leading zeros
    /// stands for none.
    pub fn from_decimal(text: &str) -> (element: Option<Self>)
        ensures
            element is Some <==> is_decimal(text@),
            element matches Some(e) ==> e.wf() && e.value() == decimal_value(text@) % modulus(),
    {
        fr_from_str(text)
    }
}

/// The number of four limbs, the lowest first.
pub open spec fn limbs_value(l0: nat, l1: nat, l2: nat, l3: nat) -> nat {
    l0 + l1 * 0x1_0000_0000_0000_0000nat + l2 * 0x1_0000_0000_0000_0000_0000_0000_0000_0000nat + l3
        * 0x1_0000_0000_0000_0000_0000_0000_0000_0000_0000_0000_0000_0000nat
}

/// The limbs of the modulus.
proof fn lemma_modulus_limbs()
    ensures
        modulus() == limbs_value(
            0x43e1f593f0000001,
            0x2833e84879b97091,
            0xb85045b68181585d,
            0x30644e72e131a029,
        ),
{
}

/// Numbers of four limbs are ordered as their limbs are, the highest first.
proof fn lemma_limbs_order(
    a0: nat,
    a1: nat,
    a2: nat,
    a3: nat,
    b0: nat,
    b1: nat,
    b2: nat,
    b3: nat,
)
    requires
        a0 < 0x1_0000_0000_0000_0000,
        a1 < 0x1_0000_0000_0000_0000,
        a2 < 0x1_0000_0000_0000_0000,
        a3 < 0x1_0000_0000_0000_0000,
        b0 < 0x1_0000_0000_0000_0000,
        b1 < 0x1_0000_0000_0000_0000,
        b2 < 0x1_0000_0000_0000_0000,
        b3 < 0x1_0000_0000_0000_0000,
    ensures
        limbs_value(a0, a1, a2, a3) < limbs_value(b0, b1, b2, b3) <==> (if a3 != b3 {
            a3 < b3
        } else if a2 != b2 {
            a2 < b2
        } else if a1 != b1 {
            a1 < b1
        } else {
            a0 < b0
        }),
{
}

/// The eight bytes of a limb, the highest first.
pub open spec fn u64_be(limb: u64) -> Seq<u8> {
    let x1 = limb / 256;
    let x2 = x1 / 256;
    let x3 = x2 / 256;
    let x4 = x3 / 256;
    let x5 = x4 / 256;
    let x6 = x5 / 256;
    let x7 = x6 / 256;
    seq![
        (x7 % 256) as u8,
        (x6 % 256) as u8,
        (x5 % 256) as u8,
        (x4 % 256) as u8,
        (x3 % 256) as u8,
        (x2 % 256) as u8,
        (x1 % 256) as u8,
        (limb % 256) as u8,
    ]
}

/// The eight bytes of a limb stand for the limb.
pub proof fn lemma_u64_be_value(limb: u64)
    ensures
        be_value(u64_be(limb)) == limb,
{
    let bytes = u64_be(limb);
    let x1 = limb / 256;
    let x2 = x1 / 256;
    let x3 = x2 / 256;
    let x4 = x3 / 256;
    let x5 = x4 / 256;
    let x6 = x5 / 256;
    let x7 = x6 / 256;
    let first0 = bytes.subrange(0, 0);
    let first1 = bytes.subrange(0, 1);
    let first2 = bytes.subrange(0, 2);
    let first3 = bytes.subrange(0, 3);
    let first4 = bytes.subrange(0, 4);
    let first5 = bytes.subrange(0, 5);
    let first6 = bytes.subrange(0, 6);
    let first7 = bytes.subrange(0, 7);
    assert(be_value(first0) == 0);
    assert(first1.drop_last() =~= first0);
    assert(be_value(first1) == x7);
    assert(first2.drop_last() =~= first1);
    assert(be_value(first2) == x6);
    assert(first3.drop_last() =~= first2);
    assert(be_value(first3) == x5);
    assert(first4.drop_last() =~= first3);
    assert(be_value(first4) == x4);
    assert(first5.drop_last() =~= first4);
    assert(be_value(first5) == x3);
    assert(first6.drop_last() =~= first5);
    assert(be_value(first6) == x2);
    assert(first7.drop_last() =~= first6);
    assert(be_value(first7) == x1);
    assert(bytes.drop_last() =~= first7);
}

/// Three limbs shifted into a number, and its expansion.
proof fn lemma_shifted_limbs(l0: nat, l1: nat, l2: nat, l3: nat, c: nat)
    ensures
        ((l3 * c + l2) * c + l1) * c + l0 == l0 + l1 * c + l2 * (c * c) + l3 * (c * c * c),
{
    assert(((l3 * c + l2) * c + l1) * c + l0 == l0 + l1 * c + l2 * (c * c) + l3 * (c * c * c))
        by (nonlinear_arith);
}

/// The powers of two to the power of 64.
proof fn lemma_limb_powers()
    ensures
        0x1_0000_0000_0000_0000nat * 0x1_0000_0000_0000_0000nat
            == 0x1_0000_0000_0000_0000_0000_0000_0000_0000nat,
        0x1_0000_0000_0000_0000nat * 0x1_0000_0000_0000_0000nat * 0x1_0000_0000_0000_0000nat
            == 0x1_0000_0000_0000_0000_0000_0000_0000_0000_0000_0000_0000_0000nat,
{
    assert(0x1_0000_0000_0000_0000nat * 0x1_0000_0000_0000_0000nat
        == 0x1_0000_0000_0000_0000_0000_0000_0000_0000nat) by (nonlinear_arith);
    assert(0x1_0000_0000_0000_0000_0000_0000_0000_0000nat * 0x1_0000_0000_0000_0000nat
        == 0x1_0000_0000_0000_0000_0000_0000_0000_0000_0000_0000_0000_0000nat)
        by (nonlinear_arith);
}

/// The bytes of four limbs, the highest limb first, stand for the number of
/// the limbs.
proof fn lemma_limbs_be_value(l0: u64, l1: u64, l2: u64, l3: u64)
    ensures
        be_value(u64_be(l3) + u64_be(l2) + u64_be(l1) + u64_be(l0)) == (l0 as nat) + (l1 as nat)
            * 0x1_0000_0000_0000_0000nat + (l2 as nat)
            * 0x1_0000_0000_0000_0000_0000_0000_0000_0000nat + (l3 as nat)
            * 0x1_0000_0000_0000_0000_0000_0000_0000_0000_0000_0000_0000_0000nat,
{
    let b3 = u64_be(l3);
    let b2 = u64_be(l2);
    let b1 = u64_be(l1);
    let b0 = u64_be(l0);
    let c = 0x1_0000_0000_0000_0000nat;
    lemma_u64_be_value(l3);
    lemma_u64_be_value(l2);
    lemma_u64_be_value(l1);
    lemma_u64_be_value(l0);
    lemma2_to64_rest();
    assert(vstd::arithmetic::power2::pow2(64) == c);
    lemma_be_value_concat(b3, b2);
    assert(be_value(b3 + b2) == l3 as nat * c + l2 as nat);
    lemma_be_value_concat(b3 + b2, b1);
    assert(be_value(b3 + b2 + b1) == (l3 as nat * c + l2 as nat) * c + l1 as nat);
    lemma_be_value_concat(b3 + b2 + b1, b0);
    assert(be_value(b3 + b2 + b1 + b0) == ((l3 as nat * c + l2 as nat) * c + l1 as nat) * c
        + l0 as nat);
    lemma_shifted_limbs(l0 as nat, l1 as nat, l2 as nat, l3 as nat, c);
    lemma_limb_powers();
}

/// Appends the eight bytes of a limb to `bytes`, the highest first.
fn write_u64_be(bytes: &mut Vec<u8>, limb: u64)
    ensures
        final(bytes)@ == old(bytes)@ + u64_be(limb),
{
    let x1 = limb / 256;
    let x2 = x1 / 256;
    let x3 = x2 / 256;
    let x4 = x3 / 256;
    let x5 = x4 / 256;
    let x6 = x5 / 256;
    let x7 = x6 / 256;
    bytes.push((x7 % 256) as u8);
    bytes.push((x6 % 256) as u8);
    bytes.push((x5 % 256) as u8);
    bytes.push((x4 % 256) as u8);
    bytes.push((x3 % 256) as u8);
    bytes.push((x2 % 256) as u8);
    bytes.push((x1 % 256) as u8);
    bytes.push((limb % 256) as u8);
    assert(bytes@ =~= old(bytes)@ + u64_be(limb));
}

/// `Field::zero` of ff on the scalar field of BN256: the zero.
#[verifier::external_body]
fn fr_zero() -> (zero: FieldElement)
    ensures
        zero.wf(),
        zero.value() == 0,
{
    FieldElement { limbs: Fr::zero().into_repr().0 }
}

/// `Field::one` of ff on the scalar field of BN256: the one.
#[verifier::external_body]
fn fr_one() -> (one: FieldElement)
    ensures
        one.wf(),
        one.value() == 1,
{
    FieldElement { limbs: Fr::one().into_repr().0 }
}

/// `Field::is_zero` of ff on the scalar field of BN256: whether the element
/// is the zero.
#[verifier::external_body]
fn fr_is_zero(a: &FieldElement) -> (zero: bool)
    requires
        a.wf(),
    ensures
        zero == (a.value() == 0),
{
    Fr::from_repr(FrRepr(a.limbs)).unwrap().is_zero()
}

/// `Field::add_assign` of ff on the scalar field of BN256: the sum modulo
/// the modulus.
#[verifier::external_body]
fn fr_add(a: &FieldElement, b: &FieldElement) -> (sum: FieldElement)
    requires
        a.wf(),
        b.wf(),
    ensures
        sum.wf(),
        sum.value() == (a.value() + b.value()) % modulus(),
{
    let mut sum = Fr::from_repr(FrRepr(a.limbs)).unwrap();
    sum.add_assign(&Fr::from_repr(FrRepr(b.limbs)).unwrap());
    FieldElement { limbs: sum.into_repr().0 }
}

/// `Field::sub_assign` of ff on the scalar field of BN256: the difference
/// modulo the modulus.
#[verifier::external_body]
fn fr_sub(a: &FieldElement, b: &FieldElement) -> (difference: FieldElement)
    requires
        a.wf(),
        b.wf(),
    ensures
        difference.wf(),
        difference.value() == (a.value() + modulus() - b.value()) % (modulus() as int),
{
    let mut difference = Fr::from_repr(FrRepr(a.limbs)).unwrap();
    difference.sub_assign(&Fr::from_repr(FrRepr(b.limbs)).unwrap());
    FieldElement { limbs: difference.into_repr().0 }
}

/// `Field::mul_assign` of ff on the scalar field of BN256: the product
/// modulo the modulus.
#[verifier::external_body]
fn fr_mul(a: &FieldElement, b: &FieldElement) -> (product: FieldElement)
    requires
        a.wf(),
        b.wf(),
    ensures
        product.wf(),
        product.value() == (a.value() * b.value()) % modulus(),
{
    let mut product = Fr::from_repr(FrRepr(a.limbs)).unwrap();
    product.mul_assign(&Fr::from_repr(FrRepr(b.limbs)).unwrap());
    FieldElement { limbs: product.into_repr().0 }
}

/// `PrimeField::from_str` of ff on the scalar field of BN256: the element
/// congruent to a decimal number; none for the empty text, for a text with a
/// character that is no digit, and for one with a leading zero other than
/// `0` itself.
#[verifier::external_body]
fn fr_from_str(text: &str) -> (element: Option<FieldElement>)
    ensures
        element is Some <==> is_decimal(text@),
        element matches Some(e) ==> e.wf() && e.value() == decimal_value(text@) % modulus(),
{
    Fr::from_str(text).map(|element| FieldElement { limbs: element.into_repr().0 })
}

} // verus!
