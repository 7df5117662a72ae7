//! What the bits of the comparisons say of the numbers that are compared.
//!
//! The operator compares two elements by the difference of their values in
//! the field: the difference of a lesser number from a greater one is small,
//! and that of a greater number from a lesser one wraps around the modulus
//! and is large. For numbers of the integer types, which have at most 248
//! bits, the bit that the operator gives is the comparison of the numbers.

use vstd::arithmetic::div_mod::lemma_mod_add_multiples_vanish;
use vstd::arithmetic::div_mod::lemma_mod_self_0;
use vstd::arithmetic::div_mod::lemma_small_mod;
use vstd::prelude::*;

use crate::vm::constrained_element::difference_of;
use crate::vm::constrained_element::equality_of;
use crate::vm::constrained_element::fitting_of;
use crate::vm::constrained_element::ge_result;
use crate::vm::constrained_element::gt_result;
use crate::vm::constrained_element::le_result;
use crate::vm::constrained_element::lt_result;
use crate::vm::constrained_element::ne_result;
use crate::vm::constrained_element::one;
use crate::vm::constrained_element::ElementView;
use crate::vm::field::comparison_bound;
use crate::vm::field::modulus;

verus! {

/// Two to the power of 248: the bound of the integers.
pub open spec fn integer_bound() -> nat {
    0x1_0000_0000_0000_0000_0000_0000_0000_0000_0000_0000_0000_0000_0000_0000_0000_00nat
}

/// The bit of a truth value.
pub open spec fn bit(truth: bool) -> nat {
    if truth {
        1
    } else {
        0
    }
}

/// The difference in the field of two numbers below the modulus: the
/// difference of the numbers where the first is not the lesser, and that
/// difference and the modulus where it is.
pub proof fn lemma_difference(left: nat, right: nat)
    requires
        left < modulus(),
        right < modulus(),
    ensures
        difference_of(Some(left), Some(right)) == Some(
            if left >= right {
                (left - right) as nat
            } else {
                (left + modulus() - right) as nat
            },
        ),
{
    let p = modulus() as int;
    if left >= right {
        lemma_mod_add_multiples_vanish(left - right, p);
        lemma_small_mod((left - right) as nat, p as nat);
    } else {
        lemma_small_mod((left + p - right) as nat, p as nat);
    }
}

/// The negation of a bit in the field is the other bit.
pub proof fn lemma_not_bit(truth: bool)
    ensures
        difference_of(Some(1nat), Some(bit(truth))) == Some(bit(!truth)),
{
    lemma_difference(1, bit(truth));
}

/// "Lesser or equal" on integers: the bit is that of `left <= right`.
pub proof fn lemma_le_compares(variables: nat, left: ElementView, right: ElementView)
    requires
        left.value matches Some(l) && l < integer_bound(),
        right.value matches Some(r) && r < integer_bound(),
    ensures
        le_result(variables, left, right).value == Some(
            bit(left.value->Some_0 <= right.value->Some_0),
        ),
{
    lemma_difference(right.value->Some_0, left.value->Some_0);
}

/// "Lesser" on integers: the bit is that of `left < right`.
pub proof fn lemma_lt_compares(variables: nat, left: ElementView, right: ElementView)
    requires
        left.value matches Some(l) && l < integer_bound(),
        right.value matches Some(r) && r < integer_bound(),
    ensures
        lt_result(variables, left, right).value == Some(
            bit(left.value->Some_0 < right.value->Some_0),
        ),
{
    let r = right.value->Some_0;
    lemma_difference(r, 1);
    let less = ElementView {
        value: difference_of(Some(r), Some(1nat)),
        variable: crate::vm::constrained_element::next(variables),
    };
    if r >= 1 {
        lemma_le_compares(variables + 1, left, less);
    } else {
        lemma_difference((modulus() - 1) as nat, left.value->Some_0);
    }
}

/// "Greater or equal" on integers: the bit is that of `left >= right`.
pub proof fn lemma_ge_compares(variables: nat, left: ElementView, right: ElementView)
    requires
        left.value matches Some(l) && l < integer_bound(),
        right.value matches Some(r) && r < integer_bound(),
    ensures
        ge_result(variables, left, right).value == Some(
            bit(left.value->Some_0 >= right.value->Some_0),
        ),
{
    lemma_lt_compares(variables, left, right);
    lemma_not_bit(left.value->Some_0 < right.value->Some_0);
}

/// "Greater" on integers: the bit is that of `left > right`.
pub proof fn lemma_gt_compares(variables: nat, left: ElementView, right: ElementView)
    requires
        left.value matches Some(l) && l < integer_bound(),
        right.value matches Some(r) && r < integer_bound(),
    ensures
        gt_result(variables, left, right).value == Some(
            bit(left.value->Some_0 > right.value->Some_0),
        ),
{
    lemma_le_compares(variables, left, right);
    lemma_not_bit(left.value->Some_0 <= right.value->Some_0);
}

/// The inequality test: the bit is that of `left != right`.
pub proof fn lemma_ne_compares(variables: nat, left: ElementView, right: ElementView)
    requires
        left.value is Some,
        right.value is Some,
    ensures
        ne_result(variables, left, right).value == Some(
            bit(left.value->Some_0 != right.value->Some_0),
        ),
{
    lemma_not_bit(left.value->Some_0 == right.value->Some_0);
}

} // verus!
