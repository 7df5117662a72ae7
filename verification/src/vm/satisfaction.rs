//! The constraints that the operator lays hold of the witness that it
//! computes.
//!
//! An assignment gives every allocated variable a number. A constraint
//! `a * b = c` holds of an assignment where the product of the values of `a`
//! and `b` is the value of `c`, modulo the modulus of the field. Each law
//! below takes an operation, an assignment that gives the operands the
//! values they carry, and the result the value that the operation computes,
//! and states that the constraint of the operation holds.

use vstd::arithmetic::div_mod::lemma_fundamental_div_mod;
use vstd::arithmetic::div_mod::lemma_mod_multiples_basic;
use vstd::prelude::*;

use crate::vm::constrained_element::add_steps;
use crate::vm::constrained_element::and_steps;
use crate::vm::constrained_element::constant_steps;
use crate::vm::constrained_element::difference_of;
use crate::vm::constrained_element::disjunction_of;
use crate::vm::constrained_element::div_rem_steps;
use crate::vm::constrained_element::exclusion_of;
use crate::vm::constrained_element::mul_steps;
use crate::vm::constrained_element::neg_steps;
use crate::vm::constrained_element::negation_of;
use crate::vm::constrained_element::next;
use crate::vm::constrained_element::or_steps;
use crate::vm::constrained_element::product_of;
use crate::vm::constrained_element::quotient_of;
use crate::vm::constrained_element::remainder_of;
use crate::vm::constrained_element::select_steps;
use crate::vm::constrained_element::selection_of;
use crate::vm::constrained_element::sub_steps;
use crate::vm::constrained_element::sum_of;
use crate::vm::constrained_element::xor_steps;
use crate::vm::constrained_element::ElementView;
use crate::vm::constraint::ActionView;
use crate::vm::constraint::TermView;
use crate::vm::constraint::Variable;
use crate::vm::field::modulus;

verus! {

/// The value that an assignment gives a variable: one for the variable
/// one, and zero for a variable beyond the assignment.
pub open spec fn value_in(assignment: Seq<nat>, variable: Variable) -> int {
    match variable {
        Variable::One => 1,
        Variable::Allocated(index) => if index < assignment.len() {
            assignment[index as int] as int
        } else {
            0
        },
    }
}

/// The value of a linear combination under an assignment.
pub open spec fn evaluate(terms: Seq<TermView>, assignment: Seq<nat>) -> int
    decreases terms.len(),
{
    if terms.len() == 0 {
        0
    } else {
        evaluate(terms.drop_last(), assignment) + terms.last().coefficient * value_in(
            assignment,
            terms.last().variable,
        )
    }
}

/// The constraint `a * b = c` holds of the assignment, in the field.
pub open spec fn holds(a: Seq<TermView>, b: Seq<TermView>, c: Seq<TermView>, assignment: Seq<nat>) -> bool {
    (evaluate(a, assignment) * evaluate(b, assignment) - evaluate(c, assignment)) % (
    modulus() as int) == 0
}

/// The step lays a constraint that holds of the assignment.
pub open spec fn constraint_holds(step: ActionView, assignment: Seq<nat>) -> bool {
    step matches ActionView::Enforce { a, b, c, .. } && holds(a, b, c, assignment)
}

/// The element carries the value that the assignment gives its variable.
pub open spec fn agrees(element: ElementView, assignment: Seq<nat>) -> bool {
    element.value matches Some(value) && value == value_in(assignment, element.variable)
}

/// The assignment gives the variable after the first `variables` the given
/// value.
pub open spec fn assigns(assignment: Seq<nat>, variables: nat, value: Option<nat>) -> bool {
    variables < assignment.len() && variables <= usize::MAX && value == Some(
        assignment[variables as int],
    )
}

/// The value of a combination of one term.
proof fn lemma_evaluate_one(t: TermView, assignment: Seq<nat>)
    ensures
        evaluate(seq![t], assignment) == t.coefficient * value_in(assignment, t.variable),
{
    assert(seq![t].drop_last() =~= Seq::<TermView>::empty());
    assert(evaluate(seq![t].drop_last(), assignment) == 0);
    assert(seq![t].last() == t);
}

/// The value of a combination of two terms.
proof fn lemma_evaluate_two(t: TermView, u: TermView, assignment: Seq<nat>)
    ensures
        evaluate(seq![t, u], assignment) == t.coefficient * value_in(assignment, t.variable)
            + u.coefficient * value_in(assignment, u.variable),
{
    assert(seq![t, u].drop_last() =~= seq![t]);
    assert(seq![t, u].last() == u);
    lemma_evaluate_one(t, assignment);
}

/// The value of a combination of three terms.
proof fn lemma_evaluate_three(t: TermView, u: TermView, v: TermView, assignment: Seq<nat>)
    ensures
        evaluate(seq![t, u, v], assignment) == t.coefficient * value_in(assignment, t.variable)
            + u.coefficient * value_in(assignment, u.variable) + v.coefficient * value_in(
            assignment,
            v.variable,
        ),
{
    assert(seq![t, u, v].drop_last() =~= seq![t, u]);
    assert(seq![t, u, v].last() == v);
    lemma_evaluate_two(t, u, assignment);
}

/// A number and its remainder differ by a multiple of the modulus.
proof fn lemma_remainder_vanishes(x: int)
    ensures
        (x - x % (modulus() as int)) % (modulus() as int) == 0,
{
    let p = modulus() as int;
    lemma_fundamental_div_mod(x, p);
    lemma_mod_multiples_basic(x / p, p);
    assert(x - x % p == p * (x / p));
    assert(p * (x / p) == (x / p) * p) by (nonlinear_arith);
}

/// The constraint of a constant holds: `1 * value = constant`.
pub proof fn lemma_constant_holds(
    counter: nat,
    variables: nat,
    name: Seq<char>,
    value: nat,
    assignment: Seq<nat>,
)
    requires
        assigns(assignment, variables, Some(value)),
    ensures
        constraint_holds(constant_steps(counter, variables, name, value)[1], assignment),
{
    let one = TermView { coefficient: 1, variable: Variable::One };
    let scaled = TermView { coefficient: value as int, variable: Variable::One };
    let result = TermView { coefficient: 1, variable: next(variables) };
    lemma_evaluate_one(one, assignment);
    lemma_evaluate_one(scaled, assignment);
    lemma_evaluate_one(result, assignment);
    assert(1 * (value as int * 1) - 1 * value as int == 0) by (nonlinear_arith);
}

/// The constraint of an addition holds: `(left + right) * 1 = sum`.
pub proof fn lemma_add_holds(
    counter: nat,
    variables: nat,
    left: ElementView,
    right: ElementView,
    assignment: Seq<nat>,
)
    requires
        agrees(left, assignment),
        agrees(right, assignment),
        assigns(assignment, variables, sum_of(left.value, right.value)),
    ensures
        constraint_holds(add_steps(counter, variables, left, right)[1], assignment),
{
    let l = left.value->Some_0 as int;
    let r = right.value->Some_0 as int;
    lemma_evaluate_two(
        TermView { coefficient: 1, variable: left.variable },
        TermView { coefficient: 1, variable: right.variable },
        assignment,
    );
    lemma_evaluate_one(TermView { coefficient: 1, variable: Variable::One }, assignment);
    lemma_evaluate_one(TermView { coefficient: 1, variable: next(variables) }, assignment);
    lemma_remainder_vanishes(l + r);
    assert((1 * l + 1 * r) * (1 * 1) == l + r) by (nonlinear_arith);
}

/// The constraint of a subtraction holds: `(left - right) * 1 = difference`.
pub proof fn lemma_sub_holds(
    counter: nat,
    variables: nat,
    left: ElementView,
    right: ElementView,
    assignment: Seq<nat>,
)
    requires
        agrees(left, assignment),
        agrees(right, assignment),
        assigns(assignment, variables, difference_of(left.value, right.value)),
    ensures
        constraint_holds(sub_steps(counter, variables, left, right)[1], assignment),
{
    let l = left.value->Some_0 as int;
    let r = right.value->Some_0 as int;
    let p = modulus() as int;
    lemma_evaluate_two(
        TermView { coefficient: 1, variable: left.variable },
        TermView { coefficient: -1, variable: right.variable },
        assignment,
    );
    lemma_evaluate_one(TermView { coefficient: 1, variable: Variable::One }, assignment);
    lemma_evaluate_one(TermView { coefficient: 1, variable: next(variables) }, assignment);
    lemma_remainder_vanishes(l + p - r);
    let d = (l + p - r) % p;
    assert((1 * l + (-1) * r) * (1 * 1) == l - r) by (nonlinear_arith);
    lemma_shift_by_modulus(l - r - d);
}

/// A multiple of the modulus stays one when the modulus is taken away.
proof fn lemma_shift_by_modulus(x: int)
    requires
        (x + modulus()) % (modulus() as int) == 0,
    ensures
        x % (modulus() as int) == 0,
{
    vstd::arithmetic::div_mod::lemma_mod_add_multiples_vanish(x, modulus() as int);
}

/// The constraint of a multiplication holds: `left * right = product`.
pub proof fn lemma_mul_holds(
    counter: nat,
    variables: nat,
    left: ElementView,
    right: ElementView,
    assignment: Seq<nat>,
)
    requires
        agrees(left, assignment),
        agrees(right, assignment),
        assigns(assignment, variables, product_of(left.value, right.value)),
    ensures
        constraint_holds(mul_steps(counter, variables, left, right)[1], assignment),
        constraint_holds(and_steps(counter, variables, left, right)[1], assignment),
{
    let l = left.value->Some_0 as int;
    let r = right.value->Some_0 as int;
    lemma_evaluate_one(TermView { coefficient: 1, variable: left.variable }, assignment);
    lemma_evaluate_one(TermView { coefficient: 1, variable: right.variable }, assignment);
    lemma_evaluate_one(TermView { coefficient: 1, variable: next(variables) }, assignment);
    lemma_remainder_vanishes(l * r);
    assert((1 * l) * (1 * r) == l * r) by (nonlinear_arith);
}

/// The constraint of a negation holds: `element * 1 = -negation`.
pub proof fn lemma_neg_holds(counter: nat, variables: nat, element: ElementView, assignment: Seq<nat>)
    requires
        agrees(element, assignment),
        element.value->Some_0 < modulus(),
        assigns(assignment, variables, negation_of(element.value)),
    ensures
        constraint_holds(neg_steps(counter, variables, element)[1], assignment),
{
    let e = element.value->Some_0 as int;
    let p = modulus() as int;
    lemma_evaluate_one(TermView { coefficient: 1, variable: element.variable }, assignment);
    lemma_evaluate_one(TermView { coefficient: 1, variable: Variable::One }, assignment);
    lemma_evaluate_one(TermView { coefficient: -1, variable: next(variables) }, assignment);
    let n = (p - e) % p;
    lemma_remainder_vanishes(p - e);
    assert((1 * e) * (1 * 1) - (-1) * n == e + n) by (nonlinear_arith);
    // e + n = p - (p - e - n), and p - e - n is a multiple of p
    if e == 0 {
        vstd::arithmetic::div_mod::lemma_mod_self_0(p);
    } else {
        vstd::arithmetic::div_mod::lemma_small_mod((p - e) as nat, p as nat);
        vstd::arithmetic::div_mod::lemma_mod_self_0(p);
    }
}

/// The constraint of a disjunction holds on bits:
/// `(1 - left) * (1 - right) = 1 - disjunction`.
pub proof fn lemma_or_holds(
    counter: nat,
    variables: nat,
    left: ElementView,
    right: ElementView,
    assignment: Seq<nat>,
)
    requires
        agrees(left, assignment),
        agrees(right, assignment),
        left.value->Some_0 <= 1,
        right.value->Some_0 <= 1,
        assigns(assignment, variables, disjunction_of(left.value, right.value)),
    ensures
        constraint_holds(or_steps(counter, variables, left, right)[1], assignment),
{
    let l = left.value->Some_0 as int;
    let r = right.value->Some_0 as int;
    let c = assignment[variables as int] as int;
    lemma_evaluate_two(
        TermView { coefficient: 1, variable: Variable::One },
        TermView { coefficient: -1, variable: left.variable },
        assignment,
    );
    lemma_evaluate_two(
        TermView { coefficient: 1, variable: Variable::One },
        TermView { coefficient: -1, variable: right.variable },
        assignment,
    );
    lemma_evaluate_two(
        TermView { coefficient: 1, variable: Variable::One },
        TermView { coefficient: -1, variable: next(variables) },
        assignment,
    );
    assert((1 * 1 + (-1) * l) * (1 * 1 + (-1) * r) - (1 * 1 + (-1) * c) == 0) by (nonlinear_arith)
        requires
            0 <= l <= 1,
            0 <= r <= 1,
            c == if l == 0 && r == 0 {
                0int
            } else {
                1int
            },
    ;
}

/// The constraint of an exclusive disjunction holds on bits:
/// `(left + left) * right = left + right - exclusion`.
pub proof fn lemma_xor_holds(
    counter: nat,
    variables: nat,
    left: ElementView,
    right: ElementView,
    assignment: Seq<nat>,
)
    requires
        agrees(left, assignment),
        agrees(right, assignment),
        left.value->Some_0 <= 1,
        right.value->Some_0 <= 1,
        assigns(assignment, variables, exclusion_of(left.value, right.value)),
    ensures
        constraint_holds(xor_steps(counter, variables, left, right)[1], assignment),
{
    let l = left.value->Some_0 as int;
    let r = right.value->Some_0 as int;
    let c = assignment[variables as int] as int;
    lemma_evaluate_two(
        TermView { coefficient: 1, variable: left.variable },
        TermView { coefficient: 1, variable: left.variable },
        assignment,
    );
    lemma_evaluate_one(TermView { coefficient: 1, variable: right.variable }, assignment);
    lemma_evaluate_three(
        TermView { coefficient: 1, variable: left.variable },
        TermView { coefficient: 1, variable: right.variable },
        TermView { coefficient: -1, variable: next(variables) },
        assignment,
    );
    let step = xor_steps(counter, variables, left, right)[1];
    assert(step->Enforce_a == seq![
        TermView { coefficient: 1, variable: left.variable },
        TermView { coefficient: 1, variable: left.variable },
    ]);
    assert(step->Enforce_b == seq![TermView { coefficient: 1, variable: right.variable }]);
    assert(step->Enforce_c == seq![
        TermView { coefficient: 1, variable: left.variable },
        TermView { coefficient: 1, variable: right.variable },
        TermView { coefficient: -1, variable: next(variables) },
    ]);
    assert(evaluate(step->Enforce_a, assignment) == l + l);
    assert(evaluate(step->Enforce_b, assignment) == r);
    assert(evaluate(step->Enforce_c, assignment) == l + r - c);
    assert((l + l) * r - (l + r - c) == 0) by (nonlinear_arith)
        requires
            0 <= l <= 1,
            0 <= r <= 1,
            c == if (l == 0) == (r == 0) {
                0int
            } else {
                1int
            },
    ;
}

/// The constraint of a selection holds where the condition is a bit:
/// `(if_true - if_false) * condition = selection - if_false`.
pub proof fn lemma_select_holds(
    counter: nat,
    variables: nat,
    condition: ElementView,
    if_true: ElementView,
    if_false: ElementView,
    assignment: Seq<nat>,
)
    requires
        agrees(condition, assignment),
        agrees(if_true, assignment),
        agrees(if_false, assignment),
        condition.value->Some_0 <= 1,
        assigns(
            assignment,
            variables,
            selection_of(condition.value, if_true.value, if_false.value),
        ),
    ensures
        constraint_holds(
            select_steps(counter, variables, condition, if_true, if_false)[1],
            assignment,
        ),
{
    let c = condition.value->Some_0 as int;
    let t = if_true.value->Some_0 as int;
    let f = if_false.value->Some_0 as int;
    let s = assignment[variables as int] as int;
    lemma_evaluate_two(
        TermView { coefficient: 1, variable: if_true.variable },
        TermView { coefficient: -1, variable: if_false.variable },
        assignment,
    );
    lemma_evaluate_one(TermView { coefficient: 1, variable: condition.variable }, assignment);
    lemma_evaluate_two(
        TermView { coefficient: 1, variable: next(variables) },
        TermView { coefficient: -1, variable: if_false.variable },
        assignment,
    );
    assert((1 * t + (-1) * f) * (1 * c) - (1 * s + (-1) * f) == 0) by (nonlinear_arith)
        requires
            0 <= c <= 1,
            s == if c != 0 {
                t
            } else {
                f
            },
    ;
}

/// The first constraint of a division with remainder holds:
/// `quotient * right = left - remainder`.
pub proof fn lemma_div_rem_holds(
    counter: nat,
    variables: nat,
    left: ElementView,
    right: ElementView,
    assignment: Seq<nat>,
)
    requires
        agrees(left, assignment),
        agrees(right, assignment),
        assigns(assignment, variables, quotient_of(left.value, right.value)),
        assigns(assignment, variables + 1, remainder_of(left.value, right.value)),
    ensures
        constraint_holds(div_rem_steps(counter, variables, left, right)[2], assignment),
{
    let n = left.value->Some_0 as int;
    let d = right.value->Some_0 as int;
    let q = assignment[variables as int] as int;
    let r = assignment[variables as int + 1] as int;
    lemma_evaluate_one(TermView { coefficient: 1, variable: next(variables) }, assignment);
    lemma_evaluate_one(TermView { coefficient: 1, variable: right.variable }, assignment);
    lemma_evaluate_two(
        TermView { coefficient: 1, variable: left.variable },
        TermView { coefficient: -1, variable: next(variables + 1) },
        assignment,
    );
    if d != 0 {
        lemma_fundamental_div_mod(n, d);
    }
    assert((1 * q) * (1 * d) - (1 * n + (-1) * r) == 0) by (nonlinear_arith)
        requires
            n == d * q + r,
    ;
}

} // verus!
