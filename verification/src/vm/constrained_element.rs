//! The element that carries a variable of the constraint system, and the
//! operator that builds the constraints of every operation on such elements.

use vstd::prelude::*;
use vstd::string::*;

use crate::bytecode::builtins::BuiltinIdentifier;
use crate::number::BigInteger;
use crate::text::decimal;
use crate::text::decimal_text;
use crate::text::digit_of;
use crate::text::lemma_decimal_digits;
use crate::text::lemma_decimal_value;
use crate::vm::constraint::allocated;
use crate::vm::constraint::lemma_allocated_push;
use crate::vm::constraint::minus;
use crate::vm::constraint::number;
use crate::vm::constraint::plus;
use crate::vm::constraint::Action;
use crate::vm::constraint::ActionView;
use crate::vm::constraint::LinearCombination;
use crate::vm::constraint::TermView;
use crate::vm::constraint::Variable;
use crate::vm::error::RuntimeError;
use crate::vm::field::comparison_bound;
use crate::vm::field::modulus;
use crate::vm::field::FieldElement;
use crate::vm::field::BITLENGTH_COMPARISON;

verus! {

/// An element of the machine: a variable of the constraint system and, where
/// the witness is known, the value of that variable.
#[derive(Debug, Clone, Copy)]
pub struct ConstrainedElement {
    pub value: Option<FieldElement>,
    pub variable: Variable,
}

/// An element with a number for its value.
pub struct ElementView {
    pub value: Option<nat>,
    pub variable: Variable,
}

impl View for ConstrainedElement {
    type V = ElementView;

    open spec fn view(&self) -> ElementView {
        ElementView { value: number(self.value), variable: self.variable }
    }
}

impl ConstrainedElement {
    /// The value, if there is one, is an element of the field.
    pub open spec fn wf(self) -> bool {
        self.value matches Some(value) ==> value.wf()
    }

    /// The value of the element, if the witness is known.
    pub fn value(&self) -> (value: Option<FieldElement>)
        ensures
            value == self.value,
    {
        self.value
    }

    /// The element as it is written: its value in decimal, or `none` where
    /// the witness is not known.
    pub open spec fn text(self) -> Seq<char> {
        match self.value {
            Some(value) => decimal(value.value()),
            None => "none"@,
        }
    }

    /// Writes the element.
    pub fn to_text(&self) -> (text: String)
        ensures
            text@ == self.text(),
    {
        match &self.value {
            Some(value) => value.to_decimal(),
            None => String::from_str("none"),
        }
    }

    /// The value of the element as an integer, if the witness is known.
    pub fn to_bigint(&self) -> (integer: Option<BigInteger>)
        ensures
            match integer {
                Some(integer) => self.value matches Some(value) && integer.value() == value.value(),
                None => self.value is None,
            },
    {
        match &self.value {
            Some(value) => Some(value.to_bigint()),
            None => None,
        }
    }
}

/// The variable that is allocated after `variables` others.
pub open spec fn next(variables: nat) -> Variable {
    Variable::Allocated(variables as usize)
}

/// The element of the constant one.
pub open spec fn one() -> ElementView {
    ElementView { value: Some(1nat), variable: Variable::One }
}

/// The sum of two values in the field.
pub open spec fn sum_of(left: Option<nat>, right: Option<nat>) -> Option<nat> {
    match (left, right) {
        (Some(l), Some(r)) => Some((l + r) % modulus()),
        _ => None,
    }
}

/// The difference of two values in the field.
pub open spec fn difference_of(left: Option<nat>, right: Option<nat>) -> Option<nat> {
    match (left, right) {
        (Some(l), Some(r)) => Some(((l + modulus() - r) % (modulus() as int)) as nat),
        _ => None,
    }
}

/// The negation of a value in the field.
pub open spec fn negation_of(value: Option<nat>) -> Option<nat> {
    match value {
        Some(v) => Some(((modulus() - v) % (modulus() as int)) as nat),
        None => None,
    }
}

/// The product of two values in the field.
pub open spec fn product_of(left: Option<nat>, right: Option<nat>) -> Option<nat> {
    match (left, right) {
        (Some(l), Some(r)) => Some((l * r) % modulus()),
        _ => None,
    }
}

/// The quotient of two values, taken as numbers; zero where the divisor
/// is zero.
pub open spec fn quotient_of(left: Option<nat>, right: Option<nat>) -> Option<nat> {
    match (left, right) {
        (Some(l), Some(r)) => Some(
            if r == 0 {
                0
            } else {
                l / r
            },
        ),
        _ => None,
    }
}

/// The remainder of two values, taken as numbers; the dividend where the
/// divisor is zero.
pub open spec fn remainder_of(left: Option<nat>, right: Option<nat>) -> Option<nat> {
    match (left, right) {
        (Some(l), Some(r)) => Some(
            if r == 0 {
                l
            } else {
                l % r
            },
        ),
        _ => None,
    }
}

/// The bit of "one of the two is not zero".
pub open spec fn disjunction_of(left: Option<nat>, right: Option<nat>) -> Option<nat> {
    match (left, right) {
        (Some(l), Some(r)) => Some(
            if l == 0 && r == 0 {
                0nat
            } else {
                1nat
            },
        ),
        _ => None,
    }
}

/// The bit of "exactly one of the two is zero".
pub open spec fn exclusion_of(left: Option<nat>, right: Option<nat>) -> Option<nat> {
    match (left, right) {
        (Some(l), Some(r)) => Some(
            if (l == 0) == (r == 0) {
                0nat
            } else {
                1nat
            },
        ),
        _ => None,
    }
}

/// The bit of "the two are equal".
pub open spec fn equality_of(left: Option<nat>, right: Option<nat>) -> Option<nat> {
    match (left, right) {
        (Some(l), Some(r)) => Some(
            if l == r {
                1nat
            } else {
                0nat
            },
        ),
        _ => None,
    }
}

/// The bit of "the value fits in the bits of a comparison".
pub open spec fn fitting_of(value: Option<nat>) -> Option<nat> {
    match value {
        Some(v) => Some(
            if v < comparison_bound() {
                1nat
            } else {
                0nat
            },
        ),
        None => None,
    }
}

/// The value that a condition selects: the first where the condition is
/// not zero, the second where it is zero, none where it is not known.
pub open spec fn selection_of(
    condition: Option<nat>,
    if_true: Option<nat>,
    if_false: Option<nat>,
) -> Option<nat> {
    match condition {
        Some(c) => if c != 0 {
            if_true
        } else {
            if_false
        },
        None => None,
    }
}

/// The steps that allocate a variable and lay one constraint, in one
/// namespace.
pub open spec fn constrained(
    namespace: nat,
    variable_name: Seq<char>,
    constraint_name: Seq<char>,
    value: Option<nat>,
    a: Seq<TermView>,
    b: Seq<TermView>,
    c: Seq<TermView>,
) -> Seq<ActionView> {
    seq![
        ActionView::Allocate { namespace, annotation: variable_name, value },
        ActionView::Enforce { namespace, annotation: constraint_name, a, b, c },
    ]
}

/// The result of an operation that allocates one variable.
pub open spec fn allocated_result(variables: nat, value: Option<nat>) -> ElementView {
    ElementView { value, variable: next(variables) }
}

/// The steps of a constant: `1 * value = constant`.
pub open spec fn constant_steps(
    counter: nat,
    variables: nat,
    constraint_name: Seq<char>,
    value: nat,
) -> Seq<ActionView> {
    constrained(
        counter,
        "constant value"@,
        constraint_name,
        Some(value),
        seq![plus(Variable::One)],
        seq![TermView { coefficient: value as int, variable: Variable::One }],
        seq![plus(next(variables))],
    )
}

/// The steps of an addition: `(left + right) * 1 = sum`.
pub open spec fn add_steps(counter: nat, variables: nat, left: ElementView, right: ElementView) -> Seq<
    ActionView,
> {
    constrained(
        counter,
        "sum variable"@,
        "sum constraint"@,
        sum_of(left.value, right.value),
        seq![plus(left.variable), plus(right.variable)],
        seq![plus(Variable::One)],
        seq![plus(next(variables))],
    )
}

/// The steps of a subtraction: `(left - right) * 1 = difference`.
pub open spec fn sub_steps(counter: nat, variables: nat, left: ElementView, right: ElementView) -> Seq<
    ActionView,
> {
    constrained(
        counter,
        "diff variable"@,
        "diff constraint"@,
        difference_of(left.value, right.value),
        seq![plus(left.variable), minus(right.variable)],
        seq![plus(Variable::One)],
        seq![plus(next(variables))],
    )
}

/// The result of a subtraction.
pub open spec fn sub_result(variables: nat, left: ElementView, right: ElementView) -> ElementView {
    allocated_result(variables, difference_of(left.value, right.value))
}

/// The steps of a multiplication: `left * right = product`.
pub open spec fn mul_steps(counter: nat, variables: nat, left: ElementView, right: ElementView) -> Seq<
    ActionView,
> {
    constrained(
        counter,
        "prod variable"@,
        "prod constraint"@,
        product_of(left.value, right.value),
        seq![plus(left.variable)],
        seq![plus(right.variable)],
        seq![plus(next(variables))],
    )
}

/// The steps of a negation: `element * 1 = -negation`.
pub open spec fn neg_steps(counter: nat, variables: nat, element: ElementView) -> Seq<ActionView> {
    constrained(
        counter,
        "neg variable"@,
        "neg constraint"@,
        negation_of(element.value),
        seq![plus(element.variable)],
        seq![plus(Variable::One)],
        seq![minus(next(variables))],
    )
}

/// The steps of a conjunction: `left * right = conjunction`.
pub open spec fn and_steps(counter: nat, variables: nat, left: ElementView, right: ElementView) -> Seq<
    ActionView,
> {
    constrained(
        counter,
        "and"@,
        "equality"@,
        product_of(left.value, right.value),
        seq![plus(left.variable)],
        seq![plus(right.variable)],
        seq![plus(next(variables))],
    )
}

/// The steps of a disjunction: `(1 - left) * (1 - right) = 1 - disjunction`.
pub open spec fn or_steps(counter: nat, variables: nat, left: ElementView, right: ElementView) -> Seq<
    ActionView,
> {
    constrained(
        counter,
        "or"@,
        "equality"@,
        disjunction_of(left.value, right.value),
        seq![plus(Variable::One), minus(left.variable)],
        seq![plus(Variable::One), minus(right.variable)],
        seq![plus(Variable::One), minus(next(variables))],
    )
}

/// The steps of an exclusive disjunction:
/// `(left + left) * right = left + right - exclusion`.
pub open spec fn xor_steps(counter: nat, variables: nat, left: ElementView, right: ElementView) -> Seq<
    ActionView,
> {
    constrained(
        counter,
        "conjunction"@,
        "equality"@,
        exclusion_of(left.value, right.value),
        seq![plus(left.variable), plus(left.variable)],
        seq![plus(right.variable)],
        seq![plus(left.variable), plus(right.variable), minus(next(variables))],
    )
}

/// The steps of a selection:
/// `(if_true - if_false) * condition = selection - if_false`.
pub open spec fn select_steps(
    counter: nat,
    variables: nat,
    condition: ElementView,
    if_true: ElementView,
    if_false: ElementView,
) -> Seq<ActionView> {
    constrained(
        counter,
        "variable"@,
        "constraint"@,
        selection_of(condition.value, if_true.value, if_false.value),
        seq![plus(if_true.variable), minus(if_false.variable)],
        seq![plus(condition.variable)],
        seq![plus(next(variables)), minus(if_false.variable)],
    )
}

/// The steps of an equality test.
pub open spec fn eq_steps(counter: nat, left: ElementView, right: ElementView) -> Seq<ActionView> {
    seq![
        ActionView::Equals {
            namespace: counter,
            left: left.variable,
            right: right.variable,
            value: equality_of(left.value, right.value),
        },
    ]
}

/// The steps of "lesser or equal": the difference `right - left`, and the
/// bit that says whether it fits in the bits of a comparison.
pub open spec fn le_steps(counter: nat, variables: nat, left: ElementView, right: ElementView) -> Seq<
    ActionView,
> {
    sub_steps(counter, variables, right, left) + seq![
        ActionView::FitsBits {
            namespace: counter + 1,
            operand: next(variables),
            bits: BITLENGTH_COMPARISON as nat,
            value: fitting_of(difference_of(right.value, left.value)),
        },
    ]
}

/// The result of "lesser or equal".
pub open spec fn le_result(variables: nat, left: ElementView, right: ElementView) -> ElementView {
    allocated_result(variables + 1, fitting_of(difference_of(right.value, left.value)))
}

/// The steps of "lesser": "lesser or equal" with `right - 1`.
pub open spec fn lt_steps(counter: nat, variables: nat, left: ElementView, right: ElementView) -> Seq<
    ActionView,
> {
    sub_steps(counter, variables, right, one()) + le_steps(
        counter + 1,
        variables + 1,
        left,
        sub_result(variables, right, one()),
    )
}

/// The result of "lesser".
pub open spec fn lt_result(variables: nat, left: ElementView, right: ElementView) -> ElementView {
    le_result(variables + 1, left, sub_result(variables, right, one()))
}

/// The steps of "greater or equal": "lesser", and its negation.
pub open spec fn ge_steps(counter: nat, variables: nat, left: ElementView, right: ElementView) -> Seq<
    ActionView,
> {
    lt_steps(counter, variables, left, right) + sub_steps(
        counter + 3,
        variables + 3,
        one(),
        lt_result(variables, left, right),
    )
}

/// The result of "greater or equal".
pub open spec fn ge_result(variables: nat, left: ElementView, right: ElementView) -> ElementView {
    sub_result(variables + 3, one(), lt_result(variables, left, right))
}

/// The steps of "greater": "lesser or equal", and its negation.
pub open spec fn gt_steps(counter: nat, variables: nat, left: ElementView, right: ElementView) -> Seq<
    ActionView,
> {
    le_steps(counter, variables, left, right) + sub_steps(
        counter + 2,
        variables + 2,
        one(),
        le_result(variables, left, right),
    )
}

/// The result of "greater".
pub open spec fn gt_result(variables: nat, left: ElementView, right: ElementView) -> ElementView {
    sub_result(variables + 2, one(), le_result(variables, left, right))
}

/// The steps of an inequality test: the equality test, and its negation.
pub open spec fn ne_steps(counter: nat, variables: nat, left: ElementView, right: ElementView) -> Seq<
    ActionView,
> {
    eq_steps(counter, left, right) + sub_steps(
        counter + 1,
        variables + 1,
        one(),
        allocated_result(variables, equality_of(left.value, right.value)),
    )
}

/// The result of an inequality test.
pub open spec fn ne_result(variables: nat, left: ElementView, right: ElementView) -> ElementView {
    sub_result(
        variables + 1,
        one(),
        allocated_result(variables, equality_of(left.value, right.value)),
    )
}

/// The variables of the elements.
pub open spec fn variables_of(elements: Seq<ConstrainedElement>) -> Seq<Variable> {
    elements.map_values(|element: ConstrainedElement| element.variable)
}

/// The numbers of the values.
pub open spec fn numbers_of(values: Seq<Option<FieldElement>>) -> Seq<Option<nat>> {
    values.map_values(|value: Option<FieldElement>| number(value))
}

/// The views of the elements.
pub open spec fn views_of(elements: Seq<ConstrainedElement>) -> Seq<ElementView> {
    elements.map_values(|element: ConstrainedElement| element@)
}

/// The steps that take a variable for each result of a built-in function.
pub open spec fn output_steps(namespace: nat, values: Seq<Option<nat>>) -> Seq<ActionView> {
    Seq::new(values.len(), |i: int| ActionView::Output { namespace, value: values[i] })
}

/// The results of a built-in function: the given values on the variables
/// that follow the first `variables`.
pub open spec fn output_elements(variables: nat, values: Seq<Option<nat>>) -> Seq<ElementView> {
    Seq::new(
        values.len(),
        |i: int| ElementView { value: values[i], variable: next((variables + i) as nat) },
    )
}

/// The steps of a built-in function: its call on the variables of the
/// inputs, and a variable for each of its results.
pub open spec fn builtin_steps(
    counter: nat,
    identifier: BuiltinIdentifier,
    inputs: Seq<Variable>,
    values: Seq<Option<nat>>,
) -> Seq<ActionView> {
    seq![
        ActionView::Builtin { namespace: counter, identifier, inputs, outputs: values.len() },
    ] + output_steps(counter, values)
}

/// The steps of a division with remainder: the quotient and the remainder
/// with `quotient * right = left - remainder`, then "remainder lesser than
/// right" and the constraint that this holds.
pub open spec fn div_rem_steps(
    counter: nat,
    variables: nat,
    left: ElementView,
    right: ElementView,
) -> Seq<ActionView> {
    let remainder = allocated_result(variables + 1, remainder_of(left.value, right.value));
    seq![
        ActionView::Allocate {
            namespace: counter,
            annotation: "quotient"@,
            value: quotient_of(left.value, right.value),
        },
        ActionView::Allocate {
            namespace: counter,
            annotation: "remainder"@,
            value: remainder_of(left.value, right.value),
        },
        ActionView::Enforce {
            namespace: counter,
            annotation: "equality"@,
            a: seq![plus(next(variables))],
            b: seq![plus(right.variable)],
            c: seq![plus(left.variable), minus(next(variables + 1))],
        },
    ] + lt_steps(counter + 1, variables + 2, remainder, right) + seq![
        ActionView::Enforce {
            namespace: counter + 4,
            annotation: "range"@,
            a: seq![plus(lt_result(variables + 2, remainder, right).variable)],
            b: seq![plus(Variable::One)],
            c: seq![plus(Variable::One)],
        },
    ]
}

/// The operator that computes on constrained elements. It keeps the steps
/// by which the constraint system is built, and numbers the namespaces of
/// its operations, so that the same operations build the same system.
#[derive(Debug)]
pub struct ConstrainedElementOperator {
    actions: Vec<Action>,
    counter: usize,
    variables: usize,
}

impl ConstrainedElementOperator {
    /// The steps taken so far.
    pub closed spec fn log(self) -> Seq<ActionView> {
        self.actions@.map_values(|action: Action| action@)
    }

    /// The number of namespaces opened so far.
    pub closed spec fn counter(self) -> nat {
        self.counter as nat
    }

    /// The number of variables allocated so far.
    pub closed spec fn variables(self) -> nat {
        self.variables as nat
    }

    /// The counts agree with the steps: as many variables as the steps
    /// allocate, and no more namespaces than steps.
    pub closed spec fn wf(self) -> bool {
        &&& self.counter <= self.actions@.len()
        &&& self.variables <= self.actions@.len()
        &&& self.variables == allocated(self.log())
    }

    /// The operator that has taken no step.
    pub fn new() -> (operator: Self)
        ensures
            operator.wf(),
            operator.log() == Seq::<ActionView>::empty(),
            operator.counter() == 0,
            operator.variables() == 0,
    {
        let operator = ConstrainedElementOperator { actions: Vec::new(), counter: 0, variables: 0 };
        assert(operator.log() =~= Seq::<ActionView>::empty());
        operator
    }

    /// The steps taken so far.
    pub fn actions(&self) -> (actions: &Vec<Action>)
        ensures
            actions@.map_values(|action: Action| action@) == self.log(),
    {
        &self.actions
    }

    /// The number of variables allocated so far.
    pub fn variables_count(&self) -> (count: usize)
        ensures
            count == self.variables(),
    {
        self.variables
    }

    /// The element of the constant one.
    pub fn one() -> (element: ConstrainedElement)
        ensures
            element.wf(),
            element@ == one(),
    {
        ConstrainedElement { value: Some(FieldElement::one()), variable: Variable::One }
    }

    /// Takes one step.
    fn record(&mut self, action: Action) -> (variable: Variable)
        requires
            old(self).wf(),
        ensures
            final(self).wf(),
            final(self).log() == old(self).log().push(action@),
            final(self).counter() == old(self).counter(),
            final(self).counter() < final(self).log().len(),
            variable == next(old(self).variables()),
            final(self).variables() == old(self).variables() + if action@.allocates() {
                1nat
            } else {
                0nat
            },
    {
        let allocates = match &action {
            Action::Enforce { .. } => false,
            Action::Builtin { .. } => false,
            _ => true,
        };
        let variable = Variable::Allocated(self.variables);
        proof {
            lemma_allocated_push(self.log(), action@);
            assert(self.actions@.push(action).map_values(|action: Action| action@)
                =~= self.log().push(action@));
        }
        self.actions.push(action);
        let length = self.actions.len();
        if allocates {
            self.variables = self.variables + 1;
        }
        variable
    }

    /// Closes the namespace of the last steps.
    fn cs_namespace(&mut self)
        requires
            old(self).wf(),
            old(self).counter() < old(self).log().len(),
        ensures
            final(self).wf(),
            final(self).log() == old(self).log(),
            final(self).counter() == old(self).counter() + 1,
            final(self).variables() == old(self).variables(),
    {
        let length = self.actions.len();
        self.counter = self.counter + 1;
    }

    /// Allocates a variable and lays one constraint, in a namespace of
    /// their own.
    fn constrain(
        &mut self,
        variable_name: &'static str,
        constraint_name: &'static str,
        value: Option<FieldElement>,
        a: LinearCombination,
        b: LinearCombination,
        c: LinearCombination,
    ) -> (element: ConstrainedElement)
        requires
            old(self).wf(),
        ensures
            final(self).wf(),
            final(self).log() == old(self).log() + constrained(
                old(self).counter(),
                variable_name@,
                constraint_name@,
                number(value),
                a@,
                b@,
                c@,
            ),
            final(self).counter() == old(self).counter() + 1,
            final(self).variables() == old(self).variables() + 1,
            element.value == value,
            element.variable == next(old(self).variables()),
    {
        let namespace = self.counter;
        let variable = self.record(Action::Allocate { namespace, annotation: variable_name, value });
        self.record(Action::Enforce { namespace, annotation: constraint_name, a, b, c });
        self.cs_namespace();
        assert(self.log() =~= old(self).log() + constrained(
            old(self).counter(),
            variable_name@,
            constraint_name@,
            number(value),
            a@,
            b@,
            c@,
        ));
        ConstrainedElement { value, variable }
    }

    /// The variable that the next allocation gives.
    fn next_variable(&self) -> (variable: Variable)
        ensures
            variable == next(self.variables()),
    {
        Variable::Allocated(self.variables)
    }

    /// The constant of the given value: `1 * value = constant`.
    pub fn constant_u64(&mut self, value: u64) -> (result: Result<ConstrainedElement, RuntimeError>)
        requires
            old(self).wf(),
        ensures
            final(self).wf(),
            result matches Ok(element) && element.wf() && element@ == allocated_result(
                old(self).variables(),
                Some(value as nat),
            ),
            final(self).log() == old(self).log() + constant_steps(
                old(self).counter(),
                old(self).variables(),
                "constant constraint"@,
                value as nat,
            ),
            final(self).counter() == old(self).counter() + 1,
            final(self).variables() == old(self).variables() + 1,
    {
        let text = decimal_text(value);
        proof {
            lemma_decimal_value(value as nat);
        }
        let element = match FieldElement::from_decimal(text.as_str()) {
            Some(element) => element,
            None => return Err(RuntimeError::InternalError),
        };
        Ok(self.constant(element, "constant constraint"))
    }

    /// The constant of the given value, brought into the field:
    /// `1 * value = constant`. A negative value is refused.
    pub fn constant_bigint(&mut self, value: &BigInteger) -> (result: Result<
        ConstrainedElement,
        RuntimeError,
    >)
        requires
            old(self).wf(),
        ensures
            final(self).wf(),
            value.value() >= 0 ==> {
                &&& result matches Ok(element) && element.wf() && element@ == allocated_result(
                    old(self).variables(),
                    Some(value.value() as nat % modulus()),
                )
                &&& final(self).log() == old(self).log() + constant_steps(
                    old(self).counter(),
                    old(self).variables(),
                    "constant equation"@,
                    value.value() as nat % modulus(),
                )
                &&& final(self).counter() == old(self).counter() + 1
                &&& final(self).variables() == old(self).variables() + 1
            },
            value.value() < 0 ==> {
                &&& result == Err::<ConstrainedElement, RuntimeError>(RuntimeError::InternalError)
                &&& final(self).log() == old(self).log()
                &&& final(self).counter() == old(self).counter()
                &&& final(self).variables() == old(self).variables()
            },
    {
        let text = value.to_decimal();
        proof {
            if value.value() >= 0 {
                lemma_decimal_value(value.value() as nat);
            } else {
                let digits = decimal((-value.value()) as nat);
                assert forall|n: nat| text@ != #[trigger] decimal(n) by {
                    lemma_decimal_digits(n);
                    assert(text@[0] == '-');
                    assert(digit_of(decimal(n)[0]) < 10);
                }
            }
        }
        let element = match FieldElement::from_decimal(text.as_str()) {
            Some(element) => element,
            None => return Err(RuntimeError::InternalError),
        };
        Ok(self.constant(element, "constant equation"))
    }

    /// Allocates a constant and lays its constraint.
    fn constant(&mut self, value: FieldElement, constraint_name: &'static str) -> (element:
        ConstrainedElement)
        requires
            old(self).wf(),
            value.wf(),
        ensures
            final(self).wf(),
            element.wf(),
            element@ == allocated_result(old(self).variables(), Some(value.value())),
            final(self).log() == old(self).log() + constant_steps(
                old(self).counter(),
                old(self).variables(),
                constraint_name@,
                value.value(),
            ),
            final(self).counter() == old(self).counter() + 1,
            final(self).variables() == old(self).variables() + 1,
    {
        let variable = self.next_variable();
        let a = LinearCombination::zero().plus(Variable::One);
        let b = LinearCombination::zero().plus_scaled(value, Variable::One);
        let c = LinearCombination::zero().plus(variable);
        assert(a@ =~= seq![plus(Variable::One)]);
        assert(b@ =~= seq![TermView { coefficient: value.value() as int, variable: Variable::One }]);
        assert(c@ =~= seq![plus(variable)]);
        self.constrain("constant value", constraint_name, Some(value), a, b, c)
    }

    /// The sum of two elements: `(left + right) * 1 = sum`.
    pub fn add(&mut self, left: ConstrainedElement, right: ConstrainedElement) -> (result: Result<
        ConstrainedElement,
        RuntimeError,
    >)
        requires
            old(self).wf(),
            left.wf(),
            right.wf(),
        ensures
            final(self).wf(),
            result matches Ok(element) && element.wf() && element@ == allocated_result(
                old(self).variables(),
                sum_of(left@.value, right@.value),
            ),
            final(self).log() == old(self).log() + add_steps(
                old(self).counter(),
                old(self).variables(),
                left@,
                right@,
            ),
            final(self).counter() == old(self).counter() + 1,
            final(self).variables() == old(self).variables() + 1,
    {
        let sum = match (left.value, right.value) {
            (Some(l), Some(r)) => Some(l.add(&r)),
            _ => None,
        };
        let variable = self.next_variable();
        let a = LinearCombination::zero().plus(left.variable).plus(right.variable);
        let b = LinearCombination::zero().plus(Variable::One);
        let c = LinearCombination::zero().plus(variable);
        assert(a@ =~= seq![plus(left.variable), plus(right.variable)]);
        assert(b@ =~= seq![plus(Variable::One)]);
        assert(c@ =~= seq![plus(variable)]);
        Ok(self.constrain("sum variable", "sum constraint", sum, a, b, c))
    }

    /// The difference of two elements: `(left - right) * 1 = difference`.
    pub fn sub(&mut self, left: ConstrainedElement, right: ConstrainedElement) -> (result: Result<
        ConstrainedElement,
        RuntimeError,
    >)
        requires
            old(self).wf(),
            left.wf(),
            right.wf(),
        ensures
            final(self).wf(),
            result matches Ok(element) && element.wf() && element@ == sub_result(
                old(self).variables(),
                left@,
                right@,
            ),
            final(self).log() == old(self).log() + sub_steps(
                old(self).counter(),
                old(self).variables(),
                left@,
                right@,
            ),
            final(self).counter() == old(self).counter() + 1,
            final(self).variables() == old(self).variables() + 1,
    {
        let difference = match (left.value, right.value) {
            (Some(l), Some(r)) => Some(l.sub(&r)),
            _ => None,
        };
        let variable = self.next_variable();
        let a = LinearCombination::zero().plus(left.variable).minus(right.variable);
        let b = LinearCombination::zero().plus(Variable::One);
        let c = LinearCombination::zero().plus(variable);
        assert(a@ =~= seq![plus(left.variable), minus(right.variable)]);
        assert(b@ =~= seq![plus(Variable::One)]);
        assert(c@ =~= seq![plus(variable)]);
        Ok(self.constrain("diff variable", "diff constraint", difference, a, b, c))
    }

    /// The product of two elements: `left * right = product`.
    pub fn mul(&mut self, left: ConstrainedElement, right: ConstrainedElement) -> (result: Result<
        ConstrainedElement,
        RuntimeError,
    >)
        requires
            old(self).wf(),
            left.wf(),
            right.wf(),
        ensures
            final(self).wf(),
            result matches Ok(element) && element.wf() && element@ == allocated_result(
                old(self).variables(),
                product_of(left@.value, right@.value),
            ),
            final(self).log() == old(self).log() + mul_steps(
                old(self).counter(),
                old(self).variables(),
                left@,
                right@,
            ),
            final(self).counter() == old(self).counter() + 1,
            final(self).variables() == old(self).variables() + 1,
    {
        let product = match (left.value, right.value) {
            (Some(l), Some(r)) => Some(l.mul(&r)),
            _ => None,
        };
        let variable = self.next_variable();
        let a = LinearCombination::zero().plus(left.variable);
        let b = LinearCombination::zero().plus(right.variable);
        let c = LinearCombination::zero().plus(variable);
        assert(a@ =~= seq![plus(left.variable)]);
        assert(b@ =~= seq![plus(right.variable)]);
        assert(c@ =~= seq![plus(variable)]);
        Ok(self.constrain("prod variable", "prod constraint", product, a, b, c))
    }

    /// The quotient and the remainder of two elements, taken as numbers:
    /// `quotient * right = left - remainder`, with the remainder lesser than
    /// `right`. Where `right` is zero no remainder is lesser, and the
    /// constraints cannot be met.
    pub fn div_rem(&mut self, left: ConstrainedElement, right: ConstrainedElement) -> (result:
        Result<(ConstrainedElement, ConstrainedElement), RuntimeError>)
        requires
            old(self).wf(),
            left.wf(),
            right.wf(),
        ensures
            final(self).wf(),
            result matches Ok((quotient, remainder)) && quotient.wf() && remainder.wf()
                && quotient@ == allocated_result(
                old(self).variables(),
                quotient_of(left@.value, right@.value),
            ) && remainder@ == allocated_result(
                old(self).variables() + 1,
                remainder_of(left@.value, right@.value),
            ),
            final(self).log() == old(self).log() + div_rem_steps(
                old(self).counter(),
                old(self).variables(),
                left@,
                right@,
            ),
            final(self).counter() == old(self).counter() + 5,
            final(self).variables() == old(self).variables() + 5,
    {
        let (quotient, remainder) = match (left.value, right.value) {
            (Some(nominator), Some(denominator)) => if denominator.is_zero() {
                (Some(FieldElement::zero()), Some(nominator))
            } else {
                let (q, r) = nominator.div_rem(&denominator);
                (Some(q), Some(r))
            },
            _ => (None, None),
        };
        let namespace = self.counter;
        let quotient_variable = self.record(
            Action::Allocate { namespace, annotation: "quotient", value: quotient },
        );
        let remainder_variable = self.record(
            Action::Allocate { namespace, annotation: "remainder", value: remainder },
        );
        let a = LinearCombination::zero().plus(quotient_variable);
        let b = LinearCombination::zero().plus(right.variable);
        let c = LinearCombination::zero().plus(left.variable).minus(remainder_variable);
        assert(a@ =~= seq![plus(quotient_variable)]);
        assert(b@ =~= seq![plus(right.variable)]);
        assert(c@ =~= seq![plus(left.variable), minus(remainder_variable)]);
        self.record(Action::Enforce { namespace, annotation: "equality", a, b, c });
        self.cs_namespace();

        let quotient_element = ConstrainedElement { value: quotient, variable: quotient_variable };
        let remainder_element = ConstrainedElement {
            value: remainder,
            variable: remainder_variable,
        };
        let in_range = match self.lt(remainder_element, right) {
            Ok(in_range) => in_range,
            Err(error) => return Err(error),
        };
        let namespace = self.counter;
        let a = LinearCombination::zero().plus(in_range.variable);
        let b = LinearCombination::zero().plus(Variable::One);
        let c = LinearCombination::zero().plus(Variable::One);
        assert(a@ =~= seq![plus(in_range.variable)]);
        assert(b@ =~= seq![plus(Variable::One)]);
        assert(c@ =~= seq![plus(Variable::One)]);
        self.record(Action::Enforce { namespace, annotation: "range", a, b, c });
        self.cs_namespace();
        assert(self.log() =~= old(self).log() + div_rem_steps(
            old(self).counter(),
            old(self).variables(),
            left@,
            right@,
        ));
        Ok((quotient_element, remainder_element))
    }

    /// The negation of an element: `element * 1 = -negation`.
    pub fn neg(&mut self, element: ConstrainedElement) -> (result: Result<
        ConstrainedElement,
        RuntimeError,
    >)
        requires
            old(self).wf(),
            element.wf(),
        ensures
            final(self).wf(),
            result matches Ok(negation) && negation.wf() && negation@ == allocated_result(
                old(self).variables(),
                negation_of(element@.value),
            ),
            final(self).log() == old(self).log() + neg_steps(
                old(self).counter(),
                old(self).variables(),
                element@,
            ),
            final(self).counter() == old(self).counter() + 1,
            final(self).variables() == old(self).variables() + 1,
    {
        let negation = match element.value {
            Some(value) => Some(FieldElement::zero().sub(&value)),
            None => None,
        };
        let variable = self.next_variable();
        let a = LinearCombination::zero().plus(element.variable);
        let b = LinearCombination::zero().plus(Variable::One);
        let c = LinearCombination::zero().minus(variable);
        assert(a@ =~= seq![plus(element.variable)]);
        assert(b@ =~= seq![plus(Variable::One)]);
        assert(c@ =~= seq![minus(variable)]);
        Ok(self.constrain("neg variable", "neg constraint", negation, a, b, c))
    }

    /// The logical negation of an element: one minus the element.
    pub fn not(&mut self, element: ConstrainedElement) -> (result: Result<
        ConstrainedElement,
        RuntimeError,
    >)
        requires
            old(self).wf(),
            element.wf(),
        ensures
            final(self).wf(),
            result matches Ok(negation) && negation.wf() && negation@ == sub_result(
                old(self).variables(),
                one(),
                element@,
            ),
            final(self).log() == old(self).log() + sub_steps(
                old(self).counter(),
                old(self).variables(),
                one(),
                element@,
            ),
            final(self).counter() == old(self).counter() + 1,
            final(self).variables() == old(self).variables() + 1,
    {
        let one = Self::one();
        self.sub(one, element)
    }

    /// The conjunction of two elements: `left * right = conjunction`.
    pub fn and(&mut self, left: ConstrainedElement, right: ConstrainedElement) -> (result: Result<
        ConstrainedElement,
        RuntimeError,
    >)
        requires
            old(self).wf(),
            left.wf(),
            right.wf(),
        ensures
            final(self).wf(),
            result matches Ok(element) && element.wf() && element@ == allocated_result(
                old(self).variables(),
                product_of(left@.value, right@.value),
            ),
            final(self).log() == old(self).log() + and_steps(
                old(self).counter(),
                old(self).variables(),
                left@,
                right@,
            ),
            final(self).counter() == old(self).counter() + 1,
            final(self).variables() == old(self).variables() + 1,
    {
        let conjunction = match (left.value, right.value) {
            (Some(l), Some(r)) => Some(l.mul(&r)),
            _ => None,
        };
        let variable = self.next_variable();
        let a = LinearCombination::zero().plus(left.variable);
        let b = LinearCombination::zero().plus(right.variable);
        let c = LinearCombination::zero().plus(variable);
        assert(a@ =~= seq![plus(left.variable)]);
        assert(b@ =~= seq![plus(right.variable)]);
        assert(c@ =~= seq![plus(variable)]);
        Ok(self.constrain("and", "equality", conjunction, a, b, c))
    }

    /// The disjunction of two elements:
    /// `(1 - left) * (1 - right) = 1 - disjunction`.
    pub fn or(&mut self, left: ConstrainedElement, right: ConstrainedElement) -> (result: Result<
        ConstrainedElement,
        RuntimeError,
    >)
        requires
            old(self).wf(),
            left.wf(),
            right.wf(),
        ensures
            final(self).wf(),
            result matches Ok(element) && element.wf() && element@ == allocated_result(
                old(self).variables(),
                disjunction_of(left@.value, right@.value),
            ),
            final(self).log() == old(self).log() + or_steps(
                old(self).counter(),
                old(self).variables(),
                left@,
                right@,
            ),
            final(self).counter() == old(self).counter() + 1,
            final(self).variables() == old(self).variables() + 1,
    {
        let disjunction = match (left.value, right.value) {
            (Some(l), Some(r)) => if l.is_zero() && r.is_zero() {
                Some(FieldElement::zero())
            } else {
                Some(FieldElement::one())
            },
            _ => None,
        };
        let variable = self.next_variable();
        let a = LinearCombination::zero().plus(Variable::One).minus(left.variable);
        let b = LinearCombination::zero().plus(Variable::One).minus(right.variable);
        let c = LinearCombination::zero().plus(Variable::One).minus(variable);
        assert(a@ =~= seq![plus(Variable::One), minus(left.variable)]);
        assert(b@ =~= seq![plus(Variable::One), minus(right.variable)]);
        assert(c@ =~= seq![plus(Variable::One), minus(variable)]);
        Ok(self.constrain("or", "equality", disjunction, a, b, c))
    }

    /// The exclusive disjunction of two elements:
    /// `(left + left) * right = left + right - exclusion`.
    pub fn xor(&mut self, left: ConstrainedElement, right: ConstrainedElement) -> (result: Result<
        ConstrainedElement,
        RuntimeError,
    >)
        requires
            old(self).wf(),
            left.wf(),
            right.wf(),
        ensures
            final(self).wf(),
            result matches Ok(element) && element.wf() && element@ == allocated_result(
                old(self).variables(),
                exclusion_of(left@.value, right@.value),
            ),
            final(self).log() == old(self).log() + xor_steps(
                old(self).counter(),
                old(self).variables(),
                left@,
                right@,
            ),
            final(self).counter() == old(self).counter() + 1,
            final(self).variables() == old(self).variables() + 1,
    {
        let exclusion = match (left.value, right.value) {
            (Some(l), Some(r)) => if l.is_zero() == r.is_zero() {
                Some(FieldElement::zero())
            } else {
                Some(FieldElement::one())
            },
            _ => None,
        };
        let variable = self.next_variable();
        let a = LinearCombination::zero().plus(left.variable).plus(left.variable);
        let b = LinearCombination::zero().plus(right.variable);
        let c = LinearCombination::zero().plus(left.variable).plus(right.variable).minus(variable);
        assert(a@ =~= seq![plus(left.variable), plus(left.variable)]);
        assert(b@ =~= seq![plus(right.variable)]);
        assert(c@ =~= seq![plus(left.variable), plus(right.variable), minus(variable)]);
        Ok(self.constrain("conjunction", "equality", exclusion, a, b, c))
    }

    /// The element that the condition selects:
    /// `(if_true - if_false) * condition = selection - if_false`.
    pub fn conditional_select(
        &mut self,
        condition: ConstrainedElement,
        if_true: ConstrainedElement,
        if_false: ConstrainedElement,
    ) -> (result: Result<ConstrainedElement, RuntimeError>)
        requires
            old(self).wf(),
            condition.wf(),
            if_true.wf(),
            if_false.wf(),
        ensures
            final(self).wf(),
            result matches Ok(element) && element.wf() && element@ == allocated_result(
                old(self).variables(),
                selection_of(condition@.value, if_true@.value, if_false@.value),
            ),
            final(self).log() == old(self).log() + select_steps(
                old(self).counter(),
                old(self).variables(),
                condition@,
                if_true@,
                if_false@,
            ),
            final(self).counter() == old(self).counter() + 1,
            final(self).variables() == old(self).variables() + 1,
    {
        let selection = match condition.value {
            Some(value) => if !value.is_zero() {
                if_true.value
            } else {
                if_false.value
            },
            None => None,
        };
        let variable = self.next_variable();
        let a = LinearCombination::zero().plus(if_true.variable).minus(if_false.variable);
        let b = LinearCombination::zero().plus(condition.variable);
        let c = LinearCombination::zero().plus(variable).minus(if_false.variable);
        assert(a@ =~= seq![plus(if_true.variable), minus(if_false.variable)]);
        assert(b@ =~= seq![plus(condition.variable)]);
        assert(c@ =~= seq![plus(variable), minus(if_false.variable)]);
        Ok(self.constrain("variable", "constraint", selection, a, b, c))
    }

    /// Records the call of a built-in function on the given inputs, and
    /// takes a variable for each of its results, whose values in the witness
    /// are given.
    pub fn builtin(
        &mut self,
        identifier: BuiltinIdentifier,
        inputs: &Vec<ConstrainedElement>,
        values: &Vec<Option<FieldElement>>,
    ) -> (outputs: Vec<ConstrainedElement>)
        requires
            old(self).wf(),
            forall|i: int|
                0 <= i < values@.len() ==> ((#[trigger] values@[i]) matches Some(value)
                    ==> value.wf()),
        ensures
            final(self).wf(),
            views_of(outputs@) == output_elements(old(self).variables(), numbers_of(values@)),
            forall|i: int| 0 <= i < outputs@.len() ==> (#[trigger] outputs@[i]).wf(),
            final(self).log() == old(self).log() + builtin_steps(
                old(self).counter(),
                identifier,
                variables_of(inputs@),
                numbers_of(values@),
            ),
            final(self).counter() == old(self).counter() + 1,
            final(self).variables() == old(self).variables() + values@.len(),
    {
        let mut variables: Vec<Variable> = Vec::new();
        let mut i: usize = 0;
        while i < inputs.len()
            invariant
                i <= inputs@.len(),
                variables@ =~= variables_of(inputs@).subrange(0, i as int),
            decreases inputs@.len() - i,
        {
            variables.push(inputs[i].variable);
            i += 1;
        }
        assert(variables@ =~= variables_of(inputs@));
        let namespace = self.counter;
        self.record(
            Action::Builtin { namespace, identifier, inputs: variables, outputs: values.len() },
        );
        let ghost numbers = numbers_of(values@);
        let ghost steps = builtin_steps(
            old(self).counter(),
            identifier,
            variables_of(inputs@),
            numbers,
        );
        let ghost elements = output_elements(old(self).variables(), numbers);
        let mut outputs: Vec<ConstrainedElement> = Vec::new();
        let mut j: usize = 0;
        assert(self.log() =~= old(self).log() + steps.subrange(0, 1));
        while j < values.len()
            invariant
                j <= values@.len(),
                self.wf(),
                namespace == old(self).counter(),
                numbers == numbers_of(values@),
                steps == builtin_steps(
                    old(self).counter(),
                    identifier,
                    variables_of(inputs@),
                    numbers,
                ),
                elements == output_elements(old(self).variables(), numbers),
                self.log() == old(self).log() + steps.subrange(0, j + 1),
                self.counter() == old(self).counter(),
                self.counter() < self.log().len(),
                self.variables() == old(self).variables() + j,
                outputs@.len() == j,
                views_of(outputs@) =~= elements.subrange(0, j as int),
                forall|i: int| 0 <= i < outputs@.len() ==> (#[trigger] outputs@[i]).wf(),
                forall|i: int|
                    0 <= i < values@.len() ==> ((#[trigger] values@[i]) matches Some(value)
                        ==> value.wf()),
            decreases values@.len() - j,
        {
            let value = values[j];
            let variable = self.record(Action::Output { namespace, value });
            outputs.push(ConstrainedElement { value, variable });
            assert(steps[j + 1] == (ActionView::Output {
                namespace: namespace as nat,
                value: number(value),
            }));
            assert(self.log() =~= old(self).log() + steps.subrange(0, j + 2));
            j += 1;
        }
        self.cs_namespace();
        assert(steps.subrange(0, j + 1) =~= steps);
        assert(elements.subrange(0, j as int) =~= elements);
        outputs
    }

    /// The bit that says whether two elements are equal.
    pub fn eq(&mut self, left: ConstrainedElement, right: ConstrainedElement) -> (result: Result<
        ConstrainedElement,
        RuntimeError,
    >)
        requires
            old(self).wf(),
            left.wf(),
            right.wf(),
        ensures
            final(self).wf(),
            result matches Ok(element) && element.wf() && element@ == allocated_result(
                old(self).variables(),
                equality_of(left@.value, right@.value),
            ),
            final(self).log() == old(self).log() + eq_steps(old(self).counter(), left@, right@),
            final(self).counter() == old(self).counter() + 1,
            final(self).variables() == old(self).variables() + 1,
    {
        let value = match (left.value, right.value) {
            (Some(l), Some(r)) => if l.sub(&r).is_zero() {
                proof {
                    lemma_zero_difference(l.value(), r.value());
                }
                Some(FieldElement::one())
            } else {
                proof {
                    lemma_zero_difference(l.value(), r.value());
                }
                Some(FieldElement::zero())
            },
            _ => None,
        };
        let namespace = self.counter;
        let variable = self.record(
            Action::Equals { namespace, left: left.variable, right: right.variable, value },
        );
        self.cs_namespace();
        assert(self.log() =~= old(self).log() + eq_steps(old(self).counter(), left@, right@));
        Ok(ConstrainedElement { value, variable })
    }

    /// The bit that says whether `left` is lesser than `right` or equal to
    /// it: whether the difference `right - left` fits in the bits of a
    /// comparison.
    pub fn le(&mut self, left: ConstrainedElement, right: ConstrainedElement) -> (result: Result<
        ConstrainedElement,
        RuntimeError,
    >)
        requires
            old(self).wf(),
            left.wf(),
            right.wf(),
        ensures
            final(self).wf(),
            result matches Ok(element) && element.wf() && element@ == le_result(
                old(self).variables(),
                left@,
                right@,
            ),
            final(self).log() == old(self).log() + le_steps(
                old(self).counter(),
                old(self).variables(),
                left@,
                right@,
            ),
            final(self).counter() == old(self).counter() + 2,
            final(self).variables() == old(self).variables() + 2,
    {
        let difference = match self.sub(right, left) {
            Ok(difference) => difference,
            Err(error) => return Err(error),
        };
        let value = match difference.value {
            Some(d) => if d.fits_comparison() {
                Some(FieldElement::one())
            } else {
                Some(FieldElement::zero())
            },
            None => None,
        };
        let namespace = self.counter;
        let variable = self.record(
            Action::FitsBits {
                namespace,
                operand: difference.variable,
                bits: BITLENGTH_COMPARISON,
                value,
            },
        );
        self.cs_namespace();
        assert(self.log() =~= old(self).log() + le_steps(
            old(self).counter(),
            old(self).variables(),
            left@,
            right@,
        ));
        Ok(ConstrainedElement { value, variable })
    }

    /// The bit that says whether `left` is lesser than `right`: whether
    /// `left` is lesser than `right - 1` or equal to it.
    pub fn lt(&mut self, left: ConstrainedElement, right: ConstrainedElement) -> (result: Result<
        ConstrainedElement,
        RuntimeError,
    >)
        requires
            old(self).wf(),
            left.wf(),
            right.wf(),
        ensures
            final(self).wf(),
            result matches Ok(element) && element.wf() && element@ == lt_result(
                old(self).variables(),
                left@,
                right@,
            ),
            final(self).log() == old(self).log() + lt_steps(
                old(self).counter(),
                old(self).variables(),
                left@,
                right@,
            ),
            final(self).counter() == old(self).counter() + 3,
            final(self).variables() == old(self).variables() + 3,
    {
        let one = Self::one();
        let right_minus_one = match self.sub(right, one) {
            Ok(difference) => difference,
            Err(error) => return Err(error),
        };
        let result = self.le(left, right_minus_one);
        assert(self.log() =~= old(self).log() + lt_steps(
            old(self).counter(),
            old(self).variables(),
            left@,
            right@,
        ));
        result
    }

    /// The bit that says whether two elements differ: the negation of their
    /// equality.
    pub fn ne(&mut self, left: ConstrainedElement, right: ConstrainedElement) -> (result: Result<
        ConstrainedElement,
        RuntimeError,
    >)
        requires
            old(self).wf(),
            left.wf(),
            right.wf(),
        ensures
            final(self).wf(),
            result matches Ok(element) && element.wf() && element@ == ne_result(
                old(self).variables(),
                left@,
                right@,
            ),
            final(self).log() == old(self).log() + ne_steps(
                old(self).counter(),
                old(self).variables(),
                left@,
                right@,
            ),
            final(self).counter() == old(self).counter() + 2,
            final(self).variables() == old(self).variables() + 2,
    {
        let equality = match self.eq(left, right) {
            Ok(equality) => equality,
            Err(error) => return Err(error),
        };
        let result = self.not(equality);
        assert(self.log() =~= old(self).log() + ne_steps(
            old(self).counter(),
            old(self).variables(),
            left@,
            right@,
        ));
        result
    }

    /// The bit that says whether `left` is greater than `right` or equal to
    /// it: the negation of "lesser".
    pub fn ge(&mut self, left: ConstrainedElement, right: ConstrainedElement) -> (result: Result<
        ConstrainedElement,
        RuntimeError,
    >)
        requires
            old(self).wf(),
            left.wf(),
            right.wf(),
        ensures
            final(self).wf(),
            result matches Ok(element) && element.wf() && element@ == ge_result(
                old(self).variables(),
                left@,
                right@,
            ),
            final(self).log() == old(self).log() + ge_steps(
                old(self).counter(),
                old(self).variables(),
                left@,
                right@,
            ),
            final(self).counter() == old(self).counter() + 4,
            final(self).variables() == old(self).variables() + 4,
    {
        let not_ge = match self.lt(left, right) {
            Ok(lesser) => lesser,
            Err(error) => return Err(error),
        };
        let result = self.not(not_ge);
        assert(self.log() =~= old(self).log() + ge_steps(
            old(self).counter(),
            old(self).variables(),
            left@,
            right@,
        ));
        result
    }

    /// The bit that says whether `left` is greater than `right`: the
    /// negation of "lesser or equal".
    pub fn gt(&mut self, left: ConstrainedElement, right: ConstrainedElement) -> (result: Result<
        ConstrainedElement,
        RuntimeError,
    >)
        requires
            old(self).wf(),
            left.wf(),
            right.wf(),
        ensures
            final(self).wf(),
            result matches Ok(element) && element.wf() && element@ == gt_result(
                old(self).variables(),
                left@,
                right@,
            ),
            final(self).log() == old(self).log() + gt_steps(
                old(self).counter(),
                old(self).variables(),
                left@,
                right@,
            ),
            final(self).counter() == old(self).counter() + 3,
            final(self).variables() == old(self).variables() + 3,
    {
        let not_gt = match self.le(left, right) {
            Ok(lesser) => lesser,
            Err(error) => return Err(error),
        };
        let result = self.not(not_gt);
        assert(self.log() =~= old(self).log() + gt_steps(
            old(self).counter(),
            old(self).variables(),
            left@,
            right@,
        ));
        result
    }
}

/// Two elements of the field are equal where their difference in the field
/// is zero.
proof fn lemma_zero_difference(l: nat, r: nat)
    requires
        l < modulus(),
        r < modulus(),
    ensures
        ((l + modulus() - r) % (modulus() as int) == 0) <==> l == r,
{
    let p = modulus() as int;
    let d = l + p - r;
    if l >= r {
        if l == r {
            assert(d % p == 0) by {
                vstd::arithmetic::div_mod::lemma_mod_self_0(p);
            }
        } else {
            assert(d % p == l - r) by {
                vstd::arithmetic::div_mod::lemma_mod_add_multiples_vanish(l - r, p);
                vstd::arithmetic::div_mod::lemma_small_mod((l - r) as nat, p as nat);
            }
        }
    } else {
        assert(d % p == d) by {
            vstd::arithmetic::div_mod::lemma_small_mod(d as nat, p as nat);
        }
    }
}

} // verus!
