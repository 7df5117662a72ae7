//! The constraint system that the machine builds: the variables it
//! allocates and the constraints it lays on them, in the order in which it
//! does so.

use vstd::prelude::*;

use crate::bytecode::builtins::BuiltinIdentifier;
use crate::vm::field::FieldElement;

verus! {

/// A variable of the constraint system.
#[derive(Debug, Clone, Copy, PartialEq, Eq, Structural)]
pub enum Variable {
    /// The variable that is always one.
    One,
    /// The variable that was allocated as the given one, counted from zero.
    Allocated(usize),
}

/// A variable with a coefficient of the field, added to or taken from a
/// linear combination.
#[derive(Debug, Clone, Copy, PartialEq, Eq)]
pub struct Term {
    pub negative: bool,
    pub coefficient: FieldElement,
    pub variable: Variable,
}

/// A term as a whole number times a variable.
pub struct TermView {
    pub coefficient: int,
    pub variable: Variable,
}

impl View for Term {
    type V = TermView;

    open spec fn view(&self) -> TermView {
        TermView {
            coefficient: if self.negative {
                -(self.coefficient.value() as int)
            } else {
                self.coefficient.value() as int
            },
            variable: self.variable,
        }
    }
}

/// A sum of terms.
#[derive(Debug, Clone, PartialEq, Eq)]
pub struct LinearCombination {
    pub terms: Vec<Term>,
}

impl View for LinearCombination {
    type V = Seq<TermView>;

    open spec fn view(&self) -> Seq<TermView> {
        self.terms@.map_values(|term: Term| term@)
    }
}

/// The term of a variable taken once.
pub open spec fn plus(variable: Variable) -> TermView {
    TermView { coefficient: 1, variable }
}

/// The term of a variable taken away once.
pub open spec fn minus(variable: Variable) -> TermView {
    TermView { coefficient: -1, variable }
}

impl LinearCombination {
    /// The empty sum.
    pub fn zero() -> (combination: Self)
        ensures
            combination@ == Seq::<TermView>::empty(),
    {
        let combination = LinearCombination { terms: Vec::new() };
        assert(combination@ =~= Seq::<TermView>::empty());
        combination
    }

    /// The sum with one more term.
    fn with(self, term: Term) -> (combination: Self)
        ensures
            combination@ == self@.push(term@),
    {
        let mut terms = self.terms;
        terms.push(term);
        let combination = LinearCombination { terms };
        assert(combination@ =~= self@.push(term@));
        combination
    }

    /// The sum and the variable.
    pub fn plus(self, variable: Variable) -> (combination: Self)
        ensures
            combination@ == self@.push(plus(variable)),
    {
        self.with(Term { negative: false, coefficient: FieldElement::one(), variable })
    }

    /// The sum without the variable.
    pub fn minus(self, variable: Variable) -> (combination: Self)
        ensures
            combination@ == self@.push(minus(variable)),
    {
        self.with(Term { negative: true, coefficient: FieldElement::one(), variable })
    }

    /// The sum and the variable times the coefficient.
    pub fn plus_scaled(self, coefficient: FieldElement, variable: Variable) -> (combination: Self)
        ensures
            combination@ == self@.push(
                TermView { coefficient: coefficient.value() as int, variable },
            ),
    {
        self.with(Term { negative: false, coefficient, variable })
    }
}

/// One step of building the constraint system.
#[derive(Debug, Clone, PartialEq, Eq)]
pub enum Action {
    /// Allocates the next variable, with the value it has in the witness,
    /// if the witness is known.
    Allocate { namespace: usize, annotation: &'static str, value: Option<FieldElement> },
    /// Lays the constraint `a * b = c`.
    Enforce {
        namespace: usize,
        annotation: &'static str,
        a: LinearCombination,
        b: LinearCombination,
        c: LinearCombination,
    },
    /// Allocates the next variable as the bit that says whether two
    /// variables are equal, and lays the constraints that make it so.
    Equals { namespace: usize, left: Variable, right: Variable, value: Option<FieldElement> },
    /// Allocates the next variable as the bit that says whether a variable
    /// fits in the given number of bits, and lays the constraints that make
    /// it so.
    FitsBits { namespace: usize, operand: Variable, bits: usize, value: Option<FieldElement> },
    /// Builds the constraints of a built-in function on the given variables.
    /// The variables of its results are those of the outputs that follow.
    Builtin { namespace: usize, identifier: BuiltinIdentifier, inputs: Vec<Variable>, outputs: usize },
    /// Takes the next variable for a result of the built-in function
    /// before it, with the value it has in the witness, if that is known.
    Output { namespace: usize, value: Option<FieldElement> },
}

/// A step with numbers for field elements and sequences for texts.
pub enum ActionView {
    Allocate { namespace: nat, annotation: Seq<char>, value: Option<nat> },
    Enforce {
        namespace: nat,
        annotation: Seq<char>,
        a: Seq<TermView>,
        b: Seq<TermView>,
        c: Seq<TermView>,
    },
    Equals { namespace: nat, left: Variable, right: Variable, value: Option<nat> },
    FitsBits { namespace: nat, operand: Variable, bits: nat, value: Option<nat> },
    Builtin { namespace: nat, identifier: BuiltinIdentifier, inputs: Seq<Variable>, outputs: nat },
    Output { namespace: nat, value: Option<nat> },
}

/// The number of an element of the field, if there is an element.
pub open spec fn number(value: Option<FieldElement>) -> Option<nat> {
    match value {
        Some(element) => Some(element.value()),
        None => None,
    }
}

impl View for Action {
    type V = ActionView;

    open spec fn view(&self) -> ActionView {
        match self {
            Action::Allocate { namespace, annotation, value } => ActionView::Allocate {
                namespace: *namespace as nat,
                annotation: annotation@,
                value: number(*value),
            },
            Action::Enforce { namespace, annotation, a, b, c } => ActionView::Enforce {
                namespace: *namespace as nat,
                annotation: annotation@,
                a: a@,
                b: b@,
                c: c@,
            },
            Action::Equals { namespace, left, right, value } => ActionView::Equals {
                namespace: *namespace as nat,
                left: *left,
                right: *right,
                value: number(*value),
            },
            Action::FitsBits { namespace, operand, bits, value } => ActionView::FitsBits {
                namespace: *namespace as nat,
                operand: *operand,
                bits: *bits as nat,
                value: number(*value),
            },
            Action::Builtin { namespace, identifier, inputs, outputs } => ActionView::Builtin {
                namespace: *namespace as nat,
                identifier: *identifier,
                inputs: inputs@,
                outputs: *outputs as nat,
            },
            Action::Output { namespace, value } => ActionView::Output {
                namespace: *namespace as nat,
                value: number(*value),
            },
        }
    }
}

impl ActionView {
    /// Whether the step allocates a variable.
    pub open spec fn allocates(self) -> bool {
        !(self is Enforce) && !(self is Builtin)
    }
}

/// The number of variables that the steps allocate.
pub open spec fn allocated(log: Seq<ActionView>) -> nat
    decreases log.len(),
{
    if log.len() == 0 {
        0
    } else {
        allocated(log.drop_last()) + if log.last().allocates() {
            1nat
        } else {
            0nat
        }
    }
}

/// One more step allocates one more variable, or none.
pub proof fn lemma_allocated_push(log: Seq<ActionView>, action: ActionView)
    ensures
        allocated(log.push(action)) == allocated(log) + if action.allocates() {
            1nat
        } else {
            0nat
        },
{
    assert(log.push(action).drop_last() =~= log);
}

} // verus!
