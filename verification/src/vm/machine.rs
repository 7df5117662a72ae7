//! The state of the virtual machine: the operator that builds the
//! constraint system, the data stack and the stack of conditions.

use vstd::prelude::*;

use crate::vm::constrained_element::views_of;
use crate::vm::constrained_element::ConstrainedElement;
use crate::vm::constrained_element::ConstrainedElementOperator;
use crate::vm::constrained_element::ElementView;
use crate::vm::error::RuntimeError;

verus! {

/// The virtual machine.
#[derive(Debug)]
pub struct VirtualMachine {
    pub operator: ConstrainedElementOperator,
    pub stack: Vec<ConstrainedElement>,
    pub conditions: Vec<ConstrainedElement>,
}

impl VirtualMachine {
    /// The data stack, its top last.
    pub open spec fn data(self) -> Seq<ElementView> {
        views_of(self.stack@)
    }

    /// The stack of conditions, its top last.
    pub open spec fn pending(self) -> Seq<ElementView> {
        views_of(self.conditions@)
    }

    /// The operator is sound, and so is every element on the two stacks.
    pub open spec fn wf(self) -> bool {
        &&& self.operator.wf()
        &&& forall|i: int| 0 <= i < self.stack@.len() ==> (#[trigger] self.stack@[i]).wf()
        &&& forall|i: int| 0 <= i < self.conditions@.len() ==> (#[trigger] self.conditions@[i]).wf()
    }

    /// The machine with empty stacks.
    pub fn new(operator: ConstrainedElementOperator) -> (machine: Self)
        requires
            operator.wf(),
        ensures
            machine.wf(),
            machine.operator == operator,
            machine.data() == Seq::<ElementView>::empty(),
            machine.pending() == Seq::<ElementView>::empty(),
    {
        let machine = VirtualMachine { operator, stack: Vec::new(), conditions: Vec::new() };
        assert(machine.data() =~= Seq::<ElementView>::empty());
        assert(machine.pending() =~= Seq::<ElementView>::empty());
        machine
    }

    /// Puts an element on the data stack.
    pub fn push(&mut self, element: ConstrainedElement) -> (result: Result<(), RuntimeError>)
        requires
            old(self).wf(),
            element.wf(),
        ensures
            final(self).wf(),
            result is Ok,
            final(self).data() == old(self).data().push(element@),
            final(self).pending() == old(self).pending(),
            final(self).operator == old(self).operator,
    {
        self.stack.push(element);
        assert(self.data() =~= old(self).data().push(element@));
        Ok(())
    }

    /// Takes the top of the data stack.
    pub fn pop(&mut self) -> (result: Result<ConstrainedElement, RuntimeError>)
        requires
            old(self).wf(),
        ensures
            final(self).wf(),
            final(self).pending() == old(self).pending(),
            final(self).operator == old(self).operator,
            match result {
                Ok(element) => {
                    &&& old(self).data().len() > 0
                    &&& element.wf()
                    &&& element@ == old(self).data().last()
                    &&& final(self).data() == old(self).data().drop_last()
                },
                Err(error) => {
                    &&& error == RuntimeError::StackUnderflow
                    &&& old(self).data().len() == 0
                    &&& final(self).data() == old(self).data()
                },
            },
    {
        match self.stack.pop() {
            Some(element) => {
                assert(self.data() =~= old(self).data().drop_last());
                Ok(element)
            },
            None => Err(RuntimeError::StackUnderflow),
        }
    }

    /// Puts a condition on the stack of conditions.
    pub fn condition_push(&mut self, element: ConstrainedElement) -> (result: Result<
        (),
        RuntimeError,
    >)
        requires
            old(self).wf(),
            element.wf(),
        ensures
            final(self).wf(),
            result is Ok,
            final(self).pending() == old(self).pending().push(element@),
            final(self).data() == old(self).data(),
            final(self).operator == old(self).operator,
    {
        self.conditions.push(element);
        assert(self.pending() =~= old(self).pending().push(element@));
        Ok(())
    }

    /// Takes the top of the stack of conditions.
    pub fn condition_pop(&mut self) -> (result: Result<ConstrainedElement, RuntimeError>)
        requires
            old(self).wf(),
        ensures
            final(self).wf(),
            final(self).data() == old(self).data(),
            final(self).operator == old(self).operator,
            match result {
                Ok(element) => {
                    &&& old(self).pending().len() > 0
                    &&& element.wf()
                    &&& element@ == old(self).pending().last()
                    &&& final(self).pending() == old(self).pending().drop_last()
                },
                Err(error) => {
                    &&& error == RuntimeError::StackUnderflow
                    &&& old(self).pending().len() == 0
                    &&& final(self).pending() == old(self).pending()
                },
            },
    {
        match self.conditions.pop() {
            Some(element) => {
                assert(self.pending() =~= old(self).pending().drop_last());
                Ok(element)
            },
            None => Err(RuntimeError::StackUnderflow),
        }
    }
}

} // verus!
