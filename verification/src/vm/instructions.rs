//! What the instructions do to the virtual machine.

use vstd::prelude::*;

use crate::bytecode::instructions::CallBuiltin;
use crate::bytecode::instructions::Ge;
use crate::bytecode::instructions::PopCondition;
use crate::vm::constrained_element::builtin_steps;
use crate::vm::constrained_element::ge_result;
use crate::vm::constrained_element::ge_steps;
use crate::vm::constrained_element::numbers_of;
use crate::vm::constrained_element::output_elements;
use crate::vm::constrained_element::variables_of;
use crate::vm::constrained_element::views_of;
use crate::vm::constrained_element::ConstrainedElement;
use crate::vm::constrained_element::ElementView;
use crate::vm::error::RuntimeError;
use crate::vm::field::FieldElement;
use crate::vm::machine::VirtualMachine;

verus! {

/// An instruction that the machine can execute.
pub trait VMInstruction {
    /// Executes the instruction on the machine.
    fn execute(&self, vm: &mut VirtualMachine) -> (result: Result<(), RuntimeError>)
        requires
            old(vm).wf(),
        ensures
            final(vm).wf(),
    ;
}

impl VMInstruction for Ge {
    /// Takes the left operand from the top of the stack and the right one
    /// from under it, and puts the bit of "left is greater than right or
    /// equal to it" in their place. On a stack of fewer than two elements it
    /// fails, after it has taken what was there.
    fn execute(&self, vm: &mut VirtualMachine) -> (result: Result<(), RuntimeError>)
        ensures
            final(vm).pending() == old(vm).pending(),
            old(vm).data().len() < 2 ==> {
                &&& result == Err::<(), RuntimeError>(RuntimeError::StackUnderflow)
                &&& final(vm).data() == Seq::<ElementView>::empty()
                &&& final(vm).operator == old(vm).operator
            },
            old(vm).data().len() >= 2 ==> {
                let depth = old(vm).data().len() as int;
                let left = old(vm).data()[depth - 1];
                let right = old(vm).data()[depth - 2];
                &&& result is Ok
                &&& final(vm).data() == old(vm).data().subrange(0, depth - 2).push(
                    ge_result(old(vm).operator.variables(), left, right),
                )
                &&& final(vm).operator.log() == old(vm).operator.log() + ge_steps(
                    old(vm).operator.counter(),
                    old(vm).operator.variables(),
                    left,
                    right,
                )
                &&& final(vm).operator.counter() == old(vm).operator.counter() + 4
                &&& final(vm).operator.variables() == old(vm).operator.variables() + 4
            },
    {
        let left = match vm.pop() {
            Ok(left) => left,
            Err(error) => {
                assert(vm.data() =~= Seq::<ElementView>::empty());
                return Err(error);
            },
        };
        let right = match vm.pop() {
            Ok(right) => right,
            Err(error) => {
                assert(vm.data() =~= Seq::<ElementView>::empty());
                return Err(error);
            },
        };
        let ge = match vm.operator.ge(left, right) {
            Ok(ge) => ge,
            Err(error) => return Err(error),
        };
        let result = vm.push(ge);
        assert(vm.data() =~= old(vm).data().subrange(0, old(vm).data().len() - 2).push(ge@));
        result
    }
}

impl VMInstruction for PopCondition {
    /// Takes the top of the stack of conditions away. On an empty stack of
    /// conditions it fails.
    fn execute(&self, vm: &mut VirtualMachine) -> (result: Result<(), RuntimeError>)
        ensures
            final(vm).data() == old(vm).data(),
            final(vm).operator == old(vm).operator,
            old(vm).pending().len() == 0 ==> {
                &&& result == Err::<(), RuntimeError>(RuntimeError::StackUnderflow)
                &&& final(vm).pending() == old(vm).pending()
            },
            old(vm).pending().len() > 0 ==> {
                &&& result is Ok
                &&& final(vm).pending() == old(vm).pending().drop_last()
            },
    {
        match vm.condition_pop() {
            Ok(_) => Ok(()),
            Err(error) => Err(error),
        }
    }
}

/// The first `count` elements that are taken from a stack, the top first.
pub open spec fn taken(stack: Seq<ElementView>, count: nat) -> Seq<ElementView> {
    Seq::new(count, |i: int| stack[stack.len() - 1 - i])
}

impl CallBuiltin {
    /// Takes the inputs of the built-in function from the data stack, the
    /// top first. On a stack of fewer elements than the function has inputs
    /// it fails, after it has taken what was there.
    pub fn execute(&self, vm: &mut VirtualMachine) -> (result: Result<
        Vec<ConstrainedElement>,
        RuntimeError,
    >)
        requires
            old(vm).wf(),
        ensures
            final(vm).wf(),
            final(vm).pending() == old(vm).pending(),
            final(vm).operator == old(vm).operator,
            match result {
                Ok(input) => {
                    &&& self.inputs_count <= old(vm).data().len()
                    &&& views_of(input@) == taken(old(vm).data(), self.inputs_count as nat)
                    &&& forall|i: int| 0 <= i < input@.len() ==> (#[trigger] input@[i]).wf()
                    &&& final(vm).data() == old(vm).data().subrange(
                        0,
                        old(vm).data().len() - self.inputs_count,
                    )
                },
                Err(error) => {
                    &&& error == RuntimeError::StackUnderflow
                    &&& self.inputs_count > old(vm).data().len()
                    &&& final(vm).data() == Seq::<ElementView>::empty()
                },
            },
    {
        let mut input: Vec<ConstrainedElement> = Vec::new();
        let mut i: usize = 0;
        while i < self.inputs_count
            invariant
                i <= self.inputs_count,
                vm.wf(),
                vm.pending() == old(vm).pending(),
                vm.operator == old(vm).operator,
                i <= old(vm).data().len(),
                input@.len() == i,
                views_of(input@) =~= taken(old(vm).data(), i as nat),
                forall|k: int| 0 <= k < input@.len() ==> (#[trigger] input@[k]).wf(),
                vm.data() == old(vm).data().subrange(0, old(vm).data().len() - i),
            decreases self.inputs_count - i,
        {
            let value = match vm.pop() {
                Ok(value) => value,
                Err(error) => {
                    assert(vm.data() =~= Seq::<ElementView>::empty());
                    return Err(error);
                },
            };
            let ghost before = input@;
            assert(value@ == old(vm).data()[old(vm).data().len() - 1 - i]);
            input.push(value);
            i += 1;
            assert(vm.data() =~= old(vm).data().subrange(0, old(vm).data().len() - i));
            assert forall|k: int| 0 <= k < i implies views_of(input@)[k] == taken(
                old(vm).data(),
                i as nat,
            )[k] by {
                if k < i - 1 {
                    assert(views_of(input@)[k] == views_of(before)[k]);
                }
            }
        }
        Ok(input)
    }

    /// Records the call of the built-in function on the inputs that were
    /// taken, and puts its results on the data stack, the first of them
    /// lowest. The values of the results in the witness are given.
    pub fn complete(
        &self,
        vm: &mut VirtualMachine,
        input: &Vec<ConstrainedElement>,
        values: &Vec<Option<FieldElement>>,
    ) -> (result: Result<(), RuntimeError>)
        requires
            old(vm).wf(),
            forall|i: int|
                0 <= i < values@.len() ==> ((#[trigger] values@[i]) matches Some(value)
                    ==> value.wf()),
        ensures
            final(vm).wf(),
            result is Ok,
            final(vm).pending() == old(vm).pending(),
            final(vm).data() == old(vm).data() + output_elements(
                old(vm).operator.variables(),
                numbers_of(values@),
            ),
            final(vm).operator.log() == old(vm).operator.log() + builtin_steps(
                old(vm).operator.counter(),
                self.identifier,
                variables_of(input@),
                numbers_of(values@),
            ),
            final(vm).operator.counter() == old(vm).operator.counter() + 1,
            final(vm).operator.variables() == old(vm).operator.variables() + values@.len(),
    {
        let outputs = vm.operator.builtin(self.identifier, input, values);
        let ghost elements = output_elements(old(vm).operator.variables(), numbers_of(values@));
        let mut i: usize = 0;
        assert(vm.data() =~= old(vm).data() + elements.subrange(0, 0));
        while i < outputs.len()
            invariant
                i <= outputs@.len(),
                vm.wf(),
                views_of(outputs@) == elements,
                forall|k: int| 0 <= k < outputs@.len() ==> (#[trigger] outputs@[k]).wf(),
                vm.pending() == old(vm).pending(),
                vm.data() == old(vm).data() + elements.subrange(0, i as int),
                vm.operator.log() == old(vm).operator.log() + builtin_steps(
                    old(vm).operator.counter(),
                    self.identifier,
                    variables_of(input@),
                    numbers_of(values@),
                ),
                vm.operator.counter() == old(vm).operator.counter() + 1,
                vm.operator.variables() == old(vm).operator.variables() + values@.len(),
            decreases outputs@.len() - i,
        {
            let output = outputs[i];
            assert(output@ == views_of(outputs@)[i as int]);
            let _ = vm.push(output);
            i += 1;
            assert(vm.data() =~= old(vm).data() + elements.subrange(0, i as int));
        }
        assert(elements.subrange(0, i as int) =~= elements);
        Ok(())
    }
}

} // verus!
