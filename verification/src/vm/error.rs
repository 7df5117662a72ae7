//! The errors of the virtual machine.

use vstd::prelude::*;

verus! {

/// The reasons for which the machine stops.
#[derive(Debug, Clone, Copy, PartialEq, Eq, Structural)]
pub enum RuntimeError {
    /// A value could not be brought into the field.
    InternalError,
    /// The constraint system refused a variable or a constraint.
    SynthesisError,
    /// An instruction took a value from an empty stack.
    StackUnderflow,
}

} // verus!
