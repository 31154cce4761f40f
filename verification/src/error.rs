//! The errors that lexing and execution report.

use vstd::prelude::*;

verus! {

/// A program whose loop symbols are not properly nested.
#[derive(Clone, Copy, Debug, PartialEq, Eq, Structural)]
pub enum StructuralError {
    /// A `]` without an earlier `[` to match it, or a `[` that is never
    /// closed.
    UnbalancedLoop,
}

/// A fault that ends a run at the instruction that caused it.
#[derive(Clone, Copy, Debug, PartialEq, Eq, Structural)]
pub enum RuntimeError {
    /// The data pointer was asked to move off either end of the tape.
    TapeBounds,
    /// An input instruction found no further byte of input.
    InputExhausted,
}

} // verus!
