use vstd::prelude::*;

verus! {

/// Failure reported by the selection and lookup gadgets.
#[derive(Clone, Copy, PartialEq, Eq, Structural, Debug)]
pub enum SynthesisError {
    /// A selector or table length broke an entry point's precondition; the
    /// call reports failure before any selection work is done.
    LengthMismatch,
}

} // verus!
