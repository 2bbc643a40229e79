use vstd::prelude::*;

verus! {

/// A boolean wire of an arithmetic circuit, carried at witness level: the
/// underlying field element is constrained to 0 or 1, and the witnessed truth
/// value is all the selection gadgets ever read of it.
#[derive(Clone, Copy, PartialEq, Eq, Structural, Debug)]
pub struct Boolean {
    witness: bool,
}

impl Boolean {
    /// The wire fixed to the given truth value.
    pub fn constant(b: bool) -> (r: Boolean)
        ensures
            r@ == b,
    {
        Boolean { witness: b }
    }

    /// The witnessed truth value.
    pub fn value(&self) -> (r: bool)
        ensures
            r == self@,
    {
        self.witness
    }
}

impl View for Boolean {
    type V = bool;

    closed spec fn view(&self) -> bool {
        self.witness
    }
}

} // verus!
