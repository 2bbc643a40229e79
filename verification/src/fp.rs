use vstd::prelude::*;

use crate::boolean::Boolean;
use crate::error::SynthesisError;
use crate::lookup::{two_bit_index, ThreeBitCondNegLookupGadget, TwoBitLookupGadget};
use crate::select::CondSelectGadget;

verus! {

/// The prime modulus of the witness field: `2^61 - 1`.
pub const MODULUS: u64 = 2305843009213693951;

/// The residue of the additive inverse of a residue `x`: `0` for `0`, and
/// `MODULUS - x` otherwise.
pub open spec fn neg_residue(x: nat) -> nat {
    if 0 < x < MODULUS {
        (MODULUS - x) as nat
    } else {
        0
    }
}

/// A prime-field element at witness level: the canonical residue modulo
/// [`MODULUS`]. It realizes every selection and lookup capability of this
/// crate, which makes the gadget contracts executable without a live
/// constraint system.
#[derive(Clone, Copy, PartialEq, Eq, Structural, Debug)]
pub struct FpValue {
    repr: u64,
}

impl View for FpValue {
    type V = nat;

    closed spec fn view(&self) -> nat {
        self.repr as nat
    }
}

impl FpValue {
    /// Every element holds its canonical residue.
    #[verifier::type_invariant]
    closed spec fn reduced(self) -> bool {
        self.repr < MODULUS
    }

    /// The element standing for `x`, reduced modulo [`MODULUS`].
    pub fn new(x: u64) -> (r: FpValue)
        ensures
            r@ == x as nat % (MODULUS as nat),
    {
        FpValue { repr: x % MODULUS }
    }

    /// The canonical residue, in `[0, MODULUS)`.
    pub fn as_u64(&self) -> (r: u64)
        ensures
            r == self@,
            r < MODULUS,
    {
        proof {
            use_type_invariant(*self);
        }
        self.repr
    }

    /// The additive inverse in the field.
    pub fn neg(&self) -> (r: FpValue)
        ensures
            r@ == neg_residue(self@),
    {
        proof {
            use_type_invariant(*self);
        }
        if self.repr == 0 {
            FpValue { repr: 0 }
        } else {
            FpValue { repr: MODULUS - self.repr }
        }
    }
}

impl CondSelectGadget for FpValue {
    /// Witness-level selection never fails and returns one of its inputs.
    fn conditionally_select(cond: &Boolean, true_value: &FpValue, false_value: &FpValue) -> (r:
        Result<FpValue, SynthesisError>)
        ensures
            r == Ok::<FpValue, SynthesisError>(
                if cond@ {
                    *true_value
                } else {
                    *false_value
                },
            ),
    {
        if cond.value() {
            Ok(*true_value)
        } else {
            Ok(*false_value)
        }
    }

    fn duplicate(&self) -> (r: FpValue) {
        *self
    }
}

impl TwoBitLookupGadget for FpValue {
    type TableConstant = FpValue;

    /// A table constant is looked up as itself.
    open spec fn constant_value(c: FpValue) -> FpValue {
        c
    }

    /// Witness-level lookup fails only on mismatched lengths.
    fn two_bit_lookup(bits: &[Boolean], constants: &[FpValue]) -> (r: Result<
        FpValue,
        SynthesisError,
    >)
        ensures
            bits@.len() == 2 && constants@.len() == 4 ==> r == Ok::<FpValue, SynthesisError>(
                constants@[two_bit_index(bits@[0]@, bits@[1]@) as int],
            ),
    {
        if bits.len() != 2 || constants.len() != 4 {
            return Err(SynthesisError::LengthMismatch);
        }
        let mut b: usize = 0;
        if bits[0].value() {
            b = b + 1;
        }
        if bits[1].value() {
            b = b + 2;
        }
        Ok(constants[b])
    }
}

impl ThreeBitCondNegLookupGadget for FpValue {
    type TableConstant = FpValue;

    /// A table constant is looked up as itself when the sign bit is clear.
    open spec fn constant_value(c: FpValue) -> FpValue {
        c
    }

    /// A table constant is looked up as its additive inverse when the sign
    /// bit is set.
    closed spec fn negated_constant_value(c: FpValue) -> FpValue {
        FpValue { repr: neg_residue(c@) as u64 }
    }

    /// Witness-level lookup fails only on mismatched lengths; the looked-up
    /// residue is negated in the field exactly when the third bit is set.
    fn three_bit_cond_neg_lookup(bits: &[Boolean], constants: &[FpValue]) -> (r: Result<
        FpValue,
        SynthesisError,
    >)
        ensures
            bits@.len() == 3 && constants@.len() == 4 ==> (r matches Ok(v) && v@ == (if bits@[2]@ {
                neg_residue(constants@[two_bit_index(bits@[0]@, bits@[1]@) as int]@)
            } else {
                constants@[two_bit_index(bits@[0]@, bits@[1]@) as int]@
            })),
    {
        if bits.len() != 3 || constants.len() != 4 {
            return Err(SynthesisError::LengthMismatch);
        }
        let mut b: usize = 0;
        if bits[0].value() {
            b = b + 1;
        }
        if bits[1].value() {
            b = b + 2;
        }
        let entry = constants[b];
        if bits[2].value() {
            let negated = entry.neg();
            assert(negated == <FpValue as ThreeBitCondNegLookupGadget>::negated_constant_value(
                entry,
            ));
            Ok(negated)
        } else {
            Ok(entry)
        }
    }
}

} // verus!
