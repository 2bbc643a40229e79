use vstd::prelude::*;

use crate::boolean::Boolean;
use crate::error::SynthesisError;

verus! {

/// The table index that two selector bits encode, least significant bit
/// first: `bits[0] + 2 * bits[1]`.
///
/// This is the opposite ordering from the multi-way selection engine, which
/// reads its selector bits most significant first; the two conventions are
/// deliberate and must never be conflated.
pub open spec fn two_bit_index(b0: bool, b1: bool) -> nat {
    (if b0 { 1nat } else { 0nat }) + (if b1 { 2nat } else { 0nat })
}

/// Lookup in a four-entry table of constants, indexed by two bits.
pub trait TwoBitLookupGadget: Sized {
    /// The type of values being looked up.
    type TableConstant;

    /// The gadget value that stands for a given table constant.
    spec fn constant_value(c: Self::TableConstant) -> Self;

    /// Interprets `bits` as the two-bit integer `b = bits[0] + 2 * bits[1]`
    /// and returns the gadget value standing for `constants[b]`.
    ///
    /// Unless `bits` has length 2 and `constants` length 4, the call fails
    /// before any lookup work is done.
    fn two_bit_lookup(bits: &[Boolean], constants: &[Self::TableConstant]) -> (r: Result<
        Self,
        SynthesisError,
    >)
        ensures
            !(bits@.len() == 2 && constants@.len() == 4) ==> r == Err::<Self, SynthesisError>(
                SynthesisError::LengthMismatch,
            ),
            bits@.len() == 2 && constants@.len() == 4 ==> (r matches Ok(v) ==> v
                == Self::constant_value(constants@[two_bit_index(bits@[0]@, bits@[1]@) as int])),
    ;
}

/// Lookup in a four-entry table of constants, indexed by two bits, with a
/// third bit that conditionally negates the looked-up value.
///
/// This is the primitive behind fixed three-bit windowed scalar-multiplication
/// tables, where the sign bit halves the table by point symmetry.
pub trait ThreeBitCondNegLookupGadget: Sized {
    /// The type of values being looked up.
    type TableConstant;

    /// The gadget value that stands for a given table constant.
    spec fn constant_value(c: Self::TableConstant) -> Self;

    /// The gadget value that stands for the negation of a given table
    /// constant.
    spec fn negated_constant_value(c: Self::TableConstant) -> Self;

    /// Interprets `bits` as the two-bit integer `b = bits[0] + 2 * bits[1]`
    /// and returns the gadget value standing for `constants[b]`, negated when
    /// `bits[2]` is set.
    ///
    /// Unless `bits` has length 3 and `constants` length 4, the call fails
    /// before any lookup work is done.
    fn three_bit_cond_neg_lookup(bits: &[Boolean], constants: &[Self::TableConstant]) -> (r: Result<
        Self,
        SynthesisError,
    >)
        ensures
            !(bits@.len() == 3 && constants@.len() == 4) ==> r == Err::<Self, SynthesisError>(
                SynthesisError::LengthMismatch,
            ),
            bits@.len() == 3 && constants@.len() == 4 ==> (r matches Ok(v) ==> v == (if bits@[2]@ {
                Self::negated_constant_value(
                    constants@[two_bit_index(bits@[0]@, bits@[1]@) as int],
                )
            } else {
                Self::constant_value(constants@[two_bit_index(bits@[0]@, bits@[1]@) as int])
            })),
    ;
}

} // verus!
