use vstd::arithmetic::power2::{
    lemma2_to64, lemma_pow2_strictly_increases, lemma_pow2_unfold, pow2,
};
use vstd::prelude::*;

use crate::boolean::Boolean;
use crate::error::SynthesisError;

verus! {

/// The unsigned integer that a run of selector bits encodes, most significant
/// bit first: `bits[0]` is the top bit.
///
/// This is the opposite ordering from the lookup gadgets, which read their
/// bits least significant first; the two conventions are deliberate and must
/// never be conflated.
pub open spec fn msb_first_index(bits: Seq<bool>) -> nat
    decreases bits.len(),
{
    if bits.len() == 0 {
        0
    } else {
        (if bits[0] {
            pow2((bits.len() - 1) as nat)
        } else {
            0
        }) + msb_first_index(bits.subrange(1, bits.len() as int))
    }
}

/// The witnessed truth values of a run of boolean wires.
pub open spec fn witnessed(bits: Seq<Boolean>) -> Seq<bool> {
    bits.map_values(|b: Boolean| b@)
}

/// `n` selector bits address only the range `[0, 2^n)`.
pub proof fn lemma_msb_first_index_bound(bits: Seq<bool>)
    ensures
        msb_first_index(bits) < pow2(bits.len()),
    decreases bits.len(),
{
    if bits.len() == 0 {
        lemma2_to64();
    } else {
        lemma_msb_first_index_bound(bits.subrange(1, bits.len() as int));
        lemma_pow2_unfold(bits.len());
    }
}

/// Splitting off the top bit of a suffix: the suffix starting at `a` encodes
/// its first bit, weighted by its position, plus whatever the rest encodes.
proof fn lemma_msb_first_index_step(bits: Seq<bool>, a: int)
    requires
        0 <= a < bits.len(),
    ensures
        msb_first_index(bits.subrange(a, bits.len() as int)) == (if bits[a] {
            pow2((bits.len() - a - 1) as nat)
        } else {
            0
        }) + msb_first_index(bits.subrange(a + 1, bits.len() as int)),
{
    let s = bits.subrange(a, bits.len() as int);
    assert(s[0] == bits[a]);
    assert(s.subrange(1, s.len() as int) =~= bits.subrange(a + 1, bits.len() as int));
}

/// Two-way conditional selection: the atomic capability that every multi-way
/// selection reduces to.
pub trait CondSelectGadget: Sized {
    /// Returns a value equal to `true_value` when `cond` is witnessed true,
    /// and equal to `false_value` otherwise. A realization may instead report
    /// a synthesis failure, but may never return any other value.
    fn conditionally_select(cond: &Boolean, true_value: &Self, false_value: &Self) -> (r: Result<
        Self,
        SynthesisError,
    >)
        ensures
            (r matches Ok(v) ==> v == (if cond@ {
                *true_value
            } else {
                *false_value
            })),
    ;

    /// Returns an equal value, emitting nothing: selectable values can be
    /// handed on as they are.
    fn duplicate(&self) -> (r: Self)
        ensures
            r == *self,
    ;
}

/// Returns the element of `values` whose index is encoded by `position`,
/// read as an unsigned integer most significant bit first: to pick the
/// sixth of eight values, pass `position` witnessed `[true, true, false]`.
///
/// Unless `values` has length exactly `2^position.len()`, the call fails
/// before any selection work is done.
pub fn conditionally_select_power_of_two_vector<CondG: CondSelectGadget>(
    position: &[Boolean],
    values: &[CondG],
) -> (r: Result<CondG, SynthesisError>)
    ensures
        values@.len() != pow2(position@.len()) ==> r == Err::<CondG, SynthesisError>(
            SynthesisError::LengthMismatch,
        ),
        msb_first_index(witnessed(position@)) < pow2(position@.len()),
        values@.len() == pow2(position@.len()) ==> (r matches Ok(v) ==> v
            == values@[msb_first_index(witnessed(position@)) as int]),
        position@.len() == 0 && values@.len() == 1 ==> r == Ok::<CondG, SynthesisError>(
            values@[0],
        ),
{
    match repeated_selection::<CondG>(position, values) {
        Ok(p) => Ok(p.0),
        Err(e) => Err(e),
    }
}

/// One level of the selection tree: selects within each adjacent pair of
/// `source` using one bit, halving the candidate count.
fn select_level<CondG: CondSelectGadget>(bit: &Boolean, source: &[CondG]) -> (r: Result<
    Vec<CondG>,
    SynthesisError,
>)
    requires
        source@.len() % 2 == 0,
    ensures
        r matches Ok(out) ==> ({
            &&& out@.len() == source@.len() / 2
            &&& forall|k: int|
                0 <= k < out@.len() ==> out@[k] == source@[2 * k + (if bit@ {
                    1int
                } else {
                    0int
                })]
        }),
{
    let len: usize = source.len();
    let mut out: Vec<CondG> = Vec::new();
    let mut j: usize = 0;
    while j < len
        invariant
            len == source@.len(),
            len % 2 == 0,
            j % 2 == 0,
            j <= len,
            out@.len() == j / 2,
            forall|k: int|
                0 <= k < out@.len() ==> out@[k] == source@[2 * k + (if bit@ {
                    1int
                } else {
                    0int
                })],
        decreases len - j,
    {
        let picked = match CondG::conditionally_select(bit, &source[j + 1], &source[j]) {
            Ok(v) => v,
            Err(e) => {
                return Err(e);
            },
        };
        out.push(picked);
        j = j + 2;
    }
    Ok(out)
}

/// Multi-way selection as a binary tree of two-way selects: the selector bits
/// are consumed least significant first, each level selecting within adjacent
/// pairs and halving the table, until one candidate is left.
///
/// On success the result carries the selected value together with the number
/// of two-way selects performed: always `values.len() - 1`. A table of one
/// candidate needs no addressing, so an empty `position` hands the sole
/// candidate back without any select, and without any way to fail.
///
/// Unless `values` has length exactly `2^position.len()`, the call fails
/// before any selection work is done.
pub fn repeated_selection<CondG: CondSelectGadget>(position: &[Boolean], values: &[CondG]) -> (r:
    Result<(CondG, usize), SynthesisError>)
    ensures
        values@.len() != pow2(position@.len()) ==> r == Err::<(CondG, usize), SynthesisError>(
            SynthesisError::LengthMismatch,
        ),
        msb_first_index(witnessed(position@)) < pow2(position@.len()),
        values@.len() == pow2(position@.len()) ==> (r matches Ok(p) ==> ({
            &&& p.0 == values@[msb_first_index(witnessed(position@)) as int]
            &&& p.1 == values@.len() - 1
        })),
        position@.len() == 0 && values@.len() == 1 ==> r == Ok::<(CondG, usize), SynthesisError>(
            (values@[0], 0),
        ),
{
    let n: usize = position.len();
    let m: usize = values.len();
    let ghost ws: Seq<bool> = witnessed(position@);
    proof {
        lemma2_to64();
        assert(ws.len() == n);
        lemma_msb_first_index_bound(ws);
    }
    // Establish m == 2^n; widths double without ever overflowing, since the
    // doubling is guarded by the comparison against m.
    let mut width: usize = 1;
    let mut i: usize = 0;
    while i < n
        invariant
            i <= n,
            n == position@.len(),
            m == values@.len(),
            ws == witnessed(position@),
            ws.len() == n,
            msb_first_index(ws) < pow2(n as nat),
            width == pow2(i as nat),
        decreases n - i,
    {
        if width > m / 2 {
            proof {
                lemma_pow2_unfold((i + 1) as nat);
                if i + 1 < n {
                    lemma_pow2_strictly_increases((i + 1) as nat, n as nat);
                }
            }
            return Err(SynthesisError::LengthMismatch);
        }
        width = width * 2;
        i = i + 1;
        proof {
            lemma_pow2_unfold(i as nat);
        }
    }
    if width != m {
        return Err(SynthesisError::LengthMismatch);
    }
    if n == 0 {
        // A single candidate needs no addressing: it comes back as it is,
        // with no select emitted.
        return Ok((values[0].duplicate(), 0));
    }
    // Level 0 halves the table using the least significant selector bit.
    proof {
        lemma_pow2_unfold(n as nat);
    }
    let mut cur: Vec<CondG>;
    match select_level(&position[n - 1], values) {
        Ok(out) => {
            cur = out;
        },
        Err(e) => {
            return Err(e);
        },
    }
    let mut count: usize = cur.len();
    let mut lvl: usize = 1;
    proof {
        lemma_msb_first_index_step(ws, n - 1);
        assert(ws.subrange(n as int, n as int).len() == 0);
        assert forall|k: int| 0 <= k < cur@.len() implies cur@[k] == values@[k * pow2(1) + (
        msb_first_index(ws.subrange(n - 1, n as int)) as int)] by {
            assert(2 * k + (if ws[n - 1] {
                1int
            } else {
                0int
            }) == k * pow2(1) + (msb_first_index(ws.subrange(n - 1, n as int)) as int));
        }
    }
    while lvl < n
        invariant
            n == position@.len(),
            m == values@.len(),
            ws == witnessed(position@),
            ws.len() == n,
            msb_first_index(ws) < pow2(n as nat),
            1 <= lvl <= n,
            m == pow2(n as nat),
            cur@.len() == pow2((n - lvl) as nat),
            count == m - pow2((n - lvl) as nat),
            forall|k: int|
                0 <= k < cur@.len() ==> cur@[k] == values@[k * pow2(lvl as nat) + (msb_first_index(
                    ws.subrange(n - lvl, n as int),
                ) as int)],
        decreases n - lvl,
    {
        proof {
            lemma_pow2_unfold((n - lvl) as nat);
        }
        let next: Vec<CondG>;
        match select_level(&position[n - 1 - lvl], cur.as_slice()) {
            Ok(out) => {
                next = out;
            },
            Err(e) => {
                return Err(e);
            },
        }
        proof {
            let b: int = if ws[n - 1 - lvl] {
                1int
            } else {
                0int
            };
            let p: int = pow2(lvl as nat) as int;
            let low: int = msb_first_index(ws.subrange(n - lvl, n as int)) as int;
            let low_next: int = msb_first_index(ws.subrange(n - lvl - 1, n as int)) as int;
            lemma_msb_first_index_step(ws, n - 1 - lvl);
            lemma_pow2_unfold((lvl + 1) as nat);
            assert(low_next == b * p + low) by (nonlinear_arith)
                requires
                    low_next == (if ws[n - 1 - lvl] {
                        pow2(lvl as nat) as int
                    } else {
                        0int
                    }) + low,
                    b == (if ws[n - 1 - lvl] {
                        1int
                    } else {
                        0int
                    }),
                    p == pow2(lvl as nat) as int,
            ;
            assert forall|k: int| 0 <= k < next@.len() implies next@[k] == values@[k * pow2(
                (lvl + 1) as nat,
            ) + low_next] by {
                assert(next@[k] == cur@[2 * k + b]);
                assert(cur@[2 * k + b] == values@[(2 * k + b) * p + low]);
                assert((2 * k + b) * p + low == k * (2 * p) + low_next) by (nonlinear_arith)
                    requires
                        low_next == b * p + low,
                ;
                assert(pow2((lvl + 1) as nat) == 2 * p);
            }
        }
        count = count + next.len();
        cur = next;
        lvl = lvl + 1;
    }
    proof {
        lemma2_to64();
        assert(ws.subrange(0, n as int) =~= ws);
        assert(cur@[0] == values@[0 * pow2(n as nat) + (msb_first_index(ws) as int)]);
        assert(0 * pow2(n as nat) + (msb_first_index(ws) as int) == msb_first_index(ws) as int);
    }
    let selected = match cur.pop() {
        Some(v) => v,
        None => unreached(),
    };
    Ok((selected, count))
}

/// The number of set bits in the binary representation of `x`.
pub open spec fn spec_count_ones(x: nat) -> nat
    decreases x,
{
    if x == 0 {
        0
    } else {
        (x % 2) + spec_count_ones(x / 2)
    }
}

/// A number has no more set bits than its own magnitude.
proof fn lemma_count_ones_le(x: nat)
    ensures
        spec_count_ones(x) <= x,
    decreases x,
{
    if x > 0 {
        lemma_count_ones_le(x / 2);
    }
}

/// Counts the 1 bits in the binary representation of `x`.
pub fn count_ones(x: usize) -> (r: usize)
    ensures
        r == spec_count_ones(x as nat),
{
    let mut count: usize = 0;
    let mut y: usize = x;
    proof {
        lemma_count_ones_le(x as nat);
    }
    while y > 0
        invariant
            count + spec_count_ones(y as nat) == spec_count_ones(x as nat),
            spec_count_ones(x as nat) <= x,
        decreases y,
    {
        assert(y & 1 == y % 2) by (bit_vector);
        assert(y >> 1 == y / 2) by (bit_vector);
        count = count + (y & 1);
        y = y >> 1;
    }
    count
}

} // verus!
