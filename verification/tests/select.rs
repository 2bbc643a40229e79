use r1cs_select::boolean::Boolean;
use r1cs_select::error::SynthesisError;
use r1cs_select::fp::FpValue;
use r1cs_select::select::CondSelectGadget;
use r1cs_select::select::{
    conditionally_select_power_of_two_vector, count_ones, repeated_selection,
};

/// The selector bits that encode `b` most significant bit first, `n` bits wide.
fn bits_of(b: usize, n: usize) -> Vec<Boolean> {
    let mut bits = Vec::new();
    for i in (0..n).rev() {
        bits.push(Boolean::constant((b >> i) & 1 == 1));
    }
    bits
}

fn table(len: usize) -> Vec<FpValue> {
    (0..len).map(|i| FpValue::new(100 + i as u64)).collect()
}

#[test]
fn boolean_constant_round_trip() {
    assert!(Boolean::constant(true).value());
    assert!(!Boolean::constant(false).value());
}

#[test]
fn two_way_select_true_picks_first() {
    let a = FpValue::new(7);
    let b = FpValue::new(9);
    let r = FpValue::conditionally_select(&Boolean::constant(true), &a, &b);
    assert_eq!(r, Ok(a));
}

#[test]
fn two_way_select_false_picks_second() {
    let a = FpValue::new(7);
    let b = FpValue::new(9);
    let r = FpValue::conditionally_select(&Boolean::constant(false), &a, &b);
    assert_eq!(r, Ok(b));
}

#[test]
fn one_bit_selection() {
    let values = table(2);
    let r0 = conditionally_select_power_of_two_vector::<FpValue>(&bits_of(0, 1), &values);
    assert_eq!(r0, Ok(values[0]));
    let r1 = conditionally_select_power_of_two_vector::<FpValue>(&bits_of(1, 1), &values);
    assert_eq!(r1, Ok(values[1]));
}

#[test]
fn selection_is_exhaustively_correct_up_to_sixteen() {
    for n in 1..=4 {
        let m = 1usize << n;
        let values = table(m);
        for b in 0..m {
            let r = conditionally_select_power_of_two_vector::<FpValue>(&bits_of(b, n), &values);
            assert_eq!(r, Ok(values[b]));
        }
    }
}

#[test]
fn sixth_of_eight_by_the_documented_example() {
    // 6 is 0b110: position [true, true, false] most significant bit first.
    let values = table(8);
    let position = vec![
        Boolean::constant(true),
        Boolean::constant(true),
        Boolean::constant(false),
    ];
    let r = conditionally_select_power_of_two_vector::<FpValue>(&position, &values);
    assert_eq!(r, Ok(values[6]));
}

#[test]
fn mismatched_table_length_fails_up_front() {
    // A table of 3 values cannot be addressed by 1 bit.
    let values = table(3);
    let position = vec![Boolean::constant(true)];
    let r = conditionally_select_power_of_two_vector::<FpValue>(&position, &values);
    assert_eq!(r, Err(SynthesisError::LengthMismatch));
}

#[test]
fn mismatched_table_length_fails_for_every_entry_point() {
    let values = table(5);
    let position = bits_of(2, 2);
    assert_eq!(
        conditionally_select_power_of_two_vector::<FpValue>(&position, &values),
        Err(SynthesisError::LengthMismatch)
    );
    assert_eq!(
        repeated_selection::<FpValue>(&position, &values),
        Err(SynthesisError::LengthMismatch)
    );
    // An empty table never matches, whatever the selector width.
    assert_eq!(
        repeated_selection::<FpValue>(&position, &table(0)),
        Err(SynthesisError::LengthMismatch)
    );
    assert_eq!(
        repeated_selection::<FpValue>(&bits_of(0, 0), &table(2)),
        Err(SynthesisError::LengthMismatch)
    );
}

#[test]
fn selection_over_m_candidates_uses_m_minus_one_selects() {
    for n in 0..=5 {
        let m = 1usize << n;
        let values = table(m);
        let r = repeated_selection::<FpValue>(&bits_of(m - 1, n), &values);
        assert_eq!(r, Ok((values[m - 1], m - 1)));
    }
}

#[test]
fn single_candidate_selection_returns_it() {
    // No selector bits: the sole candidate comes back with no select emitted.
    let values = table(1);
    let r = repeated_selection::<FpValue>(&[], &values);
    assert_eq!(r, Ok((values[0], 0)));
}

#[test]
fn count_ones_counts_set_bits() {
    assert_eq!(count_ones(0), 0);
    assert_eq!(count_ones(1), 1);
    assert_eq!(count_ones(0b1011), 3);
    assert_eq!(count_ones(255), 8);
    assert_eq!(count_ones(1 << 20), 1);
    assert_eq!(count_ones((1 << 20) - 1), 20);
}
