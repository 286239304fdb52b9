use fresh_air::field::{BaseElement, MODULUS};
use fresh_air::lane::{carry_results, combine, settle_lane, settle_lanes};
use fresh_air::layout::{
    COEFF_DEGREE, DATA_LEN, DATA_START, FLAG_LEN, FLAG_START, RESULT_START, STATE_LENGTH,
    STATE_WIDTH,
};
use fresh_air::trace::Trace;
use fresh_air::witness::{
    advance_row, build_trace, load_data, load_modulus, seed_row, CustomData, ROW_SHIFT,
};

fn polynomial(value: u64) -> Vec<u64> {
    vec![value; COEFF_DEGREE]
}

/// An input whose polynomials are constant: `lanes[slot][lane]` at every position.
fn constant_input(modulus: [u64; 2], lanes: [[u64; 4]; 3]) -> CustomData {
    let slot = |s: usize| {
        [
            [polynomial(lanes[s][0]), polynomial(lanes[s][1])],
            [polynomial(lanes[s][2]), polynomial(lanes[s][3])],
        ]
    };
    CustomData { modulus: modulus.to_vec(), values: [slot(0), slot(1), slot(2)] }
}

/// An input whose coefficients differ from position to position and lane to lane.
fn varied_input() -> CustomData {
    let poly = |seed: u64| -> Vec<u64> {
        (0..COEFF_DEGREE as u64).map(|t| (seed * 7919 + t * 104729 + t * t * 31) % 1000).collect()
    };
    let slot = |s: u64| [[poly(4 * s), poly(4 * s + 1)], [poly(4 * s + 2), poly(4 * s + 3)]];
    CustomData { modulus: vec![997, 1009], values: [slot(0), slot(1), slot(2)] }
}

fn cell(trace: &Trace, column: usize, step: usize) -> u128 {
    trace.get(column, step).as_int()
}

fn blank_row() -> Vec<BaseElement> {
    vec![BaseElement::zero(); STATE_WIDTH]
}

fn ints(row: &[BaseElement]) -> Vec<u128> {
    row.iter().map(|e| e.as_int()).collect()
}

#[test]
fn zero_input() {
    let data = constant_input([7, 11], [[0; 4]; 3]);
    let trace = build_trace(&data);
    for t in 0..STATE_LENGTH {
        for lane in 0..DATA_LEN {
            let m: u128 = if lane % 2 == 0 { 7 } else { 11 };
            assert_eq!(cell(&trace, FLAG_START + lane, t), 0);
            assert_eq!(cell(&trace, FLAG_START + FLAG_LEN + lane, t), 1);
            assert_eq!(cell(&trace, RESULT_START + lane, t), m);
        }
    }
}

#[test]
fn single_lane_addition_no_overflow() {
    let data = constant_input([100, 100], [[3, 0, 0, 0], [4, 0, 0, 0], [0, 0, 0, 0]]);
    let trace = build_trace(&data);
    for t in 0..STATE_LENGTH {
        assert_eq!(cell(&trace, FLAG_START, t), 0);
        assert_eq!(cell(&trace, FLAG_START + FLAG_LEN, t), 0);
        assert_eq!(cell(&trace, RESULT_START, t), 7);
    }
}

#[test]
fn overflow_triggers_f0() {
    let data = constant_input([10, 10], [[7, 0, 0, 0], [6, 0, 0, 0], [0, 0, 0, 0]]);
    let trace = build_trace(&data);
    for t in 0..STATE_LENGTH {
        assert_eq!(cell(&trace, FLAG_START, t), 1);
        assert_eq!(cell(&trace, FLAG_START + FLAG_LEN, t), 0);
        assert_eq!(cell(&trace, RESULT_START, t), 3);
    }
}

#[test]
fn subtraction_wrap_triggers_f1() {
    let data = constant_input([10, 10], [[2, 0, 0, 0], [2, 0, 0, 0], [5, 0, 0, 0]]);
    let trace = build_trace(&data);
    for t in 0..STATE_LENGTH {
        assert_eq!(cell(&trace, FLAG_START, t), 0);
        assert_eq!(cell(&trace, FLAG_START + FLAG_LEN, t), 1);
        assert_eq!(cell(&trace, RESULT_START, t), 9);
    }
}

#[test]
fn sum_equal_to_modulus_does_not_overflow() {
    // 4 + 6 = 10 is not above 10, so f0 = 0; 10 > 3, so f1 = 0; R = 7
    let data = constant_input([10, 10], [[4, 0, 0, 0], [6, 0, 0, 0], [3, 0, 0, 0]]);
    let trace = build_trace(&data);
    assert_eq!(cell(&trace, FLAG_START, 0), 0);
    assert_eq!(cell(&trace, FLAG_START + FLAG_LEN, 0), 0);
    assert_eq!(cell(&trace, RESULT_START, 0), 7);
}

#[test]
fn reduced_sum_equal_to_subtrahend_sets_f1() {
    // 7 + 6 - 10 = 3 is not above 3, so f1 = 1; R = 3 + 10 - 3 = 10
    let data = constant_input([10, 10], [[7, 0, 0, 0], [6, 0, 0, 0], [3, 0, 0, 0]]);
    let trace = build_trace(&data);
    assert_eq!(cell(&trace, FLAG_START, 5), 1);
    assert_eq!(cell(&trace, FLAG_START + FLAG_LEN, 5), 1);
    assert_eq!(cell(&trace, RESULT_START, 5), 10);
}

#[test]
fn large_subtrahend_wraps_in_the_field() {
    // 0 + 0 + 10 - 100 = -90, which is p - 90 in the field
    let data = constant_input([10, 10], [[0; 4], [0; 4], [100, 0, 0, 0]]);
    let trace = build_trace(&data);
    assert_eq!(cell(&trace, FLAG_START, 0), 0);
    assert_eq!(cell(&trace, FLAG_START + FLAG_LEN, 0), 1);
    assert_eq!(cell(&trace, RESULT_START, 0), MODULUS - 90);
}

#[test]
fn largest_inputs_stay_exact() {
    let max = u64::MAX;
    // sum = 2 * max > max, so f0 = 1 and the reduced sum is max; max > 0, so f1 = 0
    let data = constant_input([max, max], [[max; 4], [max; 4], [0; 4]]);
    let trace = build_trace(&data);
    for lane in 0..DATA_LEN {
        assert_eq!(cell(&trace, FLAG_START + lane, 0), 1);
        assert_eq!(cell(&trace, FLAG_START + FLAG_LEN + lane, 0), 0);
        assert_eq!(cell(&trace, RESULT_START + lane, 0), max as u128);
    }
}

#[test]
fn lanes_use_the_modulus_of_their_level() {
    // lanes 0 and 2 work under 10, lanes 1 and 3 under 20; every lane adds 7 + 6
    let data = constant_input([10, 20], [[7; 4], [6; 4], [0; 4]]);
    let trace = build_trace(&data);
    let expected_f0: [u128; 4] = [1, 0, 1, 0];
    let expected_r: [u128; 4] = [3, 13, 3, 13];
    for lane in 0..DATA_LEN {
        assert_eq!(cell(&trace, FLAG_START + lane, 100), expected_f0[lane]);
        assert_eq!(cell(&trace, RESULT_START + lane, 100), expected_r[lane]);
    }
}

#[test]
fn trace_has_the_full_shape() {
    let trace = build_trace(&constant_input([7, 11], [[0; 4]; 3]));
    assert_eq!(trace.width(), STATE_WIDTH);
    assert_eq!(trace.length(), STATE_LENGTH);
    assert_eq!(trace.get_column(0).len(), STATE_LENGTH);
}

#[test]
fn modulus_columns_are_constant() {
    let data = varied_input();
    let trace = build_trace(&data);
    for t in 0..STATE_LENGTH {
        assert_eq!(cell(&trace, 0, t), 997);
        assert_eq!(cell(&trace, 1, t), 1009);
    }
}

#[test]
fn rows_hold_the_shifted_coefficient() {
    let data = varied_input();
    let trace = build_trace(&data);
    assert_eq!(ROW_SHIFT, 1);
    for t in 0..STATE_LENGTH {
        let position = (t + 1) % COEFF_DEGREE;
        for i in DATA_START..STATE_WIDTH {
            let idx = i - DATA_START;
            let expected = data.values[idx / 4][idx / 2 % 2][idx % 2][position];
            assert_eq!(cell(&trace, i, t), expected as u128);
        }
    }
    // the last row wraps round to coefficient 0
    assert_eq!(cell(&trace, DATA_START, STATE_LENGTH - 1), data.values[0][0][0][0] as u128);
}

#[test]
fn flags_are_bits_on_varied_input() {
    let trace = build_trace(&varied_input());
    for t in 0..STATE_LENGTH {
        for i in FLAG_START..DATA_START {
            assert!(cell(&trace, i, t) <= 1);
        }
    }
}

#[test]
fn rows_satisfy_the_lane_equation() {
    let trace = build_trace(&varied_input());
    for t in 0..STATE_LENGTH {
        for lane in 0..DATA_LEN {
            let m = trace.get(lane % 2, t);
            let f0 = trace.get(FLAG_START + lane, t);
            let f1 = trace.get(FLAG_START + FLAG_LEN + lane, t);
            let d1 = trace.get(DATA_START + lane, t);
            let d2 = trace.get(DATA_START + DATA_LEN + lane, t);
            let d3 = trace.get(DATA_START + 2 * DATA_LEN + lane, t);
            let expected = d1.add(d2).sub(f0.mul(m)).add(f1.mul(m)).sub(d3);
            assert_eq!(trace.get(RESULT_START + lane, t), expected);
        }
    }
}

#[test]
fn results_follow_the_integer_statement() {
    let data = varied_input();
    let trace = build_trace(&data);
    for t in 0..STATE_LENGTH {
        let position = (t + 1) % COEFF_DEGREE;
        for lane in 0..DATA_LEN {
            let m = data.modulus[lane % 2] as i128;
            let d1 = data.values[0][lane / 2][lane % 2][position] as i128;
            let d2 = data.values[1][lane / 2][lane % 2][position] as i128;
            let d3 = data.values[2][lane / 2][lane % 2][position] as i128;
            let f0 = if d1 + d2 > m { 1 } else { 0 };
            let s = d1 + d2 - f0 * m;
            let f1 = if s > d3 { 0 } else { 1 };
            let r = s + f1 * m - d3;
            let expected: u128 = if r >= 0 { r as u128 } else { MODULUS - ((-r) as u128) };
            assert_eq!(cell(&trace, FLAG_START + lane, t), f0 as u128);
            assert_eq!(cell(&trace, FLAG_START + FLAG_LEN + lane, t), f1 as u128);
            assert_eq!(cell(&trace, RESULT_START + lane, t), expected);
        }
    }
}

#[test]
fn seed_row_fills_row_zero() {
    let data = varied_input();
    let mut state = blank_row();
    seed_row(&data, &mut state);
    let trace = build_trace(&data);
    for i in 0..STATE_WIDTH {
        assert_eq!(state[i], trace.get(i, 0));
    }
    // row 0 holds coefficient 1, not coefficient 0
    assert_eq!(state[DATA_START].as_int(), data.values[0][0][0][1] as u128);
}

#[test]
fn advance_row_gives_the_next_row() {
    let data = varied_input();
    let trace = build_trace(&data);
    let mut state = blank_row();
    seed_row(&data, &mut state);
    for step in 0..10 {
        advance_row(&data, step, &mut state);
        for i in 0..STATE_WIDTH {
            assert_eq!(state[i], trace.get(i, step + 1));
        }
    }
}

#[test]
fn advance_row_from_the_row_before_the_last() {
    let data = varied_input();
    let trace = build_trace(&data);
    let mut state: Vec<BaseElement> =
        (0..STATE_WIDTH).map(|i| trace.get(i, STATE_LENGTH - 2)).collect();
    advance_row(&data, STATE_LENGTH - 2, &mut state);
    for i in 0..STATE_WIDTH {
        assert_eq!(state[i], trace.get(i, STATE_LENGTH - 1));
    }
    assert_eq!(state[DATA_START + 1].as_int(), data.values[0][0][1][0] as u128);
}

#[test]
fn load_modulus_touches_only_the_modulus_columns() {
    let data = constant_input([7, 11], [[0; 4]; 3]);
    let mut state = vec![BaseElement::from_u64(5); STATE_WIDTH];
    load_modulus(&data, &mut state);
    assert_eq!(state[0].as_int(), 7);
    assert_eq!(state[1].as_int(), 11);
    for i in 2..STATE_WIDTH {
        assert_eq!(state[i].as_int(), 5);
    }
}

#[test]
fn load_data_touches_only_the_data_columns() {
    let data = varied_input();
    let mut state = vec![BaseElement::from_u64(5); STATE_WIDTH];
    load_data(&data, 17, &mut state);
    for i in 0..DATA_START {
        assert_eq!(state[i].as_int(), 5);
    }
    for i in DATA_START..STATE_WIDTH {
        let idx = i - DATA_START;
        assert_eq!(state[i].as_int(), data.values[idx / 4][idx / 2 % 2][idx % 2][17] as u128);
    }
}

#[test]
fn settle_lanes_chooses_flags_and_results() {
    let mut state = blank_row();
    state[0] = BaseElement::from_u64(10);
    state[1] = BaseElement::from_u64(20);
    // lane 0: 7 + 6 - 0; lane 1: 7 + 6 - 15; lane 2: 2 + 2 - 5; lane 3: 20 + 20 - 1
    let d1: [u64; 4] = [7, 7, 2, 20];
    let d2: [u64; 4] = [6, 6, 2, 20];
    let d3: [u64; 4] = [0, 15, 5, 1];
    for lane in 0..4 {
        state[DATA_START + lane] = BaseElement::from_u64(d1[lane]);
        state[DATA_START + 4 + lane] = BaseElement::from_u64(d2[lane]);
        state[DATA_START + 8 + lane] = BaseElement::from_u64(d3[lane]);
    }
    let before = ints(&state);
    settle_lanes(&mut state);
    let after = ints(&state);
    assert_eq!(&after[2..6], &[3, 18, 9, 19]);
    assert_eq!(&after[6..10], &[1, 0, 0, 1]);
    assert_eq!(&after[10..14], &[0, 1, 1, 0]);
    assert_eq!(&after[0..2], &before[0..2]);
    assert_eq!(&after[14..], &before[14..]);
}

#[test]
fn settle_lane_touches_one_lane() {
    let mut state = vec![BaseElement::from_u64(9); STATE_WIDTH];
    state[0] = BaseElement::from_u64(10);
    state[DATA_START + 2] = BaseElement::from_u64(7);
    state[DATA_START + 4 + 2] = BaseElement::from_u64(6);
    state[DATA_START + 8 + 2] = BaseElement::from_u64(0);
    let before = ints(&state);
    settle_lane(&mut state, 2);
    let after = ints(&state);
    for i in 0..STATE_WIDTH {
        match i {
            4 => assert_eq!(after[i], 3),
            8 => assert_eq!(after[i], 1),
            12 => assert_eq!(after[i], 0),
            _ => assert_eq!(after[i], before[i]),
        }
    }
}

#[test]
fn carry_results_uses_the_flags_at_hand() {
    let mut state = blank_row();
    state[0] = BaseElement::from_u64(10);
    state[1] = BaseElement::from_u64(20);
    for lane in 0..4 {
        state[FLAG_START + lane] = BaseElement::from_u64(3);
        state[FLAG_START + 4 + lane] = BaseElement::from_u64(5);
        state[DATA_START + lane] = BaseElement::from_u64(100);
        state[DATA_START + 4 + lane] = BaseElement::from_u64(50);
        state[DATA_START + 8 + lane] = BaseElement::from_u64(1);
    }
    let before = ints(&state);
    carry_results(&mut state);
    let after = ints(&state);
    // (100 + 50 - 3 m) + 5 m - 1 = 149 + 2 m
    assert_eq!(&after[2..6], &[169, 189, 169, 189]);
    assert_eq!(&after[0..2], &before[0..2]);
    assert_eq!(&after[6..], &before[6..]);
}

#[test]
fn combine_is_the_lane_formula() {
    let e = BaseElement::from_u64;
    // (3 + 4 - 0 * 100) + 0 * 100 - 0
    assert_eq!(combine(e(100), e(0), e(0), e(3), e(4), e(0)).as_int(), 7);
    // (7 + 6 - 1 * 10) + 0 * 10 - 0
    assert_eq!(combine(e(10), e(1), e(0), e(7), e(6), e(0)).as_int(), 3);
    // (2 + 2 - 0 * 10) + 1 * 10 - 5
    assert_eq!(combine(e(10), e(0), e(1), e(2), e(2), e(5)).as_int(), 9);
    // (1 + 1 - 1 * 10) + 0 - 0 = -8
    assert_eq!(combine(e(10), e(1), e(0), e(1), e(1), e(0)).as_int(), MODULUS - 8);
    // flags need not be bits: (5 + 5 - 2 * 3) + 4 * 3 - 1 = 15
    assert_eq!(combine(e(3), e(2), e(4), e(5), e(5), e(1)).as_int(), 15);
}

#[test]
fn well_formed_input_is_accepted() {
    assert!(constant_input([7, 11], [[0; 4]; 3]).is_well_formed());
    assert!(varied_input().is_well_formed());
}

#[test]
fn input_with_wrong_modulus_count_is_rejected() {
    let mut data = constant_input([7, 11], [[0; 4]; 3]);
    data.modulus.push(13);
    assert!(!data.is_well_formed());
    data.modulus.truncate(1);
    assert!(!data.is_well_formed());
}

#[test]
fn input_with_wrong_polynomial_length_is_rejected() {
    for d in 0..3 {
        for v in 0..2 {
            for l in 0..2 {
                let mut data = constant_input([7, 11], [[0; 4]; 3]);
                data.values[d][v][l].pop();
                assert!(!data.is_well_formed());
                let mut data = constant_input([7, 11], [[0; 4]; 3]);
                data.values[d][v][l].push(0);
                assert!(!data.is_well_formed());
            }
        }
    }
}

#[test]
fn default_input_is_empty() {
    let data = CustomData::default();
    assert!(data.modulus.is_empty());
    for d in 0..3 {
        for v in 0..2 {
            for l in 0..2 {
                assert!(data.values[d][v][l].is_empty());
            }
        }
    }
    assert!(!data.is_well_formed());
}
