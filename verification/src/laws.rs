//! What holds of every trace that the witness generator builds.

use crate::air::{transition_residual, FreshAir, NUM_ASSERTIONS};
use crate::data::{is_reading_of, is_record_of, Data, DataError};
use crate::field::{field_sub, is_canonical, values_of, BaseElement, MODULUS};
use crate::lane::{lane_expression, row_data, row_flag, row_modulus, row_result};
use crate::layout::{
    COEFF_LEVEL, DATA_LEN, DATA_NUM, FLAG_LEN, FLAG_NUM, FLAG_START, MODULUS_NUM, RESULT_START,
    STATE_LENGTH, STATE_WIDTH, VALUE_NUM,
};
use crate::public::{reads_results_of, result_column, PublicInputs};
use crate::trace::Trace;
use crate::witness::{
    is_witness_of, lemma_settled_lane_on_integers, row_coefficient, witness_overflow,
    witness_result, witness_wrap, CustomData,
};
use vstd::arithmetic::div_mod::{lemma_mod_multiples_vanish, lemma_small_mod};
use vstd::prelude::*;

verus! {

/// Row `t` of the trace of `data`, read as integers, is `data.witness_row(t)`.
pub proof fn lemma_trace_row(trace: Trace, data: &CustomData, t: int)
    requires
        is_witness_of(trace, data),
        0 <= t < STATE_LENGTH,
    ensures
        values_of(trace.row(t)) == data.witness_row(t),
{
    assert forall|i: int| 0 <= i < STATE_WIDTH implies values_of(trace.row(t))[i]
        == data.witness_row(t)[i] by {
        assert(trace.row(t)[i] == trace@[i][t]);
    }
    assert(values_of(trace.row(t)) =~= data.witness_row(t));
}

/// The cells of a lane in row `t` are the integers that the witness is defined by.
proof fn lemma_lane_cells(data: &CustomData, t: int, lane: int)
    requires
        data.wf(),
        0 <= t < STATE_LENGTH,
        0 <= lane < DATA_LEN,
    ensures
        row_modulus(data.witness_row(t), lane) == data.lane_modulus(lane),
        0 <= data.lane_modulus(lane) <= u64::MAX,
        forall|slot: int|
            0 <= slot < DATA_NUM ==> #[trigger] row_data(data.witness_row(t), slot, lane)
                == data.coefficient(slot, lane, row_coefficient(t)),
        forall|slot: int|
            0 <= slot < DATA_NUM ==> 0 <= #[trigger] data.coefficient(
                slot,
                lane,
                row_coefficient(t),
            ) <= u64::MAX,
{
    let k: int = row_coefficient(t);
    assert forall|slot: int| 0 <= slot < DATA_NUM implies #[trigger] row_data(
        data.witness_row(t),
        slot,
        lane,
    ) == data.coefficient(slot, lane, k) by {}
}

/// In every row and lane the result is the lane expression of that row:
/// `R = (D0 + D1 - F0 * M) + F1 * M - D2` in the field.
pub proof fn lemma_rows_satisfy_lane_equation(data: &CustomData, t: int, lane: int)
    requires
        data.wf(),
        0 <= t < STATE_LENGTH,
        0 <= lane < DATA_LEN,
    ensures
        row_result(data.witness_row(t), lane) == lane_expression(data.witness_row(t), lane),
        is_canonical(row_result(data.witness_row(t), lane)),
{
    let k: int = row_coefficient(t);
    lemma_lane_cells(data, t, lane);
    assert(row_data(data.witness_row(t), 0, lane) == data.coefficient(0, lane, k));
    assert(row_data(data.witness_row(t), 1, lane) == data.coefficient(1, lane, k));
    assert(row_data(data.witness_row(t), 2, lane) == data.coefficient(2, lane, k));
    assert(0 <= data.coefficient(0, lane, k) <= u64::MAX);
    assert(0 <= data.coefficient(1, lane, k) <= u64::MAX);
    assert(0 <= data.coefficient(2, lane, k) <= u64::MAX);
    lemma_settled_lane_on_integers(
        data.lane_modulus(lane),
        data.coefficient(0, lane, k),
        data.coefficient(1, lane, k),
        data.coefficient(2, lane, k),
    );
}

/// Where neither addend nor the subtrahend is above the modulus, the result of a lane lies
/// between 0 and the modulus and is congruent, modulo the modulus, to the sum of the addends
/// less the subtrahend.
pub proof fn lemma_result_is_the_reduced_difference(m: int, d1: int, d2: int, d3: int)
    requires
        0 < m,
        0 <= d1 <= m,
        0 <= d2 <= m,
        0 <= d3 <= m,
    ensures
        0 <= witness_result(m, d1, d2, d3) <= m,
        witness_result(m, d1, d2, d3) % m == (d1 + d2 - d3) % m,
{
    let r: int = witness_result(m, d1, d2, d3);
    let k: int = witness_wrap(m, d1, d2, d3) - witness_overflow(m, d1, d2);
    assert(r == (d1 + d2 - d3) + k * m) by (nonlinear_arith)
        requires
            r == witness_result(m, d1, d2, d3),
            k == witness_wrap(m, d1, d2, d3) - witness_overflow(m, d1, d2),
            0 < m,
            0 <= d1 <= m,
            0 <= d2 <= m,
            0 <= d3 <= m,
    ;
    assert(k * m == m * k) by (nonlinear_arith);
    lemma_mod_multiples_vanish(k, d1 + d2 - d3, m);
}

/// Every cell of every row is a canonical representative.
pub proof fn lemma_cells_are_canonical(data: &CustomData, t: int, i: int)
    requires
        data.wf(),
        0 <= t < STATE_LENGTH,
        0 <= i < STATE_WIDTH,
    ensures
        is_canonical(data.witness_row(t)[i]),
{
    if RESULT_START <= i < FLAG_START {
        lemma_rows_satisfy_lane_equation(data, t, i - RESULT_START);
    }
}

/// In every row and lane both flags are 0 or 1.
pub proof fn lemma_flags_are_bits(data: &CustomData, t: int, group: int, lane: int)
    requires
        data.wf(),
        0 <= t < STATE_LENGTH,
        0 <= group < FLAG_NUM,
        0 <= lane < DATA_LEN,
    ensures
        row_flag(data.witness_row(t), group, lane) == 0 || row_flag(
            data.witness_row(t),
            group,
            lane,
        ) == 1,
{
    let i: int = if group == 0 {
        FLAG_START + lane
    } else {
        FLAG_START + FLAG_LEN + lane
    };
    assert(FLAG_START + group * FLAG_LEN + lane == i) by (nonlinear_arith)
        requires
            group == 0 || group == 1,
            i == if group == 0 {
                FLAG_START + lane
            } else {
                FLAG_START + FLAG_LEN + lane
            },
    ;
    assert(data.witness_row(t)[i] == data.witness_cell(t, i));
}

/// In every row the modulus columns hold the modulus of the input.
pub proof fn lemma_modulus_columns(data: &CustomData, t: int, level: int)
    requires
        data.wf(),
        0 <= t < STATE_LENGTH,
        0 <= level < MODULUS_NUM,
    ensures
        data.witness_row(t)[level] == data.modulus@[level] as int,
{
}

/// On two consecutive rows the transition constraint of a lane evaluates to the difference, in
/// the field, of the lane's results on the two rows.
pub proof fn lemma_transition_residual(data: &CustomData, t: int, lane: int)
    requires
        data.wf(),
        0 <= t < STATE_LENGTH - 1,
        0 <= lane < DATA_LEN,
    ensures
        transition_residual(data.witness_row(t), data.witness_row(t + 1), lane) == field_sub(
            row_result(data.witness_row(t + 1), lane),
            row_result(data.witness_row(t), lane),
        ),
{
    lemma_rows_satisfy_lane_equation(data, t, lane);
}

/// The transition constraint of a lane vanishes on two consecutive rows on which the lane has
/// the same result.
pub proof fn lemma_transition_vanishes(data: &CustomData, t: int, lane: int)
    requires
        data.wf(),
        0 <= t < STATE_LENGTH - 1,
        0 <= lane < DATA_LEN,
        row_result(data.witness_row(t + 1), lane) == row_result(data.witness_row(t), lane),
    ensures
        transition_residual(data.witness_row(t), data.witness_row(t + 1), lane) == 0,
{
    lemma_transition_residual(data, t, lane);
    lemma_small_mod(0, MODULUS as nat);
}

/// The transition constraint of a lane does not vanish on two consecutive rows on which the
/// lane's results differ.
pub proof fn lemma_transition_detects_change(data: &CustomData, t: int, lane: int)
    requires
        data.wf(),
        0 <= t < STATE_LENGTH - 1,
        0 <= lane < DATA_LEN,
        row_result(data.witness_row(t + 1), lane) != row_result(data.witness_row(t), lane),
    ensures
        transition_residual(data.witness_row(t), data.witness_row(t + 1), lane) != 0,
{
    lemma_transition_residual(data, t, lane);
    lemma_rows_satisfy_lane_equation(data, t, lane);
    lemma_rows_satisfy_lane_equation(data, t + 1, lane);
    let p: int = MODULUS as int;
    let d: int = row_result(data.witness_row(t + 1), lane) - row_result(data.witness_row(t), lane);
    if d > 0 {
        lemma_small_mod(d as nat, p as nat);
    } else {
        lemma_small_mod((d + p) as nat, p as nat);
        lemma_mod_multiples_vanish(1, d, p);
    }
}

/// The public inputs read off the trace of `data` hold, for value `v`, level `l` and row `t`,
/// the cell of column `result_column(v, l)` in row `t`.
pub proof fn lemma_public_inputs_are_result_columns(
    trace: Trace,
    data: &CustomData,
    inputs: PublicInputs,
    v: int,
    l: int,
    t: int,
)
    requires
        is_witness_of(trace, data),
        reads_results_of(inputs, trace),
        0 <= v < VALUE_NUM,
        0 <= l < COEFF_LEVEL,
        0 <= t < STATE_LENGTH,
    ensures
        inputs.result@[v]@[l]@ == trace@[result_column(v, l)],
        inputs@[v][l].len() == STATE_LENGTH,
        inputs@[v][l][t] == data.witness_cell(t, result_column(v, l)),
{
    assert(inputs.result@[v]@[l]@ == trace@[result_column(v, l)]);
    assert(trace@[result_column(v, l)].len() == trace@[0].len());
    assert(trace@[result_column(v, l)][t]@ == data.witness_cell(t, result_column(v, l)));
}

/// Every boundary assertion made from the public inputs of a trace holds of that trace.
pub proof fn lemma_assertions_hold(trace: Trace, inputs: PublicInputs, air: FreshAir, i: int)
    requires
        trace.wf(),
        trace.spec_width() >= RESULT_START + DATA_LEN,
        trace.spec_length() >= 1,
        reads_results_of(inputs, trace),
        air.spec_trace_length() == trace.spec_length(),
        forall|v: int, l: int|
            0 <= v < VALUE_NUM && 0 <= l < COEFF_LEVEL ==> #[trigger] air.spec_result(v, l)
                == inputs.result@[v]@[l]@,
        0 <= i < NUM_ASSERTIONS,
    ensures
        air.wf(),
        air.spec_assertion(i).column < trace.spec_width(),
        air.spec_assertion(i).step < trace.spec_length(),
        trace@[air.spec_assertion(i).column as int][air.spec_assertion(i).step as int]
            == air.spec_assertion(i).value,
{
    assert forall|v: int, l: int| 0 <= v < VALUE_NUM && 0 <= l < COEFF_LEVEL implies (
    #[trigger] air.spec_result(v, l)).len() >= air.spec_trace_length() by {
        assert(inputs.result@[v]@[l]@ == trace@[result_column(v, l)]);
        assert(trace@[result_column(v, l)].len() == trace@[0].len());
    }
    let lane: int = i % (DATA_LEN as int);
    let v: int = lane / (COEFF_LEVEL as int);
    let l: int = lane % (COEFF_LEVEL as int);
    assert(air.spec_result(v, l) == inputs.result@[v]@[l]@);
    assert(inputs.result@[v]@[l]@ == trace@[result_column(v, l)]);
    assert(result_column(v, l) == RESULT_START + lane);
}

/// Public inputs that stand for the same integers hold the same elements.
pub proof fn lemma_same_integers_same_elements(a: PublicInputs, b: PublicInputs, v: int, l: int)
    requires
        a@ == b@,
        0 <= v < VALUE_NUM,
        0 <= l < COEFF_LEVEL,
    ensures
        a.result@[v]@[l]@ == b.result@[v]@[l]@,
{
    let x: Seq<BaseElement> = a.result@[v]@[l]@;
    let y: Seq<BaseElement> = b.result@[v]@[l]@;
    assert(values_of(x) == a@[v][l]);
    assert(values_of(y) == b@[v][l]);
    assert(x.len() == values_of(x).len());
    assert(y.len() == values_of(y).len());
    assert forall|t: int| 0 <= t < x.len() implies x[t] == y[t] by {
        assert(values_of(x)[t] == x[t]@);
        assert(values_of(y)[t] == y[t]@);
        BaseElement::lemma_view_injective(x[t], y[t]);
    }
    assert(x =~= y);
}

/// Reading back a record that stores a proof and public inputs gives that proof and those
/// inputs, element for element and byte for byte.
pub proof fn lemma_round_trip(
    proof: Vec<u8>,
    inputs: PublicInputs,
    data: Data,
    back: Result<(PublicInputs, Vec<u8>), DataError>,
    v: int,
    l: int,
)
    requires
        is_record_of(data, proof@, inputs),
        is_reading_of(back, data),
        0 <= v < VALUE_NUM,
        0 <= l < COEFF_LEVEL,
    ensures
        back is Ok,
        back->Ok_0.1@ == proof@,
        back->Ok_0.0.result@[v]@[l]@ == inputs.result@[v]@[l]@,
{
    lemma_same_integers_same_elements(back->Ok_0.0, inputs, v, l);
}

} // verus!
