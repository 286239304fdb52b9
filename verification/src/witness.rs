//! The witness generator: from the input record to the filled trace.
//!
//! Row `t` of the trace holds, for every lane, the data of coefficient
//! `(t + ROW_SHIFT) mod COEFF_DEGREE`, the two flags that reduce the sum of
//! the addends into range, and the result.

use crate::field::{field_add, field_sub, values_of, BaseElement, MODULUS};
use crate::lane::{
    carry_results, overflow_flag, settle_lanes, settled_cell, settled_result, settled_row,
    wrap_flag,
};
use crate::layout::{
    column_role, data_level, data_slot, data_value, lane_level, lane_value_index, Column,
    COEFF_DEGREE, COEFF_LEVEL, DATA_END, DATA_LEN, DATA_NUM, DATA_START, MODULUS_NUM,
    STATE_LENGTH, STATE_WIDTH, VALUE_NUM,
};
use crate::trace::{Trace, TraceType};
use vstd::arithmetic::div_mod::{lemma_mod_multiples_vanish, lemma_small_mod};
use vstd::prelude::*;

verus! {

/// How far the coefficient that a row holds runs ahead of the row's index.
pub const ROW_SHIFT: usize = 1;

/// The input record: one modulus per level and, for every data slot, value and level, the
/// coefficients of one polynomial.
#[derive(Debug)]
pub struct CustomData {
    pub modulus: Vec<u64>,
    pub values: [[[Vec<u64>; COEFF_LEVEL]; VALUE_NUM]; DATA_NUM],
}

impl Default for CustomData {
    /// The record with no modulus and no coefficients.
    fn default() -> (data: Self)
        ensures
            data.modulus@.len() == 0,
            forall|d: int, v: int, l: int|
                0 <= d < DATA_NUM && 0 <= v < VALUE_NUM && 0 <= l < COEFF_LEVEL ==> (
                #[trigger] data.values@[d]@[v]@[l])@.len() == 0,
    {
        CustomData {
            modulus: Vec::new(),
            values: [
                [[Vec::new(), Vec::new()], [Vec::new(), Vec::new()]],
                [[Vec::new(), Vec::new()], [Vec::new(), Vec::new()]],
                [[Vec::new(), Vec::new()], [Vec::new(), Vec::new()]],
            ],
        }
    }
}

impl CustomData {
    /// Whether the record has one modulus per level and `COEFF_DEGREE` coefficients in every
    /// polynomial.
    pub open spec fn wf(&self) -> bool {
        &&& self.modulus@.len() == MODULUS_NUM
        &&& forall|d: int, v: int, l: int|
            0 <= d < DATA_NUM && 0 <= v < VALUE_NUM && 0 <= l < COEFF_LEVEL ==> (
            #[trigger] self.values@[d]@[v]@[l])@.len() == COEFF_DEGREE
    }

    /// The modulus that lane `lane` works under.
    pub open spec fn lane_modulus(&self, lane: int) -> int {
        self.modulus@[lane_level(lane)] as int
    }

    /// Coefficient `position` of the polynomial of slot `slot` that lane `lane` reads.
    pub open spec fn coefficient(&self, slot: int, lane: int, position: int) -> int {
        self.values@[slot]@[lane_value_index(lane)]@[lane_level(lane)]@[position] as int
    }

    /// The value of column `i` in row `t` of the trace.
    pub open spec fn witness_cell(&self, t: int, i: int) -> int {
        let k = row_coefficient(t);
        match column_role(i) {
            Column::Modulus { level } => self.modulus@[level as int] as int,
            Column::Result { lane } => witness_result(
                self.lane_modulus(lane as int),
                self.coefficient(0, lane as int, k),
                self.coefficient(1, lane as int, k),
                self.coefficient(2, lane as int, k),
            ),
            Column::Flag { group, lane } => if group == 0 {
                witness_overflow(
                    self.lane_modulus(lane as int),
                    self.coefficient(0, lane as int, k),
                    self.coefficient(1, lane as int, k),
                )
            } else {
                witness_wrap(
                    self.lane_modulus(lane as int),
                    self.coefficient(0, lane as int, k),
                    self.coefficient(1, lane as int, k),
                    self.coefficient(2, lane as int, k),
                )
            },
            Column::Data { slot, lane } => self.coefficient(slot as int, lane as int, k),
        }
    }

    /// Row `t` of the trace.
    pub open spec fn witness_row(&self, t: int) -> Seq<int> {
        Seq::new(STATE_WIDTH as nat, |i: int| self.witness_cell(t, i))
    }

    /// Tests the shape of the record.
    pub fn is_well_formed(&self) -> (ok: bool)
        ensures
            ok == self.wf(),
    {
        if self.modulus.len() != MODULUS_NUM {
            return false;
        }
        let mut d: usize = 0;
        while d < DATA_NUM
            invariant
                d <= DATA_NUM,
                forall|a: int, v: int, l: int|
                    0 <= a < d && 0 <= v < VALUE_NUM && 0 <= l < COEFF_LEVEL ==> (
                    #[trigger] self.values@[a]@[v]@[l])@.len() == COEFF_DEGREE,
            decreases DATA_NUM - d,
        {
            let mut v: usize = 0;
            while v < VALUE_NUM
                invariant
                    d < DATA_NUM,
                    v <= VALUE_NUM,
                    forall|a: int, b: int, l: int|
                        0 <= a < d && 0 <= b < VALUE_NUM && 0 <= l < COEFF_LEVEL ==> (
                        #[trigger] self.values@[a]@[b]@[l])@.len() == COEFF_DEGREE,
                    forall|b: int, l: int|
                        0 <= b < v && 0 <= l < COEFF_LEVEL ==> (
                        #[trigger] self.values@[d as int]@[b]@[l])@.len() == COEFF_DEGREE,
                decreases VALUE_NUM - v,
            {
                let mut l: usize = 0;
                while l < COEFF_LEVEL
                    invariant
                        d < DATA_NUM,
                        v < VALUE_NUM,
                        l <= COEFF_LEVEL,
                        forall|a: int, b: int, c: int|
                            0 <= a < d && 0 <= b < VALUE_NUM && 0 <= c < COEFF_LEVEL ==> (
                            #[trigger] self.values@[a]@[b]@[c])@.len() == COEFF_DEGREE,
                        forall|b: int, c: int|
                            0 <= b < v && 0 <= c < COEFF_LEVEL ==> (
                            #[trigger] self.values@[d as int]@[b]@[c])@.len() == COEFF_DEGREE,
                        forall|c: int|
                            0 <= c < l ==> (#[trigger] self.values@[d as int]@[v as int]@[c])@.len()
                                == COEFF_DEGREE,
                    decreases COEFF_LEVEL - l,
                {
                    if self.values[d][v][l].len() != COEFF_DEGREE {
                        return false;
                    }
                    l += 1;
                }
                v += 1;
            }
            d += 1;
        }
        true
    }
}

/// The coefficient that row `t` holds.
pub open spec fn row_coefficient(t: int) -> int {
    (t + ROW_SHIFT) % (COEFF_DEGREE as int)
}

/// The sum of the addends, less the modulus where the sum is above it.
pub open spec fn reduced_sum(m: int, d1: int, d2: int) -> int {
    if d1 + d2 > m {
        d1 + d2 - m
    } else {
        d1 + d2
    }
}

/// 1 where the sum of the addends is above the modulus, else 0.
pub open spec fn witness_overflow(m: int, d1: int, d2: int) -> int {
    if d1 + d2 > m {
        1
    } else {
        0
    }
}

/// 0 where the reduced sum is above the subtrahend, else 1.
pub open spec fn witness_wrap(m: int, d1: int, d2: int, d3: int) -> int {
    if reduced_sum(m, d1, d2) > d3 {
        0
    } else {
        1
    }
}

/// The reduced sum less the subtrahend; where the reduced sum is not above the subtrahend the
/// modulus is added first, and the field modulus too where that still leaves a negative number.
pub open spec fn witness_result(m: int, d1: int, d2: int, d3: int) -> int {
    let s = reduced_sum(m, d1, d2);
    if s > d3 {
        s - d3
    } else if s + m >= d3 {
        s + m - d3
    } else {
        s + m - d3 + MODULUS
    }
}

/// On 64-bit inputs the flags and the result that settling a lane computes in the field are the
/// ones stated over the integers.
pub proof fn lemma_settled_lane_on_integers(m: int, d1: int, d2: int, d3: int)
    requires
        0 <= m <= u64::MAX,
        0 <= d1 <= u64::MAX,
        0 <= d2 <= u64::MAX,
        0 <= d3 <= u64::MAX,
    ensures
        overflow_flag(m, d1, d2) == witness_overflow(m, d1, d2),
        wrap_flag(m, d1, d2, d3) == witness_wrap(m, d1, d2, d3),
        settled_result(m, d1, d2, d3) == witness_result(m, d1, d2, d3),
{
    let p: int = MODULUS as int;
    let f0: int = witness_overflow(m, d1, d2);
    let f1: int = witness_wrap(m, d1, d2, d3);
    let s: int = reduced_sum(m, d1, d2);
    lemma_small_mod((d1 + d2) as nat, p as nat);
    assert(field_add(d1, d2) == d1 + d2);
    assert(f0 * m == if f0 == 1 {
        m
    } else {
        0
    }) by (nonlinear_arith)
        requires
            f0 == 0 || f0 == 1,
    ;
    assert(f1 * m == if f1 == 1 {
        m
    } else {
        0
    }) by (nonlinear_arith)
        requires
            f1 == 0 || f1 == 1,
    ;
    lemma_small_mod((f0 * m) as nat, p as nat);
    lemma_small_mod((f1 * m) as nat, p as nat);
    lemma_small_mod(s as nat, p as nat);
    assert(field_sub(d1 + d2, f0 * m) == s);
    lemma_small_mod((s + f1 * m) as nat, p as nat);
    assert(field_add(s, f1 * m) == s + f1 * m);
    if s + f1 * m - d3 >= 0 {
        lemma_small_mod((s + f1 * m - d3) as nat, p as nat);
    } else {
        lemma_small_mod((s + f1 * m - d3 + p) as nat, p as nat);
        lemma_mod_multiples_vanish(1, s + f1 * m - d3, p);
    }
}

/// Whether `row` holds the modulus of every level of `data`.
pub open spec fn holds_modulus(data: &CustomData, row: Seq<int>) -> bool {
    forall|level: int| 0 <= level < MODULUS_NUM ==> #[trigger] row[level] == data.modulus@[level] as int
}

/// Whether the data cells of `row` hold coefficient `position` of every polynomial of `data`.
pub open spec fn holds_coefficient(data: &CustomData, row: Seq<int>, position: int) -> bool {
    forall|c: int|
        DATA_START <= c < DATA_END ==> #[trigger] row[c] == data.coefficient(
            (c - DATA_START) / (DATA_LEN as int),
            (c - DATA_START) % (DATA_LEN as int),
            position,
        )
}

/// Settling a row that holds the modulus and the coefficient of row `t` gives row `t` of the
/// trace.
pub proof fn lemma_settled_row_is_witness(data: &CustomData, t: int, row: Seq<int>)
    requires
        data.wf(),
        0 <= t,
        row.len() == STATE_WIDTH,
        holds_modulus(data, row),
        holds_coefficient(data, row, row_coefficient(t)),
    ensures
        settled_row(row) == data.witness_row(t),
{
    let k: int = row_coefficient(t);
    assert forall|i: int| 0 <= i < STATE_WIDTH implies settled_cell(row, i) == data.witness_cell(
        t,
        i,
    ) by {
        if i < MODULUS_NUM {
            assert(row[i] == data.modulus@[i] as int);
        } else if i < DATA_START {
            let lane: int = (i - MODULUS_NUM) % (DATA_LEN as int);
            assert(row[lane_level(lane)] == data.modulus@[lane_level(lane)] as int);
            assert(row[DATA_START + lane] == data.coefficient(0, lane, k));
            assert(row[DATA_START + DATA_LEN + lane] == data.coefficient(1, lane, k));
            assert(row[DATA_START + 2 * DATA_LEN + lane] == data.coefficient(2, lane, k));
            lemma_settled_lane_on_integers(
                data.lane_modulus(lane),
                data.coefficient(0, lane, k),
                data.coefficient(1, lane, k),
                data.coefficient(2, lane, k),
            );
        } else {
            assert(row[i] == data.coefficient(
                (i - DATA_START) / (DATA_LEN as int),
                (i - DATA_START) % (DATA_LEN as int),
                k,
            ));
        }
    }
    assert(settled_row(row) =~= data.witness_row(t));
}

/// Writes the modulus of every level into its column.
pub fn load_modulus(data: &CustomData, state: &mut Vec<BaseElement>)
    requires
        data.wf(),
        old(state)@.len() == STATE_WIDTH,
    ensures
        final(state)@.len() == STATE_WIDTH,
        holds_modulus(data, values_of(final(state)@)),
        forall|c: int| MODULUS_NUM <= c < STATE_WIDTH ==> #[trigger] final(state)@[c] == old(state)@[c],
{
    let mut i: usize = 0;
    while i < MODULUS_NUM
        invariant
            i <= MODULUS_NUM,
            data.wf(),
            state@.len() == STATE_WIDTH,
            forall|level: int| 0 <= level < i ==> (#[trigger] state@[level])@ == data.modulus@[level] as int,
            forall|c: int| MODULUS_NUM <= c < STATE_WIDTH ==> #[trigger] state@[c] == old(state)@[c],
        decreases MODULUS_NUM - i,
    {
        state[i] = BaseElement::from_u64(data.modulus[i]);
        i += 1;
    }
    assert forall|level: int| 0 <= level < MODULUS_NUM implies #[trigger] values_of(
        state@,
    )[level] == data.modulus@[level] as int by {
        assert(state@[level]@ == data.modulus@[level] as int);
    }
}

/// Writes coefficient `position` of every polynomial into its data column.
pub fn load_data(data: &CustomData, position: usize, state: &mut Vec<BaseElement>)
    requires
        data.wf(),
        position < COEFF_DEGREE,
        old(state)@.len() == STATE_WIDTH,
    ensures
        final(state)@.len() == STATE_WIDTH,
        holds_coefficient(data, values_of(final(state)@), position as int),
        forall|c: int| 0 <= c < DATA_START ==> #[trigger] final(state)@[c] == old(state)@[c],
{
    let mut i: usize = DATA_START;
    while i < DATA_END
        invariant
            DATA_START <= i <= DATA_END,
            data.wf(),
            position < COEFF_DEGREE,
            state@.len() == STATE_WIDTH,
            forall|c: int|
                DATA_START <= c < i ==> (#[trigger] state@[c])@ == data.coefficient(
                    (c - DATA_START) / (DATA_LEN as int),
                    (c - DATA_START) % (DATA_LEN as int),
                    position as int,
                ),
            forall|c: int| 0 <= c < DATA_START ==> #[trigger] state@[c] == old(state)@[c],
        decreases DATA_END - i,
    {
        let d_idx: usize = data_slot(i);
        let v_idx: usize = data_value(i);
        let l_idx: usize = data_level(i);
        assert(data.values@[d_idx as int]@[v_idx as int]@[l_idx as int]@.len() == COEFF_DEGREE);
        state[i] = BaseElement::from_u64(data.values[d_idx][v_idx][l_idx][position]);
        i += 1;
    }
    assert forall|c: int| DATA_START <= c < DATA_END implies #[trigger] values_of(state@)[c]
        == data.coefficient(
        (c - DATA_START) / (DATA_LEN as int),
        (c - DATA_START) % (DATA_LEN as int),
        position as int,
    ) by {
        assert(state@[c]@ == data.coefficient(
            (c - DATA_START) / (DATA_LEN as int),
            (c - DATA_START) % (DATA_LEN as int),
            position as int,
        ));
    }
}

/// Fills the first row: the modulus, the data of coefficient 0 and then, over it, the data of
/// coefficient `ROW_SHIFT`, and the flags and results that belong to that data.
pub fn seed_row(data: &CustomData, state: &mut Vec<BaseElement>)
    requires
        data.wf(),
        old(state)@.len() == STATE_WIDTH,
    ensures
        final(state)@.len() == STATE_WIDTH,
        values_of(final(state)@) == data.witness_row(0),
{
    load_modulus(data, state);
    let ghost seeded: Seq<int> = values_of(state@);
    load_data(data, 0, state);
    let ghost first: Seq<int> = values_of(state@);
    load_data(data, ROW_SHIFT, state);
    proof {
        let row: Seq<int> = values_of(state@);
        assert forall|level: int| 0 <= level < MODULUS_NUM implies #[trigger] row[level]
            == data.modulus@[level] as int by {
            assert(row[level] == first[level]);
            assert(first[level] == seeded[level]);
        }
        lemma_settled_row_is_witness(data, 0, row);
    }
    settle_lanes(state);
}

/// Turns the last completed row, row `last_step`, into the row after it: the results are
/// recomputed from the flags and data at hand, the data of the next coefficient is fetched, and
/// the flags and results are chosen anew.
pub fn advance_row(data: &CustomData, last_step: usize, state: &mut Vec<BaseElement>)
    requires
        data.wf(),
        last_step + 1 + ROW_SHIFT <= usize::MAX,
        old(state)@.len() == STATE_WIDTH,
        holds_modulus(data, values_of(old(state)@)),
    ensures
        final(state)@.len() == STATE_WIDTH,
        values_of(final(state)@) == data.witness_row(last_step + 1),
{
    carry_results(state);
    let ghost carried: Seq<int> = values_of(state@);
    load_data(data, (last_step + 1 + ROW_SHIFT) % COEFF_DEGREE, state);
    proof {
        let row: Seq<int> = values_of(state@);
        assert(holds_modulus(data, row)) by {
            assert forall|level: int| 0 <= level < MODULUS_NUM implies #[trigger] row[level]
                == data.modulus@[level] as int by {
                assert(row[level] == carried[level]);
                assert(carried[level] == values_of(old(state)@)[level]);
            }
        }
        lemma_settled_row_is_witness(data, last_step + 1, row);
    }
    settle_lanes(state);
}

/// Builds the trace of `data`: `STATE_WIDTH` columns and `STATE_LENGTH` rows, row `t` holding
/// `data.witness_row(t)`.
pub fn build_trace(data: &CustomData) -> (trace: TraceType)
    requires
        data.wf(),
    ensures
        is_witness_of(trace, data),
{
    let mut trace: TraceType = Trace::new(STATE_WIDTH, STATE_LENGTH);
    let mut state: Vec<BaseElement> = Vec::new();
    let mut c: usize = 0;
    while c < STATE_WIDTH
        invariant
            c <= STATE_WIDTH,
            state@.len() == c,
        decreases STATE_WIDTH - c,
    {
        state.push(BaseElement::zero());
        c += 1;
    }
    seed_row(data, &mut state);
    let ghost blank: Seq<Seq<BaseElement>> = trace@;
    trace.update_row(0, &state);
    proof {
        assert forall|i: int| 0 <= i < STATE_WIDTH implies (#[trigger] trace@[i][0])@
            == data.witness_cell(0, i) by {
            assert(trace@[i] == blank[i].update(0, state@[i]));
            assert(values_of(state@)[i] == data.witness_row(0)[i]);
        }
    }
    let mut step: usize = 0;
    while step < STATE_LENGTH - 1
        invariant
            step <= STATE_LENGTH - 1,
            data.wf(),
            trace.wf(),
            trace.spec_width() == STATE_WIDTH,
            trace.spec_length() == STATE_LENGTH,
            state@.len() == STATE_WIDTH,
            values_of(state@) == data.witness_row(step as int),
            forall|i: int, t: int|
                0 <= i < STATE_WIDTH && 0 <= t <= step ==> (#[trigger] trace@[i][t])@
                    == data.witness_cell(t, i),
        decreases STATE_LENGTH - 1 - step,
    {
        proof {
            let row: Seq<int> = values_of(state@);
            assert forall|level: int| 0 <= level < MODULUS_NUM implies #[trigger] row[level]
                == data.modulus@[level] as int by {
                assert(row[level] == data.witness_row(step as int)[level]);
            }
        }
        advance_row(data, step, &mut state);
        let ghost before: Seq<Seq<BaseElement>> = trace@;
        trace.update_row(step + 1, &state);
        proof {
            assert forall|i: int, t: int| 0 <= i < STATE_WIDTH && 0 <= t <= step + 1 implies (
            #[trigger] trace@[i][t])@ == data.witness_cell(t, i) by {
                assert(trace@[i] == before[i].update(step + 1, state@[i]));
                if t == step + 1 {
                    assert(values_of(state@)[i] == data.witness_row(step + 1)[i]);
                } else {
                    assert(before[i][t]@ == data.witness_cell(t, i));
                }
            }
        }
        step += 1;
    }
    trace
}

/// Whether `trace` is the trace of `data`: of the full width and length, every cell holding the
/// witness value of its row and column.
pub open spec fn is_witness_of(trace: Trace, data: &CustomData) -> bool {
    &&& trace.wf()
    &&& trace.spec_width() == STATE_WIDTH
    &&& trace.spec_length() == STATE_LENGTH
    &&& forall|i: int, t: int|
        0 <= i < STATE_WIDTH && 0 <= t < STATE_LENGTH ==> (#[trigger] trace@[i][t])@
            == data.witness_cell(t, i)
}

} // verus!
