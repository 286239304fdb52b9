//! Arithmetic of one lane, and the passes that apply it across a row.
//!
//! A lane combines two addends `d1`, `d2`, a subtrahend `d3`, the modulus `m`
//! of its level and two flags `f0`, `f1` into `(d1 + d2 - f0 * m) + f1 * m - d3`.
//! The flags are not forced to be 0 or 1 by this combination; settling a row
//! chooses them so.

use crate::field::{field_add, field_mul, field_sub, values_of, BaseElement};
use crate::layout::{
    lane_level, level_of_lane, DATA_LEN, DATA_START, FLAG_LEN, FLAG_NUM, FLAG_START, RESULT_END,
    RESULT_START, STATE_WIDTH,
};
use vstd::prelude::*;

verus! {

/// `(d1 + d2 - f0 * m) + f1 * m - d3` in the field.
pub open spec fn lane_combine(m: int, f0: int, f1: int, d1: int, d2: int, d3: int) -> int {
    field_sub(field_add(field_sub(field_add(d1, d2), field_mul(f0, m)), field_mul(f1, m)), d3)
}

/// The first flag: 1 where the sum of the addends is above the modulus, else 0.
pub open spec fn overflow_flag(m: int, d1: int, d2: int) -> int {
    if field_add(d1, d2) > m {
        1
    } else {
        0
    }
}

/// The second flag: 0 where the sum, less the modulus if the first flag is set, is above the
/// subtrahend, else 1.
pub open spec fn wrap_flag(m: int, d1: int, d2: int, d3: int) -> int {
    if field_sub(field_add(d1, d2), field_mul(overflow_flag(m, d1, d2), m)) > d3 {
        0
    } else {
        1
    }
}

/// The result of a lane under the flags that settling chooses.
pub open spec fn settled_result(m: int, d1: int, d2: int, d3: int) -> int {
    lane_combine(m, overflow_flag(m, d1, d2), wrap_flag(m, d1, d2, d3), d1, d2, d3)
}

/// The modulus that lane `lane` of `row` works under.
pub open spec fn row_modulus(row: Seq<int>, lane: int) -> int {
    row[lane_level(lane)]
}

/// The flag of group `group` in lane `lane` of `row`.
pub open spec fn row_flag(row: Seq<int>, group: int, lane: int) -> int {
    row[FLAG_START + group * FLAG_LEN + lane]
}

/// The data value of slot `slot` in lane `lane` of `row`.
pub open spec fn row_data(row: Seq<int>, slot: int, lane: int) -> int {
    row[DATA_START + slot * DATA_LEN + lane]
}

/// The result cell of lane `lane` of `row`.
pub open spec fn row_result(row: Seq<int>, lane: int) -> int {
    row[RESULT_START + lane]
}

/// The lane combination over the modulus, flags and data that `row` holds for `lane`.
pub open spec fn lane_expression(row: Seq<int>, lane: int) -> int {
    lane_combine(
        row_modulus(row, lane),
        row_flag(row, 0, lane),
        row_flag(row, 1, lane),
        row_data(row, 0, lane),
        row_data(row, 1, lane),
        row_data(row, 2, lane),
    )
}

/// Cell `i` of `row` after its results are recomputed from its flags and data.
pub open spec fn carried_cell(row: Seq<int>, i: int) -> int {
    if RESULT_START <= i < RESULT_END {
        lane_expression(row, i - RESULT_START)
    } else {
        row[i]
    }
}

/// `row` with each result recomputed from the flags and data that the row holds.
pub open spec fn carried_row(row: Seq<int>) -> Seq<int> {
    Seq::new(row.len(), |i: int| carried_cell(row, i))
}

/// Cell `i` of `row` after its flags and results are chosen from its modulus and data.
pub open spec fn settled_cell(row: Seq<int>, i: int) -> int {
    if RESULT_START <= i < RESULT_END {
        let lane = i - RESULT_START;
        settled_result(
            row_modulus(row, lane),
            row_data(row, 0, lane),
            row_data(row, 1, lane),
            row_data(row, 2, lane),
        )
    } else if FLAG_START <= i < FLAG_START + FLAG_LEN {
        let lane = i - FLAG_START;
        overflow_flag(row_modulus(row, lane), row_data(row, 0, lane), row_data(row, 1, lane))
    } else if FLAG_START + FLAG_LEN <= i < DATA_START {
        let lane = i - FLAG_START - FLAG_LEN;
        wrap_flag(
            row_modulus(row, lane),
            row_data(row, 0, lane),
            row_data(row, 1, lane),
            row_data(row, 2, lane),
        )
    } else {
        row[i]
    }
}

/// `row` with the flags and the result of every lane chosen from its modulus and data.
pub open spec fn settled_row(row: Seq<int>) -> Seq<int> {
    Seq::new(row.len(), |i: int| settled_cell(row, i))
}

/// Cell `i` once the first `done` lanes of `row` are settled.
pub open spec fn partly_settled_cell(row: Seq<int>, done: int, i: int) -> int {
    if (RESULT_START <= i < RESULT_START + done) || (FLAG_START <= i < FLAG_START + done) || (
    FLAG_START + FLAG_LEN <= i < FLAG_START + FLAG_LEN + done) {
        settled_cell(row, i)
    } else {
        row[i]
    }
}

/// Cell `i` once the results of the first `done` lanes of `row` are recomputed.
pub open spec fn partly_carried_cell(row: Seq<int>, done: int, i: int) -> int {
    if RESULT_START <= i < RESULT_START + done {
        carried_cell(row, i)
    } else {
        row[i]
    }
}

/// Computes the lane combination.
pub fn combine(
    m: BaseElement,
    f0: BaseElement,
    f1: BaseElement,
    d1: BaseElement,
    d2: BaseElement,
    d3: BaseElement,
) -> (r: BaseElement)
    ensures
        r@ == lane_combine(m@, f0@, f1@, d1@, d2@, d3@),
{
    let r1: BaseElement = d1.add(d2);
    r1.sub(f0.mul(m)).add(f1.mul(m)).sub(d3)
}

/// Recomputes the result of every lane from the flags and data that the row holds.
pub fn carry_results(state: &mut Vec<BaseElement>)
    requires
        old(state)@.len() == STATE_WIDTH,
    ensures
        final(state)@.len() == STATE_WIDTH,
        values_of(final(state)@) == carried_row(values_of(old(state)@)),
{
    let ghost before: Seq<int> = values_of(state@);
    let mut i: usize = RESULT_START;
    while i < RESULT_END
        invariant
            RESULT_START <= i <= RESULT_END,
            state@.len() == STATE_WIDTH,
            before.len() == STATE_WIDTH,
            forall|c: int|
                0 <= c < STATE_WIDTH ==> (#[trigger] state@[c])@ == partly_carried_cell(
                    before,
                    i - RESULT_START,
                    c,
                ),
        decreases RESULT_END - i,
    {
        let idx: usize = i - RESULT_START;
        let l_idx: usize = level_of_lane(idx);
        let offset: usize = i + FLAG_NUM * FLAG_LEN + DATA_LEN;
        let d1: BaseElement = state[offset];
        let d2: BaseElement = state[offset + DATA_LEN];
        let d3: BaseElement = state[offset + 2 * DATA_LEN];
        let m: BaseElement = state[l_idx];
        let f0: BaseElement = state[FLAG_START + idx];
        let f1: BaseElement = state[FLAG_START + FLAG_LEN + idx];
        state[i] = combine(m, f0, f1, d1, d2, d3);
        i += 1;
    }
    assert(values_of(state@) =~= carried_row(before));
}

/// Chooses the flags of lane `lane` from its modulus and data, and computes its result.
pub fn settle_lane(state: &mut Vec<BaseElement>, lane: usize)
    requires
        old(state)@.len() == STATE_WIDTH,
        lane < DATA_LEN,
    ensures
        final(state)@.len() == STATE_WIDTH,
        forall|c: int|
            0 <= c < STATE_WIDTH && c != RESULT_START + lane && c != FLAG_START + lane && c
                != FLAG_START + FLAG_LEN + lane ==> #[trigger] final(state)@[c] == old(state)@[c],
        final(state)@[RESULT_START + lane]@ == settled_cell(
            values_of(old(state)@),
            RESULT_START + lane,
        ),
        final(state)@[FLAG_START + lane]@ == settled_cell(
            values_of(old(state)@),
            FLAG_START + lane,
        ),
        final(state)@[FLAG_START + FLAG_LEN + lane]@ == settled_cell(
            values_of(old(state)@),
            FLAG_START + FLAG_LEN + lane,
        ),
{
    let i: usize = RESULT_START + lane;
    let l_idx: usize = level_of_lane(lane);
    let offset: usize = i + FLAG_NUM * FLAG_LEN + DATA_LEN;
    let d1: BaseElement = state[offset];
    let d2: BaseElement = state[offset + DATA_LEN];
    let d3: BaseElement = state[offset + 2 * DATA_LEN];
    let m: BaseElement = state[l_idx];
    let r1: BaseElement = d1.add(d2);
    let f0: BaseElement = if r1.is_greater(&m) {
        BaseElement::one()
    } else {
        BaseElement::zero()
    };
    let f1: BaseElement = if r1.sub(f0.mul(m)).is_greater(&d3) {
        BaseElement::zero()
    } else {
        BaseElement::one()
    };
    state[FLAG_START + lane] = f0;
    state[FLAG_START + FLAG_LEN + lane] = f1;
    state[i] = combine(m, f0, f1, d1, d2, d3);
}

/// Chooses the flags of every lane from its modulus and data, and computes its result.
pub fn settle_lanes(state: &mut Vec<BaseElement>)
    requires
        old(state)@.len() == STATE_WIDTH,
    ensures
        final(state)@.len() == STATE_WIDTH,
        values_of(final(state)@) == settled_row(values_of(old(state)@)),
{
    let ghost before: Seq<int> = values_of(state@);
    let mut i: usize = RESULT_START;
    while i < RESULT_END
        invariant
            RESULT_START <= i <= RESULT_END,
            state@.len() == STATE_WIDTH,
            before.len() == STATE_WIDTH,
            forall|c: int|
                0 <= c < STATE_WIDTH ==> (#[trigger] state@[c])@ == partly_settled_cell(
                    before,
                    i - RESULT_START,
                    c,
                ),
        decreases RESULT_END - i,
    {
        let idx: usize = i - RESULT_START;
        let ghost now: Seq<int> = values_of(state@);
        proof {
            lemma_settled_cell_reads(before, now, RESULT_START + idx);
            lemma_settled_cell_reads(before, now, FLAG_START + idx);
            lemma_settled_cell_reads(before, now, FLAG_START + FLAG_LEN + idx);
        }
        settle_lane(state, idx);
        i += 1;
    }
    assert(values_of(state@) =~= settled_row(before));
}

/// Settling a cell reads only the modulus and the data of the row.
pub proof fn lemma_settled_cell_reads(a: Seq<int>, b: Seq<int>, i: int)
    requires
        a.len() == STATE_WIDTH,
        b.len() == STATE_WIDTH,
        RESULT_START <= i < DATA_START,
        forall|c: int| 0 <= c < RESULT_START ==> a[c] == b[c],
        forall|c: int| DATA_START <= c < STATE_WIDTH ==> a[c] == b[c],
    ensures
        settled_cell(a, i) == settled_cell(b, i),
{
}

} // verus!
