//! The algebraic description of a valid trace: one transition constraint of
//! degree 2 per lane, and boundary assertions on the result columns.
//!
//! The constraints tie the results of the next row to the flags and data of
//! the current one. They do not force a flag to be 0 or 1.

use crate::field::{field_sub, values_of, BaseElement};
use crate::lane::{combine, lane_expression, row_result};
use crate::layout::{
    level_of_lane, COEFF_LEVEL, DATA_LEN, FLAG_LEN, FLAG_NUM, FLAG_START, RESULT_END,
    RESULT_START, STATE_WIDTH, VALUE_NUM,
};
use crate::public::PublicInputs;
use vstd::prelude::*;

verus! {

/// The degree of every transition constraint.
pub const TRANSITION_DEGREE: usize = 2;

/// The number of transition constraints: one per lane.
pub const NUM_TRANSITION_CONSTRAINTS: usize = DATA_LEN;

/// The number of boundary assertions: one per lane on the first row and on the last.
pub const NUM_ASSERTIONS: usize = DATA_LEN * 2;

/// The claim that one cell of the trace holds a given value.
#[derive(Clone, Copy, Debug, PartialEq, Eq, Structural)]
pub struct Assertion {
    pub column: usize,
    pub step: usize,
    pub value: BaseElement,
}

/// What constraint `lane` evaluates to on two consecutive rows: the result of the next row less
/// the lane expression of the current one.
pub open spec fn transition_residual(current: Seq<int>, next: Seq<int>, lane: int) -> int {
    field_sub(row_result(next, lane), lane_expression(current, lane))
}

/// The constraints and assertions for a trace of a given length with given public inputs.
#[derive(Debug)]
pub struct FreshAir {
    trace_length: usize,
    result: [[Vec<BaseElement>; COEFF_LEVEL]; VALUE_NUM],
}

impl FreshAir {
    /// The length of the trace that the assertions speak of.
    pub closed spec fn spec_trace_length(&self) -> usize {
        self.trace_length
    }

    /// The public result of value `v` at level `l`.
    pub closed spec fn spec_result(&self, v: int, l: int) -> Seq<BaseElement> {
        self.result@[v]@[l]@
    }

    /// Whether the trace has a row and every public result has an entry for each row.
    pub open spec fn wf(&self) -> bool {
        &&& self.spec_trace_length() >= 1
        &&& forall|v: int, l: int|
            0 <= v < VALUE_NUM && 0 <= l < COEFF_LEVEL ==> (#[trigger] self.spec_result(v, l)).len()
                >= self.spec_trace_length()
    }

    /// Assertion `i` of the list: the first `DATA_LEN` pin each lane on the first row, the
    /// others on the last row, to the public result of the lane on that row.
    pub open spec fn spec_assertion(&self, i: int) -> Assertion {
        let lane = i % (DATA_LEN as int);
        let step = if i < DATA_LEN {
            0
        } else {
            self.spec_trace_length() - 1
        };
        Assertion {
            column: (RESULT_START + lane) as usize,
            step: step as usize,
            value: self.spec_result(lane / (COEFF_LEVEL as int), lane % (COEFF_LEVEL as int))[step],
        }
    }

    /// Sets the constraints up for a trace of `trace_length` rows and the public inputs given.
    pub fn new(trace_length: usize, pub_inputs: PublicInputs) -> (air: Self)
        ensures
            air.spec_trace_length() == trace_length,
            forall|v: int, l: int|
                0 <= v < VALUE_NUM && 0 <= l < COEFF_LEVEL ==> #[trigger] air.spec_result(v, l)
                    == pub_inputs.result@[v]@[l]@,
    {
        FreshAir { trace_length, result: pub_inputs.result }
    }

    /// Tests whether the assertions can be read off the public results.
    pub fn is_well_formed(&self) -> (ok: bool)
        ensures
            ok == self.wf(),
    {
        let n: usize = self.trace_length;
        let ok: bool = n >= 1 && self.result[0][0].len() >= n && self.result[0][1].len() >= n
            && self.result[1][0].len() >= n && self.result[1][1].len() >= n;
        proof {
            if !ok && n >= 1 {
                assert(self.spec_result(0, 0).len() < n || self.spec_result(0, 1).len() < n
                    || self.spec_result(1, 0).len() < n || self.spec_result(1, 1).len() < n);
            }
        }
        ok
    }

    /// The length of the trace.
    pub fn trace_length(&self) -> (n: usize)
        ensures
            n == self.spec_trace_length(),
    {
        self.trace_length
    }

    /// The degree of each transition constraint, in the order in which `evaluate_transition`
    /// writes them.
    pub fn transition_degrees(&self) -> (degrees: Vec<usize>)
        ensures
            degrees@.len() == NUM_TRANSITION_CONSTRAINTS,
            forall|k: int| 0 <= k < degrees@.len() ==> degrees@[k] == TRANSITION_DEGREE,
    {
        let mut degrees: Vec<usize> = Vec::new();
        let mut k: usize = 0;
        while k < NUM_TRANSITION_CONSTRAINTS
            invariant
                k <= NUM_TRANSITION_CONSTRAINTS,
                degrees@.len() == k,
                forall|j: int| 0 <= j < k ==> degrees@[j] == TRANSITION_DEGREE,
            decreases NUM_TRANSITION_CONSTRAINTS - k,
        {
            degrees.push(TRANSITION_DEGREE);
            k += 1;
        }
        degrees
    }

    /// Evaluates every transition constraint on two consecutive rows: entry `lane` of `result`
    /// becomes `transition_residual(current, next, lane)`.
    pub fn evaluate_transition(
        &self,
        current: &Vec<BaseElement>,
        next: &Vec<BaseElement>,
        result: &mut Vec<BaseElement>,
    )
        requires
            current@.len() == STATE_WIDTH,
            next@.len() == STATE_WIDTH,
            old(result)@.len() >= NUM_TRANSITION_CONSTRAINTS,
        ensures
            final(result)@.len() == old(result)@.len(),
            forall|lane: int|
                0 <= lane < NUM_TRANSITION_CONSTRAINTS ==> (#[trigger] final(result)@[lane])@
                    == transition_residual(values_of(current@), values_of(next@), lane),
            forall|j: int|
                NUM_TRANSITION_CONSTRAINTS <= j < old(result)@.len() ==> #[trigger] final(result)@[j]
                    == old(result)@[j],
    {
        let mut i: usize = RESULT_START;
        while i < RESULT_END
            invariant
                RESULT_START <= i <= RESULT_END,
                current@.len() == STATE_WIDTH,
                next@.len() == STATE_WIDTH,
                result@.len() == old(result)@.len(),
                result@.len() >= NUM_TRANSITION_CONSTRAINTS,
                forall|lane: int|
                    0 <= lane < i - RESULT_START ==> (#[trigger] result@[lane])@
                        == transition_residual(values_of(current@), values_of(next@), lane),
                forall|j: int|
                    NUM_TRANSITION_CONSTRAINTS <= j < old(result)@.len() ==> #[trigger] result@[j]
                        == old(result)@[j],
            decreases RESULT_END - i,
        {
            let idx: usize = i - RESULT_START;
            let l_idx: usize = level_of_lane(idx);
            let offset: usize = i + FLAG_NUM * FLAG_LEN + DATA_LEN;
            let d1: BaseElement = current[offset];
            let d2: BaseElement = current[offset + DATA_LEN];
            let d3: BaseElement = current[offset + 2 * DATA_LEN];
            let m: BaseElement = current[l_idx];
            let ret: BaseElement = combine(
                m,
                current[FLAG_START + idx],
                current[FLAG_START + FLAG_LEN + idx],
                d1,
                d2,
                d3,
            );
            result[idx] = next[i].sub(ret);
            i += 1;
        }
    }

    /// The boundary assertions: each lane's result on the first row and on the last row equals
    /// the public result of the lane on that row.
    pub fn get_assertions(&self) -> (assertions: Vec<Assertion>)
        requires
            self.wf(),
        ensures
            assertions@.len() == NUM_ASSERTIONS,
            forall|i: int| 0 <= i < NUM_ASSERTIONS ==> #[trigger] assertions@[i] == self.spec_assertion(i),
    {
        let last: usize = self.trace_length - 1;
        let mut assertions: Vec<Assertion> = Vec::new();
        assert(self.spec_result(0, 0).len() >= self.spec_trace_length());
        assert(self.spec_result(0, 1).len() >= self.spec_trace_length());
        assert(self.spec_result(1, 0).len() >= self.spec_trace_length());
        assert(self.spec_result(1, 1).len() >= self.spec_trace_length());
        assertions.push(Assertion { column: RESULT_START, step: 0, value: self.result[0][0][0] });
        assertions.push(Assertion { column: RESULT_START + 1, step: 0, value: self.result[0][1][0] });
        assertions.push(Assertion { column: RESULT_START + 2, step: 0, value: self.result[1][0][0] });
        assertions.push(Assertion { column: RESULT_START + 3, step: 0, value: self.result[1][1][0] });
        assertions.push(Assertion { column: RESULT_START, step: last, value: self.result[0][0][last] });
        assertions.push(
            Assertion { column: RESULT_START + 1, step: last, value: self.result[0][1][last] },
        );
        assertions.push(
            Assertion { column: RESULT_START + 2, step: last, value: self.result[1][0][last] },
        );
        assertions.push(
            Assertion { column: RESULT_START + 3, step: last, value: self.result[1][1][last] },
        );
        assertions
    }
}

} // verus!
