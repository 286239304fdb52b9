//! The public inputs of a proof: the four result columns of the trace.

use crate::field::{le_bytes, values_of, BaseElement, ELEMENT_BYTES};
use crate::layout::{COEFF_LEVEL, RESULT_END, RESULT_START, VALUE_NUM};
use crate::trace::{Trace, TraceType};
use vstd::prelude::*;

verus! {

/// The result polynomial of every value and level, one entry per row of the trace.
#[derive(Debug)]
pub struct PublicInputs {
    pub result: [[Vec<BaseElement>; COEFF_LEVEL]; VALUE_NUM],
}

impl View for PublicInputs {
    type V = Seq<Seq<Seq<int>>>;

    /// The integers of the results, by value, level and row.
    open spec fn view(&self) -> Seq<Seq<Seq<int>>> {
        Seq::new(
            VALUE_NUM as nat,
            |v: int| Seq::new(COEFF_LEVEL as nat, |l: int| values_of(self.result@[v]@[l]@)),
        )
    }
}

/// The encodings of the elements of one result, one after another.
pub open spec fn serialized_column(column: Seq<int>) -> Seq<u8>
    decreases column.len(),
{
    if column.len() == 0 {
        Seq::empty()
    } else {
        le_bytes(column[0], ELEMENT_BYTES as nat) + serialized_column(column.drop_first())
    }
}

/// The encodings of all results in the order value, level, row.
pub open spec fn serialized(results: Seq<Seq<Seq<int>>>) -> Seq<u8> {
    serialized_column(results[0][0]) + serialized_column(results[0][1]) + serialized_column(
        results[1][0],
    ) + serialized_column(results[1][1])
}

/// Appends the encodings of the elements of `column` to `target`.
pub fn write_column(column: &Vec<BaseElement>, target: &mut Vec<u8>)
    ensures
        final(target)@ == old(target)@ + serialized_column(values_of(column@)),
{
    let ghost all: Seq<int> = values_of(column@);
    let mut t: usize = 0;
    assert(all.skip(0) =~= all);
    while t < column.len()
        invariant
            t <= column@.len(),
            all == values_of(column@),
            target@ + serialized_column(all.skip(t as int)) == old(target)@ + serialized_column(
                all,
            ),
        decreases column@.len() - t,
    {
        let ghost before: Seq<u8> = target@;
        let e: BaseElement = column[t];
        e.write_into(target);
        proof {
            let rest: Seq<int> = all.skip(t as int);
            assert(rest[0] == e@);
            assert(rest.drop_first() =~= all.skip(t + 1));
            assert(target@ + serialized_column(all.skip(t + 1)) =~= before + serialized_column(
                rest,
            ));
        }
        t += 1;
    }
    assert(target@ + Seq::<u8>::empty() =~= target@);
}

impl PublicInputs {
    /// Appends the public inputs to `target`: every element in `ELEMENT_BYTES` little-endian
    /// bytes, in the order value, level, row.
    pub fn write_into(&self, target: &mut Vec<u8>)
        ensures
            final(target)@ == old(target)@ + serialized(self@),
    {
        write_column(&self.result[0][0], target);
        write_column(&self.result[0][1], target);
        write_column(&self.result[1][0], target);
        write_column(&self.result[1][1], target);
        assert(target@ =~= old(target)@ + serialized(self@));
    }

    /// The public inputs as bytes.
    pub fn to_bytes(&self) -> (bytes: Vec<u8>)
        ensures
            bytes@ == serialized(self@),
    {
        let mut bytes: Vec<u8> = Vec::new();
        self.write_into(&mut bytes);
        assert(Seq::<u8>::empty() + serialized(self@) =~= serialized(self@));
        bytes
    }
}

/// The column that holds the results of value `v` at level `l`.
pub open spec fn result_column(v: int, l: int) -> int {
    RESULT_START + COEFF_LEVEL * v + l
}

/// Whether `inputs` holds the result columns of `trace`: the result of value `v` at level `l` is
/// column `result_column(v, l)`.
pub open spec fn reads_results_of(inputs: PublicInputs, trace: Trace) -> bool {
    forall|v: int, l: int|
        0 <= v < VALUE_NUM && 0 <= l < COEFF_LEVEL ==> (#[trigger] inputs.result@[v]@[l])@
            == trace@[result_column(v, l)]
}

/// Reads the public inputs off a trace.
pub fn get_pub_inputs(trace: &TraceType) -> (inputs: PublicInputs)
    requires
        trace.wf(),
        trace.spec_width() >= RESULT_END,
    ensures
        reads_results_of(inputs, *trace),
{
    PublicInputs {
        result: [
            [trace.get_column(0 + COEFF_LEVEL), trace.get_column(1 + COEFF_LEVEL)],
            [trace.get_column(2 + COEFF_LEVEL), trace.get_column(3 + COEFF_LEVEL)],
        ],
    }
}

} // verus!
