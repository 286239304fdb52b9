//! The execution trace: a matrix of field elements, held column by column.

use crate::field::BaseElement;
use vstd::prelude::*;

verus! {

/// A matrix of field elements. A well-formed trace has at least one column, and all its
/// columns have one length; every constructor and method keeps it so.
#[derive(Debug)]
pub struct Trace {
    columns: Vec<Vec<BaseElement>>,
}

/// The trace type that the witness generator returns.
pub type TraceType = Trace;

impl View for Trace {
    type V = Seq<Seq<BaseElement>>;

    /// The columns, each a sequence of cells from the first row to the last.
    closed spec fn view(&self) -> Seq<Seq<BaseElement>> {
        Seq::new(self.columns@.len(), |c: int| self.columns@[c]@)
    }
}

impl Trace {
    /// Number of columns.
    pub open spec fn spec_width(self) -> nat {
        self@.len()
    }

    /// Number of rows.
    pub open spec fn spec_length(self) -> nat {
        self@[0].len()
    }

    /// Whether every column has `spec_length()` cells and there is at least one column.
    pub open spec fn wf(self) -> bool {
        &&& self@.len() > 0
        &&& forall|c: int| 0 <= c < self@.len() ==> (#[trigger] self@[c]).len() == self@[0].len()
    }

    /// The cells of row `step`, from the first column to the last.
    pub open spec fn row(self, step: int) -> Seq<BaseElement> {
        Seq::new(self@.len(), |c: int| self@[c][step])
    }

    /// A trace of `width` columns and `length` rows with zero in every cell.
    pub fn new(width: usize, length: usize) -> (trace: Self)
        requires
            width > 0,
        ensures
            trace.wf(),
            trace.spec_width() == width,
            trace.spec_length() == length,
            forall|c: int, t: int|
                0 <= c < width && 0 <= t < length ==> (#[trigger] trace@[c][t])@ == 0,
    {
        let mut columns: Vec<Vec<BaseElement>> = Vec::new();
        let mut c: usize = 0;
        while c < width
            invariant
                c <= width,
                columns@.len() == c,
                forall|j: int| 0 <= j < c ==> (#[trigger] columns@[j])@.len() == length,
                forall|j: int, t: int|
                    0 <= j < c && 0 <= t < length ==> (#[trigger] columns@[j]@[t])@ == 0,
            decreases width - c,
        {
            let mut column: Vec<BaseElement> = Vec::new();
            let mut t: usize = 0;
            while t < length
                invariant
                    t <= length,
                    column@.len() == t,
                    forall|s: int| 0 <= s < t ==> (#[trigger] column@[s])@ == 0,
                decreases length - t,
            {
                column.push(BaseElement::zero());
                t += 1;
            }
            columns.push(column);
            c += 1;
        }
        Trace { columns }
    }

    /// The trace that holds the given columns, where there is at least one and all have one
    /// length; `None` otherwise.
    pub fn from_columns(columns: Vec<Vec<BaseElement>>) -> (r: Option<Self>)
        ensures
            match r {
                Some(trace) => {
                    &&& trace.wf()
                    &&& trace@.len() == columns@.len()
                    &&& forall|c: int| 0 <= c < columns@.len() ==> #[trigger] trace@[c] == columns@[c]@
                },
                None => columns@.len() == 0 || exists|c: int|
                    0 <= c < columns@.len() && (#[trigger] columns@[c])@.len()
                        != columns@[0]@.len(),
            },
    {
        if columns.len() == 0 {
            return None;
        }
        let length: usize = columns[0].len();
        let mut c: usize = 1;
        while c < columns.len()
            invariant
                1 <= c <= columns@.len(),
                length == columns@[0]@.len(),
                forall|j: int| 0 <= j < c ==> (#[trigger] columns@[j])@.len() == length,
            decreases columns@.len() - c,
        {
            if columns[c].len() != length {
                return None;
            }
            c += 1;
        }
        Some(Trace { columns })
    }

    /// The columns of the trace.
    pub fn into_columns(self) -> (columns: Vec<Vec<BaseElement>>)
        ensures
            columns@.len() == self@.len(),
            forall|c: int| 0 <= c < columns@.len() ==> (#[trigger] columns@[c])@ == self@[c],
    {
        self.columns
    }

    /// Number of columns.
    pub fn width(&self) -> (w: usize)
        ensures
            w == self.spec_width(),
    {
        self.columns.len()
    }

    /// Number of rows.
    pub fn length(&self) -> (n: usize)
        requires
            self.wf(),
        ensures
            n == self.spec_length(),
    {
        self.columns[0].len()
    }

    /// The cell in column `column` at row `step`.
    pub fn get(&self, column: usize, step: usize) -> (cell: BaseElement)
        requires
            self.wf(),
            column < self.spec_width(),
            step < self.spec_length(),
        ensures
            cell == self@[column as int][step as int],
    {
        assert(self@[column as int].len() == self@[0].len());
        self.columns[column][step]
    }

    /// A copy of column `column`.
    pub fn get_column(&self, column: usize) -> (cells: Vec<BaseElement>)
        requires
            column < self.spec_width(),
        ensures
            cells@ == self@[column as int],
    {
        let source: &Vec<BaseElement> = &self.columns[column];
        let mut cells: Vec<BaseElement> = Vec::new();
        let mut t: usize = 0;
        while t < source.len()
            invariant
                t <= source@.len(),
                cells@ == source@.subrange(0, t as int),
            decreases source@.len() - t,
        {
            cells.push(source[t]);
            assert(cells@ =~= source@.subrange(0, t + 1));
            t += 1;
        }
        assert(cells@ =~= source@);
        cells
    }

    /// Overwrites row `step` with `state`.
    pub fn update_row(&mut self, step: usize, state: &Vec<BaseElement>)
        requires
            old(self).wf(),
            step < old(self).spec_length(),
            state@.len() == old(self).spec_width(),
        ensures
            final(self).wf(),
            final(self).spec_width() == old(self).spec_width(),
            final(self).spec_length() == old(self).spec_length(),
            forall|c: int|
                0 <= c < old(self).spec_width() ==> #[trigger] final(self)@[c] == old(self)@[c].update(
                    step as int,
                    state@[c],
                ),
    {
        assert forall|j: int| 0 <= j < self.columns@.len() implies (#[trigger] self.columns@[j])@.len()
            == self.columns@[0]@.len() by {
            assert(self@[j].len() == self@[0].len());
        }
        assert(self@[0] == self.columns@[0]@);
        let width: usize = self.columns.len();
        let mut c: usize = 0;
        while c < width
            invariant
                c <= width,
                width == state@.len(),
                self.columns@.len() == width,
                width > 0,
                step < old(self).columns@[0]@.len(),
                forall|j: int|
                    0 <= j < width ==> (#[trigger] self.columns@[j])@.len() == old(
                        self,
                    ).columns@[0]@.len(),
                forall|j: int|
                    0 <= j < c ==> (#[trigger] self.columns@[j])@ == old(self).columns@[j]@.update(
                        step as int,
                        state@[j],
                    ),
                forall|j: int| c <= j < width ==> (#[trigger] self.columns@[j]) == old(self).columns@[j],
            decreases width - c,
        {
            self.columns[c][step] = state[c];
            c += 1;
        }
        assert forall|c: int| 0 <= c < old(self).spec_width() implies #[trigger] self@[c] == old(
            self,
        )@[c].update(step as int, state@[c]) by {
            assert(self.columns@[c]@ == old(self).columns@[c]@.update(step as int, state@[c]));
        }
    }
}

} // verus!
