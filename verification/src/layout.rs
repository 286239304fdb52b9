//! Column layout of one trace row.
//!
//! A row holds, in this order: the modulus of each level, the four result
//! lanes, two groups of four flag lanes, and three blocks of four data lanes.
//! A lane stands for a pair of a value and a level: `lane = 2 * value + level`.

use vstd::arithmetic::power2::{lemma2_to64, pow2};
use vstd::prelude::*;

verus! {

/// Coefficient polynomials per value: two addends and one subtrahend.
pub const DATA_NUM: usize = 3;

/// Values proven side by side.
pub const VALUE_NUM: usize = 2;

/// Modulus levels.
pub const COEFF_LEVEL: usize = 2;

/// Coefficients per polynomial.
pub const COEFF_DEGREE: usize = 4096;

/// Modulus columns.
pub const MODULUS_NUM: usize = COEFF_LEVEL;

/// Flag groups per row.
pub const FLAG_NUM: usize = DATA_NUM - 1;

/// Lanes in one flag group: one per value and level.
pub const FLAG_LEN: usize = 4;

/// Lanes in one data block, and in the result block.
pub const DATA_LEN: usize = FLAG_LEN;

/// First result column.
pub const RESULT_START: usize = MODULUS_NUM;

/// One past the last result column.
pub const RESULT_END: usize = RESULT_START + DATA_LEN;

/// First flag column.
pub const FLAG_START: usize = RESULT_END;

/// First data column: after the modulus, the results and the flag groups.
pub const DATA_START: usize = 14;

/// One past the last data column.
pub const DATA_END: usize = 26;

/// Columns of the trace.
pub const STATE_WIDTH: usize = DATA_END;

/// Rows of the trace.
pub const STATE_LENGTH: usize = COEFF_DEGREE;

/// The regions follow one another without a gap, each as wide as its lanes ask.
pub proof fn lemma_regions_are_adjacent()
    ensures
        FLAG_LEN == VALUE_NUM * COEFF_LEVEL,
        DATA_START == FLAG_START + FLAG_NUM * FLAG_LEN,
        DATA_END == DATA_START + DATA_NUM * DATA_LEN,
        STATE_WIDTH == MODULUS_NUM + DATA_LEN + FLAG_NUM * FLAG_LEN + DATA_NUM * DATA_LEN,
{
    assert(VALUE_NUM * COEFF_LEVEL == 4) by (nonlinear_arith)
        requires
            VALUE_NUM == 2,
            COEFF_LEVEL == 2,
    ;
    assert(FLAG_NUM * FLAG_LEN == 8) by (nonlinear_arith)
        requires
            FLAG_NUM == 2,
            FLAG_LEN == 4,
    ;
    assert(DATA_NUM * DATA_LEN == 12) by (nonlinear_arith)
        requires
            DATA_NUM == 3,
            DATA_LEN == 4,
    ;
}

/// The trace length is a power of two.
pub proof fn lemma_length_is_a_power_of_two()
    ensures
        STATE_LENGTH == pow2(12),
{
    lemma2_to64();
}

/// The role of a column within a row.
#[derive(Clone, Copy, Debug, PartialEq, Eq, Structural)]
pub enum Column {
    /// The modulus of a level.
    Modulus { level: usize },
    /// The result of a lane.
    Result { lane: usize },
    /// A flag of a lane; group 0 records an overflow of the sum, group 1 a wrap of the difference.
    Flag { group: usize, lane: usize },
    /// A data value of a lane; slots 0 and 1 hold the addends, slot 2 the subtrahend.
    Data { slot: usize, lane: usize },
}

/// The level of a lane.
pub open spec fn lane_level(lane: int) -> int {
    lane % (COEFF_LEVEL as int)
}

/// The value of a lane.
pub open spec fn lane_value_index(lane: int) -> int {
    lane / (COEFF_LEVEL as int) % (VALUE_NUM as int)
}

/// The role of column `i`.
pub open spec fn column_role(i: int) -> Column {
    if i < RESULT_START {
        Column::Modulus { level: i as usize }
    } else if i < FLAG_START {
        Column::Result { lane: (i - RESULT_START) as usize }
    } else if i < DATA_START {
        Column::Flag {
            group: ((i - FLAG_START) / (FLAG_LEN as int)) as usize,
            lane: ((i - FLAG_START) % (FLAG_LEN as int)) as usize,
        }
    } else {
        Column::Data {
            slot: ((i - DATA_START) / (DATA_LEN as int)) as usize,
            lane: ((i - DATA_START) % (DATA_LEN as int)) as usize,
        }
    }
}

/// The index of the column with a given role.
pub open spec fn column_index(role: Column) -> int {
    match role {
        Column::Modulus { level } => level as int,
        Column::Result { lane } => RESULT_START + lane,
        Column::Flag { group, lane } => FLAG_START + group * FLAG_LEN + lane,
        Column::Data { slot, lane } => DATA_START + slot * DATA_LEN + lane,
    }
}

/// Whether a role names a column of the row.
pub open spec fn role_in_range(role: Column) -> bool {
    match role {
        Column::Modulus { level } => level < MODULUS_NUM,
        Column::Result { lane } => lane < DATA_LEN,
        Column::Flag { group, lane } => group < FLAG_NUM && lane < FLAG_LEN,
        Column::Data { slot, lane } => slot < DATA_NUM && lane < DATA_LEN,
    }
}

/// Decodes a column index into its role.
pub fn decode_column(i: usize) -> (role: Column)
    requires
        i < STATE_WIDTH,
    ensures
        role == column_role(i as int),
        role_in_range(role),
        column_index(role) == i,
{
    if i < RESULT_START {
        Column::Modulus { level: i }
    } else if i < FLAG_START {
        Column::Result { lane: i - RESULT_START }
    } else if i < DATA_START {
        let idx: usize = i - FLAG_START;
        Column::Flag { group: idx / FLAG_LEN, lane: idx % FLAG_LEN }
    } else {
        let idx: usize = i - DATA_START;
        Column::Data { slot: idx / DATA_LEN, lane: idx % DATA_LEN }
    }
}

/// The column of a role.
pub fn encode_column(role: Column) -> (i: usize)
    requires
        role_in_range(role),
    ensures
        i == column_index(role),
        i < STATE_WIDTH,
        column_role(i as int) == role,
{
    assert(FLAG_LEN == 4 && DATA_LEN == 4);
    match role {
        Column::Modulus { level } => level,
        Column::Result { lane } => RESULT_START + lane,
        Column::Flag { group, lane } => FLAG_START + group * FLAG_LEN + lane,
        Column::Data { slot, lane } => DATA_START + slot * DATA_LEN + lane,
    }
}

/// The data slot that data column `i` belongs to.
pub fn data_slot(i: usize) -> (slot: usize)
    requires
        DATA_START <= i < DATA_END,
    ensures
        column_role(i as int) == (Column::Data { slot, lane: ((i - DATA_START) % (DATA_LEN as int)) as usize }),
        slot < DATA_NUM,
{
    (i - DATA_START) / DATA_LEN
}

/// The value that data column `i` belongs to.
pub fn data_value(i: usize) -> (v: usize)
    requires
        DATA_START <= i < DATA_END,
    ensures
        v == lane_value_index((i - DATA_START) % (DATA_LEN as int)),
        v < VALUE_NUM,
{
    (i - DATA_START) / COEFF_LEVEL % VALUE_NUM
}

/// The level that data column `i` belongs to.
pub fn data_level(i: usize) -> (l: usize)
    requires
        DATA_START <= i < DATA_END,
    ensures
        l == lane_level((i - DATA_START) % (DATA_LEN as int)),
        l < COEFF_LEVEL,
{
    (i - DATA_START) % COEFF_LEVEL
}

/// The value that lane `lane` belongs to.
pub fn value_of_lane(lane: usize) -> (v: usize)
    requires
        lane < DATA_LEN,
    ensures
        v == lane_value_index(lane as int),
        v < VALUE_NUM,
{
    lane / COEFF_LEVEL % VALUE_NUM
}

/// The level that lane `lane` belongs to.
pub fn level_of_lane(lane: usize) -> (l: usize)
    requires
        lane < DATA_LEN,
    ensures
        l == lane_level(lane as int),
        l < COEFF_LEVEL,
{
    lane % COEFF_LEVEL
}

} // verus!
