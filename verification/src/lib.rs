//! Execution trace and transition constraints for batched modular addition of
//! polynomial coefficient vectors, over a 128-bit prime field.
//!
//! For each of two values and each of two modulus levels, a lane of the trace
//! shows that the sum of two coefficients, reduced by the modulus of the level
//! and less a third coefficient, is a claimed result. One row of the trace
//! covers one coefficient position; the trace has one row per position.
//!
//! - [`field`]: the prime field and its arithmetic.
//! - [`layout`]: the columns of a row and the structural constants.
//! - [`lane`]: the arithmetic of one lane and the passes over a row.
//! - [`trace`]: the trace matrix.
//! - [`witness`]: the input record and the generator that fills the trace.
//! - [`public`]: the public inputs, read off the trace, and their byte form.
//! - [`air`]: the transition constraints and the boundary assertions.
//! - [`data`]: the stored record of a proof with its public inputs.
//! - [`laws`]: what is proved of every trace that the generator builds.

pub mod air;
pub mod data;
pub mod field;
pub mod lane;
pub mod laws;
pub mod layout;
pub mod public;
pub mod trace;
pub mod witness;
