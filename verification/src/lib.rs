//! An elementary cellular automaton engine.
//!
//! The grid records the history of a one-dimensional automaton: each row is
//! one generation, the bottom row is the current one, and every advance
//! scrolls the history up by one row while the new generation is computed
//! from the old bottom row.

pub mod ca;
pub mod laws;
