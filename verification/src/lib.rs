//! Core of a two-dimensional mineral-deposit simulation: a seeded procedural
//! generator fills a grid of typed material cells with a parallel height
//! field, a mining operation clears square regions, and a discrete-time
//! cellular automaton relocates loose material toward lower terrain.
//!
//! All scalar quantities that the simulation reasons about are fixed-point
//! integers: noise samples are in thousandths (milli), the combined terrain
//! value is in five-thousandths, and densities and heights are in
//! ten-thousandths of the unit value.

pub mod material;
pub mod map;
pub mod rng;
pub mod terrain;
pub mod tick;

use vstd::prelude::*;

verus! {

/// Error raised when a grid cannot be built as requested.
#[derive(Clone, Copy, Debug, PartialEq, Eq, Structural)]
pub enum ConfigError {
    /// A zero width or height was requested.
    ZeroDimension,
    /// The supplied cell storage does not hold exactly `width * height` cells.
    CellCountMismatch,
    /// The supplied height storage does not hold exactly `width * height` entries.
    HeightCountMismatch,
    /// A noise sample field does not hold exactly `width * height` samples.
    SampleCountMismatch,
    /// A cell with material `Empty` was given a non-zero height.
    EmptyCellWithHeight,
}

} // verus!
