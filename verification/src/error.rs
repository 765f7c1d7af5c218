//! Reasons for which a simulation, or a part of one, cannot be set up.

use vstd::prelude::*;

verus! {

/// Why a constructor refused its arguments.
#[derive(Clone, Copy, Debug, PartialEq, Eq, Structural)]
pub enum SetupError {
    /// The grid has no column or no row.
    EmptyGrid,
    /// A side of the grid is longer than `MAX_DIM`.
    GridTooLarge,
    /// The ceiling of the field is zero, so no cell could ever hold a trace.
    ZeroCeiling,
    /// The decay factor is not below one, or its denominator is zero.
    BadDecay,
    /// More agents were asked for than `MAX_AGENTS`.
    TooManyAgents,
    /// The field and the population do not stand on the same grid.
    MismatchedGrid,
    /// A parameter lies outside its declared range.
    ParameterOutOfRange,
}

} // verus!
