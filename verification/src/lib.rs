//! Conway's Game of Life on a bounded toroidal grid.
//!
//! The grid abstraction is polymorphic over several storage backends
//! (flat buffer, nested rows, fixed-size dimensions) and offers pattern
//! stamping primitives, a double-buffered generation step with the fixed
//! B3/S23 rule, and wraparound neighbor counting at the edges.

use vstd::prelude::*;

pub mod backends;
pub mod config;
pub mod frame_regulator;
pub mod grid;
pub mod input_pump;
pub mod laws;
pub mod renderer;
pub mod rules;
pub mod step;

pub use backends::{Grid1dVec, Grid2dArr, Grid2dVec};
pub use frame_regulator::{FrameRegulator, ZeroFps};
pub use grid::{BResult, Grid, GridPrivate, OutOfBounds, SetLineOpt};
pub use input_pump::{Input, InputPump, Mouse};
pub use step::{next_cell_state_individual, set_next_state};

verus! {

/// The integer type of a single grid coordinate.
pub type GridUnit = u16;

/// A grid coordinate pair `(x, y)`: `x` selects the column, `y` the row.
pub type GridPoint = (GridUnit, GridUnit);

/// Whether `point` lies inside a grid of dimensions `size`.
pub fn grid_point_contained(point: GridPoint, size: GridPoint) -> (c: bool)
    ensures
        c == rules::point_in_bounds(point.0 as int, point.1 as int, size.0 as int, size.1 as int),
{
    point.0 < size.0 && point.1 < size.1
}

} // verus!
