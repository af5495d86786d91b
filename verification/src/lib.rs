//! Core of a collaborative pixel-canvas service: a fixed-size grid of
//! cells behind a validity mask, painted concurrently by many sessions,
//! with presence counting, broadcast events and a persisted snapshot
//! format that round-trips exactly.

use vstd::prelude::*;

pub mod clock;
pub mod codec;
pub mod color;
pub mod hub;
pub mod mask;
pub mod messages;
pub mod pixel;
pub mod session;
pub mod state;
pub mod text;

verus! {

/// Width of the canvas in cells.
pub const GRID_WIDTH: usize = 120;

/// Height of the canvas in cells.
pub const GRID_HEIGHT: usize = 180;

/// Total number of cells; the canvas is indexed by `y * GRID_WIDTH + x`.
pub const GRID_SIZE: usize = GRID_WIDTH * GRID_HEIGHT;

} // verus!
