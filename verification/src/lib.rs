//! A verified Conway's Game of Life simulation core: a bounded square grid of
//! cells, the neighbor topology, the generation-transition rule, a
//! variable-rate step clock, and the play/pause/reset state machine.

use vstd::prelude::*;

pub mod cell;
pub mod clock;
pub mod grid;
mod rng;
pub mod sim;

verus! {

/// Side length of the default board.
pub const SIZE: i32 = 50;

/// Number of cells on the default board.
pub const SIZE_CNT: i32 = SIZE * SIZE;

} // verus!
