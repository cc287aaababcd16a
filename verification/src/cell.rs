//! Per-cell alive/dead state and the canonical Conway transition rule.

use vstd::prelude::*;

verus! {

/// Alive/dead state of a single cell.
#[derive(Clone, Copy, PartialEq, Eq, Structural, Debug)]
pub enum CellState {
    Alive,
    Dead,
}

/// One cell of the grid; it has no identity beyond its position in the grid.
#[derive(Clone, Copy, PartialEq, Eq, Structural, Debug)]
pub struct Cell {
    pub state: CellState,
}

/// The opposite of a cell state.
pub open spec fn flipped(s: CellState) -> CellState {
    match s {
        CellState::Alive => CellState::Dead,
        CellState::Dead => CellState::Alive,
    }
}

impl Cell {
    /// Flip this cell between alive and dead.
    pub fn toggle(&mut self)
        ensures
            final(self).state == flipped(old(self).state),
    {
        self.state = match self.state {
            CellState::Alive => CellState::Dead,
            CellState::Dead => CellState::Alive,
        };
    }
}

/// Canonical Conway transition rule: an alive cell survives with exactly 2 or
/// 3 alive neighbors and otherwise dies; a dead cell becomes alive with
/// exactly 3 alive neighbors and otherwise stays dead.
pub open spec fn spec_next(current: CellState, alive_neighbors: int) -> CellState {
    match current {
        CellState::Alive => if alive_neighbors == 2 || alive_neighbors == 3 {
            CellState::Alive
        } else {
            CellState::Dead
        },
        CellState::Dead => if alive_neighbors == 3 {
            CellState::Alive
        } else {
            CellState::Dead
        },
    }
}

/// Compute a cell's next state from its current state and its alive-neighbor
/// count, following the canonical Conway rule.
pub fn next_state(current: CellState, alive_neighbors: u8) -> (r: CellState)
    ensures
        r == spec_next(current, alive_neighbors as int),
{
    match current {
        CellState::Alive => match alive_neighbors {
            2 | 3 => CellState::Alive,
            _ => CellState::Dead,
        },
        CellState::Dead => match alive_neighbors {
            3 => CellState::Alive,
            _ => CellState::Dead,
        },
    }
}

/// The transition rule, spelled out case by case: a dead cell comes alive on
/// exactly 3 alive neighbors and on no other count; an alive cell survives on
/// exactly 2 or 3 alive neighbors and dies on every other count.
pub proof fn lemma_transition_rule(n: int)
    ensures
        spec_next(CellState::Dead, 3) == CellState::Alive,
        n != 3 ==> spec_next(CellState::Dead, n) == CellState::Dead,
        spec_next(CellState::Alive, 2) == CellState::Alive,
        spec_next(CellState::Alive, 3) == CellState::Alive,
        n != 2 && n != 3 ==> spec_next(CellState::Alive, n) == CellState::Dead,
{
}

} // verus!
