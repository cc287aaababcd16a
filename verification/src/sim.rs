//! The simulation orchestrator: grid, play/pause flag and step clock,
//! driven once per frame and by discrete user commands.

use vstd::prelude::*;
use crate::cell::{CellState, flipped};
use crate::clock::{StepTimer, MILLIS_PER_SECOND, incremented_rate, decremented_rate};
use crate::grid::{Grid, Position, in_bounds, next_gen, row_major_index, MAX_SIDE};

verus! {

/// Play/pause flag; the simulation starts paused. It changes only on
/// explicit commands, never by the step computation itself.
pub struct Playing(pub bool);

impl Playing {
    /// Switch between playing and paused.
    pub fn toggle(&mut self)
        ensures
            final(self).0 == !old(self).0,
    {
        self.0 = !self.0;
    }
}

/// A discrete, edge-triggered command from the input collaborators. Exiting
/// the program is the host's business and is not a simulation command.
#[derive(Clone, Copy, PartialEq, Eq, Structural, Debug)]
pub enum Command {
    PlayPauseToggled,
    ResetRequested,
    SpeedUpRequested,
    SlowDownRequested,
    ToggleRequested(Position),
}

/// The grid a frame leaves behind: the next generation exactly when the
/// simulation is playing and a full clock period has elapsed, and the same
/// grid otherwise.
pub open spec fn frame_grid(
    g: Seq<CellState>,
    side: int,
    playing: bool,
    elapsed: int,
    period: int,
    delta: int,
) -> Seq<CellState> {
    if playing && elapsed + delta >= period {
        next_gen(g, side)
    } else {
        g
    }
}

/// The whole simulation: the live grid, the play/pause flag and the step
/// clock, threaded explicitly through every frame (no ambient globals).
pub struct SimulationState {
    grid: Grid,
    playing: Playing,
    timer: StepTimer,
}

impl SimulationState {
    /// The grid and the timer each satisfy their own invariant.
    pub closed spec fn wf(&self) -> bool {
        &&& self.grid.wf()
        &&& self.timer.wf()
    }

    /// The cell states of the live grid, in row-major order.
    pub closed spec fn spec_grid(&self) -> Seq<CellState> {
        self.grid@
    }

    /// The side length of the board.
    pub closed spec fn spec_side(&self) -> int {
        self.grid.spec_side()
    }

    /// Whether the simulation is playing.
    pub closed spec fn spec_playing(&self) -> bool {
        self.playing.0
    }

    /// The step rate, in steps per second.
    pub closed spec fn spec_rate(&self) -> int {
        self.timer.spec_rate()
    }

    /// The clock period, in milliseconds.
    pub closed spec fn spec_period(&self) -> int {
        self.timer.spec_period()
    }

    /// Milliseconds accumulated toward the next step.
    pub closed spec fn spec_elapsed(&self) -> int {
        self.timer.spec_elapsed()
    }

    /// A fresh simulation: an all-dead board of the given side length,
    /// paused, stepping once per second.
    pub fn new(side: i32) -> (sim: SimulationState)
        requires
            1 <= side <= MAX_SIDE,
        ensures
            sim.wf(),
            sim.spec_side() == side as int,
            sim.spec_grid().len() == side as int * side as int,
            forall|i: int| 0 <= i < sim.spec_grid().len() ==> sim.spec_grid()[i] == CellState::Dead,
            !sim.spec_playing(),
            sim.spec_rate() == 1,
            sim.spec_elapsed() == 0,
    {
        SimulationState {
            grid: Grid::new_random(side, 0, 1),
            playing: Playing(false),
            timer: StepTimer::new(1),
        }
    }

    /// Whether the simulation is playing, for status display.
    pub fn is_playing(&self) -> (r: bool)
        ensures
            r == self.spec_playing(),
    {
        self.playing.0
    }

    /// The current step rate in steps per second, for status display.
    pub fn steps_per_second(&self) -> (r: u64)
        ensures
            r as int == self.spec_rate(),
    {
        self.timer.steps_per_second()
    }

    /// The side length of the board.
    pub fn side(&self) -> (s: i32)
        ensures
            s as int == self.spec_side(),
    {
        self.grid.side()
    }

    /// The state of the cell at an in-bounds position, the read-only
    /// projection the renderer draws from.
    pub fn cell_at(&self, p: Position) -> (r: CellState)
        requires
            self.wf(),
            in_bounds(p, self.spec_side()),
        ensures
            r == self.spec_grid()[row_major_index(p, self.spec_side())],
    {
        self.grid.state_at(p)
    }

    /// One frame of the simulation, handed the milliseconds since the last
    /// frame. While paused the clock does not run; while playing the clock
    /// accumulates, and when a full period has elapsed the grid advances by
    /// exactly one generation, computed from one consistent snapshot.
    pub fn frame(&mut self, delta_ms: u64) -> (stepped: bool)
        requires
            old(self).wf(),
            delta_ms <= u64::MAX - MILLIS_PER_SECOND,
        ensures
            final(self).wf(),
            final(self).spec_side() == old(self).spec_side(),
            final(self).spec_playing() == old(self).spec_playing(),
            final(self).spec_rate() == old(self).spec_rate(),
            stepped == (old(self).spec_playing() && old(self).spec_elapsed() + delta_ms
                >= old(self).spec_period()),
            final(self).spec_grid() == frame_grid(
                old(self).spec_grid(),
                old(self).spec_side(),
                old(self).spec_playing(),
                old(self).spec_elapsed(),
                old(self).spec_period(),
                delta_ms as int,
            ),
            !old(self).spec_playing() ==> final(self).spec_elapsed() == old(self).spec_elapsed(),
            stepped ==> final(self).spec_elapsed() == 0,
            old(self).spec_playing() && !stepped ==> final(self).spec_elapsed() == old(
                self,
            ).spec_elapsed() + delta_ms,
    {
        if !self.playing.0 {
            return false;
        }
        let fired = self.timer.tick(delta_ms);
        if fired {
            self.grid.step();
        }
        fired
    }

    /// Switch between playing and paused; the grid and the clock are
    /// untouched.
    pub fn toggle_play(&mut self)
        requires
            old(self).wf(),
        ensures
            final(self).wf(),
            final(self).spec_side() == old(self).spec_side(),
            final(self).spec_playing() == !old(self).spec_playing(),
            final(self).spec_grid() == old(self).spec_grid(),
            final(self).spec_rate() == old(self).spec_rate(),
            final(self).spec_elapsed() == old(self).spec_elapsed(),
    {
        self.playing.toggle();
    }

    /// Reset: every cell is forced dead and the simulation returns to
    /// paused, whatever state it was in; the clock keeps its rate.
    pub fn reset(&mut self)
        requires
            old(self).wf(),
        ensures
            final(self).wf(),
            final(self).spec_side() == old(self).spec_side(),
            final(self).spec_grid().len() == old(self).spec_grid().len(),
            forall|i: int|
                0 <= i < final(self).spec_grid().len() ==> final(self).spec_grid()[i]
                    == CellState::Dead,
            !final(self).spec_playing(),
            final(self).spec_rate() == old(self).spec_rate(),
            final(self).spec_elapsed() == old(self).spec_elapsed(),
    {
        proof {
            crate::grid::lemma_wf_len(&self.grid);
        }
        let side = self.grid.side();
        self.grid = Grid::new(side);
        self.playing = Playing(false);
    }

    /// Flip the cell at `p`, immediately and independently of the clock; the
    /// play state and the clock are untouched. An out-of-bounds position is
    /// a no-op, reported by the `false` result.
    pub fn toggle_cell(&mut self, p: Position) -> (applied: bool)
        requires
            old(self).wf(),
        ensures
            final(self).wf(),
            final(self).spec_side() == old(self).spec_side(),
            applied == in_bounds(p, old(self).spec_side()),
            applied ==> final(self).spec_grid() == old(self).spec_grid().update(
                row_major_index(p, old(self).spec_side()),
                flipped(old(self).spec_grid()[row_major_index(p, old(self).spec_side())]),
            ),
            !applied ==> final(self).spec_grid() == old(self).spec_grid(),
            final(self).spec_playing() == old(self).spec_playing(),
            final(self).spec_rate() == old(self).spec_rate(),
            final(self).spec_elapsed() == old(self).spec_elapsed(),
    {
        self.grid.toggle_at(p)
    }

    /// Mark every in-bounds coordinate of a loaded formation alive, leaving
    /// every other cell and the rest of the state untouched.
    pub fn apply_formation(&mut self, coords: &Vec<Position>)
        requires
            old(self).wf(),
        ensures
            final(self).wf(),
            final(self).spec_side() == old(self).spec_side(),
            final(self).spec_grid().len() == old(self).spec_grid().len(),
            forall|i: int|
                0 <= i < final(self).spec_grid().len() ==> #[trigger] final(self).spec_grid()[i]
                    == (if crate::grid::formation_hits(coords@, old(self).spec_side(), i) {
                    CellState::Alive
                } else {
                    old(self).spec_grid()[i]
                }),
            final(self).spec_playing() == old(self).spec_playing(),
            final(self).spec_rate() == old(self).spec_rate(),
            final(self).spec_elapsed() == old(self).spec_elapsed(),
    {
        self.grid.apply_formation(coords);
    }

    /// Apply one discrete user command. Play/pause toggling, reset and the
    /// rate commands never touch the grid except as stated; a toggle on an
    /// out-of-bounds position is a no-op, reported by the `false` result.
    pub fn apply_command(&mut self, cmd: Command) -> (applied: bool)
        requires
            old(self).wf(),
        ensures
            final(self).wf(),
            final(self).spec_side() == old(self).spec_side(),
            cmd == Command::PlayPauseToggled ==> ({
                &&& applied
                &&& final(self).spec_playing() == !old(self).spec_playing()
                &&& final(self).spec_grid() == old(self).spec_grid()
                &&& final(self).spec_rate() == old(self).spec_rate()
                &&& final(self).spec_elapsed() == old(self).spec_elapsed()
            }),
            cmd == Command::ResetRequested ==> ({
                &&& applied
                &&& !final(self).spec_playing()
                &&& final(self).spec_grid().len() == old(self).spec_grid().len()
                &&& forall|i: int|
                    0 <= i < final(self).spec_grid().len() ==> final(self).spec_grid()[i]
                        == CellState::Dead
                &&& final(self).spec_rate() == old(self).spec_rate()
            }),
            cmd == Command::SpeedUpRequested ==> ({
                &&& applied
                &&& final(self).spec_rate() == incremented_rate(old(self).spec_rate())
                &&& final(self).spec_grid() == old(self).spec_grid()
                &&& final(self).spec_playing() == old(self).spec_playing()
                &&& final(self).spec_elapsed() == old(self).spec_elapsed()
            }),
            cmd == Command::SlowDownRequested ==> ({
                &&& applied
                &&& final(self).spec_rate() == decremented_rate(old(self).spec_rate())
                &&& final(self).spec_grid() == old(self).spec_grid()
                &&& final(self).spec_playing() == old(self).spec_playing()
                &&& final(self).spec_elapsed() == old(self).spec_elapsed()
            }),
            forall|p: Position|
                cmd == Command::ToggleRequested(p) ==> ({
                    &&& applied == in_bounds(p, old(self).spec_side())
                    &&& applied ==> final(self).spec_grid() == old(self).spec_grid().update(
                        row_major_index(p, old(self).spec_side()),
                        flipped(old(self).spec_grid()[row_major_index(p, old(self).spec_side())]),
                    )
                    &&& !applied ==> final(self).spec_grid() == old(self).spec_grid()
                    &&& final(self).spec_playing() == old(self).spec_playing()
                    &&& final(self).spec_rate() == old(self).spec_rate()
                    &&& final(self).spec_elapsed() == old(self).spec_elapsed()
                }),
    {
        match cmd {
            Command::PlayPauseToggled => {
                self.toggle_play();
                true
            },
            Command::ResetRequested => {
                self.reset();
                true
            },
            Command::SpeedUpRequested => {
                self.timer.inc();
                true
            },
            Command::SlowDownRequested => {
                self.timer.dec();
                true
            },
            Command::ToggleRequested(p) => self.toggle_cell(p),
        }
    }
}

/// What a well-formed simulation guarantees: the board dimensions are in
/// range, the rate is in its bounds, the clock period is `1000 / rate`, and
/// the accumulator is under a second.
pub proof fn lemma_sim_invariant(sim: &SimulationState)
    requires
        sim.wf(),
    ensures
        1 <= sim.spec_side() <= MAX_SIDE as int,
        sim.spec_grid().len() == sim.spec_side() * sim.spec_side(),
        crate::clock::MIN_RATE as int <= sim.spec_rate() <= crate::clock::MAX_RATE as int,
        sim.spec_period() == MILLIS_PER_SECOND as int / sim.spec_rate(),
        0 <= sim.spec_elapsed() < MILLIS_PER_SECOND as int,
{
    crate::grid::lemma_wf_len(&sim.grid);
    crate::clock::lemma_timer_invariant(&sim.timer);
}

/// Pausing is idempotent on the board: while paused a frame never changes
/// the grid, and after resuming, frames change it only once a full clock
/// period has elapsed — so Pause -> Play -> Pause without a full elapsed
/// period leaves the grid exactly as it was.
pub proof fn lemma_pause_play_pause(
    g: Seq<CellState>,
    side: int,
    elapsed: int,
    period: int,
    delta: int,
)
    requires
        elapsed + delta < period,
    ensures
        frame_grid(g, side, true, elapsed, period, delta) == g,
        frame_grid(g, side, false, elapsed, period, delta) == g,
{
}

} // verus!
