//! The board: positions, the bounded (non-toroidal) neighbor topology, the
//! row-major index mapping, and the grid of cells with its generation step.

use vstd::prelude::*;
use vstd::arithmetic::div_mod::lemma_fundamental_div_mod_converse;
use crate::cell::{Cell, CellState, flipped, spec_next};

verus! {

/// Integer coordinates of one cell; valid positions satisfy
/// `0 <= x, y < side`.
#[derive(Clone, Copy, PartialEq, Eq, Structural, Debug)]
pub struct Position {
    pub x: i32,
    pub y: i32,
}

/// Whether a position lies on a board of the given side length.
pub open spec fn in_bounds(p: Position, side: int) -> bool {
    0 <= p.x < side && 0 <= p.y < side
}

/// Whether `b` is one of the up-to-8 cells surrounding `a` (horizontally,
/// vertically or diagonally adjacent, and distinct from `a`).
pub open spec fn is_adjacent(a: Position, b: Position) -> bool {
    &&& !(a == b)
    &&& -1 <= b.x - a.x <= 1
    &&& -1 <= b.y - a.y <= 1
}

/// How many of the coordinates `c - 1`, `c`, `c + 1` lie in `[0, side)`,
/// for an in-range coordinate `c`.
pub open spec fn axis_span(c: int, side: int) -> int {
    1 + (if c > 0 { 1int } else { 0int }) + (if c + 1 < side { 1int } else { 0int })
}

/// Number of in-bounds neighbors of an in-bounds position: all cells of the
/// surrounding block that lie on the board, minus the position itself.
pub open spec fn neighbor_count(p: Position, side: int) -> int {
    axis_span(p.x as int, side) * axis_span(p.y as int, side) - 1
}

/// The row-major index of a position: `side * y + x`.
pub open spec fn row_major_index(p: Position, side: int) -> int {
    side * p.y + p.x
}

impl Position {
    /// All in-bounds neighbors of this position: the surrounding cells
    /// (above, below, left, right and the diagonals), each kept only when
    /// both coordinates stay within `[0, side_size)`. The board is bounded,
    /// not toroidal: edge and corner cells have fewer than 8 neighbors.
    ///
    /// The boundary policy is a direct bound comparison (`coord + 1 <
    /// side_size`); for the in-range coordinates this function accepts it
    /// coincides with a modulo-based test.
    pub fn neighbor_coords(&self, side_size: i32) -> (r: Vec<Position>)
        requires
            in_bounds(*self, side_size as int),
        ensures
            forall|q: Position| #[trigger] r@.contains(q)
                <==> in_bounds(q, side_size as int) && is_adjacent(*self, q),
            forall|i: int, j: int| 0 <= i < j < r@.len() ==> r@[i] != r@[j],
            r@.len() == neighbor_count(*self, side_size as int),
    {
        let mut r: Vec<Position> = Vec::new();
        let up = self.y > 0;
        let down = self.y + 1 < side_size;
        let left = self.x > 0;
        let right = self.x + 1 < side_size;
        let ghost mut i_ul: int = 0;
        let ghost mut i_u: int = 0;
        let ghost mut i_ur: int = 0;
        let ghost mut i_l: int = 0;
        let ghost mut i_r: int = 0;
        let ghost mut i_dl: int = 0;
        let ghost mut i_d: int = 0;
        let ghost mut i_dr: int = 0;

        // the row above
        if up {
            if left {
                r.push(Position { x: self.x - 1, y: self.y - 1 });
                proof { i_ul = r@.len() - 1; }
            }
            r.push(Position { x: self.x, y: self.y - 1 });
            proof { i_u = r@.len() - 1; }
            if right {
                r.push(Position { x: self.x + 1, y: self.y - 1 });
                proof { i_ur = r@.len() - 1; }
            }
        }

        // the same row
        if left {
            r.push(Position { x: self.x - 1, y: self.y });
            proof { i_l = r@.len() - 1; }
        }
        if right {
            r.push(Position { x: self.x + 1, y: self.y });
            proof { i_r = r@.len() - 1; }
        }

        // the row below
        if down {
            if left {
                r.push(Position { x: self.x - 1, y: self.y + 1 });
                proof { i_dl = r@.len() - 1; }
            }
            r.push(Position { x: self.x, y: self.y + 1 });
            proof { i_d = r@.len() - 1; }
            if right {
                r.push(Position { x: self.x + 1, y: self.y + 1 });
                proof { i_dr = r@.len() - 1; }
            }
        }

        proof {
            let s = side_size as int;
            let xs: int = 1 + (if left { 1int } else { 0int }) + (if right { 1int } else { 0int });
            let ys: int = 1 + (if up { 1int } else { 0int }) + (if down { 1int } else { 0int });
            assert(axis_span(self.x as int, s) == xs);
            assert(axis_span(self.y as int, s) == ys);
            assert(r@.len()
                == xs - 1 + (if up { xs } else { 0int }) + (if down { xs } else { 0int }));
            assert(xs * ys == xs + (if up { xs } else { 0int }) + (if down { xs } else { 0int }))
                by {
                if up {
                    if down {
                        assert(ys == 3);
                    } else {
                        assert(ys == 2);
                    }
                } else {
                    if down {
                        assert(ys == 2);
                    } else {
                        assert(ys == 1);
                    }
                }
            }
            assert(r@.len() == neighbor_count(*self, s));

            assert forall|q: Position| in_bounds(q, s) && is_adjacent(*self, q)
                implies r@.contains(q) by {
                if q.y == self.y - 1 {
                    if q.x == self.x - 1 {
                        assert(r@[i_ul] == q);
                    } else if q.x == self.x {
                        assert(r@[i_u] == q);
                    } else {
                        assert(r@[i_ur] == q);
                    }
                } else if q.y == self.y {
                    if q.x == self.x - 1 {
                        assert(r@[i_l] == q);
                    } else {
                        assert(r@[i_r] == q);
                    }
                } else {
                    if q.x == self.x - 1 {
                        assert(r@[i_dl] == q);
                    } else if q.x == self.x {
                        assert(r@[i_d] == q);
                    } else {
                        assert(r@[i_dr] == q);
                    }
                }
            }
            assert forall|q: Position| r@.contains(q)
                implies in_bounds(q, s) && is_adjacent(*self, q) by {
                let i = choose|i: int| 0 <= i < r@.len() && r@[i] == q;
            }
        }
        r
    }

    /// The row-major index of this position, or `None` when the computed
    /// index falls outside `[0, size)`. For a position produced by
    /// `neighbor_coords` on a `side_size * side_size` board this never
    /// returns `None`.
    pub fn to_index(&self, side_size: i32, size: i32) -> (r: Option<i32>)
        requires
            i32::MIN <= side_size as int * self.y as int <= i32::MAX,
            i32::MIN <= row_major_index(*self, side_size as int) <= i32::MAX,
        ensures
            r == if 0 <= row_major_index(*self, side_size as int) < size as int {
                Some(row_major_index(*self, side_size as int) as i32)
            } else {
                None::<i32>
            },
    {
        let i: i32 = (side_size * self.y) + self.x;
        if i < 0 || i >= size {
            None
        } else {
            Some(i)
        }
    }
}

/// Neighbor counts by board region: an interior cell has exactly 8 in-bounds
/// neighbors, a corner cell exactly 3, and a non-corner edge cell exactly 5.
pub proof fn lemma_neighbor_count_by_region(p: Position, side: int)
    requires
        in_bounds(p, side),
    ensures
        0 < p.x < side - 1 && 0 < p.y < side - 1 ==> neighbor_count(p, side) == 8,
        side >= 2 && (p.x == 0 || p.x == side - 1) && (p.y == 0 || p.y == side - 1)
            ==> neighbor_count(p, side) == 3,
        (p.x == 0 || p.x == side - 1) && 0 < p.y < side - 1 ==> neighbor_count(p, side) == 5,
        (p.y == 0 || p.y == side - 1) && 0 < p.x < side - 1 ==> neighbor_count(p, side) == 5,
{
    let sx = axis_span(p.x as int, side);
    let sy = axis_span(p.y as int, side);
    assert(neighbor_count(p, side) == sx * sy - 1);
    if 0 < p.x < side - 1 && 0 < p.y < side - 1 {
        assert(sx == 3 && sy == 3);
        assert(sx * sy == 9) by (nonlinear_arith)
            requires
                sx == 3,
                sy == 3,
        ;
    }
    if side >= 2 && (p.x == 0 || p.x == side - 1) && (p.y == 0 || p.y == side - 1) {
        assert(sx == 2 && sy == 2);
        assert(sx * sy == 4) by (nonlinear_arith)
            requires
                sx == 2,
                sy == 2,
        ;
    }
    if (p.x == 0 || p.x == side - 1) && 0 < p.y < side - 1 {
        assert(sx == 2 && sy == 3);
        assert(sx * sy == 6) by (nonlinear_arith)
            requires
                sx == 2,
                sy == 3,
        ;
    }
    if (p.y == 0 || p.y == side - 1) && 0 < p.x < side - 1 {
        assert(sx == 3 && sy == 2);
        assert(sx * sy == 6) by (nonlinear_arith)
            requires
                sx == 3,
                sy == 2,
        ;
    }
}

/// Largest side length whose cell count fits an `i32`.
pub const MAX_SIDE: i32 = 46340;

/// The alive/dead states of a sequence of cells.
pub open spec fn cell_states(cells: Seq<Cell>) -> Seq<CellState> {
    cells.map_values(|c: Cell| c.state)
}

/// Whether `(x, y)` lies on a board of the given side length and holds an
/// alive cell in the row-major state sequence `s`.
pub open spec fn alive_at(s: Seq<CellState>, x: int, y: int, side: int) -> bool {
    &&& 0 <= x < side
    &&& 0 <= y < side
    &&& 0 <= side * y + x < s.len()
    &&& s[side * y + x] == CellState::Alive
}

/// 1 for a true condition, 0 for a false one.
pub open spec fn one_if(b: bool) -> int {
    if b {
        1
    } else {
        0
    }
}

/// How many of the up-to-8 in-bounds neighbors of `p` are alive in the
/// row-major state sequence `s`.
pub open spec fn alive_neighbor_count(s: Seq<CellState>, p: Position, side: int) -> int {
    one_if(alive_at(s, p.x - 1, p.y - 1, side)) + one_if(alive_at(s, p.x as int, p.y - 1, side))
        + one_if(alive_at(s, p.x + 1, p.y - 1, side)) + one_if(
        alive_at(s, p.x - 1, p.y as int, side),
    ) + one_if(alive_at(s, p.x + 1, p.y as int, side)) + one_if(
        alive_at(s, p.x - 1, p.y + 1, side),
    ) + one_if(alive_at(s, p.x as int, p.y + 1, side)) + one_if(
        alive_at(s, p.x + 1, p.y + 1, side),
    )
}

/// The position whose row-major index is `i`.
pub open spec fn position_of_index(i: int, side: int) -> Position {
    Position { x: (i % side) as i32, y: (i / side) as i32 }
}

/// The generation that follows `s`: every cell is rewritten by the canonical
/// transition rule, with its alive-neighbor count taken from `s` itself (one
/// consistent snapshot).
pub open spec fn next_gen(s: Seq<CellState>, side: int) -> Seq<CellState> {
    Seq::new(
        s.len(),
        |i: int| spec_next(s[i], alive_neighbor_count(s, position_of_index(i, side), side)),
    )
}

/// What a well-formed grid guarantees of its dimensions: the side length is
/// in range and there is exactly one cell per position.
pub proof fn lemma_wf_len(g: &Grid)
    requires
        g.wf(),
    ensures
        1 <= g.spec_side() <= MAX_SIDE as int,
        g@.len() == g.spec_side() * g.spec_side(),
{
}

/// The row-major index of an in-bounds position is itself in bounds.
pub proof fn lemma_row_major_in_range(p: Position, side: int)
    requires
        1 <= side <= MAX_SIDE as int,
        in_bounds(p, side),
    ensures
        0 <= row_major_index(p, side) < side * side,
        side * side <= i32::MAX,
        position_of_index(row_major_index(p, side), side) == p,
{
    assert(0 <= side * p.y + p.x < side * side && side * side <= i32::MAX) by (nonlinear_arith)
        requires
            1 <= side <= 46340,
            0 <= p.x < side,
            0 <= p.y < side,
    ;
    lemma_fundamental_div_mod_converse(side * p.y + p.x, side, p.y as int, p.x as int);
}

/// Whether some coordinate of the formation `coords` lands on row-major
/// index `i` of a board with the given side length.
pub open spec fn formation_hits(coords: Seq<Position>, side: int, i: int) -> bool {
    exists|k: int|
        0 <= k < coords.len() && in_bounds(#[trigger] coords[k], side)
            && row_major_index(coords[k], side) == i
}

/// The board: one cell for every position of a `side * side` square, stored
/// in row-major order. The size is fixed when the grid is created.
pub struct Grid {
    side: i32,
    cells: Vec<Cell>,
}

impl View for Grid {
    type V = Seq<CellState>;

    closed spec fn view(&self) -> Seq<CellState> {
        cell_states(self.cells@)
    }
}

impl Grid {
    /// Every position in range has exactly one cell, and the side length is
    /// small enough that the cell count fits an `i32`.
    pub closed spec fn wf(&self) -> bool {
        &&& 1 <= self.side <= MAX_SIDE
        &&& self.cells@.len() == self.side as int * self.side as int
    }

    /// The side length, as a mathematical integer.
    pub closed spec fn spec_side(&self) -> int {
        self.side as int
    }

    /// The side length of the board.
    pub fn side(&self) -> (s: i32)
        ensures
            s as int == self.spec_side(),
    {
        self.side
    }

    /// A grid with every cell dead.
    pub fn new(side: i32) -> (g: Grid)
        requires
            1 <= side <= MAX_SIDE,
        ensures
            g.wf(),
            g.spec_side() == side as int,
            g@.len() == side as int * side as int,
            forall|i: int| 0 <= i < g@.len() ==> g@[i] == CellState::Dead,
    {
        let count = cell_count(side);
        let mut cells: Vec<Cell> = Vec::new();
        let mut i: i32 = 0;
        while i < count
            invariant
                0 <= i <= count,
                count as int == side as int * side as int,
                cells@.len() == i as int,
                forall|j: int| 0 <= j < cells@.len() ==> cells@[j].state == CellState::Dead,
            decreases count - i,
        {
            cells.push(Cell { state: CellState::Dead });
            i = i + 1;
        }
        Grid { side, cells }
    }

    /// A grid in which each cell is independently drawn alive with
    /// probability `alive_numerator / alive_denominator` (so a zero numerator
    /// gives an all-dead grid, and a full ratio an all-alive one).
    pub fn new_random(side: i32, alive_numerator: u32, alive_denominator: u32) -> (g: Grid)
        requires
            1 <= side <= MAX_SIDE,
            0 < alive_denominator,
            alive_numerator <= alive_denominator,
        ensures
            g.wf(),
            g.spec_side() == side as int,
            g@.len() == side as int * side as int,
            alive_numerator == 0 ==> forall|i: int| 0 <= i < g@.len() ==> g@[i] == CellState::Dead,
            alive_numerator == alive_denominator ==> forall|i: int|
                0 <= i < g@.len() ==> g@[i] == CellState::Alive,
    {
        let count = cell_count(side);
        let mut cells: Vec<Cell> = Vec::new();
        let mut i: i32 = 0;
        while i < count
            invariant
                0 <= i <= count,
                count as int == side as int * side as int,
                0 < alive_denominator,
                alive_numerator <= alive_denominator,
                cells@.len() == i as int,
                alive_numerator == 0 ==> forall|j: int|
                    0 <= j < cells@.len() ==> cells@[j].state == CellState::Dead,
                alive_numerator == alive_denominator ==> forall|j: int|
                    0 <= j < cells@.len() ==> cells@[j].state == CellState::Alive,
            decreases count - i,
        {
            let state = if crate::rng::random_ratio(alive_numerator, alive_denominator) {
                CellState::Alive
            } else {
                CellState::Dead
            };
            cells.push(Cell { state });
            i = i + 1;
        }
        Grid { side, cells }
    }

    /// The state of the cell at an in-bounds position.
    pub fn state_at(&self, p: Position) -> (r: CellState)
        requires
            self.wf(),
            in_bounds(p, self.spec_side()),
        ensures
            r == self@[row_major_index(p, self.spec_side())],
    {
        proof {
            lemma_row_major_in_range(p, self.spec_side());
        }
        let i: i32 = self.side * p.y + p.x;
        self.cells[i as usize].state
    }

    /// Flip the cell at `p` between alive and dead, immediately and
    /// independently of the step clock. An out-of-bounds position is a
    /// no-op, reported by the `false` result.
    pub fn toggle_at(&mut self, p: Position) -> (applied: bool)
        requires
            old(self).wf(),
        ensures
            final(self).wf(),
            final(self).spec_side() == old(self).spec_side(),
            applied == in_bounds(p, old(self).spec_side()),
            applied ==> final(self)@ == old(self)@.update(
                row_major_index(p, old(self).spec_side()),
                flipped(old(self)@[row_major_index(p, old(self).spec_side())]),
            ),
            !applied ==> final(self)@ == old(self)@,
    {
        if p.x < 0 || p.y < 0 || p.x >= self.side || p.y >= self.side {
            return false;
        }
        proof {
            lemma_row_major_in_range(p, self.spec_side());
        }
        let i: i32 = self.side * p.y + p.x;
        let mut c = self.cells[i as usize];
        c.toggle();
        self.cells[i as usize] = c;
        proof {
            assert(final(self)@ =~= old(self)@.update(
                row_major_index(p, old(self).spec_side()),
                flipped(old(self)@[row_major_index(p, old(self).spec_side())]),
            ));
        }
        true
    }

    /// Mark every in-bounds coordinate of a loaded formation alive; the
    /// out-of-bounds ones are skipped, and every other cell keeps its state.
    pub fn apply_formation(&mut self, coords: &Vec<Position>)
        requires
            old(self).wf(),
        ensures
            final(self).wf(),
            final(self).spec_side() == old(self).spec_side(),
            final(self)@.len() == old(self)@.len(),
            forall|i: int| 0 <= i < final(self)@.len() ==> #[trigger] final(self)@[i] == (
            if formation_hits(coords@, old(self).spec_side(), i) {
                CellState::Alive
            } else {
                old(self)@[i]
            }),
    {
        let ghost side = self.spec_side();
        let ghost init = self@;
        let mut k: usize = 0;
        while k < coords.len()
            invariant
                self.wf(),
                self.spec_side() == side,
                self@.len() == init.len(),
                0 <= k <= coords@.len(),
                forall|i: int| 0 <= i < self@.len() ==> #[trigger] self@[i] == (
                if formation_hits(coords@.take(k as int), side, i) {
                    CellState::Alive
                } else {
                    init[i]
                }),
            decreases coords@.len() - k,
        {
            let p = coords[k];
            let ghost prev = self@;
            if 0 <= p.x && p.y >= 0 && p.x < self.side && p.y < self.side {
                proof {
                    lemma_row_major_in_range(p, side);
                }
                let i: i32 = self.side * p.y + p.x;
                self.cells[i as usize] = Cell { state: CellState::Alive };
                proof {
                    assert(self@ =~= prev.update(row_major_index(p, side), CellState::Alive));
                }
            }
            proof {
                let t1 = coords@.take(k + 1);
                let t0 = coords@.take(k as int);
                assert(t1 =~= t0.push(coords@[k as int]));
                assert forall|i: int| 0 <= i < self@.len() implies #[trigger] self@[i] == (
                if formation_hits(t1, side, i) {
                    CellState::Alive
                } else {
                    init[i]
                }) by {
                    let pk = coords@[k as int];
                    if in_bounds(pk, side) && row_major_index(pk, side) == i {
                        assert(t1[k as int] == pk);
                        assert(formation_hits(t1, side, i));
                        assert(self@[i] == CellState::Alive);
                    } else {
                        assert(self@[i] == prev[i]);
                        assert(formation_hits(t1, side, i) == formation_hits(t0, side, i)) by {
                            if formation_hits(t1, side, i) {
                                let w = choose|w: int|
                                    0 <= w < t1.len() && in_bounds(#[trigger] t1[w], side)
                                        && row_major_index(t1[w], side) == i;
                                assert(w != k);
                                assert(t0[w] == t1[w]);
                                assert(formation_hits(t0, side, i));
                            }
                            if formation_hits(t0, side, i) {
                                let w = choose|w: int|
                                    0 <= w < t0.len() && in_bounds(#[trigger] t0[w], side)
                                        && row_major_index(t0[w], side) == i;
                                assert(t1[w] == t0[w]);
                                assert(formation_hits(t1, side, i));
                            }
                        }
                    }
                }
            }
            k = k + 1;
        }
        proof {
            assert(coords@.take(coords@.len() as int) =~= coords@);
        }
    }

    /// Advance the whole grid by one generation: every cell's next state is
    /// computed from a single consistent snapshot of the current states, and
    /// the new generation is committed wholesale.
    pub fn step(&mut self)
        requires
            old(self).wf(),
        ensures
            final(self).wf(),
            final(self).spec_side() == old(self).spec_side(),
            final(self)@ == next_gen(old(self)@, old(self).spec_side()),
    {
        let side = self.side;
        let ghost s = self@;
        let ghost sidei = side as int;
        let mut next: Vec<Cell> = Vec::new();
        let mut y: i32 = 0;
        while y < side
            invariant
                self == old(self),
                self.wf(),
                side == self.side,
                s == self@,
                sidei == side as int,
                0 <= y <= side,
                s.len() == sidei * sidei,
                next@.len() == y as int * sidei,
                forall|j: int| 0 <= j < next@.len() ==> #[trigger] next@[j].state == next_gen(
                    s,
                    sidei,
                )[j],
            decreases side - y,
        {
            let mut x: i32 = 0;
            while x < side
                invariant
                    self == old(self),
                    self.wf(),
                    side == self.side,
                    s == self@,
                    sidei == side as int,
                    0 <= y < side,
                    0 <= x <= side,
                    s.len() == sidei * sidei,
                    next@.len() == y as int * sidei + x as int,
                    forall|j: int| 0 <= j < next@.len() ==> #[trigger] next@[j].state == next_gen(
                        s,
                        sidei,
                    )[j],
                decreases side - x,
            {
                let p = Position { x, y };
                proof {
                    lemma_row_major_in_range(p, sidei);
                }
                let n = count_alive_neighbors(&self.cells, p, side);
                let i: i32 = side * y + x;
                let current = self.cells[i as usize].state;
                next.push(Cell { state: crate::cell::next_state(current, n) });
                proof {
                    let idx = y as int * sidei + x as int;
                    assert(sidei * (y as int) == (y as int) * sidei) by (nonlinear_arith);
                    assert(row_major_index(p, sidei) == idx);
                    assert(0 <= idx < sidei * sidei);
                    assert(position_of_index(idx, sidei) == p);
                    assert(s[idx] == current);
                    assert(next@[idx].state == spec_next(
                        s[idx],
                        alive_neighbor_count(s, p, sidei),
                    ));
                    assert(next@[idx].state == next_gen(s, sidei)[idx]);
                }
                x = x + 1;
            }
            proof {
                assert((y + 1) as int * sidei == y as int * sidei + sidei) by (nonlinear_arith);
            }
            y = y + 1;
        }
        self.cells = next;
        proof {
            assert(final(self)@ =~= next_gen(s, sidei));
        }
    }
}

/// The number of cells of a board with the given side length.
fn cell_count(side: i32) -> (n: i32)
    requires
        1 <= side <= MAX_SIDE,
    ensures
        n as int == side as int * side as int,
{
    proof {
        assert(1 <= side as int * side as int <= 46340 * 46340) by (nonlinear_arith)
            requires
                1 <= side as int <= 46340,
        ;
    }
    side * side
}

/// Whether the cell at `(x, y)` is alive, reading the row-major snapshot
/// `cells` of a `side * side` board; out-of-bounds coordinates count as dead.
fn alive_at_exec(cells: &Vec<Cell>, x: i32, y: i32, side: i32) -> (r: bool)
    requires
        1 <= side <= MAX_SIDE,
        cells@.len() == side as int * side as int,
    ensures
        r == alive_at(cell_states(cells@), x as int, y as int, side as int),
{
    if x < 0 || y < 0 || x >= side || y >= side {
        return false;
    }
    proof {
        lemma_row_major_in_range(Position { x, y }, side as int);
    }
    let i: i32 = side * y + x;
    match cells[i as usize].state {
        CellState::Alive => true,
        CellState::Dead => false,
    }
}

/// Count the alive neighbors of `p` in the row-major snapshot `cells`,
/// looking each of the up-to-8 surrounding coordinates up in that snapshot.
fn count_alive_neighbors(cells: &Vec<Cell>, p: Position, side: i32) -> (n: u8)
    requires
        1 <= side <= MAX_SIDE,
        cells@.len() == side as int * side as int,
        in_bounds(p, side as int),
    ensures
        n as int == alive_neighbor_count(cell_states(cells@), p, side as int),
{
    let mut n: u8 = 0;
    if alive_at_exec(cells, p.x - 1, p.y - 1, side) {
        n = n + 1;
    }
    if alive_at_exec(cells, p.x, p.y - 1, side) {
        n = n + 1;
    }
    if alive_at_exec(cells, p.x + 1, p.y - 1, side) {
        n = n + 1;
    }
    if alive_at_exec(cells, p.x - 1, p.y, side) {
        n = n + 1;
    }
    if alive_at_exec(cells, p.x + 1, p.y, side) {
        n = n + 1;
    }
    if alive_at_exec(cells, p.x - 1, p.y + 1, side) {
        n = n + 1;
    }
    if alive_at_exec(cells, p.x, p.y + 1, side) {
        n = n + 1;
    }
    if alive_at_exec(cells, p.x + 1, p.y + 1, side) {
        n = n + 1;
    }
    n
}

/// No spontaneous life: a generation computed from an all-dead board is
/// all-dead again.
pub proof fn lemma_dead_grid_stays_dead(s: Seq<CellState>, side: int)
    requires
        forall|i: int| 0 <= i < s.len() ==> s[i] == CellState::Dead,
    ensures
        next_gen(s, side).len() == s.len(),
        forall|i: int| 0 <= i < s.len() ==> next_gen(s, side)[i] == CellState::Dead,
{
    assert forall|i: int| 0 <= i < s.len() implies next_gen(s, side)[i] == CellState::Dead by {
        let p = position_of_index(i, side);
        assert(alive_neighbor_count(s, p, side) == 0);
    }
}

/// Repeated application of the generation step.
pub open spec fn iterate_gen(s: Seq<CellState>, side: int, n: nat) -> Seq<CellState>
    decreases n,
{
    if n == 0 {
        s
    } else {
        next_gen(iterate_gen(s, side, (n - 1) as nat), side)
    }
}

/// A still life stays: a board that one generation maps to itself is equal
/// to itself after any number of generations.
pub proof fn lemma_fixed_point_stays(s: Seq<CellState>, side: int, n: nat)
    requires
        next_gen(s, side) == s,
    ensures
        iterate_gen(s, side, n) == s,
    decreases n,
{
    if n > 0 {
        lemma_fixed_point_stays(s, side, (n - 1) as nat);
    }
}

} // verus!
