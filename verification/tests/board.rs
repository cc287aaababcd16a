use game_of_life::cell::CellState;
use game_of_life::grid::{Grid, Position};

fn state(g: &Grid, x: i32, y: i32) -> CellState {
    g.state_at(Position { x, y })
}

fn assert_all_dead(g: &Grid, side: i32) {
    for y in 0..side {
        for x in 0..side {
            assert_eq!(state(g, x, y), CellState::Dead);
        }
    }
}

#[test]
fn new_grid_is_all_dead() {
    let g = Grid::new(10);
    assert_eq!(g.side(), 10);
    assert_all_dead(&g, 10);
}

#[test]
fn zero_probability_random_grid_is_all_dead() {
    // exercises the randomness boundary: a nonzero result anywhere would
    // light a cell
    let g = Grid::new_random(20, 0, 1);
    assert_all_dead(&g, 20);
}

#[test]
fn full_probability_random_grid_is_all_alive() {
    let g = Grid::new_random(7, 3, 3);
    for y in 0..7 {
        for x in 0..7 {
            assert_eq!(state(&g, x, y), CellState::Alive);
        }
    }
}

#[test]
fn dead_grid_stays_dead_for_generations() {
    let mut g = Grid::new(8);
    for _ in 0..5 {
        g.step();
        assert_all_dead(&g, 8);
    }
}

#[test]
fn toggle_flips_only_the_one_cell() {
    let mut g = Grid::new(6);
    assert!(g.toggle_at(Position { x: 0, y: 0 }));
    for y in 0..6 {
        for x in 0..6 {
            let expected = if (x, y) == (0, 0) { CellState::Alive } else { CellState::Dead };
            assert_eq!(state(&g, x, y), expected);
        }
    }
}

#[test]
fn toggle_out_of_bounds_is_a_reported_no_op() {
    let mut g = Grid::new(6);
    assert!(!g.toggle_at(Position { x: 6, y: 0 }));
    assert!(!g.toggle_at(Position { x: -1, y: 3 }));
    assert!(!g.toggle_at(Position { x: 2, y: 17 }));
    assert_all_dead(&g, 6);
}

#[test]
fn block_is_stable_across_generations() {
    let mut g = Grid::new(10);
    for (x, y) in [(1, 1), (2, 1), (1, 2), (2, 2)] {
        assert!(g.toggle_at(Position { x, y }));
    }
    for _ in 0..10 {
        g.step();
        for y in 0..10 {
            for x in 0..10 {
                let expected = if (1..=2).contains(&x) && (1..=2).contains(&y) {
                    CellState::Alive
                } else {
                    CellState::Dead
                };
                assert_eq!(state(&g, x, y), expected);
            }
        }
    }
}

#[test]
fn diagonal_seed_collapses_then_dies() {
    let mut g = Grid::new(10);
    for (x, y) in [(1, 1), (2, 2), (3, 3)] {
        assert!(g.toggle_at(Position { x, y }));
    }
    g.step();
    // the two ends have one alive neighbor each and die; the middle
    // survives with two; no dead cell sees three
    for y in 0..10 {
        for x in 0..10 {
            let expected = if (x, y) == (2, 2) { CellState::Alive } else { CellState::Dead };
            assert_eq!(state(&g, x, y), expected);
        }
    }
    g.step();
    assert_all_dead(&g, 10);
}

#[test]
fn lone_cell_dies_and_three_in_a_row_blink() {
    let mut g = Grid::new(10);
    assert!(g.toggle_at(Position { x: 4, y: 4 }));
    g.step();
    assert_all_dead(&g, 10);

    // a horizontal blinker turns vertical and back
    for (x, y) in [(3, 4), (4, 4), (5, 4)] {
        assert!(g.toggle_at(Position { x, y }));
    }
    g.step();
    for (x, y) in [(4, 3), (4, 4), (4, 5)] {
        assert_eq!(state(&g, x, y), CellState::Alive);
    }
    assert_eq!(state(&g, 3, 4), CellState::Dead);
    assert_eq!(state(&g, 5, 4), CellState::Dead);
    g.step();
    for (x, y) in [(3, 4), (4, 4), (5, 4)] {
        assert_eq!(state(&g, x, y), CellState::Alive);
    }
    assert_eq!(state(&g, 4, 3), CellState::Dead);
    assert_eq!(state(&g, 4, 5), CellState::Dead);
}

#[test]
fn formation_marks_in_bounds_cells_alive_and_skips_the_rest() {
    let mut g = Grid::new(5);
    assert!(g.toggle_at(Position { x: 0, y: 0 }));
    let coords = vec![
        Position { x: 1, y: 1 },
        Position { x: 2, y: 2 },
        Position { x: 9, y: 9 },
        Position { x: -1, y: 2 },
    ];
    g.apply_formation(&coords);
    for y in 0..5 {
        for x in 0..5 {
            let expected = if [(0, 0), (1, 1), (2, 2)].contains(&(x, y)) {
                CellState::Alive
            } else {
                CellState::Dead
            };
            assert_eq!(state(&g, x, y), expected);
        }
    }
}

#[test]
fn formation_does_not_kill_cells() {
    let mut g = Grid::new(4);
    assert!(g.toggle_at(Position { x: 3, y: 3 }));
    g.apply_formation(&vec![Position { x: 3, y: 3 }, Position { x: 0, y: 1 }]);
    assert_eq!(state(&g, 3, 3), CellState::Alive);
    assert_eq!(state(&g, 0, 1), CellState::Alive);
}
