use game_of_life::cell::CellState;
use game_of_life::grid::Position;
use game_of_life::sim::{Command, SimulationState};

fn grid_snapshot(sim: &SimulationState) -> Vec<CellState> {
    let side = sim.side();
    let mut out = Vec::new();
    for y in 0..side {
        for x in 0..side {
            out.push(sim.cell_at(Position { x, y }));
        }
    }
    out
}

fn make_block(sim: &mut SimulationState) {
    for (x, y) in [(1, 1), (2, 1), (1, 2), (2, 2)] {
        assert!(sim.toggle_cell(Position { x, y }));
    }
}

#[test]
fn fresh_simulation_is_dead_paused_and_slow() {
    let sim = SimulationState::new(10);
    assert!(!sim.is_playing());
    assert_eq!(sim.steps_per_second(), 1);
    assert_eq!(sim.side(), 10);
    assert!(grid_snapshot(&sim).iter().all(|c| *c == CellState::Dead));
}

#[test]
fn paused_frames_never_step() {
    let mut sim = SimulationState::new(8);
    make_block(&mut sim);
    let before = grid_snapshot(&sim);
    for _ in 0..5 {
        assert!(!sim.frame(10_000));
    }
    assert_eq!(grid_snapshot(&sim), before);
}

#[test]
fn playing_frames_step_once_per_period() {
    let mut sim = SimulationState::new(8);
    assert!(sim.toggle_cell(Position { x: 4, y: 4 }));
    sim.toggle_play();
    assert!(sim.is_playing());
    assert!(!sim.frame(999));
    assert_eq!(sim.cell_at(Position { x: 4, y: 4 }), CellState::Alive);
    assert!(sim.frame(1));
    // the lone cell starved
    assert!(grid_snapshot(&sim).iter().all(|c| *c == CellState::Dead));
}

#[test]
fn pause_play_pause_without_a_period_leaves_the_grid() {
    let mut sim = SimulationState::new(8);
    make_block(&mut sim);
    assert!(sim.toggle_cell(Position { x: 5, y: 5 }));
    let before = grid_snapshot(&sim);
    sim.toggle_play();
    assert!(!sim.frame(300));
    assert!(!sim.frame(300));
    sim.toggle_play();
    assert!(!sim.is_playing());
    assert_eq!(grid_snapshot(&sim), before);
}

#[test]
fn reset_kills_everything_and_pauses() {
    let mut sim = SimulationState::new(8);
    make_block(&mut sim);
    sim.toggle_play();
    assert!(sim.apply_command(Command::SpeedUpRequested));
    assert!(sim.apply_command(Command::ResetRequested));
    assert!(!sim.is_playing());
    assert!(grid_snapshot(&sim).iter().all(|c| *c == CellState::Dead));
    // the clock keeps its rate across a reset
    assert_eq!(sim.steps_per_second(), 2);
}

#[test]
fn toggle_command_flips_only_the_origin_cell() {
    let mut sim = SimulationState::new(6);
    assert!(sim.apply_command(Command::ToggleRequested(Position { x: 0, y: 0 })));
    let snap = grid_snapshot(&sim);
    assert_eq!(snap[0], CellState::Alive);
    assert!(snap[1..].iter().all(|c| *c == CellState::Dead));
}

#[test]
fn stale_toggle_is_a_reported_no_op() {
    let mut sim = SimulationState::new(6);
    assert!(!sim.apply_command(Command::ToggleRequested(Position { x: 7, y: 0 })));
    assert!(grid_snapshot(&sim).iter().all(|c| *c == CellState::Dead));
    assert!(!sim.is_playing());
}

#[test]
fn rate_commands_do_not_touch_play_state_or_grid() {
    let mut sim = SimulationState::new(6);
    make_block(&mut sim);
    let before = grid_snapshot(&sim);
    assert!(sim.apply_command(Command::SpeedUpRequested));
    assert!(sim.apply_command(Command::SpeedUpRequested));
    assert_eq!(sim.steps_per_second(), 4);
    assert!(sim.apply_command(Command::SlowDownRequested));
    assert_eq!(sim.steps_per_second(), 2);
    assert!(!sim.is_playing());
    assert_eq!(grid_snapshot(&sim), before);
}

#[test]
fn play_pause_command_flips_the_flag_only() {
    let mut sim = SimulationState::new(6);
    make_block(&mut sim);
    let before = grid_snapshot(&sim);
    assert!(sim.apply_command(Command::PlayPauseToggled));
    assert!(sim.is_playing());
    assert!(sim.apply_command(Command::PlayPauseToggled));
    assert!(!sim.is_playing());
    assert_eq!(grid_snapshot(&sim), before);
}

#[test]
fn block_stays_stable_while_playing() {
    let mut sim = SimulationState::new(10);
    make_block(&mut sim);
    let before = grid_snapshot(&sim);
    sim.toggle_play();
    for _ in 0..4 {
        assert!(sim.frame(1000));
        assert_eq!(grid_snapshot(&sim), before);
    }
}

#[test]
fn formation_seeds_the_board_before_play() {
    let mut sim = SimulationState::new(10);
    sim.apply_formation(&vec![Position { x: 1, y: 1 }, Position { x: 2, y: 2 }]);
    assert_eq!(sim.cell_at(Position { x: 1, y: 1 }), CellState::Alive);
    assert_eq!(sim.cell_at(Position { x: 2, y: 2 }), CellState::Alive);
    assert_eq!(sim.cell_at(Position { x: 3, y: 3 }), CellState::Dead);
}

#[test]
fn toggles_between_frames_feed_the_next_generation() {
    let mut sim = SimulationState::new(10);
    sim.toggle_play();
    // build a blinker piecewise while the clock is short of a period
    assert!(!sim.frame(500));
    assert!(sim.toggle_cell(Position { x: 3, y: 4 }));
    assert!(sim.toggle_cell(Position { x: 4, y: 4 }));
    assert!(sim.toggle_cell(Position { x: 5, y: 4 }));
    assert!(sim.frame(500));
    assert_eq!(sim.cell_at(Position { x: 4, y: 3 }), CellState::Alive);
    assert_eq!(sim.cell_at(Position { x: 4, y: 4 }), CellState::Alive);
    assert_eq!(sim.cell_at(Position { x: 4, y: 5 }), CellState::Alive);
    assert_eq!(sim.cell_at(Position { x: 3, y: 4 }), CellState::Dead);
}
