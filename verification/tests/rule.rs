use game_of_life::cell::{Cell, CellState, next_state};

#[test]
fn dead_cell_revives_only_on_exactly_three() {
    for n in 0..=8u8 {
        let expected = if n == 3 { CellState::Alive } else { CellState::Dead };
        assert_eq!(next_state(CellState::Dead, n), expected);
    }
}

#[test]
fn alive_cell_survives_only_on_two_or_three() {
    for n in 0..=8u8 {
        let expected = if n == 2 || n == 3 { CellState::Alive } else { CellState::Dead };
        assert_eq!(next_state(CellState::Alive, n), expected);
    }
}

#[test]
fn toggle_flips_between_the_two_states() {
    let mut c = Cell { state: CellState::Dead };
    c.toggle();
    assert_eq!(c.state, CellState::Alive);
    c.toggle();
    assert_eq!(c.state, CellState::Dead);
}
