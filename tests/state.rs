use itertools::{sorted, Itertools};
use tabular_rl::environment::{State, StateId};
use tabular_rl::tictactoe::action::TicTacToeAction;
use tabular_rl::tictactoe::cell::CellValue;
use tabular_rl::tictactoe::state::{TicTacToeState, GRID_SIZE};

fn make_state(cell_chars: [[char; GRID_SIZE]; GRID_SIZE]) -> TicTacToeState {
    let cells: Vec<CellValue> = cell_chars
        .iter()
        .flat_map(|row| row.iter())
        .map(|c| CellValue::try_from(*c).unwrap())
        .collect();
    let cells: [CellValue; 9] = cells.try_into().unwrap();
    TicTacToeState { cells }
}

fn render(state: &TicTacToeState) -> String {
    let separator_line = "-".repeat(GRID_SIZE * 2 + 1) + "\n";
    let mut out = separator_line.clone();
    for i in 0..GRID_SIZE {
        out.push('|');
        let row: Vec<String> = state.cells[i * GRID_SIZE..(i + 1) * GRID_SIZE]
            .iter()
            .map(|&cell| char::from(cell).to_string())
            .collect();
        out.push_str(&row.join("|"));
        out.push_str("|\n");
        out.push_str(&separator_line);
    }
    out
}

#[test]
fn all_cells_set_1() {
    let state = make_state([[' ', 'x', 'o'], ['x', 'o', 'x'], [' ', ' ', 'o']]);
    assert!(!state.all_cells_set());
    assert!(!state.is_terminal());
}

#[test]
fn all_cells_set_2() {
    let state = make_state([['x', 'x', 'o'], ['x', 'o', 'x'], ['o', 'x', 'o']]);
    assert!(state.all_cells_set());
    assert!(state.is_terminal());
}

#[test]
fn all_cells_set_3() {
    let state = make_state([[' ', ' ', ' '], [' ', ' ', ' '], [' ', ' ', ' ']]);
    assert!(!state.all_cells_set());
    assert!(!state.is_terminal());
}

#[test]
fn has_winning_value_none() {
    let state = make_state([['x', 'o', 'x'], ['o', 'x', 'o'], ['o', 'x', ' ']]);
    assert_eq!(state.has_winning_value(), CellValue::Empty);
    assert!(!state.is_terminal());
}

#[test]
fn has_winning_value_cols() {
    let state = make_state([['x', ' ', ' '], ['x', ' ', ' '], ['x', ' ', ' ']]);
    assert_eq!(state.has_winning_value(), CellValue::Cross);
    assert!(state.is_terminal());

    let state = make_state([[' ', 'x', ' '], [' ', 'x', ' '], [' ', 'x', ' ']]);
    assert_eq!(state.has_winning_value(), CellValue::Cross);
    assert!(state.is_terminal());

    let state = make_state([[' ', ' ', 'x'], [' ', ' ', 'x'], [' ', ' ', 'x']]);
    assert_eq!(state.has_winning_value(), CellValue::Cross);
    assert!(state.is_terminal());
}

#[test]
fn has_winning_value_rows() {
    let state = make_state([['o', 'o', 'o'], [' ', ' ', ' '], [' ', ' ', ' ']]);
    assert_eq!(state.has_winning_value(), CellValue::Circle);
    assert!(state.is_terminal());

    let state = make_state([[' ', ' ', ' '], ['o', 'o', 'o'], [' ', ' ', ' ']]);
    assert_eq!(state.has_winning_value(), CellValue::Circle);
    assert!(state.is_terminal());

    let state = make_state([[' ', ' ', ' '], [' ', ' ', ' '], ['o', 'o', 'o']]);
    assert_eq!(state.has_winning_value(), CellValue::Circle);
    assert!(state.is_terminal());
}

#[test]
fn has_winning_value_diagonals() {
    let state = make_state([['x', ' ', ' '], [' ', 'x', ' '], [' ', ' ', 'x']]);
    assert_eq!(state.has_winning_value(), CellValue::Cross);
    assert!(state.is_terminal());

    let state = make_state([[' ', ' ', 'x'], [' ', 'x', ' '], ['x', ' ', ' ']]);
    assert_eq!(state.has_winning_value(), CellValue::Cross);
    assert!(state.is_terminal());
}

#[test]
fn next_cell_value_1() {
    let state = make_state([[' ', ' ', ' '], [' ', ' ', ' '], [' ', ' ', ' ']]);
    assert_eq!(state.next_cell_value(), CellValue::Cross);
}

#[test]
fn next_cell_value_2() {
    let state = make_state([['x', ' ', ' '], [' ', ' ', ' '], [' ', ' ', ' ']]);
    assert_eq!(state.next_cell_value(), CellValue::Circle);
}

#[test]
fn next_cell_value_3() {
    let state = make_state([['x', ' ', ' '], [' ', 'o', ' '], [' ', ' ', ' ']]);
    assert_eq!(state.next_cell_value(), CellValue::Cross);
}

#[test]
fn next_cell_value_4() {
    let state = make_state([['x', ' ', ' '], [' ', 'o', ' '], ['x', ' ', ' ']]);
    assert_eq!(state.next_cell_value(), CellValue::Circle);
}

#[test]
fn next_cell_value_5() {
    let state = make_state([['x', ' ', ' '], ['o', 'o', ' '], ['x', ' ', ' ']]);
    assert_eq!(state.next_cell_value(), CellValue::Cross);
}

#[test]
fn next_cell_value_6() {
    let state = make_state([['x', ' ', ' '], ['o', 'o', 'x'], ['x', ' ', ' ']]);
    assert_eq!(state.next_cell_value(), CellValue::Circle);
}

#[test]
fn next_cell_value_7() {
    let state = make_state([['x', 'o', ' '], ['o', 'o', 'x'], ['x', ' ', ' ']]);
    assert_eq!(state.next_cell_value(), CellValue::Cross);
}

#[test]
fn next_cell_value_8() {
    let state = make_state([['x', 'o', 'x'], ['o', 'o', 'x'], ['x', ' ', ' ']]);
    assert_eq!(state.next_cell_value(), CellValue::Circle);
}

#[test]
fn next_cell_value_9() {
    let state = make_state([['x', 'o', 'x'], ['o', 'o', 'x'], ['x', 'o', ' ']]);
    // Circles won, so the next value is empty.
    assert_eq!(state.has_winning_value(), CellValue::Circle);
    assert_eq!(state.next_cell_value(), CellValue::Empty);
}

#[test]
fn next_cell_value_terminal_1() {
    let state = make_state([['x', 'o', 'x'], ['o', 'o', 'x'], ['x', 'x', 'o']]);
    assert!(state.is_terminal());
    assert_eq!(state.next_cell_value(), CellValue::Empty);
}

#[test]
fn apply_actions_0() {
    let state = make_state([[' ', ' ', ' '], [' ', ' ', ' '], [' ', ' ', ' ']]);
    let actions = sorted(state.actions()).collect_vec();
    assert_eq!(
        actions,
        vec![
            TicTacToeAction::new(CellValue::Cross, 0),
            TicTacToeAction::new(CellValue::Cross, 1),
            TicTacToeAction::new(CellValue::Cross, 2),
            TicTacToeAction::new(CellValue::Cross, 3),
            TicTacToeAction::new(CellValue::Cross, 4),
            TicTacToeAction::new(CellValue::Cross, 5),
            TicTacToeAction::new(CellValue::Cross, 6),
            TicTacToeAction::new(CellValue::Cross, 7),
            TicTacToeAction::new(CellValue::Cross, 8)
        ]
    );

    let new_states_as_strings = actions
        .iter()
        .map(|action| render(&state.apply_action(action)))
        .collect_vec();
    assert_eq!(
        render(&state),
        "\
-------
| | | |
-------
| | | |
-------
| | | |
-------
"
    );

    assert_eq!(
        new_states_as_strings,
        vec![
            "\
-------
|x| | |
-------
| | | |
-------
| | | |
-------
",
            "\
-------
| |x| |
-------
| | | |
-------
| | | |
-------
",
            "\
-------
| | |x|
-------
| | | |
-------
| | | |
-------
",
            "\
-------
| | | |
-------
|x| | |
-------
| | | |
-------
",
            "\
-------
| | | |
-------
| |x| |
-------
| | | |
-------
",
            "\
-------
| | | |
-------
| | |x|
-------
| | | |
-------
",
            "\
-------
| | | |
-------
| | | |
-------
|x| | |
-------
",
            "\
-------
| | | |
-------
| | | |
-------
| |x| |
-------
",
            "\
-------
| | | |
-------
| | | |
-------
| | |x|
-------
",
        ]
    );
}

#[test]
fn apply_actions_1() {
    let state = make_state([['x', ' ', ' '], [' ', 'o', ' '], [' ', ' ', ' ']]);
    let actions = sorted(state.actions()).collect_vec();
    assert_eq!(
        actions,
        vec![
            TicTacToeAction::new(CellValue::Cross, 1),
            TicTacToeAction::new(CellValue::Cross, 2),
            TicTacToeAction::new(CellValue::Cross, 3),
            TicTacToeAction::new(CellValue::Cross, 5),
            TicTacToeAction::new(CellValue::Cross, 6),
            TicTacToeAction::new(CellValue::Cross, 7),
            TicTacToeAction::new(CellValue::Cross, 8)
        ]
    );

    let new_states_as_strings = actions
        .iter()
        .map(|action| render(&state.apply_action(action)))
        .collect_vec();
    assert_eq!(
        render(&state),
        "\
-------
|x| | |
-------
| |o| |
-------
| | | |
-------
"
    );

    assert_eq!(
        new_states_as_strings,
        vec![
            "\
-------
|x|x| |
-------
| |o| |
-------
| | | |
-------
",
            "\
-------
|x| |x|
-------
| |o| |
-------
| | | |
-------
",
            "\
-------
|x| | |
-------
|x|o| |
-------
| | | |
-------
",
            "\
-------
|x| | |
-------
| |o|x|
-------
| | | |
-------
",
            "\
-------
|x| | |
-------
| |o| |
-------
|x| | |
-------
",
            "\
-------
|x| | |
-------
| |o| |
-------
| |x| |
-------
",
            "\
-------
|x| | |
-------
| |o| |
-------
| | |x|
-------
",
        ]
    );
}

#[test]
fn apply_actions_on_terminal_state_1() {
    let state = make_state([['x', 'x', 'x'], ['o', 'o', ' '], [' ', ' ', ' ']]);
    assert!(state.is_terminal());
    let actions = sorted(state.actions()).collect_vec();
    assert_eq!(actions, vec![]);
}

#[test]
fn apply_actions_on_terminal_state_2() {
    let state = make_state([['x', 'o', 'x'], ['o', 'o', 'x'], ['x', 'x', 'o']]);
    assert!(state.is_terminal());
    let actions = sorted(state.actions()).collect_vec();
    assert_eq!(actions, vec![]);
}

#[test]
fn ids_are_bijective() {
    for id in 0..TicTacToeState::max_state_id().0 {
        let id = StateId(id);
        let state = TicTacToeState::create_state_with_id(id).unwrap();
        assert_eq!(id, state.id(), "state={}", render(&state));
    }
}

#[test]
fn max_state_id_counts_all_positions() {
    assert_eq!(TicTacToeState::max_state_id().0, 19683);
}

#[test]
fn create_state_with_id_out_of_range() {
    assert!(TicTacToeState::create_state_with_id(StateId(19683)).is_none());
    assert!(TicTacToeState::create_state_with_id(StateId(19682)).is_some());
}

#[test]
fn empty_board_has_id_zero() {
    let state = make_state([[' ', ' ', ' '], [' ', ' ', ' '], [' ', ' ', ' ']]);
    assert_eq!(state.id(), StateId(0));
    let state = TicTacToeState::create_state_with_id(StateId(0)).unwrap();
    assert_eq!(state.cells, [CellValue::Empty; 9]);
}

#[test]
fn id_digits_follow_cells() {
    // First cell is the least significant digit.
    let state = make_state([['x', ' ', ' '], [' ', ' ', ' '], [' ', ' ', ' ']]);
    assert_eq!(state.id(), StateId(1));
    let state = make_state([[' ', 'o', ' '], [' ', ' ', ' '], [' ', ' ', ' ']]);
    assert_eq!(state.id(), StateId(6));
    let state = make_state([[' ', ' ', ' '], [' ', ' ', ' '], [' ', ' ', 'o']]);
    assert_eq!(state.id(), StateId(2 * 6561));
    let state = TicTacToeState::create_state_with_id(StateId(19682)).unwrap();
    assert_eq!(state.cells, [CellValue::Circle; 9]);
}

#[test]
fn decode_of_encode_keeps_the_id() {
    let state = make_state([['x', 'o', ' '], [' ', 'x', 'o'], ['o', ' ', 'x']]);
    let again = TicTacToeState::create_state_with_id(state.id()).unwrap();
    assert_eq!(again.id(), state.id());
    assert_eq!(again.cells, state.cells);
}

#[test]
fn decoding_twice_gives_equal_positions() {
    for id in [0usize, 1, 4242, 19682] {
        let a = TicTacToeState::create_state_with_id(StateId(id)).unwrap();
        let b = TicTacToeState::create_state_with_id(StateId(id)).unwrap();
        assert_eq!(a.cells, b.cells);
    }
}

#[test]
fn terminal_position_has_no_actions() {
    // Circles fill the middle column.
    let state = make_state([['x', 'o', 'x'], ['o', 'o', 'x'], ['x', 'o', ' ']]);
    assert!(state.is_terminal());
    assert_eq!(state.has_winning_value(), CellValue::Circle);
    assert!(state.actions().is_empty());
}

#[test]
fn position_without_a_full_line_goes_on() {
    // No row, column or diagonal holds one value three times, and one cell is free.
    let state = make_state([['x', 'o', 'x'], ['o', 'o', 'x'], ['x', ' ', 'o']]);
    assert_eq!(state.has_winning_value(), CellValue::Empty);
    assert!(!state.is_terminal());
    assert_eq!(state.actions(), vec![TicTacToeAction::new(CellValue::Cross, 7)]);
}

#[test]
fn actions_follow_cell_order() {
    let state = make_state([['x', ' ', 'o'], [' ', ' ', ' '], [' ', ' ', ' ']]);
    let indices: Vec<usize> = state.actions().iter().map(|a| a.index()).collect();
    assert_eq!(indices, vec![1, 3, 4, 5, 6, 7, 8]);
    assert!(state.actions().iter().all(|a| a.value() == CellValue::Cross));
}
