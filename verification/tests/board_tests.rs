use tic_tac_toe::board::{transpose_grid, Board, PlaceError, EMPTY};
use tic_tac_toe::players::{Player2, PlayerKind};

#[test]
fn add_value_in_empty_field_adds_value() {
    let sign = 'X';
    let board = Board::new();
    let player = Player2 {
        sign,
        kind: PlayerKind::Human,
    };
    let result_board = board.add_value((0, 0), player.sign).unwrap();
    assert_eq!(result_board.grid[0][0], sign);
}

#[test]
fn add_value_with_custom_sign_uses_sign() {
    let sign = 'A';
    let board = Board::new();
    let player = Player2 {
        sign,
        kind: PlayerKind::Human,
    };
    let result_board = board.add_value((0, 0), player.sign).unwrap();
    assert_eq!(result_board.grid[0][0], sign);
}

#[test]
fn add_value_outside_of_bounds_is_invalid() {
    let board = Board::new();

    let player = Player2 {
        sign: 'X',
        kind: PlayerKind::Human,
    };

    let result = board.add_value((3, 3), player.sign);
    assert_eq!(result.is_err(), true);
}

#[test]
fn add_value_to_existing_field_is_invalid() {
    let board = Board {
        grid: [['X'; 3], ['-'; 3], ['-'; 3]],
    };

    let player = Player2 {
        sign: 'X',
        kind: PlayerKind::Human,
    };

    let result = board.add_value((0, 0), player.sign);
    assert_eq!(result.is_err(), true);
}

#[test]
fn new_board_is_empty() {
    let board = Board::new();
    assert_eq!(board.grid, [['-'; 3]; 3]);
    assert_eq!(EMPTY, '-');
}

#[test]
fn add_value_sets_column_then_row() {
    let board = Board::new();
    let placed = board.add_value((2, 1), 'O').unwrap();
    assert_eq!(
        placed.grid,
        [['-', '-', '-'], ['-', '-', 'O'], ['-', '-', '-']]
    );
}

#[test]
fn add_value_leaves_other_cells_and_the_old_board() {
    let board = Board {
        grid: [['X', '-', 'O'], ['-', 'O', '-'], ['-', '-', 'X']],
    };
    let placed = board.add_value((0, 2), 'X').unwrap();
    assert_eq!(
        placed.grid,
        [['X', '-', 'O'], ['-', 'O', '-'], ['X', '-', 'X']]
    );
    assert_eq!(
        board.grid,
        [['X', '-', 'O'], ['-', 'O', '-'], ['-', '-', 'X']]
    );
}

#[test]
fn add_value_with_one_component_too_large_is_out_of_bounds() {
    let board = Board::new();
    assert_eq!(
        board.add_value((3, 0), 'X').unwrap_err(),
        PlaceError::OutOfBounds
    );
    assert_eq!(
        board.add_value((0, 3), 'X').unwrap_err(),
        PlaceError::OutOfBounds
    );
    assert_eq!(
        board.add_value((usize::MAX, usize::MAX), 'X').unwrap_err(),
        PlaceError::OutOfBounds
    );
    assert_eq!(board.grid, [['-'; 3]; 3]);
}

#[test]
fn add_value_out_of_bounds_comes_before_occupied() {
    let board = Board {
        grid: [['X'; 3], ['X'; 3], ['X'; 3]],
    };
    assert_eq!(
        board.add_value((5, 1), 'O').unwrap_err(),
        PlaceError::OutOfBounds
    );
}

#[test]
fn add_value_on_every_occupied_cell_is_refused() {
    let board = Board {
        grid: [['X', 'O', 'X'], ['O', 'X', 'O'], ['O', 'X', 'O']],
    };
    for x in 0..3 {
        for y in 0..3 {
            assert_eq!(
                board.add_value((x, y), 'X').unwrap_err(),
                PlaceError::CellOccupied
            );
        }
    }
    assert_eq!(
        board.grid,
        [['X', 'O', 'X'], ['O', 'X', 'O'], ['O', 'X', 'O']]
    );
}

#[test]
fn place_error_messages() {
    assert_eq!(
        PlaceError::OutOfBounds.message(),
        "The field is out of bounds"
    );
    assert_eq!(
        PlaceError::CellOccupied.message(),
        "The field is already taken"
    );
}

#[test]
fn transpose_exchanges_rows_and_columns() {
    let board = Board {
        grid: [['a', 'b', 'c'], ['d', 'e', 'f'], ['g', 'h', 'i']],
    };
    assert_eq!(
        board.transpose().grid,
        [['a', 'd', 'g'], ['b', 'e', 'h'], ['c', 'f', 'i']]
    );
    assert_eq!(board.transpose().transpose().grid, board.grid);
    assert_eq!(transpose_grid(board.grid), board.transpose().grid);
}

#[test]
fn diagonals_run_from_the_top() {
    let board = Board {
        grid: [['a', 'b', 'c'], ['d', 'e', 'f'], ['g', 'h', 'i']],
    };
    assert_eq!(board.main_diagonal(), ['a', 'e', 'i']);
    assert_eq!(board.anti_diagonal(), ['c', 'e', 'g']);
}
