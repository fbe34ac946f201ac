use tic_tac_toe::board::Board;
use tic_tac_toe::win_condition::{
    is_column_win, is_diagonal_win, is_draw, is_full_board, is_row_win, is_winning_grid,
    unique_non_empty_row,
};

#[test]
fn empty_board_is_no_win() {
    assert_eq!(
        is_winning_grid(Board {
            grid: [['-'; 3]; 3],
        }),
        false
    );
}

#[test]
fn complete_row_is_win() {
    let grid = [['O'; 3], ['-'; 3], ['-'; 3]];
    assert_eq!(is_winning_grid(Board { grid }), true);
}

#[test]
fn diagonal_is_win() {
    let grid = [['O', '-', '-'], ['-', 'O', '-'], ['-', '-', 'O']];
    assert_eq!(is_winning_grid(Board { grid }), true);
}

#[test]
fn complete_column_is_win() {
    let grid = [['O', '-', '-'], ['O', '-', '-'], ['O', '-', '-']];
    assert_eq!(is_winning_grid(Board { grid }), true);
}

#[test]
fn combined_row_is_no_win() {
    let grid = [['O', 'X', 'X'], ['-', '-', '-'], ['-', '-', '-']];
    assert_eq!(is_winning_grid(Board { grid }), false);
}

#[test]
fn combined_column_is_no_win() {
    let grid = [['O', '-', '-'], ['X', '-', '-'], ['O', '-', '-']];
    assert_eq!(is_winning_grid(Board { grid }), false);
}

#[test]
fn combined_diagonal_is_no_win() {
    let grid = [['O', '-', '-'], ['-', 'X', '-'], ['-', '-', 'O']];
    assert_eq!(is_winning_grid(Board { grid }), false);
}

#[test]
fn full_board_is_full() {
    let board = Board {
        grid: [['X'; 3], ['X'; 3], ['X'; 3]],
    };
    assert!(is_full_board(board));
}

#[test]
fn empty_board_is_not_full() {
    let board = Board {
        grid: [['-'; 3], ['-'; 3], ['-'; 3]],
    };
    assert!(!is_full_board(board));
}

#[test]
fn slightly_populated_board_is_not_full() {
    let board = Board {
        grid: [['-', 'X', 'O'], ['-', '-', '-'], ['O', '-', 'X']],
    };
    assert!(!is_full_board(board));
}

#[test]
fn anti_diagonal_is_win() {
    let grid = [['-', '-', 'X'], ['-', 'X', '-'], ['X', '-', '-']];
    assert_eq!(is_winning_grid(Board { grid }), true);
    assert_eq!(is_diagonal_win(Board { grid }), true);
    assert_eq!(is_row_win(Board { grid }), false);
    assert_eq!(is_column_win(Board { grid }), false);
}

#[test]
fn every_single_line_is_a_win() {
    for i in 0..3 {
        let mut rows = [['-'; 3]; 3];
        let mut columns = [['-'; 3]; 3];
        for j in 0..3 {
            rows[i][j] = 'X';
            columns[j][i] = 'O';
        }
        assert!(is_row_win(Board { grid: rows }));
        assert!(!is_column_win(Board { grid: rows }));
        assert!(!is_diagonal_win(Board { grid: rows }));
        assert!(is_winning_grid(Board { grid: rows }));
        assert!(is_column_win(Board { grid: columns }));
        assert!(!is_row_win(Board { grid: columns }));
        assert!(is_winning_grid(Board { grid: columns }));
    }
}

#[test]
fn three_empty_cells_are_no_line() {
    assert_eq!(unique_non_empty_row(&['-', '-', '-']), false);
}

#[test]
fn three_equal_marks_are_a_line() {
    assert_eq!(unique_non_empty_row(&['X', 'X', 'X']), true);
    assert_eq!(unique_non_empty_row(&['O', 'O', 'O']), true);
}

#[test]
fn two_different_marks_are_no_line() {
    assert_eq!(unique_non_empty_row(&['X', 'X', 'O']), false);
    assert_eq!(unique_non_empty_row(&['X', 'O', 'X']), false);
    assert_eq!(unique_non_empty_row(&['O', 'X', 'X']), false);
    assert_eq!(unique_non_empty_row(&['X', '-', 'X']), false);
    assert_eq!(unique_non_empty_row(&['-', '-', 'X']), false);
}

#[test]
fn line_without_cells_is_no_line() {
    assert_eq!(unique_non_empty_row(&[]), false);
}

#[test]
fn winning_twice_gives_the_same_answer() {
    let won = Board {
        grid: [['O', 'X', 'X'], ['-', 'O', '-'], ['-', '-', 'O']],
    };
    let open = Board {
        grid: [['O', 'X', 'X'], ['-', 'O', '-'], ['-', '-', '-']],
    };
    assert_eq!(is_winning_grid(won), is_winning_grid(won));
    assert_eq!(is_winning_grid(open), is_winning_grid(open));
    assert_eq!(won.grid, [['O', 'X', 'X'], ['-', 'O', '-'], ['-', '-', 'O']]);
}

#[test]
fn full_board_without_line_is_a_draw() {
    let board = Board {
        grid: [['X', 'O', 'X'], ['X', 'O', 'O'], ['O', 'X', 'X']],
    };
    assert!(is_full_board(board));
    assert!(!is_winning_grid(board));
    assert!(is_draw(board));
}

#[test]
fn full_board_with_line_is_no_draw() {
    let board = Board {
        grid: [['X', 'X', 'X'], ['X', 'O', 'O'], ['O', 'X', 'O']],
    };
    assert!(is_full_board(board));
    assert!(!is_draw(board));
}

#[test]
fn open_board_is_no_draw() {
    let board = Board {
        grid: [['X', 'O', 'X'], ['X', '-', 'O'], ['O', 'X', 'X']],
    };
    assert!(!is_draw(board));
    assert!(!is_draw(Board::new()));
}
