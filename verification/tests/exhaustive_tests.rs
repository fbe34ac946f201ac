use tic_tac_toe::board::Board;
use tic_tac_toe::robot_player::{get_robot_coordinate, two_winning_moves, winning_move};
use tic_tac_toe::win_condition::{is_draw, is_full_board, is_winning_grid};

type Cell = (usize, usize);
type Marks = [[char; 3]; 3];

/// The eight lines as (column, row) triples: rows from the top, columns
/// from the left, the main diagonal, the other diagonal from the top.
const LINES: [[Cell; 3]; 8] = [
    [(0, 0), (1, 0), (2, 0)],
    [(0, 1), (1, 1), (2, 1)],
    [(0, 2), (1, 2), (2, 2)],
    [(0, 0), (0, 1), (0, 2)],
    [(1, 0), (1, 1), (1, 2)],
    [(2, 0), (2, 1), (2, 2)],
    [(0, 0), (1, 1), (2, 2)],
    [(2, 0), (1, 1), (0, 2)],
];

const ROW_MAJOR: [Cell; 9] = [
    (0, 0),
    (1, 0),
    (2, 0),
    (0, 1),
    (1, 1),
    (2, 1),
    (0, 2),
    (1, 2),
    (2, 2),
];

const CORNERS: [Cell; 4] = [(0, 0), (0, 2), (2, 0), (2, 2)];

const SIDES: [Cell; 4] = [(1, 0), (0, 1), (2, 1), (1, 2)];

fn every_board() -> Vec<Marks> {
    let marks = ['-', 'X', 'O'];
    let mut boards = Vec::new();
    for number in 0..19683 {
        let mut grid = [['-'; 3]; 3];
        let mut rest = number;
        for (x, y) in ROW_MAJOR {
            grid[y][x] = marks[rest % 3];
            rest /= 3;
        }
        boards.push(grid);
    }
    boards
}

fn other(sign: char) -> char {
    if sign == 'X' {
        'O'
    } else {
        'X'
    }
}

fn with(grid: Marks, (x, y): Cell, sign: char) -> Marks {
    let mut grid = grid;
    grid[y][x] = sign;
    grid
}

fn empties(grid: Marks) -> Vec<Cell> {
    ROW_MAJOR
        .iter()
        .copied()
        .filter(|&(x, y)| grid[y][x] == '-')
        .collect()
}

fn win(grid: Marks, sign: char) -> Option<Cell> {
    for line in LINES {
        let own = line.iter().filter(|&&(x, y)| grid[y][x] == sign).count();
        let gap = line.iter().find(|&&(x, y)| grid[y][x] == '-');
        if own == 2 {
            if let Some(&cell) = gap {
                return Some(cell);
            }
        }
    }
    None
}

fn two_wins(grid: Marks, sign: char) -> bool {
    match win(grid, sign) {
        Some(cell) => win(with(grid, cell, other(sign)), sign).is_some(),
        None => false,
    }
}

fn fork(grid: Marks, sign: char) -> Option<Cell> {
    empties(grid)
        .into_iter()
        .find(|&cell| two_wins(with(grid, cell, sign), sign))
}

fn deny_fork_opportunity(grid: Marks, sign: char) -> Option<Cell> {
    let opponent = other(sign);
    let opportunities: Vec<Cell> = empties(grid)
        .into_iter()
        .filter(|&cell| fork(with(grid, cell, opponent), opponent).is_some())
        .collect();
    if opportunities.contains(&(1, 1)) {
        return Some((1, 1));
    }
    for corner in CORNERS {
        if opportunities.contains(&corner) {
            return Some(corner);
        }
    }
    opportunities.first().copied()
}

fn first_empty(grid: Marks, cells: &[Cell]) -> Option<Cell> {
    cells.iter().copied().find(|&(x, y)| grid[y][x] == '-')
}

fn select(grid: Marks, sign: char) -> Option<Cell> {
    win(grid, sign)
        .or_else(|| win(grid, other(sign)))
        .or_else(|| fork(grid, sign))
        .or_else(|| fork(grid, other(sign)))
        .or_else(|| deny_fork_opportunity(grid, sign))
        .or_else(|| first_empty(grid, &[(1, 1)]))
        .or_else(|| first_empty(grid, &CORNERS))
        .or_else(|| first_empty(grid, &SIDES))
}

fn won(grid: Marks) -> bool {
    LINES.iter().any(|line| {
        let (x, y) = line[0];
        grid[y][x] != '-' && line.iter().all(|&(a, b)| grid[b][a] == grid[y][x])
    })
}

#[test]
fn every_board_gets_the_move_that_the_rules_give() {
    for grid in every_board() {
        for sign in ['X', 'O'] {
            assert_eq!(
                get_robot_coordinate(sign, Board { grid }).ok(),
                select(grid, sign)
            );
        }
    }
}

#[test]
fn every_board_has_its_winning_moves_found() {
    for grid in every_board() {
        for sign in ['X', 'O'] {
            assert_eq!(winning_move(Board { grid }, sign), win(grid, sign));
            assert_eq!(two_winning_moves(Board { grid }, sign), two_wins(grid, sign));
        }
    }
}

#[test]
fn every_board_is_judged_by_its_lines() {
    for grid in every_board() {
        let filled = grid.iter().all(|row| row.iter().all(|&mark| mark != '-'));
        assert_eq!(is_winning_grid(Board { grid }), won(grid));
        assert_eq!(is_full_board(Board { grid }), filled);
        assert_eq!(is_draw(Board { grid }), filled && !won(grid));
    }
}

#[test]
fn a_winning_move_wins_and_a_fork_leaves_two() {
    for grid in every_board() {
        for sign in ['X', 'O'] {
            let completing: Vec<Cell> = empties(grid)
                .into_iter()
                .filter(|&(x, y)| {
                    LINES.iter().any(|line| {
                        line.contains(&(x, y))
                            && line
                                .iter()
                                .all(|&(a, b)| (a, b) == (x, y) || grid[b][a] == sign)
                    })
                })
                .collect();
            match winning_move(Board { grid }, sign) {
                Some(cell) => {
                    assert!(completing.contains(&cell));
                    assert!(is_winning_grid(Board {
                        grid: with(grid, cell, sign)
                    }));
                    assert_eq!(get_robot_coordinate(sign, Board { grid }), Ok(cell));
                }
                None => assert!(completing.is_empty()),
            }
            assert_eq!(two_winning_moves(Board { grid }, sign), completing.len() >= 2);
        }
    }
}
