//! The automated player: an ordered list of tactical rules, of which the
//! first that applies chooses the move.

use crate::board::{cell, column, in_bounds, Board, Coordinate, EMPTY};
use crate::move_lemmas::{
    lemma_move_found_unless_full, lemma_move_is_playable, lemma_winning_move_is_chosen,
    lemma_winning_move_is_playable,
};
use crate::strategy::{
    can_complete_line, completes_line, corners, count_of, first_empty, first_from, first_where, gap,
    is_among, is_empty_in, makes_fork, opens_fork, opponent, row_major, sides,
    spec_block_fork_opportunity_move, spec_empty_squares, spec_fork_move, spec_fork_opportunities,
    spec_select_move, spec_take_center_move, spec_take_corner_move, spec_take_side_move,
    spec_two_winning_moves, spec_winning_column_coordinate, spec_winning_diagonal_coordinate,
    spec_winning_move, spec_winning_row_coordinate,
};
use crate::win_condition::full;
use vstd::prelude::*;

verus! {

/// The automated player finds no move: every cell is taken.
#[derive(Debug, Clone, Copy, PartialEq, Eq, Structural)]
pub struct NoMoveFound;

/// The mark of the player who moves against `sign`.
pub fn get_opponent_sign(sign: char) -> (other: char)
    ensures
        other == opponent(sign),
{
    if sign == 'X' {
        'O'
    } else {
        'X'
    }
}

/// The index of the first empty cell of `line`.
pub fn empty_position(line: &[char; 3]) -> (index: Option<usize>)
    ensures
        index == first_empty(line@),
{
    let mut i: usize = 0;
    while i < 3
        invariant
            i <= 3,
            forall|k: int| 0 <= k < i ==> line[k] != EMPTY,
        decreases 3 - i,
    {
        if line[i] == EMPTY {
            return Some(i);
        }
        i += 1;
    }
    None
}

/// The number of cells of `line` that hold `sign`.
pub fn count_sign(line: &[char; 3], sign: char) -> (count: usize)
    ensures
        count == count_of(line@, sign),
{
    let mut count: usize = 0;
    if line[0] == sign {
        count += 1;
    }
    if line[1] == sign {
        count += 1;
    }
    if line[2] == sign {
        count += 1;
    }
    count
}

/// The index of the cell that completes `line` for `sign`, if the line
/// holds `sign` twice and has an empty cell.
pub fn line_gap(line: &[char; 3], sign: char) -> (index: Option<usize>)
    ensures
        index == gap(line@, sign),
{
    let empty_value = empty_position(line);
    if empty_value.is_some() && count_sign(line, sign) == 2 {
        empty_value
    } else {
        None
    }
}

/// The cell that completes a row for `sign`, the topmost such row first.
pub fn get_winning_row_coordinate(board: Board, sign: char) -> (coordinate: Option<Coordinate>)
    ensures
        coordinate == spec_winning_row_coordinate(board@, sign),
{
    let mut y: usize = 0;
    while y < 3
        invariant
            y <= 3,
            forall|k: int| 0 <= k < y ==> gap(#[trigger] board@[k], sign) is None,
        decreases 3 - y,
    {
        if let Some(x) = line_gap(&board.grid[y], sign) {
            return Some((x, y));
        }
        y += 1;
    }
    None
}

/// The cell that completes a column for `sign`, the leftmost such column
/// first. A column is a row of the transposed board.
pub fn get_winning_column_coordinate(board: Board, sign: char) -> (coordinate: Option<
    Coordinate,
>)
    ensures
        coordinate == spec_winning_column_coordinate(board@, sign),
{
    let transposed = board.transpose();
    proof {
        assert(transposed@[0] =~= column(board@, 0));
        assert(transposed@[1] =~= column(board@, 1));
        assert(transposed@[2] =~= column(board@, 2));
    }
    match get_winning_row_coordinate(transposed, sign) {
        Some(coordinate) => Some((coordinate.1, coordinate.0)),
        None => None,
    }
}

/// The cell that completes a diagonal for `sign`, the main diagonal first.
pub fn get_winning_diagonal_coordinate(board: Board, sign: char) -> (coordinate: Option<
    Coordinate,
>)
    ensures
        coordinate == spec_winning_diagonal_coordinate(board@, sign),
{
    let top_bottom_diagonal = board.main_diagonal();
    if let Some(i) = line_gap(&top_bottom_diagonal, sign) {
        return Some((i, i));
    }
    let bottom_top_diagonal = board.anti_diagonal();
    if let Some(i) = line_gap(&bottom_top_diagonal, sign) {
        return Some((2 - i, i));
    }
    None
}

/// The move with which `sign` completes a line, if there is one.
pub fn winning_move(board: Board, sign: char) -> (coordinate: Option<Coordinate>)
    ensures
        coordinate == spec_winning_move(board@, sign),
{
    if let Some(winning_coordinate) = get_winning_row_coordinate(board, sign) {
        return Some(winning_coordinate);
    }
    if let Some(winning_coordinate) = get_winning_column_coordinate(board, sign) {
        return Some(winning_coordinate);
    }
    get_winning_diagonal_coordinate(board, sign)
}

/// Whether `sign` has two winning moves at once, so that the opponent
/// cannot block both.
pub fn two_winning_moves(board: Board, sign: char) -> (forked: bool)
    ensures
        forked == spec_two_winning_moves(board@, sign),
{
    match winning_move(board, sign) {
        Some(coordinate) => {
            proof {
                lemma_winning_move_is_playable(board@, sign);
            }
            let attempted_grid = board.add_value(coordinate, get_opponent_sign(sign));
            winning_move(attempted_grid.unwrap(), sign).is_some()
        },
        None => false,
    }
}

/// The empty cells of `board` in row-major order.
pub fn get_empty_squares(board: Board) -> (empty_squares: Vec<Coordinate>)
    ensures
        empty_squares@ == spec_empty_squares(board@),
        forall|i: int|
            0 <= i < empty_squares.len() ==> in_bounds(#[trigger] empty_squares[i]) && cell(
                board@,
                empty_squares[i],
            ) == EMPTY,
{
    let mut empty_squares: Vec<Coordinate> = Vec::new();
    let ghost empty = is_empty_in(board@);
    let mut y: usize = 0;
    proof {
        reveal(Seq::filter);
        assert(row_major().take(0).filter(empty) =~= Seq::<Coordinate>::empty());
    }
    while y < 3
        invariant
            y <= 3,
            empty == is_empty_in(board@),
            empty_squares@ == row_major().take(3 * y).filter(empty),
            forall|i: int|
                0 <= i < empty_squares.len() ==> in_bounds(#[trigger] empty_squares[i]) && cell(
                    board@,
                    empty_squares[i],
                ) == EMPTY,
        decreases 3 - y,
    {
        let mut x: usize = 0;
        while x < 3
            invariant
                y < 3,
                x <= 3,
                empty == is_empty_in(board@),
                empty_squares@ == row_major().take(3 * y + x).filter(empty),
                forall|i: int|
                    0 <= i < empty_squares.len() ==> in_bounds(#[trigger] empty_squares[i])
                        && cell(board@, empty_squares[i]) == EMPTY,
            decreases 3 - x,
        {
            proof {
                let k = 3 * y + x;
                assert(row_major()[k] == (x, y));
                row_major().lemma_take_succ_push(k);
                row_major().take(k).lemma_filter_push((x, y), empty);
            }
            if board.grid[y][x] == EMPTY {
                empty_squares.push((x, y));
            }
            x += 1;
        }
        y += 1;
    }
    assert(row_major().take(9) =~= row_major());
    empty_squares
}

/// The first empty cell, in row-major order, on which `sign` forks.
pub fn fork_move(board: Board, sign: char) -> (coordinate: Option<Coordinate>)
    ensures
        coordinate == spec_fork_move(board@, sign),
{
    let empty_squares = get_empty_squares(board);
    let ghost forks = makes_fork(board@, sign);
    let mut i: usize = 0;
    while i < empty_squares.len()
        invariant
            i <= empty_squares.len(),
            forks == makes_fork(board@, sign),
            empty_squares@ == spec_empty_squares(board@),
            forall|k: int|
                0 <= k < empty_squares.len() ==> in_bounds(#[trigger] empty_squares[k]) && cell(
                    board@,
                    empty_squares[k],
                ) == EMPTY,
            first_from(empty_squares@, forks, i as int) == spec_fork_move(board@, sign),
        decreases empty_squares.len() - i,
    {
        let square = empty_squares[i];
        let attempted_grid = board.add_value(square, sign).unwrap();
        if two_winning_moves(attempted_grid, sign) {
            return Some(square);
        }
        i += 1;
    }
    None
}

/// The move that takes the winning cell of the opponent of `sign`.
pub fn block_winning_move(board: Board, sign: char) -> (coordinate: Option<Coordinate>)
    ensures
        coordinate == spec_winning_move(board@, opponent(sign)),
{
    winning_move(board, get_opponent_sign(sign))
}

/// The move that takes the fork cell of the opponent of `sign`.
pub fn block_fork_move(board: Board, sign: char) -> (coordinate: Option<Coordinate>)
    ensures
        coordinate == spec_fork_move(board@, opponent(sign)),
{
    fork_move(board, get_opponent_sign(sign))
}

/// Whether `wanted` is one of `cells`.
pub fn contains_coordinate(cells: &Vec<Coordinate>, wanted: Coordinate) -> (found: bool)
    ensures
        found == cells@.contains(wanted),
{
    let mut i: usize = 0;
    while i < cells.len()
        invariant
            i <= cells.len(),
            forall|k: int| 0 <= k < i ==> cells[k] != wanted,
        decreases cells.len() - i,
    {
        if cells[i].0 == wanted.0 && cells[i].1 == wanted.1 {
            return true;
        }
        i += 1;
    }
    false
}

/// The empty cells on which the opponent of `sign` would gain a fork
/// move, in row-major order.
pub fn fork_opportunities(board: Board, sign: char) -> (opportunities: Vec<Coordinate>)
    ensures
        opportunities@ == spec_fork_opportunities(board@, sign),
{
    let empty_squares = get_empty_squares(board);
    let opponent_sign = get_opponent_sign(sign);
    let mut opportunities: Vec<Coordinate> = Vec::new();
    let ghost opens = opens_fork(board@, opponent_sign);
    let mut i: usize = 0;
    proof {
        reveal(Seq::filter);
        assert(empty_squares@.take(0).filter(opens) =~= Seq::<Coordinate>::empty());
    }
    while i < empty_squares.len()
        invariant
            i <= empty_squares.len(),
            opponent_sign == opponent(sign),
            opens == opens_fork(board@, opponent_sign),
            empty_squares@ == spec_empty_squares(board@),
            forall|k: int|
                0 <= k < empty_squares.len() ==> in_bounds(#[trigger] empty_squares[k]) && cell(
                    board@,
                    empty_squares[k],
                ) == EMPTY,
            opportunities@ == empty_squares@.take(i as int).filter(opens),
        decreases empty_squares.len() - i,
    {
        let square = empty_squares[i];
        let attempted_board = board.add_value(square, opponent_sign);
        proof {
            empty_squares@.lemma_take_succ_push(i as int);
            empty_squares@.take(i as int).lemma_filter_push(square, opens);
        }
        if fork_move(attempted_board.unwrap(), opponent_sign).is_some() {
            opportunities.push(square);
        }
        i += 1;
    }
    assert(empty_squares@.take(empty_squares.len() as int) =~= empty_squares@);
    opportunities
}

/// The move that keeps the opponent of `sign` from a cell on which it
/// would gain a fork move: the center if it is such a cell, else the
/// first such corner, else the first such cell in row-major order.
pub fn block_fork_opportunity_move(board: Board, sign: char) -> (coordinate: Option<Coordinate>)
    ensures
        coordinate == spec_block_fork_opportunity_move(board@, sign),
{
    let opportunities = fork_opportunities(board, sign);
    if opportunities.len() == 0 {
        return None;
    }
    if contains_coordinate(&opportunities, (1, 1)) {
        return Some((1, 1));
    }
    let corner_cells: [Coordinate; 4] = [(0, 0), (0, 2), (2, 0), (2, 2)];
    assert(corner_cells@ =~= corners());
    let ghost among = is_among(opportunities@);
    let mut i: usize = 0;
    while i < 4
        invariant
            i <= 4,
            corner_cells@ == corners(),
            opportunities@ == spec_fork_opportunities(board@, sign),
            opportunities.len() > 0,
            !opportunities@.contains((1usize, 1usize)),
            among == is_among(opportunities@),
            first_from(corners(), among, i as int) == first_where(corners(), among),
        decreases 4 - i,
    {
        if contains_coordinate(&opportunities, corner_cells[i]) {
            return Some(corner_cells[i]);
        }
        i += 1;
    }
    Some(opportunities[0])
}

/// The center, if nobody has played it.
pub fn take_center_move(board: Board, _sign: char) -> (coordinate: Option<Coordinate>)
    ensures
        coordinate == spec_take_center_move(board@),
{
    if board.grid[1][1] == EMPTY {
        Some((1, 1))
    } else {
        None
    }
}

/// The first of `cells` that is empty on `board`.
fn first_empty_of(board: Board, cells: &[Coordinate; 4]) -> (coordinate: Option<Coordinate>)
    requires
        forall|k: int| 0 <= k < 4 ==> in_bounds(#[trigger] cells[k]),
    ensures
        coordinate == first_where(cells@, is_empty_in(board@)),
{
    let ghost empty = is_empty_in(board@);
    let mut i: usize = 0;
    while i < 4
        invariant
            i <= 4,
            empty == is_empty_in(board@),
            forall|k: int| 0 <= k < 4 ==> in_bounds(#[trigger] cells[k]),
            first_from(cells@, empty, i as int) == first_where(cells@, empty),
        decreases 4 - i,
    {
        let square = cells[i];
        if board.grid[square.1][square.0] == EMPTY {
            return Some(square);
        }
        i += 1;
    }
    None
}

/// The first corner that nobody has played.
pub fn take_corner_move(board: Board, _sign: char) -> (coordinate: Option<Coordinate>)
    ensures
        coordinate == spec_take_corner_move(board@),
{
    let corner_cells: [Coordinate; 4] = [(0, 0), (0, 2), (2, 0), (2, 2)];
    assert(corner_cells@ =~= corners());
    first_empty_of(board, &corner_cells)
}

/// The first cell in the middle of an edge that nobody has played.
pub fn take_side_move(board: Board, _sign: char) -> (coordinate: Option<Coordinate>)
    ensures
        coordinate == spec_take_side_move(board@),
{
    let side_cells: [Coordinate; 4] = [(1, 0), (0, 1), (2, 1), (1, 2)];
    assert(side_cells@ =~= sides());
    first_empty_of(board, &side_cells)
}

/// The move of the automated player that plays `sign` on `board`.
///
/// The rules are tried in a fixed order and the first result counts:
/// complete a line, block the opponent's line, fork, block the opponent's
/// fork, deny the opponent a fork opportunity, take the center, take a
/// corner, take a side.
pub fn get_robot_coordinate(sign: char, board: Board) -> (result: Result<Coordinate, NoMoveFound>)
    ensures
        result == match spec_select_move(board@, sign) {
            Some(c) => Ok::<Coordinate, NoMoveFound>(c),
            None => Err::<Coordinate, NoMoveFound>(NoMoveFound),
        },
        result is Err <==> full(board@),
        result matches Ok(c) ==> in_bounds(c) && cell(board@, c) == EMPTY,
        sign != EMPTY && can_complete_line(board@, sign) ==> (result matches Ok(chosen)
            && completes_line(board@, sign, chosen)),
{
    proof {
        lemma_move_found_unless_full(board, sign);
        lemma_move_is_playable(board, sign);
        if sign != EMPTY && can_complete_line(board@, sign) {
            let c = choose|c: Coordinate| completes_line(board@, sign, c);
            lemma_winning_move_is_chosen(board, sign, c);
        }
    }
    if let Some(chosen_coordinate) = winning_move(board, sign) {
        return Ok(chosen_coordinate);
    }
    if let Some(chosen_coordinate) = block_winning_move(board, sign) {
        return Ok(chosen_coordinate);
    }
    if let Some(chosen_coordinate) = fork_move(board, sign) {
        return Ok(chosen_coordinate);
    }
    if let Some(chosen_coordinate) = block_fork_move(board, sign) {
        return Ok(chosen_coordinate);
    }
    if let Some(chosen_coordinate) = block_fork_opportunity_move(board, sign) {
        return Ok(chosen_coordinate);
    }
    if let Some(chosen_coordinate) = take_center_move(board, sign) {
        return Ok(chosen_coordinate);
    }
    if let Some(chosen_coordinate) = take_corner_move(board, sign) {
        return Ok(chosen_coordinate);
    }
    if let Some(chosen_coordinate) = take_side_move(board, sign) {
        return Ok(chosen_coordinate);
    }
    Err(NoMoveFound)
}

impl NoMoveFound {
    /// The text shown when the automated player cannot move.
    pub fn message(&self) -> (text: String)
        ensures
            text@ == "No choice found"@,
    {
        "No choice found".to_string()
    }
}

} // verus!
