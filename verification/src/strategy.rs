//! The strategy of the automated player, stated over the model of the
//! board: what each tactical rule chooses, and in which order the rules
//! are tried.

use crate::board::{
    anti_diagonal, cell, column, in_bounds, main_diagonal, place, Coordinate, Grid, EMPTY,
};
use vstd::prelude::*;

verus! {

/// The mark of the other player. The game has the two marks `'X'` and
/// `'O'`; whoever does not play `'X'` has `'X'` as opponent.
pub open spec fn opponent(sign: char) -> char {
    if sign == 'X' {
        'O'
    } else {
        'X'
    }
}

/// The first of two optional moves that is there.
pub open spec fn or_else(first: Option<Coordinate>, second: Option<Coordinate>) -> Option<
    Coordinate,
> {
    if first is Some {
        first
    } else {
        second
    }
}

/// How many of the three cells of `line` hold `sign`.
pub open spec fn count_of(line: Seq<char>, sign: char) -> int {
    (if line[0] == sign {
        1int
    } else {
        0
    }) + (if line[1] == sign {
        1int
    } else {
        0
    }) + (if line[2] == sign {
        1int
    } else {
        0
    })
}

/// The index of the first empty cell among the three cells of `line`.
pub open spec fn first_empty(line: Seq<char>) -> Option<usize> {
    if line[0] == EMPTY {
        Some(0usize)
    } else if line[1] == EMPTY {
        Some(1usize)
    } else if line[2] == EMPTY {
        Some(2usize)
    } else {
        None
    }
}

/// The index of the cell that completes `line` for `sign`: the line holds
/// `sign` in exactly two cells and has an empty cell, which is the result.
pub open spec fn gap(line: Seq<char>, sign: char) -> Option<usize> {
    if count_of(line, sign) == 2 {
        first_empty(line)
    } else {
        None
    }
}

/// The cell that completes the topmost row that `sign` can complete.
pub open spec fn spec_winning_row_coordinate(g: Grid, sign: char) -> Option<Coordinate> {
    if let Some(x) = gap(g[0], sign) {
        Some((x, 0usize))
    } else if let Some(x) = gap(g[1], sign) {
        Some((x, 1usize))
    } else if let Some(x) = gap(g[2], sign) {
        Some((x, 2usize))
    } else {
        None
    }
}

/// The cell that completes the leftmost column that `sign` can complete.
pub open spec fn spec_winning_column_coordinate(g: Grid, sign: char) -> Option<Coordinate> {
    if let Some(y) = gap(column(g, 0), sign) {
        Some((0usize, y))
    } else if let Some(y) = gap(column(g, 1), sign) {
        Some((1usize, y))
    } else if let Some(y) = gap(column(g, 2), sign) {
        Some((2usize, y))
    } else {
        None
    }
}

/// The cell that completes a diagonal for `sign`, the main diagonal first.
pub open spec fn spec_winning_diagonal_coordinate(g: Grid, sign: char) -> Option<Coordinate> {
    if let Some(i) = gap(main_diagonal(g), sign) {
        Some((i, i))
    } else if let Some(i) = gap(anti_diagonal(g), sign) {
        Some(((2 - i) as usize, i))
    } else {
        None
    }
}

/// The winning move of `sign`: the cell that completes a line for it. Rows
/// are scanned first, then columns, then the diagonals.
pub open spec fn spec_winning_move(g: Grid, sign: char) -> Option<Coordinate> {
    or_else(
        spec_winning_row_coordinate(g, sign),
        or_else(spec_winning_column_coordinate(g, sign), spec_winning_diagonal_coordinate(g, sign)),
    )
}

/// Whether `sign` has two moves that each complete a line: after the
/// opponent has taken the winning move that the scan finds, the scan
/// still finds one.
pub open spec fn spec_two_winning_moves(g: Grid, sign: char) -> bool {
    match spec_winning_move(g, sign) {
        Some(c) => spec_winning_move(place(g, c, opponent(sign)), sign) is Some,
        None => false,
    }
}

/// The nine cells in row-major order: the top row from left to right,
/// then the middle row, then the bottom row.
pub open spec fn row_major() -> Seq<Coordinate> {
    seq![
        (0usize, 0usize),
        (1usize, 0usize),
        (2usize, 0usize),
        (0usize, 1usize),
        (1usize, 1usize),
        (2usize, 1usize),
        (0usize, 2usize),
        (1usize, 2usize),
        (2usize, 2usize),
    ]
}

/// The four corners, in the order in which they are tried.
pub open spec fn corners() -> Seq<Coordinate> {
    seq![(0usize, 0usize), (0usize, 2usize), (2usize, 0usize), (2usize, 2usize)]
}

/// The four cells in the middle of an edge, in the order in which they
/// are tried.
pub open spec fn sides() -> Seq<Coordinate> {
    seq![(1usize, 0usize), (0usize, 1usize), (2usize, 1usize), (1usize, 2usize)]
}

/// The test for an empty cell of `g`.
pub open spec fn is_empty_in(g: Grid) -> spec_fn(Coordinate) -> bool {
    |c: Coordinate| cell(g, c) == EMPTY
}

/// The empty cells of `g` in row-major order.
pub open spec fn spec_empty_squares(g: Grid) -> Seq<Coordinate> {
    row_major().filter(is_empty_in(g))
}

/// The first cell of `cells`, from index `from` on, that meets `wanted`.
pub open spec fn first_from(
    cells: Seq<Coordinate>,
    wanted: spec_fn(Coordinate) -> bool,
    from: int,
) -> Option<Coordinate>
    decreases cells.len() - from,
{
    if from < 0 || from >= cells.len() {
        None
    } else if wanted(cells[from]) {
        Some(cells[from])
    } else {
        first_from(cells, wanted, from + 1)
    }
}

/// The first cell of `cells` that meets `wanted`.
pub open spec fn first_where(cells: Seq<Coordinate>, wanted: spec_fn(Coordinate) -> bool) -> Option<
    Coordinate,
> {
    first_from(cells, wanted, 0)
}

/// The test for a cell on which `sign` forks: with its mark there, `sign`
/// has two winning moves.
pub open spec fn makes_fork(g: Grid, sign: char) -> spec_fn(Coordinate) -> bool {
    |c: Coordinate| spec_two_winning_moves(place(g, c, sign), sign)
}

/// The fork move of `sign`: the first empty cell in row-major order on
/// which it forks.
pub open spec fn spec_fork_move(g: Grid, sign: char) -> Option<Coordinate> {
    first_where(spec_empty_squares(g), makes_fork(g, sign))
}

/// The test for a cell that hands `sign` a fork: once `sign` has played
/// there, it has a fork move.
pub open spec fn opens_fork(g: Grid, sign: char) -> spec_fn(Coordinate) -> bool {
    |c: Coordinate| spec_fork_move(place(g, c, sign), sign) is Some
}

/// The empty cells, in row-major order, on which the opponent of `sign`
/// would gain a fork move.
pub open spec fn spec_fork_opportunities(g: Grid, sign: char) -> Seq<Coordinate> {
    spec_empty_squares(g).filter(opens_fork(g, opponent(sign)))
}

/// The test for membership in `cells`.
pub open spec fn is_among(cells: Seq<Coordinate>) -> spec_fn(Coordinate) -> bool {
    |c: Coordinate| cells.contains(c)
}

/// The cell that denies the opponent of `sign` a fork opportunity: among
/// the opportunities the center, else the first corner, else the first
/// opportunity in row-major order.
pub open spec fn spec_block_fork_opportunity_move(g: Grid, sign: char) -> Option<Coordinate> {
    let opportunities = spec_fork_opportunities(g, sign);
    if opportunities.len() == 0 {
        None
    } else if opportunities.contains((1usize, 1usize)) {
        Some((1usize, 1usize))
    } else {
        or_else(first_where(corners(), is_among(opportunities)), Some(opportunities[0]))
    }
}

/// The center, if it is empty.
pub open spec fn spec_take_center_move(g: Grid) -> Option<Coordinate> {
    if cell(g, (1usize, 1usize)) == EMPTY {
        Some((1usize, 1usize))
    } else {
        None
    }
}

/// The first empty corner.
pub open spec fn spec_take_corner_move(g: Grid) -> Option<Coordinate> {
    first_where(corners(), is_empty_in(g))
}

/// The first empty cell in the middle of an edge.
pub open spec fn spec_take_side_move(g: Grid) -> Option<Coordinate> {
    first_where(sides(), is_empty_in(g))
}

/// The move of the automated player with mark `sign`: the result of the
/// first rule that applies, in this order: win, block a win, fork, block a
/// fork, deny a fork opportunity, center, corner, side.
pub open spec fn spec_select_move(g: Grid, sign: char) -> Option<Coordinate> {
    or_else(
        spec_winning_move(g, sign),
        or_else(
            spec_winning_move(g, opponent(sign)),
            or_else(
                spec_fork_move(g, sign),
                or_else(
                    spec_fork_move(g, opponent(sign)),
                    or_else(
                        spec_block_fork_opportunity_move(g, sign),
                        or_else(
                            spec_take_center_move(g),
                            or_else(spec_take_corner_move(g), spec_take_side_move(g)),
                        ),
                    ),
                ),
            ),
        ),
    )
}

/// Whether all three cells of `line` hold `sign`.
pub open spec fn all_sign(line: Seq<char>, sign: char) -> bool {
    line[0] == sign && line[1] == sign && line[2] == sign
}

/// Whether `c` is an empty cell on which `sign` completes a line: with
/// `sign` placed there, the row, the column or a diagonal through `c`
/// holds `sign` in all three cells.
pub open spec fn completes_line(g: Grid, sign: char, c: Coordinate) -> bool {
    let after = place(g, c, sign);
    &&& in_bounds(c)
    &&& cell(g, c) == EMPTY
    &&& {
        ||| all_sign(after[c.1 as int], sign)
        ||| all_sign(column(after, c.0 as int), sign)
        ||| c.0 == c.1 && all_sign(main_diagonal(after), sign)
        ||| c.0 + c.1 == 2 && all_sign(anti_diagonal(after), sign)
    }
}

/// Whether `sign` can complete a line with its next mark.
pub open spec fn can_complete_line(g: Grid, sign: char) -> bool {
    exists|c: Coordinate| completes_line(g, sign, c)
}

} // verus!
