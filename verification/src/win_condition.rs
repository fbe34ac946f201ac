//! Detection of a finished game: three equal marks in a line, or a full board.

use crate::board::{
    anti_diagonal, column, empty_grid, main_diagonal, well_formed, Board, Grid, EMPTY,
};
use itertools::Itertools;
use vstd::prelude::*;

verus! {

/// Whether a line holds one and the same mark in all its cells, and that
/// mark is not `EMPTY`.
pub open spec fn uniform_mark(line: Seq<char>) -> bool {
    &&& line.len() > 0
    &&& line[0] != EMPTY
    &&& forall|i: int| 0 <= i < line.len() ==> #[trigger] line[i] == line[0]
}

/// Whether one of the three rows holds three equal marks.
pub open spec fn row_win(g: Grid) -> bool {
    uniform_mark(g[0]) || uniform_mark(g[1]) || uniform_mark(g[2])
}

/// Whether one of the three columns holds three equal marks.
pub open spec fn column_win(g: Grid) -> bool {
    uniform_mark(column(g, 0)) || uniform_mark(column(g, 1)) || uniform_mark(column(g, 2))
}

/// Whether one of the two diagonals holds three equal marks.
pub open spec fn diagonal_win(g: Grid) -> bool {
    uniform_mark(main_diagonal(g)) || uniform_mark(anti_diagonal(g))
}

/// Whether some row, column or diagonal holds three equal marks.
pub open spec fn winning(g: Grid) -> bool {
    row_win(g) || column_win(g) || diagonal_win(g)
}

/// Whether every cell of the grid holds a mark.
pub open spec fn full(g: Grid) -> bool {
    forall|x: int, y: int| 0 <= x < 3 && 0 <= y < 3 ==> g[y][x] != EMPTY
}

/// Whether the game has ended without a winner.
pub open spec fn drawn(g: Grid) -> bool {
    full(g) && !winning(g)
}

/// The number of different marks in `row`.
///
/// Trusted: this is `Itertools::unique` followed by the `count` of the
/// adaptor it returns. `unique` hands out every item of the iteration
/// once, the first time it occurs, so that the count is the number of
/// distinct marks of the row.
#[verifier::external_body]
fn distinct_count(row: &[char]) -> (count: usize)
    ensures
        count == row@.to_set().len(),
{
    row.iter().unique().count()
}

/// A line has exactly one distinct mark when it is not empty and all its
/// cells equal the first.
proof fn lemma_one_distinct_mark(line: Seq<char>)
    ensures
        line.to_set().len() == 1 <==> (line.len() > 0 && forall|i: int|
            0 <= i < line.len() ==> #[trigger] line[i] == line[0]),
{
    let marks = line.to_set();
    vstd::seq_lib::seq_to_set_is_finite(line);
    Set::lemma_is_singleton(marks);
    if line.len() == 0 {
        assert(marks =~= Set::empty());
    } else {
        assert(line.contains(line[0]));
        if marks.len() == 1 {
            assert forall|i: int| 0 <= i < line.len() implies #[trigger] line[i] == line[0] by {
                assert(line.contains(line[i]));
                assert(marks.contains(line[i]) && marks.contains(line[0]));
            }
        }
        if forall|i: int| 0 <= i < line.len() ==> #[trigger] line[i] == line[0] {
            assert(marks =~= set![line[0]]);
        }
    }
}

/// Whether `row` holds one mark in all its cells, and not the empty one.
pub fn unique_non_empty_row(row: &[char]) -> (unique: bool)
    ensures
        unique == uniform_mark(row@),
{
    proof {
        lemma_one_distinct_mark(row@);
    }
    distinct_count(row) == 1 && row[0] != EMPTY
}

/// Whether one of the rows of `board` holds three equal marks.
pub fn is_row_win(board: Board) -> (won: bool)
    ensures
        won == row_win(board@),
{
    let mut won = false;
    let mut y: usize = 0;
    while y < 3
        invariant
            y <= 3,
            won == (y > 0 && uniform_mark(board@[0]) || y > 1 && uniform_mark(board@[1]) || y > 2
                && uniform_mark(board@[2])),
        decreases 3 - y,
    {
        if unique_non_empty_row(&board.grid[y]) {
            won = true;
        }
        y += 1;
    }
    won
}

/// Whether one of the columns of `board` holds three equal marks.
pub fn is_column_win(board: Board) -> (won: bool)
    ensures
        won == column_win(board@),
{
    let transposed = board.transpose();
    proof {
        assert(transposed@[0] =~= column(board@, 0));
        assert(transposed@[1] =~= column(board@, 1));
        assert(transposed@[2] =~= column(board@, 2));
    }
    is_row_win(transposed)
}

/// Whether one of the diagonals of `board` holds three equal marks.
pub fn is_diagonal_win(board: Board) -> (won: bool)
    ensures
        won == diagonal_win(board@),
{
    let right_diagonal = board.main_diagonal();
    let left_diagonal = board.anti_diagonal();
    unique_non_empty_row(&right_diagonal) || unique_non_empty_row(&left_diagonal)
}

/// Whether some row, column or diagonal of `board` holds three equal marks.
pub fn is_winning_grid(board: Board) -> (won: bool)
    ensures
        won == winning(board@),
{
    is_column_win(board) || is_row_win(board) || is_diagonal_win(board)
}

/// Whether no cell of `board` is left to play.
pub fn is_full_board(board: Board) -> (is_full: bool)
    ensures
        is_full == full(board@),
{
    let mut y: usize = 0;
    while y < 3
        invariant
            y <= 3,
            forall|a: int, b: int| 0 <= a < 3 && 0 <= b < y ==> board@[b][a] != EMPTY,
        decreases 3 - y,
    {
        let mut x: usize = 0;
        while x < 3
            invariant
                y < 3,
                x <= 3,
                forall|a: int, b: int| 0 <= a < 3 && 0 <= b < y ==> board@[b][a] != EMPTY,
                forall|a: int| 0 <= a < x ==> board@[y as int][a] != EMPTY,
            decreases 3 - x,
        {
            if board.grid[y][x] == EMPTY {
                assert(board@[y as int][x as int] == EMPTY);
                return false;
            }
            x += 1;
        }
        y += 1;
    }
    true
}

/// Whether the game on `board` has ended in a draw: every cell is taken
/// and nobody has three in a line.
pub fn is_draw(board: Board) -> (is_drawn: bool)
    ensures
        is_drawn == drawn(board@),
{
    is_full_board(board) && !is_winning_grid(board)
}

/// A line of three cells holds one mark when its cells are pairwise equal
/// and not empty.
pub proof fn lemma_uniform_by_cells(line: Seq<char>)
    requires
        line.len() == 3,
    ensures
        uniform_mark(line) <==> line[0] != EMPTY && line[0] == line[1] && line[1] == line[2],
{
    if line[0] != EMPTY && line[0] == line[1] && line[1] == line[2] {
        assert forall|i: int| 0 <= i < line.len() implies #[trigger] line[i] == line[0] by {}
    }
    if uniform_mark(line) {
        assert(line[1] == line[0] && line[2] == line[0]);
    }
}

/// A grid is won when the three cells of one of its eight lines are equal
/// and not empty.
pub proof fn lemma_winning_by_cells(g: Grid)
    requires
        well_formed(g),
    ensures
        winning(g) <==> {
            ||| g[0][0] != EMPTY && g[0][0] == g[0][1] && g[0][1] == g[0][2]
            ||| g[1][0] != EMPTY && g[1][0] == g[1][1] && g[1][1] == g[1][2]
            ||| g[2][0] != EMPTY && g[2][0] == g[2][1] && g[2][1] == g[2][2]
            ||| g[0][0] != EMPTY && g[0][0] == g[1][0] && g[1][0] == g[2][0]
            ||| g[0][1] != EMPTY && g[0][1] == g[1][1] && g[1][1] == g[2][1]
            ||| g[0][2] != EMPTY && g[0][2] == g[1][2] && g[1][2] == g[2][2]
            ||| g[0][0] != EMPTY && g[0][0] == g[1][1] && g[1][1] == g[2][2]
            ||| g[0][2] != EMPTY && g[0][2] == g[1][1] && g[1][1] == g[2][0]
        },
{
    lemma_uniform_by_cells(g[0]);
    lemma_uniform_by_cells(g[1]);
    lemma_uniform_by_cells(g[2]);
    lemma_uniform_by_cells(column(g, 0));
    lemma_uniform_by_cells(column(g, 1));
    lemma_uniform_by_cells(column(g, 2));
    lemma_uniform_by_cells(main_diagonal(g));
    lemma_uniform_by_cells(anti_diagonal(g));
}

/// Where nobody has played, nobody has won.
pub proof fn lemma_empty_grid_not_winning()
    ensures
        !winning(empty_grid()),
{
    lemma_winning_by_cells(empty_grid());
}

/// The verdict depends on the marks alone: two boards that hold the same
/// mark in every cell are both won or both not won, however often and in
/// whatever order they are asked.
pub proof fn lemma_winning_depends_on_marks(first: Board, second: Board)
    requires
        forall|x: int, y: int| 0 <= x < 3 && 0 <= y < 3 ==> first.grid[y][x] == second.grid[y][x],
    ensures
        first@ == second@,
        winning(first@) == winning(second@),
{
    assert(first@ =~~= second@);
}

} // verus!
