//! The 3×3 board, its mathematical model, and the placement of marks on it.

use vstd::prelude::*;

verus! {

/// The mark of a cell that nobody has played yet.
pub const EMPTY: char = '-';

/// A position on the board: column first, then row, each in `0..=2`.
pub type Coordinate = (usize, usize);

/// The mathematical model of a board: three rows of three marks,
/// so that `g[row][column]` is the mark of one cell.
pub type Grid = Seq<Seq<char>>;

/// Why a mark could not be placed.
#[derive(Debug, Clone, Copy, PartialEq, Eq, Structural)]
pub enum PlaceError {
    /// A component of the coordinate is larger than 2.
    OutOfBounds,
    /// The target cell already holds a mark.
    CellOccupied,
}

/// A 3×3 board. `grid[row][column]` is the mark of one cell.
///
/// A board is never changed in place: placing a mark gives a new board.
#[derive(Debug, Clone, Copy)]
pub struct Board {
    pub grid: [[char; 3]; 3],
}

/// Whether a coordinate lies on the board.
pub open spec fn in_bounds(c: Coordinate) -> bool {
    c.0 <= 2 && c.1 <= 2
}

/// Whether a grid has three rows of three cells.
pub open spec fn well_formed(g: Grid) -> bool {
    g.len() == 3 && g[0].len() == 3 && g[1].len() == 3 && g[2].len() == 3
}

/// The mark at coordinate `c` of grid `g`.
pub open spec fn cell(g: Grid, c: Coordinate) -> char {
    g[c.1 as int][c.0 as int]
}

/// Grid `g` with the cell at `c` set to `sign` and every other cell unchanged.
pub open spec fn place(g: Grid, c: Coordinate, sign: char) -> Grid {
    g.update(c.1 as int, g[c.1 as int].update(c.0 as int, sign))
}

/// The grid without any mark.
pub open spec fn empty_grid() -> Grid {
    Seq::new(3, |y: int| Seq::new(3, |x: int| EMPTY))
}

/// The grid mirrored at its main diagonal: rows become columns.
pub open spec fn transposed(g: Grid) -> Grid {
    Seq::new(3, |y: int| Seq::new(3, |x: int| g[x][y]))
}

/// Column `x` of a grid, from the top row down.
pub open spec fn column(g: Grid, x: int) -> Seq<char> {
    Seq::new(3, |y: int| g[y][x])
}

/// The cells `(i, i)` of a grid, from the top left corner down.
pub open spec fn main_diagonal(g: Grid) -> Seq<char> {
    Seq::new(3, |i: int| g[i][i])
}

/// The cells of row `i` and column `2 - i`, from the top right corner down.
pub open spec fn anti_diagonal(g: Grid) -> Seq<char> {
    Seq::new(3, |i: int| g[i][2 - i])
}

/// The model of a bare array of rows.
pub open spec fn grid_view(grid: [[char; 3]; 3]) -> Grid {
    Seq::new(3, |y: int| grid[y]@)
}

impl View for Board {
    type V = Grid;

    open spec fn view(&self) -> Grid {
        grid_view(self.grid)
    }
}

impl Board {
    /// The board on which no cell is marked.
    pub fn new() -> (board: Board)
        ensures
            board@ == empty_grid(),
    {
        let board = Board { grid: [[EMPTY; 3]; 3] };
        assert(board@ =~~= empty_grid());
        board
    }

    /// The board with rows and columns exchanged: the cell at `(i, j)` of
    /// the result is the cell at `(j, i)` of `self`.
    pub fn transpose(&self) -> (board: Board)
        ensures
            board@ == transposed(self@),
    {
        Board { grid: transpose_grid(self.grid) }
    }

    /// Places `sign` on the cell at `coordinate` and returns the new board.
    ///
    /// Fails when the coordinate is off the board, or when the cell
    /// already holds a mark; `self` is left as it was either way.
    pub fn add_value(&self, coordinate: (usize, usize), sign: char) -> (result: Result<
        Board,
        PlaceError,
    >)
        ensures
            !in_bounds(coordinate) ==> result == Err::<Board, PlaceError>(PlaceError::OutOfBounds),
            in_bounds(coordinate) && cell(self@, coordinate) != EMPTY ==> result == Err::<
                Board,
                PlaceError,
            >(PlaceError::CellOccupied),
            in_bounds(coordinate) && cell(self@, coordinate) == EMPTY ==> result is Ok
                && result->Ok_0@ == place(self@, coordinate, sign),
    {
        if coordinate.0 > 2 || coordinate.1 > 2 {
            return Err(PlaceError::OutOfBounds);
        }
        if self.grid[coordinate.1][coordinate.0] != EMPTY {
            return Err(PlaceError::CellOccupied);
        }
        let mut new_board = *self;
        new_board.grid[coordinate.1][coordinate.0] = sign;
        assert(new_board@ =~~= place(self@, coordinate, sign));
        Ok(new_board)
    }

    /// The marks on the main diagonal, from the top left corner down.
    pub fn main_diagonal(&self) -> (line: [char; 3])
        ensures
            line@ == main_diagonal(self@),
    {
        let line = [self.grid[0][0], self.grid[1][1], self.grid[2][2]];
        assert(line@ =~= main_diagonal(self@));
        line
    }

    /// The marks on the anti-diagonal, from the top right corner down.
    pub fn anti_diagonal(&self) -> (line: [char; 3])
        ensures
            line@ == anti_diagonal(self@),
    {
        let line = [self.grid[0][2], self.grid[1][1], self.grid[2][0]];
        assert(line@ =~= anti_diagonal(self@));
        line
    }
}

impl PlaceError {
    /// The text shown to a player whose placement was refused.
    pub fn message(&self) -> (text: String)
        ensures
            text@ == match *self {
                PlaceError::OutOfBounds => "The field is out of bounds"@,
                PlaceError::CellOccupied => "The field is already taken"@,
            },
    {
        match self {
            PlaceError::OutOfBounds => "The field is out of bounds".to_string(),
            PlaceError::CellOccupied => "The field is already taken".to_string(),
        }
    }
}

/// Exchanges the rows and columns of a bare array of rows.
pub fn transpose_grid(grid: [[char; 3]; 3]) -> (result: [[char; 3]; 3])
    ensures
        grid_view(result) == transposed(grid_view(grid)),
{
    let mut result = [[EMPTY; 3]; 3];
    let mut i: usize = 0;
    while i < 3
        invariant
            i <= 3,
            forall|a: int, b: int| 0 <= a < i && 0 <= b < 3 ==> result[a][b] == grid[b][a],
        decreases 3 - i,
    {
        let mut j: usize = 0;
        while j < 3
            invariant
                i < 3,
                j <= 3,
                forall|a: int, b: int| 0 <= a < i && 0 <= b < 3 ==> result[a][b] == grid[b][a],
                forall|b: int| 0 <= b < j ==> result[i as int][b] == grid[b][i as int],
            decreases 3 - j,
        {
            result[i][j] = grid[j][i];
            j += 1;
        }
        i += 1;
    }
    assert(grid_view(result) =~~= transposed(grid_view(grid)));
    result
}

/// Every board has three rows of three cells.
pub proof fn lemma_board_well_formed(board: Board)
    ensures
        well_formed(board@),
{
}

/// Placing a mark on the board keeps the shape of the grid, sets the
/// target cell and leaves every other cell as it was.
pub proof fn lemma_place_cells(g: Grid, c: Coordinate, sign: char)
    requires
        well_formed(g),
        in_bounds(c),
    ensures
        well_formed(place(g, c, sign)),
        cell(place(g, c, sign), c) == sign,
        forall|d: Coordinate| in_bounds(d) && d != c ==> cell(place(g, c, sign), d) == cell(g, d),
{
}

} // verus!
