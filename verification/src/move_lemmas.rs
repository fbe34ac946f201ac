//! What holds of the moves that the automated player chooses.

use crate::board::{
    cell, in_bounds, lemma_board_well_formed, place, well_formed, Board, Coordinate, Grid, EMPTY,
};
use crate::strategy::{
    completes_line, corners, first_from, first_where, is_among, is_empty_in, makes_fork,
    opens_fork, opponent, row_major, spec_block_fork_opportunity_move, spec_empty_squares,
    spec_fork_move, spec_fork_opportunities, spec_select_move, spec_take_center_move,
    spec_take_corner_move, spec_take_side_move, spec_two_winning_moves, spec_winning_move,
};
use crate::win_condition::{full, lemma_winning_by_cells, winning};
use vstd::prelude::*;

verus! {

/// The first cell that meets a test is one of the cells, meets the test,
/// and no cell before it does; there is none only if no cell meets it.
pub proof fn lemma_first_from(
    cells: Seq<Coordinate>,
    wanted: spec_fn(Coordinate) -> bool,
    from: int,
)
    requires
        0 <= from <= cells.len(),
    ensures
        match first_from(cells, wanted, from) {
            Some(c) => exists|i: int|
                from <= i < cells.len() && #[trigger] cells[i] == c && wanted(c) && forall|j: int|
                    from <= j < i ==> !wanted(#[trigger] cells[j]),
            None => forall|i: int| from <= i < cells.len() ==> !wanted(#[trigger] cells[i]),
        },
    decreases cells.len() - from,
{
    if from < cells.len() {
        if wanted(cells[from]) {
            assert(first_from(cells, wanted, from) == Some(cells[from]));
        } else {
            lemma_first_from(cells, wanted, from + 1);
            if let Some(c) = first_from(cells, wanted, from + 1) {
                let i = choose|i: int|
                    from + 1 <= i < cells.len() && #[trigger] cells[i] == c && wanted(c)
                        && forall|j: int| from + 1 <= j < i ==> !wanted(#[trigger] cells[j]);
                assert(cells[i] == c);
                assert forall|j: int| from <= j < i implies !wanted(#[trigger] cells[j]) by {
                    if j > from {
                        assert(from + 1 <= j < i);
                    }
                }
            }
        }
    }
}

/// The first cell of a list that meets a test is in the list and meets
/// the test; there is none exactly if no cell of the list meets it.
pub proof fn lemma_first_where(cells: Seq<Coordinate>, wanted: spec_fn(Coordinate) -> bool)
    ensures
        first_where(cells, wanted) matches Some(c) ==> cells.contains(c) && wanted(c),
        first_where(cells, wanted) is None <==> forall|i: int|
            0 <= i < cells.len() ==> !wanted(#[trigger] cells[i]),
{
    lemma_first_from(cells, wanted, 0);
}

/// The empty squares of a grid are the cells of the board that hold no mark.
pub proof fn lemma_empty_squares(g: Grid)
    ensures
        forall|c: Coordinate| #[trigger]
            spec_empty_squares(g).contains(c) <==> in_bounds(c) && cell(g, c) == EMPTY,
{
    let empty = is_empty_in(g);
    let cells = row_major();
    assert forall|c: Coordinate| #[trigger]
        spec_empty_squares(g).contains(c) <==> in_bounds(c) && cell(g, c) == EMPTY by {
        if spec_empty_squares(g).contains(c) {
            cells.lemma_filter_contains_rev(empty, c);
            let i = choose|i: int|
                0 <= i < spec_empty_squares(g).len() && spec_empty_squares(g)[i] == c;
            cells.lemma_filter_pred(empty, i);
        }
        if in_bounds(c) && cell(g, c) == EMPTY {
            let k = 3 * c.1 + c.0;
            assert(cells[k] == c);
            cells.lemma_filter_contains(empty, k);
        }
    }
}

/// A full board has no empty squares, and only a full board has none.
pub proof fn lemma_no_empty_squares_when_full(g: Grid)
    requires
        well_formed(g),
    ensures
        spec_empty_squares(g).len() == 0 <==> full(g),
{
    lemma_empty_squares(g);
    let squares = spec_empty_squares(g);
    if full(g) {
        if squares.len() > 0 {
            assert(squares.contains(squares[0]));
        }
    } else {
        let (x, y) = choose|x: int, y: int| 0 <= x < 3 && 0 <= y < 3 && g[y][x] == EMPTY;
        let c = (x as usize, y as usize);
        assert(in_bounds(c) && cell(g, c) == EMPTY);
        assert(squares.contains(c));
    }
}

/// A winning move is a cell of the board, and an empty one.
pub proof fn lemma_winning_move_is_playable(g: Grid, sign: char)
    requires
        well_formed(g),
    ensures
        spec_winning_move(g, sign) matches Some(c) ==> in_bounds(c) && cell(g, c) == EMPTY,
{
}

/// A fork move is an empty cell of the board on which `sign` forks.
pub proof fn lemma_fork_move_is_playable(g: Grid, sign: char)
    ensures
        spec_fork_move(g, sign) matches Some(c) ==> in_bounds(c) && cell(g, c) == EMPTY
            && spec_two_winning_moves(place(g, c, sign), sign),
        spec_fork_move(g, sign) is None ==> forall|c: Coordinate|
            in_bounds(c) && cell(g, c) == EMPTY ==> !#[trigger] spec_two_winning_moves(
                place(g, c, sign),
                sign,
            ),
{
    lemma_empty_squares(g);
    lemma_first_where(spec_empty_squares(g), makes_fork(g, sign));
    if spec_fork_move(g, sign) is None {
        assert forall|c: Coordinate| in_bounds(c) && cell(g, c) == EMPTY implies !#[trigger]
            spec_two_winning_moves(place(g, c, sign), sign) by {
            assert(spec_empty_squares(g).contains(c));
            let i = choose|i: int|
                0 <= i < spec_empty_squares(g).len() && spec_empty_squares(g)[i] == c;
            assert(!makes_fork(g, sign)(spec_empty_squares(g)[i]));
        }
    }
}

/// Every fork opportunity is an empty cell of the board.
pub proof fn lemma_fork_opportunities(g: Grid, sign: char)
    ensures
        forall|c: Coordinate| #[trigger]
            spec_fork_opportunities(g, sign).contains(c) <==> in_bounds(c) && cell(g, c) == EMPTY
                && spec_fork_move(place(g, c, opponent(sign)), opponent(sign)) is Some,
{
    lemma_empty_squares(g);
    let squares = spec_empty_squares(g);
    let opens = opens_fork(g, opponent(sign));
    assert forall|c: Coordinate| #[trigger]
        spec_fork_opportunities(g, sign).contains(c) <==> in_bounds(c) && cell(g, c) == EMPTY
            && spec_fork_move(place(g, c, opponent(sign)), opponent(sign)) is Some by {
        if spec_fork_opportunities(g, sign).contains(c) {
            squares.lemma_filter_contains_rev(opens, c);
            let i = choose|i: int|
                0 <= i < spec_fork_opportunities(g, sign).len() && spec_fork_opportunities(
                    g,
                    sign,
                )[i] == c;
            squares.lemma_filter_pred(opens, i);
        }
        if in_bounds(c) && cell(g, c) == EMPTY && opens(c) {
            assert(squares.contains(c));
            let k = choose|k: int| 0 <= k < squares.len() && squares[k] == c;
            squares.lemma_filter_contains(opens, k);
        }
    }
}

/// The move that denies a fork opportunity is itself a fork opportunity.
pub proof fn lemma_block_fork_opportunity_move_is_playable(g: Grid, sign: char)
    ensures
        spec_block_fork_opportunity_move(g, sign) matches Some(c) ==> spec_fork_opportunities(
            g,
            sign,
        ).contains(c) && in_bounds(c) && cell(g, c) == EMPTY,
        spec_block_fork_opportunity_move(g, sign) is None <==> spec_fork_opportunities(
            g,
            sign,
        ).len() == 0,
{
    lemma_fork_opportunities(g, sign);
    let opportunities = spec_fork_opportunities(g, sign);
    lemma_first_where(corners(), is_among(opportunities));
    if opportunities.len() > 0 {
        assert(opportunities.contains(opportunities[0]));
    }
}

/// The center, corner and side rules choose empty cells of the board, and
/// one of them applies unless the board is full.
pub proof fn lemma_positional_moves(g: Grid)
    requires
        well_formed(g),
    ensures
        spec_take_center_move(g) matches Some(c) ==> in_bounds(c) && cell(g, c) == EMPTY,
        spec_take_corner_move(g) matches Some(c) ==> in_bounds(c) && cell(g, c) == EMPTY,
        spec_take_side_move(g) matches Some(c) ==> in_bounds(c) && cell(g, c) == EMPTY,
        (spec_take_center_move(g) is None && spec_take_corner_move(g) is None
            && spec_take_side_move(g) is None) <==> full(g),
{
    reveal_with_fuel(first_from, 5);
    if !full(g) {
        let (x, y) = choose|x: int, y: int| 0 <= x < 3 && 0 <= y < 3 && g[y][x] == EMPTY;
        assert(g[y][x] == EMPTY);
    }
}

/// The automated player finds a move unless the board is full, and on a
/// full board it finds none.
pub proof fn lemma_move_found_unless_full(board: Board, sign: char)
    ensures
        spec_select_move(board@, sign) is None <==> full(board@),
{
    let g = board@;
    lemma_board_well_formed(board);
    lemma_positional_moves(g);
    if full(g) {
        lemma_no_empty_squares_when_full(g);
        lemma_winning_move_is_playable(g, sign);
        lemma_winning_move_is_playable(g, opponent(sign));
        lemma_fork_move_is_playable(g, sign);
        lemma_fork_move_is_playable(g, opponent(sign));
        lemma_block_fork_opportunity_move_is_playable(g, sign);
        assert forall|c: Coordinate| in_bounds(c) implies cell(g, c) != EMPTY by {
            assert(g[c.1 as int][c.0 as int] != EMPTY);
        }
    }
}

/// The move of the automated player is a cell of the board that nobody
/// has played, so that placing the mark there succeeds.
pub proof fn lemma_move_is_playable(board: Board, sign: char)
    ensures
        spec_select_move(board@, sign) matches Some(c) ==> in_bounds(c) && cell(board@, c)
            == EMPTY,
{
    let g = board@;
    lemma_board_well_formed(board);
    lemma_positional_moves(g);
    lemma_winning_move_is_playable(g, sign);
    lemma_winning_move_is_playable(g, opponent(sign));
    lemma_fork_move_is_playable(g, sign);
    lemma_fork_move_is_playable(g, opponent(sign));
    lemma_block_fork_opportunity_move_is_playable(g, sign);
}

/// The winning move that the scan finds completes a line for `sign`.
pub proof fn lemma_winning_move_completes_line(g: Grid, sign: char)
    requires
        well_formed(g),
        sign != EMPTY,
    ensures
        spec_winning_move(g, sign) matches Some(c) ==> completes_line(g, sign, c),
{
}

/// Where `sign` can complete a line, the scan finds a winning move.
pub proof fn lemma_completing_cell_is_found(g: Grid, sign: char, c: Coordinate)
    requires
        well_formed(g),
        sign != EMPTY,
        completes_line(g, sign, c),
    ensures
        spec_winning_move(g, sign) is Some,
{
}

/// To complete a line is to win: the board with `sign` on a completing
/// cell is won, and on a board that nobody has won yet, only a completing
/// cell wins at once.
pub proof fn lemma_completing_a_line_wins(board: Board, sign: char, c: Coordinate)
    requires
        sign != EMPTY,
        in_bounds(c),
        cell(board@, c) == EMPTY,
    ensures
        completes_line(board@, sign, c) ==> winning(place(board@, c, sign)),
        !winning(board@) ==> (winning(place(board@, c, sign)) <==> completes_line(
            board@,
            sign,
            c,
        )),
{
    lemma_winning_by_cells(board@);
    lemma_winning_by_cells(place(board@, c, sign));
}

/// Winning comes first: where `sign` can complete a line, the automated
/// player does so, whatever else the board offers; and where only one
/// cell completes a line, it plays that cell.
pub proof fn lemma_winning_move_is_chosen(board: Board, sign: char, c: Coordinate)
    requires
        sign != EMPTY,
        completes_line(board@, sign, c),
    ensures
        spec_select_move(board@, sign) matches Some(chosen) && completes_line(
            board@,
            sign,
            chosen,
        ),
        (forall|other: Coordinate| #[trigger]
            completes_line(board@, sign, other) ==> other == c) ==> spec_select_move(board@, sign)
            == Some(c),
{
    lemma_completing_cell_is_found(board@, sign, c);
    lemma_winning_move_completes_line(board@, sign);
}

/// Blocking comes second: where `sign` cannot complete a line and its
/// opponent can, the automated player takes a cell on which the opponent
/// would have completed one.
pub proof fn lemma_block_is_chosen(board: Board, sign: char, c: Coordinate)
    requires
        sign != EMPTY,
        forall|own: Coordinate| !#[trigger] completes_line(board@, sign, own),
        completes_line(board@, opponent(sign), c),
    ensures
        spec_select_move(board@, sign) matches Some(chosen) && completes_line(
            board@,
            opponent(sign),
            chosen,
        ),
{
    lemma_completing_cell_is_found(board@, opponent(sign), c);
    lemma_winning_move_completes_line(board@, opponent(sign));
    lemma_winning_move_completes_line(board@, sign);
}

/// A mark that another player puts on a different empty cell neither
/// gives `sign` a line to complete nor takes one away.
pub proof fn lemma_block_elsewhere(g: Grid, sign: char, other: char, c: Coordinate, d: Coordinate)
    requires
        well_formed(g),
        sign != EMPTY,
        other != EMPTY,
        other != sign,
        in_bounds(c),
        in_bounds(d),
        c != d,
        cell(g, c) == EMPTY,
    ensures
        completes_line(place(g, c, other), sign, d) <==> completes_line(g, sign, d),
{
    let blocked = place(g, c, other);
    let before = place(g, d, sign);
    let after = place(blocked, d, sign);
    assert(well_formed(before) && well_formed(after));
    assert(forall|e: Coordinate| in_bounds(e) && e != c ==> cell(after, e) == cell(before, e));
    assert(cell(after, c) == other && cell(before, c) == EMPTY);
    assert(cell(blocked, d) == cell(g, d));
}

/// What a fork is: `sign` has two winning moves exactly if it can
/// complete a line on two different cells, so that one block of the
/// opponent cannot stop both.
pub proof fn lemma_two_winning_moves(g: Grid, sign: char)
    requires
        well_formed(g),
        sign != EMPTY,
    ensures
        spec_two_winning_moves(g, sign) <==> exists|a: Coordinate, b: Coordinate|
            a != b && #[trigger] completes_line(g, sign, a) && #[trigger] completes_line(
                g,
                sign,
                b,
            ),
{
    lemma_winning_move_is_playable(g, sign);
    lemma_winning_move_completes_line(g, sign);
    if let Some(c) = spec_winning_move(g, sign) {
        let blocked = place(g, c, opponent(sign));
        assert(well_formed(blocked));
        lemma_winning_move_completes_line(blocked, sign);
        lemma_winning_move_is_playable(blocked, sign);
        if let Some(d) = spec_winning_move(blocked, sign) {
            assert(cell(blocked, c) == opponent(sign));
            assert(c != d);
            lemma_block_elsewhere(g, sign, opponent(sign), c, d);
            assert(c != d && completes_line(g, sign, c) && completes_line(g, sign, d));
        }
    }
    if exists|a: Coordinate, b: Coordinate|
        a != b && #[trigger] completes_line(g, sign, a) && #[trigger] completes_line(g, sign, b) {
        let (a, b) = choose|a: Coordinate, b: Coordinate|
            a != b && #[trigger] completes_line(g, sign, a) && #[trigger] completes_line(
                g,
                sign,
                b,
            );
        lemma_completing_cell_is_found(g, sign, a);
        let c = spec_winning_move(g, sign)->Some_0;
        let blocked = place(g, c, opponent(sign));
        assert(well_formed(blocked));
        let d = if a != c {
            a
        } else {
            b
        };
        lemma_block_elsewhere(g, sign, opponent(sign), c, d);
        lemma_completing_cell_is_found(blocked, sign, d);
    }
}

/// Whether `sign`, once it has played the empty cell `c`, can complete a
/// line on two different cells.
pub open spec fn makes_two_threats(g: Grid, sign: char, c: Coordinate) -> bool {
    &&& in_bounds(c)
    &&& cell(g, c) == EMPTY
    &&& exists|a: Coordinate, b: Coordinate|
        a != b && #[trigger] completes_line(place(g, c, sign), sign, a)
            && #[trigger] completes_line(place(g, c, sign), sign, b)
}

/// The fork move makes two threats at once, and it is the first cell in
/// row-major order that does; where no empty cell makes two threats,
/// there is no fork move.
pub proof fn lemma_fork_move_makes_two_threats(board: Board, sign: char)
    requires
        sign != EMPTY,
    ensures
        spec_fork_move(board@, sign) matches Some(c) ==> makes_two_threats(board@, sign, c),
        spec_fork_move(board@, sign) is None <==> forall|c: Coordinate|
            !#[trigger] makes_two_threats(board@, sign, c),
{
    let g = board@;
    lemma_fork_move_is_playable(g, sign);
    if let Some(c) = spec_fork_move(g, sign) {
        lemma_two_winning_moves(place(g, c, sign), sign);
        assert(makes_two_threats(g, sign, c));
    } else {
        assert forall|c: Coordinate| !#[trigger] makes_two_threats(g, sign, c) by {
            if in_bounds(c) && cell(g, c) == EMPTY {
                lemma_two_winning_moves(place(g, c, sign), sign);
                assert(!spec_two_winning_moves(place(g, c, sign), sign));
            }
        }
    }
}

} // verus!
