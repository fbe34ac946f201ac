//! The state of a game between two players, and how a turn changes it.

use crate::board::{cell, empty_grid, in_bounds, place, Board, PlaceError, EMPTY};
use crate::players::Player2;
use crate::win_condition::{full, is_full_board, is_winning_grid, winning};
use vstd::prelude::*;

verus! {

/// A game: the board, the two players, whose turn it is, and whether the
/// game has ended.
#[derive(Debug, Clone, Copy)]
pub struct Game {
    pub board: Board,
    pub players: (Player2, Player2),
    pub current_player: Player2,
    pub is_over: bool,
}

/// The player whose turn comes after that of `current`.
pub open spec fn next_player(players: (Player2, Player2), current: Player2) -> Player2 {
    if current.sign == players.0.sign {
        players.1
    } else {
        players.0
    }
}

/// The last line of a game: who has won, or that nobody has.
///
/// The winner is the player who moved last, not the one whose turn it
/// would be now.
pub open spec fn spec_final_message(won: bool, current_sign: char) -> Seq<char> {
    if won {
        if current_sign == 'O' {
            "Player X won!"@
        } else {
            "Player O won!"@
        }
    } else {
        "It's a tie!"@
    }
}

/// What the one who runs a game has to do next.
#[derive(Debug, Clone)]
pub enum Step {
    /// The game is over: announce it, with this last line.
    Finish(String),
    /// Ask this player for a coordinate, and place its mark there.
    Ask(Player2),
}

impl Game {
    /// A game on an empty board, which the first of `players` opens.
    pub fn new(players: (Player2, Player2)) -> (game: Game)
        ensures
            game.board@ == empty_grid(),
            game.players == players,
            game.current_player == players.0,
            !game.is_over,
    {
        Game { board: Board::new(), current_player: players.0, players, is_over: false }
    }

    /// The game after the current player's turn: the other player is to
    /// move, and the game is over if the board is won or full.
    pub fn next_turn(&self) -> (game: Game)
        ensures
            game.board == self.board,
            game.players == self.players,
            game.is_over == (winning(self.board@) || full(self.board@)),
            game.current_player == next_player(self.players, self.current_player),
    {
        Game {
            board: self.board,
            is_over: is_winning_grid(self.board) || is_full_board(self.board),
            players: self.players,
            current_player: if self.current_player == self.players.0 {
                self.players.1
            } else {
                self.players.0
            },
        }
    }

    /// The game after the current player has placed its mark on
    /// `coordinate`, or the reason why the mark cannot be placed there.
    pub fn place_choice(&self, coordinate: (usize, usize)) -> (result: Result<Game, PlaceError>)
        ensures
            !in_bounds(coordinate) ==> result == Err::<Game, PlaceError>(PlaceError::OutOfBounds),
            in_bounds(coordinate) && cell(self.board@, coordinate) != EMPTY ==> result == Err::<
                Game,
                PlaceError,
            >(PlaceError::CellOccupied),
            in_bounds(coordinate) && cell(self.board@, coordinate) == EMPTY ==> {
                &&& result matches Ok(game)
                &&& game.board@ == place(self.board@, coordinate, self.current_player.sign)
                &&& game.players == self.players
                &&& game.is_over == (winning(game.board@) || full(game.board@))
                &&& game.current_player == next_player(self.players, self.current_player)
            },
    {
        match self.board.add_value(coordinate, self.current_player.sign) {
            Ok(board) => {
                let new_game = Game {
                    board,
                    players: self.players,
                    current_player: self.current_player,
                    is_over: self.is_over,
                };
                Ok(new_game.next_turn())
            },
            Err(error) => Err(error),
        }
    }

    /// What has to happen next: a game that is over is announced with
    /// its last line, in any other game the current player is asked.
    pub fn play(&self) -> (step: Step)
        ensures
            self.is_over ==> (step matches Step::Finish(text) && text@ == spec_final_message(
                winning(self.board@),
                self.current_player.sign,
            )),
            !self.is_over ==> step == Step::Ask(self.current_player),
    {
        if self.is_over {
            Step::Finish(self.get_final_message())
        } else {
            Step::Ask(self.current_player)
        }
    }

    /// The last line of the game: who has won, or that it is a tie.
    pub fn get_final_message(&self) -> (text: String)
        ensures
            text@ == spec_final_message(winning(self.board@), self.current_player.sign),
    {
        if is_winning_grid(self.board) {
            if self.current_player.sign == 'O' {
                "Player X won!".to_string()
            } else {
                "Player O won!".to_string()
            }
        } else {
            "It's a tie!".to_string()
        }
    }
}

} // verus!
