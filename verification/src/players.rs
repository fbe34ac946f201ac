//! The two players of a game.

use crate::board::Board;
use vstd::prelude::*;

verus! {

/// Who chooses the moves of a player.
#[derive(Debug, Clone, Copy, PartialEq, Eq, Structural)]
pub enum PlayerKind {
    /// A person, who is asked for each move.
    Human,
    /// The automated player.
    Heuristic,
}

/// Anything that can take a turn: it has a mark and names the cell on
/// which it wants to place it.
pub trait Player: PartialEq + Copy {
    /// The mark that this player places.
    fn get_sign(&self) -> char;

    /// The cell that this player wants to take on `board`, or the reason
    /// why it names none.
    fn get_coordinate(&self, board: Board) -> Result<(usize, usize), String>;
}

/// A player of a game: its mark, and who chooses its moves.
///
/// Two players are equal when they place the same mark.
#[derive(Debug, Clone, Copy)]
pub struct Player2 {
    pub sign: char,
    pub kind: PlayerKind,
}

impl PartialEq for Player2 {
    fn eq(&self, other: &Player2) -> (equal: bool) {
        self.sign == other.sign
    }
}

impl vstd::std_specs::cmp::PartialEqSpecImpl for Player2 {
    open spec fn obeys_eq_spec() -> bool {
        true
    }

    open spec fn eq_spec(&self, other: &Player2) -> bool {
        self.sign == other.sign
    }
}

} // verus!
