use vstd::prelude::*;
use crate::types::{Color, PieceType, Piece};

verus! {

/// What the board view shows of a game: the squares rank by rank (row 0 is
/// rank "1", column 0 is file "a"), whose turn it is, whether and by whom the
/// game was won, and the pieces each side has lost.
pub struct GameStateDto {
    pub board: Vec<Vec<Option<Piece>>>,
    pub turn: Color,
    pub game_over: bool,
    pub winner: Option<Color>,
    pub captured_white: Vec<PieceType>,
    pub captured_black: Vec<PieceType>,
}

/// An engine evaluation from white's point of view: centipawns, or moves
/// to mate (negative when black mates).
pub struct EvalDto {
    pub score_cp: Option<i32>,
    pub mate_in: Option<i32>,
}

/// A suggested move, with the engine's evaluation from the point of view of
/// the side to move.
pub struct HintDto {
    pub from: String,
    pub to: String,
    pub promotion: Option<PieceType>,
    pub score_cp: Option<i32>,
    pub mate_in: Option<i32>,
}

} // verus!
