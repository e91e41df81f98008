use vstd::prelude::*;

verus! {

/// The two sides of the board.
#[derive(Clone, Copy, PartialEq, Eq, Structural, Debug)]
pub enum Color {
    White,
    Black,
}

/// The six kinds of chess pieces.
#[derive(Clone, Copy, PartialEq, Eq, Structural, Debug)]
pub enum PieceType {
    Pawn,
    Knight,
    Bishop,
    Rook,
    Queen,
    King,
}

/// A piece: its side and its kind.
#[derive(Clone, Copy, PartialEq, Eq, Structural, Debug)]
pub struct Piece {
    pub color: Color,
    pub piece_type: PieceType,
}

/// The other side.
pub open spec fn opposite_spec(c: Color) -> Color {
    match c {
        Color::White => Color::Black,
        Color::Black => Color::White,
    }
}

impl Color {
    /// The side that is not `self`.
    pub fn opposite(self) -> (r: Color)
        ensures
            r == opposite_spec(self),
    {
        match self {
            Color::White => Color::Black,
            Color::Black => Color::White,
        }
    }
}

} // verus!
