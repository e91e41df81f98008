//! Rules engine for a two-player chess board: piece movement, castling,
//! en passant, promotion, check and end-of-game detection, FEN export,
//! and the bookkeeping that drives a UCI engine as a sparring partner.

pub mod types;
pub mod board;
pub mod messages;
pub mod rules;
pub mod text;
pub mod square;
pub mod game;
pub mod dto;
pub mod fen;
pub mod laws;
pub mod uci;
pub mod engine_laws;
pub mod move_laws;
pub mod fen_laws;
