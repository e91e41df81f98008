use vstd::prelude::*;
use crate::types::{Color, PieceType, Piece, opposite_spec};
use crate::board::{Board, on_board, at, pawn_direction, in_check, sq, is_in_check};
use crate::rules::{
    CastlingRights, MoveKind, move_rule, apply_spec, legal_move, has_legal_move,
    check_move, apply_move, is_legal_move, side_has_legal_move,
};
use crate::square::{parse_square_spec, parse_square, square_name, square_name_spec};
use crate::dto::GameStateDto;
use crate::fen::{fen_spec, fen};
use crate::messages::{
    msg_game_over, msg_same_square, msg_no_piece, msg_wrong_turn, msg_invalid_promotion,
    err_game_over, err_same_square, err_no_piece, err_wrong_turn, err_invalid_promotion,
};

verus! {

/// A game in progress: the board, whose turn it is, whether and how the game
/// has ended, the pieces each side has lost, and what FEN needs to describe
/// the position (castling rights, en passant square, move counters).
pub struct Game {
    board: Board,
    turn: Color,
    game_over: bool,
    winner: Option<Color>,
    captured_white: Vec<PieceType>,
    captured_black: Vec<PieceType>,
    castling: CastlingRights,
    en_passant: Option<usize>,
    halfmove_clock: u64,
    fullmove_number: u64,
}

/// The mathematical content of a [`Game`].
pub struct GameState {
    pub board: Seq<Option<Piece>>,
    pub turn: Color,
    pub game_over: bool,
    pub winner: Option<Color>,
    pub captured_white: Seq<PieceType>,
    pub captured_black: Seq<PieceType>,
    pub castling: CastlingRights,
    pub en_passant: Option<usize>,
    pub halfmove_clock: u64,
    pub fullmove_number: u64,
}

impl View for Game {
    type V = GameState;

    closed spec fn view(&self) -> GameState {
        GameState {
            board: self.board@,
            turn: self.turn,
            game_over: self.game_over,
            winner: self.winner,
            captured_white: self.captured_white@,
            captured_black: self.captured_black@,
            castling: self.castling,
            en_passant: self.en_passant,
            halfmove_clock: self.halfmove_clock,
            fullmove_number: self.fullmove_number,
        }
    }
}

/// The piece order of the back ranks, from file "a" to file "h".
pub open spec fn back_rank_type(f: int) -> PieceType {
    if f == 0 || f == 7 {
        PieceType::Rook
    } else if f == 1 || f == 6 {
        PieceType::Knight
    } else if f == 2 || f == 5 {
        PieceType::Bishop
    } else if f == 3 {
        PieceType::Queen
    } else {
        PieceType::King
    }
}

/// What stands on each square at the start of a game.
pub open spec fn initial_piece(r: int, f: int) -> Option<Piece> {
    if r == 0 {
        Some(Piece { color: Color::White, piece_type: back_rank_type(f) })
    } else if r == 1 {
        Some(Piece { color: Color::White, piece_type: PieceType::Pawn })
    } else if r == 6 {
        Some(Piece { color: Color::Black, piece_type: PieceType::Pawn })
    } else if r == 7 {
        Some(Piece { color: Color::Black, piece_type: back_rank_type(f) })
    } else {
        None
    }
}

/// The state of a new game: pieces on their starting squares, white to move,
/// nothing captured, all castlings allowed.
pub open spec fn is_initial_state(s: GameState) -> bool {
    &&& s.board.len() == 64
    &&& forall|r: int, f: int| on_board(r, f) ==> #[trigger] at(s.board, r, f) == initial_piece(r, f)
    &&& s.turn == Color::White
    &&& !s.game_over
    &&& s.winner is None
    &&& s.captured_white.len() == 0
    &&& s.captured_black.len() == 0
    &&& s.castling == CastlingRights {
        white_kingside: true,
        white_queenside: true,
        black_kingside: true,
        black_queenside: true,
    }
    &&& s.en_passant is None
    &&& s.halfmove_clock == 0
    &&& s.fullmove_number == 1
}

/// The piece removed from the board by a move of kind `k`, if any.
pub open spec fn captured_by(b: Seq<Option<Piece>>, k: MoveKind, fr: int, ff: int, tr: int, tf: int) -> Option<Piece> {
    if k == MoveKind::EnPassant {
        at(b, fr, tf)
    } else {
        at(b, tr, tf)
    }
}

/// Castling rights after piece `p` goes from the origin to the target: a king
/// move gives up both of its side's castlings, and a move from or to a corner
/// gives up the castling with that corner's rook.
pub open spec fn rights_after(cr: CastlingRights, p: Piece, fr: int, ff: int, tr: int, tf: int) -> CastlingRights {
    let from = fr * 8 + ff;
    let to = tr * 8 + tf;
    let white_king = p == Piece { color: Color::White, piece_type: PieceType::King };
    let black_king = p == Piece { color: Color::Black, piece_type: PieceType::King };
    CastlingRights {
        white_kingside: cr.white_kingside && !white_king && from != 7 && to != 7,
        white_queenside: cr.white_queenside && !white_king && from != 0 && to != 0,
        black_kingside: cr.black_kingside && !black_king && from != 63 && to != 63,
        black_queenside: cr.black_queenside && !black_king && from != 56 && to != 56,
    }
}

/// The square a pawn skipped by advancing two squares, which the opponent may
/// capture into on the next move.
pub open spec fn en_passant_after(k: MoveKind, p: Piece, fr: int, ff: int) -> Option<usize> {
    if k == MoveKind::DoublePush {
        Some(((fr + pawn_direction(p.color)) * 8 + ff) as usize)
    } else {
        None
    }
}

/// `n + 1`, staying at the largest value once there.
pub open spec fn saturating_inc(n: u64) -> u64 {
    if n < u64::MAX { (n + 1) as u64 } else { n }
}

/// The piece a pawn becomes on the last rank: the one chosen, else a queen.
pub open spec fn promotion_piece(promo: Option<PieceType>) -> PieceType {
    match promo {
        Some(t) => t,
        None => PieceType::Queen,
    }
}

/// A pawn may become a queen, rook, bishop or knight.
pub open spec fn promotion_allowed(promo: Option<PieceType>) -> bool {
    match promo {
        Some(t) => t != PieceType::Pawn && t != PieceType::King,
        None => true,
    }
}

/// The game after piece `p` of the side to move makes a legal move of kind
/// `k`. The game ends when a king is taken or when the opponent has no legal
/// move: checkmate (won by the mover) or stalemate (no winner). The turn
/// passes to the opponent unless the game has ended.
pub open spec fn after_move(g: GameState, k: MoveKind, p: Piece, fr: int, ff: int, tr: int, tf: int, promo: PieceType) -> GameState {
    let cap = captured_by(g.board, k, fr, ff, tr, tf);
    let nb = apply_spec(g.board, k, p, fr, ff, tr, tf, promo);
    let ncr = rights_after(g.castling, p, fr, ff, tr, tf);
    let nep = en_passant_after(k, p, fr, ff);
    let opp = opposite_spec(p.color);
    let king_taken = cap matches Some(c) && c.piece_type == PieceType::King;
    let no_reply = !has_legal_move(nb, ncr, nep, opp);
    let over = king_taken || no_reply;
    GameState {
        board: nb,
        turn: if over { g.turn } else { opposite_spec(g.turn) },
        game_over: over,
        winner: if king_taken || (no_reply && in_check(nb, opp)) {
            Some(p.color)
        } else if over {
            None
        } else {
            g.winner
        },
        captured_white: match cap {
            Some(c) => if c.color == Color::White { g.captured_white.push(c.piece_type) } else { g.captured_white },
            None => g.captured_white,
        },
        captured_black: match cap {
            Some(c) => if c.color == Color::Black { g.captured_black.push(c.piece_type) } else { g.captured_black },
            None => g.captured_black,
        },
        castling: ncr,
        en_passant: nep,
        halfmove_clock: if p.piece_type == PieceType::Pawn || cap is Some { 0 } else { saturating_inc(g.halfmove_clock) },
        fullmove_number: if p.color == Color::Black { saturating_inc(g.fullmove_number) } else { g.fullmove_number },
    }
}

/// What a move of the piece on (fr, ff) to (tr, tf) gives in a game that is
/// still on: the refusal text, or the game after the move. Refusals come in
/// this order: origin and target coincide, the origin is empty, the piece is
/// not of the side to move, the promotion piece is not allowed, and then the
/// movement rules ([`move_rule`]).
pub open spec fn square_move_outcome(g: GameState, fr: int, ff: int, tr: int, tf: int, promo: Option<PieceType>) -> Result<GameState, Seq<char>> {
    if fr == tr && ff == tf {
        Err(msg_same_square())
    } else {
        match at(g.board, fr, ff) {
            None => Err(msg_no_piece()),
            Some(p) => {
                if p.color != g.turn {
                    Err(msg_wrong_turn())
                } else if !promotion_allowed(promo) {
                    Err(msg_invalid_promotion())
                } else {
                    match move_rule(g.board, g.castling, g.en_passant, p, fr, ff, tr, tf) {
                        Err(e) => Err(e),
                        Ok(k) => Ok(after_move(g, k, p, fr, ff, tr, tf, promotion_piece(promo))),
                    }
                }
            },
        }
    }
}

/// What `make_move` answers: the refusal text, or the game after the move.
/// A finished game refuses every move; then each square name must be valid;
/// then [`square_move_outcome`] decides.
pub open spec fn move_outcome(g: GameState, from: Seq<char>, to: Seq<char>, promo: Option<PieceType>) -> Result<GameState, Seq<char>> {
    if g.game_over {
        Err(msg_game_over())
    } else {
        match parse_square_spec(from) {
            Err(e) => Err(e),
            Ok((fr, ff)) => match parse_square_spec(to) {
                Err(e) => Err(e),
                Ok((tr, tf)) => square_move_outcome(g, fr as int, ff as int, tr as int, tf as int, promo),
            },
        }
    }
}

/// Names of the squares on rank `tr`, files below `n`, that the piece on the
/// origin may legally go to.
pub open spec fn targets_in_rank(g: GameState, fr: int, ff: int, tr: int, n: int) -> Seq<Seq<char>>
    decreases n,
{
    if n <= 0 {
        Seq::empty()
    } else {
        let before = targets_in_rank(g, fr, ff, tr, n - 1);
        if legal_move(g.board, g.castling, g.en_passant, fr, ff, tr, n - 1) {
            before.push(square_name_spec(tr, n - 1))
        } else {
            before
        }
    }
}

/// Names of the squares on ranks below `n` that the piece on the origin may
/// legally go to, rank by rank and file by file.
pub open spec fn targets_below_rank(g: GameState, fr: int, ff: int, n: int) -> Seq<Seq<char>>
    decreases n,
{
    if n <= 0 {
        Seq::empty()
    } else {
        targets_below_rank(g, fr, ff, n - 1) + targets_in_rank(g, fr, ff, n - 1, 8)
    }
}

/// Names of all squares the piece on the origin may legally go to.
pub open spec fn legal_targets(g: GameState, fr: int, ff: int) -> Seq<Seq<char>> {
    targets_below_rank(g, fr, ff, 8)
}

/// The texts of a list of strings.
pub open spec fn texts(v: Seq<String>) -> Seq<Seq<char>> {
    v.map_values(|s: String| s@)
}

fn copy_types(v: &Vec<PieceType>) -> (c: Vec<PieceType>)
    ensures
        c@ == v@,
{
    let mut c: Vec<PieceType> = Vec::new();
    let mut i: usize = 0;
    while i < v.len()
        invariant
            i <= v.len(),
            c@ == v@.subrange(0, i as int),
        decreases v.len() - i,
    {
        c.push(v[i]);
        i = i + 1;
        assert(c@ =~= v@.subrange(0, i as int));
    }
    assert(v@.subrange(0, v.len() as int) =~= v@);
    c
}

impl Game {
    #[verifier::type_invariant]
    spec fn well_formed(self) -> bool {
        self.en_passant matches Some(s) ==> s < 64
    }

    /// A new game in the standard starting position, white to move.
    pub fn new() -> (g: Game)
        ensures
            is_initial_state(g@),
    {
        let mut board: Board = [None; 64];
        let back_rank = [
            PieceType::Rook,
            PieceType::Knight,
            PieceType::Bishop,
            PieceType::Queen,
            PieceType::King,
            PieceType::Bishop,
            PieceType::Knight,
            PieceType::Rook,
        ];
        let mut file: usize = 0;
        while file < 8
            invariant
                file <= 8,
                forall|f: int| 0 <= f < 8 ==> #[trigger] back_rank@[f] == back_rank_type(f),
                forall|r: int, f: int| on_board(r, f) ==> #[trigger] at(board@, r, f) == (
                    if f < file { initial_piece(r, f) } else { None::<Piece> }),
            decreases 8 - file,
        {
            let ghost before = board@;
            let t = back_rank[file];
            assert(t == back_rank_type(file as int));
            board[sq(0, file)] = Some(Piece { color: Color::White, piece_type: t });
            board[sq(7, file)] = Some(Piece { color: Color::Black, piece_type: t });
            board[sq(1, file)] = Some(Piece { color: Color::White, piece_type: PieceType::Pawn });
            board[sq(6, file)] = Some(Piece { color: Color::Black, piece_type: PieceType::Pawn });
            assert forall|r: int, f: int| on_board(r, f) implies #[trigger] at(board@, r, f) == (
                if f < file + 1 { initial_piece(r, f) } else { None::<Piece> }) by {
                if f != file {
                    assert(at(board@, r, f) == at(before, r, f));
                }
            }
            file = file + 1;
        }
        Game {
            board,
            turn: Color::White,
            game_over: false,
            winner: None,
            captured_white: Vec::new(),
            captured_black: Vec::new(),
            castling: CastlingRights {
                white_kingside: true,
                white_queenside: true,
                black_kingside: true,
                black_queenside: true,
            },
            en_passant: None,
            halfmove_clock: 0,
            fullmove_number: 1,
        }
    }

    /// Plays the move of the piece on `from` to `to` for the side to move; a
    /// pawn reaching the last rank becomes `promotion` (a queen when `None`).
    /// A refused move leaves the game as it was and says why.
    pub fn make_move(&mut self, from: &str, to: &str, promotion: Option<PieceType>) -> (res: Result<(), String>)
        ensures
            match move_outcome(old(self)@, from@, to@, promotion) {
                Ok(s) => res is Ok && final(self)@ == s,
                Err(e) => res matches Err(m) && m@ == e && final(self)@ == old(self)@,
            },
    {
        if self.game_over {
            return Err(err_game_over());
        }
        let (fr, ff) = match parse_square(from) {
            Ok(s) => s,
            Err(e) => return Err(e),
        };
        let (tr, tf) = match parse_square(to) {
            Ok(s) => s,
            Err(e) => return Err(e),
        };
        self.play_squares(fr, ff, tr, tf, promotion)
    }

    /// Plays the move of the piece on (fr, ff) to (tr, tf).
    fn play_squares(&mut self, fr: usize, ff: usize, tr: usize, tf: usize, promotion: Option<PieceType>) -> (res: Result<(), String>)
        requires
            fr < 8,
            ff < 8,
            tr < 8,
            tf < 8,
        ensures
            match square_move_outcome(old(self)@, fr as int, ff as int, tr as int, tf as int, promotion) {
                Ok(s) => res is Ok && final(self)@ == s,
                Err(e) => res matches Err(m) && m@ == e && final(self)@ == old(self)@,
            },
    {
        if fr == tr && ff == tf {
            return Err(err_same_square());
        }
        let piece = match self.board[sq(fr, ff)] {
            Some(p) => p,
            None => return Err(err_no_piece()),
        };
        if piece.color != self.turn {
            return Err(err_wrong_turn());
        }
        let promo = match promotion {
            Some(t) => {
                if t == PieceType::Pawn || t == PieceType::King {
                    return Err(err_invalid_promotion());
                }
                t
            },
            None => PieceType::Queen,
        };
        let kind = match check_move(&self.board, self.castling, self.en_passant, piece, fr, ff, tr, tf) {
            Ok(k) => k,
            Err(e) => return Err(e),
        };
        let captured = if kind == MoveKind::EnPassant {
            self.board[sq(fr, tf)]
        } else {
            self.board[sq(tr, tf)]
        };
        let new_board = apply_move(&self.board, kind, piece, fr, ff, tr, tf, promo);
        let from_sq = sq(fr, ff);
        let to_sq = sq(tr, tf);
        let white_king = piece.color == Color::White && piece.piece_type == PieceType::King;
        let black_king = piece.color == Color::Black && piece.piece_type == PieceType::King;
        let new_rights = CastlingRights {
            white_kingside: self.castling.white_kingside && !white_king && from_sq != 7 && to_sq != 7,
            white_queenside: self.castling.white_queenside && !white_king && from_sq != 0 && to_sq != 0,
            black_kingside: self.castling.black_kingside && !black_king && from_sq != 63 && to_sq != 63,
            black_queenside: self.castling.black_queenside && !black_king && from_sq != 56 && to_sq != 56,
        };
        let new_ep = if kind == MoveKind::DoublePush {
            let mid = match piece.color {
                Color::White => fr + 1,
                Color::Black => fr - 1,
            };
            Some(sq(mid, ff))
        } else {
            None
        };
        let opp = piece.color.opposite();
        let king_taken = match captured {
            Some(c) => c.piece_type == PieceType::King,
            None => false,
        };
        let no_reply = !side_has_legal_move(&new_board, new_rights, new_ep, opp);
        let over = king_taken || no_reply;
        let winner = if king_taken || (no_reply && is_in_check(&new_board, opp)) {
            Some(piece.color)
        } else if over {
            None
        } else {
            self.winner
        };
        let mut captured_white = copy_types(&self.captured_white);
        let mut captured_black = copy_types(&self.captured_black);
        match captured {
            Some(c) => match c.color {
                Color::White => captured_white.push(c.piece_type),
                Color::Black => captured_black.push(c.piece_type),
            },
            None => {},
        }
        let resets = piece.piece_type == PieceType::Pawn || captured.is_some();
        let halfmove_clock = if resets {
            0
        } else if self.halfmove_clock < u64::MAX {
            self.halfmove_clock + 1
        } else {
            self.halfmove_clock
        };
        let fullmove_number = if piece.color == Color::Black && self.fullmove_number < u64::MAX {
            self.fullmove_number + 1
        } else {
            self.fullmove_number
        };
        let turn = if over { self.turn } else { self.turn.opposite() };
        *self = Game {
            board: new_board,
            turn,
            game_over: over,
            winner,
            captured_white,
            captured_black,
            castling: new_rights,
            en_passant: new_ep,
            halfmove_clock,
            fullmove_number,
        };
        Ok(())
    }

    /// Whether the game has ended.
    pub fn is_over(&self) -> (over: bool)
        ensures
            over == self@.game_over,
    {
        self.game_over
    }

    /// The squares that the piece on `from` may legally go to, by name, rank
    /// by rank from rank "1" and file by file from file "a"; none for an
    /// empty square. The piece need not belong to the side to move.
    pub fn legal_moves(&self, from: &str) -> (res: Result<Vec<String>, String>)
        ensures
            match parse_square_spec(from@) {
                Err(e) => res matches Err(m) && m@ == e,
                Ok((fr, ff)) => res matches Ok(v) && texts(v@) == legal_targets(self@, fr as int, ff as int),
            },
    {
        let (fr, ff) = match parse_square(from) {
            Ok(s) => s,
            Err(e) => return Err(e),
        };
        let mut moves: Vec<String> = Vec::new();
        let mut tr: usize = 0;
        while tr < 8
            invariant
                fr < 8,
                ff < 8,
                tr <= 8,
                texts(moves@) == targets_below_rank(self@, fr as int, ff as int, tr as int),
            decreases 8 - tr,
        {
            let mut tf: usize = 0;
            while tf < 8
                invariant
                    fr < 8,
                    ff < 8,
                    tr < 8,
                    tf <= 8,
                    texts(moves@) == targets_below_rank(self@, fr as int, ff as int, tr as int)
                        + targets_in_rank(self@, fr as int, ff as int, tr as int, tf as int),
                decreases 8 - tf,
            {
                let ghost prev = moves@;
                if is_legal_move(&self.board, self.castling, self.en_passant, fr, ff, tr, tf) {
                    let name = square_name(tr, tf);
                    moves.push(name);
                    assert(texts(moves@) =~= texts(prev).push(name@));
                }
                tf = tf + 1;
            }
            tr = tr + 1;
        }
        Ok(moves)
    }

    /// A snapshot of the game for display.
    pub fn to_dto(&self) -> (d: GameStateDto)
        ensures
            d.board@.len() == 8,
            forall|r: int| 0 <= r < 8 ==> (#[trigger] d.board@[r])@.len() == 8,
            forall|r: int, f: int| on_board(r, f) ==> (#[trigger] d.board@[r]@[f]) == at(self@.board, r, f),
            d.turn == self@.turn,
            d.game_over == self@.game_over,
            d.winner == self@.winner,
            d.captured_white@ == self@.captured_white,
            d.captured_black@ == self@.captured_black,
    {
        let mut rows: Vec<Vec<Option<Piece>>> = Vec::new();
        let mut r: usize = 0;
        while r < 8
            invariant
                r <= 8,
                rows@.len() == r,
                forall|r2: int| 0 <= r2 < r ==> (#[trigger] rows@[r2])@.len() == 8,
                forall|r2: int, f: int| 0 <= r2 < r && 0 <= f < 8 ==> (#[trigger] rows@[r2]@[f]) == at(self@.board, r2, f),
            decreases 8 - r,
        {
            let mut row: Vec<Option<Piece>> = Vec::new();
            let mut f: usize = 0;
            while f < 8
                invariant
                    r < 8,
                    f <= 8,
                    row@.len() == f,
                    forall|f2: int| 0 <= f2 < f ==> (#[trigger] row@[f2]) == at(self@.board, r as int, f2),
                decreases 8 - f,
            {
                row.push(self.board[sq(r, f)]);
                f = f + 1;
            }
            rows.push(row);
            r = r + 1;
        }
        GameStateDto {
            board: rows,
            turn: self.turn,
            game_over: self.game_over,
            winner: self.winner,
            captured_white: copy_types(&self.captured_white),
            captured_black: copy_types(&self.captured_black),
        }
    }

    /// The position in Forsyth-Edwards Notation, as a UCI engine reads it.
    pub fn to_fen(&self) -> (s: String)
        ensures
            s@ == fen_spec(self@.board, self@.turn, self@.castling, self@.en_passant, self@.halfmove_clock, self@.fullmove_number),
    {
        proof {
            use_type_invariant(self);
        }
        fen(&self.board, self.turn, self.castling, self.en_passant, self.halfmove_clock, self.fullmove_number)
    }

    /// The side to move (while the game goes on).
    pub fn turn(&self) -> (c: Color)
        ensures
            c == self@.turn,
    {
        self.turn
    }

    /// The winner of a finished game; `None` while it goes on or after a
    /// stalemate.
    pub fn winner(&self) -> (w: Option<Color>)
        ensures
            w == self@.winner,
    {
        self.winner
    }

    /// What stands on rank `rank`, file `file` (both counted from 0).
    pub fn piece_at(&self, rank: usize, file: usize) -> (p: Option<Piece>)
        requires
            rank < 8,
            file < 8,
        ensures
            p == at(self@.board, rank as int, file as int),
    {
        self.board[sq(rank, file)]
    }
}

} // verus!
