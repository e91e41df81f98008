use vstd::prelude::*;
use crate::types::{Color, PieceType, Piece, opposite_spec};
use crate::board::{
    Board, on_board, at, abs, is_line, path_clear, pawn_direction, square_attacked, in_check, sq,
    check_path_clear, is_square_attacked, is_in_check,
};
use crate::messages::{
    msg_own_capture, msg_invalid_knight, msg_invalid_bishop, msg_invalid_rook, msg_invalid_queen,
    msg_invalid_king, msg_path_blocked, msg_pawn_forward_capture, msg_invalid_pawn,
    msg_pawn_needs_enemy, msg_king_in_check, msg_castling_not_allowed, msg_castling_attacked,
    err_own_capture, err_invalid_knight, err_invalid_bishop, err_invalid_rook, err_invalid_queen,
    err_invalid_king, err_path_blocked, err_pawn_forward_capture, err_invalid_pawn,
    err_pawn_needs_enemy, err_king_in_check, err_castling_not_allowed, err_castling_attacked,
};

verus! {

/// Which castlings each side may still make: none once its king has moved,
/// and not on a side whose rook has moved or been captured.
#[derive(Clone, Copy, PartialEq, Eq, Structural, Debug)]
pub struct CastlingRights {
    pub white_kingside: bool,
    pub white_queenside: bool,
    pub black_kingside: bool,
    pub black_queenside: bool,
}

/// What a move does beyond carrying a piece from one square to another.
#[derive(Clone, Copy, PartialEq, Eq, Structural, Debug)]
pub enum MoveKind {
    /// A plain move or capture.
    Normal,
    /// A pawn's two-square advance from its starting rank.
    DoublePush,
    /// A pawn capturing the pawn that has just passed it.
    EnPassant,
    /// The king goes two files towards the h-file rook, which jumps over it.
    CastleKingside,
    /// The king goes two files towards the a-file rook, which jumps over it.
    CastleQueenside,
}

/// A result whose error text is taken by its view.
pub open spec fn err_view<T>(r: Result<T, String>) -> Result<T, Seq<char>> {
    match r {
        Ok(v) => Ok(v),
        Err(e) => Err(e@),
    }
}

pub open spec fn home_rank(c: Color) -> int {
    match c {
        Color::White => 0,
        Color::Black => 7,
    }
}

pub open spec fn pawn_start_rank(c: Color) -> int {
    match c {
        Color::White => 1,
        Color::Black => 6,
    }
}

pub open spec fn has_right(cr: CastlingRights, c: Color, kingside: bool) -> bool {
    match (c, kingside) {
        (Color::White, true) => cr.white_kingside,
        (Color::White, false) => cr.white_queenside,
        (Color::Black, true) => cr.black_kingside,
        (Color::Black, false) => cr.black_queenside,
    }
}

/// The squares between king and rook are empty.
pub open spec fn castle_squares_empty(b: Seq<Option<Piece>>, r: int, kingside: bool) -> bool {
    if kingside {
        at(b, r, 5) is None && at(b, r, 6) is None
    } else {
        at(b, r, 1) is None && at(b, r, 2) is None && at(b, r, 3) is None
    }
}

/// Castling of side `c`: the right must remain and its rook stand in the
/// corner, the squares between must be empty, and the king may not start on,
/// pass over or land on an attacked square.
pub open spec fn castle_rule(b: Seq<Option<Piece>>, cr: CastlingRights, c: Color, kingside: bool) -> Result<MoveKind, Seq<char>> {
    let r = home_rank(c);
    let opp = opposite_spec(c);
    let rook_f: int = if kingside { 7 } else { 0 };
    let pass_f: int = if kingside { 5 } else { 3 };
    let dest_f: int = if kingside { 6 } else { 2 };
    if !has_right(cr, c, kingside) || at(b, r, rook_f) != Some(Piece { color: c, piece_type: PieceType::Rook }) {
        Err(msg_castling_not_allowed())
    } else if !castle_squares_empty(b, r, kingside) {
        Err(msg_path_blocked())
    } else if square_attacked(b, r, 4, opp) || square_attacked(b, r, pass_f, opp) || square_attacked(b, r, dest_f, opp) {
        Err(msg_castling_attacked())
    } else if kingside {
        Ok(MoveKind::CastleKingside)
    } else {
        Ok(MoveKind::CastleQueenside)
    }
}

/// How a pawn of side `c` may go from the origin to the target.
pub open spec fn pawn_rule(b: Seq<Option<Piece>>, ep: Option<usize>, c: Color, fr: int, ff: int, tr: int, tf: int) -> Result<MoveKind, Seq<char>> {
    let dir = pawn_direction(c);
    let dr = tr - fr;
    let df = tf - ff;
    if df == 0 {
        if at(b, tr, tf) is Some {
            Err(msg_pawn_forward_capture())
        } else if dr == dir {
            Ok(MoveKind::Normal)
        } else if dr == 2 * dir && fr == pawn_start_rank(c) {
            if at(b, fr + dir, ff) is None {
                Ok(MoveKind::DoublePush)
            } else {
                Err(msg_path_blocked())
            }
        } else {
            Err(msg_invalid_pawn())
        }
    } else if abs(df) == 1 && dr == dir {
        if at(b, tr, tf) is Some {
            Ok(MoveKind::Normal)
        } else if ep == Some((tr * 8 + tf) as usize)
            && at(b, fr, tf) == Some(Piece { color: opposite_spec(c), piece_type: PieceType::Pawn }) {
            Ok(MoveKind::EnPassant)
        } else {
            Err(msg_pawn_needs_enemy())
        }
    } else {
        Err(msg_invalid_pawn())
    }
}

/// How piece `p` may go from the origin to the target, by its kind alone
/// (whether this leaves its own king attacked is not looked at here).
pub open spec fn piece_rule(b: Seq<Option<Piece>>, cr: CastlingRights, ep: Option<usize>, p: Piece, fr: int, ff: int, tr: int, tf: int) -> Result<MoveKind, Seq<char>> {
    let dr = tr - fr;
    let df = tf - ff;
    match p.piece_type {
        PieceType::Pawn => pawn_rule(b, ep, p.color, fr, ff, tr, tf),
        PieceType::Knight => {
            if (abs(dr) == 1 && abs(df) == 2) || (abs(dr) == 2 && abs(df) == 1) {
                Ok(MoveKind::Normal)
            } else {
                Err(msg_invalid_knight())
            }
        },
        PieceType::Bishop => {
            if abs(dr) == abs(df) && dr != 0 {
                if path_clear(b, fr, ff, tr, tf) { Ok(MoveKind::Normal) } else { Err(msg_path_blocked()) }
            } else {
                Err(msg_invalid_bishop())
            }
        },
        PieceType::Rook => {
            if (dr == 0) != (df == 0) {
                if path_clear(b, fr, ff, tr, tf) { Ok(MoveKind::Normal) } else { Err(msg_path_blocked()) }
            } else {
                Err(msg_invalid_rook())
            }
        },
        PieceType::Queen => {
            if is_line(fr, ff, tr, tf) {
                if path_clear(b, fr, ff, tr, tf) { Ok(MoveKind::Normal) } else { Err(msg_path_blocked()) }
            } else {
                Err(msg_invalid_queen())
            }
        },
        PieceType::King => {
            if abs(dr) <= 1 && abs(df) <= 1 && (dr != 0 || df != 0) {
                Ok(MoveKind::Normal)
            } else if dr == 0 && abs(df) == 2 && fr == home_rank(p.color) && ff == 4 {
                castle_rule(b, cr, p.color, df > 0)
            } else {
                Err(msg_invalid_king())
            }
        },
    }
}

/// The board after piece `p` makes a move of kind `k`; a pawn that reaches
/// the last rank becomes `promo`.
pub open spec fn apply_spec(b: Seq<Option<Piece>>, k: MoveKind, p: Piece, fr: int, ff: int, tr: int, tf: int, promo: PieceType) -> Seq<Option<Piece>> {
    let b1 = b.update(tr * 8 + tf, Some(p)).update(fr * 8 + ff, None);
    let b2 = match k {
        MoveKind::EnPassant => b1.update(fr * 8 + tf, None),
        MoveKind::CastleKingside => b1.update(fr * 8 + 5, at(b, fr, 7)).update(fr * 8 + 7, None),
        MoveKind::CastleQueenside => b1.update(fr * 8 + 3, at(b, fr, 0)).update(fr * 8 + 0, None),
        _ => b1,
    };
    if p.piece_type == PieceType::Pawn && (tr == 0 || tr == 7) {
        b2.update(tr * 8 + tf, Some(Piece { color: p.color, piece_type: promo }))
    } else {
        b2
    }
}

/// Whether piece `p` may go from the origin to the target: it may not take a
/// piece of its own side, must move as its kind allows, and may not leave its
/// own king attacked.
pub open spec fn move_rule(b: Seq<Option<Piece>>, cr: CastlingRights, ep: Option<usize>, p: Piece, fr: int, ff: int, tr: int, tf: int) -> Result<MoveKind, Seq<char>> {
    if at(b, tr, tf) matches Some(t) && t.color == p.color {
        Err(msg_own_capture())
    } else {
        match piece_rule(b, cr, ep, p, fr, ff, tr, tf) {
            Err(e) => Err(e),
            Ok(k) => {
                if in_check(apply_spec(b, k, p, fr, ff, tr, tf, PieceType::Queen), p.color) {
                    Err(msg_king_in_check())
                } else {
                    Ok(k)
                }
            },
        }
    }
}

/// The piece on the origin may legally go to the target.
pub open spec fn legal_move(b: Seq<Option<Piece>>, cr: CastlingRights, ep: Option<usize>, fr: int, ff: int, tr: int, tf: int) -> bool {
    &&& on_board(fr, ff)
    &&& on_board(tr, tf)
    &&& (fr != tr || ff != tf)
    &&& at(b, fr, ff) matches Some(p)
    &&& move_rule(b, cr, ep, p, fr, ff, tr, tf) is Ok
}

/// A piece of side `c` stands on the origin and may legally go to the target.
pub open spec fn legal_move_of(b: Seq<Option<Piece>>, cr: CastlingRights, ep: Option<usize>, c: Color, fr: int, ff: int, tr: int, tf: int) -> bool {
    &&& legal_move(b, cr, ep, fr, ff, tr, tf)
    &&& at(b, fr, ff) matches Some(p)
    &&& p.color == c
}

/// Side `c` has at least one legal move.
pub open spec fn has_legal_move(b: Seq<Option<Piece>>, cr: CastlingRights, ep: Option<usize>, c: Color) -> bool {
    exists|fr: int, ff: int, tr: int, tf: int| #[trigger] legal_move_of(b, cr, ep, c, fr, ff, tr, tf)
}

impl CastlingRights {
    /// Whether side `c` may still castle on the given wing.
    pub fn allows(&self, c: Color, kingside: bool) -> (a: bool)
        ensures
            a == has_right(*self, c, kingside),
    {
        match (c, kingside) {
            (Color::White, true) => self.white_kingside,
            (Color::White, false) => self.white_queenside,
            (Color::Black, true) => self.black_kingside,
            (Color::Black, false) => self.black_queenside,
        }
    }
}

fn is_empty_square(board: &Board, r: usize, f: usize) -> (e: bool)
    requires
        on_board(r as int, f as int),
    ensures
        e == (at(board@, r as int, f as int) is None),
{
    board[sq(r, f)].is_none()
}

/// Castling of side `c` on the given wing, with the reason when refused.
fn check_castle(board: &Board, cr: CastlingRights, c: Color, kingside: bool) -> (res: Result<MoveKind, String>)
    ensures
        err_view(res) == castle_rule(board@, cr, c, kingside),
{
    let r: usize = match c {
        Color::White => 0,
        Color::Black => 7,
    };
    let opp = c.opposite();
    let rook_f: usize = if kingside { 7 } else { 0 };
    let pass_f: usize = if kingside { 5 } else { 3 };
    let dest_f: usize = if kingside { 6 } else { 2 };
    let rook_home = match board[sq(r, rook_f)] {
        Some(q) => q.color == c && q.piece_type == PieceType::Rook,
        None => false,
    };
    if !cr.allows(c, kingside) || !rook_home {
        return Err(err_castling_not_allowed());
    }
    let empty = if kingside {
        is_empty_square(board, r, 5) && is_empty_square(board, r, 6)
    } else {
        is_empty_square(board, r, 1) && is_empty_square(board, r, 2) && is_empty_square(board, r, 3)
    };
    if !empty {
        return Err(err_path_blocked());
    }
    if is_square_attacked(board, r, 4, opp) || is_square_attacked(board, r, pass_f, opp)
        || is_square_attacked(board, r, dest_f, opp) {
        return Err(err_castling_attacked());
    }
    if kingside {
        Ok(MoveKind::CastleKingside)
    } else {
        Ok(MoveKind::CastleQueenside)
    }
}

/// How a pawn of side `c` may go from the origin to the target.
fn validate_pawn(board: &Board, ep: Option<usize>, c: Color, fr: usize, ff: usize, tr: usize, tf: usize) -> (res: Result<MoveKind, String>)
    requires
        on_board(fr as int, ff as int),
        on_board(tr as int, tf as int),
    ensures
        err_view(res) == pawn_rule(board@, ep, c, fr as int, ff as int, tr as int, tf as int),
{
    let dir: i32 = match c {
        Color::White => 1,
        Color::Black => -1,
    };
    let start_rank: usize = match c {
        Color::White => 1,
        Color::Black => 6,
    };
    let dr = tr as i32 - fr as i32;
    let df = tf as i32 - ff as i32;
    if df == 0 {
        if board[sq(tr, tf)].is_some() {
            return Err(err_pawn_forward_capture());
        }
        if dr == dir {
            return Ok(MoveKind::Normal);
        }
        if dr == 2 * dir && fr == start_rank {
            let mid = (fr as i32 + dir) as usize;
            if board[sq(mid, ff)].is_none() {
                return Ok(MoveKind::DoublePush);
            }
            return Err(err_path_blocked());
        }
        return Err(err_invalid_pawn());
    }
    if (df == 1 || df == -1) && dr == dir {
        if board[sq(tr, tf)].is_some() {
            return Ok(MoveKind::Normal);
        }
        let passed = match board[sq(fr, tf)] {
            Some(q) => q.color == c.opposite() && q.piece_type == PieceType::Pawn,
            None => false,
        };
        if ep == Some(sq(tr, tf)) && passed {
            return Ok(MoveKind::EnPassant);
        }
        return Err(err_pawn_needs_enemy());
    }
    Err(err_invalid_pawn())
}

/// How piece `p` may go from the origin to the target by its kind alone,
/// with the reason when it may not.
pub fn validate_piece_move(board: &Board, cr: CastlingRights, ep: Option<usize>, p: Piece, fr: usize, ff: usize, tr: usize, tf: usize) -> (res: Result<MoveKind, String>)
    requires
        on_board(fr as int, ff as int),
        on_board(tr as int, tf as int),
    ensures
        err_view(res) == piece_rule(board@, cr, ep, p, fr as int, ff as int, tr as int, tf as int),
{
    let dr = tr as i32 - fr as i32;
    let df = tf as i32 - ff as i32;
    let adr: i32 = if dr < 0 { -dr } else { dr };
    let adf: i32 = if df < 0 { -df } else { df };
    match p.piece_type {
        PieceType::Pawn => validate_pawn(board, ep, p.color, fr, ff, tr, tf),
        PieceType::Knight => {
            if (adr == 1 && adf == 2) || (adr == 2 && adf == 1) {
                Ok(MoveKind::Normal)
            } else {
                Err(err_invalid_knight())
            }
        },
        PieceType::Bishop => {
            if adr == adf && dr != 0 {
                if check_path_clear(board, fr, ff, tr, tf) { Ok(MoveKind::Normal) } else { Err(err_path_blocked()) }
            } else {
                Err(err_invalid_bishop())
            }
        },
        PieceType::Rook => {
            if (dr == 0) != (df == 0) {
                if check_path_clear(board, fr, ff, tr, tf) { Ok(MoveKind::Normal) } else { Err(err_path_blocked()) }
            } else {
                Err(err_invalid_rook())
            }
        },
        PieceType::Queen => {
            if (dr == 0 || df == 0 || adr == adf) && (dr != 0 || df != 0) {
                if check_path_clear(board, fr, ff, tr, tf) { Ok(MoveKind::Normal) } else { Err(err_path_blocked()) }
            } else {
                Err(err_invalid_queen())
            }
        },
        PieceType::King => {
            if adr <= 1 && adf <= 1 && (dr != 0 || df != 0) {
                Ok(MoveKind::Normal)
            } else if dr == 0 && adf == 2 && fr == (match p.color { Color::White => 0usize, Color::Black => 7usize }) && ff == 4 {
                check_castle(board, cr, p.color, df > 0)
            } else {
                Err(err_invalid_king())
            }
        },
    }
}

/// The board after piece `p` makes a move of kind `k`; a pawn that reaches
/// the last rank becomes `promo`.
pub fn apply_move(board: &Board, k: MoveKind, p: Piece, fr: usize, ff: usize, tr: usize, tf: usize, promo: PieceType) -> (nb: Board)
    requires
        on_board(fr as int, ff as int),
        on_board(tr as int, tf as int),
    ensures
        nb@ == apply_spec(board@, k, p, fr as int, ff as int, tr as int, tf as int, promo),
{
    let mut nb: Board = *board;
    nb[sq(tr, tf)] = Some(p);
    nb[sq(fr, ff)] = None;
    match k {
        MoveKind::EnPassant => {
            nb[sq(fr, tf)] = None;
        },
        MoveKind::CastleKingside => {
            nb[sq(fr, 5)] = board[sq(fr, 7)];
            nb[sq(fr, 7)] = None;
        },
        MoveKind::CastleQueenside => {
            nb[sq(fr, 3)] = board[sq(fr, 0)];
            nb[sq(fr, 0)] = None;
        },
        _ => {},
    }
    if p.piece_type == PieceType::Pawn && (tr == 0 || tr == 7) {
        nb[sq(tr, tf)] = Some(Piece { color: p.color, piece_type: promo });
    }
    assert(nb@ =~= apply_spec(board@, k, p, fr as int, ff as int, tr as int, tf as int, promo));
    nb
}

/// Whether piece `p` may go from the origin to the target, with the reason
/// when it may not.
pub fn check_move(board: &Board, cr: CastlingRights, ep: Option<usize>, p: Piece, fr: usize, ff: usize, tr: usize, tf: usize) -> (res: Result<MoveKind, String>)
    requires
        on_board(fr as int, ff as int),
        on_board(tr as int, tf as int),
    ensures
        err_view(res) == move_rule(board@, cr, ep, p, fr as int, ff as int, tr as int, tf as int),
{
    let own = match board[sq(tr, tf)] {
        Some(t) => t.color == p.color,
        None => false,
    };
    if own {
        return Err(err_own_capture());
    }
    match validate_piece_move(board, cr, ep, p, fr, ff, tr, tf) {
        Err(e) => Err(e),
        Ok(k) => {
            let after = apply_move(board, k, p, fr, ff, tr, tf, PieceType::Queen);
            if is_in_check(&after, p.color) {
                Err(err_king_in_check())
            } else {
                Ok(k)
            }
        },
    }
}

/// Whether the piece on the origin may legally go to the target.
pub fn is_legal_move(board: &Board, cr: CastlingRights, ep: Option<usize>, fr: usize, ff: usize, tr: usize, tf: usize) -> (l: bool)
    requires
        on_board(fr as int, ff as int),
        on_board(tr as int, tf as int),
    ensures
        l == legal_move(board@, cr, ep, fr as int, ff as int, tr as int, tf as int),
{
    if fr == tr && ff == tf {
        return false;
    }
    match board[sq(fr, ff)] {
        None => false,
        Some(p) => check_move(board, cr, ep, p, fr, ff, tr, tf).is_ok(),
    }
}

/// Whether side `c` has a legal move from rank `fr`, file `ff`.
fn has_legal_move_from(board: &Board, cr: CastlingRights, ep: Option<usize>, c: Color, fr: usize, ff: usize) -> (found: bool)
    requires
        on_board(fr as int, ff as int),
    ensures
        found == exists|tr: int, tf: int| #[trigger] legal_move_of(board@, cr, ep, c, fr as int, ff as int, tr, tf),
{
    let own = match board[sq(fr, ff)] {
        Some(p) => p.color == c,
        None => false,
    };
    if !own {
        assert forall|tr: int, tf: int| !#[trigger] legal_move_of(board@, cr, ep, c, fr as int, ff as int, tr, tf) by {}
        return false;
    }
    let mut tr: usize = 0;
    while tr < 8
        invariant
            on_board(fr as int, ff as int),
            at(board@, fr as int, ff as int) matches Some(p) && p.color == c,
            tr <= 8,
            forall|r2: int, f2: int| r2 < tr ==> !#[trigger] legal_move_of(board@, cr, ep, c, fr as int, ff as int, r2, f2),
        decreases 8 - tr,
    {
        let mut tf: usize = 0;
        while tf < 8
            invariant
                on_board(fr as int, ff as int),
                at(board@, fr as int, ff as int) matches Some(p) && p.color == c,
                tr < 8,
                tf <= 8,
                forall|r2: int, f2: int| r2 < tr ==> !#[trigger] legal_move_of(board@, cr, ep, c, fr as int, ff as int, r2, f2),
                forall|f2: int| f2 < tf ==> !#[trigger] legal_move_of(board@, cr, ep, c, fr as int, ff as int, tr as int, f2),
            decreases 8 - tf,
        {
            if is_legal_move(board, cr, ep, fr, ff, tr, tf) {
                assert(legal_move_of(board@, cr, ep, c, fr as int, ff as int, tr as int, tf as int));
                return true;
            }
            tf = tf + 1;
        }
        tr = tr + 1;
    }
    false
}

/// Whether side `c` has any legal move.
pub fn side_has_legal_move(board: &Board, cr: CastlingRights, ep: Option<usize>, c: Color) -> (found: bool)
    ensures
        found == has_legal_move(board@, cr, ep, c),
{
    let mut fr: usize = 0;
    while fr < 8
        invariant
            fr <= 8,
            forall|r1: int, f1: int, r2: int, f2: int| r1 < fr ==> !#[trigger] legal_move_of(board@, cr, ep, c, r1, f1, r2, f2),
        decreases 8 - fr,
    {
        let mut ff: usize = 0;
        while ff < 8
            invariant
                fr < 8,
                ff <= 8,
                forall|r1: int, f1: int, r2: int, f2: int| r1 < fr ==> !#[trigger] legal_move_of(board@, cr, ep, c, r1, f1, r2, f2),
                forall|f1: int, r2: int, f2: int| f1 < ff ==> !#[trigger] legal_move_of(board@, cr, ep, c, fr as int, f1, r2, f2),
            decreases 8 - ff,
        {
            if has_legal_move_from(board, cr, ep, c, fr, ff) {
                return true;
            }
            ff = ff + 1;
        }
        fr = fr + 1;
    }
    false
}

} // verus!
