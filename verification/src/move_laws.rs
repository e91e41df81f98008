use vstd::prelude::*;
use crate::types::{Color, PieceType, Piece, opposite_spec};
use crate::board::{at, abs, attacks, path_clear, square_attacked, in_check};
use crate::rules::{CastlingRights, MoveKind, has_right, piece_rule, move_rule};
use crate::board::on_board;
use crate::game::{GameState, square_move_outcome, promotion_piece, saturating_inc};

verus! {

/// By its kind alone, a knight may jump exactly one rank and two files, or
/// two ranks and one file, whatever stands on the board.
pub proof fn knight_jumps(b: Seq<Option<Piece>>, cr: CastlingRights, ep: Option<usize>, p: Piece, fr: int, ff: int, tr: int, tf: int)
    requires
        p.piece_type == PieceType::Knight,
    ensures
        piece_rule(b, cr, ep, p, fr, ff, tr, tf) is Ok
            <==> ((tr - fr == 1 || fr - tr == 1) && (tf - ff == 2 || ff - tf == 2))
                || ((tr - fr == 2 || fr - tr == 2) && (tf - ff == 1 || ff - tf == 1)),
{
}

/// By its kind alone, a king may step to any of the eight neighbouring
/// squares; apart from castling (two files along its home rank from the
/// e-file) it may go nowhere else.
pub proof fn king_steps(b: Seq<Option<Piece>>, cr: CastlingRights, ep: Option<usize>, p: Piece, fr: int, ff: int, tr: int, tf: int)
    requires
        p.piece_type == PieceType::King,
        !(tr == fr && (tf - ff == 2 || ff - tf == 2)),
    ensures
        piece_rule(b, cr, ep, p, fr, ff, tr, tf) is Ok
            <==> (-1 <= tr - fr <= 1 && -1 <= tf - ff <= 1 && (tr != fr || tf != ff)),
{
}

/// By its kind alone, a rook goes along a rank or a file, a bishop along a
/// diagonal, a queen along either, each by at least one square and only over
/// empty squares.
pub proof fn sliders_move_along_clear_lines(b: Seq<Option<Piece>>, cr: CastlingRights, ep: Option<usize>, p: Piece, fr: int, ff: int, tr: int, tf: int)
    ensures
        p.piece_type == PieceType::Rook ==> (piece_rule(b, cr, ep, p, fr, ff, tr, tf) is Ok
            <==> ((tr == fr) != (tf == ff)) && path_clear(b, fr, ff, tr, tf)),
        p.piece_type == PieceType::Bishop ==> (piece_rule(b, cr, ep, p, fr, ff, tr, tf) is Ok
            <==> (tr != fr && (tr - fr == tf - ff || tr - fr == ff - tf)) && path_clear(b, fr, ff, tr, tf)),
        p.piece_type == PieceType::Queen ==> (piece_rule(b, cr, ep, p, fr, ff, tr, tf) is Ok
            <==> (tr != fr || tf != ff) && (tr == fr || tf == ff || tr - fr == tf - ff || tr - fr == ff - tf)
                && path_clear(b, fr, ff, tr, tf)),
{
}

/// Every piece but a pawn moves, by its kind, exactly as it attacks (castling
/// apart): the same squares count for moving and for giving check.
pub proof fn pieces_move_as_they_attack(b: Seq<Option<Piece>>, cr: CastlingRights, ep: Option<usize>, p: Piece, fr: int, ff: int, tr: int, tf: int)
    requires
        p.piece_type != PieceType::Pawn,
        !(p.piece_type == PieceType::King && tr == fr && abs(tf - ff) == 2),
    ensures
        piece_rule(b, cr, ep, p, fr, ff, tr, tf) is Ok <==> attacks(b, p, fr, ff, tr, tf),
{
}

/// By its kind alone, a pawn goes one square forward to an empty square; two
/// squares forward from its starting rank over two empty squares; or one
/// square diagonally forward onto an occupied square, or onto the square an
/// enemy pawn has just skipped (en passant), that pawn standing beside it.
pub proof fn pawn_moves(b: Seq<Option<Piece>>, cr: CastlingRights, ep: Option<usize>, p: Piece, fr: int, ff: int, tr: int, tf: int)
    requires
        p.piece_type == PieceType::Pawn,
    ensures
        ({
            let dir: int = if p.color == Color::White { 1 } else { -1 };
            let start: int = if p.color == Color::White { 1 } else { 6 };
            piece_rule(b, cr, ep, p, fr, ff, tr, tf) is Ok <==> {
                ||| tf == ff && at(b, tr, tf) is None && tr == fr + dir
                ||| tf == ff && at(b, tr, tf) is None && tr == fr + 2 * dir && fr == start && at(b, fr + dir, ff) is None
                ||| (tf == ff + 1 || tf == ff - 1) && tr == fr + dir && at(b, tr, tf) is Some
                ||| (tf == ff + 1 || tf == ff - 1) && tr == fr + dir && at(b, tr, tf) is None
                    && ep == Some((tr * 8 + tf) as usize)
                    && at(b, fr, tf) == Some(Piece { color: opposite_spec(p.color), piece_type: PieceType::Pawn })
            }
        }),
{
}

/// A king moving two files along its home rank (castling) is accepted by
/// its kind exactly when it stands on the e-file of its home rank, the right
/// to castle on that wing remains, its rook stands in that corner, the
/// squares between king and rook are empty, and the king neither stands on,
/// passes over nor lands on a square the opponent attacks. In particular a
/// king in check may not castle.
pub proof fn castling_needs_safe_squares(b: Seq<Option<Piece>>, cr: CastlingRights, ep: Option<usize>, p: Piece, fr: int, ff: int, tr: int, tf: int)
    requires
        p.piece_type == PieceType::King,
        tr == fr,
        tf - ff == 2 || ff - tf == 2,
    ensures
        ({
            let home: int = if p.color == Color::White { 0 } else { 7 };
            let kingside = tf > ff;
            let rook_f: int = if kingside { 7 } else { 0 };
            let opp = opposite_spec(p.color);
            &&& piece_rule(b, cr, ep, p, fr, ff, tr, tf) is Ok <==> {
                &&& fr == home
                &&& ff == 4
                &&& (if p.color == Color::White {
                    if kingside { cr.white_kingside } else { cr.white_queenside }
                } else {
                    if kingside { cr.black_kingside } else { cr.black_queenside }
                })
                &&& at(b, fr, rook_f) == Some(Piece { color: p.color, piece_type: PieceType::Rook })
                &&& forall|f: int| (if kingside { 4 < f < 7 } else { 0 < f < 4 }) ==> #[trigger] at(b, fr, f) is None
                &&& !square_attacked(b, fr, 4, opp)
                &&& !square_attacked(b, fr, (ff + tf) / 2, opp)
                &&& !square_attacked(b, fr, tf, opp)
            }
            &&& move_rule(b, cr, ep, p, fr, ff, tr, tf) is Ok ==> piece_rule(b, cr, ep, p, fr, ff, tr, tf) is Ok
            &&& square_attacked(b, fr, ff, opp) ==> move_rule(b, cr, ep, p, fr, ff, tr, tf) is Err
        }),
{
    let kingside = tf > ff;
    if piece_rule(b, cr, ep, p, fr, ff, tr, tf) is Ok {
        assert forall|f: int| (if kingside { 4 < f < 7 } else { 0 < f < 4 }) implies #[trigger] at(b, fr, f) is None by {
            if kingside {
                assert(f == 5 || f == 6);
            } else {
                assert(f == 1 || f == 2 || f == 3);
            }
        }
    }
}

/// A move never takes a piece of the mover's own side.
pub proof fn no_capture_of_own_pieces(b: Seq<Option<Piece>>, cr: CastlingRights, ep: Option<usize>, p: Piece, fr: int, ff: int, tr: int, tf: int)
    requires
        move_rule(b, cr, ep, p, fr, ff, tr, tf) is Ok,
    ensures
        !(at(b, tr, tf) matches Some(t) && t.color == p.color),
{
}

/// A pawn attacks exactly the two squares diagonally in front of it.
pub proof fn pawns_attack_diagonally_forward(b: Seq<Option<Piece>>, p: Piece, fr: int, ff: int, tr: int, tf: int)
    requires
        p.piece_type == PieceType::Pawn,
    ensures
        attacks(b, p, fr, ff, tr, tf) <==> (tr == fr + (if p.color == Color::White { 1int } else { -1int })
            && (tf == ff + 1 || tf == ff - 1)),
{
}

/// What an accepted move does: the origin is emptied and the moving piece
/// stands on the target (a pawn reaching the last rank as the chosen piece,
/// a queen by default); a pawn taking diagonally onto an empty square takes
/// en passant the pawn beside it; a king going two files brings its rook over
/// to the square it passed; every other square keeps what it held. The en
/// passant square is the one a pawn has just skipped and is cleared by any
/// other move; the halfmove clock restarts on a pawn move or a capture and
/// otherwise counts up; the fullmove number counts up after black's move; a
/// king move gives up both of its side's castlings and a move from or to a
/// corner gives up the castling with that corner.
pub proof fn accepted_move_effect(g: GameState, fr: int, ff: int, tr: int, tf: int, promo: Option<PieceType>)
    requires
        g.board.len() == 64,
        on_board(fr, ff),
        on_board(tr, tf),
        square_move_outcome(g, fr, ff, tr, tf, promo) is Ok,
    ensures
        ({
            let s = square_move_outcome(g, fr, ff, tr, tf, promo)->Ok_0;
            let b = g.board;
            let p = at(b, fr, ff)->Some_0;
            let promotes = p.piece_type == PieceType::Pawn && (tr == 0 || tr == 7);
            let en_passant = p.piece_type == PieceType::Pawn && tf != ff && at(b, tr, tf) is None;
            let castles = p.piece_type == PieceType::King && (tf == ff + 2 || tf == ff - 2);
            &&& s.board.len() == 64
            &&& at(s.board, fr, ff) is None
            &&& promotes ==> at(s.board, tr, tf) == Some(Piece { color: p.color, piece_type: promotion_piece(promo) })
            &&& !promotes ==> at(s.board, tr, tf) == Some(p)
            &&& en_passant ==> at(s.board, fr, tf) is None && g.en_passant == Some((tr * 8 + tf) as usize)
                && at(b, fr, tf) == Some(Piece { color: opposite_spec(p.color), piece_type: PieceType::Pawn })
            &&& castles && tf == ff + 2 ==> tr == fr && at(s.board, fr, 5) == Some(Piece { color: p.color, piece_type: PieceType::Rook })
                && at(s.board, fr, 7) is None
            &&& castles && tf == ff - 2 ==> tr == fr && at(s.board, fr, 3) == Some(Piece { color: p.color, piece_type: PieceType::Rook })
                && at(s.board, fr, 0) is None
            &&& forall|r: int, f: int| on_board(r, f)
                && !(r == fr && f == ff) && !(r == tr && f == tf)
                && !(en_passant && r == fr && f == tf)
                && !(castles && r == fr && (f == 0 || f == 3 || f == 5 || f == 7))
                ==> #[trigger] at(s.board, r, f) == at(b, r, f)
            &&& s.en_passant == (if p.piece_type == PieceType::Pawn && (tr == fr + 2 || tr == fr - 2) {
                    Some(((fr + tr) / 2 * 8 + ff) as usize)
                } else {
                    None
                })
            &&& s.halfmove_clock == (if p.piece_type == PieceType::Pawn || at(b, tr, tf) is Some { 0 } else { saturating_inc(g.halfmove_clock) })
            &&& s.fullmove_number == (if p.color == Color::Black { saturating_inc(g.fullmove_number) } else { g.fullmove_number })
            &&& p.piece_type == PieceType::King ==> !has_right(s.castling, p.color, true) && !has_right(s.castling, p.color, false)
            &&& (fr * 8 + ff == 0 || tr * 8 + tf == 0) ==> !s.castling.white_queenside
            &&& (fr * 8 + ff == 7 || tr * 8 + tf == 7) ==> !s.castling.white_kingside
            &&& (fr * 8 + ff == 56 || tr * 8 + tf == 56) ==> !s.castling.black_queenside
            &&& (fr * 8 + ff == 63 || tr * 8 + tf == 63) ==> !s.castling.black_kingside
        }),
{
    let b = g.board;
    let p = at(b, fr, ff)->Some_0;
    let s = square_move_outcome(g, fr, ff, tr, tf, promo)->Ok_0;
    assert forall|r: int, f: int| on_board(r, f)
        && !(r == fr && f == ff) && !(r == tr && f == tf)
        && !(p.piece_type == PieceType::Pawn && tf != ff && at(b, tr, tf) is None && r == fr && f == tf)
        && !(p.piece_type == PieceType::King && (tf == ff + 2 || tf == ff - 2) && r == fr && (f == 0 || f == 3 || f == 5 || f == 7))
        implies #[trigger] at(s.board, r, f) == at(b, r, f) by {
        assert(r * 8 + f != fr * 8 + ff);
        assert(r * 8 + f != tr * 8 + tf);
    }
}

/// The squares a rook, bishop or queen passes over: along a rank, the files
/// strictly between; along a file, the ranks strictly between; along a
/// diagonal, the squares strictly between. The path is clear exactly when
/// all of them are empty.
pub proof fn clear_path_means_empty_squares_between(b: Seq<Option<Piece>>, fr: int, ff: int, tr: int, tf: int)
    ensures
        tr == fr && tf != ff ==> (path_clear(b, fr, ff, tr, tf)
            <==> forall|f: int| (ff < f < tf || tf < f < ff) ==> #[trigger] at(b, fr, f) is None),
        tf == ff && tr != fr ==> (path_clear(b, fr, ff, tr, tf)
            <==> forall|r: int| (fr < r < tr || tr < r < fr) ==> #[trigger] at(b, r, ff) is None),
        tr - fr == tf - ff && tr > fr ==> (path_clear(b, fr, ff, tr, tf)
            <==> forall|k: int| 0 < k < tr - fr ==> #[trigger] at(b, fr + k, ff + k) is None),
        tr - fr == tf - ff && tr < fr ==> (path_clear(b, fr, ff, tr, tf)
            <==> forall|k: int| 0 < k < fr - tr ==> #[trigger] at(b, fr - k, ff - k) is None),
        tr - fr == ff - tf && tr > fr ==> (path_clear(b, fr, ff, tr, tf)
            <==> forall|k: int| 0 < k < tr - fr ==> #[trigger] at(b, fr + k, ff - k) is None),
        tr - fr == ff - tf && tr < fr ==> (path_clear(b, fr, ff, tr, tf)
            <==> forall|k: int| 0 < k < fr - tr ==> #[trigger] at(b, fr - k, ff + k) is None),
{
    if tr == fr && tf != ff {
        if path_clear(b, fr, ff, tr, tf) {
            assert forall|f: int| (ff < f < tf || tf < f < ff) implies #[trigger] at(b, fr, f) is None by {
                let k = if tf > ff { f - ff } else { ff - f };
                assert(crate::board::ray_square(b, fr, ff, tr, tf, k) is None);
            }
        }
        if forall|f: int| (ff < f < tf || tf < f < ff) ==> #[trigger] at(b, fr, f) is None {
            assert forall|k: int| 0 < k < crate::board::distance(fr, ff, tr, tf)
                implies (#[trigger] crate::board::ray_square(b, fr, ff, tr, tf, k)) is None by {
                let f = if tf > ff { ff + k } else { ff - k };
                assert(at(b, fr, f) is None);
            }
        }
    }
    if tf == ff && tr != fr {
        if path_clear(b, fr, ff, tr, tf) {
            assert forall|r: int| (fr < r < tr || tr < r < fr) implies #[trigger] at(b, r, ff) is None by {
                let k = if tr > fr { r - fr } else { fr - r };
                assert(crate::board::ray_square(b, fr, ff, tr, tf, k) is None);
            }
        }
        if forall|r: int| (fr < r < tr || tr < r < fr) ==> #[trigger] at(b, r, ff) is None {
            assert forall|k: int| 0 < k < crate::board::distance(fr, ff, tr, tf)
                implies (#[trigger] crate::board::ray_square(b, fr, ff, tr, tf, k)) is None by {
                let r = if tr > fr { fr + k } else { fr - k };
                assert(at(b, r, ff) is None);
            }
        }
    }
    if tr - fr == tf - ff && tr > fr {
        if path_clear(b, fr, ff, tr, tf) {
            assert forall|k: int| 0 < k < tr - fr implies #[trigger] at(b, fr + k, ff + k) is None by {
                assert(crate::board::ray_square(b, fr, ff, tr, tf, k) is None);
            }
        }
        if forall|k: int| 0 < k < tr - fr ==> #[trigger] at(b, fr + k, ff + k) is None {
            assert forall|k: int| 0 < k < crate::board::distance(fr, ff, tr, tf)
                implies (#[trigger] crate::board::ray_square(b, fr, ff, tr, tf, k)) is None by {
                assert(at(b, fr + k, ff + k) is None);
            }
        }
    }
    if tr - fr == tf - ff && tr < fr {
        if path_clear(b, fr, ff, tr, tf) {
            assert forall|k: int| 0 < k < fr - tr implies #[trigger] at(b, fr - k, ff - k) is None by {
                assert(crate::board::ray_square(b, fr, ff, tr, tf, k) is None);
            }
        }
        if forall|k: int| 0 < k < fr - tr ==> #[trigger] at(b, fr - k, ff - k) is None {
            assert forall|k: int| 0 < k < crate::board::distance(fr, ff, tr, tf)
                implies (#[trigger] crate::board::ray_square(b, fr, ff, tr, tf, k)) is None by {
                assert(at(b, fr - k, ff - k) is None);
            }
        }
    }
    if tr - fr == ff - tf && tr > fr {
        if path_clear(b, fr, ff, tr, tf) {
            assert forall|k: int| 0 < k < tr - fr implies #[trigger] at(b, fr + k, ff - k) is None by {
                assert(crate::board::ray_square(b, fr, ff, tr, tf, k) is None);
            }
        }
        if forall|k: int| 0 < k < tr - fr ==> #[trigger] at(b, fr + k, ff - k) is None {
            assert forall|k: int| 0 < k < crate::board::distance(fr, ff, tr, tf)
                implies (#[trigger] crate::board::ray_square(b, fr, ff, tr, tf, k)) is None by {
                assert(at(b, fr + k, ff - k) is None);
            }
        }
    }
    if tr - fr == ff - tf && tr < fr {
        if path_clear(b, fr, ff, tr, tf) {
            assert forall|k: int| 0 < k < fr - tr implies #[trigger] at(b, fr - k, ff + k) is None by {
                assert(crate::board::ray_square(b, fr, ff, tr, tf, k) is None);
            }
        }
        if forall|k: int| 0 < k < fr - tr ==> #[trigger] at(b, fr - k, ff + k) is None {
            assert forall|k: int| 0 < k < crate::board::distance(fr, ff, tr, tf)
                implies (#[trigger] crate::board::ray_square(b, fr, ff, tr, tf, k)) is None by {
                assert(at(b, fr - k, ff + k) is None);
            }
        }
    }
}

/// A side is in check exactly when one of its kings stands on a square that
/// a piece of the other side attacks.
pub proof fn check_means_attacked_king(b: Seq<Option<Piece>>, c: Color, r: int, f: int, ar: int, af: int)
    requires
        on_board(r, f),
        on_board(ar, af),
        at(b, r, f) == Some(Piece { color: c, piece_type: PieceType::King }),
        at(b, ar, af) matches Some(q) && q.color != c && attacks(b, q, ar, af, r, f),
    ensures
        in_check(b, c),
{
    assert(crate::board::attacks_from(b, ar, af, r, f, opposite_spec(c)));
    assert(crate::board::king_attacked_at(b, r, f, c));
}

/// Without a king attacked by the other side, a side is not in check.
pub proof fn no_attacked_king_no_check(b: Seq<Option<Piece>>, c: Color)
    requires
        forall|r: int, f: int, ar: int, af: int| on_board(r, f) && on_board(ar, af)
            && #[trigger] at(b, r, f) == Some(Piece { color: c, piece_type: PieceType::King })
            && (#[trigger] at(b, ar, af)) is Some && at(b, ar, af)->Some_0.color != c
            ==> !attacks(b, at(b, ar, af)->Some_0, ar, af, r, f),
    ensures
        !in_check(b, c),
{
    if in_check(b, c) {
        let (r, f) = choose|r: int, f: int| on_board(r, f) && #[trigger] crate::board::king_attacked_at(b, r, f, c);
        let (ar, af) = choose|ar: int, af: int| on_board(ar, af) && #[trigger] crate::board::attacks_from(b, ar, af, r, f, opposite_spec(c));
        let q = at(b, ar, af)->Some_0;
        assert(attacks(b, q, ar, af, r, f));
    }
}

} // verus!
