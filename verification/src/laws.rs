use vstd::prelude::*;
use crate::types::{Color, PieceType, Piece, opposite_spec};
use crate::board::{
    on_board, at, attacks, attacks_from, path_clear, ray_square, square_attacked, king_attacked_at, in_check,
};
use crate::rules::{CastlingRights, MoveKind, has_right, legal_move, move_rule, apply_spec, has_legal_move};
use crate::square::{square_name_spec, square_spec, parse_square_spec, file_char, rank_char};
use crate::text::{is_white_space, trim_spec, trim_start_spec, trim_end_spec, ascii_lowercase, to_lowercase_spec};
use crate::game::{
    GameState, is_initial_state, initial_piece, captured_by, targets_in_rank, targets_below_rank, legal_targets, square_move_outcome,
    move_outcome, rights_after, promotion_allowed,
};
use crate::messages::msg_game_over;
use crate::uci::negate;

verus! {

/// Distinct squares have distinct names.
pub proof fn square_names_distinct(r1: int, f1: int, r2: int, f2: int)
    requires
        on_board(r1, f1),
        on_board(r2, f2),
        square_name_spec(r1, f1) == square_name_spec(r2, f2),
    ensures
        r1 == r2,
        f1 == f2,
{
    assert(square_name_spec(r1, f1)[0] == square_name_spec(r2, f2)[0]);
    assert(square_name_spec(r1, f1)[1] == square_name_spec(r2, f2)[1]);
    assert(file_char(f1) as int == 'a' as int + f1);
    assert(file_char(f2) as int == 'a' as int + f2);
    assert(rank_char(r1) as int == '1' as int + r1);
    assert(rank_char(r2) as int == '1' as int + r2);
}

/// Reading back the name of a square gives the square.
pub proof fn square_name_round_trip(r: int, f: int)
    requires
        on_board(r, f),
    ensures
        square_spec(square_name_spec(r, f)) == Ok::<(usize, usize), Seq<char>>((r as usize, f as usize)),
{
    assert(file_char(f) as int == 'a' as int + f);
    assert(rank_char(r) as int == '1' as int + r);
}

proof fn targets_in_rank_contains(g: GameState, fr: int, ff: int, r: int, n: int, tr: int, tf: int)
    requires
        0 <= n <= 8,
        0 <= r < 8,
        on_board(tr, tf),
    ensures
        targets_in_rank(g, fr, ff, r, n).contains(square_name_spec(tr, tf))
            <==> (tr == r && tf < n && legal_move(g.board, g.castling, g.en_passant, fr, ff, tr, tf)),
    decreases n,
{
    if n > 0 {
        targets_in_rank_contains(g, fr, ff, r, n - 1, tr, tf);
        let before = targets_in_rank(g, fr, ff, r, n - 1);
        if legal_move(g.board, g.castling, g.en_passant, fr, ff, r, n - 1) {
            let after = before.push(square_name_spec(r, n - 1));
            if after.contains(square_name_spec(tr, tf)) {
                let i = choose|i: int| 0 <= i < after.len() && after[i] == square_name_spec(tr, tf);
                if i == before.len() {
                    square_names_distinct(tr, tf, r, n - 1);
                } else {
                    assert(before[i] == after[i]);
                }
            }
            if tr == r && tf < n && legal_move(g.board, g.castling, g.en_passant, fr, ff, tr, tf) {
                if tf == n - 1 {
                    assert(after[before.len() as int] == square_name_spec(tr, tf));
                } else {
                    let j = choose|j: int| 0 <= j < before.len() && before[j] == square_name_spec(tr, tf);
                    assert(after[j] == square_name_spec(tr, tf));
                }
            }
        }
    }
}

proof fn targets_below_rank_contains(g: GameState, fr: int, ff: int, n: int, tr: int, tf: int)
    requires
        0 <= n <= 8,
        on_board(tr, tf),
    ensures
        targets_below_rank(g, fr, ff, n).contains(square_name_spec(tr, tf))
            <==> (tr < n && legal_move(g.board, g.castling, g.en_passant, fr, ff, tr, tf)),
    decreases n,
{
    if n > 0 {
        targets_below_rank_contains(g, fr, ff, n - 1, tr, tf);
        targets_in_rank_contains(g, fr, ff, n - 1, 8, tr, tf);
        let a = targets_below_rank(g, fr, ff, n - 1);
        let b = targets_in_rank(g, fr, ff, n - 1, 8);
        let x = square_name_spec(tr, tf);
        if (a + b).contains(x) {
            let i = choose|i: int| 0 <= i < (a + b).len() && (a + b)[i] == x;
            if i < a.len() {
                assert(a[i] == x);
            } else {
                assert(b[i - a.len()] == x);
            }
        }
        if a.contains(x) {
            let i = choose|i: int| 0 <= i < a.len() && a[i] == x;
            assert((a + b)[i] == x);
        }
        if b.contains(x) {
            let i = choose|i: int| 0 <= i < b.len() && b[i] == x;
            assert((a + b)[a.len() + i] == x);
        }
    }
}

/// The squares that `legal_moves` lists for a piece of the side to move are
/// exactly those to which `make_move` accepts that piece's move, whatever
/// allowed promotion piece is asked for.
pub proof fn listed_targets_are_accepted_moves(g: GameState, fr: int, ff: int, tr: int, tf: int, promo: Option<PieceType>)
    requires
        on_board(fr, ff),
        on_board(tr, tf),
        at(g.board, fr, ff) matches Some(p) && p.color == g.turn,
        promotion_allowed(promo),
    ensures
        legal_targets(g, fr, ff).contains(square_name_spec(tr, tf))
            <==> square_move_outcome(g, fr, ff, tr, tf, promo) is Ok,
{
    targets_below_rank_contains(g, fr, ff, 8, tr, tf);
}

/// A finished game refuses every move.
pub proof fn finished_game_refuses_moves(g: GameState, from: Seq<char>, to: Seq<char>, promo: Option<PieceType>)
    requires
        g.game_over,
    ensures
        move_outcome(g, from, to, promo) == Err::<GameState, Seq<char>>(msg_game_over()),
{
}

/// Castling rights, once lost, never come back.
pub proof fn castling_rights_only_shrink(cr: CastlingRights, p: Piece, fr: int, ff: int, tr: int, tf: int, c: Color, kingside: bool)
    ensures
        has_right(rights_after(cr, p, fr, ff, tr, tf), c, kingside) ==> has_right(cr, c, kingside),
{
}

/// Two boards that agree on which squares are occupied, and on every piece
/// except pieces of side `c` that are not kings.
pub open spec fn same_for_check(b1: Seq<Option<Piece>>, b2: Seq<Option<Piece>>, c: Color) -> bool {
    &&& b1.len() == 64
    &&& b2.len() == 64
    &&& forall|i: int| 0 <= i < 64 ==> (#[trigger] b1[i] is None) == (b2[i] is None)
    &&& forall|i: int| 0 <= i < 64 && b1[i] != b2[i] ==> (#[trigger] b1[i] matches Some(p)
        && p.color == c && p.piece_type != PieceType::King) && (b2[i] matches Some(q)
        && q.color == c && q.piece_type != PieceType::King)
}

/// Whether side `c` is in check does not depend on which kind of non-king
/// piece of its own stands where.
pub proof fn check_ignores_own_piece_kinds(b1: Seq<Option<Piece>>, b2: Seq<Option<Piece>>, c: Color)
    requires
        same_for_check(b1, b2, c),
    ensures
        in_check(b1, c) == in_check(b2, c),
{
    let opp = opposite_spec(c);
    assert forall|fr: int, ff: int, tr: int, tf: int| on_board(fr, ff) && on_board(tr, tf) && crate::board::is_line(fr, ff, tr, tf)
        implies path_clear(b1, fr, ff, tr, tf) == path_clear(b2, fr, ff, tr, tf) by {
        assert forall|k: int| #![trigger ray_square(b1, fr, ff, tr, tf, k)] #![trigger ray_square(b2, fr, ff, tr, tf, k)]
            0 < k < crate::board::distance(fr, ff, tr, tf)
            implies (ray_square(b1, fr, ff, tr, tf, k) is None) == (ray_square(b2, fr, ff, tr, tf, k) is None) by {
            let r = fr + crate::board::walk(k, crate::board::sgn(tr - fr));
            let f = ff + crate::board::walk(k, crate::board::sgn(tf - ff));
            assert(on_board(r, f));
            assert((b1[r * 8 + f] is None) == (b2[r * 8 + f] is None));
        }
    }
    assert forall|fr: int, ff: int, tr: int, tf: int| on_board(fr, ff) && on_board(tr, tf)
        implies attacks_from(b1, fr, ff, tr, tf, opp) == attacks_from(b2, fr, ff, tr, tf, opp) by {
        let i = fr * 8 + ff;
        if b1[i] != b2[i] {
            assert(b1[i] matches Some(p) && p.color == c);
        } else {
            if let Some(p) = b1[i] {
                if crate::board::is_line(fr, ff, tr, tf) {
                    assert(path_clear(b1, fr, ff, tr, tf) == path_clear(b2, fr, ff, tr, tf));
                }
                assert(attacks(b1, p, fr, ff, tr, tf) == attacks(b2, p, fr, ff, tr, tf));
            }
        }
    }
    assert forall|r: int, f: int| on_board(r, f)
        implies square_attacked(b1, r, f, opp) == square_attacked(b2, r, f, opp) by {
        if square_attacked(b1, r, f, opp) {
            let (fr, ff) = choose|fr: int, ff: int| on_board(fr, ff) && #[trigger] attacks_from(b1, fr, ff, r, f, opp);
            assert(attacks_from(b2, fr, ff, r, f, opp));
        }
        if square_attacked(b2, r, f, opp) {
            let (fr, ff) = choose|fr: int, ff: int| on_board(fr, ff) && #[trigger] attacks_from(b2, fr, ff, r, f, opp);
            assert(attacks_from(b1, fr, ff, r, f, opp));
        }
    }
    assert forall|r: int, f: int| on_board(r, f)
        implies king_attacked_at(b1, r, f, c) == king_attacked_at(b2, r, f, c) by {
        let i = r * 8 + f;
        if b1[i] != b2[i] {
            assert(at(b1, r, f) != Some(Piece { color: c, piece_type: PieceType::King }));
            assert(at(b2, r, f) != Some(Piece { color: c, piece_type: PieceType::King }));
        }
    }
    if in_check(b1, c) {
        let (r, f) = choose|r: int, f: int| on_board(r, f) && #[trigger] king_attacked_at(b1, r, f, c);
        assert(king_attacked_at(b2, r, f, c));
    }
    if in_check(b2, c) {
        let (r, f) = choose|r: int, f: int| on_board(r, f) && #[trigger] king_attacked_at(b2, r, f, c);
        assert(king_attacked_at(b1, r, f, c));
    }
}

/// A move that `make_move` accepts never leaves the mover's own king in
/// check, whichever piece a promoted pawn becomes.
pub proof fn accepted_move_keeps_own_king_safe(g: GameState, fr: int, ff: int, tr: int, tf: int, promo: Option<PieceType>)
    requires
        g.board.len() == 64,
        on_board(fr, ff),
        on_board(tr, tf),
        square_move_outcome(g, fr, ff, tr, tf, promo) is Ok,
    ensures
        !in_check(square_move_outcome(g, fr, ff, tr, tf, promo)->Ok_0.board, g.turn),
{
    let p = at(g.board, fr, ff)->Some_0;
    let k = move_rule(g.board, g.castling, g.en_passant, p, fr, ff, tr, tf)->Ok_0;
    let t = crate::game::promotion_piece(promo);
    let b1 = apply_spec(g.board, k, p, fr, ff, tr, tf, PieceType::Queen);
    let b2 = apply_spec(g.board, k, p, fr, ff, tr, tf, t);
    assert(same_for_check(b1, b2, p.color)) by {
        assert forall|i: int| 0 <= i < 64 && b1[i] != b2[i] implies i == tr * 8 + tf by {}
    }
    check_ignores_own_piece_kinds(b1, b2, p.color);
}

/// Number of occupied squares.
pub open spec fn piece_count(b: Seq<Option<Piece>>) -> nat
    decreases b.len(),
{
    if b.len() == 0 {
        0
    } else {
        piece_count(b.drop_last()) + (if b.last() is Some { 1nat } else { 0nat })
    }
}

pub open spec fn occupied(x: Option<Piece>) -> int {
    if x is Some { 1 } else { 0 }
}

proof fn piece_count_update(b: Seq<Option<Piece>>, i: int, v: Option<Piece>)
    requires
        0 <= i < b.len(),
    ensures
        piece_count(b.update(i, v)) == piece_count(b) - occupied(b[i]) + occupied(v),
    decreases b.len(),
{
    let u = b.update(i, v);
    if i == b.len() - 1 {
        assert(u.drop_last() =~= b.drop_last());
    } else {
        assert(u.drop_last() =~= b.drop_last().update(i, v));
        piece_count_update(b.drop_last(), i, v);
    }
}

/// Pieces are never created or destroyed: those on the board plus those
/// captured stay the same through every accepted move (a promotion replaces
/// a pawn).
pub proof fn accepted_move_conserves_pieces(g: GameState, fr: int, ff: int, tr: int, tf: int, promo: Option<PieceType>)
    requires
        g.board.len() == 64,
        on_board(fr, ff),
        on_board(tr, tf),
        square_move_outcome(g, fr, ff, tr, tf, promo) is Ok,
    ensures
        ({
            let s = square_move_outcome(g, fr, ff, tr, tf, promo)->Ok_0;
            piece_count(s.board) + s.captured_white.len() + s.captured_black.len()
                == piece_count(g.board) + g.captured_white.len() + g.captured_black.len()
        }),
{
    let b = g.board;
    let p = at(b, fr, ff)->Some_0;
    let k = move_rule(b, g.castling, g.en_passant, p, fr, ff, tr, tf)->Ok_0;
    let t = crate::game::promotion_piece(promo);
    let cap = crate::game::captured_by(b, k, fr, ff, tr, tf);
    let from = fr * 8 + ff;
    let to = tr * 8 + tf;
    let b0 = b.update(to, Some(p));
    let b1 = b0.update(from, None);
    piece_count_update(b, to, Some(p));
    piece_count_update(b0, from, None);
    assert(b0[from] == b[from]);
    let b2 = match k {
        MoveKind::EnPassant => b1.update(fr * 8 + tf, None),
        MoveKind::CastleKingside => b1.update(fr * 8 + 5, at(b, fr, 7)).update(fr * 8 + 7, None),
        MoveKind::CastleQueenside => b1.update(fr * 8 + 3, at(b, fr, 0)).update(fr * 8 + 0, None),
        _ => b1,
    };
    match k {
        MoveKind::EnPassant => {
            piece_count_update(b1, fr * 8 + tf, None);
            assert(b1[fr * 8 + tf] == b[fr * 8 + tf]);
            assert(piece_count(b2) + occupied(cap) == piece_count(b));
        },
        MoveKind::CastleKingside => {
            let c1 = b1.update(fr * 8 + 5, at(b, fr, 7));
            piece_count_update(b1, fr * 8 + 5, at(b, fr, 7));
            piece_count_update(c1, fr * 8 + 7, None);
            assert(b1[fr * 8 + 5] == b[fr * 8 + 5]);
            assert(c1[fr * 8 + 7] == b[fr * 8 + 7]);
            assert(piece_count(b2) + occupied(cap) == piece_count(b));
        },
        MoveKind::CastleQueenside => {
            let c1 = b1.update(fr * 8 + 3, at(b, fr, 0));
            piece_count_update(b1, fr * 8 + 3, at(b, fr, 0));
            piece_count_update(c1, fr * 8 + 0, None);
            assert(b1[fr * 8 + 3] == b[fr * 8 + 3]);
            assert(c1[fr * 8 + 0] == b[fr * 8 + 0]);
            assert(piece_count(b2) + occupied(cap) == piece_count(b));
        },
        _ => {
            assert(piece_count(b2) + occupied(cap) == piece_count(b));
        },
    }
    if p.piece_type == PieceType::Pawn && (tr == 0 || tr == 7) {
        piece_count_update(b2, to, Some(Piece { color: p.color, piece_type: t }));
        assert(b2[to] is Some);
    }
    assert(apply_spec(b, k, p, fr, ff, tr, tf, t) == (if p.piece_type == PieceType::Pawn && (tr == 0 || tr == 7) {
        b2.update(to, Some(Piece { color: p.color, piece_type: t }))
    } else {
        b2
    }));
}

proof fn no_targets_in_rank_from_empty_square(g: GameState, fr: int, ff: int, r: int, n: int)
    requires
        at(g.board, fr, ff) is None,
    ensures
        targets_in_rank(g, fr, ff, r, n).len() == 0,
    decreases n,
{
    if n > 0 {
        no_targets_in_rank_from_empty_square(g, fr, ff, r, n - 1);
    }
}

proof fn no_targets_below_rank_from_empty_square(g: GameState, fr: int, ff: int, n: int)
    requires
        at(g.board, fr, ff) is None,
    ensures
        targets_below_rank(g, fr, ff, n).len() == 0,
    decreases n,
{
    if n > 0 {
        no_targets_below_rank_from_empty_square(g, fr, ff, n - 1);
        no_targets_in_rank_from_empty_square(g, fr, ff, n - 1, 8);
    }
}

/// An empty square has no legal moves to list.
pub proof fn empty_square_has_no_targets(g: GameState, fr: int, ff: int)
    requires
        at(g.board, fr, ff) is None,
    ensures
        legal_targets(g, fr, ff) == Seq::<Seq<char>>::empty(),
{
    no_targets_below_rank_from_empty_square(g, fr, ff, 8);
    assert(legal_targets(g, fr, ff) =~= Seq::<Seq<char>>::empty());
}

/// After an accepted move the game ends exactly when the king of the side to
/// reply was taken or that side has no legal move; a side with no legal move
/// loses if in check (checkmate) and otherwise the game ends without winner
/// (stalemate); while the game goes on, the turn passes to that side.
pub proof fn accepted_move_ends_game_exactly_without_reply(g: GameState, fr: int, ff: int, tr: int, tf: int, promo: Option<PieceType>)
    requires
        !g.game_over,
        g.winner is None,
        square_move_outcome(g, fr, ff, tr, tf, promo) is Ok,
    ensures
        ({
            let s = square_move_outcome(g, fr, ff, tr, tf, promo)->Ok_0;
            let opp = opposite_spec(g.turn);
            let king_taken = crate::game::captured_by(g.board,
                move_rule(g.board, g.castling, g.en_passant, at(g.board, fr, ff)->Some_0, fr, ff, tr, tf)->Ok_0,
                fr, ff, tr, tf) matches Some(c) && c.piece_type == PieceType::King;
            let stuck = !has_legal_move(s.board, s.castling, s.en_passant, opp);
            &&& s.game_over == (king_taken || stuck)
            &&& !s.game_over ==> s.turn == opp && s.winner is None
            &&& s.game_over && !king_taken ==> (s.winner == Some(g.turn) <==> in_check(s.board, opp))
            &&& s.game_over && !king_taken && !in_check(s.board, opp) ==> s.winner is None
            &&& king_taken ==> s.winner == Some(g.turn)
        }),
{
}

/// The side that has just moved is not in check.
pub open spec fn mover_not_in_check(s: GameState) -> bool {
    !in_check(s.board, opposite_spec(s.turn))
}

/// In the starting position no king is attacked.
pub proof fn initial_position_has_no_check(s: GameState)
    requires
        is_initial_state(s),
    ensures
        !in_check(s.board, Color::White),
        !in_check(s.board, Color::Black),
        mover_not_in_check(s),
{
    let b = s.board;
    assert forall|r: int, f: int, c: Color| on_board(r, f) implies !#[trigger] king_attacked_at(b, r, f, c) by {
        if at(b, r, f) == Some(Piece { color: c, piece_type: PieceType::King }) {
            assert(at(b, r, f) == initial_piece(r, f));
            assert(f == 4 && (r == 0 || r == 7));
            assert forall|fr: int, ff: int| on_board(fr, ff) implies !#[trigger] attacks_from(b, fr, ff, r, f, opposite_spec(c)) by {
                assert(at(b, fr, ff) == initial_piece(fr, ff));
            }
        }
    }
}

/// While a game goes on, the side that has just moved is not in check: so
/// it holds in every position reached by accepted moves from the start.
pub proof fn accepted_move_leaves_mover_safe(g: GameState, fr: int, ff: int, tr: int, tf: int, promo: Option<PieceType>)
    requires
        g.board.len() == 64,
        on_board(fr, ff),
        on_board(tr, tf),
        square_move_outcome(g, fr, ff, tr, tf, promo) is Ok,
        !square_move_outcome(g, fr, ff, tr, tf, promo)->Ok_0.game_over,
    ensures
        mover_not_in_check(square_move_outcome(g, fr, ff, tr, tf, promo)->Ok_0),
{
    accepted_move_keeps_own_king_safe(g, fr, ff, tr, tf, promo);
}

/// When the side that has just moved is not in check, no accepted move
/// takes a king: kings are never captured in a game played from the start.
pub proof fn kings_are_never_captured(g: GameState, fr: int, ff: int, tr: int, tf: int, promo: Option<PieceType>)
    requires
        g.board.len() == 64,
        on_board(fr, ff),
        on_board(tr, tf),
        mover_not_in_check(g),
        square_move_outcome(g, fr, ff, tr, tf, promo) is Ok,
    ensures
        !(captured_by(g.board,
            move_rule(g.board, g.castling, g.en_passant, at(g.board, fr, ff)->Some_0, fr, ff, tr, tf)->Ok_0,
            fr, ff, tr, tf) matches Some(c) && c.piece_type == PieceType::King),
{
    let b = g.board;
    let p = at(b, fr, ff)->Some_0;
    let k = move_rule(b, g.castling, g.en_passant, p, fr, ff, tr, tf)->Ok_0;
    let cap = captured_by(b, k, fr, ff, tr, tf);
    if cap is Some && cap->Some_0.piece_type == PieceType::King {
        let c = cap->Some_0;
        if k == MoveKind::EnPassant {
            assert(false);
        } else {
            assert(cap == at(b, tr, tf));
            assert(c.color == opposite_spec(g.turn));
            assert(attacks(b, p, fr, ff, tr, tf));
            assert(attacks_from(b, fr, ff, tr, tf, g.turn));
            assert(square_attacked(b, tr, tf, g.turn));
            assert(opposite_spec(opposite_spec(g.turn)) == g.turn);
            assert(king_attacked_at(b, tr, tf, opposite_spec(g.turn)));
            assert(false);
        }
    }
}

/// Turning a score to white's point of view twice gives it back.
pub proof fn perspective_is_an_involution(x: Option<i32>)
    requires
        x != Some(i32::MIN),
    ensures
        negate(negate(x)) == x,
{
}

/// A square's name reads back as the square through the whole reading of
/// user text: trimming leaves it alone and lowercasing keeps it.
pub proof fn square_name_parses_back(r: int, f: int)
    requires
        on_board(r, f),
    ensures
        parse_square_spec(square_name_spec(r, f)) == Ok::<(usize, usize), Seq<char>>((r as usize, f as usize)),
{
    let n = square_name_spec(r, f);
    assert(file_char(f) as int == 'a' as int + f);
    assert(rank_char(r) as int == '1' as int + r);
    assert(!is_white_space(n[0]));
    assert(!is_white_space(n[1]));
    assert(trim_start_spec(n) == n);
    assert(n.last() == n[1]);
    assert(trim_end_spec(n) == n);
    assert(trim_spec(n) == n);
    assert(vstd::utf8::is_ascii_chars(n));
    assert(ascii_lowercase(n) =~= n);
    assert(to_lowercase_spec(n) == n);
    square_name_round_trip(r, f);
}

/// The names that `legal_moves` lists for a piece of the side to move are
/// exactly the target names with which `make_move`, given that piece's
/// square by name, accepts the move, whatever allowed promotion piece is
/// asked for.
pub proof fn listed_names_are_accepted_moves(g: GameState, fr: int, ff: int, tr: int, tf: int, promo: Option<PieceType>)
    requires
        !g.game_over,
        on_board(fr, ff),
        on_board(tr, tf),
        at(g.board, fr, ff) matches Some(p) && p.color == g.turn,
        promotion_allowed(promo),
    ensures
        parse_square_spec(square_name_spec(fr, ff)) == Ok::<(usize, usize), Seq<char>>((fr as usize, ff as usize)),
        legal_targets(g, fr, ff).contains(square_name_spec(tr, tf))
            <==> move_outcome(g, square_name_spec(fr, ff), square_name_spec(tr, tf), promo) is Ok,
{
    square_name_parses_back(fr, ff);
    square_name_parses_back(tr, tf);
    listed_targets_are_accepted_moves(g, fr, ff, tr, tf, promo);
}

/// The square holds a piece of side `c` (a king, when `kings_only`).
pub open spec fn counts(x: Option<Piece>, c: Color, kings_only: bool) -> bool {
    x matches Some(p) && p.color == c && (!kings_only || p.piece_type == PieceType::King)
}

pub open spec fn count_one(x: Option<Piece>, c: Color, kings_only: bool) -> int {
    if counts(x, c, kings_only) { 1 } else { 0 }
}

/// Number of squares holding a piece of side `c` (kings only, when
/// `kings_only`).
pub open spec fn count_of(b: Seq<Option<Piece>>, c: Color, kings_only: bool) -> nat
    decreases b.len(),
{
    if b.len() == 0 {
        0
    } else {
        count_of(b.drop_last(), c, kings_only) + (if counts(b.last(), c, kings_only) { 1nat } else { 0nat })
    }
}

/// The pieces side `c` has lost.
pub open spec fn captured_of(s: GameState, c: Color) -> Seq<PieceType> {
    match c {
        Color::White => s.captured_white,
        Color::Black => s.captured_black,
    }
}

/// Side `c` has its 16 pieces, on the board or among its captured ones, and
/// exactly one king on the board while the game goes on.
pub open spec fn side_invariant(s: GameState, c: Color) -> bool {
    &&& count_of(s.board, c, false) + captured_of(s, c).len() == 16
    &&& !s.game_over ==> count_of(s.board, c, true) == 1
}

/// What holds of every game played from the start: each side's pieces are
/// conserved and each side has one king while the game goes on; there is no
/// winner before the game ends, and a winner is the side that made the last
/// move (whose turn stays when the game ends). A stalemate ends the game
/// without a winner.
pub open spec fn game_invariant(s: GameState) -> bool {
    &&& s.board.len() == 64
    &&& side_invariant(s, Color::White)
    &&& side_invariant(s, Color::Black)
    &&& !s.game_over ==> s.winner is None
    &&& s.winner matches Some(w) ==> s.game_over && w == s.turn
}

proof fn count_of_update(b: Seq<Option<Piece>>, i: int, v: Option<Piece>, c: Color, kings_only: bool)
    requires
        0 <= i < b.len(),
    ensures
        count_of(b.update(i, v), c, kings_only) == count_of(b, c, kings_only) - count_one(b[i], c, kings_only) + count_one(v, c, kings_only),
    decreases b.len(),
{
    let u = b.update(i, v);
    if i == b.len() - 1 {
        assert(u.drop_last() =~= b.drop_last());
    } else {
        assert(u.drop_last() =~= b.drop_last().update(i, v));
        count_of_update(b.drop_last(), i, v, c, kings_only);
    }
}

/// An accepted move removes from side `c`'s count on the board exactly the
/// piece it captures, if that piece is counted.
proof fn accepted_move_counts(g: GameState, fr: int, ff: int, tr: int, tf: int, promo: Option<PieceType>, c: Color, kings_only: bool)
    requires
        g.board.len() == 64,
        on_board(fr, ff),
        on_board(tr, tf),
        square_move_outcome(g, fr, ff, tr, tf, promo) is Ok,
    ensures
        ({
            let s = square_move_outcome(g, fr, ff, tr, tf, promo)->Ok_0;
            let p = at(g.board, fr, ff)->Some_0;
            let k = move_rule(g.board, g.castling, g.en_passant, p, fr, ff, tr, tf)->Ok_0;
            count_of(s.board, c, kings_only) + count_one(captured_by(g.board, k, fr, ff, tr, tf), c, kings_only)
                == count_of(g.board, c, kings_only)
        }),
{
    let b = g.board;
    let p = at(b, fr, ff)->Some_0;
    let k = move_rule(b, g.castling, g.en_passant, p, fr, ff, tr, tf)->Ok_0;
    let t = crate::game::promotion_piece(promo);
    let cap = captured_by(b, k, fr, ff, tr, tf);
    let from = fr * 8 + ff;
    let to = tr * 8 + tf;
    let b0 = b.update(to, Some(p));
    let b1 = b0.update(from, None);
    count_of_update(b, to, Some(p), c, kings_only);
    count_of_update(b0, from, None, c, kings_only);
    assert(b0[from] == b[from]);
    let b2 = match k {
        MoveKind::EnPassant => b1.update(fr * 8 + tf, None),
        MoveKind::CastleKingside => b1.update(fr * 8 + 5, at(b, fr, 7)).update(fr * 8 + 7, None),
        MoveKind::CastleQueenside => b1.update(fr * 8 + 3, at(b, fr, 0)).update(fr * 8 + 0, None),
        _ => b1,
    };
    match k {
        MoveKind::EnPassant => {
            count_of_update(b1, fr * 8 + tf, None, c, kings_only);
            assert(b1[fr * 8 + tf] == b[fr * 8 + tf]);
            assert(count_of(b2, c, kings_only) + count_one(cap, c, kings_only) == count_of(b, c, kings_only));
        },
        MoveKind::CastleKingside => {
            let c1 = b1.update(fr * 8 + 5, at(b, fr, 7));
            count_of_update(b1, fr * 8 + 5, at(b, fr, 7), c, kings_only);
            count_of_update(c1, fr * 8 + 7, None, c, kings_only);
            assert(b1[fr * 8 + 5] == b[fr * 8 + 5]);
            assert(c1[fr * 8 + 7] == b[fr * 8 + 7]);
            assert(count_of(b2, c, kings_only) + count_one(cap, c, kings_only) == count_of(b, c, kings_only));
        },
        MoveKind::CastleQueenside => {
            let c1 = b1.update(fr * 8 + 3, at(b, fr, 0));
            count_of_update(b1, fr * 8 + 3, at(b, fr, 0), c, kings_only);
            count_of_update(c1, fr * 8 + 0, None, c, kings_only);
            assert(b1[fr * 8 + 3] == b[fr * 8 + 3]);
            assert(c1[fr * 8 + 0] == b[fr * 8 + 0]);
            assert(count_of(b2, c, kings_only) + count_one(cap, c, kings_only) == count_of(b, c, kings_only));
        },
        _ => {
            assert(count_of(b2, c, kings_only) + count_one(cap, c, kings_only) == count_of(b, c, kings_only));
        },
    }
    if p.piece_type == PieceType::Pawn && (tr == 0 || tr == 7) {
        count_of_update(b2, to, Some(Piece { color: p.color, piece_type: t }), c, kings_only);
        assert(b2[to] == Some(p));
    }
    assert(apply_spec(b, k, p, fr, ff, tr, tf, t) == (if p.piece_type == PieceType::Pawn && (tr == 0 || tr == 7) {
        b2.update(to, Some(Piece { color: p.color, piece_type: t }))
    } else {
        b2
    }));
}

/// Every accepted move keeps the game invariant: each side's pieces on the
/// board plus its captured pieces stay at 16, each side keeps one king while
/// the game goes on, and a winner appears only when the game ends.
pub proof fn make_move_keeps_game_invariant(g: GameState, from: Seq<char>, to: Seq<char>, promo: Option<PieceType>)
    requires
        game_invariant(g),
    ensures
        move_outcome(g, from, to, promo) matches Ok(s) ==> game_invariant(s),
{
    if move_outcome(g, from, to, promo) is Ok {
        let (fr, ff) = parse_square_spec(from)->Ok_0;
        let (tr, tf) = parse_square_spec(to)->Ok_0;
        let (fr, ff, tr, tf) = (fr as int, ff as int, tr as int, tf as int);
        assert(on_board(fr, ff) && on_board(tr, tf));
        let s = square_move_outcome(g, fr, ff, tr, tf, promo)->Ok_0;
        let p = at(g.board, fr, ff)->Some_0;
        let k = move_rule(g.board, g.castling, g.en_passant, p, fr, ff, tr, tf)->Ok_0;
        let cap = captured_by(g.board, k, fr, ff, tr, tf);
        accepted_move_counts(g, fr, ff, tr, tf, promo, Color::White, false);
        accepted_move_counts(g, fr, ff, tr, tf, promo, Color::Black, false);
        accepted_move_counts(g, fr, ff, tr, tf, promo, Color::White, true);
        accepted_move_counts(g, fr, ff, tr, tf, promo, Color::Black, true);
        assert(s.board.len() == 64);
        assert(captured_of(s, Color::White).len() == captured_of(g, Color::White).len() + count_one(cap, Color::White, false));
        assert(captured_of(s, Color::Black).len() == captured_of(g, Color::Black).len() + count_one(cap, Color::Black, false));
        if !s.game_over {
            assert(!(cap matches Some(x) && x.piece_type == PieceType::King));
            assert(count_one(cap, Color::White, true) == 0);
            assert(count_one(cap, Color::Black, true) == 0);
        }
    }
}

proof fn count_of_prefix_step(b: Seq<Option<Piece>>, n: int, c: Color, kings_only: bool)
    requires
        0 <= n < b.len(),
    ensures
        count_of(b.subrange(0, n + 1), c, kings_only) == count_of(b.subrange(0, n), c, kings_only) + count_one(b[n], c, kings_only),
{
    assert(b.subrange(0, n + 1).drop_last() =~= b.subrange(0, n));
}

/// Side `c`'s pieces (or kings) among the first `n` squares of the starting
/// board.
pub open spec fn initial_count_upto(n: int, c: Color, kings_only: bool) -> int {
    match (c, kings_only) {
        (Color::White, false) => if n < 16 { n } else { 16 },
        (Color::White, true) => if n > 4 { 1 } else { 0 },
        (Color::Black, false) => if n > 48 { n - 48 } else { 0 },
        (Color::Black, true) => if n > 60 { 1 } else { 0 },
    }
}

proof fn initial_counts(s: GameState, n: int, c: Color, kings_only: bool)
    requires
        is_initial_state(s),
        0 <= n <= 64,
    ensures
        count_of(s.board.subrange(0, n), c, kings_only) == initial_count_upto(n, c, kings_only),
    decreases n,
{
    if n == 0 {
        assert(s.board.subrange(0, 0).len() == 0);
    } else {
        initial_counts(s, n - 1, c, kings_only);
        count_of_prefix_step(s.board, n - 1, c, kings_only);
        let r = (n - 1) / 8;
        let f = (n - 1) % 8;
        assert(n - 1 == r * 8 + f);
        assert(on_board(r, f));
        assert(s.board[n - 1] == at(s.board, r, f));
        assert(at(s.board, r, f) == initial_piece(r, f));
    }
}

/// A new game satisfies the game invariant, so every game reached from the
/// start by `make_move` does.
pub proof fn new_game_satisfies_invariant(s: GameState)
    requires
        is_initial_state(s),
    ensures
        game_invariant(s),
{
    assert(s.board.subrange(0, 64) =~= s.board);
    initial_counts(s, 64, Color::White, false);
    initial_counts(s, 64, Color::Black, false);
    initial_counts(s, 64, Color::White, true);
    initial_counts(s, 64, Color::Black, true);
}

/// Only square names are read as squares: whatever text reads as a square
/// is that square's name.
pub proof fn only_square_names_are_read(s: Seq<char>)
    requires
        square_spec(s) is Ok,
    ensures
        ({
            let (r, f) = square_spec(s)->Ok_0;
            r < 8 && f < 8 && s == square_name_spec(r as int, f as int)
        }),
{
    let (r, f) = square_spec(s)->Ok_0;
    assert(file_char(f as int) as int == 'a' as int + f);
    assert(rank_char(r as int) as int == '1' as int + r);
    assert(s =~= square_name_spec(r as int, f as int));
}

} // verus!
