use vstd::prelude::*;
use crate::types::{Color, PieceType, Piece};
use crate::board::at;
use crate::rules::CastlingRights;
use crate::square::{file_char, rank_char};
use crate::fen::{
    piece_char, digit_char, decimal_spec, empty_run, rank_fen_from, rank_fen, placement_rows,
    placement_spec, castling_spec, en_passant_spec, side_spec, fen_spec,
};

verus! {

/// A FEN field: not empty, and without spaces.
pub open spec fn is_field(s: Seq<char>) -> bool {
    &&& s.len() > 0
    &&& forall|i: int| 0 <= i < s.len() ==> #[trigger] s[i] != ' '
}

/// The castling field is never empty: it is "-" exactly when no castling
/// right remains, and otherwise holds 'K', 'Q', 'k', 'q' for the rights that
/// remain (white king side, white queen side, black king side, black queen
/// side), in that order.
pub proof fn castling_field_lists_rights(cr: CastlingRights)
    ensures
        is_field(castling_spec(cr)),
        (!cr.white_kingside && !cr.white_queenside && !cr.black_kingside && !cr.black_queenside)
            <==> castling_spec(cr) == seq!['-'],
        cr.white_kingside <==> castling_spec(cr).contains('K'),
        cr.white_queenside <==> castling_spec(cr).contains('Q'),
        cr.black_kingside <==> castling_spec(cr).contains('k'),
        cr.black_queenside <==> castling_spec(cr).contains('q'),
        !castling_spec(cr).contains('-') ==> castling_spec(cr) == (if cr.white_kingside { seq!['K'] } else { Seq::empty() })
            + (if cr.white_queenside { seq!['Q'] } else { Seq::empty() })
            + (if cr.black_kingside { seq!['k'] } else { Seq::empty() })
            + (if cr.black_queenside { seq!['q'] } else { Seq::empty() }),
{
    let k: Seq<char> = if cr.white_kingside { seq!['K'] } else { Seq::empty() };
    let q: Seq<char> = if cr.white_queenside { seq!['Q'] } else { Seq::empty() };
    let kk: Seq<char> = if cr.black_kingside { seq!['k'] } else { Seq::empty() };
    let qq: Seq<char> = if cr.black_queenside { seq!['q'] } else { Seq::empty() };
    let s = k + q + kk + qq;
    let f = castling_spec(cr);
    assert(forall|i: int| 0 <= i < s.len() ==> s[i] == 'K' || s[i] == 'Q' || s[i] == 'k' || s[i] == 'q');
    if cr.white_kingside {
        assert(s[0] == 'K');
    }
    if cr.white_queenside {
        assert(s[k.len() as int] == 'Q');
    }
    if cr.black_kingside {
        assert(s[(k.len() + q.len()) as int] == 'k');
    }
    if cr.black_queenside {
        assert(s[(k.len() + q.len() + kk.len()) as int] == 'q');
    }
    if s.len() == 0 {
        assert(f[0] == '-');
    } else {
        assert(f == s);
        if s.contains('-') {
            let i = choose|i: int| 0 <= i < s.len() && s[i] == '-';
            assert(s[i] == 'K' || s[i] == 'Q' || s[i] == 'k' || s[i] == 'q');
        }
    }
}

proof fn no_space_concat(a: Seq<char>, b: Seq<char>)
    requires
        forall|i: int| 0 <= i < a.len() ==> #[trigger] a[i] != ' ',
        forall|i: int| 0 <= i < b.len() ==> #[trigger] b[i] != ' ',
    ensures
        forall|i: int| 0 <= i < (a + b).len() ==> #[trigger] (a + b)[i] != ' ',
{
    assert forall|i: int| 0 <= i < (a + b).len() implies #[trigger] (a + b)[i] != ' ' by {
        if i < a.len() {
            assert((a + b)[i] == a[i]);
        } else {
            assert((a + b)[i] == b[i - a.len()]);
        }
    }
}

/// FEN letters: upper case for white, lower case for black, the same letter
/// for the same kind of piece, and a different letter for each kind: 'K'
/// king, 'Q' queen, 'R' rook, 'B' bishop, 'N' knight and 'P' pawn.
pub proof fn piece_letters(t: PieceType, u: PieceType)
    ensures
        'A' <= piece_char(Piece { color: Color::White, piece_type: t }) <= 'Z',
        'a' <= piece_char(Piece { color: Color::Black, piece_type: t }) <= 'z',
        piece_char(Piece { color: Color::Black, piece_type: t }) as int
            == piece_char(Piece { color: Color::White, piece_type: t }) as int + 32,
        t != u ==> piece_char(Piece { color: Color::White, piece_type: t }) != piece_char(Piece { color: Color::White, piece_type: u }),
        t == PieceType::King ==> piece_char(Piece { color: Color::White, piece_type: t }) == 'K',
        t == PieceType::Queen ==> piece_char(Piece { color: Color::White, piece_type: t }) == 'Q',
        t == PieceType::Rook ==> piece_char(Piece { color: Color::White, piece_type: t }) == 'R',
        t == PieceType::Bishop ==> piece_char(Piece { color: Color::White, piece_type: t }) == 'B',
        t == PieceType::Knight ==> piece_char(Piece { color: Color::White, piece_type: t }) == 'N',
        t == PieceType::Pawn ==> piece_char(Piece { color: Color::White, piece_type: t }) == 'P',
{
}

/// Squares a character of a rank's FEN stands for: a digit that many empty
/// squares, a piece letter one square.
pub open spec fn char_squares(c: char) -> int {
    if '1' <= c <= '8' { c as int - '0' as int } else { 1 }
}

/// Squares a rank's FEN describes.
pub open spec fn square_count(s: Seq<char>) -> int
    decreases s.len(),
{
    if s.len() == 0 { 0 } else { square_count(s.drop_last()) + char_squares(s.last()) }
}

proof fn square_count_concat(a: Seq<char>, b: Seq<char>)
    ensures
        square_count(a + b) == square_count(a) + square_count(b),
    decreases b.len(),
{
    if b.len() == 0 {
        assert(a + b =~= a);
    } else {
        assert((a + b).drop_last() =~= a + b.drop_last());
        square_count_concat(a, b.drop_last());
    }
}

proof fn rank_fen_from_facts(b: Seq<Option<Piece>>, r: int, f: int, e: int)
    requires
        0 <= r < 8,
        0 <= e <= f <= 8,
        b.len() == 64,
    ensures
        square_count(rank_fen_from(b, r, f, e)) == 8 - f + e,
        (f < 8 || e > 0) ==> rank_fen_from(b, r, f, e).len() > 0,
        forall|i: int| 0 <= i < rank_fen_from(b, r, f, e).len() ==> #[trigger] rank_fen_from(b, r, f, e)[i] != ' ',
        forall|i: int| 0 <= i < rank_fen_from(b, r, f, e).len() ==> #[trigger] rank_fen_from(b, r, f, e)[i] != '/',
    decreases 8 - f,
{
    let run = empty_run(e);
    if e > 0 {
        assert(digit_char(e) as int == '0' as int + e);
        assert(run[0] == digit_char(e));
        assert(square_count(run) == square_count(run.drop_last()) + char_squares(run.last()));
        assert(run.drop_last().len() == 0);
    } else {
        assert(run.len() == 0);
    }
    if f < 8 {
        match at(b, r, f) {
            None => {
                rank_fen_from_facts(b, r, f + 1, e + 1);
            },
            Some(p) => {
                rank_fen_from_facts(b, r, f + 1, 0);
                let rest = rank_fen_from(b, r, f + 1, 0);
                let letter = seq![piece_char(p)];
                piece_letters(p.piece_type, p.piece_type);
                assert(square_count(letter) == square_count(letter.drop_last()) + char_squares(letter.last()));
                assert(letter.drop_last().len() == 0);
                square_count_concat(run, letter);
                square_count_concat(run + letter, rest);
                no_space_concat(run, letter);
                no_space_concat(run + letter, rest);
                let whole = run + letter + rest;
                assert forall|i: int| 0 <= i < whole.len() implies #[trigger] whole[i] != '/' by {
                    if i < run.len() {
                        assert(whole[i] == run[i]);
                    } else if i < run.len() + 1 {
                        assert(whole[i] == letter[i - run.len()]);
                    } else {
                        assert(whole[i] == rest[i - run.len() - 1]);
                    }
                }
            },
        }
    }
}

/// The FEN of every rank describes exactly its eight squares, and holds
/// neither spaces nor rank separators.
pub proof fn rank_fen_covers_eight_squares(b: Seq<Option<Piece>>, r: int)
    requires
        0 <= r < 8,
        b.len() == 64,
    ensures
        square_count(rank_fen(b, r)) == 8,
        is_field(rank_fen(b, r)),
        forall|i: int| 0 <= i < rank_fen(b, r).len() ==> #[trigger] rank_fen(b, r)[i] != '/',
{
    rank_fen_from_facts(b, r, 0, 0);
}

/// The placement field lists the ranks from the eighth down to the first,
/// separated by '/'.
pub proof fn placement_lists_ranks_from_the_top(b: Seq<Option<Piece>>)
    ensures
        placement_spec(b) == rank_fen(b, 7) + seq!['/'] + rank_fen(b, 6) + seq!['/'] + rank_fen(b, 5) + seq!['/']
            + rank_fen(b, 4) + seq!['/'] + rank_fen(b, 3) + seq!['/'] + rank_fen(b, 2) + seq!['/']
            + rank_fen(b, 1) + seq!['/'] + rank_fen(b, 0),
{
    reveal_with_fuel(placement_rows, 9);
}

proof fn placement_rows_is_field(b: Seq<Option<Piece>>, n: int)
    requires
        1 <= n <= 8,
        b.len() == 64,
    ensures
        is_field(placement_rows(b, n)),
    decreases n,
{
    rank_fen_covers_eight_squares(b, 8 - n);
    if n > 1 {
        placement_rows_is_field(b, n - 1);
        no_space_concat(placement_rows(b, n - 1), seq!['/']);
        no_space_concat(placement_rows(b, n - 1) + seq!['/'], rank_fen(b, 8 - n));
    }
}

proof fn decimal_is_field(n: nat)
    ensures
        is_field(decimal_spec(n)),
        forall|i: int| 0 <= i < decimal_spec(n).len() ==> '0' <= #[trigger] decimal_spec(n)[i] <= '9',
    decreases n,
{
    if n >= 10 {
        decimal_is_field(n / 10);
        let d = decimal_spec(n / 10);
        let c = digit_char((n % 10) as int);
        assert(c as int == '0' as int + n % 10);
        assert forall|i: int| 0 <= i < d.push(c).len() implies '0' <= #[trigger] d.push(c)[i] <= '9' by {
            if i < d.len() {
                assert(d.push(c)[i] == d[i]);
            }
        }
    } else {
        assert(digit_char(n as int) as int == '0' as int + n);
    }
}

/// A FEN is six fields separated by single spaces: placement, side to move,
/// castling, en passant square, halfmove clock and fullmove number; none of
/// them is empty or holds a space, so a reader splitting on spaces finds six
/// fields. The side to move is "w" or "b", the en passant field a square name
/// or "-", and both counters are written in decimal digits.
pub proof fn fen_has_six_fields(b: Seq<Option<Piece>>, turn: Color, cr: CastlingRights, ep: Option<usize>, halfmove: u64, fullmove: u64)
    requires
        b.len() == 64,
        ep matches Some(e) ==> e < 64,
    ensures
        fen_spec(b, turn, cr, ep, halfmove, fullmove) == placement_spec(b) + seq![' '] + side_spec(turn) + seq![' ']
            + castling_spec(cr) + seq![' '] + en_passant_spec(ep) + seq![' '] + decimal_spec(halfmove as nat)
            + seq![' '] + decimal_spec(fullmove as nat),
        is_field(placement_spec(b)),
        side_spec(turn) == (if turn == Color::White { seq!['w'] } else { seq!['b'] }),
        is_field(castling_spec(cr)),
        is_field(en_passant_spec(ep)),
        ep is None ==> en_passant_spec(ep) == seq!['-'],
        ep matches Some(e) ==> en_passant_spec(ep) == seq![file_char(e as int % 8), rank_char(e as int / 8)],
        is_field(decimal_spec(halfmove as nat)),
        is_field(decimal_spec(fullmove as nat)),
{
    placement_rows_is_field(b, 8);
    castling_field_lists_rights(cr);
    decimal_is_field(halfmove as nat);
    decimal_is_field(fullmove as nat);
    if let Some(e) = ep {
        let r = e as int / 8;
        let f = e as int % 8;
        assert(file_char(f) as int == 'a' as int + f);
        assert(rank_char(r) as int == '1' as int + r);
    }
}

} // verus!
