use vstd::prelude::*;
use crate::types::{Color, PieceType, Piece};
use crate::board::{Board, at, sq};
use crate::rules::CastlingRights;
use crate::square::{square_name_spec, square_name};

verus! {

/// FEN letter of a piece: upper case for white, lower case for black.
pub open spec fn piece_char(p: Piece) -> char {
    match (p.color, p.piece_type) {
        (Color::White, PieceType::Pawn) => 'P',
        (Color::White, PieceType::Knight) => 'N',
        (Color::White, PieceType::Bishop) => 'B',
        (Color::White, PieceType::Rook) => 'R',
        (Color::White, PieceType::Queen) => 'Q',
        (Color::White, PieceType::King) => 'K',
        (Color::Black, PieceType::Pawn) => 'p',
        (Color::Black, PieceType::Knight) => 'n',
        (Color::Black, PieceType::Bishop) => 'b',
        (Color::Black, PieceType::Rook) => 'r',
        (Color::Black, PieceType::Queen) => 'q',
        (Color::Black, PieceType::King) => 'k',
    }
}

pub open spec fn digit_char(n: int) -> char {
    ('0' as int + n) as char
}

/// Decimal digits of `n`, without leading zeros.
pub open spec fn decimal_spec(n: nat) -> Seq<char>
    decreases n,
{
    if n < 10 {
        seq![digit_char(n as int)]
    } else {
        decimal_spec(n / 10).push(digit_char((n % 10) as int))
    }
}

/// A count of empty squares, written only when there is one.
pub open spec fn empty_run(empty: int) -> Seq<char> {
    if empty > 0 { seq![digit_char(empty)] } else { Seq::empty() }
}

/// FEN of rank `r` from file `f` on, after `empty` empty squares.
pub open spec fn rank_fen_from(b: Seq<Option<Piece>>, r: int, f: int, empty: int) -> Seq<char>
    decreases 8 - f,
{
    if f >= 8 {
        empty_run(empty)
    } else {
        match at(b, r, f) {
            None => rank_fen_from(b, r, f + 1, empty + 1),
            Some(p) => empty_run(empty) + seq![piece_char(p)] + rank_fen_from(b, r, f + 1, 0),
        }
    }
}

/// FEN of rank `r`: pieces by letter, runs of empty squares by their count.
pub open spec fn rank_fen(b: Seq<Option<Piece>>, r: int) -> Seq<char> {
    rank_fen_from(b, r, 0, 0)
}

/// The first `n` ranks from the top (rank "8" down), separated by '/'.
pub open spec fn placement_rows(b: Seq<Option<Piece>>, n: int) -> Seq<char>
    decreases n,
{
    if n <= 0 {
        Seq::empty()
    } else if n == 1 {
        rank_fen(b, 7)
    } else {
        placement_rows(b, n - 1) + seq!['/'] + rank_fen(b, 8 - n)
    }
}

/// The piece placement field of FEN.
pub open spec fn placement_spec(b: Seq<Option<Piece>>) -> Seq<char> {
    placement_rows(b, 8)
}

/// The castling field of FEN: "KQkq" or the part of it still allowed, "-" if
/// none.
pub open spec fn castling_spec(cr: CastlingRights) -> Seq<char> {
    let s = (if cr.white_kingside { seq!['K'] } else { Seq::empty() })
        + (if cr.white_queenside { seq!['Q'] } else { Seq::empty() })
        + (if cr.black_kingside { seq!['k'] } else { Seq::empty() })
        + (if cr.black_queenside { seq!['q'] } else { Seq::empty() });
    if s.len() == 0 { seq!['-'] } else { s }
}

/// The en passant field of FEN: the skipped square, or "-".
pub open spec fn en_passant_spec(ep: Option<usize>) -> Seq<char> {
    match ep {
        Some(s) => square_name_spec(s as int / 8, s as int % 8),
        None => seq!['-'],
    }
}

/// The side-to-move field of FEN.
pub open spec fn side_spec(c: Color) -> Seq<char> {
    match c {
        Color::White => seq!['w'],
        Color::Black => seq!['b'],
    }
}

/// A position in Forsyth-Edwards Notation.
pub open spec fn fen_spec(b: Seq<Option<Piece>>, turn: Color, cr: CastlingRights, ep: Option<usize>, halfmove: u64, fullmove: u64) -> Seq<char> {
    placement_spec(b) + seq![' '] + side_spec(turn) + seq![' '] + castling_spec(cr) + seq![' ']
        + en_passant_spec(ep) + seq![' '] + decimal_spec(halfmove as nat) + seq![' ']
        + decimal_spec(fullmove as nat)
}

fn letter(p: Piece) -> (s: &'static str)
    ensures
        s@ == seq![piece_char(p)],
{
    proof {
        reveal_strlit("P");
        reveal_strlit("N");
        reveal_strlit("B");
        reveal_strlit("R");
        reveal_strlit("Q");
        reveal_strlit("K");
        reveal_strlit("p");
        reveal_strlit("n");
        reveal_strlit("b");
        reveal_strlit("r");
        reveal_strlit("q");
        reveal_strlit("k");
    }
    match (p.color, p.piece_type) {
        (Color::White, PieceType::Pawn) => "P",
        (Color::White, PieceType::Knight) => "N",
        (Color::White, PieceType::Bishop) => "B",
        (Color::White, PieceType::Rook) => "R",
        (Color::White, PieceType::Queen) => "Q",
        (Color::White, PieceType::King) => "K",
        (Color::Black, PieceType::Pawn) => "p",
        (Color::Black, PieceType::Knight) => "n",
        (Color::Black, PieceType::Bishop) => "b",
        (Color::Black, PieceType::Rook) => "r",
        (Color::Black, PieceType::Queen) => "q",
        (Color::Black, PieceType::King) => "k",
    }
}

fn digit(n: u64) -> (s: &'static str)
    requires
        n < 10,
    ensures
        s@ == seq![digit_char(n as int)],
{
    proof {
        reveal_strlit("0");
        reveal_strlit("1");
        reveal_strlit("2");
        reveal_strlit("3");
        reveal_strlit("4");
        reveal_strlit("5");
        reveal_strlit("6");
        reveal_strlit("7");
        reveal_strlit("8");
        reveal_strlit("9");
    }
    match n {
        0 => "0",
        1 => "1",
        2 => "2",
        3 => "3",
        4 => "4",
        5 => "5",
        6 => "6",
        7 => "7",
        8 => "8",
        _ => "9",
    }
}

/// Decimal digits of `n`.
pub fn decimal(n: u64) -> (s: String)
    ensures
        s@ == decimal_spec(n as nat),
{
    let mut m: u64 = n;
    let mut s = String::new();
    loop
        invariant
            decimal_spec(n as nat) == decimal_spec(m as nat) + s@,
        decreases m,
    {
        let d = digit(m % 10);
        let ghost old_s = s@;
        s = String::from_str(d).concat(s.as_str());
        assert(s@ == seq![digit_char((m % 10) as int)] + old_s);
        if m < 10 {
            assert(decimal_spec(m as nat) == seq![digit_char((m % 10) as int)]);
            assert(decimal_spec(n as nat) =~= s@);
            return s;
        }
        assert(decimal_spec(m as nat) == decimal_spec((m / 10) as nat).push(digit_char((m % 10) as int)));
        assert(decimal_spec(m as nat) + old_s =~= decimal_spec((m / 10) as nat) + s@);
        m = m / 10;
    }
}

fn empty_run_str(empty: u64) -> (s: String)
    requires
        empty < 10,
    ensures
        s@ == empty_run(empty as int),
{
    if empty > 0 {
        String::from_str(digit(empty))
    } else {
        String::new()
    }
}

/// FEN of rank `r`.
fn rank_fen_exec(board: &Board, r: usize) -> (s: String)
    requires
        r < 8,
    ensures
        s@ == rank_fen(board@, r as int),
{
    let mut s = String::new();
    let mut empty: u64 = 0;
    let mut f: usize = 0;
    while f < 8
        invariant
            r < 8,
            f <= 8,
            empty <= f,
            rank_fen(board@, r as int) == s@ + rank_fen_from(board@, r as int, f as int, empty as int),
        decreases 8 - f,
    {
        match board[sq(r, f)] {
            None => {
                empty = empty + 1;
            },
            Some(p) => {
                let ghost old_s = s@;
                let run = empty_run_str(empty);
                s.append(run.as_str());
                s.append(letter(p));
                assert(s@ + rank_fen_from(board@, r as int, f + 1, 0) =~= old_s + rank_fen_from(board@, r as int, f as int, empty as int));
                empty = 0;
            },
        }
        f = f + 1;
    }
    let ghost old_s = s@;
    let run = empty_run_str(empty);
    s.append(run.as_str());
    assert(s@ =~= old_s + rank_fen_from(board@, r as int, 8, empty as int));
    s
}

/// The piece placement field of FEN.
pub fn placement(board: &Board) -> (s: String)
    ensures
        s@ == placement_spec(board@),
{
    let mut s = rank_fen_exec(board, 7);
    let mut n: usize = 1;
    while n < 8
        invariant
            1 <= n <= 8,
            s@ == placement_rows(board@, n as int),
        decreases 8 - n,
    {
        let row = rank_fen_exec(board, 7 - n);
        let ghost old_s = s@;
        proof {
            reveal_strlit("/");
        }
        s.append("/");
        s.append(row.as_str());
        assert(placement_rows(board@, n + 1) == placement_rows(board@, n as int) + seq!['/'] + rank_fen(board@, 7 - n));
        assert(s@ =~= old_s + seq!['/'] + rank_fen(board@, 7 - n));
        n = n + 1;
    }
    s
}

/// The castling field of FEN.
pub fn castling_field(cr: CastlingRights) -> (s: String)
    ensures
        s@ == castling_spec(cr),
{
    proof {
        reveal_strlit("K");
        reveal_strlit("Q");
        reveal_strlit("k");
        reveal_strlit("q");
        reveal_strlit("-");
    }
    let mut s = String::new();
    if cr.white_kingside {
        s.append("K");
    }
    if cr.white_queenside {
        s.append("Q");
    }
    if cr.black_kingside {
        s.append("k");
    }
    if cr.black_queenside {
        s.append("q");
    }
    if !cr.white_kingside && !cr.white_queenside && !cr.black_kingside && !cr.black_queenside {
        s.append("-");
    }
    assert(s@ =~= castling_spec(cr));
    s
}

/// A position in Forsyth-Edwards Notation.
pub fn fen(board: &Board, turn: Color, cr: CastlingRights, ep: Option<usize>, halfmove: u64, fullmove: u64) -> (s: String)
    requires
        ep matches Some(e) ==> e < 64,
    ensures
        s@ == fen_spec(board@, turn, cr, ep, halfmove, fullmove),
{
    proof {
        reveal_strlit(" ");
        reveal_strlit("w");
        reveal_strlit("b");
        reveal_strlit("-");
    }
    let mut s = placement(board);
    s.append(" ");
    match turn {
        Color::White => s.append("w"),
        Color::Black => s.append("b"),
    }
    s.append(" ");
    let c = castling_field(cr);
    s.append(c.as_str());
    s.append(" ");
    match ep {
        Some(e) => {
            let name = square_name(e / 8, e % 8);
            s.append(name.as_str());
        },
        None => s.append("-"),
    }
    s.append(" ");
    let h = decimal(halfmove);
    s.append(h.as_str());
    s.append(" ");
    let m = decimal(fullmove);
    s.append(m.as_str());
    assert(s@ =~= fen_spec(board@, turn, cr, ep, halfmove, fullmove));
    s
}

} // verus!
