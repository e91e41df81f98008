use vstd::prelude::*;
use crate::types::{Color, PieceType, Piece, opposite_spec};

verus! {

/// The 64 squares of a board, rank by rank: square `r * 8 + f` is rank `r`
/// (0 is rank "1") and file `f` (0 is file "a").
pub type Board = [Option<Piece>; 64];

pub open spec fn on_board(r: int, f: int) -> bool {
    0 <= r < 8 && 0 <= f < 8
}

/// What stands on rank `r`, file `f`.
pub open spec fn at(b: Seq<Option<Piece>>, r: int, f: int) -> Option<Piece> {
    b[r * 8 + f]
}

pub open spec fn abs(x: int) -> int {
    if x < 0 { -x } else { x }
}

pub open spec fn sgn(x: int) -> int {
    if x > 0 { 1 } else if x < 0 { -1 } else { 0 }
}

/// `k` steps in direction `d` (one of -1, 0, 1).
pub open spec fn walk(k: int, d: int) -> int {
    if d > 0 { k } else if d < 0 { -k } else { 0 }
}

/// Number of king steps along a straight or diagonal line.
pub open spec fn distance(fr: int, ff: int, tr: int, tf: int) -> int {
    if abs(tr - fr) >= abs(tf - ff) { abs(tr - fr) } else { abs(tf - ff) }
}

/// A straight or diagonal move of at least one square.
pub open spec fn is_line(fr: int, ff: int, tr: int, tf: int) -> bool {
    let dr = tr - fr;
    let df = tf - ff;
    &&& (dr == 0 || df == 0 || abs(dr) == abs(df))
    &&& (dr != 0 || df != 0)
}

/// The square `k` steps from the origin towards the target.
pub open spec fn ray_square(b: Seq<Option<Piece>>, fr: int, ff: int, tr: int, tf: int, k: int) -> Option<Piece> {
    at(b, fr + walk(k, sgn(tr - fr)), ff + walk(k, sgn(tf - ff)))
}

/// Every square strictly between origin and target is empty.
pub open spec fn path_clear(b: Seq<Option<Piece>>, fr: int, ff: int, tr: int, tf: int) -> bool {
    forall|k: int| 0 < k < distance(fr, ff, tr, tf) ==> (#[trigger] ray_square(b, fr, ff, tr, tf, k)) is None
}

/// Forward direction of a side's pawns.
pub open spec fn pawn_direction(c: Color) -> int {
    match c {
        Color::White => 1,
        Color::Black => -1,
    }
}

/// Whether `p`, standing on the origin, attacks the target square.
pub open spec fn attacks(b: Seq<Option<Piece>>, p: Piece, fr: int, ff: int, tr: int, tf: int) -> bool {
    let dr = tr - fr;
    let df = tf - ff;
    match p.piece_type {
        PieceType::Pawn => dr == pawn_direction(p.color) && abs(df) == 1,
        PieceType::Knight => (abs(dr) == 1 && abs(df) == 2) || (abs(dr) == 2 && abs(df) == 1),
        PieceType::Bishop => abs(dr) == abs(df) && dr != 0 && path_clear(b, fr, ff, tr, tf),
        PieceType::Rook => (dr == 0) != (df == 0) && path_clear(b, fr, ff, tr, tf),
        PieceType::Queen => is_line(fr, ff, tr, tf) && path_clear(b, fr, ff, tr, tf),
        PieceType::King => abs(dr) <= 1 && abs(df) <= 1 && (dr != 0 || df != 0),
    }
}

/// A piece of side `by` stands on the origin and attacks the target.
pub open spec fn attacks_from(b: Seq<Option<Piece>>, fr: int, ff: int, tr: int, tf: int, by: Color) -> bool {
    match at(b, fr, ff) {
        Some(p) => p.color == by && attacks(b, p, fr, ff, tr, tf),
        None => false,
    }
}

/// Some piece of side `by` attacks the square.
pub open spec fn square_attacked(b: Seq<Option<Piece>>, r: int, f: int, by: Color) -> bool {
    exists|fr: int, ff: int| on_board(fr, ff) && #[trigger] attacks_from(b, fr, ff, r, f, by)
}

/// A king of side `c` stands on the square and is attacked.
pub open spec fn king_attacked_at(b: Seq<Option<Piece>>, r: int, f: int, c: Color) -> bool {
    at(b, r, f) == Some(Piece { color: c, piece_type: PieceType::King })
        && square_attacked(b, r, f, opposite_spec(c))
}

/// Side `c` is in check.
pub open spec fn in_check(b: Seq<Option<Piece>>, c: Color) -> bool {
    exists|r: int, f: int| on_board(r, f) && #[trigger] king_attacked_at(b, r, f, c)
}

pub fn sq(r: usize, f: usize) -> (i: usize)
    requires
        r < 8,
        f < 8,
    ensures
        i == r * 8 + f,
        i < 64,
{
    r * 8 + f
}

fn sign_of(x: i32) -> (s: i32)
    ensures
        s == sgn(x as int),
{
    if x > 0 { 1 } else if x < 0 { -1 } else { 0 }
}

fn abs_of(x: i32) -> (a: i32)
    requires
        x > i32::MIN,
    ensures
        a == abs(x as int),
{
    if x < 0 { -x } else { x }
}

/// Whether every square strictly between origin and target is empty.
pub fn check_path_clear(board: &Board, fr: usize, ff: usize, tr: usize, tf: usize) -> (clear: bool)
    requires
        on_board(fr as int, ff as int),
        on_board(tr as int, tf as int),
        is_line(fr as int, ff as int, tr as int, tf as int),
    ensures
        clear == path_clear(board@, fr as int, ff as int, tr as int, tf as int),
{
    let dr = sign_of(tr as i32 - fr as i32);
    let df = sign_of(tf as i32 - ff as i32);
    let adr = abs_of(tr as i32 - fr as i32);
    let adf = abs_of(tf as i32 - ff as i32);
    let n: i32 = if adr >= adf { adr } else { adf };
    let mut k: i32 = 1;
    let mut r: i32 = fr as i32 + dr;
    let mut f: i32 = ff as i32 + df;
    while k < n
        invariant
            on_board(fr as int, ff as int),
            on_board(tr as int, tf as int),
            is_line(fr as int, ff as int, tr as int, tf as int),
            dr == sgn(tr - fr),
            df == sgn(tf - ff),
            n == distance(fr as int, ff as int, tr as int, tf as int),
            1 <= k <= n,
            r == fr + walk(k as int, dr as int),
            f == ff + walk(k as int, df as int),
            forall|j: int| 0 < j < k ==> (#[trigger] ray_square(board@, fr as int, ff as int, tr as int, tf as int, j)) is None,
        decreases n - k,
    {
        assert(0 <= r < 8 && 0 <= f < 8);
        if board[(r * 8 + f) as usize].is_some() {
            assert(ray_square(board@, fr as int, ff as int, tr as int, tf as int, k as int) is Some);
            return false;
        }
        assert(ray_square(board@, fr as int, ff as int, tr as int, tf as int, k as int) is None);
        r = r + dr;
        f = f + df;
        k = k + 1;
    }
    true
}

/// Whether `p`, standing on the origin, attacks the target square.
pub fn piece_attacks(board: &Board, p: Piece, fr: usize, ff: usize, tr: usize, tf: usize) -> (a: bool)
    requires
        on_board(fr as int, ff as int),
        on_board(tr as int, tf as int),
    ensures
        a == attacks(board@, p, fr as int, ff as int, tr as int, tf as int),
{
    let dr = tr as i32 - fr as i32;
    let df = tf as i32 - ff as i32;
    let adr = abs_of(dr);
    let adf = abs_of(df);
    match p.piece_type {
        PieceType::Pawn => {
            let dir: i32 = match p.color {
                Color::White => 1,
                Color::Black => -1,
            };
            dr == dir && adf == 1
        },
        PieceType::Knight => (adr == 1 && adf == 2) || (adr == 2 && adf == 1),
        PieceType::Bishop => adr == adf && dr != 0 && check_path_clear(board, fr, ff, tr, tf),
        PieceType::Rook => (dr == 0) != (df == 0) && check_path_clear(board, fr, ff, tr, tf),
        PieceType::Queen => {
            (dr == 0 || df == 0 || adr == adf) && (dr != 0 || df != 0) && check_path_clear(board, fr, ff, tr, tf)
        },
        PieceType::King => adr <= 1 && adf <= 1 && (dr != 0 || df != 0),
    }
}

/// Whether some piece of side `by` attacks rank `r`, file `f`.
pub fn is_square_attacked(board: &Board, r: usize, f: usize, by: Color) -> (a: bool)
    requires
        on_board(r as int, f as int),
    ensures
        a == square_attacked(board@, r as int, f as int, by),
{
    let mut fr: usize = 0;
    while fr < 8
        invariant
            on_board(r as int, f as int),
            fr <= 8,
            forall|r2: int, f2: int| 0 <= r2 < fr && 0 <= f2 < 8 ==> !#[trigger] attacks_from(board@, r2, f2, r as int, f as int, by),
        decreases 8 - fr,
    {
        let mut ff: usize = 0;
        while ff < 8
            invariant
                on_board(r as int, f as int),
                fr < 8,
                ff <= 8,
                forall|r2: int, f2: int| 0 <= r2 < fr && 0 <= f2 < 8 ==> !#[trigger] attacks_from(board@, r2, f2, r as int, f as int, by),
                forall|f2: int| 0 <= f2 < ff ==> !#[trigger] attacks_from(board@, fr as int, f2, r as int, f as int, by),
            decreases 8 - ff,
        {
            match board[sq(fr, ff)] {
                Some(p) => {
                    if p.color == by && piece_attacks(board, p, fr, ff, r, f) {
                        assert(attacks_from(board@, fr as int, ff as int, r as int, f as int, by));
                        return true;
                    }
                },
                None => {},
            }
            assert(!attacks_from(board@, fr as int, ff as int, r as int, f as int, by));
            ff = ff + 1;
        }
        fr = fr + 1;
    }
    false
}

/// Whether the king of side `c` stands attacked somewhere on the board.
pub fn is_in_check(board: &Board, c: Color) -> (chk: bool)
    ensures
        chk == in_check(board@, c),
{
    let mut r: usize = 0;
    while r < 8
        invariant
            r <= 8,
            forall|r2: int, f2: int| 0 <= r2 < r && 0 <= f2 < 8 ==> !#[trigger] king_attacked_at(board@, r2, f2, c),
        decreases 8 - r,
    {
        let mut f: usize = 0;
        while f < 8
            invariant
                r < 8,
                f <= 8,
                forall|r2: int, f2: int| 0 <= r2 < r && 0 <= f2 < 8 ==> !#[trigger] king_attacked_at(board@, r2, f2, c),
                forall|f2: int| 0 <= f2 < f ==> !#[trigger] king_attacked_at(board@, r as int, f2, c),
            decreases 8 - f,
        {
            let here = board[sq(r, f)];
            let is_king = match here {
                Some(p) => p.color == c && p.piece_type == PieceType::King,
                None => false,
            };
            if is_king && is_square_attacked(board, r, f, c.opposite()) {
                assert(king_attacked_at(board@, r as int, f as int, c));
                return true;
            }
            assert(!king_attacked_at(board@, r as int, f as int, c));
            f = f + 1;
        }
        r = r + 1;
    }
    false
}

} // verus!
