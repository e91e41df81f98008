use vstd::prelude::*;
use crate::messages::{msg_invalid_square_prefix, err_invalid_square_prefix};
use crate::rules::err_view;
use crate::text::{trim, trim_spec, to_lowercase_spec, to_lowercase};

verus! {

/// Letter of file `f` ('a' for 0).
pub open spec fn file_char(f: int) -> char {
    ('a' as int + f) as char
}

/// Digit of rank `r` ('1' for 0).
pub open spec fn rank_char(r: int) -> char {
    ('1' as int + r) as char
}

/// Algebraic name of a square, such as "e4".
pub open spec fn square_name_spec(r: int, f: int) -> Seq<char> {
    seq![file_char(f), rank_char(r)]
}

/// A square name already trimmed and lowercased: exactly a file letter
/// 'a'..'h' followed by a rank digit '1'..'8' (the same as two UTF-8 bytes in
/// those ranges). On success, (rank, file) counted from 0.
pub open spec fn square_spec(s: Seq<char>) -> Result<(usize, usize), Seq<char>> {
    if s.len() == 2 && 'a' <= s[0] <= 'h' && '1' <= s[1] <= '8' {
        Ok(((s[1] as int - '1' as int) as usize, (s[0] as int - 'a' as int) as usize))
    } else {
        Err(msg_invalid_square_prefix() + s)
    }
}

/// Square text as given by a user: surrounding white space is ignored and
/// letters may be upper case.
pub open spec fn parse_square_spec(s: Seq<char>) -> Result<(usize, usize), Seq<char>> {
    square_spec(to_lowercase_spec(trim_spec(s)))
}

/// Reads a trimmed, lowercased square name into (rank, file).
pub fn parse_normalized_square(s: &str) -> (res: Result<(usize, usize), String>)
    ensures
        err_view(res) == square_spec(s@),
        res matches Ok((r, f)) ==> r < 8 && f < 8,
{
    if s.unicode_len() == 2 {
        let file = s.get_char(0);
        let rank = s.get_char(1);
        if 'a' <= file && file <= 'h' && '1' <= rank && rank <= '8' {
            let r = (rank as u32 - '1' as u32) as usize;
            let f = (file as u32 - 'a' as u32) as usize;
            return Ok((r, f));
        }
    }
    Err(err_invalid_square_prefix().concat(s))
}

/// Reads a square name such as "e4" (surrounding white space ignored, any
/// letter case) into (rank, file), both counted from 0.
pub fn parse_square(s: &str) -> (res: Result<(usize, usize), String>)
    ensures
        err_view(res) == parse_square_spec(s@),
        res matches Ok((r, f)) ==> r < 8 && f < 8,
{
    let t = trim(s);
    let l = to_lowercase(t);
    parse_normalized_square(l.as_str())
}

/// The algebraic name of rank `r`, file `f`, such as "e4".
pub fn square_name(r: usize, f: usize) -> (name: String)
    requires
        r < 8,
        f < 8,
    ensures
        name@ == square_name_spec(r as int, f as int),
{
    let file: &str = match f {
        0 => "a",
        1 => "b",
        2 => "c",
        3 => "d",
        4 => "e",
        5 => "f",
        6 => "g",
        _ => "h",
    };
    let rank: &str = match r {
        0 => "1",
        1 => "2",
        2 => "3",
        3 => "4",
        4 => "5",
        5 => "6",
        6 => "7",
        _ => "8",
    };
    proof {
        reveal_strlit("a");
        reveal_strlit("b");
        reveal_strlit("c");
        reveal_strlit("d");
        reveal_strlit("e");
        reveal_strlit("f");
        reveal_strlit("g");
        reveal_strlit("h");
        reveal_strlit("1");
        reveal_strlit("2");
        reveal_strlit("3");
        reveal_strlit("4");
        reveal_strlit("5");
        reveal_strlit("6");
        reveal_strlit("7");
        reveal_strlit("8");
    }
    let name = String::from_str(file).concat(rank);
    assert(name@ =~= square_name_spec(r as int, f as int));
    name
}

} // verus!
