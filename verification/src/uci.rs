use vstd::prelude::*;
use vstd::utf8::{is_char_boundary, decode_utf8};
use vstd::string::StringSliceAdditionalSpecFns;
use crate::types::PieceType;
use crate::fen::{decimal, decimal_spec};
use crate::game::{Game, texts, move_outcome};
use crate::dto::{EvalDto, HintDto};
use crate::text::{trim, trim_spec, trim_start, trim_start_spec, is_white_space, is_whitespace_char};
use crate::messages::{
    msg_no_legal_moves, err_no_legal_moves, msg_invalid_engine_move, msg_invalid_engine_promotion, err_invalid_engine_move,
    err_invalid_engine_promotion,
};

verus! {

broadcast use vstd::utf8::group_utf8_lib;

/// Search time for a position evaluation, in milliseconds.
pub const EVAL_MOVETIME_MS: u32 = 400;

/// Search time for a hint, in milliseconds.
pub const HINT_MOVETIME_MS: u32 = 800;

/// Search time for the engine's own move, in milliseconds.
pub const ENGINE_MOVE_MOVETIME_MS: u32 = 700;

/// Lowest playing strength the engine accepts for `UCI_Elo`.
pub const MIN_ELO: u32 = 1320;

/// Highest playing strength the engine accepts for `UCI_Elo`.
pub const MAX_ELO: u32 = 3190;

pub open spec fn negate(x: Option<i32>) -> Option<i32> {
    match x {
        Some(v) => Some((-v) as i32),
        None => None,
    }
}

/// An engine score reported for the side to move, turned to white's point of
/// view: negated when black is to move.
pub fn to_white_perspective(score_cp: Option<i32>, mate_in: Option<i32>, white_to_move: bool) -> (r: (Option<i32>, Option<i32>))
    requires
        !white_to_move ==> score_cp != Some(i32::MIN) && mate_in != Some(i32::MIN),
    ensures
        white_to_move ==> r == (score_cp, mate_in),
        !white_to_move ==> r == (negate(score_cp), negate(mate_in)),
{
    if white_to_move {
        (score_cp, mate_in)
    } else {
        let s = match score_cp {
            Some(v) => Some(-v),
            None => None,
        };
        let m = match mate_in {
            Some(v) => Some(-v),
            None => None,
        };
        (s, m)
    }
}

/// The promotion piece named by the fifth byte of a UCI move, if it names one.
pub open spec fn promotion_letter(b: u8) -> Option<PieceType> {
    if b == 0x71 {
        Some(PieceType::Queen)
    } else if b == 0x72 {
        Some(PieceType::Rook)
    } else if b == 0x62 {
        Some(PieceType::Bishop)
    } else if b == 0x6E {
        Some(PieceType::Knight)
    } else {
        None
    }
}

/// A move in UCI notation, such as "e7e8q", read as its UTF-8 bytes: the
/// first two bytes name the origin, the next two the target, and a fifth
/// byte, if any, the promotion piece ('q', 'r', 'b' or 'n').
pub open spec fn uci_move_spec(b: Seq<u8>) -> Result<(Seq<char>, Seq<char>, Option<PieceType>), Seq<char>> {
    if b.len() < 4 {
        Err(msg_invalid_engine_move())
    } else if b.len() > 4 && promotion_letter(b[4]) is None {
        Err(msg_invalid_engine_promotion())
    } else {
        Ok((
            decode_utf8(b.subrange(0, 2)),
            decode_utf8(b.subrange(2, 4)),
            if b.len() > 4 { promotion_letter(b[4]) } else { None },
        ))
    }
}

/// Splits a move in UCI notation into origin, target and promotion piece.
pub fn parse_uci_move(mv: &str) -> (res: Result<(String, String, Option<PieceType>), String>)
    requires
        mv.spec_bytes().len() >= 4 ==> is_char_boundary(mv.spec_bytes(), 2) && is_char_boundary(mv.spec_bytes(), 4),
    ensures
        match uci_move_spec(mv.spec_bytes()) {
            Ok((from, to, promo)) => res matches Ok((f, t, p)) && f@ == from && t@ == to && p == promo,
            Err(e) => res matches Err(m) && m@ == e,
        },
{
    let bytes = mv.as_bytes();
    let n = bytes.len();
    if n < 4 {
        return Err(err_invalid_engine_move());
    }
    let (head, rest) = mv.split_at(2);
    proof {
        let b = mv.spec_bytes();
        let rb = rest.spec_bytes();
        assert(rb =~= b.subrange(2, b.len() as int));
        vstd::utf8::encode_utf8_valid_utf8(mv@);
        vstd::utf8::valid_utf8_split(b, 2);
        if b.len() == 4 {
            vstd::utf8::is_char_boundary_start_end_of_seq(rb);
        } else {
            assert(rb[2] == b[4]);
            vstd::utf8::is_char_boundary_iff_not_is_continuation_byte(b, 4);
            vstd::utf8::is_char_boundary_iff_not_is_continuation_byte(rb, 2);
        }
    }
    let (mid, _) = rest.split_at(2);
    let promotion = if n > 4 {
        let c = bytes[4];
        if c == 0x71 {
            Some(PieceType::Queen)
        } else if c == 0x72 {
            Some(PieceType::Rook)
        } else if c == 0x62 {
            Some(PieceType::Bishop)
        } else if c == 0x6E {
            Some(PieceType::Knight)
        } else {
            return Err(err_invalid_engine_promotion());
        }
    } else {
        None
    };
    let from = String::from_str(head);
    let to = String::from_str(mid);
    proof {
        let b = mv.spec_bytes();
        assert(mid.spec_bytes() =~= b.subrange(2, 4));
    }
    Ok((from, to, promotion))
}

/// `v` brought into the range of strengths the engine accepts.
pub open spec fn clamp_elo_spec(v: u32) -> u32 {
    if v < MIN_ELO { MIN_ELO } else if v > MAX_ELO { MAX_ELO } else { v }
}

/// The UCI commands that set the engine's playing strength: limited to the
/// given Elo (clamped to what the engine accepts), or unlimited.
pub open spec fn strength_commands_spec(elo: Option<u32>) -> Seq<Seq<char>> {
    match elo {
        Some(v) => seq![
            "setoption name UCI_LimitStrength value true"@,
            "setoption name UCI_Elo value "@ + decimal_spec(clamp_elo_spec(v) as nat),
        ],
        None => seq!["setoption name UCI_LimitStrength value false"@],
    }
}

/// The UCI commands that set the engine's playing strength.
pub fn strength_commands(elo: Option<u32>) -> (cmds: Vec<String>)
    ensures
        texts(cmds@) == strength_commands_spec(elo),
{
    let mut cmds: Vec<String> = Vec::new();
    match elo {
        Some(v) => {
            let clamped = if v < MIN_ELO {
                MIN_ELO
            } else if v > MAX_ELO {
                MAX_ELO
            } else {
                v
            };
            cmds.push(String::from_str("setoption name UCI_LimitStrength value true"));
            let digits = decimal(clamped as u64);
            cmds.push(String::from_str("setoption name UCI_Elo value ").concat(digits.as_str()));
        },
        None => {
            cmds.push(String::from_str("setoption name UCI_LimitStrength value false"));
        },
    }
    assert(texts(cmds@) =~= strength_commands_spec(elo));
    cmds
}

/// The UCI command that hands the engine a position.
pub fn position_command(fen: &str) -> (cmd: String)
    ensures
        cmd@ == "position fen "@ + fen@,
{
    String::from_str("position fen ").concat(fen)
}

/// The UCI command that starts a search of the given length.
pub fn go_command(movetime_ms: u32) -> (cmd: String)
    ensures
        cmd@ == "go movetime "@ + decimal_spec(movetime_ms as nat),
{
    let digits = decimal(movetime_ms as u64);
    String::from_str("go movetime ").concat(digits.as_str())
}

/// `line`, without its leading white space, begins with `token`.
pub open spec fn line_starts_with_spec(line: Seq<char>, token: Seq<char>) -> bool {
    token.is_prefix_of(trim_start_spec(line))
}

/// Whether `s` begins with `prefix`.
pub fn has_prefix(s: &str, prefix: &str) -> (b: bool)
    ensures
        b == prefix@.is_prefix_of(s@),
{
    let n = prefix.unicode_len();
    if s.unicode_len() < n {
        return false;
    }
    let mut i: usize = 0;
    while i < n
        invariant
            n == prefix@.len(),
            n <= s@.len(),
            i <= n,
            forall|j: int| 0 <= j < i ==> prefix@[j] == s@[j],
        decreases n - i,
    {
        if prefix.get_char(i) != s.get_char(i) {
            assert(prefix@[i as int] != s@.subrange(0, n as int)[i as int]);
            return false;
        }
        i = i + 1;
    }
    assert(prefix@ =~= s@.subrange(0, n as int));
    true
}

/// Whether a line of engine output, ignoring leading white space, begins
/// with `token` (how the engine's acknowledgements are recognised).
pub fn line_starts_with(line: &str, token: &str) -> (b: bool)
    ensures
        b == line_starts_with_spec(line@, token@),
{
    let t = trim_start(line);
    has_prefix(t, token)
}

/// The white-space separated words of `s[i..]`, where `cur` is the part of a
/// word read just before `i`.
pub open spec fn words_from(s: Seq<char>, i: int, cur: Seq<char>) -> Seq<Seq<char>>
    decreases s.len() - i,
{
    if i >= s.len() {
        if cur.len() > 0 { seq![cur] } else { Seq::empty() }
    } else if is_white_space(s[i]) {
        (if cur.len() > 0 { seq![cur] } else { Seq::empty() }) + words_from(s, i + 1, Seq::empty())
    } else {
        words_from(s, i + 1, cur.push(s[i]))
    }
}

/// The white-space separated words of `s`.
pub open spec fn words_spec(s: Seq<char>) -> Seq<Seq<char>> {
    words_from(s, 0, Seq::empty())
}

/// The texts of a list of string slices.
pub open spec fn str_texts(v: Seq<&str>) -> Seq<Seq<char>> {
    v.map_values(|s: &str| s@)
}

/// The white-space separated words of `s`, in order.
pub fn words(s: &str) -> (w: Vec<&str>)
    ensures
        str_texts(w@) == words_spec(s@),
{
    let n = s.unicode_len();
    let mut w: Vec<&str> = Vec::new();
    let mut start: usize = 0;
    let mut i: usize = 0;
    assert(s@.subrange(0, 0) =~= Seq::<char>::empty());
    assert(str_texts(w@) =~= Seq::<Seq<char>>::empty());
    assert(words_spec(s@) =~= str_texts(w@) + words_from(s@, 0, s@.subrange(0, 0)));
    while i < n
        invariant
            n == s@.len(),
            start <= i <= n,
            words_spec(s@) == str_texts(w@) + words_from(s@, i as int, s@.subrange(start as int, i as int)),
        decreases n - i,
    {
        let ghost cur = s@.subrange(start as int, i as int);
        if is_whitespace_char(s.get_char(i)) {
            let ghost before = w@;
            if start < i {
                w.push(s.substring_char(start, i));
                assert(str_texts(w@) =~= str_texts(before) + seq![cur]);
            } else {
                assert(str_texts(w@) =~= str_texts(before) + Seq::<Seq<char>>::empty());
            }
            i = i + 1;
            start = i;
            assert(s@.subrange(start as int, i as int) =~= Seq::<char>::empty());
        } else {
            assert(cur.push(s@[i as int]) =~= s@.subrange(start as int, i + 1));
            i = i + 1;
        }
    }
    let ghost cur = s@.subrange(start as int, n as int);
    let ghost before = w@;
    if start < n {
        w.push(s.substring_char(start, n));
        assert(str_texts(w@) =~= str_texts(before) + seq![cur]);
    } else {
        assert(str_texts(w@) =~= str_texts(before) + Seq::<Seq<char>>::empty());
    }
    w
}

/// Whether two string slices hold the same text.
pub fn same_text(a: &str, b: &str) -> (eq: bool)
    ensures
        eq == (a@ == b@),
{
    let n = a.unicode_len();
    if b.unicode_len() != n {
        return false;
    }
    let mut i: usize = 0;
    while i < n
        invariant
            n == a@.len(),
            n == b@.len(),
            i <= n,
            forall|j: int| 0 <= j < i ==> a@[j] == b@[j],
        decreases n - i,
    {
        if a.get_char(i) != b.get_char(i) {
            return false;
        }
        i = i + 1;
    }
    assert(a@ =~= b@);
    true
}

pub open spec fn digit_value(c: char) -> int {
    c as int - '0' as int
}

pub open spec fn all_digits(s: Seq<char>) -> bool {
    forall|i: int| 0 <= i < s.len() ==> '0' <= #[trigger] s[i] <= '9'
}

/// The number written by decimal digits `s`.
pub open spec fn digits_value(s: Seq<char>) -> int
    decreases s.len(),
{
    if s.len() == 0 {
        0
    } else {
        digits_value(s.drop_last()) * 10 + digit_value(s.last())
    }
}

/// What `str::parse::<i32>` gives: an optional '+' or '-' sign followed by
/// one or more decimal digits, whose value fits in an `i32`.
pub open spec fn parse_i32_spec(s: Seq<char>) -> Option<i32> {
    let neg = s.len() > 0 && s[0] == '-';
    let d = if s.len() > 0 && (s[0] == '-' || s[0] == '+') { s.drop_first() } else { s };
    if d.len() == 0 || !all_digits(d) {
        None
    } else {
        let v = if neg { -digits_value(d) } else { digits_value(d) };
        if i32::MIN <= v <= i32::MAX { Some(v as i32) } else { None }
    }
}

/// Reads a decimal `i32` as `str::parse` does; `None` when the text is not
/// one.
pub fn parse_i32(s: &str) -> (v: Option<i32>)
    ensures
        v == parse_i32_spec(s@),
{
    let n = s.unicode_len();
    if n == 0 {
        return None;
    }
    let first = s.get_char(0);
    let neg = first == '-';
    let start: usize = if first == '-' || first == '+' { 1 } else { 0 };
    let ghost d = if start == 1 { s@.drop_first() } else { s@ };
    assert(d =~= s@.subrange(start as int, n as int));
    if start == n {
        return None;
    }
    let cap: u64 = 2147483649;
    let mut acc: u64 = 0;
    let mut i: usize = start;
    while i < n
        invariant
            n == s@.len(),
            n > 0,
            start == (if s@[0] == '-' || s@[0] == '+' { 1usize } else { 0usize }),
            neg == (s@[0] == '-'),
            start <= i <= n,
            d == (if start == 1 { s@.drop_first() } else { s@ }),
            d == s@.subrange(start as int, n as int),
            cap == 2147483649,
            acc == (if digits_value(s@.subrange(start as int, i as int)) < cap {
                digits_value(s@.subrange(start as int, i as int))
            } else {
                cap as int
            }),
            all_digits(s@.subrange(start as int, i as int)),
        decreases n - i,
    {
        let c = s.get_char(i);
        if !('0' <= c && c <= '9') {
            assert(d[i - start] == c);
            assert(!all_digits(d));
            return None;
        }
        let dv = (c as u32 - '0' as u32) as u64;
        let ghost prefix = s@.subrange(start as int, i as int);
        let ghost next = s@.subrange(start as int, i + 1);
        assert(next.drop_last() =~= prefix);
        assert(digits_value(next) == digits_value(prefix) * 10 + dv);
        let grown = acc * 10 + dv;
        acc = if grown < cap { grown } else { cap };
        i = i + 1;
        assert(all_digits(next)) by {
            assert forall|j: int| 0 <= j < next.len() implies '0' <= #[trigger] next[j] <= '9' by {
                if j < prefix.len() {
                    assert(next[j] == prefix[j]);
                }
            }
        }
    }
    assert(s@.subrange(start as int, n as int) == d);
    if neg {
        if acc <= 2147483648 {
            Some((0i64 - acc as i64) as i32)
        } else {
            None
        }
    } else {
        if acc <= 2147483647 {
            Some(acc as i32)
        } else {
            None
        }
    }
}

/// The latest evaluation an engine has reported during a search: centipawns
/// or moves to mate, from the point of view of the side to move.
#[derive(Clone, Copy, PartialEq, Eq, Structural, Debug)]
pub struct SearchScore {
    pub score_cp: Option<i32>,
    pub mate_in: Option<i32>,
}

/// What one line of engine output means to a running search.
#[derive(Debug)]
pub enum SearchLine {
    /// The search is over; the engine's chosen move, if the line names one.
    BestMove(Option<String>),
    /// The search goes on, with the evaluation as it now stands.
    Score(SearchScore),
}

/// The evaluation after looking at word `i` of an "info" line: a "score cp
/// N" or "score mate N" replaces it (with `None` for an unreadable number).
pub open spec fn score_step(toks: Seq<Seq<char>>, i: int, sc: SearchScore) -> SearchScore {
    if toks[i] == "score"@ && i + 2 < toks.len() {
        if toks[i + 1] == "cp"@ {
            SearchScore { score_cp: parse_i32_spec(toks[i + 2]), mate_in: None }
        } else if toks[i + 1] == "mate"@ {
            SearchScore { score_cp: None, mate_in: parse_i32_spec(toks[i + 2]) }
        } else {
            sc
        }
    } else {
        sc
    }
}

/// The evaluation after looking at the first `n` words of an "info" line.
pub open spec fn score_scan(toks: Seq<Seq<char>>, n: int, sc: SearchScore) -> SearchScore
    decreases n,
{
    if n <= 0 {
        sc
    } else {
        score_step(toks, n - 1, score_scan(toks, n - 1, sc))
    }
}

/// The first word of `s`, if any.
pub open spec fn first_word(s: Seq<char>) -> Option<Seq<char>> {
    if words_spec(s).len() > 0 { Some(words_spec(s)[0]) } else { None }
}

/// The text of an optional string.
pub open spec fn opt_text(s: Option<String>) -> Option<Seq<char>> {
    match s {
        Some(x) => Some(x@),
        None => None,
    }
}

/// What a line of engine output means to a search whose evaluation stands at
/// `sc`: a line beginning with "bestmove" (after trimming) ends the search
/// with the word that follows; an "info" line may update the evaluation;
/// anything else changes nothing.
pub open spec fn search_line_spec(line: Seq<char>, sc: SearchScore, r: SearchLine) -> bool {
    let t = trim_spec(line);
    if "bestmove"@.is_prefix_of(t) {
        r matches SearchLine::BestMove(m) && opt_text(m) == first_word(t.subrange("bestmove"@.len() as int, t.len() as int))
    } else if "info"@.is_prefix_of(t) {
        r == SearchLine::Score(score_scan(words_spec(t), words_spec(t).len() as int, sc))
    } else {
        r == SearchLine::Score(sc)
    }
}

/// Reads one line of engine output during a search.
pub fn read_search_line(line: &str, sc: SearchScore) -> (r: SearchLine)
    ensures
        search_line_spec(line@, sc, r),
{
    let t = trim(line);
    if has_prefix(t, "bestmove") {
        let k = "bestmove".unicode_len();
        let rest = t.substring_char(k, t.unicode_len());
        let ws = words(rest);
        if ws.len() > 0 {
            let w: &str = ws[0];
            assert(w@ == words_spec(rest@)[0]);
            return SearchLine::BestMove(Some(String::from_str(w)));
        }
        return SearchLine::BestMove(None);
    }
    if !has_prefix(t, "info") {
        return SearchLine::Score(sc);
    }
    let toks = words(t);
    let ghost tt = str_texts(toks@);
    let mut cur = sc;
    let mut i: usize = 0;
    while i < toks.len()
        invariant
            tt == str_texts(toks@),
            i <= toks.len(),
            cur == score_scan(tt, i as int, sc),
        decreases toks.len() - i,
    {
        if same_text(toks[i], "score") && toks.len() - i > 2 {
            if same_text(toks[i + 1], "cp") {
                cur = SearchScore { score_cp: parse_i32(toks[i + 2]), mate_in: None };
            } else if same_text(toks[i + 1], "mate") {
                cur = SearchScore { score_cp: None, mate_in: parse_i32(toks[i + 2]) };
            }
        }
        assert(tt[i as int] == toks@[i as int]@);
        assert(i + 2 < toks.len() ==> tt[i + 1] == toks@[i + 1]@ && tt[i + 2] == toks@[i + 2]@);
        i = i + 1;
    }
    SearchLine::Score(cur)
}

/// The move a finished search settled on: the engine names "(none)" when
/// the side to move has no legal move.
pub open spec fn search_result_spec(best: Option<Seq<char>>) -> Result<Seq<char>, Seq<char>> {
    match best {
        Some(m) => if m != "(none)"@ { Ok(m) } else { Err(msg_no_legal_moves()) },
        None => Err(msg_no_legal_moves()),
    }
}

/// The move a finished search settled on, or why there is none.
pub fn finish_search(best: Option<String>) -> (r: Result<String, String>)
    ensures
        match search_result_spec(opt_text(best)) {
            Ok(m) => r matches Ok(s) && s@ == m,
            Err(e) => r matches Err(s) && s@ == e,
        },
{
    match best {
        Some(m) => {
            if same_text(m.as_str(), "(none)") {
                Err(err_no_legal_moves())
            } else {
                Ok(m)
            }
        },
        None => Err(err_no_legal_moves()),
    }
}

/// The evaluation shown for a position: the engine's score turned to white's
/// point of view.
pub fn evaluation(score: SearchScore, white_to_move: bool) -> (e: EvalDto)
    requires
        !white_to_move ==> score.score_cp != Some(i32::MIN) && score.mate_in != Some(i32::MIN),
    ensures
        (e.score_cp, e.mate_in) == (if white_to_move {
            (score.score_cp, score.mate_in)
        } else {
            (negate(score.score_cp), negate(score.mate_in))
        }),
{
    let (score_cp, mate_in) = to_white_perspective(score.score_cp, score.mate_in, white_to_move);
    EvalDto { score_cp, mate_in }
}

/// A hint made of the engine's chosen move and its evaluation.
pub fn hint(best_move: &str, score: SearchScore) -> (h: Result<HintDto, String>)
    requires
        best_move.spec_bytes().len() >= 4 ==> is_char_boundary(best_move.spec_bytes(), 2)
            && is_char_boundary(best_move.spec_bytes(), 4),
    ensures
        match uci_move_spec(best_move.spec_bytes()) {
            Ok((from, to, promo)) => h matches Ok(d) && d.from@ == from && d.to@ == to
                && d.promotion == promo && d.score_cp == score.score_cp && d.mate_in == score.mate_in,
            Err(e) => h matches Err(m) && m@ == e,
        },
{
    match parse_uci_move(best_move) {
        Ok((from, to, promotion)) => Ok(HintDto {
            from,
            to,
            promotion,
            score_cp: score.score_cp,
            mate_in: score.mate_in,
        }),
        Err(e) => Err(e),
    }
}

impl Game {
    /// Plays a move given in UCI notation, as an engine answers.
    pub fn play_uci_move(&mut self, mv: &str) -> (res: Result<(), String>)
        requires
            mv.spec_bytes().len() >= 4 ==> is_char_boundary(mv.spec_bytes(), 2)
                && is_char_boundary(mv.spec_bytes(), 4),
        ensures
            match uci_move_spec(mv.spec_bytes()) {
                Err(e) => res matches Err(m) && m@ == e && final(self)@ == old(self)@,
                Ok((from, to, promo)) => match move_outcome(old(self)@, from, to, promo) {
                    Ok(s) => res is Ok && final(self)@ == s,
                    Err(e) => res matches Err(m) && m@ == e && final(self)@ == old(self)@,
                },
            },
    {
        match parse_uci_move(mv) {
            Ok((from, to, promotion)) => self.make_move(from.as_str(), to.as_str(), promotion),
            Err(e) => Err(e),
        }
    }
}

} // verus!
