use vstd::prelude::*;
use crate::types::{Color, Piece, PieceType};
use crate::fen::piece_char;
use crate::text::{trim_spec, trim_start_spec, trim_end_spec, is_white_space};
use crate::fen::{decimal_spec, digit_char};
use crate::uci::{
    negate, clamp_elo_spec, promotion_letter, MIN_ELO, MAX_ELO, digits_value, all_digits, words_from, uci_move_spec, words_spec, parse_i32_spec, score_scan, score_step, search_line_spec,
    SearchScore, SearchLine, first_word, opt_text, search_result_spec,
};
use crate::messages::{msg_invalid_engine_move, msg_invalid_engine_promotion, msg_no_legal_moves};

verus! {

/// Reading a move in UCI notation, byte by byte: fewer than four bytes are
/// refused; the first two bytes are the origin and the next two the target;
/// a fifth byte 'q', 'r', 'b' or 'n' promotes to a queen, rook, bishop or
/// knight, and any other fifth byte is refused.
pub proof fn uci_promotion_letters(b: Seq<u8>)
    ensures
        b.len() < 4 ==> uci_move_spec(b) == Err::<(Seq<char>, Seq<char>, Option<PieceType>), Seq<char>>(msg_invalid_engine_move()),
        b.len() >= 4 && uci_move_spec(b) is Ok ==> uci_move_spec(b)->Ok_0.0 == vstd::utf8::decode_utf8(b.subrange(0, 2))
            && uci_move_spec(b)->Ok_0.1 == vstd::utf8::decode_utf8(b.subrange(2, 4)),
        b.len() == 4 ==> uci_move_spec(b) is Ok && uci_move_spec(b)->Ok_0.2 is None,
        b.len() > 4 && b[4] == 0x71u8 ==> uci_move_spec(b) is Ok && uci_move_spec(b)->Ok_0.2 == Some(PieceType::Queen),
        b.len() > 4 && b[4] == 0x72u8 ==> uci_move_spec(b) is Ok && uci_move_spec(b)->Ok_0.2 == Some(PieceType::Rook),
        b.len() > 4 && b[4] == 0x62u8 ==> uci_move_spec(b) is Ok && uci_move_spec(b)->Ok_0.2 == Some(PieceType::Bishop),
        b.len() > 4 && b[4] == 0x6Eu8 ==> uci_move_spec(b) is Ok && uci_move_spec(b)->Ok_0.2 == Some(PieceType::Knight),
        b.len() > 4 && b[4] != 0x71u8 && b[4] != 0x72u8 && b[4] != 0x62u8 && b[4] != 0x6Eu8
            ==> uci_move_spec(b) == Err::<(Seq<char>, Seq<char>, Option<PieceType>), Seq<char>>(msg_invalid_engine_promotion()),
{
}

/// The promotion letters of UCI are the lower-case FEN letters of the
/// pieces a pawn may become: a queen, rook, bishop or knight; the letters of
/// a king and of a pawn promote to nothing.
pub proof fn promotion_letters_are_fen_letters(t: PieceType)
    ensures
        promotion_letter(piece_char(Piece { color: Color::Black, piece_type: t }) as u8)
            == (if t == PieceType::King || t == PieceType::Pawn { None } else { Some(t) }),
{
}

/// Word `j` of an "info" line is a score report: "score cp N" or
/// "score mate N".
pub open spec fn is_score_report(w: Seq<Seq<char>>, j: int) -> bool {
    &&& 0 <= j
    &&& j + 2 < w.len()
    &&& w[j] == "score"@
    &&& (w[j + 1] == "cp"@ || w[j + 1] == "mate"@)
}

/// The evaluation a score report at word `i` gives: centipawns with no mate
/// score, or a mate score with no centipawns.
pub open spec fn reported_score(w: Seq<Seq<char>>, i: int) -> SearchScore {
    if w[i + 1] == "cp"@ {
        SearchScore { score_cp: parse_i32_spec(w[i + 2]), mate_in: None }
    } else {
        SearchScore { score_cp: None, mate_in: parse_i32_spec(w[i + 2]) }
    }
}

proof fn scan_after_last_report(w: Seq<Seq<char>>, i: int, n: int, sc: SearchScore)
    requires
        is_score_report(w, i),
        i < n <= w.len(),
        forall|j: int| i < j < w.len() ==> !#[trigger] is_score_report(w, j),
    ensures
        score_scan(w, n, sc) == reported_score(w, i),
    decreases n,
{
    if n > i + 1 {
        scan_after_last_report(w, i, n - 1, sc);
        assert(!is_score_report(w, n - 1));
        assert(score_step(w, n - 1, score_scan(w, n - 1, sc)) == score_scan(w, n - 1, sc));
    }
}

proof fn scan_without_report(w: Seq<Seq<char>>, n: int, sc: SearchScore)
    requires
        0 <= n <= w.len(),
        forall|j: int| 0 <= j < w.len() ==> !#[trigger] is_score_report(w, j),
    ensures
        score_scan(w, n, sc) == sc,
    decreases n,
{
    if n > 0 {
        scan_without_report(w, n - 1, sc);
        assert(!is_score_report(w, n - 1));
    }
}

/// On an "info" line, the last score report decides the evaluation, whatever
/// it stood at before the line: "score cp X" gives X centipawns and no mate
/// score, "score mate Y" a mate in Y and no centipawns. A line with no score
/// report leaves the evaluation as it was.
pub proof fn info_line_takes_last_score(line: Seq<char>, sc: SearchScore, r: SearchLine)
    requires
        search_line_spec(line, sc, r),
        !"bestmove"@.is_prefix_of(trim_spec(line)),
        "info"@.is_prefix_of(trim_spec(line)),
    ensures
        forall|i: int| #![trigger is_score_report(words_spec(trim_spec(line)), i)]
            is_score_report(words_spec(trim_spec(line)), i)
            && (forall|j: int| i < j < words_spec(trim_spec(line)).len() ==> !#[trigger] is_score_report(words_spec(trim_spec(line)), j))
            ==> r == SearchLine::Score(reported_score(words_spec(trim_spec(line)), i)),
        (forall|j: int| 0 <= j < words_spec(trim_spec(line)).len() ==> !#[trigger] is_score_report(words_spec(trim_spec(line)), j))
            ==> r == SearchLine::Score(sc),
{
    let w = words_spec(trim_spec(line));
    assert forall|i: int| #![trigger is_score_report(w, i)]
        is_score_report(w, i) && (forall|j: int| i < j < w.len() ==> !#[trigger] is_score_report(w, j))
        implies r == SearchLine::Score(reported_score(w, i)) by {
        scan_after_last_report(w, i, w.len() as int, sc);
    }
    if forall|j: int| 0 <= j < w.len() ==> !#[trigger] is_score_report(w, j) {
        scan_without_report(w, w.len() as int, sc);
    }
}

/// A line that is neither a "bestmove" line nor an "info" line leaves the
/// evaluation as it was.
pub proof fn other_lines_keep_the_score(line: Seq<char>, sc: SearchScore, r: SearchLine)
    requires
        search_line_spec(line, sc, r),
        !"bestmove"@.is_prefix_of(trim_spec(line)),
        !"info"@.is_prefix_of(trim_spec(line)),
    ensures
        r == SearchLine::Score(sc),
{
}

/// Black's scores turn into white's by changing sign: the two add up to
/// zero, and a missing score stays missing.
pub proof fn black_scores_change_sign(x: Option<i32>)
    requires
        x != Some(i32::MIN),
    ensures
        x is None ==> negate(x) is None,
        x matches Some(v) ==> negate(x) matches Some(w) && v + w == 0,
{
}

/// The requested strength is kept when the engine accepts it, and otherwise
/// brought to the nearest strength it accepts.
pub proof fn strength_is_clamped(v: u32)
    ensures
        MIN_ELO <= clamp_elo_spec(v) <= MAX_ELO,
        MIN_ELO <= v <= MAX_ELO ==> clamp_elo_spec(v) == v,
        v < MIN_ELO ==> clamp_elo_spec(v) == MIN_ELO,
        v > MAX_ELO ==> clamp_elo_spec(v) == MAX_ELO,
        MIN_ELO == 1320 && MAX_ELO == 3190,
{
}

/// Decimal writing of a number: digits only, no leading zero (but for zero
/// itself), and reading the digits back gives the number; so `parse::<i32>`
/// reads back every written `i32` that is not negative.
pub proof fn decimal_reads_back(n: nat)
    ensures
        decimal_spec(n).len() > 0,
        all_digits(decimal_spec(n)),
        decimal_spec(n).len() > 1 ==> decimal_spec(n)[0] != '0',
        n >= 10 ==> decimal_spec(n).len() > 1,
        digits_value(decimal_spec(n)) == n,
        n <= i32::MAX ==> parse_i32_spec(decimal_spec(n)) == Some(n as i32),
    decreases n,
{
    let d = decimal_spec(n);
    if n < 10 {
        assert(digit_char(n as int) as int == '0' as int + n);
        assert(d.drop_last().len() == 0);
        assert(digits_value(d.drop_last()) == 0);
        assert(d.last() == digit_char(n as int));
    } else {
        decimal_reads_back(n / 10);
        let h = decimal_spec(n / 10);
        let c = digit_char((n % 10) as int);
        assert(c as int == '0' as int + n % 10);
        assert(d == h.push(c));
        assert(d.drop_last() =~= h);
        assert(d.last() == c);
        assert(n / 10 * 10 + n % 10 == n);
        assert(digits_value(d) == digits_value(h) * 10 + (n % 10));
        assert forall|i: int| 0 <= i < d.len() implies '0' <= #[trigger] d[i] <= '9' by {
            if i < h.len() {
                assert(d[i] == h[i]);
            }
        }
        if h.len() == 1 {
            assert(d[0] == h[0]);
            assert(n / 10 >= 1 && n / 10 < 10);
            assert(h[0] == digit_char((n / 10) as int));
            assert(digit_char((n / 10) as int) as int == '0' as int + n / 10);
        } else {
            assert(d[0] == h[0]);
        }
    }
    if n <= i32::MAX {
        assert(d[0] != '-' && d[0] != '+');
    }
}

proof fn words_from_are_words(s: Seq<char>, i: int, cur: Seq<char>)
    requires
        0 <= i,
        forall|j: int| 0 <= j < cur.len() ==> !is_white_space(#[trigger] cur[j]),
    ensures
        forall|k: int| 0 <= k < words_from(s, i, cur).len() ==> (#[trigger] words_from(s, i, cur)[k]).len() > 0
            && forall|j: int| 0 <= j < words_from(s, i, cur)[k].len() ==> !is_white_space(#[trigger] words_from(s, i, cur)[k][j]),
    decreases s.len() - i,
{
    if i >= s.len() {
        if cur.len() > 0 {
            assert(words_from(s, i, cur) == seq![cur]);
            assert forall|k: int| 0 <= k < words_from(s, i, cur).len() implies (#[trigger] words_from(s, i, cur)[k]).len() > 0
                && forall|j: int| 0 <= j < words_from(s, i, cur)[k].len() ==> !is_white_space(#[trigger] words_from(s, i, cur)[k][j]) by {
                assert(words_from(s, i, cur)[k] == cur);
            }
        }
    } else if is_white_space(s[i]) {
        words_from_are_words(s, i + 1, Seq::empty());
        let head: Seq<Seq<char>> = if cur.len() > 0 { seq![cur] } else { Seq::empty() };
        let rest = words_from(s, i + 1, Seq::empty());
        assert(words_from(s, i, cur) == head + rest);
        assert forall|k: int| 0 <= k < (head + rest).len() implies (#[trigger] (head + rest)[k]).len() > 0
            && forall|j: int| 0 <= j < (head + rest)[k].len() ==> !is_white_space(#[trigger] (head + rest)[k][j]) by {
            if k < head.len() {
                assert((head + rest)[k] == cur);
            } else {
                assert((head + rest)[k] == rest[k - head.len()]);
            }
        }
    } else {
        let next = cur.push(s[i]);
        assert forall|j: int| 0 <= j < next.len() implies !is_white_space(#[trigger] next[j]) by {
            if j < cur.len() {
                assert(next[j] == cur[j]);
            }
        }
        words_from_are_words(s, i + 1, next);
        assert(words_from(s, i, cur) == words_from(s, i + 1, next));
    }
}

/// Every word of a line is non-empty and holds no white space.
pub proof fn words_hold_no_white_space(s: Seq<char>)
    ensures
        forall|k: int| 0 <= k < words_spec(s).len() ==> (#[trigger] words_spec(s)[k]).len() > 0
            && forall|j: int| 0 <= j < words_spec(s)[k].len() ==> !is_white_space(#[trigger] words_spec(s)[k][j]),
{
    words_from_are_words(s, 0, Seq::empty());
}

/// A word: not empty, and without white space.
pub open spec fn is_word(w: Seq<char>) -> bool {
    w.len() > 0 && forall|j: int| 0 <= j < w.len() ==> !is_white_space(#[trigger] w[j])
}

/// Words written one after another, a single space between two of them.
pub open spec fn joined(ws: Seq<Seq<char>>) -> Seq<char>
    decreases ws.len(),
{
    if ws.len() == 0 {
        Seq::empty()
    } else if ws.len() == 1 {
        ws[0]
    } else {
        ws[0] + seq![' '] + joined(ws.drop_first())
    }
}

proof fn scan_word(s: Seq<char>, i: int, k: int, cur: Seq<char>)
    requires
        0 <= i <= k <= s.len(),
        forall|j: int| i <= j < k ==> !is_white_space(#[trigger] s[j]),
    ensures
        words_from(s, i, cur) == words_from(s, k, cur + s.subrange(i, k)),
    decreases k - i,
{
    if i < k {
        scan_word(s, i + 1, k, cur.push(s[i]));
        assert(cur.push(s[i]) + s.subrange(i + 1, k) =~= cur + s.subrange(i, k));
    } else {
        assert(cur + s.subrange(i, k) =~= cur);
    }
}

proof fn words_from_joined(s: Seq<char>, i: int, ws: Seq<Seq<char>>)
    requires
        0 <= i <= s.len(),
        s.subrange(i, s.len() as int) == joined(ws),
        forall|k: int| 0 <= k < ws.len() ==> is_word(#[trigger] ws[k]),
    ensures
        words_from(s, i, Seq::empty()) == ws,
    decreases ws.len(),
{
    if ws.len() == 0 {
        assert(s.subrange(i, s.len() as int).len() == 0);
        assert(words_from(s, i, Seq::empty()) =~= ws);
    } else {
        let w = ws[0];
        assert(is_word(w));
        let k = i + w.len();
        let sub = s.subrange(i, s.len() as int);
        assert(sub.subrange(0, w.len() as int) =~= w) by {
            if ws.len() > 1 {
                assert(sub == w + seq![' '] + joined(ws.drop_first()));
            }
        }
        assert(w.len() <= sub.len()) by {
            if ws.len() > 1 {
                assert(sub == w + seq![' '] + joined(ws.drop_first()));
            }
        }
        assert forall|j: int| i <= j < k implies !is_white_space(#[trigger] s[j]) by {
            assert(s[j] == sub[j - i]);
            assert(sub[j - i] == w[j - i]);
        }
        scan_word(s, i, k, Seq::empty());
        assert(Seq::<char>::empty() + s.subrange(i, k) =~= w);
        if ws.len() == 1 {
            assert(k == s.len());
            assert(words_from(s, k, w) == seq![w]);
            assert(ws =~= seq![w]);
        } else {
            let rest = ws.drop_first();
            assert(sub == w + seq![' '] + joined(rest));
            assert(s[k] == sub[w.len() as int]);
            assert(s[k] == ' ');
            let tail = s.subrange(k + 1, s.len() as int);
            assert(sub.len() == w.len() + 1 + joined(rest).len());
            assert(tail.len() == joined(rest).len());
            assert forall|m: int| 0 <= m < tail.len() implies tail[m] == joined(rest)[m] by {
                assert(tail[m] == s[k + 1 + m]);
                assert(s[k + 1 + m] == sub[w.len() + 1 + m]);
                assert((w + seq![' '] + joined(rest))[w.len() + 1 + m] == joined(rest)[m]);
            }
            assert(tail =~= joined(rest));
            assert forall|m: int| 0 <= m < rest.len() implies is_word(#[trigger] rest[m]) by {
                assert(rest[m] == ws[m + 1]);
            }
            words_from_joined(s, k + 1, rest);
            assert(words_from(s, k, w) == seq![w] + words_from(s, k + 1, Seq::empty()));
            assert(seq![w] + rest =~= ws);
        }
    }
}

/// Splitting into words undoes writing words one after another with single
/// spaces between them.
pub proof fn words_of_joined_words(ws: Seq<Seq<char>>)
    requires
        forall|k: int| 0 <= k < ws.len() ==> is_word(#[trigger] ws[k]),
    ensures
        words_spec(joined(ws)) == ws,
{
    let s = joined(ws);
    assert(s.subrange(0, s.len() as int) =~= s);
    words_from_joined(s, 0, ws);
}

proof fn joined_ends(ws: Seq<Seq<char>>)
    requires
        ws.len() > 0,
        forall|k: int| 0 <= k < ws.len() ==> is_word(#[trigger] ws[k]),
    ensures
        joined(ws).len() > 0,
        joined(ws)[0] == ws[0][0],
        joined(ws).last() == ws.last().last(),
    decreases ws.len(),
{
    assert(is_word(ws[0]));
    if ws.len() > 1 {
        let rest = ws.drop_first();
        assert forall|m: int| 0 <= m < rest.len() implies is_word(#[trigger] rest[m]) by {
            assert(rest[m] == ws[m + 1]);
        }
        joined_ends(rest);
        assert(rest.last() == ws.last());
    }
}

/// A line "bestmove" followed by words ends the search with the first of
/// them, whatever the evaluation stood at.
pub proof fn bestmove_line_gives_its_move(ws: Seq<Seq<char>>, sc: SearchScore, r: SearchLine)
    requires
        ws.len() > 0,
        forall|k: int| 0 <= k < ws.len() ==> is_word(#[trigger] ws[k]),
        search_line_spec("bestmove"@ + seq![' '] + joined(ws), sc, r),
    ensures
        r matches SearchLine::BestMove(m) && opt_text(m) == Some(ws[0]),
{
    reveal_strlit("bestmove");
    let head = "bestmove"@;
    let line = head + seq![' '] + joined(ws);
    joined_ends(ws);
    assert(is_word(ws.last()));
    assert(!is_white_space(ws.last().last()));
    assert(line[0] == 'b');
    assert(line.last() == joined(ws).last());
    assert(trim_start_spec(line) == line);
    assert(trim_end_spec(line) == line);
    assert(trim_spec(line) == line);
    assert(head.is_prefix_of(line)) by {
        assert(line.subrange(0, head.len() as int) =~= head);
    }
    let after = line.subrange(head.len() as int, line.len() as int);
    assert(after =~= seq![' '] + joined(ws));
    words_of_joined_words(ws);
    assert(after.subrange(1, after.len() as int) =~= joined(ws));
    words_from_joined(after, 1, ws);
    assert(words_from(after, 0, Seq::empty()) == words_from(after, 1, Seq::empty()));
    assert(first_word(after) == Some(ws[0]));
}

/// A finished search gives the move the engine named, unless it named none
/// or "(none)": then there is no legal move.
pub proof fn search_gives_the_named_move(m: Seq<char>)
    ensures
        m != "(none)"@ ==> search_result_spec(Some(m)) == Ok::<Seq<char>, Seq<char>>(m),
        search_result_spec(Some("(none)"@)) == Err::<Seq<char>, Seq<char>>(msg_no_legal_moves()),
        search_result_spec(None) == Err::<Seq<char>, Seq<char>>(msg_no_legal_moves()),
{
}

} // verus!
