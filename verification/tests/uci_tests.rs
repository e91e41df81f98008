use yuki_chess::fen::decimal;
use yuki_chess::game::Game;
use yuki_chess::text::{trim, trim_start};
use yuki_chess::square::{parse_normalized_square, parse_square, square_name};
use yuki_chess::types::{Color, Piece, PieceType};
use yuki_chess::uci::{
    evaluation, finish_search, go_command, hint, line_starts_with, parse_i32, parse_uci_move,
    position_command, read_search_line, strength_commands, to_white_perspective, words,
    SearchLine, SearchScore,
};

#[test]
fn perspective_flips_for_black() {
    assert_eq!(to_white_perspective(Some(35), None, true), (Some(35), None));
    assert_eq!(to_white_perspective(Some(35), None, false), (Some(-35), None));
    assert_eq!(to_white_perspective(None, Some(-3), false), (None, Some(3)));
    let e = evaluation(SearchScore { score_cp: Some(-120), mate_in: None }, false);
    assert_eq!((e.score_cp, e.mate_in), (Some(120), None));
}

#[test]
fn uci_moves_split_into_squares() {
    assert_eq!(
        parse_uci_move("e2e4"),
        Ok(("e2".to_string(), "e4".to_string(), None))
    );
    assert_eq!(
        parse_uci_move("e7e8q"),
        Ok(("e7".to_string(), "e8".to_string(), Some(PieceType::Queen)))
    );
    assert_eq!(
        parse_uci_move("a2a1n"),
        Ok(("a2".to_string(), "a1".to_string(), Some(PieceType::Knight)))
    );
    assert_eq!(parse_uci_move("e2e"), Err("Lance do motor inválido.".to_string()));
    assert_eq!(parse_uci_move("e7e8k"), Err("Promoção do motor inválida.".to_string()));
}

#[test]
fn hint_carries_move_and_score() {
    let h = hint("b7b8r", SearchScore { score_cp: Some(50), mate_in: None }).unwrap();
    assert_eq!(h.from, "b7");
    assert_eq!(h.to, "b8");
    assert_eq!(h.promotion, Some(PieceType::Rook));
    assert_eq!(h.score_cp, Some(50));
    assert_eq!(h.mate_in, None);
    assert!(hint("b7", SearchScore { score_cp: None, mate_in: None }).is_err());
}

#[test]
fn strength_is_clamped() {
    assert_eq!(
        strength_commands(Some(800)),
        vec![
            "setoption name UCI_LimitStrength value true".to_string(),
            "setoption name UCI_Elo value 1320".to_string()
        ]
    );
    assert_eq!(
        strength_commands(Some(2000)),
        vec![
            "setoption name UCI_LimitStrength value true".to_string(),
            "setoption name UCI_Elo value 2000".to_string()
        ]
    );
    assert_eq!(
        strength_commands(Some(4000))[1],
        "setoption name UCI_Elo value 3190".to_string()
    );
    assert_eq!(
        strength_commands(None),
        vec!["setoption name UCI_LimitStrength value false".to_string()]
    );
}

#[test]
fn commands_for_a_search() {
    assert_eq!(position_command("8/8/8/8/8/8/8/8 w - - 0 1"), "position fen 8/8/8/8/8/8/8/8 w - - 0 1");
    assert_eq!(go_command(400), "go movetime 400");
    assert_eq!(decimal(0), "0");
    assert_eq!(decimal(18446744073709551615), "18446744073709551615");
}

#[test]
fn acknowledgements_are_recognised() {
    assert!(line_starts_with("uciok\n", "uciok"));
    assert!(line_starts_with("   readyok", "readyok"));
    assert!(!line_starts_with("id name Stockfish", "uciok"));
    assert!(!line_starts_with("ready", "readyok"));
}

#[test]
fn words_split_on_white_space() {
    assert_eq!(words("  info depth 3\tscore cp 20 "), vec!["info", "depth", "3", "score", "cp", "20"]);
    assert_eq!(words(""), Vec::<&str>::new());
    assert_eq!(words("   "), Vec::<&str>::new());
}

#[test]
fn integers_read_like_str_parse() {
    assert_eq!(parse_i32("42"), Some(42));
    assert_eq!(parse_i32("-17"), Some(-17));
    assert_eq!(parse_i32("+5"), Some(5));
    assert_eq!(parse_i32("2147483647"), Some(i32::MAX));
    assert_eq!(parse_i32("-2147483648"), Some(i32::MIN));
    assert_eq!(parse_i32("2147483648"), None);
    assert_eq!(parse_i32("99999999999999999999"), None);
    assert_eq!(parse_i32("-"), None);
    assert_eq!(parse_i32(""), None);
    assert_eq!(parse_i32("12a"), None);
    for s in ["0", "7", "-0", "+12", "123456", "-2147483647", "x", "1 2", "--1"] {
        assert_eq!(parse_i32(s), s.parse::<i32>().ok(), "{}", s);
    }
}

#[test]
fn search_lines_update_the_score() {
    let start = SearchScore { score_cp: None, mate_in: None };
    match read_search_line("info depth 12 score cp 31 nodes 1000 pv e2e4", start) {
        SearchLine::Score(s) => assert_eq!(s, SearchScore { score_cp: Some(31), mate_in: None }),
        other => panic!("{:?}", other),
    }
    let cp = SearchScore { score_cp: Some(31), mate_in: None };
    match read_search_line("info depth 20 score mate -2 pv h4e1", cp) {
        SearchLine::Score(s) => assert_eq!(s, SearchScore { score_cp: None, mate_in: Some(-2) }),
        other => panic!("{:?}", other),
    }
    match read_search_line("info string NNUE enabled", cp) {
        SearchLine::Score(s) => assert_eq!(s, cp),
        other => panic!("{:?}", other),
    }
    match read_search_line("readyok", cp) {
        SearchLine::Score(s) => assert_eq!(s, cp),
        other => panic!("{:?}", other),
    }
    match read_search_line("bestmove e2e4 ponder e7e5\n", cp) {
        SearchLine::BestMove(m) => assert_eq!(m, Some("e2e4".to_string())),
        other => panic!("{:?}", other),
    }
    match read_search_line("bestmove", cp) {
        SearchLine::BestMove(m) => assert_eq!(m, None),
        other => panic!("{:?}", other),
    }
}

#[test]
fn finished_search_without_move_is_refused() {
    assert_eq!(finish_search(Some("e2e4".to_string())), Ok("e2e4".to_string()));
    assert_eq!(
        finish_search(Some("(none)".to_string())),
        Err("Não há lances legais nessa posição.".to_string())
    );
    assert_eq!(finish_search(None), Err("Não há lances legais nessa posição.".to_string()));
}

#[test]
fn square_names_read_back() {
    for r in 0..8 {
        for f in 0..8 {
            let name = square_name(r, f);
            assert_eq!(parse_square(&name), Ok((r, f)));
            assert_eq!(parse_normalized_square(&name), Ok((r, f)));
        }
    }
    assert_eq!(square_name(3, 4), "e4");
    assert_eq!(parse_square("\tH8\n"), Ok((7, 7)));
}

#[test]
fn engine_moves_are_played() {
    let mut game = Game::new();
    assert_eq!(game.play_uci_move("e2e4"), Ok(()));
    assert_eq!(game.play_uci_move("e2e"), Err("Lance do motor inválido.".to_string()));
    assert_eq!(game.play_uci_move("e7e5"), Ok(()));
    assert_eq!(game.turn(), Color::White);
    assert_eq!(
        game.piece_at(4, 4),
        Some(Piece { color: Color::Black, piece_type: PieceType::Pawn })
    );
}

#[test]
fn white_space_is_unicode_white_space() {
    for s in ["\u{a0}e2\u{3000}", "\u{2009}\te2\n", "\u{180e}e2", "e2\u{85}", "\u{200b}e2"] {
        assert_eq!(trim(s), s.trim(), "{:?}", s);
        assert_eq!(trim_start(s), s.trim_start(), "{:?}", s);
        let ws: Vec<&str> = s.split_whitespace().collect();
        assert_eq!(words(s), ws, "{:?}", s);
    }
}
