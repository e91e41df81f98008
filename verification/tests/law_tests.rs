use yuki_chess::game::Game;
use yuki_chess::square::square_name;
use yuki_chess::types::{Color, PieceType};
use yuki_chess::uci::to_white_perspective;

fn play(game: &mut Game, moves: &[(&str, &str)]) {
    for (from, to) in moves {
        let r = game.make_move(from, to, None);
        assert!(r.is_ok(), "{}-{} refused: {:?}", from, to, r);
    }
}

fn pieces_on_board(game: &Game) -> usize {
    let mut n = 0;
    for r in 0..8 {
        for f in 0..8 {
            if game.piece_at(r, f).is_some() {
                n += 1;
            }
        }
    }
    n
}

#[test]
fn listed_targets_are_exactly_the_accepted_moves() {
    let opening: &[(&str, &str)] = &[("e2", "e4"), ("d7", "d5")];
    let mut game = Game::new();
    play(&mut game, opening);
    for r in 0..8 {
        for f in 0..8 {
            let from = square_name(r, f);
            let listed = game.legal_moves(&from).unwrap();
            for tr in 0..8 {
                for tf in 0..8 {
                    let to = square_name(tr, tf);
                    let mut trial = Game::new();
                    play(&mut trial, opening);
                    let own = trial.piece_at(r, f).map(|p| p.color) == Some(Color::White);
                    let accepted = trial.make_move(&from, &to, None).is_ok();
                    if own {
                        assert_eq!(listed.contains(&to), accepted, "{} to {}", from, to);
                    } else {
                        assert!(!accepted);
                    }
                }
            }
        }
    }
}

#[test]
fn white_has_twenty_moves_at_the_start() {
    let game = Game::new();
    let mut total = 0;
    for r in 0..2 {
        for f in 0..8 {
            total += game.legal_moves(&square_name(r, f)).unwrap().len();
        }
    }
    assert_eq!(total, 20);
}

#[test]
fn pieces_are_conserved_through_captures() {
    let mut game = Game::new();
    play(
        &mut game,
        &[
            ("e2", "e4"), ("d7", "d5"),
            ("e4", "d5"), ("d8", "d5"),
            ("b1", "c3"), ("d5", "a2"),
            ("a1", "a2"),
        ],
    );
    let dto = game.to_dto();
    assert_eq!(dto.captured_white, vec![PieceType::Pawn, PieceType::Pawn]);
    assert_eq!(dto.captured_black, vec![PieceType::Pawn, PieceType::Queen]);
    assert_eq!(pieces_on_board(&game) + dto.captured_white.len() + dto.captured_black.len(), 32);
}

#[test]
fn refused_move_changes_nothing() {
    let mut game = Game::new();
    play(&mut game, &[("e2", "e4")]);
    let fen = game.to_fen();
    let dto_before = game.to_dto();
    assert!(game.make_move("e4", "e5", None).is_err());
    assert_eq!(game.to_fen(), fen);
    assert_eq!(game.to_dto().board, dto_before.board);
}

#[test]
fn castling_rights_only_shrink() {
    let mut game = Game::new();
    play(&mut game, &[("g1", "f3"), ("g8", "f6"), ("h1", "g1"), ("h8", "g8"), ("g1", "h1")]);
    assert!(game.to_fen().contains(" Qq "));
}

#[test]
fn every_other_square_has_no_moves_when_empty() {
    let game = Game::new();
    for r in 2..6 {
        for f in 0..8 {
            assert_eq!(game.legal_moves(&square_name(r, f)), Ok(Vec::new()));
        }
    }
}

#[test]
fn perspective_twice_gives_back_the_score() {
    let (s, m) = to_white_perspective(Some(-40), Some(7), false);
    assert_eq!(to_white_perspective(s, m, false), (Some(-40), Some(7)));
}

#[test]
fn invalid_moves_of_each_piece_are_refused() {
    let mut game = Game::new();
    play(&mut game, &[("e2", "e4"), ("e7", "e5"), ("d2", "d4"), ("d7", "d5")]);
    assert_eq!(game.make_move("f1", "f3", None), Err("Movimento inválido para o bispo.".to_string()));
    assert_eq!(game.make_move("a1", "b3", None), Err("Movimento inválido para a torre.".to_string()));
    assert_eq!(game.make_move("d1", "e3", None), Err("Movimento inválido para a dama.".to_string()));
    assert_eq!(game.make_move("e1", "e3", None), Err("Movimento inválido para o rei.".to_string()));
    assert_eq!(game.make_move("d1", "d5", None), Err("Caminho bloqueado.".to_string()));
    assert_eq!(game.make_move("c1", "a3", None), Err("Caminho bloqueado.".to_string()));
    assert_eq!(game.make_move("d1", "h5", None), Ok(()));
}

fn side_on_board(game: &Game, c: Color, kings_only: bool) -> usize {
    let mut n = 0;
    for r in 0..8 {
        for f in 0..8 {
            if let Some(p) = game.piece_at(r, f) {
                if p.color == c && (!kings_only || p.piece_type == PieceType::King) {
                    n += 1;
                }
            }
        }
    }
    n
}

#[test]
fn each_side_keeps_sixteen_pieces_and_one_king() {
    let mut game = Game::new();
    let moves: &[(&str, &str)] = &[
        ("e2", "e4"), ("d7", "d5"),
        ("e4", "d5"), ("d8", "d5"),
        ("b1", "c3"), ("d5", "a2"),
        ("a1", "a2"), ("e7", "e5"),
        ("d2", "d4"), ("e5", "d4"),
    ];
    for (from, to) in moves {
        assert_eq!(game.make_move(from, to, None), Ok(()));
        let dto = game.to_dto();
        assert_eq!(side_on_board(&game, Color::White, false) + dto.captured_white.len(), 16);
        assert_eq!(side_on_board(&game, Color::Black, false) + dto.captured_black.len(), 16);
        assert_eq!(side_on_board(&game, Color::White, true), 1);
        assert_eq!(side_on_board(&game, Color::Black, true), 1);
        assert_eq!(game.winner(), None);
    }
}
