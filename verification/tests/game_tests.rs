use yuki_chess::game::Game;
use yuki_chess::types::{Color, Piece, PieceType};

fn play(game: &mut Game, moves: &[(&str, &str)]) {
    for (from, to) in moves {
        let r = game.make_move(from, to, None);
        assert!(r.is_ok(), "{}-{} refused: {:?}", from, to, r);
    }
}

fn names(v: &[&str]) -> Vec<String> {
    v.iter().map(|s| s.to_string()).collect()
}

#[test]
fn new_game_is_standard_position() {
    let game = Game::new();
    assert_eq!(
        game.to_fen(),
        "rnbqkbnr/pppppppp/8/8/8/8/PPPPPPPP/RNBQKBNR w KQkq - 0 1"
    );
    assert_eq!(game.turn(), Color::White);
    assert!(!game.is_over());
    assert_eq!(game.winner(), None);
    assert_eq!(
        game.piece_at(0, 4),
        Some(Piece { color: Color::White, piece_type: PieceType::King })
    );
    assert_eq!(
        game.piece_at(7, 3),
        Some(Piece { color: Color::Black, piece_type: PieceType::Queen })
    );
    assert_eq!(game.piece_at(4, 4), None);
}

#[test]
fn dto_mirrors_the_board() {
    let game = Game::new();
    let dto = game.to_dto();
    assert_eq!(dto.board.len(), 8);
    assert!(dto.board.iter().all(|row| row.len() == 8));
    assert_eq!(
        dto.board[1][0],
        Some(Piece { color: Color::White, piece_type: PieceType::Pawn })
    );
    assert_eq!(dto.board[3][3], None);
    assert_eq!(dto.turn, Color::White);
    assert!(!dto.game_over);
    assert!(dto.captured_white.is_empty());
    assert!(dto.captured_black.is_empty());
}

#[test]
fn opening_moves_of_pawn_and_knight() {
    let game = Game::new();
    assert_eq!(game.legal_moves("e2"), Ok(names(&["e3", "e4"])));
    assert_eq!(game.legal_moves("g1"), Ok(names(&["f3", "h3"])));
    assert_eq!(game.legal_moves("e1"), Ok(Vec::new()));
    assert_eq!(game.legal_moves("e4"), Ok(Vec::new()));
    assert_eq!(game.legal_moves("b8"), Ok(names(&["a6", "c6"])));
}

#[test]
fn square_names_are_trimmed_and_case_insensitive() {
    let game = Game::new();
    assert_eq!(game.legal_moves("  E2 "), Ok(names(&["e3", "e4"])));
    assert_eq!(game.legal_moves("z9"), Err("Casa inválida: z9".to_string()));
    assert_eq!(game.legal_moves(" I1 "), Err("Casa inválida: i1".to_string()));
    assert_eq!(game.legal_moves("e10"), Err("Casa inválida: e10".to_string()));
}

#[test]
fn double_push_sets_en_passant_square() {
    let mut game = Game::new();
    play(&mut game, &[("e2", "e4")]);
    assert_eq!(
        game.to_fen(),
        "rnbqkbnr/pppppppp/8/8/4P3/8/PPPP1PPP/RNBQKBNR b KQkq e3 0 1"
    );
    play(&mut game, &[("g8", "f6")]);
    assert_eq!(
        game.to_fen(),
        "rnbqkb1r/pppppppp/5n2/8/4P3/8/PPPP1PPP/RNBQKBNR w KQkq - 1 2"
    );
}

#[test]
fn refusals_leave_the_game_unchanged() {
    let mut game = Game::new();
    let before = game.to_fen();
    assert_eq!(game.make_move("e7", "e5", None), Err("Não é a vez dessa cor.".to_string()));
    assert_eq!(game.make_move("e3", "e4", None), Err("Não há peça na casa de origem.".to_string()));
    assert_eq!(
        game.make_move("e2", "e2", None),
        Err("A casa de origem e destino são iguais.".to_string())
    );
    assert_eq!(
        game.make_move("a1", "a2", None),
        Err("Não é possível capturar sua própria peça.".to_string())
    );
    assert_eq!(game.make_move("a1", "a5", None), Err("Caminho bloqueado.".to_string()));
    assert_eq!(
        game.make_move("b1", "b3", None),
        Err("Movimento inválido para o cavalo.".to_string())
    );
    assert_eq!(
        game.make_move("e2", "e5", None),
        Err("Movimento inválido para o peão.".to_string())
    );
    assert_eq!(
        game.make_move("e2", "d3", None),
        Err("O peão só captura na diagonal quando há peça inimiga.".to_string())
    );
    assert_eq!(game.make_move("x2", "e4", None), Err("Casa inválida: x2".to_string()));
    assert_eq!(game.to_fen(), before);
}

#[test]
fn pawn_cannot_capture_forward() {
    let mut game = Game::new();
    play(&mut game, &[("e2", "e4"), ("e7", "e5")]);
    assert_eq!(
        game.make_move("e4", "e5", None),
        Err("O peão não pode capturar para frente.".to_string())
    );
}

#[test]
fn fools_mate_ends_the_game() {
    let mut game = Game::new();
    play(&mut game, &[("f2", "f3"), ("e7", "e5"), ("g2", "g4"), ("d8", "h4")]);
    assert!(game.is_over());
    assert_eq!(game.winner(), Some(Color::Black));
    assert_eq!(game.make_move("a2", "a3", None), Err("O jogo já terminou.".to_string()));
}

#[test]
fn stalemate_ends_without_winner() {
    let mut game = Game::new();
    play(
        &mut game,
        &[
            ("e2", "e3"), ("a7", "a5"),
            ("d1", "h5"), ("a8", "a6"),
            ("h5", "a5"), ("h7", "h5"),
            ("h2", "h4"), ("a6", "h6"),
            ("a5", "c7"), ("f7", "f6"),
            ("c7", "d7"), ("e8", "f7"),
            ("d7", "b7"), ("d8", "d3"),
            ("b7", "b8"), ("d3", "h7"),
            ("b8", "c8"), ("f7", "g6"),
            ("c8", "e6"),
        ],
    );
    assert!(game.is_over());
    assert_eq!(game.winner(), None);
}

#[test]
fn en_passant_capture() {
    let mut game = Game::new();
    play(&mut game, &[("e2", "e4"), ("a7", "a6"), ("e4", "e5"), ("d7", "d5")]);
    assert_eq!(game.legal_moves("e5"), Ok(names(&["d6", "e6"])));
    play(&mut game, &[("e5", "d6")]);
    assert_eq!(game.piece_at(4, 3), None);
    assert_eq!(
        game.piece_at(5, 3),
        Some(Piece { color: Color::White, piece_type: PieceType::Pawn })
    );
    assert_eq!(game.to_dto().captured_black, vec![PieceType::Pawn]);
}

#[test]
fn kingside_castling_moves_the_rook() {
    let mut game = Game::new();
    play(
        &mut game,
        &[("e2", "e4"), ("e7", "e5"), ("g1", "f3"), ("b8", "c6"), ("f1", "c4"), ("g8", "f6")],
    );
    assert_eq!(game.legal_moves("e1"), Ok(names(&["f1", "g1", "e2"])));
    play(&mut game, &[("e1", "g1")]);
    assert_eq!(
        game.piece_at(0, 6),
        Some(Piece { color: Color::White, piece_type: PieceType::King })
    );
    assert_eq!(
        game.piece_at(0, 5),
        Some(Piece { color: Color::White, piece_type: PieceType::Rook })
    );
    assert_eq!(game.piece_at(0, 7), None);
    assert_eq!(
        game.to_fen(),
        "r1bqkb1r/pppp1ppp/2n2n2/4p3/2B1P3/5N2/PPPP1PPP/RNBQ1RK1 b kq - 5 4"
    );
}

#[test]
fn castling_through_an_attacked_square_is_refused() {
    let mut game = Game::new();
    play(
        &mut game,
        &[
            ("e2", "e4"), ("e7", "e5"),
            ("g1", "f3"), ("d7", "d6"),
            ("f1", "c4"), ("c8", "g4"),
            ("d2", "d3"), ("g4", "f3"),
            ("a2", "a3"), ("f3", "e2"),
        ],
    );
    assert_eq!(
        game.make_move("e1", "g1", None),
        Err("Não é possível rocar saindo, passando ou chegando em casa atacada.".to_string())
    );
}

#[test]
fn castling_after_king_moved_is_refused() {
    let mut game = Game::new();
    play(
        &mut game,
        &[
            ("e2", "e4"), ("e7", "e5"),
            ("g1", "f3"), ("b8", "c6"),
            ("f1", "c4"), ("g8", "f6"),
            ("e1", "e2"), ("f8", "c5"),
            ("e2", "e1"), ("a7", "a6"),
        ],
    );
    assert_eq!(
        game.make_move("e1", "g1", None),
        Err("Roque não permitido: o rei ou a torre já se moveram.".to_string())
    );
}

#[test]
fn pinned_piece_cannot_expose_the_king() {
    let mut game = Game::new();
    play(&mut game, &[("e2", "e4"), ("e7", "e5"), ("d2", "d4"), ("f8", "b4")]);
    assert_eq!(
        game.make_move("c2", "c3", None),
        Ok(())
    );
    let mut game = Game::new();
    play(&mut game, &[("d2", "d4"), ("e7", "e5"), ("c2", "c3"), ("f8", "b4")]);
    assert_eq!(game.make_move("c3", "c4", None), Err("Esse lance deixaria o seu rei em xeque.".to_string()));
}

#[test]
fn promotion_to_chosen_piece() {
    let mut game = Game::new();
    play(
        &mut game,
        &[
            ("a2", "a4"), ("b7", "b5"),
            ("a4", "b5"), ("a7", "a6"),
            ("b5", "a6"), ("c8", "b7"),
            ("a6", "b7"), ("b8", "c6"),
        ],
    );
    assert_eq!(
        game.make_move("b7", "a8", Some(PieceType::King)),
        Err("Promoção inválida: escolha dama, torre, bispo ou cavalo.".to_string())
    );
    assert_eq!(game.make_move("b7", "a8", Some(PieceType::Knight)), Ok(()));
    assert_eq!(
        game.piece_at(7, 0),
        Some(Piece { color: Color::White, piece_type: PieceType::Knight })
    );
    assert_eq!(
        game.to_dto().captured_black,
        vec![PieceType::Pawn, PieceType::Pawn, PieceType::Bishop, PieceType::Rook]
    );
}

#[test]
fn promotion_defaults_to_queen() {
    let mut game = Game::new();
    play(
        &mut game,
        &[
            ("a2", "a4"), ("b7", "b5"),
            ("a4", "b5"), ("a7", "a6"),
            ("b5", "a6"), ("c8", "b7"),
            ("a6", "b7"), ("b8", "c6"),
            ("b7", "a8"),
        ],
    );
    assert_eq!(
        game.piece_at(7, 0),
        Some(Piece { color: Color::White, piece_type: PieceType::Queen })
    );
}
