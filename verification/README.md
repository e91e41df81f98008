# yuki_chess

The rules engine of a desktop chess board, with machine-checked contracts.

- `src/` is the library, verified with Verus: piece movement, castling with
  attacked-square checks, en passant, promotion to a chosen piece, check,
  checkmate and stalemate, FEN export, square names, and the decisions taken
  while talking to a UCI engine (reading its output, building its commands,
  turning its scores to white's point of view).
  - `types.rs`, `board.rs`: pieces, the 64-square board, attacks and check.
  - `rules.rs`: how each piece may move, what a move does to the board, and
    which moves are legal.
  - `game.rs`: the game state and its operations (`new`, `make_move`,
    `legal_moves`, `to_dto`, `to_fen`).
  - `square.rs`, `text.rs`, `fen.rs`, `messages.rs`: names, text handling,
    FEN, and the texts of refusals.
  - `uci.rs`: engine protocol decisions.
  - `laws.rs`: properties that relate several operations, proved.
- `app/` is the Tauri shell: commands, the shared state, and the Stockfish
  process.
- `tests/` runs the library on concrete games.
