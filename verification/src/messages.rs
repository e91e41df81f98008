use vstd::prelude::*;

verus! {

// The texts of the refusals that the game answers with.

pub open spec fn msg_game_over() -> Seq<char> {
    "O jogo já terminou."@
}

pub fn err_game_over() -> (s: String)
    ensures
        s@ == msg_game_over(),
{
    String::from_str("O jogo já terminou.")
}

pub open spec fn msg_same_square() -> Seq<char> {
    "A casa de origem e destino são iguais."@
}

pub fn err_same_square() -> (s: String)
    ensures
        s@ == msg_same_square(),
{
    String::from_str("A casa de origem e destino são iguais.")
}

pub open spec fn msg_no_piece() -> Seq<char> {
    "Não há peça na casa de origem."@
}

pub fn err_no_piece() -> (s: String)
    ensures
        s@ == msg_no_piece(),
{
    String::from_str("Não há peça na casa de origem.")
}

pub open spec fn msg_wrong_turn() -> Seq<char> {
    "Não é a vez dessa cor."@
}

pub fn err_wrong_turn() -> (s: String)
    ensures
        s@ == msg_wrong_turn(),
{
    String::from_str("Não é a vez dessa cor.")
}

pub open spec fn msg_own_capture() -> Seq<char> {
    "Não é possível capturar sua própria peça."@
}

pub fn err_own_capture() -> (s: String)
    ensures
        s@ == msg_own_capture(),
{
    String::from_str("Não é possível capturar sua própria peça.")
}

pub open spec fn msg_invalid_knight() -> Seq<char> {
    "Movimento inválido para o cavalo."@
}

pub fn err_invalid_knight() -> (s: String)
    ensures
        s@ == msg_invalid_knight(),
{
    String::from_str("Movimento inválido para o cavalo.")
}

pub open spec fn msg_invalid_bishop() -> Seq<char> {
    "Movimento inválido para o bispo."@
}

pub fn err_invalid_bishop() -> (s: String)
    ensures
        s@ == msg_invalid_bishop(),
{
    String::from_str("Movimento inválido para o bispo.")
}

pub open spec fn msg_invalid_rook() -> Seq<char> {
    "Movimento inválido para a torre."@
}

pub fn err_invalid_rook() -> (s: String)
    ensures
        s@ == msg_invalid_rook(),
{
    String::from_str("Movimento inválido para a torre.")
}

pub open spec fn msg_invalid_queen() -> Seq<char> {
    "Movimento inválido para a dama."@
}

pub fn err_invalid_queen() -> (s: String)
    ensures
        s@ == msg_invalid_queen(),
{
    String::from_str("Movimento inválido para a dama.")
}

pub open spec fn msg_invalid_king() -> Seq<char> {
    "Movimento inválido para o rei."@
}

pub fn err_invalid_king() -> (s: String)
    ensures
        s@ == msg_invalid_king(),
{
    String::from_str("Movimento inválido para o rei.")
}

pub open spec fn msg_path_blocked() -> Seq<char> {
    "Caminho bloqueado."@
}

pub fn err_path_blocked() -> (s: String)
    ensures
        s@ == msg_path_blocked(),
{
    String::from_str("Caminho bloqueado.")
}

pub open spec fn msg_pawn_forward_capture() -> Seq<char> {
    "O peão não pode capturar para frente."@
}

pub fn err_pawn_forward_capture() -> (s: String)
    ensures
        s@ == msg_pawn_forward_capture(),
{
    String::from_str("O peão não pode capturar para frente.")
}

pub open spec fn msg_invalid_pawn() -> Seq<char> {
    "Movimento inválido para o peão."@
}

pub fn err_invalid_pawn() -> (s: String)
    ensures
        s@ == msg_invalid_pawn(),
{
    String::from_str("Movimento inválido para o peão.")
}

pub open spec fn msg_pawn_needs_enemy() -> Seq<char> {
    "O peão só captura na diagonal quando há peça inimiga."@
}

pub fn err_pawn_needs_enemy() -> (s: String)
    ensures
        s@ == msg_pawn_needs_enemy(),
{
    String::from_str("O peão só captura na diagonal quando há peça inimiga.")
}

pub open spec fn msg_king_in_check() -> Seq<char> {
    "Esse lance deixaria o seu rei em xeque."@
}

pub fn err_king_in_check() -> (s: String)
    ensures
        s@ == msg_king_in_check(),
{
    String::from_str("Esse lance deixaria o seu rei em xeque.")
}

pub open spec fn msg_castling_not_allowed() -> Seq<char> {
    "Roque não permitido: o rei ou a torre já se moveram."@
}

pub fn err_castling_not_allowed() -> (s: String)
    ensures
        s@ == msg_castling_not_allowed(),
{
    String::from_str("Roque não permitido: o rei ou a torre já se moveram.")
}

pub open spec fn msg_castling_attacked() -> Seq<char> {
    "Não é possível rocar saindo, passando ou chegando em casa atacada."@
}

pub fn err_castling_attacked() -> (s: String)
    ensures
        s@ == msg_castling_attacked(),
{
    String::from_str("Não é possível rocar saindo, passando ou chegando em casa atacada.")
}

pub open spec fn msg_invalid_promotion() -> Seq<char> {
    "Promoção inválida: escolha dama, torre, bispo ou cavalo."@
}

pub fn err_invalid_promotion() -> (s: String)
    ensures
        s@ == msg_invalid_promotion(),
{
    String::from_str("Promoção inválida: escolha dama, torre, bispo ou cavalo.")
}

pub open spec fn msg_invalid_square_prefix() -> Seq<char> {
    "Casa inválida: "@
}

pub fn err_invalid_square_prefix() -> (s: String)
    ensures
        s@ == msg_invalid_square_prefix(),
{
    String::from_str("Casa inválida: ")
}

pub open spec fn msg_invalid_engine_move() -> Seq<char> {
    "Lance do motor inválido."@
}

pub fn err_invalid_engine_move() -> (s: String)
    ensures
        s@ == msg_invalid_engine_move(),
{
    String::from_str("Lance do motor inválido.")
}

pub open spec fn msg_invalid_engine_promotion() -> Seq<char> {
    "Promoção do motor inválida."@
}

pub fn err_invalid_engine_promotion() -> (s: String)
    ensures
        s@ == msg_invalid_engine_promotion(),
{
    String::from_str("Promoção do motor inválida.")
}

pub open spec fn msg_no_legal_moves() -> Seq<char> {
    "Não há lances legais nessa posição."@
}

pub fn err_no_legal_moves() -> (s: String)
    ensures
        s@ == msg_no_legal_moves(),
{
    String::from_str("Não há lances legais nessa posição.")
}

} // verus!
