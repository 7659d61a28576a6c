use chessy::analysis::{eval_bar_cp, eval_tone, pv_to_san, EvalTone};
use chessy::engine::Score;
use chessy::game::Game;

fn start() -> String {
    Game::new().current_fen()
}

fn pos_after(moves: &[&str]) -> String {
    let mut game = Game::new();
    for uci in moves {
        game.make_uci_move(uci).unwrap();
    }
    game.current_fen()
}

#[test]
fn single_white_move_from_start() {
    let result = pv_to_san(&start(), &["e2e4".to_string()]);
    assert_eq!(result, "1. e4");
}

#[test]
fn single_black_move_includes_ellipsis() {
    let pos = pos_after(&["e2e4"]);
    let result = pv_to_san(&pos, &["e7e5".to_string()]);
    assert_eq!(result, "1... e5");
}

#[test]
fn two_moves_share_move_number() {
    let result = pv_to_san(&start(), &["e2e4".to_string(), "e7e5".to_string()]);
    assert_eq!(result, "1. e4 e5");
}

#[test]
fn move_number_increments_after_black_responds() {
    let result = pv_to_san(
        &start(),
        &["e2e4".to_string(), "e7e5".to_string(), "g1f3".to_string()],
    );
    assert_eq!(result, "1. e4 e5 2. Nf3");
}

#[test]
fn invalid_uci_stops_output_early() {
    let result = pv_to_san(
        &start(),
        &["e2e4".to_string(), "notamove".to_string(), "d2d4".to_string()],
    );
    assert_eq!(result, "1. e4");
}

#[test]
fn respects_eight_move_limit() {
    let moves: Vec<String> = ["e2e4", "e7e5", "g1f3", "b8c6", "f1b5", "a7a6", "b5a4", "g8f6", "e1g1"]
        .iter()
        .map(|s| s.to_string())
        .collect();
    let result = pv_to_san(&start(), &moves);
    let move_tokens = result
        .split_whitespace()
        .filter(|t| !t.ends_with('.') && !t.ends_with("..."))
        .count();
    assert_eq!(move_tokens, 8);
}

#[test]
fn empty_pv_returns_empty_string() {
    assert_eq!(pv_to_san(&start(), &[]), "");
}

#[test]
fn illegal_move_stops_output() {
    let result = pv_to_san(&start(), &["e2e5".to_string()]);
    assert_eq!(result, "");
}

#[test]
fn checks_and_castling_are_written_in_san() {
    let pos = pos_after(&["e2e4", "e7e5", "g1f3", "b8c6", "f1c4", "g8f6"]);
    let result = pv_to_san(&pos, &["e1g1".to_string(), "f6e4".to_string()]);
    assert_eq!(result, "4. O-O Nxe4");
    let result = pv_to_san(&start(), &["f2f3".to_string(), "e7e5".to_string(), "g2g4".to_string(), "d8h4".to_string()]);
    assert_eq!(result, "1. f3 e5 2. g4 Qh4#");
}

#[test]
fn eval_tone_needs_more_than_ten_centipawns() {
    assert_eq!(eval_tone(&Score::Cp(11)), EvalTone::White);
    assert_eq!(eval_tone(&Score::Cp(10)), EvalTone::Even);
    assert_eq!(eval_tone(&Score::Cp(-10)), EvalTone::Even);
    assert_eq!(eval_tone(&Score::Cp(-11)), EvalTone::Black);
    assert_eq!(eval_tone(&Score::Mate(2)), EvalTone::White);
    assert_eq!(eval_tone(&Score::Mate(-2)), EvalTone::Black);
}

#[test]
fn eval_bar_is_held_to_six_pawns() {
    assert_eq!(eval_bar_cp(None), 0);
    assert_eq!(eval_bar_cp(Some(&Score::Cp(250))), 250);
    assert_eq!(eval_bar_cp(Some(&Score::Cp(-900))), -600);
    assert_eq!(eval_bar_cp(Some(&Score::Mate(1))), 600);
}
