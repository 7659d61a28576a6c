use chessy::board::Color;
use chessy::game::{Game, GameError};

const START: &str = "rnbqkbnr/pppppppp/8/8/8/8/PPPPPPPP/RNBQKBNR w KQkq - 0 1";

fn play(game: &mut Game, moves: &[&str]) {
    for m in moves {
        game.make_uci_move(m).unwrap();
    }
}

#[test]
fn new_game_starts_from_the_standard_position() {
    let game = Game::new();
    assert_eq!(game.current_fen(), START);
    assert_eq!(game.start_position(), START);
    assert_eq!(game.cursor, 0);
    assert!(game.at_end());
    assert!(game.moves.is_empty());
    assert_eq!(game.header("Date").map(|s| s.as_str()), Some("????.??.??"));
    assert_eq!(game.header("Result").map(|s| s.as_str()), Some("*"));
    assert_eq!(game.header("Annotator"), None);
}

#[test]
fn from_fen_normalizes_and_rejects() {
    // The en passant square is dropped where no capture is possible.
    let game = Game::from_fen("rnbqkbnr/pppppppp/8/8/4P3/8/PPPP1PPP/RNBQKBNR b KQkq e3 0 1").unwrap();
    assert_eq!(game.current_fen(), "rnbqkbnr/pppppppp/8/8/4P3/8/PPPP1PPP/RNBQKBNR b KQkq - 0 1");
    assert_eq!(Game::from_fen("not a fen").unwrap_err(), GameError::InvalidFen);
    // Two white kings: a FEN, but no legal position.
    assert_eq!(Game::from_fen("8/8/8/8/8/8/8/K6K w - - 0 1").unwrap_err(), GameError::InvalidFen);
}

#[test]
fn moves_advance_the_cursor_and_record_san() {
    let mut game = Game::new();
    play(&mut game, &["e2e4", "e7e5", "g1f3"]);
    assert_eq!(game.cursor, 3);
    assert_eq!(game.san, vec!["e4", "e5", "Nf3"]);
    assert_eq!(game.positions.len(), 4);
    assert_eq!(
        game.current_fen(),
        "rnbqkbnr/pppp1ppp/8/4p3/4P3/5N2/PPPP1PPP/RNBQKB1R b KQkq - 1 2"
    );
    assert_eq!(game.make_uci_move("e2e4").unwrap_err(), GameError::IllegalMove);
    assert_eq!(game.make_uci_move("zz").unwrap_err(), GameError::IllegalMove);
    assert_eq!(game.cursor, 3);
}

#[test]
fn navigation_stays_within_the_game() {
    let mut game = Game::new();
    play(&mut game, &["e2e4", "e7e5"]);
    game.go_back();
    assert_eq!(game.cursor, 1);
    assert!(!game.at_end());
    game.go_forward();
    game.go_forward();
    assert_eq!(game.cursor, 2);
    game.go_to_start();
    game.go_back();
    assert_eq!(game.cursor, 0);
    assert_eq!(game.current_fen(), START);
    game.go_to(7);
    assert_eq!(game.cursor, 2);
    game.go_to(1);
    assert_eq!(game.cursor, 1);
    game.go_to_end();
    assert_eq!(game.cursor, 2);
}

#[test]
fn a_move_in_the_middle_drops_the_rest() {
    let mut game = Game::new();
    play(&mut game, &["e2e4", "e7e5", "g1f3"]);
    game.go_to(1);
    game.make_uci_move("c7c5").unwrap();
    assert_eq!(game.san, vec!["e4", "c5"]);
    assert_eq!(game.cursor, 2);
    assert_eq!(game.positions.len(), 3);
    assert!(game.at_end());
}

#[test]
fn uci_moves_up_to_the_cursor_use_king_squares_for_castling() {
    let mut game = Game::new();
    play(&mut game, &["e2e4", "e7e5", "g1f3", "b8c6", "f1c4", "g8f6", "e1g1"]);
    assert_eq!(
        game.uci_moves_to_cursor(),
        vec!["e2e4", "e7e5", "g1f3", "b8c6", "f1c4", "g8f6", "e1g1"]
    );
    assert_eq!(game.san[6], "O-O");
    game.go_to(2);
    assert_eq!(game.uci_moves_to_cursor(), vec!["e2e4", "e7e5"]);
}

#[test]
fn outcomes_are_named() {
    let mut game = Game::new();
    assert!(!game.is_game_over());
    assert_eq!(game.outcome_string(), None);
    play(&mut game, &["f2f3", "e7e5", "g2g4", "d8h4"]);
    assert!(game.is_game_over());
    assert_eq!(game.outcome_string().as_deref(), Some("black wins by checkmate"));
    assert_eq!(game.san[3], "Qh4#");

    let stale = Game::from_fen("k7/8/1Q6/8/8/8/8/7K b - - 0 1").unwrap();
    assert!(stale.is_game_over());
    assert_eq!(stale.outcome_string().as_deref(), Some("Draw by stalemate"));

    let bare = Game::from_fen("8/8/8/8/8/8/8/k6K w - - 0 1").unwrap();
    assert_eq!(bare.outcome_string().as_deref(), Some("Draw by insufficient material"));
}

#[test]
fn pgn_of_a_new_game_has_the_seven_tags() {
    let game = Game::new();
    assert_eq!(
        game.to_pgn(),
        "[Event \"?\"]\n[Site \"?\"]\n[Date \"????.??.??\"]\n[Round \"?\"]\n[White \"?\"]\n[Black \"?\"]\n[Result \"*\"]\n\n*\n"
    );
}

#[test]
fn pgn_numbers_moves_and_keeps_other_tags() {
    let mut game = Game::new();
    play(&mut game, &["e2e4", "e7e5", "g1f3"]);
    game.set_header("White".to_string(), "Ann".to_string());
    game.set_header("Annotator".to_string(), "Bob".to_string());
    game.set_header("Result".to_string(), "1-0".to_string());
    assert_eq!(
        game.to_pgn(),
        "[Event \"?\"]\n[Site \"?\"]\n[Date \"????.??.??\"]\n[Round \"?\"]\n[White \"Ann\"]\n[Black \"?\"]\n[Result \"1-0\"]\n[Annotator \"Bob\"]\n\n1. e4 e5 2. Nf3 1-0\n"
    );
}

#[test]
fn pgn_of_a_game_where_black_moves_first() {
    let mut game = Game::from_fen("rnbqkbnr/pppppppp/8/8/4P3/8/PPPP1PPP/RNBQKBNR b KQkq - 0 1").unwrap();
    play(&mut game, &["e7e5", "g1f3", "b8c6"]);
    let pgn = game.to_pgn();
    assert!(pgn.ends_with("\n\n1... e5 2. Nf3 Nc6 *\n"));
    game.make_uci_move("f1b5").unwrap();
    assert!(game.to_pgn().ends_with("\n\n1... e5 2. Nf3 Nc6 3. Bb5 *\n"));
}

#[test]
fn the_side_to_move_follows_the_cursor() {
    let mut game = Game::from_fen("rnbqkbnr/pppppppp/8/8/4P3/8/PPPP1PPP/RNBQKBNR b KQkq - 0 1").unwrap();
    assert_eq!(game.starting_side(), Color::Black);
    assert_eq!(game.side_to_move(), Color::Black);
    game.make_uci_move("e7e5").unwrap();
    assert_eq!(game.side_to_move(), Color::White);
    assert_eq!(game.starting_side(), Color::Black);
    assert_eq!(Game::new().starting_side(), Color::White);
}

#[test]
fn the_default_game_is_a_new_game() {
    let game = Game::default();
    assert_eq!(game.current_fen(), START);
    assert_eq!(game.to_pgn(), Game::new().to_pgn());
}
