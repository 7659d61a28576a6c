use chessy::board_view::{accepts_input, begin_drag, checked_king, last_move_squares, legal_targets, piece_on};
use chessy::board::{cell_of_square, piece_symbol, square_at_cell, Color, Piece, Role, Square};
use chessy::game::Game;
use chessy::interaction::{finish_drag, handle_click, is_promotion_move, try_make_move, try_make_promotion_move};

fn sq(file: u8, rank: u8) -> Square {
    Square::from_coords(file, rank)
}

#[test]
fn piece_symbol_maps_color_and_role() {
    assert_eq!(piece_symbol(Piece { color: Color::White, role: Role::King }), "♔");
    assert_eq!(piece_symbol(Piece { color: Color::Black, role: Role::Queen }), "♛");
    assert_eq!(piece_symbol(Piece { color: Color::White, role: Role::Pawn }), "♙");
}

#[test]
fn is_promotion_move_detects_pawn_to_last_rank() {
    let game = Game::from_fen("8/P7/8/8/8/8/8/k6K w - - 0 1").expect("valid fen");
    assert!(is_promotion_move(&game, sq(0, 6), sq(0, 7)));
    // A king step is not a promotion.
    assert!(!is_promotion_move(&game, sq(7, 0), sq(7, 1)));
}

#[test]
fn try_make_move_executes_legal_and_rejects_illegal() {
    let mut game = Game::new();
    assert!(try_make_move(&mut game, sq(4, 1), sq(4, 3)));
    assert_eq!(game.cursor, 1);

    let mut game2 = Game::new();
    assert!(!try_make_move(&mut game2, sq(4, 1), sq(4, 4)));
    assert_eq!(game2.cursor, 0);
}

#[test]
fn try_make_promotion_move_promotes_to_chosen_role() {
    let mut game = Game::from_fen("8/P7/8/8/8/8/8/k6K w - - 0 1").expect("valid fen");
    assert!(try_make_promotion_move(&mut game, sq(0, 6), sq(0, 7), Role::Queen));
    assert_eq!(game.cursor, 1);
    assert_eq!(game.san, vec!["a8=Q+"]);
}

#[test]
fn promotion_is_not_played_as_a_plain_move() {
    let mut game = Game::from_fen("8/P7/8/8/8/8/8/k6K w - - 0 1").unwrap();
    assert!(!try_make_move(&mut game, sq(0, 6), sq(0, 7)));
    assert_eq!(game.cursor, 0);
    assert!(try_make_promotion_move(&mut game, sq(0, 6), sq(0, 7), Role::Knight));
    assert_eq!(game.san, vec!["a8=N"]);
}

#[test]
fn cells_and_squares_match_both_ways_round() {
    // Unflipped: top-left is a8, bottom-left a1, bottom-right h1.
    assert_eq!(square_at_cell(0, 0, false), Some(sq(0, 7)));
    assert_eq!(square_at_cell(0, 7, false), Some(sq(0, 0)));
    assert_eq!(square_at_cell(7, 7, false), Some(sq(7, 0)));
    // Flipped: top-left is h1.
    assert_eq!(square_at_cell(0, 0, true), Some(sq(7, 0)));
    assert_eq!(square_at_cell(8, 0, false), None);
    assert_eq!(square_at_cell(0, 8, true), None);
    assert_eq!(cell_of_square(sq(4, 1), false), (4, 6));
    assert_eq!(cell_of_square(sq(4, 1), true), (3, 1));
}

#[test]
fn clicks_select_move_and_clear() {
    let mut game = Game::new();
    let mut selected = None;
    let mut pending = None;
    // A black piece cannot be selected with white to move.
    handle_click(&mut game, &mut selected, sq(4, 6), &mut pending);
    assert_eq!(selected, None);
    handle_click(&mut game, &mut selected, sq(4, 1), &mut pending);
    assert_eq!(selected, Some(sq(4, 1)));
    // Clicking the same square again clears the selection.
    handle_click(&mut game, &mut selected, sq(4, 1), &mut pending);
    assert_eq!(selected, None);
    handle_click(&mut game, &mut selected, sq(4, 1), &mut pending);
    // Another own piece moves the selection.
    handle_click(&mut game, &mut selected, sq(3, 1), &mut pending);
    assert_eq!(selected, Some(sq(3, 1)));
    handle_click(&mut game, &mut selected, sq(3, 3), &mut pending);
    assert_eq!(selected, None);
    assert_eq!(game.san, vec!["d4"]);
    assert_eq!(pending, None);
}

#[test]
fn a_promotion_click_or_drag_waits_for_the_piece() {
    let mut game = Game::from_fen("8/P7/8/8/8/8/8/k6K w - - 0 1").unwrap();
    let mut selected = Some(sq(0, 6));
    let mut pending = None;
    handle_click(&mut game, &mut selected, sq(0, 7), &mut pending);
    assert_eq!(pending, Some((sq(0, 6), sq(0, 7))));
    assert_eq!(selected, None);
    assert_eq!(game.cursor, 0);

    let mut pending = None;
    finish_drag(&mut game, sq(0, 6), sq(0, 7), &mut pending);
    assert_eq!(pending, Some((sq(0, 6), sq(0, 7))));
    finish_drag(&mut game, sq(7, 0), sq(7, 1), &mut pending);
    assert_eq!(game.san, vec!["Kh2"]);
}

#[test]
fn the_board_shows_targets_last_move_and_check() {
    let mut game = Game::new();
    let mut targets = legal_targets(&game, sq(4, 1));
    targets.sort_by_key(|s| s.index);
    assert_eq!(targets, vec![sq(4, 2), sq(4, 3)]);
    assert!(legal_targets(&game, sq(4, 6)).is_empty());
    assert_eq!(piece_on(&game, sq(4, 0)), Some(Piece { color: Color::White, role: Role::King }));
    assert_eq!(piece_on(&game, sq(4, 4)), None);
    assert_eq!(last_move_squares(&game), None);
    assert_eq!(checked_king(&game), None);
    assert!(accepts_input(true, &game, &None));
    assert!(!accepts_input(false, &game, &None));
    assert!(!accepts_input(true, &game, &Some((sq(0, 6), sq(0, 7)))));

    for m in ["f2f3", "e7e5", "g2g4", "d8h4"] {
        game.make_uci_move(m).unwrap();
    }
    assert_eq!(last_move_squares(&game), Some((sq(3, 7), sq(7, 3))));
    assert_eq!(checked_king(&game), Some(sq(4, 0)));
    assert!(!accepts_input(true, &game, &None));
    game.go_back();
    assert!(!accepts_input(true, &game, &None));
    assert_eq!(checked_king(&game), None);

    let game = Game::new();
    let mut drag = None;
    let mut selected = None;
    begin_drag(&game, sq(4, 6), &mut drag, &mut selected);
    assert_eq!((drag, selected), (None, None));
    begin_drag(&game, sq(6, 0), &mut drag, &mut selected);
    assert_eq!((drag, selected), (Some(sq(6, 0)), Some(sq(6, 0))));
    begin_drag(&game, sq(1, 0), &mut drag, &mut selected);
    assert_eq!(drag, Some(sq(6, 0)));
}
