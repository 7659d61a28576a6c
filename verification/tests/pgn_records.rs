use std::io::Cursor;
use std::ops::ControlFlow;

use chessy::game::Game;
use chessy::moves::{move_rows, MoveRow};
use chessy::pgn::{games_to_pgn, MovetextState, TagsState};
use pgn_reader::{RawTag, Reader, SanPlus, Visitor};

struct Loader {
    games: Vec<Game>,
}

impl Visitor for Loader {
    type Tags = TagsState;
    type Movetext = MovetextState;
    type Output = ();

    fn begin_tags(&mut self) -> ControlFlow<(), TagsState> {
        ControlFlow::Continue(TagsState::new())
    }

    fn tag(&mut self, tags: &mut TagsState, name: &[u8], value: RawTag<'_>) -> ControlFlow<()> {
        tags.tag(String::from_utf8_lossy(name).into_owned(), value.decode_utf8_lossy().into_owned());
        ControlFlow::Continue(())
    }

    fn begin_movetext(&mut self, tags: TagsState) -> ControlFlow<(), MovetextState> {
        ControlFlow::Continue(tags.begin_movetext())
    }

    fn san(&mut self, state: &mut MovetextState, san_plus: SanPlus) -> ControlFlow<()> {
        state.san(&san_plus.to_string());
        ControlFlow::Continue(())
    }

    fn end_game(&mut self, state: MovetextState) {
        self.games.push(state.end_game());
    }
}

fn read_pgn(text: &str) -> Vec<Game> {
    let mut reader = Reader::new(Cursor::new(text.as_bytes()));
    let mut loader = Loader { games: vec![] };
    while let Ok(Some(())) = reader.read_game(&mut loader) {}
    loader.games
}

fn load(tags: &[(&str, &str)], sans: &[&str]) -> Game {
    let mut t = TagsState::new();
    for (k, v) in tags {
        t.tag(k.to_string(), v.to_string());
    }
    let mut m = t.begin_movetext();
    for s in sans {
        m.san(s);
    }
    m.end_game()
}

#[test]
fn a_loaded_game_ends_at_its_last_move() {
    let g = load(&[("White", "Ann"), ("Result", "1-0")], &["e4", "e5", "Nf3"]);
    assert_eq!(g.san, vec!["e4", "e5", "Nf3"]);
    assert_eq!(g.cursor, 3);
    assert_eq!(g.positions.len(), 4);
    assert_eq!(g.header("White").map(|s| s.as_str()), Some("Ann"));
    // Only the tags of the file: the others are missing, and written as `?`.
    assert_eq!(g.header("Event"), None);
    assert!(g.to_pgn().starts_with("[Event \"?\"]\n"));
    assert!(g.to_pgn().ends_with("\n\n1. e4 e5 2. Nf3 1-0\n"));
}

#[test]
fn moves_that_do_not_fit_are_skipped() {
    let g = load(&[], &["e4", "Ke7x", "e4", "e5"]);
    assert_eq!(g.san, vec!["e4", "e5"]);
}

#[test]
fn a_fen_tag_sets_the_start() {
    let g = load(
        &[("FEN", "8/P7/8/8/8/8/8/k6K w - - 0 1"), ("SetUp", "1")],
        &["a8=Q+"],
    );
    assert_eq!(g.start_position(), "8/P7/8/8/8/8/8/k6K w - - 0 1");
    assert_eq!(g.san, vec!["a8=Q+"]);
    let g = load(&[("FEN", "garbage")], &["e4"]);
    assert_eq!(g.start_position(), "rnbqkbnr/pppppppp/8/8/8/8/PPPPPPPP/RNBQKBNR w KQkq - 0 1");
    assert_eq!(g.header("FEN").map(|s| s.as_str()), Some("garbage"));
}

#[test]
fn a_tag_given_twice_keeps_the_last_value() {
    let g = load(&[("Event", "A"), ("Event", "B")], &[]);
    assert_eq!(g.headers.len(), 1);
    assert_eq!(g.header("Event").map(|s| s.as_str()), Some("B"));
}

#[test]
fn the_file_holds_each_game_and_a_blank_line() {
    let a = Game::new();
    let mut b = Game::new();
    b.make_uci_move("d2d4").unwrap();
    let file = games_to_pgn(&[a.clone(), b.clone()]);
    assert_eq!(file, format!("{}\n{}\n", a.to_pgn(), b.to_pgn()));
    assert_eq!(games_to_pgn(&[]), "");
}

#[test]
fn move_rows_pair_moves_under_their_number() {
    assert_eq!(
        move_rows(3, false),
        vec![
            MoveRow { number: 1, ellipsis: false, first: 0, second: Some(1) },
            MoveRow { number: 2, ellipsis: false, first: 2, second: None },
        ]
    );
    assert_eq!(
        move_rows(3, true),
        vec![
            MoveRow { number: 1, ellipsis: true, first: 0, second: None },
            MoveRow { number: 1, ellipsis: false, first: 1, second: Some(2) },
        ]
    );
    assert!(move_rows(0, true).is_empty());
}

#[test]
fn pgn_text_reads_back_as_the_same_game() {
    let mut game = Game::new();
    for m in ["e2e4", "c7c5", "g1f3", "d7d6", "d2d4", "c5d4", "f3d4", "g8f6", "b1c3", "a7a6", "c1e3", "e7e5", "d4b3", "c8e6", "f2f3", "f8e7", "d1d2", "e8g8"] {
        game.make_uci_move(m).unwrap();
    }
    game.set_header("White".to_string(), "Ann".to_string());
    game.set_header("Annotator".to_string(), "Bob".to_string());
    game.go_to(3);
    let text = games_to_pgn(&[game.clone(), Game::new()]);
    let back = read_pgn(&text);
    assert_eq!(back.len(), 2);
    assert_eq!(back[0].san, game.san);
    assert_eq!(back[0].moves, game.moves);
    assert_eq!(back[0].positions, game.positions);
    assert_eq!(back[0].headers, game.headers);
    assert_eq!(back[0].cursor, game.moves.len());
    assert_eq!(back[1].positions, Game::new().positions);
    assert_eq!(back[1].headers, Game::new().headers);
}

#[test]
fn the_move_text_splits_into_numbers_and_sans() {
    let mut game = Game::from_fen("rnbqkbnr/pppppppp/8/8/4P3/8/PPPP1PPP/RNBQKBNR b KQkq - 0 1").unwrap();
    for m in ["e7e5", "g1f3", "b8c6", "f1b5", "a7a6"] {
        game.make_uci_move(m).unwrap();
    }
    let pgn = game.to_pgn();
    let movetext = pgn.split("\n\n").nth(1).unwrap();
    let words: Vec<&str> = movetext.split_whitespace().collect();
    assert_eq!(words, vec!["1...", "e5", "2.", "Nf3", "Nc6", "3.", "Bb5", "a6", "*"]);
    let sans: Vec<&str> = words.iter().copied().filter(|w| !w.ends_with('.') && *w != "*").collect();
    assert_eq!(sans, game.san.iter().map(|s| s.as_str()).collect::<Vec<_>>());
}
