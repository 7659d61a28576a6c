use chessy::board::Color;
use chessy::engine::{EngineCmd, EngineInfo, EngineOutput, Score};
use chessy::game::Game;
use chessy::session::{AppMode, EngineSession};
use chessy::settings::Settings;

fn texts(cmds: &[EngineCmd]) -> Vec<String> {
    cmds.iter().map(|c| c.to_uci_text()).collect()
}

fn info(multipv: u8, cp: i32) -> EngineInfo {
    EngineInfo { depth: 10, score: Score::Cp(cp), pv: vec!["e2e4".to_string()], multipv }
}

#[test]
fn analysis_starts_once_per_position() {
    let mut s = EngineSession::new();
    let mut game = Game::new();
    assert!(s.start_analysis(false, &game, 20, 3).is_empty());
    assert!(!s.engine_running);
    let cmds = s.start_analysis(true, &game, 20, 3);
    assert_eq!(
        texts(&cmds),
        vec![
            "stop".to_string(),
            "position fen rnbqkbnr/pppppppp/8/8/8/8/PPPPPPPP/RNBQKBNR w KQkq - 0 1".to_string(),
            "setoption name MultiPV value 3\ngo depth 20".to_string(),
        ]
    );
    assert!(s.engine_running);
    assert!(!s.needs_analysis(&game));
    assert!(s.start_analysis(true, &game, 20, 3).is_empty());
    game.make_uci_move("e2e4").unwrap();
    assert!(s.needs_analysis(&game));
    let cmds = s.start_analysis(true, &game, 12, 1);
    assert_eq!(cmds.len(), 3);
    // The start position and the moves up to the cursor: the engine is set on the
    // position on display.
    assert_eq!(
        texts(&cmds)[1],
        "position fen rnbqkbnr/pppppppp/8/8/8/8/PPPPPPPP/RNBQKBNR w KQkq - 0 1 moves e2e4"
    );
    game.make_uci_move("e7e5").unwrap();
    let cmds = s.start_analysis(true, &game, 12, 1);
    assert!(texts(&cmds)[1].ends_with(" moves e2e4 e7e5"));
    // Back one move: the moves after the cursor are not sent.
    game.go_back();
    let cmds = s.start_analysis(true, &game, 12, 1);
    assert_eq!(
        texts(&cmds)[1],
        "position fen rnbqkbnr/pppppppp/8/8/8/8/PPPPPPPP/RNBQKBNR w KQkq - 0 1 moves e2e4"
    );
    let from_fen = Game::from_fen("8/P7/8/8/8/8/8/k6K w - - 0 1").unwrap();
    let cmds = s.start_analysis(true, &from_fen, 12, 1);
    assert_eq!(texts(&cmds)[1], "position fen 8/P7/8/8/8/8/8/k6K w - - 0 1");
}

#[test]
fn lines_fill_their_slots() {
    let mut s = EngineSession::new();
    s.upsert_line(info(3, 40));
    assert_eq!(s.engine_lines.len(), 3);
    assert_eq!(s.engine_lines[0].multipv, 1);
    assert_eq!(s.engine_lines[0].depth, 0);
    assert_eq!(s.engine_lines[1].multipv, 2);
    assert_eq!(s.engine_lines[2].score, Score::Cp(40));
    s.upsert_line(info(1, -5));
    assert_eq!(s.engine_lines.len(), 3);
    assert_eq!(s.engine_lines[0].score, Score::Cp(-5));
    // Slot 0 is read as the first slot.
    s.upsert_line(info(0, 7));
    assert_eq!(s.engine_lines[0].score, Score::Cp(7));
}

#[test]
fn the_first_line_sets_the_evaluation() {
    let mut s = EngineSession::new();
    let mut game = Game::new();
    s.on_output(EngineOutput::Info(info(2, 30)), &mut game);
    assert_eq!(s.eval_score, None);
    s.on_output(EngineOutput::Info(info(1, 55)), &mut game);
    assert_eq!(s.eval_score, Some(Score::Cp(55)));
    s.on_output(EngineOutput::Ready, &mut game);
    assert_eq!(s.engine_lines.len(), 2);
}

#[test]
fn a_best_move_is_played_only_when_asked_for() {
    let mut s = EngineSession::new();
    let mut game = Game::new();
    s.engine_running = true;
    s.on_output(EngineOutput::BestMove("e2e4".to_string()), &mut game);
    assert!(!s.engine_running);
    assert_eq!(game.cursor, 0);

    s.mode = AppMode::Play;
    s.player_color = Color::Black;
    assert!(s.engine_should_move(&game));
    let settings = Settings::default();
    let cmds = s.request_engine_move(true, &game, settings.limit_strength, settings.engine_elo, settings.movetime_ms);
    assert_eq!(
        texts(&cmds),
        vec![
            "stop".to_string(),
            "position fen rnbqkbnr/pppppppp/8/8/8/8/PPPPPPPP/RNBQKBNR w KQkq - 0 1".to_string(),
            "setoption name UCI_LimitStrength value false".to_string(),
            "setoption name MultiPV value 1\ngo movetime 2000".to_string(),
        ]
    );
    assert!(s.waiting_for_bestmove);
    assert!(!s.engine_should_move(&game));
    s.on_output(EngineOutput::BestMove("e2e4".to_string()), &mut game);
    assert!(!s.waiting_for_bestmove);
    assert_eq!(game.san, vec!["e4"]);
    assert!(!s.engine_should_move(&game));
}

#[test]
fn a_new_game_resets_and_starts_the_engine() {
    let settings = Settings::default();
    let game = Game::new();
    let mut s = EngineSession::new();
    s.eval_score = Some(Score::Cp(3));
    s.upsert_line(info(1, 3));
    let cmds = s.on_new_game(true, &game, &settings);
    assert_eq!(cmds.len(), 3);
    assert_eq!(s.eval_score, None);
    assert!(s.engine_lines.is_empty());

    let mut s = EngineSession::new();
    s.mode = AppMode::Play;
    assert!(s.on_new_game(true, &game, &settings).is_empty());
    s.player_color = Color::Black;
    assert_eq!(s.on_new_game(true, &game, &settings).len(), 4);
    assert!(s.waiting_for_bestmove);
    assert!(s.on_new_game(false, &game, &settings).is_empty());
    assert!(!s.waiting_for_bestmove);
    assert!(s.last_analyzed_fen.is_empty());

    s.engine_restarted();
    assert!(!s.engine_running);
}

#[test]
fn loading_a_game_and_switching_modes() {
    let mut s = EngineSession::new();
    let mut game = Game::new();
    s.mode = AppMode::Play;
    s.eval_score = Some(Score::Cp(9));
    s.upsert_line(info(1, 9));
    game.make_uci_move("d2d4").unwrap();
    let cmds = s.on_game_loaded(true, true, &game, 18, 2);
    assert_eq!(s.mode, AppMode::Analyze);
    assert_eq!(s.eval_score, None);
    assert!(s.engine_lines.is_empty());
    assert_eq!(texts(&cmds)[2], "setoption name MultiPV value 2\ngo depth 18");
    assert_eq!(s.last_analyzed_fen, game.current_fen());

    let mut s = EngineSession::new();
    s.mode = AppMode::Play;
    assert!(s.on_game_loaded(false, false, &game, 18, 2).is_empty());
    assert_eq!(s.mode, AppMode::Play);

    s.waiting_for_bestmove = true;
    let cmds = s.switch_to_analysis(true, &game, 20, 3);
    assert_eq!(cmds.len(), 3);
    assert_eq!(s.mode, AppMode::Analyze);
    assert!(!s.waiting_for_bestmove);
    assert!(s.switch_to_analysis(true, &game, 20, 3).is_empty());
    s.upsert_line(info(2, 1));
    s.switch_to_play();
    assert_eq!(s.mode, AppMode::Play);
    assert!(s.engine_lines.is_empty());
    assert_eq!(game.current_position(), &game.current_fen());
}
