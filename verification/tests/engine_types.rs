use chessy::engine::{EngineCmd, EngineInfo, Score};

#[test]
fn display_cp_formats_with_sign_and_two_decimals() {
    assert_eq!(Score::Cp(123).display(), "+1.23");
    assert_eq!(Score::Cp(-50).display(), "-0.50");
    assert_eq!(Score::Cp(0).display(), "+0.00");
}

#[test]
fn display_mate_uses_m_notation() {
    assert_eq!(Score::Mate(3).display(), "M3");
    assert_eq!(Score::Mate(-2).display(), "-M2");
}

#[test]
fn negated_flips_sign_for_cp_and_mate() {
    assert!(matches!(Score::Cp(150).negated(), Score::Cp(-150)));
    assert!(matches!(Score::Cp(-50).negated(), Score::Cp(50)));
    assert!(matches!(Score::Mate(8).negated(), Score::Mate(-8)));
    assert!(matches!(Score::Mate(-3).negated(), Score::Mate(3)));
}

#[test]
fn as_cp_returns_centipawns_for_cp() {
    assert_eq!(Score::Cp(150).as_cp(), 150);
    assert_eq!(Score::Cp(-150).as_cp(), -150);
}

#[test]
fn as_cp_clamps_mate_to_large_magnitude() {
    assert_eq!(Score::Mate(1).as_cp(), 100_000);
    assert_eq!(Score::Mate(-1).as_cp(), -100_000);
    assert_eq!(Score::Mate(0).as_cp(), -100_000);
}

#[test]
fn display_handles_large_and_small_values() {
    assert_eq!(Score::Cp(5).display(), "+0.05");
    assert_eq!(Score::Cp(-1).display(), "-0.01");
    assert_eq!(Score::Cp(100_000).display(), "+1000.00");
    assert_eq!(Score::Cp(-123_456).display(), "-1234.56");
    assert_eq!(Score::Mate(0).display(), "-M0");
    assert_eq!(Score::Cp(i32::MIN).display(), "-21474836.48");
}

#[test]
fn negating_twice_gives_the_score_back() {
    for s in [Score::Cp(7), Score::Cp(-300), Score::Mate(4), Score::Mate(-9)] {
        assert_eq!(s.negated().negated(), s);
        assert_eq!(s.negated().as_cp(), -s.as_cp());
    }
}

#[test]
fn placeholder_is_an_empty_line_for_its_slot() {
    let p = EngineInfo::placeholder(3);
    assert_eq!(p.depth, 0);
    assert_eq!(p.score, Score::Cp(0));
    assert!(p.pv.is_empty());
    assert_eq!(p.multipv, 3);
}

#[test]
fn set_position_text_uses_startpos_or_fen_and_moves() {
    let cmd = EngineCmd::SetPosition { fen: "startpos".to_string(), moves: vec![] };
    assert_eq!(cmd.to_uci_text(), "position startpos");
    let cmd = EngineCmd::SetPosition {
        fen: "startpos".to_string(),
        moves: vec!["e2e4".to_string(), "e7e5".to_string()],
    };
    assert_eq!(cmd.to_uci_text(), "position startpos moves e2e4 e7e5");
    let cmd = EngineCmd::SetPosition { fen: "8/8/8/8/8/8/8/k6K w - - 0 1".to_string(), moves: vec![] };
    assert_eq!(cmd.to_uci_text(), "position fen 8/8/8/8/8/8/8/k6K w - - 0 1");
}

#[test]
fn go_texts_set_multipv_first() {
    assert_eq!(
        EngineCmd::Go { depth: 20, multipv: 3 }.to_uci_text(),
        "setoption name MultiPV value 3\ngo depth 20"
    );
    assert_eq!(
        EngineCmd::GoMovetime { ms: 2000, multipv: 1 }.to_uci_text(),
        "setoption name MultiPV value 1\ngo movetime 2000"
    );
    assert_eq!(EngineCmd::Stop.to_uci_text(), "stop");
    assert_eq!(
        EngineCmd::SetOption { name: "UCI_Elo".to_string(), value: "1500".to_string() }.to_uci_text(),
        "setoption name UCI_Elo value 1500"
    );
}

#[test]
fn strength_commands_limit_or_release_the_engine() {
    let mut cmds = Vec::new();
    chessy::engine::push_strength_commands(&mut cmds, true, 1800);
    let texts: Vec<String> = cmds.iter().map(|c| c.to_uci_text()).collect();
    assert_eq!(
        texts,
        vec![
            "setoption name UCI_LimitStrength value true".to_string(),
            "setoption name UCI_Elo value 1800".to_string()
        ]
    );
    let mut cmds = Vec::new();
    chessy::engine::push_strength_commands(&mut cmds, false, 1800);
    let texts: Vec<String> = cmds.iter().map(|c| c.to_uci_text()).collect();
    assert_eq!(texts, vec!["setoption name UCI_LimitStrength value false".to_string()]);
    assert_eq!(
        chessy::engine::analyse_mode_command().to_uci_text(),
        "setoption name UCI_AnalyseMode value true"
    );
}
