use chessy::engine::{EngineOutput, Score};
use chessy::uci::{parse_engine_line, parse_info};

#[test]
fn parse_info_reads_depth_score_multipv_and_pv() {
    let info = parse_info("info depth 20 seldepth 28 multipv 2 score cp -35 nodes 1234 pv e2e4 e7e5 g1f3")
        .unwrap();
    assert_eq!(info.depth, 20);
    assert_eq!(info.multipv, 2);
    assert_eq!(info.score, Score::Cp(-35));
    assert_eq!(info.pv, vec!["e2e4", "e7e5", "g1f3"]);
}

#[test]
fn parse_info_reads_mate_and_skips_bounds() {
    let info = parse_info("info depth 12 score mate 3 lowerbound pv h5f7").unwrap();
    assert_eq!(info.score, Score::Mate(3));
    assert_eq!(info.pv, vec!["h5f7"]);
    let info = parse_info("info score cp 15 upperbound depth 9").unwrap();
    assert_eq!(info.score, Score::Cp(15));
    assert_eq!(info.depth, 9);
}

#[test]
fn parse_info_defaults_when_fields_are_missing_or_bad() {
    let info = parse_info("info").unwrap();
    assert_eq!(info.depth, 0);
    assert_eq!(info.multipv, 1);
    assert_eq!(info.score, Score::Cp(0));
    assert!(info.pv.is_empty());
    let info = parse_info("info depth 300 multipv x score cp abc").unwrap();
    assert_eq!(info.depth, 0);
    assert_eq!(info.multipv, 1);
    assert_eq!(info.score, Score::Cp(0));
    let info = parse_info("info depth +7 score cp -2147483648").unwrap();
    assert_eq!(info.depth, 7);
    assert_eq!(info.score, Score::Cp(i32::MIN));
}

#[test]
fn parse_info_rejects_other_lines() {
    assert!(parse_info("bestmove e2e4").is_none());
    assert!(parse_info("").is_none());
    assert!(parse_info("   ").is_none());
    assert!(parse_info("information depth 3").is_none());
}

#[test]
fn engine_lines_are_classified() {
    assert!(matches!(parse_engine_line("readyok"), Some(EngineOutput::Ready)));
    match parse_engine_line("bestmove e2e4 ponder e7e5") {
        Some(EngineOutput::BestMove(m)) => assert_eq!(m, "e2e4"),
        _ => panic!("expected a best move"),
    }
    assert!(parse_engine_line("bestmove (none)").is_none());
    assert!(parse_engine_line("bestmove ").is_none());
    match parse_engine_line("info depth 5 score cp 10 pv d2d4") {
        Some(EngineOutput::Info(info)) => {
            assert_eq!(info.depth, 5);
            assert_eq!(info.pv, vec!["d2d4"]);
        }
        _ => panic!("expected an info line"),
    }
    assert!(parse_engine_line("id name Stockfish").is_none());
    assert!(parse_engine_line("info").is_none());
}

#[test]
fn only_the_words_of_an_info_line_count() {
    for line in [
        "info  depth 5\tscore cp -3   multipv 2 pv e2e4  e7e5 ",
        "  info depth 9 score mate 2 lowerbound",
        "info",
        "bestmove e2e4",
    ] {
        let joined = line.split_whitespace().collect::<Vec<_>>().join(" ");
        let a = parse_info(line);
        let b = parse_info(&joined);
        match (a, b) {
            (None, None) => {}
            (Some(a), Some(b)) => {
                assert_eq!(a.depth, b.depth);
                assert_eq!(a.score, b.score);
                assert_eq!(a.pv, b.pv);
                assert_eq!(a.multipv, b.multipv);
            }
            _ => panic!("different results for {line:?}"),
        }
    }
}

#[test]
fn a_stream_of_lines_reports_in_order() {
    let lines = [
        "id name Stockfish",
        "readyok",
        "info depth 3 score cp 12 pv e2e4",
        "info string hello",
        "bestmove (none)",
        "bestmove d2d4 ponder d7d5",
    ];
    let outputs: Vec<EngineOutput> = lines.iter().filter_map(|l| parse_engine_line(l)).collect();
    assert_eq!(outputs.len(), 4);
    assert!(matches!(outputs[0], EngineOutput::Ready));
    match &outputs[1] {
        EngineOutput::Info(info) => assert_eq!(info.depth, 3),
        _ => panic!("expected the info line second"),
    }
    match &outputs[2] {
        EngineOutput::Info(info) => assert!(info.pv.is_empty()),
        _ => panic!("expected the second info line third"),
    }
    match &outputs[3] {
        EngineOutput::BestMove(m) => assert_eq!(m, "d2d4"),
        _ => panic!("expected the best move last"),
    }
}
