use chessy::settings::{choose_engine_path, default_piece_set, Settings};

#[test]
fn default_piece_set_is_cburnett() {
    assert_eq!(Settings::default().piece_set, "cburnett");
}

#[test]
fn defaults_match_the_documented_values() {
    let s = Settings::default();
    assert_eq!(s.engine_elo, 1500);
    assert!(!s.limit_strength);
    assert_eq!(s.multipv, 3);
    assert!(s.dark_theme);
    assert_eq!(s.movetime_ms, 2000);
    assert_eq!(s.analysis_depth, 20);
    assert_eq!(default_piece_set(), "cburnett");
    assert!(s.engine_path.ends_with("stockfish"));
}

#[test]
fn engine_path_is_the_first_place_found() {
    assert_eq!(choose_engine_path(&[false, true, true, true]), "/usr/bin/stockfish");
    assert_eq!(choose_engine_path(&[true, true, false, false]), "/usr/local/bin/stockfish");
    assert_eq!(choose_engine_path(&[false, false, true, false]), "/opt/homebrew/bin/stockfish");
    assert_eq!(choose_engine_path(&[false, false, false, false]), "stockfish");
    assert_eq!(choose_engine_path(&[]), "stockfish");
}
