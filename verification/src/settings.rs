use vstd::prelude::*;

verus! {

/// The user's preferences.
#[derive(Clone, Debug)]
pub struct Settings {
    pub engine_path: String,
    pub engine_elo: u32,
    pub limit_strength: bool,
    pub multipv: u8,
    pub dark_theme: bool,
    pub movetime_ms: u64,
    pub analysis_depth: u8,
    pub piece_set: String,
}

/// The places where the engine is looked for, in order; the last is a bare name
/// for the search path.
pub open spec fn engine_candidate(i: nat) -> Seq<char> {
    if i == 0 {
        "/usr/local/bin/stockfish"@
    } else if i == 1 {
        "/usr/bin/stockfish"@
    } else if i == 2 {
        "/opt/homebrew/bin/stockfish"@
    } else {
        "stockfish"@
    }
}

fn engine_candidate_str(i: usize) -> (r: &'static str)
    requires
        i < 4,
    ensures
        r@ == engine_candidate(i as nat),
{
    if i == 0 {
        "/usr/local/bin/stockfish"
    } else if i == 1 {
        "/usr/bin/stockfish"
    } else if i == 2 {
        "/opt/homebrew/bin/stockfish"
    } else {
        "stockfish"
    }
}

/// The first place, from `i` on, where the engine was found; `stockfish` where it was
/// found in none.
pub open spec fn first_present(present: Seq<bool>, i: nat) -> Seq<char>
    decreases 4 - i,
{
    if i >= 4 {
        "stockfish"@
    } else if i < present.len() && present[i as int] {
        engine_candidate(i)
    } else {
        first_present(present, i + 1)
    }
}

/// The engine path given where the engine was found: `present[i]` tells whether
/// the `i`-th candidate place exists.
pub fn choose_engine_path(present: &[bool]) -> (r: String)
    ensures
        r@ == first_present(present@, 0),
{
    let mut i: usize = 0;
    while i < 4
        invariant
            i <= 4,
            first_present(present@, 0) == first_present(present@, i as nat),
        decreases 4 - i,
    {
        if i < present.len() && present[i] {
            return String::from_str(engine_candidate_str(i));
        }
        i = i + 1;
    }
    String::from_str("stockfish")
}

/// Whether something exists at `path` (`std::path::Path::exists`). It depends on
/// the file system, so nothing is promised of the answer.
#[verifier::external_body]
fn path_exists(path: &str) -> bool {
    std::path::Path::new(path).exists()
}

/// Where the engine is looked for first: the first candidate place that exists,
/// `stockfish` (the search path) where none does.
pub fn default_engine_path() -> (r: String)
    ensures
        exists|present: Seq<bool>| r@ == first_present(present, 0),
{
    let mut present: Vec<bool> = Vec::new();
    let mut i: usize = 0;
    while i < 4
        invariant
            i <= 4,
            present@.len() == i,
        decreases 4 - i,
    {
        present.push(path_exists(engine_candidate_str(i)));
        i = i + 1;
    }
    let r = choose_engine_path(present.as_slice());
    assert(r@ == first_present(present@, 0));
    r
}

/// The piece set the board uses unless the user picked another.
pub open spec fn default_piece_set_name() -> Seq<char> {
    "cburnett"@
}

/// The piece set the board uses unless the user picked another.
pub fn default_piece_set() -> (r: String)
    ensures
        r@ == default_piece_set_name(),
{
    String::from_str("cburnett")
}

impl Default for Settings {
    /// The settings before the user changes any: the engine where it is found, full
    /// strength (1500 Elo when limited), three lines, dark theme, two seconds a move,
    /// depth 20, the `cburnett` pieces.
    fn default() -> (s: Self)
        ensures
            exists|present: Seq<bool>| s.engine_path@ == first_present(present, 0),
            s.engine_elo == 1500,
            !s.limit_strength,
            s.multipv == 3,
            s.dark_theme,
            s.movetime_ms == 2000,
            s.analysis_depth == 20,
            s.piece_set@ == default_piece_set_name(),
    {
        Settings {
            engine_path: default_engine_path(),
            engine_elo: 1500,
            limit_strength: false,
            multipv: 3,
            dark_theme: true,
            movetime_ms: 2000,
            analysis_depth: 20,
            piece_set: default_piece_set(),
        }
    }
}

} // verus!
