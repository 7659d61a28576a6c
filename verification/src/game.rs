use vstd::prelude::*;

use crate::board::{
    code_valid, color_of_code, move_from_code, move_of_code, move_valid, uci_text, ChessMove,
    Color, MoveCode,
};
use crate::rules::{
    is_checkmate, is_insufficient_material, is_stalemate, legal_moves, normal_fen, play_legal,
    san_legal, spec_checkmate, spec_insufficient, spec_legal_moves, spec_normal_fen, spec_play,
    spec_san, spec_san_move, spec_stalemate, spec_turn, spec_uci_move, turn, uci_move,
};
use crate::text::{chars_to_string, decimal, is_word, push_decimal, push_str, str_eq, texts};

verus! {

/// FEN of the standard starting position.
pub open spec fn start_fen() -> Seq<char> {
    "rnbqkbnr/pppppppp/8/8/8/8/PPPPPPPP/RNBQKBNR w KQkq - 0 1"@
}

/// Why a game refused a request.
#[derive(Clone, Copy, Debug, PartialEq, Eq, Structural)]
pub enum GameError {
    /// The text is no FEN of a legal position.
    InvalidFen,
    /// The move is not legal in the current position.
    IllegalMove,
}

/// A game: the positions it went through, the moves between them, and the position
/// on display.
#[derive(Clone, Debug)]
pub struct Game {
    /// FEN of each position: `positions[0]` the start, `positions[i + 1]` the position
    /// after `moves[i]`.
    pub positions: Vec<String>,
    pub moves: Vec<ChessMove>,
    /// SAN of each move.
    pub san: Vec<String>,
    /// Index of the position on display (0 = start).
    pub cursor: usize,
    /// PGN tags, each name once.
    pub headers: Vec<(String, String)>,
}

// ---------------------------------------------------------------------------
// Moves of a position
// ---------------------------------------------------------------------------
/// Index of the first move of `l`, from `i` on, that is `m`.
pub open spec fn find_move(l: Seq<MoveCode>, m: ChessMove, i: nat) -> Option<nat>
    decreases l.len() - i,
{
    if i >= l.len() {
        None
    } else if move_of_code(l[i as int]) == m {
        Some(i)
    } else {
        find_move(l, m, i + 1)
    }
}

/// Where `m` stands among the legal moves of `fen`, if it is legal there.
pub open spec fn legal_index(fen: Seq<char>, m: ChessMove) -> Option<nat> {
    find_move(spec_legal_moves(fen), m, 0)
}

/// The position after `m` in `fen`, where `m` is legal.
pub open spec fn after(fen: Seq<char>, m: ChessMove) -> Option<Seq<char>> {
    match legal_index(fen, m) {
        Some(k) => Some(spec_play(fen, k)),
        None => None,
    }
}

pub proof fn lemma_find_move_found(l: Seq<MoveCode>, m: ChessMove, i: nat)
    ensures
        find_move(l, m, i) matches Some(k) ==> i <= k < l.len() && move_of_code(l[k as int]) == m,
    decreases l.len() - i,
{
    if i < l.len() && move_of_code(l[i as int]) != m {
        lemma_find_move_found(l, m, i + 1);
    }
}

/// The index of the first move of `legal` that is `m`.
pub fn find_legal(legal: &Vec<MoveCode>, m: ChessMove) -> (r: Option<usize>)
    ensures
        r matches Some(k) ==> find_move(legal@, m, 0) == Some(k as nat),
        r is None ==> find_move(legal@, m, 0) is None,
        r matches Some(k) ==> k < legal@.len() && move_of_code(legal@[k as int]) == m,
{
    let n = legal.len();
    let mut i: usize = 0;
    while i < n
        invariant
            n == legal@.len(),
            i <= n,
            find_move(legal@, m, 0) == find_move(legal@, m, i as nat),
        decreases n - i,
    {
        let c = move_from_code(legal[i]);
        if c == m {
            return Some(i);
        }
        i = i + 1;
    }
    None
}

// ---------------------------------------------------------------------------
// Headers
// ---------------------------------------------------------------------------
/// The tags as (name, value) texts.
pub open spec fn header_pairs(h: Seq<(String, String)>) -> Seq<(Seq<char>, Seq<char>)> {
    h.map_values(|p: (String, String)| (p.0@, p.1@))
}

/// No tag name occurs twice.
pub open spec fn names_distinct(hv: Seq<(Seq<char>, Seq<char>)>) -> bool {
    forall|i: int, j: int| 0 <= i < j < hv.len() ==> hv[i].0 != hv[j].0
}

/// Index of the first tag from `i` on named `k`.
pub open spec fn find_name(hv: Seq<(Seq<char>, Seq<char>)>, k: Seq<char>, i: nat) -> Option<nat>
    decreases hv.len() - i,
{
    if i >= hv.len() {
        None
    } else if hv[i as int].0 == k {
        Some(i)
    } else {
        find_name(hv, k, i + 1)
    }
}

/// The value of the tag named `k`.
pub open spec fn lookup(hv: Seq<(Seq<char>, Seq<char>)>, k: Seq<char>) -> Option<Seq<char>> {
    match find_name(hv, k, 0) {
        Some(j) => Some(hv[j as int].1),
        None => None,
    }
}

pub open spec fn unwrap_or(o: Option<Seq<char>>, d: Seq<char>) -> Seq<char> {
    match o {
        Some(v) => v,
        None => d,
    }
}

pub proof fn lemma_find_name_found(hv: Seq<(Seq<char>, Seq<char>)>, k: Seq<char>, i: nat)
    ensures
        find_name(hv, k, i) matches Some(j) ==> i <= j < hv.len() && hv[j as int].0 == k,
        find_name(hv, k, i) is None ==> forall|t: int| i <= t < hv.len() ==> hv[t].0 != k,
    decreases hv.len() - i,
{
    if i < hv.len() && hv[i as int].0 != k {
        lemma_find_name_found(hv, k, i + 1);
    }
}

/// The seven tags every PGN game starts with, in the order PGN puts them.
pub open spec fn std_key(i: nat) -> Seq<char> {
    if i == 0 {
        "Event"@
    } else if i == 1 {
        "Site"@
    } else if i == 2 {
        "Date"@
    } else if i == 3 {
        "Round"@
    } else if i == 4 {
        "White"@
    } else if i == 5 {
        "Black"@
    } else {
        "Result"@
    }
}

/// The value a new game gives each of the seven tags.
pub open spec fn std_default(i: nat) -> Seq<char> {
    if i == 2 {
        "????.??.??"@
    } else if i == 6 {
        "*"@
    } else {
        "?"@
    }
}

fn std_key_str(i: usize) -> (r: &'static str)
    requires
        i < 7,
    ensures
        r@ == std_key(i as nat),
{
    if i == 0 {
        "Event"
    } else if i == 1 {
        "Site"
    } else if i == 2 {
        "Date"
    } else if i == 3 {
        "Round"
    } else if i == 4 {
        "White"
    } else if i == 5 {
        "Black"
    } else {
        "Result"
    }
}

fn std_default_str(i: usize) -> (r: &'static str)
    requires
        i < 7,
    ensures
        r@ == std_default(i as nat),
{
    if i == 2 {
        "????.??.??"
    } else if i == 6 {
        "*"
    } else {
        "?"
    }
}

/// Whether `k` is one of the seven standard tag names.
pub open spec fn is_std_key(k: Seq<char>) -> bool {
    exists|i: nat| i < 7 && #[trigger] std_key(i) == k
}

fn std_key_check(k: &str) -> (r: bool)
    ensures
        r == is_std_key(k@),
{
    let mut i: usize = 0;
    while i < 7
        invariant
            i <= 7,
            forall|t: nat| t < i ==> #[trigger] std_key(t) != k@,
        decreases 7 - i,
    {
        if str_eq(k, std_key_str(i)) {
            assert(std_key(i as nat) == k@);
            return true;
        }
        i = i + 1;
    }
    false
}

/// The tags of a new game: the seven standard tags, unknown values (`?`, a date
/// of `????.??.??`) and result `*`.
pub open spec fn default_header_pairs() -> Seq<(Seq<char>, Seq<char>)> {
    Seq::new(7, |i: int| (std_key(i as nat), std_default(i as nat)))
}

/// The tags of a new game.
pub fn default_headers() -> (r: Vec<(String, String)>)
    ensures
        header_pairs(r@) == default_header_pairs(),
{
    let mut h: Vec<(String, String)> = Vec::new();
    let mut i: usize = 0;
    while i < 7
        invariant
            i <= 7,
            header_pairs(h@) =~= default_header_pairs().take(i as int),
        decreases 7 - i,
    {
        let k = String::from_str(std_key_str(i));
        let v = String::from_str(std_default_str(i));
        let ghost before = h@;
        h.push((k, v));
        assert(header_pairs(h@) =~= header_pairs(before).push((std_key(i as nat), std_default(i as nat))));
        i = i + 1;
    }
    assert(default_header_pairs().take(7) =~= default_header_pairs());
    h
}

/// The seven standard tag names differ from each other and from `FEN`.
pub proof fn lemma_std_keys_distinct()
    ensures
        forall|i: nat, j: nat| i < j < 7 ==> std_key(i) != std_key(j),
        forall|i: nat| i < 7 ==> std_key(i) != "FEN"@,
{
    reveal_strlit("Event");
    reveal_strlit("Site");
    reveal_strlit("Date");
    reveal_strlit("Round");
    reveal_strlit("White");
    reveal_strlit("Black");
    reveal_strlit("Result");
    reveal_strlit("FEN");
    assert forall|i: nat, j: nat| i < j < 7 implies std_key(i) != std_key(j) by {
        assert(std_key(i).len() != std_key(j).len() || std_key(i)[0] != std_key(j)[0]);
    }
    assert forall|i: nat| i < 7 implies std_key(i) != "FEN"@ by {
        assert(std_key(i).len() != "FEN"@.len());
    }
}

proof fn lemma_default_names_distinct()
    ensures
        names_distinct(default_header_pairs()),
{
    lemma_std_keys_distinct();
    let hv = default_header_pairs();
    assert forall|i: int, j: int| 0 <= i < j < hv.len() implies hv[i].0 != hv[j].0 by {
        assert(std_key(i as nat) != std_key(j as nat));
    }
}

// ---------------------------------------------------------------------------
// PGN text
// ---------------------------------------------------------------------------
/// A PGN tag line: `[Name "value"]` and a line break.
pub open spec fn tag_line(k: Seq<char>, v: Seq<char>) -> Seq<char> {
    "["@ + k + " \""@ + v + "\"]\n"@
}

/// The lines of the first `n` standard tags, `?` where a tag is missing.
pub open spec fn std_tags(hv: Seq<(Seq<char>, Seq<char>)>, n: nat) -> Seq<char>
    decreases n,
{
    if n == 0 {
        seq![]
    } else {
        std_tags(hv, (n - 1) as nat) + tag_line(
            std_key((n - 1) as nat),
            unwrap_or(lookup(hv, std_key((n - 1) as nat)), "?"@),
        )
    }
}

/// The lines of the other tags among the first `n`, in order.
pub open spec fn extra_tags(hv: Seq<(Seq<char>, Seq<char>)>, n: nat) -> Seq<char>
    decreases n,
{
    if n == 0 {
        seq![]
    } else {
        extra_tags(hv, (n - 1) as nat) + if is_std_key(hv[n - 1].0) {
            seq![]
        } else {
            tag_line(hv[n - 1].0, hv[n - 1].1)
        }
    }
}

/// What stands before the `i`-th move: `1. ` (or `1... ` when black moves first)
/// before the first; after it, the move number and `. ` before each white move
/// (even indices, or odd ones when black moves first), nothing before black moves.
pub open spec fn move_number_text(i: nat, black_first: bool) -> Seq<char> {
    if i == 0 {
        if black_first {
            decimal(1) + "... "@
        } else {
            decimal(1) + ". "@
        }
    } else if black_first {
        if i % 2 == 1 {
            decimal((i + 1) / 2 + 1) + ". "@
        } else {
            seq![]
        }
    } else if i % 2 == 0 {
        decimal(i / 2 + 1) + ". "@
    } else {
        seq![]
    }
}

/// The first `n` moves with their numbers, each followed by a space.
pub open spec fn movetext(sans: Seq<Seq<char>>, black_first: bool, n: nat) -> Seq<char>
    decreases n,
{
    if n == 0 {
        seq![]
    } else {
        movetext(sans, black_first, (n - 1) as nat) + move_number_text((n - 1) as nat, black_first)
            + sans[n - 1] + " "@
    }
}

/// A game in PGN: the seven standard tags, the other tags, a blank line, the moves,
/// and the result (`*` where there is no `Result` tag).
pub open spec fn pgn_text(
    hv: Seq<(Seq<char>, Seq<char>)>,
    sans: Seq<Seq<char>>,
    black_first: bool,
) -> Seq<char> {
    std_tags(hv, 7) + extra_tags(hv, hv.len()) + "\n"@ + movetext(sans, black_first, sans.len())
        + unwrap_or(lookup(hv, "Result"@), "*"@) + "\n"@
}

/// The name of a side as `shakmaty` writes it.
pub open spec fn color_name(c: Color) -> Seq<char> {
    match c {
        Color::White => "white"@,
        Color::Black => "black"@,
    }
}

/// What the status line says of a position: who won by checkmate, or which draw.
pub open spec fn outcome_text(fen: Seq<char>) -> Option<Seq<char>> {
    if spec_checkmate(fen) {
        Some(color_name(color_of_code(spec_turn(fen)).spec_other()) + " wins by checkmate"@)
    } else if spec_stalemate(fen) {
        Some("Draw by stalemate"@)
    } else if spec_insufficient(fen) {
        Some("Draw by insufficient material"@)
    } else {
        None
    }
}

/// The tags after setting `k` to `v`: in place where a tag is named `k`, added at the
/// end where none is.
pub open spec fn tags_set(hv: Seq<(Seq<char>, Seq<char>)>, k: Seq<char>, v: Seq<char>) -> Seq<
    (Seq<char>, Seq<char>),
> {
    match find_name(hv, k, 0) {
        Some(j) => hv.update(j as int, (k, v)),
        None => hv.push((k, v)),
    }
}

/// Index of the tag named `key`.
pub fn find_tag(h: &Vec<(String, String)>, key: &str) -> (r: Option<usize>)
    ensures
        r matches Some(j) ==> find_name(header_pairs(h@), key@, 0) == Some(j as nat) && j
            < h@.len(),
        r is None ==> find_name(header_pairs(h@), key@, 0) is None,
{
    let ghost hv = header_pairs(h@);
    let n = h.len();
    let mut i: usize = 0;
    while i < n
        invariant
            n == h@.len(),
            hv == header_pairs(h@),
            i <= n,
            find_name(hv, key@, 0) == find_name(hv, key@, i as nat),
        decreases n - i,
    {
        if str_eq(h[i].0.as_str(), key) {
            return Some(i);
        }
        i = i + 1;
    }
    None
}

/// Sets the tag named `key` to `value`: in place where there is one, added at the
/// end where not.
pub fn set_tag(h: &mut Vec<(String, String)>, key: String, value: String)
    requires
        names_distinct(header_pairs(old(h)@)),
    ensures
        names_distinct(header_pairs(final(h)@)),
        header_pairs(final(h)@) == tags_set(header_pairs(old(h)@), key@, value@),
{
    let ghost hv = header_pairs(h@);
    proof {
        lemma_find_name_found(hv, key@, 0);
    }
    let ghost kv = (key@, value@);
    match find_tag(h, key.as_str()) {
        Some(j) => {
            h.set(j, (key, value));
            assert(header_pairs(h@) =~= hv.update(j as int, kv));
            assert(hv[j as int].0 == kv.0);
            assert forall|a: int, b: int|
                0 <= a < b < header_pairs(h@).len() implies header_pairs(h@)[a].0 != header_pairs(
                h@,
            )[b].0 by {
                assert(hv[a].0 != hv[b].0);
            }
        },
        None => {
            h.push((key, value));
            assert(header_pairs(h@) =~= hv.push(kv));
            assert forall|a: int, b: int|
                0 <= a < b < header_pairs(h@).len() implies header_pairs(h@)[a].0 != header_pairs(
                h@,
            )[b].0 by {
                if b < hv.len() {
                    assert(hv[a].0 != hv[b].0);
                } else {
                    assert(hv[a].0 != kv.0);
                }
            }
        },
    }
}

/// The cursor one position back, unless at the start.
pub open spec fn cursor_back(c: usize) -> usize {
    if c > 0 {
        (c - 1) as usize
    } else {
        0
    }
}

/// The cursor one position forward in a game of `n` moves, unless at the end.
pub open spec fn cursor_forward(c: usize, n: nat) -> usize {
    if c < n {
        (c + 1) as usize
    } else {
        c
    }
}

/// The cursor on the position after `idx` moves, or on the last of a game of `n`
/// moves.
pub open spec fn cursor_to(idx: usize, n: nat) -> usize {
    if idx < n {
        idx
    } else {
        n as usize
    }
}

/// The same positions, moves, SAN and tags.
pub open spec fn same_record(g: Game, g2: Game) -> bool {
    &&& g2.positions == g.positions
    &&& g2.moves == g.moves
    &&& g2.san == g.san
    &&& g2.headers == g.headers
}

/// `g2` is `g` after the `k`-th legal move `m` of the position on display: the
/// positions and moves after the cursor dropped, `m`, its SAN and the position it
/// leads to added, the cursor on that position, the tags as they were.
pub open spec fn moved(g: Game, m: ChessMove, k: nat, g2: Game) -> bool {
    &&& g2.fens() == g.fens().take(g.cursor + 1).push(spec_play(g.cursor_fen(), k))
    &&& g2.moves@ == g.moves@.take(g.cursor as int).push(m)
    &&& g2.sans() == g.sans().take(g.cursor as int).push(spec_san(g.cursor_fen(), k))
    &&& g2.cursor == g.cursor + 1
    &&& g2.headers == g.headers
}

/// Whether the SAN `san`, read in the position `fen`, names the move `m`.
pub open spec fn san_names(fen: Seq<char>, san: Seq<char>, m: ChessMove) -> bool {
    spec_san_move(fen, san) matches Some(c) && move_of_code(c) == m
}

/// Whether the UCI text `uci` stands for a legal move in `fen`.
pub open spec fn uci_legal(fen: Seq<char>, uci: Seq<char>) -> bool {
    spec_uci_move(fen, uci) matches Some(c) && legal_index(fen, move_of_code(c)) is Some
}

/// `g2` is `g` after the move that the UCI text `uci` stands for, where it stands
/// for a legal move of the position on display, and `g` itself where not.
pub open spec fn uci_applied(g: Game, uci: Seq<char>, g2: Game) -> bool {
    match spec_uci_move(g.cursor_fen(), uci) {
        None => g2 == g,
        Some(c) => match legal_index(g.cursor_fen(), move_of_code(c)) {
            None => g2 == g,
            Some(k) => moved(g, move_of_code(c), k, g2),
        },
    }
}

pub proof fn lemma_find_move_exists(l: Seq<MoveCode>, m: ChessMove, i: nat, k: nat)
    requires
        i <= k < l.len(),
        move_of_code(l[k as int]) == m,
    ensures
        find_move(l, m, i) is Some,
    decreases k - i,
{
    if move_of_code(l[i as int]) != m {
        lemma_find_move_exists(l, m, i + 1, k);
    }
}

impl Game {
    /// FEN of each position.
    pub open spec fn fens(&self) -> Seq<Seq<char>> {
        texts(self.positions@)
    }

    /// SAN of each move.
    pub open spec fn sans(&self) -> Seq<Seq<char>> {
        texts(self.san@)
    }

    /// The tags as texts.
    pub open spec fn tags(&self) -> Seq<(Seq<char>, Seq<char>)> {
        header_pairs(self.headers@)
    }

    /// FEN of the position on display.
    pub open spec fn cursor_fen(&self) -> Seq<char> {
        self.fens()[self.cursor as int]
    }

    /// A well-formed game: one position more than moves, a SAN for each move that
    /// names it, the cursor on a position, each position reached from the one before
    /// by a legal move, and each tag name once.
    pub open spec fn wf(&self) -> bool {
        &&& self.positions@.len() == self.moves@.len() + 1
        &&& self.san@.len() == self.moves@.len()
        &&& self.cursor <= self.moves@.len()
        &&& forall|i: int|
            0 <= i < self.moves@.len() ==> after(self.fens()[i], #[trigger] self.moves@[i])
                == Some(self.fens()[i + 1])
        &&& forall|i: int| 0 <= i < self.moves@.len() ==> move_valid(#[trigger] self.moves@[i])
        &&& forall|i: int|
            0 <= i < self.moves@.len() ==> san_names(self.fens()[i], self.sans()[i], #[trigger] self.moves@[i])
                && is_word(self.sans()[i])
        &&& names_distinct(self.tags())
    }

    /// A new game from the standard starting position.
    pub fn new() -> (g: Game)
        ensures
            g.wf(),
            g.fens() == seq![start_fen()],
            g.moves@.len() == 0,
            g.cursor == 0,
            g.tags() == default_header_pairs(),
    {
        let start = String::from_str("rnbqkbnr/pppppppp/8/8/8/8/PPPPPPPP/RNBQKBNR w KQkq - 0 1");
        let mut positions: Vec<String> = Vec::new();
        positions.push(start);
        let g = Game {
            positions,
            moves: Vec::new(),
            san: Vec::new(),
            cursor: 0,
            headers: default_headers(),
        };
        proof {
            lemma_default_names_distinct();
            assert(g.fens() =~= seq![start_fen()]);
        }
        g
    }

    /// A new game from the position that the FEN `text` describes, written back as
    /// `shakmaty` writes FEN; `InvalidFen` where `text` is no FEN of a legal position.
    pub fn from_fen(text: &str) -> (r: Result<Game, GameError>)
        ensures
            match r {
                Ok(g) => {
                    &&& g.wf()
                    &&& spec_normal_fen(text@) == Some(g.fens()[0])
                    &&& g.fens().len() == 1
                    &&& g.moves@.len() == 0
                    &&& g.cursor == 0
                    &&& g.tags() == default_header_pairs()
                },
                Err(e) => e == GameError::InvalidFen && spec_normal_fen(text@) is None,
            },
    {
        match normal_fen(text) {
            Some(fen) => {
                let mut positions: Vec<String> = Vec::new();
                positions.push(fen);
                let g = Game {
                    positions,
                    moves: Vec::new(),
                    san: Vec::new(),
                    cursor: 0,
                    headers: default_headers(),
                };
                proof {
                    lemma_default_names_distinct();
                }
                Ok(g)
            },
            None => Err(GameError::InvalidFen),
        }
    }

    /// FEN of the position on display.
    pub fn current_position(&self) -> (r: &String)
        requires
            self.wf(),
        ensures
            r@ == self.cursor_fen(),
    {
        &self.positions[self.cursor]
    }

    /// FEN of the starting position.
    pub fn start_position(&self) -> (r: &String)
        requires
            self.wf(),
        ensures
            r@ == self.fens()[0],
    {
        &self.positions[0]
    }

    /// The side to move in the position on display.
    pub fn side_to_move(&self) -> (r: Color)
        requires
            self.wf(),
        ensures
            r == color_of_code(spec_turn(self.cursor_fen())),
    {
        crate::board::color_from_code(turn(self.positions[self.cursor].as_str()))
    }

    /// The side to move in the starting position: black where the game starts with
    /// a move by black.
    pub fn starting_side(&self) -> (r: Color)
        requires
            self.wf(),
        ensures
            r == color_of_code(spec_turn(self.fens()[0])),
    {
        crate::board::color_from_code(turn(self.positions[0].as_str()))
    }

    /// Whether the last position is on display.
    pub fn at_end(&self) -> (r: bool)
        ensures
            r == (self.cursor == self.moves@.len()),
    {
        self.cursor == self.moves.len()
    }

    /// One position back, unless at the start.
    pub fn go_back(&mut self)
        ensures
            final(self).cursor == cursor_back(old(self).cursor),
            same_record(*old(self), *final(self)),
            old(self).wf() ==> final(self).wf(),
    {
        if self.cursor > 0 {
            self.cursor = self.cursor - 1;
        }
    }

    /// One position forward, unless at the end.
    pub fn go_forward(&mut self)
        ensures
            final(self).cursor == cursor_forward(old(self).cursor, old(self).moves@.len()),
            same_record(*old(self), *final(self)),
            old(self).wf() ==> final(self).wf(),
    {
        if self.cursor < self.moves.len() {
            self.cursor = self.cursor + 1;
        }
    }

    /// To the starting position.
    pub fn go_to_start(&mut self)
        ensures
            final(self).cursor == 0,
            same_record(*old(self), *final(self)),
            old(self).wf() ==> final(self).wf(),
    {
        self.cursor = 0;
    }

    /// To the last position.
    pub fn go_to_end(&mut self)
        ensures
            final(self).cursor == old(self).moves@.len(),
            same_record(*old(self), *final(self)),
            old(self).wf() ==> final(self).wf(),
    {
        self.cursor = self.moves.len();
    }

    /// To the position after `idx` moves, or the last position where there are fewer.
    pub fn go_to(&mut self, idx: usize)
        ensures
            final(self).cursor == cursor_to(idx, old(self).moves@.len()),
            same_record(*old(self), *final(self)),
            old(self).wf() ==> final(self).wf(),
    {
        let n = self.moves.len();
        self.cursor = if idx < n {
            idx
        } else {
            n
        };
    }

    /// Plays `m` in the position on display. The moves after the cursor are dropped,
    /// `m` takes their place, and the cursor moves to the new position.
    /// `IllegalMove`, and nothing changes, where `m` is not legal there.
    pub fn make_move(&mut self, m: ChessMove) -> (r: Result<(), GameError>)
        requires
            old(self).wf(),
        ensures
            final(self).wf(),
            match legal_index(old(self).cursor_fen(), m) {
                None => r == Err::<(), GameError>(GameError::IllegalMove) && *final(self) == *old(
                    self,
                ),
                Some(k) => r is Ok && moved(*old(self), m, k, *final(self)),
            },
    {
        let cur = self.cursor;
        let plen = self.positions.len();
        assert(cur < plen);
        let next_len = cur + 1;
        let ghost fen = self.fens()[cur as int];
        assert(fen == self.positions@[cur as int]@);
        let legal = legal_moves(self.positions[cur].as_str());
        let k = match find_legal(&legal, m) {
            Some(k) => k,
            None => return Err(GameError::IllegalMove),
        };
        proof {
            assert(code_valid(legal@[k as int]));
        }
        let san = san_legal(self.positions[cur].as_str(), k);
        let next = play_legal(self.positions[cur].as_str(), k);
        let ghost old_fens = self.fens();
        let ghost old_moves = self.moves@;
        self.moves.truncate(cur);
        self.san.truncate(cur);
        self.positions.truncate(next_len);
        self.moves.push(m);
        self.san.push(san);
        self.positions.push(next);
        self.cursor = cur + 1;
        proof {
            assert(self.fens() =~= old_fens.take(cur + 1).push(spec_play(fen, k as nat)));
            assert(self.sans() =~= old(self).sans().take(cur as int).push(
                spec_san(fen, k as nat),
            ));
            assert(self.moves@ =~= old_moves.take(cur as int).push(m));
            assert forall|i: int| 0 <= i < self.moves@.len() implies after(
                self.fens()[i],
                #[trigger] self.moves@[i],
            ) == Some(self.fens()[i + 1]) by {
                if i < cur {
                    assert(self.moves@[i] == old_moves[i]);
                    assert(self.fens()[i] == old_fens[i]);
                    assert(self.fens()[i + 1] == old_fens[i + 1]);
                } else {
                    assert(legal_index(fen, m) == Some(k as nat));
                }
            }
            assert forall|i: int| 0 <= i < self.moves@.len() implies move_valid(
                #[trigger] self.moves@[i],
            ) by {
                if i < cur {
                    assert(self.moves@[i] == old_moves[i]);
                }
            }
            assert forall|i: int| 0 <= i < self.moves@.len() implies san_names(
                self.fens()[i],
                self.sans()[i],
                #[trigger] self.moves@[i],
            ) && is_word(self.sans()[i]) by {
                if i < cur {
                    assert(self.moves@[i] == old_moves[i]);
                    assert(self.fens()[i] == old_fens[i]);
                    assert(self.sans()[i] == old(self).sans()[i]);
                } else {
                    lemma_find_move_found(legal@, m, 0);
                }
            }
        }
        Ok(())
    }

    /// Plays the move that the UCI text `uci` stands for in the position on display;
    /// `IllegalMove`, and nothing changes, where it stands for no legal move.
    pub fn make_uci_move(&mut self, uci: &str) -> (r: Result<(), GameError>)
        requires
            old(self).wf(),
        ensures
            final(self).wf(),
            uci_applied(*old(self), uci@, *final(self)),
            r is Ok == uci_legal(old(self).cursor_fen(), uci@),
            r is Err ==> r == Err::<(), GameError>(GameError::IllegalMove),
    {
        let c = match uci_move(self.positions[self.cursor].as_str(), uci) {
            Some(c) => c,
            None => return Err(GameError::IllegalMove),
        };
        self.make_move(move_from_code(c))
    }

    /// UCI text of each move up to the cursor.
    pub fn uci_moves_to_cursor(&self) -> (r: Vec<String>)
        requires
            self.wf(),
        ensures
            texts(r@) == Seq::new(self.cursor as nat, |i: int| uci_text(self.moves@[i])),
    {
        let mut out: Vec<String> = Vec::new();
        let mut i: usize = 0;
        while i < self.cursor
            invariant
                self.wf(),
                i <= self.cursor,
                texts(out@) =~= Seq::new(i as nat, |j: int| uci_text(self.moves@[j])),
            decreases self.cursor - i,
        {
            let u = self.moves[i].to_uci();
            let ghost before = out@;
            out.push(chars_to_string(&u));
            assert(texts(out@) =~= texts(before).push(uci_text(self.moves@[i as int])));
            i = i + 1;
        }
        out
    }

    /// FEN of the position on display.
    pub fn current_fen(&self) -> (r: String)
        requires
            self.wf(),
        ensures
            r@ == self.cursor_fen(),
    {
        self.positions[self.cursor].clone()
    }

    /// Whether the game is over in the position on display: checkmate, stalemate, or
    /// neither side able to mate.
    pub fn is_game_over(&self) -> (r: bool)
        requires
            self.wf(),
        ensures
            r == (spec_checkmate(self.cursor_fen()) || spec_stalemate(self.cursor_fen())
                || spec_insufficient(self.cursor_fen())),
    {
        let fen = self.positions[self.cursor].as_str();
        is_checkmate(fen) || is_stalemate(fen) || is_insufficient_material(fen)
    }

    /// How the game ended in the position on display, as the status line says it
    /// (`white wins by checkmate`, `Draw by stalemate`, `Draw by insufficient
    /// material`); `None` where it goes on.
    pub fn outcome_string(&self) -> (r: Option<String>)
        requires
            self.wf(),
        ensures
            crate::rules::opt_text(r) == outcome_text(self.cursor_fen()),
    {
        let fen = self.positions[self.cursor].as_str();
        if is_checkmate(fen) {
            let mut out: Vec<char> = Vec::new();
            let winner = crate::board::color_from_code(turn(fen)).other();
            match winner {
                Color::White => push_str(&mut out, "white"),
                Color::Black => push_str(&mut out, "black"),
            }
            push_str(&mut out, " wins by checkmate");
            Some(chars_to_string(&out))
        } else if is_stalemate(fen) {
            Some(String::from_str("Draw by stalemate"))
        } else if is_insufficient_material(fen) {
            Some(String::from_str("Draw by insufficient material"))
        } else {
            None
        }
    }

    /// The value of the tag named `key`.
    pub fn header(&self, key: &str) -> (r: Option<&String>)
        ensures
            match r {
                Some(v) => lookup(self.tags(), key@) == Some(v@),
                None => lookup(self.tags(), key@) is None,
            },
    {
        proof {
            lemma_find_name_found(self.tags(), key@, 0);
        }
        match self.find_header(key) {
            Some(j) => {
                assert(self.tags()[j as int].1 == self.headers@[j as int].1@);
                Some(&self.headers[j].1)
            },
            None => None,
        }
    }

    /// Index of the tag named `key`.
    pub fn find_header(&self, key: &str) -> (r: Option<usize>)
        ensures
            r matches Some(j) ==> find_name(self.tags(), key@, 0) == Some(j as nat) && j
                < self.headers@.len(),
            r is None ==> find_name(self.tags(), key@, 0) is None,
    {
        find_tag(&self.headers, key)
    }

    /// Sets the tag named `key` to `value`: in place where the game has it,
    /// after the others where not.
    pub fn set_header(&mut self, key: String, value: String)
        requires
            old(self).wf(),
        ensures
            final(self).wf(),
            final(self).positions == old(self).positions,
            final(self).moves == old(self).moves,
            final(self).san == old(self).san,
            final(self).cursor == old(self).cursor,
            final(self).tags() == tags_set(old(self).tags(), key@, value@),
    {
        set_tag(&mut self.headers, key, value);
    }

    /// The game in PGN: the seven standard tags in order (`?` for one that is
    /// missing), the other tags, a blank line, the numbered moves, and the result.
    pub fn to_pgn(&self) -> (r: String)
        requires
            self.wf(),
        ensures
            r@ == pgn_text(self.tags(), self.sans(), spec_turn(self.fens()[0]) == 0),
    {
        let ghost hv = self.tags();
        let mut out: Vec<char> = Vec::new();
        let mut i: usize = 0;
        while i < 7
            invariant
                i <= 7,
                hv == self.tags(),
                out@ == std_tags(hv, i as nat),
            decreases 7 - i,
        {
            let key = std_key_str(i);
            push_str(&mut out, "[");
            push_str(&mut out, key);
            push_str(&mut out, " \"");
            match self.header(key) {
                Some(v) => push_str(&mut out, v.as_str()),
                None => push_str(&mut out, "?"),
            }
            push_str(&mut out, "\"]\n");
            i = i + 1;
            assert(out@ =~= std_tags(hv, i as nat));
        }
        let n = self.headers.len();
        let mut j: usize = 0;
        while j < n
            invariant
                n == self.headers@.len(),
                j <= n,
                hv == self.tags(),
                out@ == std_tags(hv, 7) + extra_tags(hv, j as nat),
            decreases n - j,
        {
            let k = self.headers[j].0.as_str();
            if !std_key_check(k) {
                push_str(&mut out, "[");
                push_str(&mut out, k);
                push_str(&mut out, " \"");
                push_str(&mut out, self.headers[j].1.as_str());
                push_str(&mut out, "\"]\n");
            }
            j = j + 1;
            assert(out@ =~= std_tags(hv, 7) + extra_tags(hv, j as nat));
        }
        push_str(&mut out, "\n");
        let ghost head = out@;
        let black_first = turn(self.positions[0].as_str()) == 0;
        let ghost sans = self.sans();
        let m = self.san.len();
        let mut i: usize = 0;
        while i < m
            invariant
                m == self.san@.len(),
                sans == self.sans(),
                i <= m,
                out@ == head + movetext(sans, black_first, i as nat),
            decreases m - i,
        {
            if i == 0 {
                push_decimal(&mut out, 1);
                if black_first {
                    push_str(&mut out, "... ");
                } else {
                    push_str(&mut out, ". ");
                }
            } else if black_first {
                if i % 2 == 1 {
                    push_decimal(&mut out, ((i + 1) / 2 + 1) as u64);
                    push_str(&mut out, ". ");
                }
            } else if i % 2 == 0 {
                push_decimal(&mut out, (i / 2 + 1) as u64);
                push_str(&mut out, ". ");
            }
            push_str(&mut out, self.san[i].as_str());
            push_str(&mut out, " ");
            i = i + 1;
            assert(out@ =~= head + movetext(sans, black_first, i as nat));
        }
        match self.header("Result") {
            Some(v) => push_str(&mut out, v.as_str()),
            None => push_str(&mut out, "*"),
        }
        push_str(&mut out, "\n");
        assert(out@ =~= pgn_text(hv, sans, black_first));
        chars_to_string(&out)
    }
}

impl Default for Game {
    /// A new game from the standard starting position.
    fn default() -> (g: Game)
        ensures
            g.wf(),
            g.fens() == seq![start_fen()],
            g.moves@.len() == 0,
            g.cursor == 0,
            g.tags() == default_header_pairs(),
    {
        Game::new()
    }
}

// ---------------------------------------------------------------------------
// Laws
// ---------------------------------------------------------------------------
/// Stepping back and then forward returns to the same position, unless at the start.
pub proof fn law_back_then_forward(c: usize, n: nat)
    requires
        0 < c <= n,
    ensures
        cursor_forward(cursor_back(c), n) == c,
{
}

/// Stepping forward and then back returns to the same position, unless at the end.
pub proof fn law_forward_then_back(c: usize, n: nat)
    requires
        c < n <= usize::MAX,
    ensures
        cursor_back(cursor_forward(c, n)) == c,
{
}

/// After a move, the game shows its last position, and the move is its last move.
pub proof fn law_move_lands_at_end(g: Game, m: ChessMove, k: nat, g2: Game)
    requires
        g.wf(),
        moved(g, m, k, g2),
    ensures
        g2.cursor == g2.moves@.len(),
        g2.moves@.last() == m,
        g2.cursor_fen() == spec_play(g.cursor_fen(), k),
{
}

/// A move keeps the game up to the position it is played from, and one step back
/// from the new position is that position.
pub proof fn law_move_keeps_history(g: Game, m: ChessMove, k: nat, g2: Game)
    requires
        g.wf(),
        moved(g, m, k, g2),
    ensures
        forall|i: int| 0 <= i <= g.cursor ==> g2.fens()[i] == g.fens()[i],
        forall|i: int| 0 <= i < g.cursor ==> g2.moves@[i] == g.moves@[i],
        forall|i: int| 0 <= i < g.cursor ==> g2.sans()[i] == g.sans()[i],
        g2.fens()[cursor_back(g2.cursor) as int] == g.cursor_fen(),
{
}

/// A well-formed game is a legal game: each move is legal in the position before it
/// and leads to the position after it.
pub proof fn law_moves_are_legal(g: Game, i: int)
    requires
        g.wf(),
        0 <= i < g.moves@.len(),
    ensures
        legal_index(g.fens()[i], g.moves@[i]) matches Some(k) && g.fens()[i + 1] == spec_play(
            g.fens()[i],
            k,
        ),
{
}

/// A checkmate is won by the side that is not to move: with black to move and mated
/// the status says `white wins by checkmate`, with white to move and mated `black
/// wins by checkmate`.
pub proof fn law_checkmate_names_the_other_side(fen: Seq<char>)
    requires
        spec_checkmate(fen),
    ensures
        spec_turn(fen) == 0 ==> outcome_text(fen) == Some("white wins by checkmate"@),
        spec_turn(fen) == 1 ==> outcome_text(fen) == Some("black wins by checkmate"@),
{
    reveal_strlit("white wins by checkmate");
    reveal_strlit("black wins by checkmate");
    reveal_strlit("white");
    reveal_strlit("black");
    reveal_strlit(" wins by checkmate");
    if spec_turn(fen) == 0 {
        assert("white"@ + " wins by checkmate"@ =~= "white wins by checkmate"@);
    }
    if spec_turn(fen) == 1 {
        assert("black"@ + " wins by checkmate"@ =~= "black wins by checkmate"@);
    }
}

} // verus!
