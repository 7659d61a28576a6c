//! Building games from what a PGN reader reports, and writing games as PGN.
//!
//! The reader hands over a game's tags one by one, then its moves in SAN; the
//! builders here turn them into a [`Game`].
use vstd::prelude::*;

use crate::board::{move_from_code, move_of_code, move_valid, ChessMove};
use crate::game::{
    after, extra_tags, find_legal, find_name, header_pairs, is_std_key, legal_index,
    lemma_find_move_found, lemma_find_name_found, lemma_std_keys_distinct, lookup, move_number_text,
    movetext, names_distinct,
    pgn_text, san_names, set_tag, start_fen, std_key, std_tags, tag_line, tags_set, unwrap_or,
    Game,
};
use crate::rules::{
    legal_moves, normal_fen, play_legal, spec_normal_fen, spec_play,
    spec_san_move, spec_turn,
};
use crate::text::{
    decimal, is_space, is_word, lemma_number_word, lemma_words_concat, lemma_words_of_word,
    push_str, str_eq, words,
};

verus! {

/// The tags, and the start position that a `FEN` tag gives, after reading the tag
/// `k` with value `v`: it replaces a tag of that name or comes after the others, and
/// a `FEN` tag that describes a legal position sets the start.
pub open spec fn tag_step(
    st: (Seq<(Seq<char>, Seq<char>)>, Option<Seq<char>>),
    k: Seq<char>,
    v: Seq<char>,
) -> (Seq<(Seq<char>, Seq<char>)>, Option<Seq<char>>) {
    (
        tags_set(st.0, k, v),
        if k == "FEN"@ && spec_normal_fen(v) is Some {
            spec_normal_fen(v)
        } else {
            st.1
        },
    )
}

/// The tags, and the start position that a `FEN` tag gives, after reading the tags
/// `ts` in order.
pub open spec fn tags_replay(ts: Seq<(Seq<char>, Seq<char>)>) -> (
    Seq<(Seq<char>, Seq<char>)>,
    Option<Seq<char>>,
)
    decreases ts.len(),
{
    if ts.len() == 0 {
        (seq![], None)
    } else {
        tag_step(tags_replay(ts.drop_last()), ts.last().0, ts.last().1)
    }
}

/// The position a game read from PGN starts from.
pub open spec fn replay_start(start: Option<Seq<char>>) -> Seq<char> {
    match start {
        Some(f) => f,
        None => start_fen(),
    }
}

/// The start position that the `FEN` tag among `hv` describes, if it describes a
/// legal one.
pub open spec fn fen_start(hv: Seq<(Seq<char>, Seq<char>)>) -> Option<Seq<char>> {
    match lookup(hv, "FEN"@) {
        Some(v) => spec_normal_fen(v),
        None => None,
    }
}

/// The positions, moves and SANs after reading the SAN `san` of a move: where it
/// names a legal move of the last position, the move is played; otherwise nothing
/// changes.
pub open spec fn san_step(
    st: (Seq<Seq<char>>, Seq<ChessMove>, Seq<Seq<char>>),
    san: Seq<char>,
) -> (Seq<Seq<char>>, Seq<ChessMove>, Seq<Seq<char>>) {
    let fen = st.0.last();
    match spec_san_move(fen, san) {
        Some(c) => match legal_index(fen, move_of_code(c)) {
            Some(k) => (st.0.push(spec_play(fen, k)), st.1.push(move_of_code(c)), st.2.push(san)),
            None => st,
        },
        None => st,
    }
}

/// The positions, moves and SANs after reading the SANs `sans` in order from the
/// position `start`.
pub open spec fn moves_replay(start: Seq<char>, sans: Seq<Seq<char>>) -> (
    Seq<Seq<char>>,
    Seq<ChessMove>,
    Seq<Seq<char>>,
)
    decreases sans.len(),
{
    if sans.len() == 0 {
        (seq![start], seq![], seq![])
    } else {
        san_step(moves_replay(start, sans.drop_last()), sans.last())
    }
}

/// The tags of a game read so far, and the start position that a `FEN` tag gives.
pub struct TagsState {
    pub headers: Vec<(String, String)>,
    /// FEN of the start position, where a `FEN` tag described a legal one.
    pub start: Option<String>,
}

/// The moves of a game read so far.
pub struct MovetextState {
    /// The game with its moves so far; the cursor on the last position.
    pub game: Game,
}

impl TagsState {
    pub open spec fn wf(&self) -> bool {
        names_distinct(header_pairs(self.headers@))
    }

    /// No tags yet.
    pub fn new() -> (r: TagsState)
        ensures
            r.wf(),
            r.headers@.len() == 0,
            r.start is None,
    {
        TagsState { headers: Vec::new(), start: None }
    }

    /// Takes in the tag `name` with `value`. The value of a `FEN` tag that describes
    /// a legal position becomes the start position.
    pub fn tag(&mut self, name: String, value: String)
        requires
            old(self).wf(),
        ensures
            final(self).wf(),
            header_pairs(final(self).headers@) == tags_set(
                header_pairs(old(self).headers@),
                name@,
                value@,
            ),
            name@ == "FEN"@ && spec_normal_fen(value@) is Some ==> crate::rules::opt_text(
                final(self).start,
            ) == spec_normal_fen(value@),
            !(name@ == "FEN"@ && spec_normal_fen(value@) is Some) ==> final(self).start == old(
                self,
            ).start,
            (header_pairs(final(self).headers@), crate::rules::opt_text(final(self).start))
                == tag_step(
                (header_pairs(old(self).headers@), crate::rules::opt_text(old(self).start)),
                name@,
                value@,
            ),
    {
        if str_eq(name.as_str(), "FEN") {
            match normal_fen(value.as_str()) {
                Some(f) => {
                    self.start = Some(f);
                },
                None => {},
            }
        }
        set_tag(&mut self.headers, name, value);
    }

    /// The moves begin: the game starts from the `FEN` tag's position, or from the
    /// standard starting position.
    pub fn begin_movetext(self) -> (r: MovetextState)
        requires
            self.wf(),
        ensures
            r.wf(),
            r.game.fens() == seq![
                match self.start {
                    Some(f) => f@,
                    None => start_fen(),
                },
            ],
            r.game.moves@.len() == 0,
            r.game.tags() == header_pairs(self.headers@),
            r.game.fens() == seq![replay_start(crate::rules::opt_text(self.start))],
    {
        let start = match self.start {
            Some(f) => f,
            None => String::from_str("rnbqkbnr/pppppppp/8/8/8/8/PPPPPPPP/RNBQKBNR w KQkq - 0 1"),
        };
        let ghost sf = start@;
        let mut positions: Vec<String> = Vec::new();
        positions.push(start);
        let game = Game {
            positions,
            moves: Vec::new(),
            san: Vec::new(),
            cursor: 0,
            headers: self.headers,
        };
        assert(game.fens() =~= seq![sf]);
        MovetextState { game }
    }
}

impl MovetextState {
    pub open spec fn wf(&self) -> bool {
        self.game.wf() && self.game.cursor == self.game.moves@.len()
    }

    /// FEN of the last position.
    pub open spec fn last_fen(&self) -> Seq<char> {
        self.game.fens().last()
    }

    /// Takes in a move written `san`. Where it is a legal move of the last position,
    /// it is played, and `san` is kept as its SAN; otherwise it is passed over.
    pub fn san(&mut self, san: &str)
        requires
            old(self).wf(),
        ensures
            final(self).wf(),
            final(self).game.headers == old(self).game.headers,
            (final(self).game.fens(), final(self).game.moves@, final(self).game.sans()) == san_step(
                (old(self).game.fens(), old(self).game.moves@, old(self).game.sans()),
                san@,
            ),
            match spec_san_move(old(self).last_fen(), san@) {
                Some(c) => match legal_index(old(self).last_fen(), move_of_code(c)) {
                    Some(k) => {
                        &&& final(self).game.fens() == old(self).game.fens().push(
                            spec_play(old(self).last_fen(), k),
                        )
                        &&& final(self).game.moves@ == old(self).game.moves@.push(move_of_code(c))
                        &&& final(self).game.sans() == old(self).game.sans().push(san@)
                    },
                    None => final(self).game == old(self).game,
                },
                None => final(self).game == old(self).game,
            },
    {
        let last = self.game.positions.len() - 1;
        let ghost fen = self.game.fens()[last as int];
        assert(fen == self.game.positions@[last as int]@);
        let c = match crate::rules::san_move(self.game.positions[last].as_str(), san) {
            Some(c) => c,
            None => return ,
        };
        let m = move_from_code(c);
        let legal = legal_moves(self.game.positions[last].as_str());
        let k = match find_legal(&legal, m) {
            Some(k) => k,
            None => return ,
        };
        proof {
            lemma_find_move_found(legal@, m, 0);
            assert(crate::board::code_valid(legal@[k as int]));
        }
        let next = play_legal(self.game.positions[last].as_str(), k);
        let ghost old_game = self.game;
        let ghost old_fens = self.game.fens();
        let ghost old_sans = self.game.sans();
        let ghost old_moves = self.game.moves@;
        self.game.positions.push(next);
        self.game.moves.push(m);
        self.game.san.push(String::from_str(san));
        self.game.cursor = self.game.moves.len();
        proof {
            assert(self.game.fens() =~= old_fens.push(spec_play(fen, k as nat)));
            assert(self.game.sans() =~= old_sans.push(san@));
            assert forall|i: int| 0 <= i < self.game.moves@.len() implies after(
                self.game.fens()[i],
                #[trigger] self.game.moves@[i],
            ) == Some(self.game.fens()[i + 1]) by {
                if i < old_moves.len() {
                    assert(self.game.moves@[i] == old_moves[i]);
                    assert(self.game.fens()[i] == old_fens[i]);
                    assert(self.game.fens()[i + 1] == old_fens[i + 1]);
                } else {
                    assert(legal_index(fen, m) == Some(k as nat));
                }
            }
            assert forall|i: int| 0 <= i < self.game.moves@.len() implies move_valid(
                #[trigger] self.game.moves@[i],
            ) by {
                if i < old_moves.len() {
                    assert(self.game.moves@[i] == old_moves[i]);
                }
            }
        }
    }

    /// The game, its last position on display.
    pub fn end_game(self) -> (g: Game)
        requires
            self.wf(),
        ensures
            g.wf(),
            g == self.game,
            g.cursor == g.moves@.len(),
    {
        self.game
    }
}

/// Games in PGN, each followed by a blank line.
pub open spec fn pgn_file(games: Seq<Game>) -> Seq<char>
    decreases games.len(),
{
    if games.len() == 0 {
        seq![]
    } else {
        let g = games.last();
        pgn_file(games.drop_last()) + pgn_text(g.tags(), g.sans(), spec_turn(g.fens()[0]) == 0)
            + "\n"@
    }
}

/// The text of a PGN file that holds `games`.
pub fn games_to_pgn(games: &[Game]) -> (r: String)
    requires
        forall|i: int| 0 <= i < games@.len() ==> (#[trigger] games@[i]).wf(),
    ensures
        r@ == pgn_file(games@),
{
    let mut out: Vec<char> = Vec::new();
    let n = games.len();
    let mut i: usize = 0;
    while i < n
        invariant
            n == games@.len(),
            i <= n,
            forall|j: int| 0 <= j < games@.len() ==> (#[trigger] games@[j]).wf(),
            out@ == pgn_file(games@.take(i as int)),
        decreases n - i,
    {
        let text = games[i].to_pgn();
        push_str(&mut out, text.as_str());
        push_str(&mut out, "\n");
        assert(games@.take(i + 1).drop_last() =~= games@.take(i as int));
        i = i + 1;
    }
    assert(games@.take(n as int) =~= games@);
    crate::text::chars_to_string(&out)
}

/// Saving games one after another writes each in turn: the file of `a` and then `b`
/// is the file of `a` followed by the file of `b`.
pub proof fn law_pgn_file_concat(a: Seq<Game>, b: Seq<Game>)
    ensures
        pgn_file(a + b) == pgn_file(a) + pgn_file(b),
    decreases b.len(),
{
    if b.len() == 0 {
        assert(a + b =~= a);
        assert(pgn_file(a) + pgn_file(b) =~= pgn_file(a));
    } else {
        law_pgn_file_concat(a, b.drop_last());
        assert((a + b).drop_last() =~= a + b.drop_last());
        assert((a + b).last() == b.last());
        assert(pgn_file(a + b) =~= pgn_file(a) + pgn_file(b));
    }
}

// ---------------------------------------------------------------------------
// What the PGN text of a game holds, and reading it back
// ---------------------------------------------------------------------------
/// The seven standard tags as a game's PGN writes them: `?` where the game lacks one.
pub open spec fn std_pairs(hv: Seq<(Seq<char>, Seq<char>)>) -> Seq<(Seq<char>, Seq<char>)> {
    Seq::new(7, |i: int| (std_key(i as nat), unwrap_or(lookup(hv, std_key(i as nat)), "?"@)))
}

/// The other tags among the first `n` of `hv`, in order.
pub open spec fn extra_pairs(hv: Seq<(Seq<char>, Seq<char>)>, n: nat) -> Seq<(Seq<char>, Seq<char>)>
    decreases n,
{
    if n == 0 {
        seq![]
    } else if is_std_key(hv[n - 1].0) {
        extra_pairs(hv, (n - 1) as nat)
    } else {
        extra_pairs(hv, (n - 1) as nat).push(hv[n - 1])
    }
}

/// The tags that a game's PGN holds, in the order it writes them.
pub open spec fn written_tags(hv: Seq<(Seq<char>, Seq<char>)>) -> Seq<(Seq<char>, Seq<char>)> {
    std_pairs(hv) + extra_pairs(hv, hv.len())
}

/// The lines of the tags `ts`, in order.
pub open spec fn tag_lines(ts: Seq<(Seq<char>, Seq<char>)>) -> Seq<char>
    decreases ts.len(),
{
    if ts.len() == 0 {
        seq![]
    } else {
        tag_lines(ts.drop_last()) + tag_line(ts.last().0, ts.last().1)
    }
}

proof fn lemma_tag_lines_concat(a: Seq<(Seq<char>, Seq<char>)>, b: Seq<(Seq<char>, Seq<char>)>)
    ensures
        tag_lines(a + b) == tag_lines(a) + tag_lines(b),
    decreases b.len(),
{
    if b.len() == 0 {
        assert(a + b =~= a);
        assert(tag_lines(a) + tag_lines(b) =~= tag_lines(a));
    } else {
        lemma_tag_lines_concat(a, b.drop_last());
        assert((a + b).drop_last() =~= a + b.drop_last());
        assert((a + b).last() == b.last());
        assert(tag_lines(a + b) =~= tag_lines(a) + tag_lines(b));
    }
}

proof fn lemma_std_lines(hv: Seq<(Seq<char>, Seq<char>)>, n: nat)
    requires
        n <= 7,
    ensures
        std_tags(hv, n) == tag_lines(std_pairs(hv).take(n as int)),
    decreases n,
{
    if n > 0 {
        lemma_std_lines(hv, (n - 1) as nat);
        assert(std_pairs(hv).take(n as int).drop_last() =~= std_pairs(hv).take(n - 1));
    } else {
        assert(std_pairs(hv).take(0) =~= Seq::<(Seq<char>, Seq<char>)>::empty());
    }
}

proof fn lemma_extra_lines(hv: Seq<(Seq<char>, Seq<char>)>, n: nat)
    requires
        n <= hv.len(),
    ensures
        extra_tags(hv, n) == tag_lines(extra_pairs(hv, n)),
    decreases n,
{
    if n > 0 {
        lemma_extra_lines(hv, (n - 1) as nat);
        if !is_std_key(hv[n - 1].0) {
            assert(extra_pairs(hv, n).drop_last() =~= extra_pairs(hv, (n - 1) as nat));
        }
    }
}

/// A game's PGN starts with one line for each of its written tags, in order: the
/// seven standard tags, then the others.
pub proof fn law_pgn_writes_tags(hv: Seq<(Seq<char>, Seq<char>)>)
    ensures
        std_tags(hv, 7) + extra_tags(hv, hv.len()) == tag_lines(written_tags(hv)),
{
    lemma_std_lines(hv, 7);
    assert(std_pairs(hv).take(7) =~= std_pairs(hv));
    lemma_extra_lines(hv, hv.len());
    lemma_tag_lines_concat(std_pairs(hv), extra_pairs(hv, hv.len()));
}

/// The word written before the `i`-th move, if any: its number with `.` before a
/// white move, `1...` before a first move by black.
pub open spec fn number_tokens(i: nat, black_first: bool) -> Seq<Seq<char>> {
    if i == 0 {
        if black_first {
            seq![decimal(1) + "..."@]
        } else {
            seq![decimal(1) + "."@]
        }
    } else if black_first {
        if i % 2 == 1 {
            seq![decimal((i + 1) / 2 + 1) + "."@]
        } else {
            seq![]
        }
    } else if i % 2 == 0 {
        seq![decimal(i / 2 + 1) + "."@]
    } else {
        seq![]
    }
}

/// The words of the first `n` moves as written: each move's number word, if it has
/// one, and then its SAN.
pub open spec fn movetext_tokens(sans: Seq<Seq<char>>, black_first: bool, n: nat) -> Seq<
    Seq<char>,
>
    decreases n,
{
    if n == 0 {
        seq![]
    } else {
        movetext_tokens(sans, black_first, (n - 1) as nat) + number_tokens(
            (n - 1) as nat,
            black_first,
        ) + seq![sans[n - 1]]
    }
}

proof fn lemma_number_text_words(i: nat, black_first: bool)
    ensures
        words(move_number_text(i, black_first)) == number_tokens(i, black_first),
        move_number_text(i, black_first).len() == 0 || is_space(
            move_number_text(i, black_first).last(),
        ),
{
    reveal_strlit(". ");
    reveal_strlit("... ");
    reveal_strlit(".");
    reveal_strlit("...");
    reveal_strlit(" ");
    let t = move_number_text(i, black_first);
    let nt = number_tokens(i, black_first);
    if nt.len() == 0 {
        assert(t =~= Seq::<char>::empty());
    } else {
        let w = nt[0];
        let k: nat = if i == 0 {
            1
        } else if black_first {
            ((i + 1) / 2 + 1) as nat
        } else {
            (i / 2 + 1) as nat
        };
        let dots = if i == 0 && black_first {
            "..."@
        } else {
            "."@
        };
        assert(w == decimal(k) + dots);
        lemma_number_word(k, dots);
        assert(t =~= w + " "@);
        lemma_words_of_word(w, " "@);
        assert(words(" "@) == words(" "@.drop_first()));
        assert(" "@.drop_first() =~= Seq::<char>::empty());
        assert(seq![w] + words(" "@) =~= nt);
    }
}

/// The words of the move text of a game's PGN are, move by move, the move's number
/// word where it has one and the move's SAN, as long as each SAN is one word.
pub proof fn law_movetext_words(sans: Seq<Seq<char>>, black_first: bool, n: nat)
    requires
        n <= sans.len(),
        forall|i: int| 0 <= i < n ==> is_word(#[trigger] sans[i]),
    ensures
        words(movetext(sans, black_first, n)) == movetext_tokens(sans, black_first, n),
        movetext(sans, black_first, n).len() == 0 || is_space(movetext(sans, black_first, n).last()),
    decreases n,
{
    reveal_strlit(" ");
    if n == 0 {
        assert(movetext(sans, black_first, 0) =~= Seq::<char>::empty());
    } else {
        let m = (n - 1) as nat;
        law_movetext_words(sans, black_first, m);
        let prev = movetext(sans, black_first, m);
        let num = move_number_text(m, black_first);
        let san = sans[m as int];
        lemma_number_text_words(m, black_first);
        assert(movetext(sans, black_first, n) =~= prev + (num + (san + " "@)));
        lemma_words_concat(prev, num + (san + " "@));
        lemma_words_concat(num, san + " "@);
        lemma_words_of_word(san, " "@);
        assert(words(" "@) == words(" "@.drop_first()));
        assert(" "@.drop_first() =~= Seq::<char>::empty());
        assert(words(san + " "@) =~= seq![san]);
        assert(movetext_tokens(sans, black_first, n) =~= movetext_tokens(sans, black_first, m)
            + number_tokens(m, black_first) + seq![san]);
    }
}

/// Every game's move text splits into its move numbers and its SANs, in order: the
/// SANs are single words.
pub proof fn law_game_movetext_words(g: Game, black_first: bool)
    requires
        g.wf(),
    ensures
        words(movetext(g.sans(), black_first, g.sans().len())) == movetext_tokens(
            g.sans(),
            black_first,
            g.sans().len(),
        ),
{
    assert(g.sans().len() == g.moves@.len());
    assert forall|i: int| 0 <= i < g.sans().len() implies is_word(#[trigger] g.sans()[i]) by {
        let m = g.moves@[i];
        assert(san_names(g.fens()[i], g.sans()[i], m) && is_word(g.sans()[i]));
    }
    law_movetext_words(g.sans(), black_first, g.sans().len());
}

proof fn lemma_lookup_at(ts: Seq<(Seq<char>, Seq<char>)>, i: int)
    requires
        names_distinct(ts),
        0 <= i < ts.len(),
    ensures
        lookup(ts, ts[i].0) == Some(ts[i].1),
{
    lemma_find_name_found(ts, ts[i].0, 0);
    match find_name(ts, ts[i].0, 0) {
        Some(j) => {
            if j as int != i {
                if (j as int) < i {
                    assert(ts[j as int].0 != ts[i].0);
                } else {
                    assert(ts[i].0 != ts[j as int].0);
                }
            }
        },
        None => {
            assert(ts[i].0 != ts[i].0);
        },
    }
}

proof fn lemma_lookup_none(ts: Seq<(Seq<char>, Seq<char>)>, k: Seq<char>)
    requires
        forall|t: int| 0 <= t < ts.len() ==> ts[t].0 != k,
    ensures
        lookup(ts, k) is None,
{
    lemma_find_name_found(ts, k, 0);
}

/// Reading tags with distinct names gives those tags back, and the start that their
/// `FEN` tag describes.
proof fn lemma_tags_replay(ts: Seq<(Seq<char>, Seq<char>)>)
    requires
        names_distinct(ts),
    ensures
        tags_replay(ts) == (ts, fen_start(ts)),
    decreases ts.len(),
{
    if ts.len() == 0 {
        lemma_lookup_none(ts, "FEN"@);
    } else {
        let prev = ts.drop_last();
        let p = ts.last();
        let n = ts.len() - 1;
        assert(names_distinct(prev));
        lemma_tags_replay(prev);
        assert forall|t: int| 0 <= t < prev.len() implies prev[t].0 != p.0 by {
            assert(ts[t].0 != ts[n].0);
        }
        lemma_find_name_found(prev, p.0, 0);
        assert(tags_set(prev, p.0, p.1) =~= ts);
        if p.0 == "FEN"@ {
            lemma_lookup_at(ts, n);
            lemma_lookup_none(prev, "FEN"@);
        } else {
            if exists|t: int| 0 <= t < prev.len() && prev[t].0 == "FEN"@ {
                let t = choose|t: int| 0 <= t < prev.len() && prev[t].0 == "FEN"@;
                lemma_lookup_at(prev, t);
                lemma_lookup_at(ts, t);
            } else {
                lemma_lookup_none(prev, "FEN"@);
                assert forall|t: int| 0 <= t < ts.len() implies ts[t].0 != "FEN"@ by {
                    if t < n {
                        assert(ts[t] == prev[t]);
                    }
                }
                lemma_lookup_none(ts, "FEN"@);
            }
        }
    }
}

/// The other tags among the first `n`: distinct names, none of them standard, each
/// one of the tags, and every other tag among them.
proof fn lemma_extra_pairs(hv: Seq<(Seq<char>, Seq<char>)>, n: nat)
    requires
        names_distinct(hv),
        n <= hv.len(),
    ensures
        names_distinct(extra_pairs(hv, n)),
        forall|t: int|
            0 <= t < extra_pairs(hv, n).len() ==> !is_std_key(#[trigger] extra_pairs(hv, n)[t].0)
                && exists|j: int| 0 <= j < n && extra_pairs(hv, n)[t] == hv[j],
        forall|j: int|
            0 <= j < n && !is_std_key(#[trigger] hv[j].0) ==> exists|t: int|
                0 <= t < extra_pairs(hv, n).len() && extra_pairs(hv, n)[t] == hv[j],
    decreases n,
{
    if n > 0 {
        let m = (n - 1) as nat;
        lemma_extra_pairs(hv, m);
        let e = extra_pairs(hv, m);
        if !is_std_key(hv[m as int].0) {
            let e2 = extra_pairs(hv, n);
            assert(e2 == e.push(hv[m as int]));
            assert forall|a: int, b: int| 0 <= a < b < e2.len() implies e2[a].0 != e2[b].0 by {
                if b < e.len() {
                    assert(e[a].0 != e[b].0);
                } else {
                    assert(exists|j: int| 0 <= j < m && e[a] == hv[j]);
                    let j = choose|j: int| 0 <= j < m && e[a] == hv[j];
                    assert(hv[j].0 != hv[m as int].0);
                }
            }
            assert forall|t: int| 0 <= t < e2.len() implies !is_std_key(#[trigger] e2[t].0)
                && exists|j: int| 0 <= j < n && e2[t] == hv[j] by {
                if t < e.len() {
                    assert(!is_std_key(e[t].0));
                    let j = choose|j: int| 0 <= j < m && e[t] == hv[j];
                    assert(e2[t] == hv[j]);
                } else {
                    assert(e2[t] == hv[m as int]);
                }
            }
            assert forall|j: int| 0 <= j < n && !is_std_key(#[trigger] hv[j].0) implies exists|
                t: int,
            | 0 <= t < e2.len() && e2[t] == hv[j] by {
                if j < m {
                    let t = choose|t: int| 0 <= t < e.len() && e[t] == hv[j];
                    assert(e2[t] == hv[j]);
                } else {
                    assert(e2[e.len() as int] == hv[j]);
                }
            }
        } else {
            assert forall|j: int| 0 <= j < n && !is_std_key(#[trigger] hv[j].0) implies exists|
                t: int,
            | 0 <= t < e.len() && e[t] == hv[j] by {
                assert(j < m);
            }
            assert forall|t: int| 0 <= t < e.len() implies !is_std_key(#[trigger] e[t].0)
                && exists|j: int| 0 <= j < n && e[t] == hv[j] by {
                let j = choose|j: int| 0 <= j < m && e[t] == hv[j];
                assert(e[t] == hv[j]);
            }
        }
    }
}

/// The written tags have distinct names, and their `FEN` tag is the game's.
proof fn lemma_written_tags(hv: Seq<(Seq<char>, Seq<char>)>)
    requires
        names_distinct(hv),
    ensures
        names_distinct(written_tags(hv)),
        fen_start(written_tags(hv)) == fen_start(hv),
{
    lemma_std_keys_distinct();
    lemma_extra_pairs(hv, hv.len());
    let sp = std_pairs(hv);
    let ep = extra_pairs(hv, hv.len());
    let w = written_tags(hv);
    assert forall|a: int, b: int| 0 <= a < b < w.len() implies w[a].0 != w[b].0 by {
        if b < 7 {
            assert(std_key(a as nat) != std_key(b as nat));
        } else if a < 7 {
            assert(w[a].0 == std_key(a as nat));
            assert(is_std_key(std_key(a as nat)));
            assert(w[b] == ep[b - 7]);
            assert(!is_std_key(ep[b - 7].0));
        } else {
            assert(w[a] == ep[a - 7]);
            assert(w[b] == ep[b - 7]);
        }
    }
    if exists|j: int| 0 <= j < hv.len() && hv[j].0 == "FEN"@ {
        let j = choose|j: int| 0 <= j < hv.len() && hv[j].0 == "FEN"@;
        assert(!is_std_key(hv[j].0));
        let t = choose|t: int| 0 <= t < ep.len() && ep[t] == hv[j];
        assert(w[t + 7] == hv[j]);
        lemma_lookup_at(w, t + 7);
        lemma_lookup_at(hv, j);
    } else {
        lemma_lookup_none(hv, "FEN"@);
        assert forall|t: int| 0 <= t < w.len() implies w[t].0 != "FEN"@ by {
            if t < 7 {
                assert(w[t].0 == std_key(t as nat));
            } else {
                assert(w[t] == ep[t - 7]);
                let j = choose|j: int| 0 <= j < hv.len() && ep[t - 7] == hv[j];
                assert(hv[j].0 != "FEN"@);
            }
        }
        lemma_lookup_none(w, "FEN"@);
    }
}

/// Reading back the SANs of the first `n` moves of a game rebuilds its first `n`
/// moves and the positions they lead to.
proof fn lemma_moves_replay(g: Game, n: nat)
    requires
        g.wf(),
        n <= g.moves@.len(),
    ensures
        moves_replay(g.fens()[0], g.sans().take(n as int)) == (
            g.fens().take(n + 1int),
            g.moves@.take(n as int),
            g.sans().take(n as int),
        ),
    decreases n,
{
    if n == 0 {
        assert(g.sans().take(0) =~= Seq::<Seq<char>>::empty());
        assert(g.fens().take(1) =~= seq![g.fens()[0]]);
        assert(g.moves@.take(0) =~= Seq::<ChessMove>::empty());
    } else {
        let i = (n - 1) as int;
        lemma_moves_replay(g, (n - 1) as nat);
        assert(g.sans().take(n as int).drop_last() =~= g.sans().take(i));
        let fen = g.fens()[i];
        let m = g.moves@[i];
        assert(san_names(fen, g.sans()[i], m));
        assert(after(fen, m) == Some(g.fens()[i + 1]));
        let k = legal_index(fen, m)->0;
        assert(g.fens().take(n as int).last() == fen);
        assert(g.fens().take(n + 1int) =~= g.fens().take(n as int).push(spec_play(fen, k)));
        assert(g.moves@.take(n as int) =~= g.moves@.take(i).push(m));
        assert(g.sans().take(n as int) =~= g.sans().take(i).push(g.sans()[i]));
    }
}

/// Reading back the PGN that a game writes gives the game again: its tags come back
/// as written (the seven standard tags, then the others), and its moves, SANs and
/// positions come back from its start, for a game that starts where its tags say
/// (the standard position unless a `FEN` tag describes another).
pub proof fn law_pgn_round_trip(g: Game)
    requires
        g.wf(),
        g.fens()[0] == replay_start(fen_start(g.tags())),
    ensures
        tags_replay(written_tags(g.tags())) == (written_tags(g.tags()), fen_start(g.tags())),
        moves_replay(replay_start(tags_replay(written_tags(g.tags())).1), g.sans()) == (
            g.fens(),
            g.moves@,
            g.sans(),
        ),
{
    lemma_written_tags(g.tags());
    lemma_tags_replay(written_tags(g.tags()));
    lemma_moves_replay(g, g.moves@.len());
    assert(g.sans().take(g.moves@.len() as int) =~= g.sans());
    assert(g.fens().take(g.moves@.len() + 1int) =~= g.fens());
    assert(g.moves@.take(g.moves@.len() as int) =~= g.moves@);
}

} // verus!
