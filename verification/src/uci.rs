//! Reading what a UCI engine prints.
use vstd::prelude::*;

use crate::engine::{EngineInfo, EngineOutput, InfoView, Score};
use crate::text::{
    chars_eq_str, chars_start_with, chars_to_string, parse_i32, parse_i32_spec, parse_u8,
    parse_u8_spec, split_words, str_chars, texts, words, join, law_words_of_joined_words, int_text,
    lemma_i32_text_parses,
};

verus! {

/// The `u8` in token `j`, or `default` where there is no such token or it is no
/// `u8`.
pub open spec fn token_u8(t: Seq<Seq<char>>, j: int, default: u8) -> u8 {
    if 0 <= j < t.len() {
        match parse_u8_spec(t[j]) {
            Some(v) => v,
            None => default,
        }
    } else {
        default
    }
}

/// The `i32` in token `j`, if there is such a token and it is one.
pub open spec fn token_i32(t: Seq<Seq<char>>, j: int) -> Option<i32> {
    if 0 <= j < t.len() {
        parse_i32_spec(t[j])
    } else {
        None
    }
}

/// The score that `kind` (`cp` or `mate`) and a number make.
pub open spec fn make_score(is_cp: bool, v: Option<i32>) -> Option<Score> {
    match v {
        Some(n) => if is_cp {
            Some(Score::Cp(n))
        } else {
            Some(Score::Mate(n))
        },
        None => None,
    }
}

/// The fields of an `info` line read from token `i` on, given what was read before:
/// (depth, score, principal variation, MultiPV number). `depth` and `multipv` take
/// the next token as a number (0 and 1 where it is none); `score cp` and `score mate`
/// take the token after (no score where it is no number), and a `lowerbound` or
/// `upperbound` after them is passed over; `pv` takes all the tokens after it; any
/// other token is passed over.
pub open spec fn info_scan(
    t: Seq<Seq<char>>,
    i: int,
    depth: u8,
    score: Option<Score>,
    multipv: u8,
) -> (u8, Option<Score>, Seq<Seq<char>>, u8)
    decreases (if 0 <= i < t.len() {
        t.len() - i
    } else {
        0
    }),
{
    if i < 0 || i >= t.len() {
        (depth, score, seq![], multipv)
    } else if t[i] == "depth"@ {
        info_scan(t, i + 2, token_u8(t, i + 1, 0), score, multipv)
    } else if t[i] == "multipv"@ {
        info_scan(t, i + 2, depth, score, token_u8(t, i + 1, 1))
    } else if t[i] == "score"@ {
        let (s2, j) = if i + 1 < t.len() && t[i + 1] == "cp"@ {
            (make_score(true, token_i32(t, i + 2)), i + 3)
        } else if i + 1 < t.len() && t[i + 1] == "mate"@ {
            (make_score(false, token_i32(t, i + 2)), i + 3)
        } else {
            (score, i + 1)
        };
        let j2 = if j < t.len() && (t[j] == "lowerbound"@ || t[j] == "upperbound"@) {
            j + 1
        } else {
            j
        };
        info_scan(t, j2, depth, s2, multipv)
    } else if t[i] == "pv"@ {
        (depth, score, t.skip(i + 1), multipv)
    } else {
        info_scan(t, i + 1, depth, score, multipv)
    }
}

/// What an `info` line of a UCI engine says, read word by word; `None` where the
/// first word is not `info`. Without a score, the score is 0 centipawns.
pub open spec fn spec_parse_info(line: Seq<char>) -> Option<InfoView> {
    let t = words(line);
    if t.len() == 0 || t[0] != "info"@ {
        None
    } else {
        let r = info_scan(t, 1, 0, None, 1);
        Some(
            InfoView {
                depth: r.0,
                score: match r.1 {
                    Some(s) => s,
                    None => Score::Cp(0),
                },
                pv: r.2,
                multipv: r.3,
            },
        )
    }
}

proof fn lemma_scan_past_end(
    t: Seq<Seq<char>>,
    i: int,
    depth: u8,
    score: Option<Score>,
    multipv: u8,
)
    ensures
        i >= t.len() ==> info_scan(t, i, depth, score, multipv) == info_scan(
            t,
            t.len() as int,
            depth,
            score,
            multipv,
        ),
{
}

fn tok_u8(t: &Vec<Vec<char>>, j: usize, default: u8) -> (r: u8)
    ensures
        r == token_u8(t@.map_values(|w: Vec<char>| w@), j as int, default),
{
    if j < t.len() {
        match parse_u8(&t[j]) {
            Some(v) => v,
            None => default,
        }
    } else {
        default
    }
}

fn tok_i32(t: &Vec<Vec<char>>, j: usize) -> (r: Option<i32>)
    ensures
        r == token_i32(t@.map_values(|w: Vec<char>| w@), j as int),
{
    if j < t.len() {
        parse_i32(&t[j])
    } else {
        None
    }
}

/// Whether token `j` exists and is `s`.
fn tok_is(t: &Vec<Vec<char>>, j: usize, s: &str) -> (r: bool)
    ensures
        r == (j < t@.len() && t@[j as int]@ == s@),
{
    if j < t.len() {
        chars_eq_str(&t[j], s)
    } else {
        false
    }
}

/// The words of `line` as texts.
fn line_words(line: &str) -> (r: Vec<Vec<char>>)
    ensures
        r@.map_values(|w: Vec<char>| w@) == words(line@),
{
    let chars = str_chars(line);
    let t = split_words(&chars);
    assert(t@.map_values(|w: Vec<char>| w@) =~= words(line@));
    t
}

/// Reads an `info` line of a UCI engine; `None` where it does not begin with the
/// word `info`.
pub fn parse_info(line: &str) -> (r: Option<EngineInfo>)
    ensures
        match r {
            Some(info) => spec_parse_info(line@) == Some(info@),
            None => spec_parse_info(line@) is None,
        },
{
    let t = line_words(line);
    let ghost tv = words(line@);
    let n = t.len();
    if n == 0 || !chars_eq_str(&t[0], "info") {
        return None;
    }
    assert(tv[0] == t@[0]@);
    let mut depth: u8 = 0;
    let mut score: Option<Score> = None;
    let mut multipv: u8 = 1;
    let mut i: usize = 1;
    while i < n
        invariant
            n == t@.len(),
            tv == t@.map_values(|w: Vec<char>| w@),
            tv == words(line@),
            tv.len() == n,
            tv[0] == "info"@,
            1 <= i <= n,
            info_scan(tv, 1, 0, None, 1) == info_scan(tv, i as int, depth, score, multipv),
        decreases n - i,
    {
        assert(tv[i as int] == t@[i as int]@);
        let ghost i0 = i as int;
        let ghost d0 = depth;
        let ghost s0 = score;
        let ghost m0 = multipv;
        if chars_eq_str(&t[i], "depth") {
            depth = tok_u8(&t, i + 1, 0);
            i = if n - i >= 2 {
                i + 2
            } else {
                n
            };
            proof {
                assert(info_scan(tv, i0, d0, s0, m0) == info_scan(tv, i0 + 2, depth, s0, m0));
                lemma_scan_past_end(tv, i0 + 2, depth, s0, m0);
            }
        } else if chars_eq_str(&t[i], "multipv") {
            multipv = tok_u8(&t, i + 1, 1);
            i = if n - i >= 2 {
                i + 2
            } else {
                n
            };
            proof {
                assert(info_scan(tv, i0, d0, s0, m0) == info_scan(tv, i0 + 2, d0, s0, multipv));
                lemma_scan_past_end(tv, i0 + 2, d0, s0, multipv);
            }
        } else if chars_eq_str(&t[i], "score") {
            assert(i0 + 1 < tv.len() ==> tv[i0 + 1] == t@[i0 + 1]@);
            let mut j: usize;
            let ghost jj: int;
            if tok_is(&t, i + 1, "cp") {
                score = match tok_i32(&t, i + 2) {
                    Some(v) => Some(Score::Cp(v)),
                    None => None,
                };
                j = if n - i >= 3 {
                    i + 3
                } else {
                    n
                };
                proof {
                    jj = i0 + 3;
                }
            } else if tok_is(&t, i + 1, "mate") {
                score = match tok_i32(&t, i + 2) {
                    Some(v) => Some(Score::Mate(v)),
                    None => None,
                };
                j = if n - i >= 3 {
                    i + 3
                } else {
                    n
                };
                proof {
                    jj = i0 + 3;
                }
            } else {
                j = i + 1;
                proof {
                    jj = i0 + 1;
                }
            }
            proof {
                lemma_scan_past_end(tv, jj, d0, score, m0);
                lemma_scan_past_end(tv, jj + 1, d0, score, m0);
                if (j as int) < tv.len() {
                    assert(tv[j as int] == t@[j as int]@);
                }
            }
            if tok_is(&t, j, "lowerbound") || tok_is(&t, j, "upperbound") {
                j = j + 1;
            }
            i = j;
        } else if chars_eq_str(&t[i], "pv") {
            let mut pv: Vec<String> = Vec::new();
            let mut k: usize = i + 1;
            while k < n
                invariant
                    n == t@.len(),
                    tv == t@.map_values(|w: Vec<char>| w@),
                    i + 1 <= k <= n,
                    texts(pv@) =~= tv.subrange(i + 1, k as int),
                decreases n - k,
            {
                let ghost before = pv@;
                pv.push(chars_to_string(&t[k]));
                assert(texts(pv@) =~= texts(before).push(tv[k as int]));
                k = k + 1;
            }
            assert(tv.subrange(i + 1, n as int) =~= tv.skip(i + 1));
            assert(info_scan(tv, i0, d0, s0, m0) == (d0, s0, tv.skip(i + 1), m0));
            let info = EngineInfo {
                depth,
                score: match score {
                    Some(s) => s,
                    None => Score::Cp(0),
                },
                pv,
                multipv,
            };
            return Some(info);
        } else {
            i = i + 1;
            assert(info_scan(tv, i0, d0, s0, m0) == info_scan(tv, i0 + 1, d0, s0, m0));
        }
    }
    let info = EngineInfo {
        depth,
        score: match score {
            Some(s) => s,
            None => Score::Cp(0),
        },
        pv: Vec::new(),
        multipv,
    };
    assert(texts(info.pv@) =~= Seq::<Seq<char>>::empty());
    Some(info)
}

/// What the engine reports, as plain values.
pub enum OutputView {
    Info(InfoView),
    BestMove(Seq<char>),
    Ready,
}

impl View for EngineOutput {
    type V = OutputView;

    open spec fn view(&self) -> OutputView {
        match self {
            EngineOutput::Info(info) => OutputView::Info(info@),
            EngineOutput::BestMove(m) => OutputView::BestMove(m@),
            EngineOutput::Ready => OutputView::Ready,
        }
    }
}

/// What a line printed by the engine reports: `readyok`; the move after
/// `bestmove ` (none where it is missing or `(none)`); the fields of a line that
/// begins with `info `; nothing for other lines.
pub open spec fn spec_engine_line(line: Seq<char>) -> Option<OutputView> {
    if line == "readyok"@ {
        Some(OutputView::Ready)
    } else if "bestmove "@.len() <= line.len() && line.take("bestmove "@.len() as int)
        == "bestmove "@ {
        let w = words(line.skip("bestmove "@.len() as int));
        let best = if w.len() > 0 {
            w[0]
        } else {
            seq![]
        };
        if best.len() > 0 && best != "(none)"@ {
            Some(OutputView::BestMove(best))
        } else {
            None
        }
    } else if "info "@.len() <= line.len() && line.take("info "@.len() as int) == "info "@ {
        match spec_parse_info(line) {
            Some(v) => Some(OutputView::Info(v)),
            None => None,
        }
    } else {
        None
    }
}

/// Reads a line that the engine printed.
pub fn parse_engine_line(line: &str) -> (r: Option<EngineOutput>)
    ensures
        match r {
            Some(o) => spec_engine_line(line@) == Some(o@),
            None => spec_engine_line(line@) is None,
        },
{
    let chars = str_chars(line);
    if chars_eq_str(&chars, "readyok") {
        return Some(EngineOutput::Ready);
    }
    if chars_start_with(&chars, "bestmove ") {
        let p = "bestmove ".unicode_len();
        let mut rest: Vec<char> = Vec::new();
        let mut k: usize = p;
        while k < chars.len()
            invariant
                p <= k <= chars@.len(),
                rest@ =~= chars@.subrange(p as int, k as int),
            decreases chars@.len() - k,
        {
            rest.push(chars[k]);
            k = k + 1;
        }
        assert(rest@ =~= line@.skip("bestmove "@.len() as int));
        let w = split_words(&rest);
        if w.len() == 0 {
            return None;
        }
        if w[0].len() == 0 || chars_eq_str(&w[0], "(none)") {
            return None;
        }
        return Some(EngineOutput::BestMove(chars_to_string(&w[0])));
    }
    if chars_start_with(&chars, "info ") {
        return match parse_info(line) {
            Some(info) => Some(EngineOutput::Info(info)),
            None => None,
        };
    }
    None
}

/// What a stream of lines printed by the engine reports: each line's report, if it
/// has one, in the order of the lines.
pub open spec fn engine_outputs(lines: Seq<Seq<char>>) -> Seq<OutputView>
    decreases lines.len(),
{
    if lines.len() == 0 {
        seq![]
    } else {
        engine_outputs(lines.drop_last()) + match spec_engine_line(lines.last()) {
            Some(o) => seq![o],
            None => seq![],
        }
    }
}

/// Reading the engine's lines as they come, each with `parse_engine_line`, gives the
/// reports of the whole stream in order: what the lines `a` report, then what the
/// lines `b` that follow report.
pub proof fn law_engine_outputs_stream(a: Seq<Seq<char>>, b: Seq<Seq<char>>)
    ensures
        engine_outputs(a + b) == engine_outputs(a) + engine_outputs(b),
    decreases b.len(),
{
    if b.len() == 0 {
        assert(a + b =~= a);
        assert(engine_outputs(a) + engine_outputs(b) =~= engine_outputs(a));
    } else {
        law_engine_outputs_stream(a, b.drop_last());
        assert((a + b).drop_last() =~= a + b.drop_last());
        assert((a + b).last() == b.last());
        let tail = match spec_engine_line(b.last()) {
            Some(o) => seq![o],
            None => seq![],
        };
        assert(engine_outputs(a + b) == engine_outputs(a + b.drop_last()) + tail);
        assert(engine_outputs(b) == engine_outputs(b.drop_last()) + tail);
        assert(engine_outputs(a + b) =~= engine_outputs(a) + engine_outputs(b));
    }
}

proof fn lemma_scan_keeps_score(
    t: Seq<Seq<char>>,
    i: int,
    depth: u8,
    score: Option<Score>,
    multipv: u8,
)
    requires
        0 <= i,
        forall|j: int| i <= j < t.len() ==> t[j] != "score"@,
    ensures
        info_scan(t, i, depth, score, multipv).1 == score,
    decreases (if i < t.len() {
        t.len() - i
    } else {
        0
    }),
{
    if i < t.len() {
        if t[i] == "depth"@ {
            lemma_scan_keeps_score(t, i + 2, token_u8(t, i + 1, 0), score, multipv);
        } else if t[i] == "multipv"@ {
            lemma_scan_keeps_score(t, i + 2, depth, score, token_u8(t, i + 1, 1));
        } else if t[i] == "pv"@ {
        } else {
            lemma_scan_keeps_score(t, i + 1, depth, score, multipv);
        }
    }
}

proof fn lemma_info_words_differ()
    ensures
        "score"@ != "depth"@,
        "score"@ != "multipv"@,
        "mate"@ != "cp"@,
{
    reveal_strlit("score");
    reveal_strlit("depth");
    reveal_strlit("multipv");
    reveal_strlit("mate");
    reveal_strlit("cp");
    assert("score"@[0] != "depth"@[0]);
    assert("score"@[0] != "multipv"@[0]);
    assert("mate"@[0] != "cp"@[0]);
}

/// An `info` line that gives `score mate N` (and no later score) is read as a mate in
/// `N`, whatever the sign of `N`: a negative `N`, the side to move being mated, stays
/// negative.
pub proof fn law_info_mate_score(line: Seq<char>, n: i32)
    requires
        words(line).len() >= 4,
        words(line)[0] == "info"@,
        words(line)[1] == "score"@,
        words(line)[2] == "mate"@,
        words(line)[3] == int_text(n as int),
        forall|j: int| 4 <= j < words(line).len() ==> words(line)[j] != "score"@,
    ensures
        spec_parse_info(line) matches Some(v) && v.score == Score::Mate(n),
{
    let t = words(line);
    lemma_info_words_differ();
    lemma_i32_text_parses(n);
    assert(token_i32(t, 3) == Some(n));
    let j2: int = if 4 < t.len() && (t[4] == "lowerbound"@ || t[4] == "upperbound"@) {
        5
    } else {
        4
    };
    assert(info_scan(t, 1, 0, None, 1) == info_scan(t, j2, 0, Some(Score::Mate(n)), 1));
    lemma_scan_keeps_score(t, j2, 0, Some(Score::Mate(n)), 1);
}

/// An `info` line that gives `score cp N` (and no later score) is read as `N`
/// centipawns, sign included.
pub proof fn law_info_cp_score(line: Seq<char>, n: i32)
    requires
        words(line).len() >= 4,
        words(line)[0] == "info"@,
        words(line)[1] == "score"@,
        words(line)[2] == "cp"@,
        words(line)[3] == int_text(n as int),
        forall|j: int| 4 <= j < words(line).len() ==> words(line)[j] != "score"@,
    ensures
        spec_parse_info(line) matches Some(v) && v.score == Score::Cp(n),
{
    let t = words(line);
    lemma_info_words_differ();
    lemma_i32_text_parses(n);
    assert(token_i32(t, 3) == Some(n));
    let j2: int = if 4 < t.len() && (t[4] == "lowerbound"@ || t[4] == "upperbound"@) {
        5
    } else {
        4
    };
    assert(info_scan(t, 1, 0, None, 1) == info_scan(t, j2, 0, Some(Score::Cp(n)), 1));
    lemma_scan_keeps_score(t, j2, 0, Some(Score::Cp(n)), 1);
}

/// Only the words of an `info` line matter: the line with its words joined by single
/// spaces reads the same.
pub proof fn law_parse_info_reads_words(line: Seq<char>)
    ensures
        spec_parse_info(join(words(line), " "@)) == spec_parse_info(line),
{
    law_words_of_joined_words(line);
}

} // verus!
