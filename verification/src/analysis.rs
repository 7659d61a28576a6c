//! What the analysis panel shows of the engine's lines.
use vstd::prelude::*;

use crate::board::move_of_code;
use crate::engine::{score_cp, Score};
use crate::game::{find_legal, legal_index};
use crate::rules::{
    fullmoves, legal_moves, play_legal, san_legal, spec_fullmoves, spec_play,
    spec_san, spec_turn, spec_uci_move, turn, uci_move,
};
use crate::text::{chars_to_string, decimal, join, push_decimal, push_joined, push_str, texts};

verus! {

/// The most moves of a line that the panel shows.
pub const PV_SHOWN: usize = 8;

/// The parts in which the panel shows the moves `pv[i..]` of a line (at most up to
/// the eighth), played from `fen`: each move in SAN, with its number before a white
/// move (`3.`) and before a first move by black (`3...`). It stops at the first
/// text that is no legal move.
pub open spec fn pv_parts(fen: Seq<char>, pv: Seq<Seq<char>>, i: nat, first: bool) -> Seq<
    Seq<char>,
>
    decreases pv.len() - i,
{
    if i >= pv.len() || i >= 8 {
        seq![]
    } else {
        match spec_uci_move(fen, pv[i as int]) {
            None => seq![],
            Some(c) => match legal_index(fen, move_of_code(c)) {
                None => seq![],
                Some(k) => {
                    let n = decimal(spec_fullmoves(fen) as nat);
                    let num: Seq<Seq<char>> = if spec_turn(fen) == 1 {
                        seq![n + "."@]
                    } else if first {
                        seq![n + "..."@]
                    } else {
                        seq![]
                    };
                    num + seq![spec_san(fen, k)] + pv_parts(spec_play(fen, k), pv, i + 1, false)
                },
            },
        }
    }
}

/// The moves of an engine line in SAN with move numbers, e.g. `1. e4 e5 2. Nf3`.
pub open spec fn pv_text(fen: Seq<char>, pv: Seq<Seq<char>>) -> Seq<char> {
    join(pv_parts(fen, pv, 0, true), " "@)
}

/// The moves `pv` (UCI) of an engine line, played from the position `fen`, as the
/// analysis panel shows them: in SAN with move numbers, at most eight, stopping at
/// the first that is not a legal move.
pub fn pv_to_san(fen: &str, pv: &[String]) -> (r: String)
    ensures
        r@ == pv_text(fen@, texts(pv@)),
{
    let ghost pvt = texts(pv@);
    let mut pos = String::from_str(fen);
    let mut parts: Vec<String> = Vec::new();
    let mut first = true;
    let mut i: usize = 0;
    let n = pv.len();
    while i < n && i < PV_SHOWN
        invariant
            n == pv@.len(),
            pvt == texts(pv@),
            i <= n,
            texts(parts@) + pv_parts(pos@, pvt, i as nat, first) == pv_parts(fen@, pvt, 0, true),
        ensures
            texts(parts@) == pv_parts(fen@, pvt, 0, true),
        decreases n - i,
    {
        let ghost before = texts(parts@);
        let ghost cur = pos@;
        assert(pvt[i as int] == pv@[i as int]@);
        let c = match uci_move(pos.as_str(), pv[i].as_str()) {
            Some(c) => c,
            None => {
                assert(pv_parts(cur, pvt, i as nat, first) =~= Seq::<Seq<char>>::empty());
                assert(before + pv_parts(cur, pvt, i as nat, first) =~= before);
                break ;
            },
        };
        let legal = legal_moves(pos.as_str());
        let k = match find_legal(&legal, move_of_code_exec(c)) {
            Some(k) => k,
            None => {
                assert(pv_parts(cur, pvt, i as nat, first) =~= Seq::<Seq<char>>::empty());
                assert(before + pv_parts(cur, pvt, i as nat, first) =~= before);
                break ;
            },
        };
        let san = san_legal(pos.as_str(), k);
        let num = fullmoves(pos.as_str());
        let white = turn(pos.as_str()) == 1;
        let ghost numtext: Seq<Seq<char>> = if white {
            seq![decimal(num as nat) + "."@]
        } else if first {
            seq![decimal(num as nat) + "..."@]
        } else {
            seq![]
        };
        if white || first {
            let mut t: Vec<char> = Vec::new();
            push_decimal(&mut t, num as u64);
            if white {
                push_str(&mut t, ".");
            } else {
                push_str(&mut t, "...");
            }
            parts.push(chars_to_string(&t));
        }
        assert(texts(parts@) =~= before + numtext);
        parts.push(san);
        let next = play_legal(pos.as_str(), k);
        proof {
            assert(texts(parts@) =~= before + numtext + seq![spec_san(cur, k as nat)]);
            assert(pv_parts(cur, pvt, i as nat, first) == numtext + seq![spec_san(cur, k as nat)]
                + pv_parts(spec_play(cur, k as nat), pvt, (i + 1) as nat, false));
            assert(texts(parts@) + pv_parts(next@, pvt, (i + 1) as nat, false) =~= before
                + pv_parts(cur, pvt, i as nat, first));
        }
        pos = next;
        first = false;
        i = i + 1;
    }
    let mut out: Vec<char> = Vec::new();
    push_joined(&mut out, &parts, " ");
    chars_to_string(&out)
}

fn move_of_code_exec(c: crate::board::MoveCode) -> (m: crate::board::ChessMove)
    ensures
        m == move_of_code(c),
{
    crate::board::move_from_code(c)
}

/// How an evaluation is coloured: good for white, good for black, or about even.
#[derive(Clone, Copy, Debug, PartialEq, Eq, Structural)]
pub enum EvalTone {
    White,
    Black,
    Even,
}

/// More than ten centipawns either way is an advantage.
pub open spec fn tone_of(s: Score) -> EvalTone {
    if score_cp(s) > 10 {
        EvalTone::White
    } else if score_cp(s) < -10 {
        EvalTone::Black
    } else {
        EvalTone::Even
    }
}

/// How the analysis panel colours a score.
pub fn eval_tone(s: &Score) -> (r: EvalTone)
    ensures
        r == tone_of(*s),
{
    let cp = s.as_cp();
    if cp > 10 {
        EvalTone::White
    } else if cp < -10 {
        EvalTone::Black
    } else {
        EvalTone::Even
    }
}

/// The centipawns the evaluation bar shows: those of the score (0 without one),
/// held to between -600 and 600.
pub open spec fn bar_cp(s: Option<Score>) -> int {
    let cp = match s {
        Some(s) => score_cp(s),
        None => 0,
    };
    if cp < -600 {
        -600
    } else if cp > 600 {
        600
    } else {
        cp
    }
}

/// The centipawns the evaluation bar shows, from -600 (black far ahead) to 600
/// (white far ahead); the bar is white to the fraction `(cp + 600) / 1200`.
pub fn eval_bar_cp(s: Option<&Score>) -> (r: i32)
    ensures
        r == bar_cp(match s {
            Some(x) => Some(*x),
            None => None,
        }),
        -600 <= r <= 600,
{
    let cp = match s {
        Some(x) => x.as_cp(),
        None => 0,
    };
    if cp < -600 {
        -600
    } else if cp > 600 {
        600
    } else {
        cp
    }
}

/// The tone of the other side's view.
pub open spec fn mirrored(t: EvalTone) -> EvalTone {
    match t {
        EvalTone::White => EvalTone::Black,
        EvalTone::Black => EvalTone::White,
        EvalTone::Even => EvalTone::Even,
    }
}

/// The other side's view of a score takes the other tone; a mate in 0 counts as lost
/// for both sides and is left out.
pub proof fn law_tone_mirrors(s: Score)
    requires
        crate::engine::score_value(s) != i32::MIN,
        s != Score::Mate(0),
    ensures
        tone_of(crate::engine::score_negated(s)) == mirrored(tone_of(s)),
{
}

/// In an engine line, every move played with white to move comes right after the
/// word `F.`, F being the full-move number of the position it is played from, at
/// whatever place in the line it stands; a move played with black to move comes
/// after `F...` when it opens the line, and right after the move before it
/// otherwise.
pub proof fn law_pv_move_numbers(fen: Seq<char>, pv: Seq<Seq<char>>, i: nat, first: bool)
    requires
        i < pv.len(),
        i < 8,
        spec_uci_move(fen, pv[i as int]) matches Some(c) && legal_index(fen, move_of_code(c)) is Some,
    ensures
        ({
            let c = spec_uci_move(fen, pv[i as int])->0;
            let k = legal_index(fen, move_of_code(c))->0;
            let parts = pv_parts(fen, pv, i, first);
            let rest = pv_parts(spec_play(fen, k), pv, i + 1, false);
            &&& spec_turn(fen) == 1 ==> parts == seq![
                decimal(spec_fullmoves(fen) as nat) + "."@,
                spec_san(fen, k),
            ] + rest
            &&& spec_turn(fen) != 1 && first ==> parts == seq![
                decimal(spec_fullmoves(fen) as nat) + "..."@,
                spec_san(fen, k),
            ] + rest
            &&& spec_turn(fen) != 1 && !first ==> parts == seq![spec_san(fen, k)] + rest
        }),
{
    let c = spec_uci_move(fen, pv[i as int])->0;
    let k = legal_index(fen, move_of_code(c))->0;
    let n = decimal(spec_fullmoves(fen) as nat);
    let rest = pv_parts(spec_play(fen, k), pv, i + 1, false);
    if spec_turn(fen) == 1 {
        assert(seq![n + "."@] + seq![spec_san(fen, k)] + rest =~= seq![n + "."@, spec_san(fen, k)]
            + rest);
    } else if first {
        assert(seq![n + "..."@] + seq![spec_san(fen, k)] + rest =~= seq![
            n + "..."@,
            spec_san(fen, k),
        ] + rest);
    } else {
        assert(Seq::<Seq<char>>::empty() + seq![spec_san(fen, k)] + rest =~= seq![spec_san(fen, k)]
            + rest);
    }
}

} // verus!
