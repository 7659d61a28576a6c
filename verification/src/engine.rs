use vstd::prelude::*;

use crate::text::{
    chars_to_string, decimal, digit_char, join, push_chars, push_decimal, push_joined, push_str,
    texts,
};

verus! {

/// An engine evaluation: centipawns, or mate in a number of moves
/// (negative when the side to move gets mated).
#[derive(Clone, Copy, Debug, PartialEq, Eq, Structural)]
pub enum Score {
    Cp(i32),
    Mate(i32),
}

/// Absolute value of an integer, as a natural number.
pub open spec fn abs_nat(x: int) -> nat {
    if x >= 0 {
        x as nat
    } else {
        (-x) as nat
    }
}

/// The two digits of `r` (less than 100), tens first.
pub open spec fn two_digits(r: nat) -> Seq<char> {
    seq![digit_char(r / 10), digit_char(r % 10)]
}

/// How a score is shown: centipawns as pawns with a sign and two decimals
/// (`+1.23`, `-0.50`, `+0.00`); mates as `M3` or `-M2`.
pub open spec fn score_text(s: Score) -> Seq<char> {
    match s {
        Score::Cp(cp) => {
            let a = abs_nat(cp as int);
            let sign = if cp >= 0 {
                '+'
            } else {
                '-'
            };
            seq![sign] + decimal(a / 100) + seq!['.'] + two_digits(a % 100)
        },
        Score::Mate(n) => {
            if n > 0 {
                seq!['M'] + decimal(n as nat)
            } else {
                seq!['-', 'M'] + decimal(abs_nat(n as int))
            }
        },
    }
}

/// The centipawn value that stands for a score: its centipawns, or
/// plus or minus 100000 for a mate.
pub open spec fn score_cp(s: Score) -> int {
    match s {
        Score::Cp(cp) => cp as int,
        Score::Mate(n) => if n > 0 {
            100_000
        } else {
            -100_000
        },
    }
}

/// The same score seen from the other side.
pub open spec fn score_negated(s: Score) -> Score {
    match s {
        Score::Cp(cp) => Score::Cp((-cp) as i32),
        Score::Mate(n) => Score::Mate((-n) as i32),
    }
}

/// The integer inside a score, whichever its kind.
pub open spec fn score_value(s: Score) -> i32 {
    match s {
        Score::Cp(cp) => cp,
        Score::Mate(n) => n,
    }
}

impl Score {
    /// The centipawn value of the score, mates counted as plus or minus 100000.
    pub fn as_cp(&self) -> (r: i32)
        ensures
            r == score_cp(*self),
    {
        match self {
            Score::Cp(cp) => *cp,
            Score::Mate(n) => if *n > 0 {
                100_000
            } else {
                -100_000
            },
        }
    }

    /// The score from the other side's point of view.
    pub fn negated(&self) -> (r: Score)
        requires
            score_value(*self) != i32::MIN,
        ensures
            r == score_negated(*self),
    {
        match self {
            Score::Cp(cp) => Score::Cp(-*cp),
            Score::Mate(n) => Score::Mate(-*n),
        }
    }

    /// The score as text, e.g. `+1.23`, `-0.50`, `M3`, `-M2`.
    pub fn display(&self) -> (r: String)
        requires
            !(*self matches Score::Mate(n) && n == i32::MIN),
        ensures
            r@ == score_text(*self),
    {
        let mut out: Vec<char> = Vec::new();
        match self {
            Score::Cp(cp) => {
                let v: i64 = *cp as i64;
                let a: u64 = if v >= 0 {
                    v as u64
                } else {
                    (0 - v) as u64
                };
                if v >= 0 {
                    out.push('+');
                } else {
                    out.push('-');
                }
                push_decimal(&mut out, a / 100);
                out.push('.');
                let r = a % 100;
                let tens: char = (48u8 + (r / 10) as u8) as char;
                let ones: char = (48u8 + (r % 10) as u8) as char;
                out.push(tens);
                out.push(ones);
            },
            Score::Mate(n) => {
                if *n > 0 {
                    out.push('M');
                    push_decimal(&mut out, *n as u64);
                } else {
                    out.push('-');
                    out.push('M');
                    let a: u64 = (0 - (*n as i64)) as u64;
                    push_decimal(&mut out, a);
                }
            },
        }
        assert(out@ =~= score_text(*self));
        chars_to_string(&out)
    }
}

/// One line of engine analysis.
#[derive(Clone, Debug)]
pub struct EngineInfo {
    pub depth: u8,
    pub score: Score,
    pub pv: Vec<String>,
    pub multipv: u8,
}

/// What an analysis line holds, as plain values.
pub struct InfoView {
    pub depth: u8,
    pub score: Score,
    pub pv: Seq<Seq<char>>,
    pub multipv: u8,
}

impl View for EngineInfo {
    type V = InfoView;

    open spec fn view(&self) -> InfoView {
        InfoView { depth: self.depth, score: self.score, pv: texts(self.pv@), multipv: self.multipv }
    }
}

impl EngineInfo {
    /// An empty line for the given MultiPV slot, used to pad gaps before a
    /// higher-numbered line arrives from the engine.
    pub fn placeholder(multipv: u8) -> (r: Self)
        ensures
            r.depth == 0,
            r.score == Score::Cp(0),
            r.pv@.len() == 0,
            r.multipv == multipv,
    {
        EngineInfo { depth: 0, score: Score::Cp(0), pv: Vec::new(), multipv }
    }
}

/// A command for the engine.
pub enum EngineCmd {
    SetPosition { fen: String, moves: Vec<String> },
    Go { depth: u8, multipv: u8 },
    GoMovetime { ms: u64, multipv: u8 },
    Stop,
    SetOption { name: String, value: String },
}

/// A command for the engine, as plain values.
pub enum CmdView {
    SetPosition { fen: Seq<char>, moves: Seq<Seq<char>> },
    Go { depth: u8, multipv: u8 },
    GoMovetime { ms: u64, multipv: u8 },
    Stop,
    SetOption { name: Seq<char>, value: Seq<char> },
}

impl View for EngineCmd {
    type V = CmdView;

    open spec fn view(&self) -> CmdView {
        match self {
            EngineCmd::SetPosition { fen, moves } => CmdView::SetPosition {
                fen: fen@,
                moves: texts(moves@),
            },
            EngineCmd::Go { depth, multipv } => CmdView::Go { depth: *depth, multipv: *multipv },
            EngineCmd::GoMovetime { ms, multipv } => CmdView::GoMovetime {
                ms: *ms,
                multipv: *multipv,
            },
            EngineCmd::Stop => CmdView::Stop,
            EngineCmd::SetOption { name, value } => CmdView::SetOption {
                name: name@,
                value: value@,
            },
        }
    }
}

/// The views of a sequence of commands.
pub open spec fn cmd_views(v: Seq<EngineCmd>) -> Seq<CmdView> {
    v.map_values(|c: EngineCmd| c@)
}

/// The commands that set how strongly the engine plays: limited to `elo` where
/// `limit` holds, at full strength otherwise.
pub open spec fn strength_cmds(limit: bool, elo: u32) -> Seq<CmdView> {
    if limit {
        seq![
            CmdView::SetOption { name: "UCI_LimitStrength"@, value: "true"@ },
            CmdView::SetOption { name: "UCI_Elo"@, value: decimal(elo as nat) },
        ]
    } else {
        seq![CmdView::SetOption { name: "UCI_LimitStrength"@, value: "false"@ }]
    }
}

/// Appends to `cmds` the commands that set how strongly the engine plays.
pub fn push_strength_commands(cmds: &mut Vec<EngineCmd>, limit: bool, elo: u32)
    ensures
        cmd_views(final(cmds)@) == cmd_views(old(cmds)@) + strength_cmds(limit, elo),
{
    let ghost start = cmd_views(cmds@);
    if limit {
        cmds.push(
            EngineCmd::SetOption {
                name: String::from_str("UCI_LimitStrength"),
                value: String::from_str("true"),
            },
        );
        let mut e: Vec<char> = Vec::new();
        push_decimal(&mut e, elo as u64);
        cmds.push(
            EngineCmd::SetOption { name: String::from_str("UCI_Elo"), value: chars_to_string(&e) },
        );
    } else {
        cmds.push(
            EngineCmd::SetOption {
                name: String::from_str("UCI_LimitStrength"),
                value: String::from_str("false"),
            },
        );
    }
    assert(cmd_views(cmds@) =~= start + strength_cmds(limit, elo));
}

/// The command that puts the engine in analysis mode when it starts.
pub fn analyse_mode_command() -> (r: EngineCmd)
    ensures
        r@ == (CmdView::SetOption { name: "UCI_AnalyseMode"@, value: "true"@ }),
{
    EngineCmd::SetOption {
        name: String::from_str("UCI_AnalyseMode"),
        value: String::from_str("true"),
    }
}

/// What the engine reports.
pub enum EngineOutput {
    Info(EngineInfo),
    BestMove(String),
    Ready,
}

/// The UCI text that a command is sent as; a command may take several lines.
pub open spec fn cmd_text(c: CmdView) -> Seq<char> {
    match c {
        CmdView::SetPosition { fen, moves } => {
            let pos = if fen == "startpos"@ {
                "startpos"@
            } else {
                "fen "@ + fen
            };
            if moves.len() == 0 {
                "position "@ + pos
            } else {
                "position "@ + pos + " moves "@ + join(moves, " "@)
            }
        },
        CmdView::Go { depth, multipv } => "setoption name MultiPV value "@ + decimal(multipv as nat)
            + "\ngo depth "@ + decimal(depth as nat),
        CmdView::GoMovetime { ms, multipv } => "setoption name MultiPV value "@ + decimal(
            multipv as nat,
        ) + "\ngo movetime "@ + decimal(ms as nat),
        CmdView::Stop => "stop"@,
        CmdView::SetOption { name, value } => "setoption name "@ + name + " value "@ + value,
    }
}

impl EngineCmd {
    /// The UCI text that the command is sent as (`position startpos moves e2e4`,
    /// `setoption name MultiPV value 3\ngo depth 20`, ...).
    pub fn to_uci_text(&self) -> (r: String)
        ensures
            r@ == cmd_text(self@),
    {
        let mut out: Vec<char> = Vec::new();
        match self {
            EngineCmd::SetPosition { fen, moves } => {
                push_str(&mut out, "position ");
                let fc = crate::text::str_chars(fen.as_str());
                if crate::text::chars_eq_str(&fc, "startpos") {
                    push_str(&mut out, "startpos");
                } else {
                    push_str(&mut out, "fen ");
                    push_chars(&mut out, &fc);
                }
                if moves.len() > 0 {
                    push_str(&mut out, " moves ");
                    push_joined(&mut out, moves, " ");
                }
            },
            EngineCmd::Go { depth, multipv } => {
                push_str(&mut out, "setoption name MultiPV value ");
                push_decimal(&mut out, *multipv as u64);
                push_str(&mut out, "\ngo depth ");
                push_decimal(&mut out, *depth as u64);
            },
            EngineCmd::GoMovetime { ms, multipv } => {
                push_str(&mut out, "setoption name MultiPV value ");
                push_decimal(&mut out, *multipv as u64);
                push_str(&mut out, "\ngo movetime ");
                push_decimal(&mut out, *ms);
            },
            EngineCmd::Stop => {
                push_str(&mut out, "stop");
            },
            EngineCmd::SetOption { name, value } => {
                push_str(&mut out, "setoption name ");
                push_str(&mut out, name.as_str());
                push_str(&mut out, " value ");
                push_str(&mut out, value.as_str());
            },
        }
        assert(out@ =~= cmd_text(self@));
        chars_to_string(&out)
    }
}

/// Seen twice from the other side, a score is the same.
pub proof fn law_negated_twice(s: Score)
    requires
        score_value(s) != i32::MIN,
    ensures
        score_negated(score_negated(s)) == s,
{
}

/// Seen from the other side, an evaluation is the opposite; a mate in 0 counts as
/// lost for both sides and is left out.
pub proof fn law_negated_cp(s: Score)
    requires
        score_value(s) != i32::MIN,
        s != Score::Mate(0),
    ensures
        score_cp(score_negated(s)) == -score_cp(s),
{
}

} // verus!
