//! The decisions of the app around the engine: when to analyse, when to let the
//! engine move, and what to keep of what it reports. The app sends the commands
//! these functions hand back and passes in what the engine prints.
use vstd::prelude::*;

use crate::board::{color_of_code, uci_text, ChessMove, Color};
use crate::engine::{
    cmd_views, push_strength_commands, strength_cmds, CmdView, EngineCmd, EngineInfo,
    EngineOutput, InfoView, Score,
};
use crate::game::{after, uci_applied, Game};
use crate::rules::{spec_checkmate, spec_insufficient, spec_stalemate, spec_turn};
use crate::settings::Settings;
use crate::text::str_eq;

verus! {

/// What the board is used for: playing against the engine, or analysing.
#[derive(Clone, Copy, Debug, PartialEq, Eq, Structural)]
pub enum AppMode {
    Play,
    Analyze,
}

/// What the app keeps of its exchange with the engine.
pub struct EngineSession {
    pub mode: AppMode,
    /// The side the user plays in play mode.
    pub player_color: Color,
    /// The engine's current lines, by MultiPV slot.
    pub engine_lines: Vec<EngineInfo>,
    /// The evaluation of the best line.
    pub eval_score: Option<Score>,
    pub engine_running: bool,
    /// Whether the engine was asked for a move and has not given it.
    pub waiting_for_bestmove: bool,
    /// The position the engine last analysed.
    pub last_analyzed_fen: String,
}

/// The slot of a line: MultiPV number 1 is slot 0 (0 counts as 1).
pub open spec fn slot_of(multipv: u8) -> nat {
    if multipv > 0 {
        (multipv - 1) as nat
    } else {
        0
    }
}

/// An empty line for MultiPV slot number `m`.
pub open spec fn placeholder_view(m: u8) -> InfoView {
    InfoView { depth: 0, score: Score::Cp(0), pv: seq![], multipv: m }
}

/// `lines` with `info` in its slot: in place of the line there, or after empty
/// lines that fill the gap.
pub open spec fn upserted(lines: Seq<InfoView>, info: InfoView) -> Seq<InfoView> {
    let idx = slot_of(info.multipv);
    if idx < lines.len() {
        lines.update(idx as int, info)
    } else {
        lines + Seq::new(
            (idx - lines.len()) as nat,
            |j: int| placeholder_view((lines.len() + j + 1) as u8),
        ) + seq![info]
    }
}

/// The command that sets the engine on the position on display of `g`: the game's
/// starting position (its FEN) and the moves played from it up to the cursor (UCI).
pub open spec fn position_cmd(g: Game) -> CmdView {
    CmdView::SetPosition {
        fen: g.fens()[0],
        moves: Seq::new(g.cursor as nat, |i: int| uci_text(g.moves@[i])),
    }
}

/// The commands that start an analysis of the position on display.
pub open spec fn analysis_cmds(g: Game, depth: u8, multipv: u8) -> Seq<CmdView> {
    seq![CmdView::Stop, position_cmd(g), CmdView::Go { depth, multipv }]
}

/// The commands that ask the engine for a move in the position on display.
pub open spec fn engine_move_cmds(g: Game, limit: bool, elo: u32, ms: u64) -> Seq<CmdView> {
    seq![CmdView::Stop, position_cmd(g)] + strength_cmds(limit, elo) + seq![
        CmdView::GoMovetime { ms, multipv: 1 },
    ]
}

/// Whether starting an analysis sends anything: there is an engine, and it is not
/// already analysing the position on display.
pub open spec fn analysis_due(s: EngineSession, connected: bool, g: Game) -> bool {
    connected && !(g.cursor_fen() == s.last_analyzed_fen@ && s.engine_running)
}

impl EngineSession {
    /// The engine's lines as plain values.
    pub open spec fn lines(&self) -> Seq<InfoView> {
        self.engine_lines@.map_values(|e: EngineInfo| e@)
    }

    /// A session in analysis mode, for a player of white, with nothing from the
    /// engine yet.
    pub fn new() -> (s: EngineSession)
        ensures
            s.mode == AppMode::Analyze,
            s.player_color == Color::White,
            s.lines().len() == 0,
            s.eval_score is None,
            !s.engine_running,
            !s.waiting_for_bestmove,
            s.last_analyzed_fen@.len() == 0,
    {
        let s = EngineSession {
            mode: AppMode::Analyze,
            player_color: Color::White,
            engine_lines: Vec::new(),
            eval_score: None,
            engine_running: false,
            waiting_for_bestmove: false,
            last_analyzed_fen: String::new(),
        };
        assert(s.lines() =~= Seq::<InfoView>::empty());
        s
    }

    /// Starts an analysis of the position on display, unless there is no engine or
    /// the engine is already analysing that position. The engine is stopped, set on
    /// the position and sent `go` with `depth` and `multipv`; the lines are cleared.
    pub fn start_analysis(&mut self, connected: bool, game: &Game, depth: u8, multipv: u8) -> (cmds:
        Vec<EngineCmd>)
        requires
            game.wf(),
        ensures
            if !analysis_due(*old(self), connected, *game) {
                &&& cmds@.len() == 0
                &&& *final(self) == *old(self)
            } else {
                &&& cmd_views(cmds@) == analysis_cmds(*game, depth, multipv)
                &&& final(self).engine_running
                &&& final(self).last_analyzed_fen@ == game.cursor_fen()
                &&& final(self).lines().len() == 0
                &&& final(self).mode == old(self).mode
                &&& final(self).player_color == old(self).player_color
                &&& final(self).eval_score == old(self).eval_score
                &&& final(self).waiting_for_bestmove == old(self).waiting_for_bestmove
            },
    {
        if !connected {
            return Vec::new();
        }
        let fen = game.current_fen();
        if str_eq(fen.as_str(), self.last_analyzed_fen.as_str()) && self.engine_running {
            return Vec::new();
        }
        let mut cmds: Vec<EngineCmd> = Vec::new();
        cmds.push(EngineCmd::Stop);
        cmds.push(
            EngineCmd::SetPosition {
                fen: game.start_position().clone(),
                moves: game.uci_moves_to_cursor(),
            },
        );
        cmds.push(EngineCmd::Go { depth, multipv });
        self.engine_running = true;
        self.last_analyzed_fen = fen;
        self.engine_lines = Vec::new();
        assert(cmd_views(cmds@) =~= analysis_cmds(*game, depth, multipv));
        assert(self.lines() =~= Seq::<InfoView>::empty());
        cmds
    }

    /// Asks the engine for a move in the position on display, unless there is no
    /// engine: it is stopped, set on the position and on its strength, and given
    /// `ms` milliseconds with one line. The lines are cleared.
    pub fn request_engine_move(
        &mut self,
        connected: bool,
        game: &Game,
        limit_strength: bool,
        elo: u32,
        ms: u64,
    ) -> (cmds: Vec<EngineCmd>)
        requires
            game.wf(),
        ensures
            if !connected {
                &&& cmds@.len() == 0
                &&& *final(self) == *old(self)
            } else {
                &&& cmd_views(cmds@) == engine_move_cmds(*game, limit_strength, elo, ms)
                &&& final(self).engine_running
                &&& final(self).waiting_for_bestmove
                &&& final(self).lines().len() == 0
                &&& final(self).mode == old(self).mode
                &&& final(self).player_color == old(self).player_color
                &&& final(self).eval_score == old(self).eval_score
                &&& final(self).last_analyzed_fen == old(self).last_analyzed_fen
            },
    {
        if !connected {
            return Vec::new();
        }
        let mut cmds: Vec<EngineCmd> = Vec::new();
        cmds.push(EngineCmd::Stop);
        cmds.push(
            EngineCmd::SetPosition {
                fen: game.start_position().clone(),
                moves: game.uci_moves_to_cursor(),
            },
        );
        let ghost two = cmd_views(cmds@);
        push_strength_commands(&mut cmds, limit_strength, elo);
        let ghost mid = cmd_views(cmds@);
        cmds.push(EngineCmd::GoMovetime { ms, multipv: 1 });
        assert(cmd_views(cmds@) =~= mid.push(CmdView::GoMovetime { ms, multipv: 1 }));
        assert(two =~= seq![CmdView::Stop, position_cmd(*game)]);
        self.engine_running = true;
        self.waiting_for_bestmove = true;
        self.engine_lines = Vec::new();
        assert(cmd_views(cmds@) =~= engine_move_cmds(*game, limit_strength, elo, ms));
        assert(self.lines() =~= Seq::<InfoView>::empty());
        cmds
    }

    /// Puts `info` in its MultiPV slot, filling a gap before it with empty lines.
    pub fn upsert_line(&mut self, info: EngineInfo)
        ensures
            final(self).lines() == upserted(old(self).lines(), info@),
            final(self).mode == old(self).mode,
            final(self).player_color == old(self).player_color,
            final(self).eval_score == old(self).eval_score,
            final(self).engine_running == old(self).engine_running,
            final(self).waiting_for_bestmove == old(self).waiting_for_bestmove,
            final(self).last_analyzed_fen == old(self).last_analyzed_fen,
    {
        let ghost lv = self.lines();
        let ghost iv = info@;
        let idx: usize = if info.multipv > 0 {
            (info.multipv - 1) as usize
        } else {
            0
        };
        if idx < self.engine_lines.len() {
            self.engine_lines.set(idx, info);
            assert(self.lines() =~= lv.update(idx as int, iv));
        } else {
            let start = self.engine_lines.len();
            while self.engine_lines.len() < idx
                invariant
                    idx <= 254,
                    self.mode == old(self).mode,
                    self.player_color == old(self).player_color,
                    self.eval_score == old(self).eval_score,
                    self.engine_running == old(self).engine_running,
                    self.waiting_for_bestmove == old(self).waiting_for_bestmove,
                    self.last_analyzed_fen == old(self).last_analyzed_fen,
                    start <= self.engine_lines@.len() <= idx,
                    start == lv.len(),
                    self.lines() =~= lv + Seq::new(
                        (self.engine_lines@.len() - start) as nat,
                        |j: int| placeholder_view((start + j + 1) as u8),
                    ),
                decreases idx - self.engine_lines@.len(),
            {
                let ghost before = self.lines();
                let m = (self.engine_lines.len() + 1) as u8;
                self.engine_lines.push(EngineInfo::placeholder(m));
                assert(self.engine_lines@.last()@.pv =~= Seq::<Seq<char>>::empty());
                assert(self.lines() =~= before.push(placeholder_view(m)));
            }
            let ghost before = self.lines();
            self.engine_lines.push(info);
            assert(self.lines() =~= before.push(iv));
        }
    }

    /// Takes in one report of the engine. A line is kept in its slot, and the best
    /// line's score becomes the evaluation. A best move ends the engine's run; in
    /// play mode, when a move was asked for, it is played in `game`.
    pub fn on_output(&mut self, output: EngineOutput, game: &mut Game)
        requires
            old(game).wf(),
        ensures
            final(game).wf(),
            final(self).mode == old(self).mode,
            final(self).player_color == old(self).player_color,
            final(self).last_analyzed_fen == old(self).last_analyzed_fen,
            match output@ {
                crate::uci::OutputView::Info(iv) => {
                    &&& final(self).lines() == upserted(old(self).lines(), iv)
                    &&& final(self).eval_score == if iv.multipv == 1 {
                        Some(iv.score)
                    } else {
                        old(self).eval_score
                    }
                    &&& final(self).engine_running == old(self).engine_running
                    &&& final(self).waiting_for_bestmove == old(self).waiting_for_bestmove
                    &&& *final(game) == *old(game)
                },
                crate::uci::OutputView::BestMove(mv) => {
                    &&& !final(self).engine_running
                    &&& final(self).lines() == old(self).lines()
                    &&& final(self).eval_score == old(self).eval_score
                    &&& if old(self).waiting_for_bestmove && old(self).mode == AppMode::Play {
                        &&& !final(self).waiting_for_bestmove
                        &&& uci_applied(*old(game), mv, *final(game))
                    } else {
                        &&& final(self).waiting_for_bestmove == old(self).waiting_for_bestmove
                        &&& *final(game) == *old(game)
                    }
                },
                crate::uci::OutputView::Ready => {
                    &&& final(self).lines() == old(self).lines()
                    &&& final(self).eval_score == old(self).eval_score
                    &&& final(self).engine_running == old(self).engine_running
                    &&& final(self).waiting_for_bestmove == old(self).waiting_for_bestmove
                    &&& *final(game) == *old(game)
                },
            },
    {
        match output {
            EngineOutput::Info(info) => {
                if info.multipv == 1 {
                    self.eval_score = Some(info.score);
                }
                self.upsert_line(info);
            },
            EngineOutput::BestMove(mv) => {
                self.engine_running = false;
                if self.waiting_for_bestmove && self.mode == AppMode::Play {
                    self.waiting_for_bestmove = false;
                    let r = game.make_uci_move(mv.as_str());
                }
            },
            EngineOutput::Ready => {},
        }
    }

    /// Whether it is the engine's turn to move in play mode: no move asked for yet,
    /// the game not over, the last position on display, and the side to move not the
    /// player's.
    pub fn engine_should_move(&self, game: &Game) -> (r: bool)
        requires
            game.wf(),
        ensures
            r == (self.mode == AppMode::Play && !self.waiting_for_bestmove && !(spec_checkmate(
                game.cursor_fen(),
            ) || spec_stalemate(game.cursor_fen()) || spec_insufficient(game.cursor_fen()))
                && game.cursor == game.moves@.len() && color_of_code(spec_turn(game.cursor_fen()))
                != self.player_color),
    {
        if !(self.mode == AppMode::Play) || self.waiting_for_bestmove || game.is_game_over()
            || !game.at_end() {
            return false;
        }
        let side = crate::board::color_from_code(
            crate::rules::turn(game.positions[game.cursor].as_str()),
        );
        assert(game.cursor_fen() == game.positions@[game.cursor as int]@);
        side != self.player_color
    }

    /// Whether analysis mode shows a position that the engine has not analysed.
    pub fn needs_analysis(&self, game: &Game) -> (r: bool)
        requires
            game.wf(),
        ensures
            r == (self.mode == AppMode::Analyze && game.cursor_fen()
                != self.last_analyzed_fen@),
    {
        if !(self.mode == AppMode::Analyze) {
            return false;
        }
        let fen = game.current_fen();
        !str_eq(fen.as_str(), self.last_analyzed_fen.as_str())
    }

    /// Forgets what the engine said, after it was restarted.
    pub fn engine_restarted(&mut self)
        ensures
            final(self).lines().len() == 0,
            final(self).eval_score is None,
            !final(self).engine_running,
            final(self).mode == old(self).mode,
            final(self).player_color == old(self).player_color,
            final(self).waiting_for_bestmove == old(self).waiting_for_bestmove,
            final(self).last_analyzed_fen == old(self).last_analyzed_fen,
    {
        self.engine_lines = Vec::new();
        self.eval_score = None;
        self.engine_running = false;
        assert(self.lines() =~= Seq::<InfoView>::empty());
    }

    /// After a new game is set up: the lines, the evaluation, the wait for a move
    /// and the analysed position are forgotten; then analysis starts in analysis
    /// mode, and in play mode the engine moves first when the player has black.
    pub fn on_new_game(&mut self, connected: bool, game: &Game, settings: &Settings) -> (cmds: Vec<
        EngineCmd,
    >)
        requires
            game.wf(),
        ensures
            final(self).mode == old(self).mode,
            final(self).player_color == old(self).player_color,
            final(self).eval_score is None,
            final(self).lines().len() == 0,
            old(self).mode == AppMode::Analyze ==> if connected && !(game.cursor_fen().len() == 0
                && old(self).engine_running) {
                &&& cmd_views(cmds@) == analysis_cmds(
                    *game,
                    settings.analysis_depth,
                    settings.multipv,
                )
                &&& final(self).engine_running
                &&& !final(self).waiting_for_bestmove
                &&& final(self).last_analyzed_fen@ == game.cursor_fen()
            } else {
                &&& cmds@.len() == 0
                &&& final(self).engine_running == old(self).engine_running
                &&& !final(self).waiting_for_bestmove
                &&& final(self).last_analyzed_fen@.len() == 0
            },
            old(self).mode == AppMode::Play && old(self).player_color == Color::Black ==> if connected {
                &&& cmd_views(cmds@) == engine_move_cmds(
                    *game,
                    settings.limit_strength,
                    settings.engine_elo,
                    settings.movetime_ms,
                )
                &&& final(self).engine_running
                &&& final(self).waiting_for_bestmove
                &&& final(self).last_analyzed_fen@.len() == 0
            } else {
                &&& cmds@.len() == 0
                &&& final(self).engine_running == old(self).engine_running
                &&& !final(self).waiting_for_bestmove
                &&& final(self).last_analyzed_fen@.len() == 0
            },
            old(self).mode == AppMode::Play && old(self).player_color == Color::White ==> {
                &&& cmds@.len() == 0
                &&& final(self).engine_running == old(self).engine_running
                &&& !final(self).waiting_for_bestmove
                &&& final(self).last_analyzed_fen@.len() == 0
            },
    {
        self.engine_lines = Vec::new();
        self.eval_score = None;
        self.waiting_for_bestmove = false;
        self.last_analyzed_fen = String::new();
        proof {
            assert(game.cursor_fen().len() == 0 ==> game.cursor_fen() =~= self.last_analyzed_fen@);
        }
        if self.mode == AppMode::Analyze {
            self.start_analysis(connected, game, settings.analysis_depth, settings.multipv)
        } else if self.player_color == Color::Black {
            self.request_engine_move(
                connected,
                game,
                settings.limit_strength,
                settings.engine_elo,
                settings.movetime_ms,
            )
        } else {
            Vec::new()
        }
    }
}

impl EngineSession {
    /// After a game is loaded (from a file, or pasted): the lines and the evaluation
    /// are forgotten, the mode becomes analysis where `to_analysis`, and an analysis
    /// of the position on display starts.
    pub fn on_game_loaded(
        &mut self,
        to_analysis: bool,
        connected: bool,
        game: &Game,
        depth: u8,
        multipv: u8,
    ) -> (cmds: Vec<EngineCmd>)
        requires
            game.wf(),
        ensures
            final(self).mode == (if to_analysis {
                AppMode::Analyze
            } else {
                old(self).mode
            }),
            final(self).player_color == old(self).player_color,
            final(self).eval_score is None,
            final(self).waiting_for_bestmove == old(self).waiting_for_bestmove,
            if !analysis_due(*old(self), connected, *game) {
                &&& cmds@.len() == 0
                &&& final(self).lines().len() == 0
                &&& final(self).engine_running == old(self).engine_running
                &&& final(self).last_analyzed_fen == old(self).last_analyzed_fen
            } else {
                &&& cmd_views(cmds@) == analysis_cmds(*game, depth, multipv)
                &&& final(self).engine_running
                &&& final(self).last_analyzed_fen@ == game.cursor_fen()
                &&& final(self).lines().len() == 0
            },
    {
        self.engine_lines = Vec::new();
        self.eval_score = None;
        if to_analysis {
            self.mode = AppMode::Analyze;
        }
        assert(self.lines() =~= Seq::<InfoView>::empty());
        self.start_analysis(connected, game, depth, multipv)
    }

    /// The switch to analysis mode: no move is awaited any more, and an analysis of
    /// the position on display starts.
    pub fn switch_to_analysis(&mut self, connected: bool, game: &Game, depth: u8, multipv: u8) -> (cmds:
        Vec<EngineCmd>)
        requires
            game.wf(),
        ensures
            final(self).mode == AppMode::Analyze,
            !final(self).waiting_for_bestmove,
            final(self).player_color == old(self).player_color,
            final(self).eval_score == old(self).eval_score,
            if !analysis_due(*old(self), connected, *game) {
                &&& cmds@.len() == 0
                &&& final(self).lines() == old(self).lines()
                &&& final(self).engine_running == old(self).engine_running
                &&& final(self).last_analyzed_fen == old(self).last_analyzed_fen
            } else {
                &&& cmd_views(cmds@) == analysis_cmds(*game, depth, multipv)
                &&& final(self).engine_running
                &&& final(self).last_analyzed_fen@ == game.cursor_fen()
                &&& final(self).lines().len() == 0
            },
    {
        self.mode = AppMode::Analyze;
        self.waiting_for_bestmove = false;
        self.start_analysis(connected, game, depth, multipv)
    }

    /// The switch to play mode: the lines are cleared.
    pub fn switch_to_play(&mut self)
        ensures
            final(self).mode == AppMode::Play,
            final(self).lines().len() == 0,
            final(self).player_color == old(self).player_color,
            final(self).eval_score == old(self).eval_score,
            final(self).engine_running == old(self).engine_running,
            final(self).waiting_for_bestmove == old(self).waiting_for_bestmove,
            final(self).last_analyzed_fen == old(self).last_analyzed_fen,
    {
        self.mode = AppMode::Play;
        self.engine_lines = Vec::new();
        assert(self.lines() =~= Seq::<InfoView>::empty());
    }
}

/// The position reached by playing the moves `ms` in turn from `start`; `None` where
/// one of them is not legal.
pub open spec fn played_from(start: Seq<char>, ms: Seq<ChessMove>) -> Option<Seq<char>>
    decreases ms.len(),
{
    if ms.len() == 0 {
        Some(start)
    } else {
        match played_from(start, ms.drop_last()) {
            Some(f) => after(f, ms.last()),
            None => None,
        }
    }
}

proof fn lemma_played_prefix(g: Game, n: nat)
    requires
        g.wf(),
        n <= g.moves@.len(),
    ensures
        played_from(g.fens()[0], g.moves@.take(n as int)) == Some(g.fens()[n as int]),
    decreases n,
{
    if n > 0 {
        lemma_played_prefix(g, (n - 1) as nat);
        assert(g.moves@.take(n as int).drop_last() =~= g.moves@.take(n - 1));
        assert(g.moves@.take(n as int).last() == g.moves@[n - 1]);
    } else {
        assert(g.moves@.take(0) =~= Seq::<ChessMove>::empty());
    }
}

/// The engine is set on the position on display: the position command names the
/// game's start and the UCI texts of the moves up to the cursor, and those moves,
/// played in turn from the start, reach the position on display.
pub proof fn law_position_cmd_is_displayed_position(g: Game)
    requires
        g.wf(),
    ensures
        position_cmd(g) == (CmdView::SetPosition {
            fen: g.fens()[0],
            moves: g.moves@.take(g.cursor as int).map_values(|m: ChessMove| uci_text(m)),
        }),
        played_from(g.fens()[0], g.moves@.take(g.cursor as int)) == Some(g.cursor_fen()),
{
    lemma_played_prefix(g, g.cursor as nat);
    assert(g.moves@.take(g.cursor as int).map_values(|m: ChessMove| uci_text(m)) =~= Seq::new(
        g.cursor as nat,
        |i: int| uci_text(g.moves@[i]),
    ));
}

/// A line reported for a slot is shown in that slot; every other slot keeps its line,
/// and the slots between the old lines and the new one get empty lines numbered
/// after their slot.
pub proof fn law_upsert_places_line(lines: Seq<InfoView>, info: InfoView)
    ensures
        ({
            let r = upserted(lines, info);
            let idx = slot_of(info.multipv);
            &&& idx < r.len()
            &&& r[idx as int] == info
            &&& r.len() == if idx < lines.len() {
                lines.len()
            } else {
                idx + 1
            }
            &&& forall|j: int| 0 <= j < lines.len() && j != idx ==> r[j] == lines[j]
            &&& forall|j: int|
                lines.len() <= j < idx ==> r[j] == placeholder_view((j + 1) as u8)
        }),
{
}

/// Once an analysis of the position on display has started, asking for it again
/// sends nothing until the engine stops or the position changes.
pub proof fn law_analysis_not_repeated(s: EngineSession, connected: bool, g: Game)
    requires
        s.engine_running,
        s.last_analyzed_fen@ == g.cursor_fen(),
    ensures
        !analysis_due(s, connected, g),
{
}

} // verus!
