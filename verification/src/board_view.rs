//! What the board shows of the position on display, and when it takes input.
use vstd::prelude::*;

use crate::board::{color_from_code, color_of_code, role_from_code, role_of_code, MoveCode, Piece, Square};
use crate::game::Game;
use crate::interaction::{is_own_piece, own_piece_at};
use crate::rules::{
    is_check, king_square, legal_moves, piece_at, spec_check, spec_checkmate, spec_insufficient,
    spec_king_square, spec_legal_moves, spec_piece_at, spec_stalemate, spec_turn,
};

verus! {

/// The target squares of the legal moves of `l`, from `i` on, that start on `from`
/// (for castling, the rook's square), in the order of `l`.
pub open spec fn targets_from(l: Seq<MoveCode>, from: Square, i: nat) -> Seq<Square>
    decreases l.len() - i,
{
    if i >= l.len() {
        seq![]
    } else if l[i as int].0 == from.index {
        seq![Square { index: l[i as int].1 }] + targets_from(l, from, i + 1)
    } else {
        targets_from(l, from, i + 1)
    }
}

/// The squares marked as targets when `from` is selected: where the legal moves from
/// `from` in the position on display go.
pub fn legal_targets(game: &Game, from: Square) -> (r: Vec<Square>)
    requires
        game.wf(),
    ensures
        r@ == targets_from(spec_legal_moves(game.cursor_fen()), from, 0),
{
    assert(game.cursor_fen() == game.positions@[game.cursor as int]@);
    let l = legal_moves(game.positions[game.cursor].as_str());
    let n = l.len();
    let mut out: Vec<Square> = Vec::new();
    let mut i: usize = 0;
    while i < n
        invariant
            n == l@.len(),
            i <= n,
            out@ + targets_from(l@, from, i as nat) == targets_from(l@, from, 0),
        decreases n - i,
    {
        let c = l[i];
        let ghost before = out@;
        if c.0 == from.index {
            out.push(Square { index: c.1 });
            assert(out@ + targets_from(l@, from, (i + 1) as nat) =~= before + targets_from(
                l@,
                from,
                i as nat,
            ));
        }
        i = i + 1;
    }
    assert(out@ =~= out@ + targets_from(l@, from, n as nat));
    out
}

/// The piece that stands on `sq` in the position with FEN `fen`.
pub open spec fn piece_in(fen: Seq<char>, sq: Square) -> Option<Piece> {
    match spec_piece_at(fen, sq.index) {
        Some(p) => Some(Piece { color: color_of_code(p.0), role: role_of_code(p.1) }),
        None => None,
    }
}

/// The piece that stands on `sq` in the position on display.
pub fn piece_on(game: &Game, sq: Square) -> (r: Option<Piece>)
    requires
        game.wf(),
        sq.valid(),
    ensures
        r == piece_in(game.cursor_fen(), sq),
{
    assert(game.cursor_fen() == game.positions@[game.cursor as int]@);
    match piece_at(game.positions[game.cursor].as_str(), sq.index) {
        Some(p) => Some(Piece { color: color_from_code(p.0), role: role_from_code(p.1) }),
        None => None,
    }
}

/// The squares of the move that led to the position on display, origin first;
/// none at the start.
pub open spec fn last_move_of(game: Game) -> Option<(Square, Square)> {
    if game.cursor == 0 {
        None
    } else {
        let m = game.moves@[game.cursor - 1];
        Some((m.from, m.to))
    }
}

/// The squares of the move that led to the position on display, which the board
/// highlights.
pub fn last_move_squares(game: &Game) -> (r: Option<(Square, Square)>)
    requires
        game.wf(),
    ensures
        r == last_move_of(*game),
{
    if game.cursor == 0 {
        None
    } else {
        let m = game.moves[game.cursor - 1];
        Some((m.from, m.to))
    }
}

/// The square of the king in check in the position `fen`, if the side to move is in
/// check.
pub open spec fn checked_king_in(fen: Seq<char>) -> Option<Square> {
    if spec_check(fen) {
        match spec_king_square(fen) {
            Some(s) => Some(Square { index: s }),
            None => None,
        }
    } else {
        None
    }
}

/// The square the board marks red: that of the king of the side to move, when it is
/// in check.
pub fn checked_king(game: &Game) -> (r: Option<Square>)
    requires
        game.wf(),
    ensures
        r == checked_king_in(game.cursor_fen()),
        r matches Some(s) ==> s.valid() && piece_in(game.cursor_fen(), s) == Some(
            Piece { color: color_of_code(spec_turn(game.cursor_fen())), role: crate::board::Role::King },
        ),
{
    assert(game.cursor_fen() == game.positions@[game.cursor as int]@);
    let fen = game.positions[game.cursor].as_str();
    if !is_check(fen) {
        return None;
    }
    match king_square(fen) {
        Some(s) => Some(Square { index: s }),
        None => None,
    }
}

/// Whether the board takes moves: it is interactive, the last position is on
/// display, the game goes on, and no promotion waits for its piece.
pub open spec fn takes_input(interactive: bool, game: Game, pending: Option<(Square, Square)>) -> bool {
    &&& interactive
    &&& game.cursor == game.moves@.len()
    &&& !(spec_checkmate(game.cursor_fen()) || spec_stalemate(game.cursor_fen())
        || spec_insufficient(game.cursor_fen()))
    &&& pending is None
}

/// Whether the board takes moves now.
pub fn accepts_input(interactive: bool, game: &Game, pending: &Option<(Square, Square)>) -> (r:
    bool)
    requires
        game.wf(),
    ensures
        r == takes_input(interactive, *game, *pending),
{
    interactive && game.at_end() && !game.is_game_over() && pending.is_none()
}

/// A drag that reaches `sq`: where none is under way and a piece of the side to move
/// stands on `sq`, the drag starts there and `sq` is selected; otherwise nothing
/// changes.
pub fn begin_drag(game: &Game, sq: Square, drag_from: &mut Option<Square>, selected: &mut Option<Square>)
    requires
        game.wf(),
        sq.valid(),
    ensures
        if *old(drag_from) is None && own_piece_at(game.cursor_fen(), sq) {
            *final(drag_from) == Some(sq) && *final(selected) == Some(sq)
        } else {
            *final(drag_from) == *old(drag_from) && *final(selected) == *old(selected)
        },
{
    if drag_from.is_none() {
        if is_own_piece(game, sq) {
            *drag_from = Some(sq);
            *selected = Some(sq);
        }
    }
}

} // verus!
