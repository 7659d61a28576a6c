//! What clicks and drags on the board do to a game.
use vstd::prelude::*;

use crate::board::{color_of_code, move_from_code, move_of_code, MoveCode, Role, Square};
use crate::game::{legal_index, lemma_find_move_exists, moved, Game};
use crate::rules::{legal_moves, piece_at, spec_legal_moves, spec_piece_at, spec_turn, turn};

verus! {

/// Whether the numbered move `c` goes from `from` to `to`.
pub open spec fn code_between(c: MoveCode, from: Square, to: Square) -> bool {
    c.0 == from.index && c.1 == to.index
}

/// Whether some legal move of `l` goes from `from` to `to` and promotes a pawn.
pub open spec fn promotion_between(l: Seq<MoveCode>, from: Square, to: Square) -> bool {
    exists|k: int| 0 <= k < l.len() && code_between(#[trigger] l[k], from, to) && l[k].2 != 0
}

/// Index of the first move of `l`, from `i` on, going from `from` to `to` whose
/// promotion number is `promo` (0 for none).
pub open spec fn first_between(l: Seq<MoveCode>, from: Square, to: Square, promo: u8, i: nat) -> Option<
    nat,
>
    decreases l.len() - i,
{
    if i >= l.len() {
        None
    } else if code_between(l[i as int], from, to) && l[i as int].2 == promo {
        Some(i)
    } else {
        first_between(l, from, to, promo, i + 1)
    }
}

/// The number the rules engine gives a role (1 pawn to 6 king).
pub open spec fn role_code(r: Role) -> u8 {
    match r {
        Role::Pawn => 1,
        Role::Knight => 2,
        Role::Bishop => 3,
        Role::Rook => 4,
        Role::Queen => 5,
        Role::King => 6,
    }
}

fn role_code_of(r: Role) -> (c: u8)
    ensures
        c == role_code(r),
{
    match r {
        Role::Pawn => 1,
        Role::Knight => 2,
        Role::Bishop => 3,
        Role::Rook => 4,
        Role::Queen => 5,
        Role::King => 6,
    }
}

/// Whether a piece of the side to move stands on `sq`.
pub open spec fn own_piece_at(fen: Seq<char>, sq: Square) -> bool {
    spec_piece_at(fen, sq.index) matches Some(p) && p.0 == spec_turn(fen)
}

proof fn lemma_first_between_found(l: Seq<MoveCode>, from: Square, to: Square, promo: u8, i: nat)
    ensures
        first_between(l, from, to, promo, i) matches Some(k) ==> i <= k < l.len()
            && code_between(l[k as int], from, to) && l[k as int].2 == promo,
    decreases l.len() - i,
{
    if i < l.len() && !(code_between(l[i as int], from, to) && l[i as int].2 == promo) {
        lemma_first_between_found(l, from, to, promo, i + 1);
    }
}

fn find_between(l: &Vec<MoveCode>, from: Square, to: Square, promo: u8) -> (r: Option<usize>)
    ensures
        r matches Some(k) ==> first_between(l@, from, to, promo, 0) == Some(k as nat) && k
            < l@.len(),
        r is None ==> first_between(l@, from, to, promo, 0) is None,
{
    let n = l.len();
    let mut i: usize = 0;
    while i < n
        invariant
            n == l@.len(),
            i <= n,
            first_between(l@, from, to, promo, 0) == first_between(l@, from, to, promo, i as nat),
        decreases n - i,
    {
        let c = l[i];
        if c.0 == from.index && c.1 == to.index && c.2 == promo {
            return Some(i);
        }
        i = i + 1;
    }
    None
}

/// Whether moving from `from` to `to` in the position on display promotes a pawn,
/// so that the board must ask for the new piece.
pub fn is_promotion_move(game: &Game, from: Square, to: Square) -> (r: bool)
    requires
        game.wf(),
    ensures
        r == promotion_between(spec_legal_moves(game.cursor_fen()), from, to),
{
    assert(game.cursor_fen() == game.positions@[game.cursor as int]@);
    let l = legal_moves(game.positions[game.cursor].as_str());
    let n = l.len();
    let mut i: usize = 0;
    while i < n
        invariant
            n == l@.len(),
            l@ == spec_legal_moves(game.cursor_fen()),
            i <= n,
            forall|k: int| 0 <= k < i ==> !(code_between(#[trigger] l@[k], from, to) && l@[k].2 != 0),
        decreases n - i,
    {
        let c = l[i];
        if c.0 == from.index && c.1 == to.index && c.2 != 0 {
            let ghost sl = spec_legal_moves(game.cursor_fen());
            assert(code_between(sl[i as int], from, to) && sl[i as int].2 != 0);
            return true;
        }
        i = i + 1;
    }
    false
}

/// Plays the first legal move numbered `k` of `l`, which is the list of the
/// position on display.
fn play_listed(game: &mut Game, l: &Vec<MoveCode>, k: usize)
    requires
        old(game).wf(),
        l@ == spec_legal_moves(old(game).cursor_fen()),
        k < l@.len(),
    ensures
        final(game).wf(),
        legal_index(old(game).cursor_fen(), move_of_code(l@[k as int])) matches Some(j) && moved(
            *old(game),
            move_of_code(l@[k as int]),
            j,
            *final(game),
        ),
{
    let m = move_from_code(l[k]);
    proof {
        lemma_find_move_exists(l@, m, 0, k as nat);
    }
    let r = game.make_move(m);
}

/// What a move from `from` to `to` that promotes to nothing, or to `promo`, does:
/// the first such legal move is played.
pub open spec fn tried(g: Game, from: Square, to: Square, promo: u8, r: bool, g2: Game) -> bool {
    let l = spec_legal_moves(g.cursor_fen());
    match first_between(l, from, to, promo, 0) {
        None => !r && g2 == g,
        Some(k) => r && (legal_index(g.cursor_fen(), move_of_code(l[k as int])) matches Some(j)
            && moved(g, move_of_code(l[k as int]), j, g2)),
    }
}

/// Plays the legal move from `from` to `to` that promotes no pawn, if there is one;
/// whether a move was played.
pub fn try_make_move(game: &mut Game, from: Square, to: Square) -> (r: bool)
    requires
        old(game).wf(),
    ensures
        final(game).wf(),
        tried(*old(game), from, to, 0, r, *final(game)),
{
    let l = legal_moves(game.positions[game.cursor].as_str());
    match find_between(&l, from, to, 0) {
        Some(k) => {
            play_listed(game, &l, k);
            true
        },
        None => false,
    }
}

/// Plays the legal move from `from` to `to` that promotes a pawn to `role`, if there
/// is one; whether a move was played.
pub fn try_make_promotion_move(game: &mut Game, from: Square, to: Square, role: Role) -> (r: bool)
    requires
        old(game).wf(),
    ensures
        final(game).wf(),
        tried(*old(game), from, to, role_code(role), r, *final(game)),
{
    let l = legal_moves(game.positions[game.cursor].as_str());
    match find_between(&l, from, to, role_code_of(role)) {
        Some(k) => {
            play_listed(game, &l, k);
            true
        },
        None => false,
    }
}

/// Whether a piece of the side to move stands on `sq` in the position on display.
pub fn is_own_piece(game: &Game, sq: Square) -> (r: bool)
    requires
        game.wf(),
        sq.valid(),
    ensures
        r == own_piece_at(game.cursor_fen(), sq),
{
    let fen = game.positions[game.cursor].as_str();
    match piece_at(fen, sq.index) {
        Some(p) => p.0 == turn(fen),
        None => false,
    }
}

/// A piece dragged from `from` and let go on `to`: where the move promotes a pawn,
/// it waits for the choice of piece; otherwise the move is played if it is legal.
pub fn finish_drag(
    game: &mut Game,
    from: Square,
    to: Square,
    pending_promotion: &mut Option<(Square, Square)>,
)
    requires
        old(game).wf(),
    ensures
        final(game).wf(),
        ({
            let l = spec_legal_moves(old(game).cursor_fen());
            if promotion_between(l, from, to) {
                *final(pending_promotion) == Some((from, to)) && *final(game) == *old(game)
            } else {
                *final(pending_promotion) == *old(pending_promotion) && tried(
                    *old(game),
                    from,
                    to,
                    0,
                    first_between(l, from, to, 0, 0) is Some,
                    *final(game),
                )
            }
        }),
{
    if is_promotion_move(game, from, to) {
        *pending_promotion = Some((from, to));
    } else {
        let r = try_make_move(game, from, to);
    }
}

/// What a click on `sq` does. With a square selected: a click on it clears the
/// selection; a move that promotes waits for the choice of piece; another legal move
/// is played; otherwise the selection moves to `sq` if a piece of the side to move
/// stands there, and is cleared if not. With nothing selected, a piece of the side to
/// move on `sq` is selected.
pub fn handle_click(
    game: &mut Game,
    selected: &mut Option<Square>,
    sq: Square,
    pending_promotion: &mut Option<(Square, Square)>,
)
    requires
        old(game).wf(),
        sq.valid(),
    ensures
        final(game).wf(),
        ({
            let fen = old(game).cursor_fen();
            let l = spec_legal_moves(fen);
            let own = own_piece_at(fen, sq);
            match *old(selected) {
                Some(from) => if from == sq {
                    &&& *final(selected) == None::<Square>
                    &&& *final(game) == *old(game)
                    &&& *final(pending_promotion) == *old(pending_promotion)
                } else if promotion_between(l, from, sq) {
                    &&& *final(pending_promotion) == Some((from, sq))
                    &&& *final(selected) == None::<Square>
                    &&& *final(game) == *old(game)
                } else {
                    &&& *final(pending_promotion) == *old(pending_promotion)
                    &&& match first_between(l, from, sq, 0, 0) {
                        Some(_) => *final(selected) == None::<Square> && tried(
                            *old(game),
                            from,
                            sq,
                            0,
                            true,
                            *final(game),
                        ),
                        None => *final(game) == *old(game) && *final(selected) == (if own {
                            Some(sq)
                        } else {
                            None
                        }),
                    }
                },
                None => {
                    &&& *final(game) == *old(game)
                    &&& *final(pending_promotion) == *old(pending_promotion)
                    &&& *final(selected) == (if own {
                        Some(sq)
                    } else {
                        None
                    })
                },
            }
        }),
{
    match *selected {
        Some(from) => {
            if from == sq {
                *selected = None;
                return;
            }
            if is_promotion_move(game, from, sq) {
                *pending_promotion = Some((from, sq));
                *selected = None;
            } else {
                let moved = try_make_move(game, from, sq);
                if moved {
                    *selected = None;
                } else {
                    if is_own_piece(game, sq) {
                        *selected = Some(sq);
                    } else {
                        *selected = None;
                    }
                }
            }
        },
        None => {
            if is_own_piece(game, sq) {
                *selected = Some(sq);
            }
        },
    }
}

/// A piece belongs to the player whose turn it is exactly when its colour is the
/// side to move of the position, black as well as white: with black to move, the
/// black pieces are the ones that can be selected and dragged.
pub proof fn law_own_piece_is_side_to_move(fen: Seq<char>, sq: Square)
    requires
        spec_turn(fen) <= 1,
        spec_piece_at(fen, sq.index) matches Some(p) ==> p.0 <= 1,
    ensures
        own_piece_at(fen, sq) <==> (spec_piece_at(fen, sq.index) matches Some(p) && color_of_code(
            p.0,
        ) == color_of_code(spec_turn(fen))),
        forall|r: u8|
            spec_turn(fen) == 0 && spec_piece_at(fen, sq.index) == Some((0u8, r)) ==> own_piece_at(
                fen,
                sq,
            ),
        forall|r: u8|
            spec_turn(fen) == 0 && spec_piece_at(fen, sq.index) == Some((1u8, r)) ==> !own_piece_at(
                fen,
                sq,
            ),
{
}

} // verus!
