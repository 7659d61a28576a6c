//! The rules of chess, from the `shakmaty` crate.
//!
//! Positions travel through the library as FEN text; moves as [`MoveCode`]s. Each
//! function here reads the FEN into a `shakmaty::Chess` (standard castling), makes
//! one call of `shakmaty`, and hands the answer back as plain values. Where the text
//! is not a FEN of a legal position, each says what it gives instead.
use vstd::prelude::*;

use crate::board::{code_valid, MoveCode};
use crate::text::is_word;

#[allow(unused_imports)]
use shakmaty::{fen::Fen, san::SanPlus, uci::UciMove, CastlingMode, Chess, EnPassantMode, Position};

verus! {

/// The FEN that `shakmaty` writes (en passant square only where a capture is legal)
/// for the position that `text` describes; `None` where `text` is no FEN of a legal
/// standard position.
pub uninterp spec fn spec_normal_fen(text: Seq<char>) -> Option<Seq<char>>;

/// The legal moves of the position, in the order `shakmaty` generates them.
pub uninterp spec fn spec_legal_moves(fen: Seq<char>) -> Seq<MoveCode>;

/// The FEN of the position after the `k`-th legal move.
pub uninterp spec fn spec_play(fen: Seq<char>, k: nat) -> Seq<char>;

/// The SAN of the `k`-th legal move, with `+` or `#` where it gives check or mate.
pub uninterp spec fn spec_san(fen: Seq<char>, k: nat) -> Seq<char>;

/// The legal move that the UCI text `uci` stands for in the position.
pub uninterp spec fn spec_uci_move(fen: Seq<char>, uci: Seq<char>) -> Option<MoveCode>;

/// The legal move that the SAN text `san` stands for in the position.
pub uninterp spec fn spec_san_move(fen: Seq<char>, san: Seq<char>) -> Option<MoveCode>;

/// The side to move: 1 for white, 0 for black.
pub uninterp spec fn spec_turn(fen: Seq<char>) -> u8;

/// The number of the full move, counted from 1.
pub uninterp spec fn spec_fullmoves(fen: Seq<char>) -> u32;

/// The piece on square `sq`, as (color 1 white or 0 black, role 1 pawn to 6 king).
pub uninterp spec fn spec_piece_at(fen: Seq<char>, sq: u8) -> Option<(u8, u8)>;

/// Whether the side to move is checkmated.
pub uninterp spec fn spec_checkmate(fen: Seq<char>) -> bool;

/// Whether the side to move is stalemated.
pub uninterp spec fn spec_stalemate(fen: Seq<char>) -> bool;

/// Whether neither side has the material to mate.
pub uninterp spec fn spec_insufficient(fen: Seq<char>) -> bool;

/// Whether the king of the side to move is attacked.
pub uninterp spec fn spec_check(fen: Seq<char>) -> bool;

/// The square of the king of the side to move, where it has exactly one.
pub uninterp spec fn spec_king_square(fen: Seq<char>) -> Option<u8>;

/// The text of an optional string.
pub open spec fn opt_text(o: Option<String>) -> Option<Seq<char>> {
    match o {
        Some(s) => Some(s@),
        None => None,
    }
}

/// Reads `text` as FEN (`Fen::from_ascii`, then `Fen::into_position` with standard
/// castling) and writes the position back (`Fen::from_position` with
/// `EnPassantMode::Legal`). `None` where either step fails.
#[verifier::external_body]
pub(crate) fn normal_fen(text: &str) -> (r: Option<String>)
    ensures
        opt_text(r) == spec_normal_fen(text@),
{
    let fen = Fen::from_ascii(text.as_bytes()).ok()?;
    let pos: Chess = fen.into_position(CastlingMode::Standard).ok()?;
    Some(Fen::from_position(&pos, EnPassantMode::Legal).to_string())
}

/// `Position::legal_moves` of the position that `fen` describes, each move as
/// (`Move::from`, `Move::to`, `Move::promotion`, `Move::is_castle`). Standard chess
/// has no drops, so every move has an origin square. No moves where `fen` is no
/// legal position.
#[verifier::external_body]
pub(crate) fn legal_moves(fen: &str) -> (r: Vec<MoveCode>)
    ensures
        r@ == spec_legal_moves(fen@),
        forall|i: int| 0 <= i < r@.len() ==> code_valid(#[trigger] r@[i]),
{
    let pos: Chess = match Fen::from_ascii(fen.as_bytes()) {
        Ok(f) => match f.into_position(CastlingMode::Standard) {
            Ok(p) => p,
            Err(_) => return Vec::new(),
        },
        Err(_) => return Vec::new(),
    };
    let mut out = Vec::new();
    for m in pos.legal_moves() {
        out.push((m.from().map_or(64, u8::from), u8::from(m.to()), m.promotion().map_or(0, u8::from), m.is_castle()));
    }
    out
}

/// `Position::play` of the `k`-th legal move, written back as FEN
/// (`EnPassantMode::Legal`).
#[verifier::external_body]
pub(crate) fn play_legal(fen: &str, k: usize) -> (r: String)
    requires
        k < spec_legal_moves(fen@).len(),
    ensures
        r@ == spec_play(fen@, k as nat),
{
    let pos: Chess = Fen::from_ascii(fen.as_bytes()).unwrap().into_position(CastlingMode::Standard).unwrap();
    let m = pos.legal_moves()[k];
    match pos.play(m) {
        Ok(next) => Fen::from_position(&next, EnPassantMode::Legal).to_string(),
        Err(_) => String::new(),
    }
}

/// `SanPlus::from_move` of the `k`-th legal move, as text. SAN names a legal move
/// so that no other legal move fits it: read back (`SanPlus::from_ascii`, then
/// `San::to_move`) in the same position it gives that move again. The text is one
/// word: piece letters, files, ranks, `x`, `=`, `O-O`, `+` or `#`, and no space.
#[verifier::external_body]
pub(crate) fn san_legal(fen: &str, k: usize) -> (r: String)
    requires
        k < spec_legal_moves(fen@).len(),
    ensures
        r@ == spec_san(fen@, k as nat),
        spec_san_move(fen@, r@) == Some(spec_legal_moves(fen@)[k as int]),
        is_word(r@),
{
    let pos: Chess = Fen::from_ascii(fen.as_bytes()).unwrap().into_position(CastlingMode::Standard).unwrap();
    let m = pos.legal_moves()[k];
    SanPlus::from_move(pos, m).to_string()
}

/// Parses `uci` as a `UciMove` and calls `UciMove::to_move`, which gives a legal move
/// of the position or fails. `None` where parsing or the conversion fails, or `fen`
/// is no legal position.
#[verifier::external_body]
pub(crate) fn uci_move(fen: &str, uci: &str) -> (r: Option<MoveCode>)
    ensures
        r == spec_uci_move(fen@, uci@),
        r matches Some(c) ==> code_valid(c),
{
    let pos: Chess = Fen::from_ascii(fen.as_bytes()).ok()?.into_position(CastlingMode::Standard).ok()?;
    let m = UciMove::from_ascii(uci.as_bytes()).ok()?.to_move(&pos).ok()?;
    Some((m.from().map_or(64, u8::from), u8::from(m.to()), m.promotion().map_or(0, u8::from), m.is_castle()))
}

/// Parses `san` as a `SanPlus` and calls `San::to_move`, which gives a legal move of
/// the position or fails. `None` where parsing or the conversion fails, or `fen` is
/// no legal position. `SanPlus::from_ascii` takes only a text made wholly of SAN's
/// letters, digits and signs, so a text it takes is one word.
#[verifier::external_body]
pub(crate) fn san_move(fen: &str, san: &str) -> (r: Option<MoveCode>)
    ensures
        r == spec_san_move(fen@, san@),
        r matches Some(c) ==> code_valid(c),
        r is Some ==> is_word(san@),
{
    let pos: Chess = Fen::from_ascii(fen.as_bytes()).ok()?.into_position(CastlingMode::Standard).ok()?;
    let m = SanPlus::from_ascii(san.as_bytes()).ok()?.san.to_move(&pos).ok()?;
    Some((m.from().map_or(64, u8::from), u8::from(m.to()), m.promotion().map_or(0, u8::from), m.is_castle()))
}

/// `Position::turn`, as a number (1 white, 0 black); white where `fen` is no legal
/// position.
#[verifier::external_body]
pub(crate) fn turn(fen: &str) -> (r: u8)
    ensures
        r == spec_turn(fen@),
        r <= 1,
{
    let pos: Chess = match Fen::from_ascii(fen.as_bytes()) {
        Ok(f) => match f.into_position(CastlingMode::Standard) {
            Ok(p) => p,
            Err(_) => return 1,
        },
        Err(_) => return 1,
    };
    u8::from(pos.turn())
}

/// `Position::fullmoves`; 1 where `fen` is no legal position.
#[verifier::external_body]
pub(crate) fn fullmoves(fen: &str) -> (r: u32)
    ensures
        r == spec_fullmoves(fen@),
{
    let pos: Chess = match Fen::from_ascii(fen.as_bytes()) {
        Ok(f) => match f.into_position(CastlingMode::Standard) {
            Ok(p) => p,
            Err(_) => return 1,
        },
        Err(_) => return 1,
    };
    pos.fullmoves().get()
}

/// `Board::piece_at` of square `sq`, as (color, role) numbers; `None` where `fen` is
/// no legal position.
#[verifier::external_body]
pub(crate) fn piece_at(fen: &str, sq: u8) -> (r: Option<(u8, u8)>)
    requires
        sq < 64,
    ensures
        r == spec_piece_at(fen@, sq),
        r matches Some(p) ==> p.0 <= 1 && 1 <= p.1 <= 6,
{
    let pos: Chess = Fen::from_ascii(fen.as_bytes()).ok()?.into_position(CastlingMode::Standard).ok()?;
    let p = pos.board().piece_at(shakmaty::Square::new(sq as u32))?;
    Some((u8::from(p.color), u8::from(p.role)))
}

/// `Position::is_checkmate`; false where `fen` is no legal position.
#[verifier::external_body]
pub(crate) fn is_checkmate(fen: &str) -> (r: bool)
    ensures
        r == spec_checkmate(fen@),
{
    let pos: Chess = match Fen::from_ascii(fen.as_bytes()) {
        Ok(f) => match f.into_position(CastlingMode::Standard) {
            Ok(p) => p,
            Err(_) => return false,
        },
        Err(_) => return false,
    };
    pos.is_checkmate()
}

/// `Position::is_stalemate`; false where `fen` is no legal position.
#[verifier::external_body]
pub(crate) fn is_stalemate(fen: &str) -> (r: bool)
    ensures
        r == spec_stalemate(fen@),
{
    let pos: Chess = match Fen::from_ascii(fen.as_bytes()) {
        Ok(f) => match f.into_position(CastlingMode::Standard) {
            Ok(p) => p,
            Err(_) => return false,
        },
        Err(_) => return false,
    };
    pos.is_stalemate()
}

/// `Position::is_insufficient_material`; false where `fen` is no legal position.
#[verifier::external_body]
pub(crate) fn is_insufficient_material(fen: &str) -> (r: bool)
    ensures
        r == spec_insufficient(fen@),
{
    let pos: Chess = match Fen::from_ascii(fen.as_bytes()) {
        Ok(f) => match f.into_position(CastlingMode::Standard) {
            Ok(p) => p,
            Err(_) => return false,
        },
        Err(_) => return false,
    };
    pos.is_insufficient_material()
}

/// `Position::is_check`; false where `fen` is no legal position.
#[verifier::external_body]
pub(crate) fn is_check(fen: &str) -> (r: bool)
    ensures
        r == spec_check(fen@),
{
    let pos: Chess = match Fen::from_ascii(fen.as_bytes()) {
        Ok(f) => match f.into_position(CastlingMode::Standard) {
            Ok(p) => p,
            Err(_) => return false,
        },
        Err(_) => return false,
    };
    pos.is_check()
}

/// `Board::king_of` the side to move (`Position::turn`): the square of its king where
/// it has exactly one, which then holds that king; `None` where `fen` is no legal
/// position.
#[verifier::external_body]
pub(crate) fn king_square(fen: &str) -> (r: Option<u8>)
    ensures
        r == spec_king_square(fen@),
        r matches Some(s) ==> s < 64 && spec_piece_at(fen@, s) == Some((spec_turn(fen@), 6u8)),
{
    let pos: Chess = Fen::from_ascii(fen.as_bytes()).ok()?.into_position(CastlingMode::Standard).ok()?;
    pos.board().king_of(pos.turn()).map(u8::from)
}

} // verus!
