use vstd::prelude::*;

verus! {

/// A side.
#[derive(Clone, Copy, Debug, PartialEq, Eq, Structural)]
pub enum Color {
    White,
    Black,
}

/// A kind of piece.
#[derive(Clone, Copy, Debug, PartialEq, Eq, Structural)]
pub enum Role {
    Pawn,
    Knight,
    Bishop,
    Rook,
    Queen,
    King,
}

/// A piece: a side and a kind.
#[derive(Clone, Copy, Debug, PartialEq, Eq, Structural)]
pub struct Piece {
    pub color: Color,
    pub role: Role,
}

/// A square of the board, numbered `file + 8 * rank` from a1 = 0 to h8 = 63.
#[derive(Clone, Copy, Debug, PartialEq, Eq, Structural)]
pub struct Square {
    pub index: u8,
}

/// A move of standard chess: the square it starts from, the square it goes to
/// (for castling, the square of the rook the king castles with), the role a pawn is
/// promoted to, and whether it is castling. Among the legal moves of a position these
/// four tell each move apart.
#[derive(Clone, Copy, Debug, PartialEq, Eq, Structural)]
pub struct ChessMove {
    pub from: Square,
    pub to: Square,
    pub promotion: Option<Role>,
    pub castle: bool,
}

/// A move as numbers, the form in which the rules engine hands it over:
/// origin square, target square (0 to 63), promotion role (1 pawn to 6 king,
/// 0 for none), and whether the move is castling.
pub type MoveCode = (u8, u8, u8, bool);

impl Color {
    pub open spec fn spec_other(self) -> Color {
        match self {
            Color::White => Color::Black,
            Color::Black => Color::White,
        }
    }

    /// The other side.
    pub fn other(self) -> (r: Color)
        ensures
            r == self.spec_other(),
    {
        match self {
            Color::White => Color::Black,
            Color::Black => Color::White,
        }
    }
}

/// The side that a color number of the rules engine stands for (1 white, 0 black).
pub open spec fn color_of_code(c: u8) -> Color {
    if c == 1 {
        Color::White
    } else {
        Color::Black
    }
}

pub fn color_from_code(c: u8) -> (r: Color)
    ensures
        r == color_of_code(c),
{
    if c == 1 {
        Color::White
    } else {
        Color::Black
    }
}

/// The kind of piece that a role number stands for (1 pawn to 6 king).
pub open spec fn role_of_code(c: u8) -> Role {
    if c <= 1 {
        Role::Pawn
    } else if c == 2 {
        Role::Knight
    } else if c == 3 {
        Role::Bishop
    } else if c == 4 {
        Role::Rook
    } else if c == 5 {
        Role::Queen
    } else {
        Role::King
    }
}

pub fn role_from_code(c: u8) -> (r: Role)
    ensures
        r == role_of_code(c),
{
    if c <= 1 {
        Role::Pawn
    } else if c == 2 {
        Role::Knight
    } else if c == 3 {
        Role::Bishop
    } else if c == 4 {
        Role::Rook
    } else if c == 5 {
        Role::Queen
    } else {
        Role::King
    }
}

/// An optional role: 0 for none.
pub open spec fn opt_role_of_code(c: u8) -> Option<Role> {
    if c == 0 {
        None
    } else {
        Some(role_of_code(c))
    }
}

fn opt_role_from_code(c: u8) -> (r: Option<Role>)
    ensures
        r == opt_role_of_code(c),
{
    if c == 0 {
        None
    } else {
        Some(role_from_code(c))
    }
}

/// The square that a square number of the rules engine stands for.
pub open spec fn square_of_code(c: u8) -> Square {
    Square { index: if c < 64 {
        c
    } else {
        0
    } }
}

/// Whether the numbers of a move are in range.
pub open spec fn code_valid(c: MoveCode) -> bool {
    c.0 < 64 && c.1 < 64 && c.2 <= 6
}

/// The move that a numbered move stands for.
pub open spec fn move_of_code(c: MoveCode) -> ChessMove {
    ChessMove {
        from: square_of_code(c.0),
        to: square_of_code(c.1),
        promotion: opt_role_of_code(c.2),
        castle: c.3,
    }
}

/// The move that a numbered move stands for.
pub fn move_from_code(c: MoveCode) -> (m: ChessMove)
    ensures
        m == move_of_code(c),
{
    ChessMove {
        from: Square { index: if c.0 < 64 {
            c.0
        } else {
            0
        } },
        to: Square { index: if c.1 < 64 {
            c.1
        } else {
            0
        } },
        promotion: opt_role_from_code(c.2),
        castle: c.3,
    }
}

impl Square {
    pub open spec fn valid(self) -> bool {
        self.index < 64
    }

    pub open spec fn spec_file(self) -> nat {
        (self.index % 8) as nat
    }

    pub open spec fn spec_rank(self) -> nat {
        (self.index / 8) as nat
    }

    /// The square on `file` (0 for a to 7 for h) and `rank` (0 for 1 to 7 for 8).
    pub fn from_coords(file: u8, rank: u8) -> (r: Square)
        requires
            file < 8,
            rank < 8,
        ensures
            r.valid(),
            r.spec_file() == file,
            r.spec_rank() == rank,
            r.index == file + 8 * rank,
    {
        Square { index: file + 8 * rank }
    }

    /// The file, 0 for a to 7 for h.
    pub fn file(&self) -> (r: u8)
        ensures
            r == self.spec_file(),
    {
        self.index % 8
    }

    /// The rank, 0 for the first to 7 for the eighth.
    pub fn rank(&self) -> (r: u8)
        ensures
            r == self.spec_rank(),
    {
        self.index / 8
    }
}

/// The chess symbol of a piece.
pub open spec fn symbol_of(piece: Piece) -> Seq<char> {
    match (piece.color, piece.role) {
        (Color::White, Role::King) => "♔"@,
        (Color::White, Role::Queen) => "♕"@,
        (Color::White, Role::Rook) => "♖"@,
        (Color::White, Role::Bishop) => "♗"@,
        (Color::White, Role::Knight) => "♘"@,
        (Color::White, Role::Pawn) => "♙"@,
        (Color::Black, Role::King) => "♚"@,
        (Color::Black, Role::Queen) => "♛"@,
        (Color::Black, Role::Rook) => "♜"@,
        (Color::Black, Role::Bishop) => "♝"@,
        (Color::Black, Role::Knight) => "♞"@,
        (Color::Black, Role::Pawn) => "♟"@,
    }
}

/// The chess symbol that the board draws for `piece`.
pub fn piece_symbol(piece: Piece) -> (r: &'static str)
    ensures
        r@ == symbol_of(piece),
{
    match (piece.color, piece.role) {
        (Color::White, Role::King) => "♔",
        (Color::White, Role::Queen) => "♕",
        (Color::White, Role::Rook) => "♖",
        (Color::White, Role::Bishop) => "♗",
        (Color::White, Role::Knight) => "♘",
        (Color::White, Role::Pawn) => "♙",
        (Color::Black, Role::King) => "♚",
        (Color::Black, Role::Queen) => "♛",
        (Color::Black, Role::Rook) => "♜",
        (Color::Black, Role::Bishop) => "♝",
        (Color::Black, Role::Knight) => "♞",
        (Color::Black, Role::Pawn) => "♟",
    }
}

// ---------------------------------------------------------------------------
// Where squares are drawn
// ---------------------------------------------------------------------------
/// The cell (column from the left, row from the top) in which `sq` is drawn.
pub open spec fn display_cell(sq: Square, flipped: bool) -> (nat, nat) {
    if flipped {
        ((7 - sq.spec_file()) as nat, sq.spec_rank())
    } else {
        (sq.spec_file(), (7 - sq.spec_rank()) as nat)
    }
}

/// The square drawn in the cell at `col` from the left and `row` from the top,
/// if the cell is on the board.
pub open spec fn square_in_cell(col: nat, row: nat, flipped: bool) -> Option<Square> {
    if col >= 8 || row >= 8 {
        None
    } else if flipped {
        Some(Square { index: ((7 - col) + 8 * row) as u8 })
    } else {
        Some(Square { index: (col + 8 * (7 - row)) as u8 })
    }
}

/// The cell (column from the left, row from the top) in which `sq` is drawn.
pub fn cell_of_square(sq: Square, flipped: bool) -> (r: (u8, u8))
    requires
        sq.valid(),
    ensures
        (r.0 as nat, r.1 as nat) == display_cell(sq, flipped),
{
    let file = sq.index % 8;
    let rank = sq.index / 8;
    if flipped {
        (7 - file, rank)
    } else {
        (file, 7 - rank)
    }
}

/// The square drawn in the cell at `col` from the left and `row` from the top;
/// `None` off the board.
pub fn square_at_cell(col: u32, row: u32, flipped: bool) -> (r: Option<Square>)
    ensures
        r == square_in_cell(col as nat, row as nat, flipped),
        r matches Some(sq) ==> sq.valid(),
{
    if col >= 8 || row >= 8 {
        return None;
    }
    let c = col as u8;
    let w = row as u8;
    if flipped {
        Some(Square { index: (7 - c) + 8 * w })
    } else {
        Some(Square { index: c + 8 * (7 - w) })
    }
}

/// Every square is drawn in exactly one cell: the cell of a square holds that square.
pub proof fn law_cell_of_square_round_trip(sq: Square, flipped: bool)
    requires
        sq.valid(),
    ensures
        ({
            let (c, r) = display_cell(sq, flipped);
            square_in_cell(c, r, flipped) == Some(sq)
        }),
{
}

/// A cell on the board is the cell of the square it holds.
pub proof fn law_square_in_cell_round_trip(col: nat, row: nat, flipped: bool)
    requires
        col < 8,
        row < 8,
    ensures
        square_in_cell(col, row, flipped) matches Some(sq) && sq.valid() && display_cell(
            sq,
            flipped,
        ) == (col, row),
{
}

// ---------------------------------------------------------------------------
// UCI notation
// ---------------------------------------------------------------------------
/// The name of a square, e.g. `e4`.
pub open spec fn square_name(sq: Square) -> Seq<char> {
    seq![((97 + sq.spec_file()) as u32) as char, ((49 + sq.spec_rank()) as u32) as char]
}

/// The lower-case letter of a role (`p`, `n`, `b`, `r`, `q`, `k`).
pub open spec fn role_letter(r: Role) -> char {
    match r {
        Role::Pawn => 'p',
        Role::Knight => 'n',
        Role::Bishop => 'b',
        Role::Rook => 'r',
        Role::Queen => 'q',
        Role::King => 'k',
    }
}

/// Where the king lands when castling in standard chess: the g-file towards a rook
/// on its right, the c-file otherwise, on the king's rank.
pub open spec fn castle_target(king: Square, rook: Square) -> Square {
    let file: nat = if king.index < rook.index {
        6
    } else {
        2
    };
    Square { index: (file + 8 * king.spec_rank()) as u8 }
}

/// A move in UCI notation for standard chess: origin, target and promotion letter;
/// castling as the king's two-square step.
pub open spec fn uci_text(m: ChessMove) -> Seq<char> {
    if m.castle {
        square_name(m.from) + square_name(castle_target(m.from, m.to))
    } else {
        square_name(m.from) + square_name(m.to) + match m.promotion {
            Some(p) => seq![role_letter(p)],
            None => seq![],
        }
    }
}

fn push_square(out: &mut Vec<char>, sq: Square)
    requires
        sq.valid(),
    ensures
        final(out)@ == old(out)@ + square_name(sq),
{
    let f: char = (97u8 + sq.index % 8) as char;
    let r: char = (49u8 + sq.index / 8) as char;
    out.push(f);
    out.push(r);
}

fn letter(r: Role) -> (c: char)
    ensures
        c == role_letter(r),
{
    match r {
        Role::Pawn => 'p',
        Role::Knight => 'n',
        Role::Bishop => 'b',
        Role::Rook => 'r',
        Role::Queen => 'q',
        Role::King => 'k',
    }
}

/// Whether both squares of a move are on the board.
pub open spec fn move_valid(m: ChessMove) -> bool {
    m.from.valid() && m.to.valid()
}

impl ChessMove {
    /// The move in UCI notation (`e2e4`, `a7a8q`, `e1g1`), as sent to engines.
    pub fn to_uci(&self) -> (r: Vec<char>)
        requires
            move_valid(*self),
        ensures
            r@ == uci_text(*self),
    {
        let mut out: Vec<char> = Vec::new();
        push_square(&mut out, self.from);
        if self.castle {
            let file: u8 = if self.from.index < self.to.index {
                6
            } else {
                2
            };
            push_square(&mut out, Square { index: file + 8 * (self.from.index / 8) });
        } else {
            push_square(&mut out, self.to);
            match self.promotion {
                Some(p) => out.push(letter(p)),
                None => {},
            }
        }
        assert(out@ =~= uci_text(*self));
        out
    }
}

/// Castling is sent as the king's step of two squares along its rank towards the
/// rook: `e1g1` with the rook on the king's right, `e1c1` with the rook on its left
/// (and likewise on the eighth rank), for a king on the e-file as in standard chess.
pub proof fn law_castling_uci_king_step(m: ChessMove)
    requires
        m.castle,
        move_valid(m),
        m.from.spec_file() == 4,
        m.to.spec_rank() == m.from.spec_rank(),
    ensures
        m.to.index > m.from.index ==> uci_text(m) == square_name(m.from) + square_name(
            Square { index: (m.from.index + 2) as u8 },
        ),
        m.to.index < m.from.index ==> uci_text(m) == square_name(m.from) + square_name(
            Square { index: (m.from.index - 2) as u8 },
        ),
{
    let f = m.from.index;
    assert(f == 4 + 8 * (f / 8));
    if m.to.index > f {
        assert(castle_target(m.from, m.to) == Square { index: (f + 2) as u8 });
    }
    if m.to.index < f {
        assert(castle_target(m.from, m.to) == Square { index: (f - 2) as u8 });
    }
}

} // verus!
