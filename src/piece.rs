use vstd::prelude::*;

verus! {

/// The six kinds of chess piece.
#[derive(Clone, Copy, Debug, PartialEq, Eq, Structural)]
pub enum PieceType {
    Pawn,
    Knight,
    Bishop,
    Rook,
    Queen,
    King,
}

/// A piece: its kind and its side (`true` is white, which moves first and
/// advances toward row 0).
#[derive(Clone, Copy, Debug, PartialEq, Eq, Structural)]
pub struct Piece {
    pub kind: PieceType,
    pub color: bool,
}

/// One cell of the board: its occupant, its display color and its own
/// coordinate `(row, col)`.
#[derive(Clone, Copy, Debug, PartialEq, Eq)]
pub struct Square {
    pub piece: Option<Piece>,
    pub color: bool,
    pub pos: (usize, usize),
}

/// Extra board mutation that a move performs after relocating its piece.
#[derive(Clone, Copy, Debug, PartialEq, Eq, Structural)]
pub enum Epilogue {
    /// Nothing beyond the relocation.
    Plain,
    /// An en passant capture: the enemy pawn at `(row, col)` is removed.
    EnPassantCapture { row: usize, col: usize },
}

/// A move: the source and destination squares as they were when the move
/// was generated, and what happens after the relocation.
#[derive(Clone, Copy, Debug, PartialEq, Eq)]
pub struct Move {
    pub pos: Square,
    pub des: Square,
    pub epilogue: Epilogue,
}

/// Why move generation refused a request.
#[derive(Clone, Copy, Debug, PartialEq, Eq, Structural)]
pub enum MoveGenError {
    /// Generation for this kind of piece is not implemented.
    Unsupported(PieceType),
    /// A pawn stands on the farthest rank in its direction of advance,
    /// which play never reaches since promotion is not modelled.
    PawnOnLastRank,
}

/// The row change of one step forward for a side.
pub open spec fn forward(color: bool) -> int {
    if color { -1 } else { 1 }
}

/// The rank on which a side's pawns start.
pub open spec fn start_rank(color: bool) -> int {
    if color { 6 } else { 1 }
}

/// The farthest rank in a side's direction of advance.
pub open spec fn last_rank(color: bool) -> int {
    if color { 0 } else { 7 }
}

/// The rank from which a side's pawns may capture en passant: the rank on
/// which an enemy pawn lands after its double step.
pub open spec fn en_passant_rank(color: bool) -> int {
    if color { 3 } else { 4 }
}

/// Whether `(r, c)` lies on the board.
pub open spec fn on_board(r: int, c: int) -> bool {
    0 <= r < 8 && 0 <= c < 8
}

/// The display color of the square at `(r, c)`.
pub open spec fn shade(r: int, c: int) -> bool {
    (r + c) % 2 == 0
}

/// An unoccupied square at `(r, c)`.
pub open spec fn blank_square(r: int, c: int) -> Square {
    Square { piece: None, color: shade(r, c), pos: (r as usize, c as usize) }
}

/// `s` with its occupant replaced by `p`.
pub open spec fn with_piece(s: Square, p: Option<Piece>) -> Square {
    Square { piece: p, color: s.color, pos: s.pos }
}

/// Whether `p` is a pawn of the side `color`.
pub open spec fn is_pawn_of(p: Option<Piece>, color: bool) -> bool {
    match p {
        Some(q) => q.kind == PieceType::Pawn && q.color == color,
        None => false,
    }
}

/// The piece that stands at `(r, c)` in the starting arrangement.
pub open spec fn initial_piece(r: int, c: int) -> Option<Piece> {
    if r == 0 || r == 7 {
        Some(Piece { kind: back_rank_kind(c), color: r == 7 })
    } else if r == 1 || r == 6 {
        Some(Piece { kind: PieceType::Pawn, color: r == 6 })
    } else {
        None
    }
}

/// The kind of piece on file `c` of a back rank at the start.
pub open spec fn back_rank_kind(c: int) -> PieceType {
    if c == 0 || c == 7 {
        PieceType::Rook
    } else if c == 1 || c == 6 {
        PieceType::Knight
    } else if c == 2 || c == 5 {
        PieceType::Bishop
    } else if c == 3 {
        PieceType::Queen
    } else {
        PieceType::King
    }
}

/// The piece that stands at `(r, c)` in the starting arrangement.
pub fn starting_piece(r: usize, c: usize) -> (p: Option<Piece>)
    requires
        r < 8,
        c < 8,
    ensures
        p == initial_piece(r as int, c as int),
{
    if r == 0 || r == 7 {
        let kind = if c == 0 || c == 7 {
            PieceType::Rook
        } else if c == 1 || c == 6 {
            PieceType::Knight
        } else if c == 2 || c == 5 {
            PieceType::Bishop
        } else if c == 3 {
            PieceType::Queen
        } else {
            PieceType::King
        };
        Some(Piece { kind, color: r == 7 })
    } else if r == 1 || r == 6 {
        Some(Piece { kind: PieceType::Pawn, color: r == 6 })
    } else {
        None
    }
}

} // verus!
