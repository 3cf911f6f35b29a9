use vstd::prelude::*;
use crate::piece::{
    en_passant_rank, forward, is_pawn_of, last_rank, on_board, shade, start_rank, with_piece,
    Epilogue, Move, MoveGenError, PieceType, Square,
};

verus! {

/// A position without its history: 64 squares in row-major order and the
/// side to move.
pub ghost struct Position {
    pub squares: Seq<Square>,
    pub turn: bool,
}

/// The mathematical model of a board: the current squares, the side to move,
/// and the snapshots taken so far, oldest first.
pub ghost struct BoardModel {
    pub squares: Seq<Square>,
    pub turn: bool,
    pub history: Seq<Position>,
}

/// The index of `(r, c)` in a row-major grid.
pub open spec fn cell(r: int, c: int) -> int {
    r * 8 + c
}

/// A grid of 64 squares, each carrying its own coordinate and display color.
pub open spec fn grid_wf(s: Seq<Square>) -> bool {
    &&& s.len() == 64
    &&& forall|r: int, c: int|
        #![trigger s[cell(r, c)]]
        on_board(r, c) ==> s[cell(r, c)].pos == (r as usize, c as usize) && s[cell(r, c)].color
            == shade(r, c)
}

/// A move with no epilogue.
pub open spec fn plain_move(from: Square, to: Square) -> Move {
    Move { pos: from, des: to, epilogue: Epilogue::Plain }
}

impl BoardModel {
    pub open spec fn wf(self) -> bool {
        &&& grid_wf(self.squares)
        &&& forall|k: int| 0 <= k < self.history.len() ==> grid_wf(#[trigger] self.history[k].squares)
    }

    /// The square at `(r, c)`.
    pub open spec fn at(self, r: int, c: int) -> Square {
        self.squares[cell(r, c)]
    }

    /// The current position, without history.
    pub open spec fn snapshot(self) -> Position {
        Position { squares: self.squares, turn: self.turn }
    }

    /// The move that the ray-step primitive builds: from `sq`, `mul` times the
    /// offset `d`, if the destination lies on the board.
    pub open spec fn step(self, sq: Square, d: (i8, i8), mul: i8, ep: Epilogue) -> Option<Move> {
        let r = sq.pos.0 as int + d.0 as int * mul as int;
        let c = sq.pos.1 as int + d.1 as int * mul as int;
        if on_board(r, c) {
            Some(Move { pos: sq, des: self.at(r, c), epilogue: ep })
        } else {
            None
        }
    }

    /// The quiet pawn move from `(i, j)` to `(r, j)`, if that square is on the
    /// board and unoccupied.
    pub open spec fn forward_step(self, i: int, j: int, r: int) -> Seq<Move> {
        if on_board(r, j) && self.at(r, j).piece is None {
            seq![plain_move(self.at(i, j), self.at(r, j))]
        } else {
            seq![]
        }
    }

    /// Whether a pawn of the side to move on row `i` may capture en passant
    /// toward file `c`: it stands on its en passant rank, an enemy pawn stands
    /// beside it on file `c` that was not there before the last move, and the
    /// last move emptied that file of the enemy's starting rank, where an
    /// enemy pawn stood before it.
    pub open spec fn en_passant_open(self, i: int, c: int) -> bool {
        let start = cell(start_rank(!self.turn), c);
        &&& i == en_passant_rank(self.turn)
        &&& is_pawn_of(self.at(i, c).piece, !self.turn)
        &&& self.squares[start].piece is None
        &&& self.history.len() >= 2
        &&& is_pawn_of(self.history[self.history.len() - 2].squares[start].piece, !self.turn)
        &&& !is_pawn_of(self.history[self.history.len() - 2].squares[cell(i, c)].piece, !self.turn)
    }

    /// The diagonal pawn move from `(i, j)` toward file `c`: a capture when an
    /// enemy piece stands there, an en passant capture when the square is
    /// empty and the en passant conditions hold.
    pub open spec fn diagonal(self, i: int, j: int, c: int) -> Seq<Move> {
        let r = i + forward(self.turn);
        if !on_board(r, c) {
            seq![]
        } else {
            match self.at(r, c).piece {
                Some(q) => if q.color != self.turn {
                    seq![plain_move(self.at(i, j), self.at(r, c))]
                } else {
                    seq![]
                },
                None => if self.en_passant_open(i, c) {
                    seq![
                        Move {
                            pos: self.at(i, j),
                            des: self.at(r, c),
                            epilogue: Epilogue::EnPassantCapture { row: i as usize, col: c as usize },
                        },
                    ]
                } else {
                    seq![]
                },
            }
        }
    }

    /// The file offset of the first diagonal a side's pawn probes.
    pub open spec fn first_side(self) -> int {
        if self.turn { 1 } else { -1 }
    }

    /// The moves of the pawn of the side to move at `(i, j)`, in order: the
    /// single step, the double step, then the two diagonals.
    pub open spec fn pawn_moves(self, i: int, j: int) -> Seq<Move> {
        let f = forward(self.turn);
        let s = self.first_side();
        self.forward_step(i, j, i + f) + (if i == start_rank(self.turn) {
            self.forward_step(i, j, i + 2 * f)
        } else {
            seq![]
        }) + self.diagonal(i, j, j + s) + self.diagonal(i, j, j - s)
    }

    /// What move generation yields for the square `(i, j)`.
    pub open spec fn moves(self, i: int, j: int) -> Result<Seq<Move>, MoveGenError> {
        match self.at(i, j).piece {
            None => Ok(seq![]),
            Some(p) => if p.color != self.turn {
                Ok(seq![])
            } else if p.kind != PieceType::Pawn {
                Err(MoveGenError::Unsupported(p.kind))
            } else if i == last_rank(self.turn) {
                Err(MoveGenError::PawnOnLastRank)
            } else {
                Ok(self.pawn_moves(i, j))
            },
        }
    }

    /// The squares after `mv` is applied: the source's occupant goes to the
    /// destination, the source is cleared, then the epilogue runs.
    pub open spec fn relocated(self, mv: Move) -> Seq<Square> {
        let src = cell(mv.pos.pos.0 as int, mv.pos.pos.1 as int);
        let dst = cell(mv.des.pos.0 as int, mv.des.pos.1 as int);
        let moved = self.squares.update(dst, with_piece(self.squares[dst], self.squares[src].piece));
        let cleared = moved.update(src, with_piece(moved[src], None));
        match mv.epilogue {
            Epilogue::Plain => cleared,
            Epilogue::EnPassantCapture { row, col } => {
                let k = cell(row as int, col as int);
                cleared.update(k, with_piece(cleared[k], None))
            },
        }
    }

    /// The board after `mv` is applied: relocated squares, the other side to
    /// move, and a snapshot of the result appended to the history.
    pub open spec fn applied(self, mv: Move) -> BoardModel {
        let s = self.relocated(mv);
        BoardModel {
            squares: s,
            turn: !self.turn,
            history: self.history.push(Position { squares: s, turn: !self.turn }),
        }
    }
}

/// Whether every coordinate a move names lies on the board.
pub open spec fn move_on_board(mv: Move) -> bool {
    &&& on_board(mv.pos.pos.0 as int, mv.pos.pos.1 as int)
    &&& on_board(mv.des.pos.0 as int, mv.des.pos.1 as int)
    &&& match mv.epilogue {
        Epilogue::Plain => true,
        Epilogue::EnPassantCapture { row, col } => on_board(row as int, col as int),
    }
}

/// Applying a move keeps the grid well formed: only occupants change.
pub proof fn lemma_relocated_wf(b: BoardModel, mv: Move)
    requires
        b.wf(),
        move_on_board(mv),
    ensures
        b.applied(mv).wf(),
{
    let s = b.relocated(mv);
    assert forall|r: int, c: int| #![trigger s[cell(r, c)]] on_board(r, c) implies s[cell(r, c)].pos
        == (r as usize, c as usize) && s[cell(r, c)].color == shade(r, c) by {
        assert(b.squares[cell(r, c)].pos == (r as usize, c as usize));
    }
    let a = b.applied(mv);
    assert forall|k: int| 0 <= k < a.history.len() implies grid_wf(#[trigger] a.history[k].squares) by {
        if k < b.history.len() {
            assert(a.history[k] == b.history[k]);
        }
    }
}

} // verus!
