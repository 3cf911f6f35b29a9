use vstd::prelude::*;
use crate::model::{cell, grid_wf, lemma_relocated_wf, move_on_board, BoardModel, Position};
use crate::piece::{
    blank_square, forward, initial_piece, is_pawn_of, on_board, starting_piece, with_piece, Epilogue, Move,
    MoveGenError, Piece, PieceType, Square,
};

verus! {

/// A position kept in the history: the squares and the side to move, with no
/// history of its own.
pub struct Snapshot {
    squares: Vec<Square>,
    turn: bool,
}

impl View for Snapshot {
    type V = Position;

    closed spec fn view(&self) -> Position {
        Position { squares: self.squares@, turn: self.turn }
    }
}

/// A chess board: an 8x8 grid in row-major order, the side to move, and one
/// snapshot per position reached.
pub struct Board {
    squares: Vec<Square>,
    turn: bool,
    history: Vec<Snapshot>,
}

impl View for Board {
    type V = BoardModel;

    closed spec fn view(&self) -> BoardModel {
        BoardModel {
            squares: self.squares@,
            turn: self.turn,
            history: self.history@.map_values(|s: Snapshot| s@),
        }
    }
}

/// The square expected at `(r, c)` of a freshly built grid.
pub open spec fn fresh_square(r: int, c: int, initial: bool) -> Square {
    with_piece(blank_square(r, c), if initial { initial_piece(r, c) } else { None })
}

/// A copy of a grid, square by square.
fn copy_grid(v: &Vec<Square>) -> (r: Vec<Square>)
    ensures
        r@ == v@,
{
    let mut r: Vec<Square> = Vec::new();
    let mut k: usize = 0;
    while k < v.len()
        invariant
            k <= v@.len(),
            r@ == v@.subrange(0, k as int),
        decreases v@.len() - k,
    {
        r.push(v[k]);
        k += 1;
        assert(r@ =~= v@.subrange(0, k as int));
    }
    assert(r@ =~= v@);
    r
}

/// Whether `p` is a pawn of the side `color`.
fn pawn_of(p: Option<Piece>, color: bool) -> (b: bool)
    ensures
        b == is_pawn_of(p, color),
{
    match p {
        Some(q) => q.kind == PieceType::Pawn && q.color == color,
        None => false,
    }
}

impl Board {
    /// The board's invariant: every grid has 64 squares that carry their own
    /// coordinates and display colors.
    pub open spec fn wf(&self) -> bool {
        self@.wf()
    }

    /// A grid of 64 squares, empty or in the starting arrangement.
    fn filled_grid(initial: bool) -> (v: Vec<Square>)
        ensures
            grid_wf(v@),
            forall|r: int, c: int|
                on_board(r, c) ==> #[trigger] v@[cell(r, c)] == fresh_square(r, c, initial),
    {
        let mut v: Vec<Square> = Vec::new();
        let mut r: usize = 0;
        while r < 8
            invariant
                r <= 8,
                v@.len() == cell(r as int, 0),
                forall|r2: int, c2: int|
                    0 <= r2 < r && 0 <= c2 < 8 ==> #[trigger] v@[cell(r2, c2)] == fresh_square(
                        r2,
                        c2,
                        initial,
                    ),
            decreases 8 - r,
        {
            let mut c: usize = 0;
            while c < 8
                invariant
                    r < 8,
                    c <= 8,
                    v@.len() == cell(r as int, c as int),
                    forall|r2: int, c2: int|
                        (0 <= r2 < r && 0 <= c2 < 8) || (r2 == r && 0 <= c2 < c)
                            ==> #[trigger] v@[cell(r2, c2)] == fresh_square(r2, c2, initial),
                decreases 8 - c,
            {
                let piece = if initial {
                    starting_piece(r, c)
                } else {
                    None
                };
                v.push(Square { piece, color: (r + c) % 2 == 0, pos: (r, c) });
                c += 1;
            }
            r += 1;
        }
        v
    }

    /// A board with no pieces, white to move, and an empty history.
    pub fn empty() -> (b: Board)
        ensures
            b.wf(),
            forall|r: int, c: int| on_board(r, c) ==> #[trigger] b@.at(r, c) == blank_square(r, c),
            b@.turn,
            b@.history.len() == 0,
    {
        let b = Board { squares: Self::filled_grid(false), turn: true, history: Vec::new() };
        assert(b@.history =~= Seq::<Position>::empty());
        b
    }

    /// The standard starting position, white to move, with itself as the
    /// first snapshot of its history.
    pub fn new() -> (b: Board)
        ensures
            b.wf(),
            forall|r: int, c: int|
                on_board(r, c) ==> #[trigger] b@.at(r, c) == with_piece(
                    blank_square(r, c),
                    initial_piece(r, c),
                ),
            b@.turn,
            b@.history == seq![b@.snapshot()],
    {
        let squares = Self::filled_grid(true);
        let snapshot = Snapshot { squares: copy_grid(&squares), turn: true };
        let mut history: Vec<Snapshot> = Vec::new();
        history.push(snapshot);
        let b = Board { squares, turn: true, history };
        assert(b@.history =~= seq![b@.snapshot()]);
        b
    }

    /// The square at `(r, c)`.
    pub fn square(&self, r: usize, c: usize) -> (s: Square)
        requires
            self.wf(),
            r < 8,
            c < 8,
        ensures
            s == self@.at(r as int, c as int),
    {
        self.squares[r * 8 + c]
    }

    /// The ray-step primitive: the move from `sq` by `mul` times the offset
    /// `move_const`, carrying the destination square as it stands now, or
    /// `None` when the destination lies off the board.
    pub fn create_move(&self, sq: Square, move_const: (i8, i8), mul: i8, special_req: Epilogue) -> (r:
        Option<Move>)
        requires
            self.wf(),
            sq.pos.0 < 8,
            sq.pos.1 < 8,
        ensures
            r == self@.step(sq, move_const, mul, special_req),
    {
        let dr = move_const.0 as i64;
        let dc = move_const.1 as i64;
        let m = mul as i64;
        assert(-16384 <= dr * m <= 16384) by (nonlinear_arith)
            requires
                -128 <= dr <= 127,
                -128 <= m <= 127,
        ;
        assert(-16384 <= dc * m <= 16384) by (nonlinear_arith)
            requires
                -128 <= dc <= 127,
                -128 <= m <= 127,
        ;
        let x: i64 = sq.pos.0 as i64 + dr * m;
        let y: i64 = sq.pos.1 as i64 + dc * m;
        if 0 <= x && x < 8 && 0 <= y && y < 8 {
            Some(Move { pos: sq, des: self.square(x as usize, y as usize), epilogue: special_req })
        } else {
            None
        }
    }

    /// Whether a pawn of the side to move on row `i` may capture en passant
    /// toward file `c`.
    fn en_passant_open(&self, i: usize, c: usize) -> (b: bool)
        requires
            self.wf(),
            i < 8,
            c < 8,
        ensures
            b == self@.en_passant_open(i as int, c as int),
    {
        if i != (if self.turn { 3 } else { 4 }) {
            return false;
        }
        if !pawn_of(self.square(i, c).piece, !self.turn) {
            return false;
        }
        let n = self.history.len();
        if n < 2 {
            return false;
        }
        let row: usize = if self.turn { 1 } else { 6 };
        if self.square(row, c).piece.is_some() {
            return false;
        }
        let snap = &self.history[n - 2];
        assert(self@.history[n - 2] == snap@);
        assert(grid_wf(self@.history[n - 2].squares));
        pawn_of(snap.squares[row * 8 + c].piece, !self.turn) && !pawn_of(
            snap.squares[i * 8 + c].piece,
            !self.turn,
        )
    }

    /// Appends the quiet step of `mul` squares forward for the pawn on `sq`.
    fn push_forward(&self, moves: &mut Vec<Move>, sq: Square, fwd: i8, mul: i8)
        requires
            self.wf(),
            sq.pos.0 < 8,
            sq.pos.1 < 8,
            sq == self@.at(sq.pos.0 as int, sq.pos.1 as int),
            fwd == forward(self@.turn),
            mul == 1 || mul == 2,
        ensures
            final(moves)@ == old(moves)@ + self@.forward_step(
                sq.pos.0 as int,
                sq.pos.1 as int,
                sq.pos.0 as int + fwd as int * mul as int,
            ),
    {
        if let Some(m) = self.create_move(sq, (fwd, 0), mul, Epilogue::Plain) {
            if m.des.piece.is_none() {
                moves.push(m);
            }
        }
        assert(final(moves)@ =~= old(moves)@ + self@.forward_step(
            sq.pos.0 as int,
            sq.pos.1 as int,
            sq.pos.0 as int + fwd as int * mul as int,
        ));
    }

    /// Appends the diagonal move toward file `sq.pos.1 + dc` for the pawn on
    /// `sq`, a capture or an en passant capture, if it is legal.
    fn push_diagonal(&self, moves: &mut Vec<Move>, sq: Square, fwd: i8, dc: i8)
        requires
            self.wf(),
            sq.pos.0 < 8,
            sq.pos.1 < 8,
            sq == self@.at(sq.pos.0 as int, sq.pos.1 as int),
            fwd == forward(self@.turn),
            dc == 1 || dc == -1,
        ensures
            final(moves)@ == old(moves)@ + self@.diagonal(
                sq.pos.0 as int,
                sq.pos.1 as int,
                sq.pos.1 as int + dc as int,
            ),
    {
        let i = sq.pos.0;
        if let Some(m) = self.create_move(sq, (fwd, dc), 1, Epilogue::Plain) {
            match m.des.piece {
                Some(q) => {
                    if q.color != self.turn {
                        moves.push(m);
                    }
                },
                None => {
                    let c = m.des.pos.1;
                    if self.en_passant_open(i, c) {
                        moves.push(
                            Move {
                                pos: m.pos,
                                des: m.des,
                                epilogue: Epilogue::EnPassantCapture { row: i, col: c },
                            },
                        );
                    }
                },
            }
        }
        assert(final(moves)@ =~= old(moves)@ + self@.diagonal(
            sq.pos.0 as int,
            sq.pos.1 as int,
            sq.pos.1 as int + dc as int,
        ));
    }

    /// The moves of the piece at `(i, j)`. An empty square or a piece of the
    /// side not to move yields no moves; a pawn of the side to move yields
    /// its single step, double step and diagonal captures in that order;
    /// other kinds, and a pawn on its farthest rank, are refused.
    pub fn get_moves(&self, i: usize, j: usize) -> (r: Result<Vec<Move>, MoveGenError>)
        requires
            self.wf(),
            i < 8,
            j < 8,
        ensures
            match r {
                Ok(v) => self@.moves(i as int, j as int) == Ok::<Seq<Move>, MoveGenError>(v@),
                Err(e) => self@.moves(i as int, j as int) == Err::<Seq<Move>, MoveGenError>(e),
            },
    {
        let sq = self.square(i, j);
        let p = match sq.piece {
            None => {
                return Ok(Vec::new());
            },
            Some(p) => p,
        };
        if p.color != self.turn {
            return Ok(Vec::new());
        }
        if p.kind != PieceType::Pawn {
            return Err(MoveGenError::Unsupported(p.kind));
        }
        if (p.color && i == 0) || (!p.color && i == 7) {
            return Err(MoveGenError::PawnOnLastRank);
        }
        let fwd: i8 = if p.color { -1 } else { 1 };
        let mut moves: Vec<Move> = Vec::new();
        self.push_forward(&mut moves, sq, fwd, 1);
        if i == (if p.color { 6 } else { 1 }) {
            self.push_forward(&mut moves, sq, fwd, 2);
        }
        let side: i8 = if p.color { 1 } else { -1 };
        self.push_diagonal(&mut moves, sq, fwd, side);
        self.push_diagonal(&mut moves, sq, fwd, -side);
        assert(moves@ =~= self@.pawn_moves(i as int, j as int));
        Ok(moves)
    }

    /// Applies `mv` without checking its legality: the occupant of the
    /// source square moves to the destination square, the source is
    /// cleared, the side to move flips, the epilogue runs, and a snapshot of
    /// the result is appended to the history.
    pub fn do_move(&mut self, mv: Move)
        requires
            old(self).wf(),
            move_on_board(mv),
        ensures
            final(self).wf(),
            final(self)@ == old(self)@.applied(mv),
    {
        let src = mv.pos.pos.0 * 8 + mv.pos.pos.1;
        let dst = mv.des.pos.0 * 8 + mv.des.pos.1;
        let moving = self.squares[src].piece;
        let d = self.squares[dst];
        self.squares.set(dst, Square { piece: moving, color: d.color, pos: d.pos });
        let s = self.squares[src];
        self.squares.set(src, Square { piece: None, color: s.color, pos: s.pos });
        self.turn = !self.turn;
        match mv.epilogue {
            Epilogue::Plain => {},
            Epilogue::EnPassantCapture { row, col } => {
                let k = row * 8 + col;
                let t = self.squares[k];
                self.squares.set(k, Square { piece: None, color: t.color, pos: t.pos });
            },
        }
        let snapshot = Snapshot { squares: copy_grid(&self.squares), turn: self.turn };
        self.history.push(snapshot);
        assert(self@.squares =~= old(self)@.relocated(mv));
        assert(self@.history =~= old(self)@.history.push(
            Position { squares: self@.squares, turn: self@.turn },
        ));
        proof {
            lemma_relocated_wf(old(self)@, mv);
        }
    }

    /// The side to move: `true` for white.
    pub fn turn(&self) -> (t: bool)
        ensures
            t == self@.turn,
    {
        self.turn
    }

    /// The number of snapshots in the history.
    pub fn history_len(&self) -> (n: usize)
        ensures
            n == self@.history.len(),
    {
        self.history.len()
    }

    /// The side to move in snapshot `k` of the history.
    pub fn history_turn(&self, k: usize) -> (t: bool)
        requires
            k < self@.history.len(),
        ensures
            t == self@.history[k as int].turn,
    {
        self.history[k].turn
    }

    /// The square at `(r, c)` in snapshot `k` of the history.
    pub fn history_square(&self, k: usize, r: usize, c: usize) -> (s: Square)
        requires
            self.wf(),
            k < self@.history.len(),
            r < 8,
            c < 8,
        ensures
            s == self@.history[k as int].squares[cell(r as int, c as int)],
    {
        assert(grid_wf(self@.history[k as int].squares));
        self.history[k].squares[r * 8 + c]
    }
}

} // verus!
