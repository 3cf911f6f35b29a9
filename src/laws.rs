use vstd::prelude::*;
use crate::model::{cell, lemma_relocated_wf, move_on_board, plain_move, BoardModel};
use crate::piece::{
    forward, is_pawn_of, last_rank, on_board, start_rank, Epilogue, Move, MoveGenError, PieceType,
};

verus! {

/// The moves generated at `(i, j)`, when generation succeeds.
pub open spec fn generated(b: BoardModel, i: int, j: int) -> Seq<Move> {
    b.moves(i, j)->Ok_0
}

/// An empty square, or one held by a piece of the side not to move, yields
/// no moves.
pub proof fn lemma_idle_square_yields_nothing(b: BoardModel, i: int, j: int)
    requires
        b.wf(),
        on_board(i, j),
        match b.at(i, j).piece {
            None => true,
            Some(p) => p.color != b.turn,
        },
    ensures
        b.moves(i, j) == Ok::<Seq<Move>, MoveGenError>(seq![]),
{
}

/// Generation for a knight, bishop, rook, queen or king of the side to move
/// is refused, never answered with a list.
pub proof fn lemma_other_kinds_refused(b: BoardModel, i: int, j: int)
    requires
        b.wf(),
        on_board(i, j),
        b.at(i, j).piece is Some,
        b.at(i, j).piece->0.color == b.turn,
        b.at(i, j).piece->0.kind != PieceType::Pawn,
    ensures
        b.moves(i, j) == Err::<Seq<Move>, MoveGenError>(
            MoveGenError::Unsupported(b.at(i, j).piece->0.kind),
        ),
{
}

/// The shape every generated move from `(i, j)` has: it starts on the
/// requested square, ends on the board one or two rows ahead in the mover's
/// direction and at most one file aside, and carries an en passant epilogue
/// only for the square beside the mover on the destination's file.
pub open spec fn well_shaped(b: BoardModel, i: int, j: int, mv: Move) -> bool {
    let r = mv.des.pos.0 as int;
    let c = mv.des.pos.1 as int;
    &&& mv.pos == b.at(i, j)
    &&& on_board(r, c)
    &&& mv.des == b.at(r, c)
    &&& r == i + forward(b.turn) || r == i + 2 * forward(b.turn)
    &&& c == j - 1 || c == j || c == j + 1
    &&& match mv.epilogue {
        Epilogue::Plain => true,
        Epilogue::EnPassantCapture { row, col } => row == i && col == c && c != j
            && b.en_passant_open(i, c),
    }
}

/// Every move of `ms` is well shaped.
pub open spec fn all_well_shaped(b: BoardModel, i: int, j: int, ms: Seq<Move>) -> bool {
    forall|k: int| 0 <= k < ms.len() ==> well_shaped(b, i, j, #[trigger] ms[k])
}

proof fn lemma_concat_well_shaped(b: BoardModel, i: int, j: int, xs: Seq<Move>, ys: Seq<Move>)
    requires
        all_well_shaped(b, i, j, xs),
        all_well_shaped(b, i, j, ys),
    ensures
        all_well_shaped(b, i, j, xs + ys),
{
    assert forall|k: int| 0 <= k < (xs + ys).len() implies well_shaped(b, i, j, #[trigger] (xs
        + ys)[k]) by {
        if k < xs.len() {
            assert((xs + ys)[k] == xs[k]);
        } else {
            assert((xs + ys)[k] == ys[k - xs.len()]);
        }
    }
}

/// Every generated move is well shaped.
pub proof fn lemma_generated_moves_shape(b: BoardModel, i: int, j: int)
    requires
        b.wf(),
        on_board(i, j),
        b.moves(i, j) is Ok,
    ensures
        all_well_shaped(b, i, j, generated(b, i, j)),
{
    let f = forward(b.turn);
    let s = b.first_side();
    let a = b.forward_step(i, j, i + f);
    let d = if i == start_rank(b.turn) {
        b.forward_step(i, j, i + 2 * f)
    } else {
        seq![]
    };
    let e = b.diagonal(i, j, j + s);
    let g = b.diagonal(i, j, j - s);
    assert(all_well_shaped(b, i, j, a)) by {
        if on_board(i + f, j) {
            assert(b.at(i + f, j) == b.squares[cell(i + f, j)]);
        }
    }
    assert(all_well_shaped(b, i, j, d)) by {
        if on_board(i + 2 * f, j) {
            assert(b.at(i + 2 * f, j) == b.squares[cell(i + 2 * f, j)]);
        }
    }
    assert(all_well_shaped(b, i, j, e)) by {
        if on_board(i + f, j + s) {
            assert(b.at(i + f, j + s) == b.squares[cell(i + f, j + s)]);
        }
    }
    assert(all_well_shaped(b, i, j, g)) by {
        if on_board(i + f, j - s) {
            assert(b.at(i + f, j - s) == b.squares[cell(i + f, j - s)]);
        }
    }
    lemma_concat_well_shaped(b, i, j, a, d);
    lemma_concat_well_shaped(b, i, j, a + d, e);
    lemma_concat_well_shaped(b, i, j, a + d + e, g);
    if b.at(i, j).piece is Some && b.at(i, j).piece->0.color == b.turn {
        assert(generated(b, i, j) == a + d + e + g);
    } else {
        assert(generated(b, i, j) =~= seq![]);
    }
}

/// A forward step, single or double, only ever lands on an unoccupied
/// square; a move that keeps its file is such a step.
pub proof fn lemma_forward_steps_land_on_empty(b: BoardModel, i: int, j: int)
    requires
        b.wf(),
        on_board(i, j),
        b.moves(i, j) is Ok,
    ensures
        forall|k: int|
            #![trigger generated(b, i, j)[k]]
            0 <= k < generated(b, i, j).len() && generated(b, i, j)[k].des.pos.1 as int == j
                ==> generated(b, i, j)[k].des.piece is None,
{
}

/// The double step is only offered from the mover's starting rank.
pub proof fn lemma_double_step_from_start_rank(b: BoardModel, i: int, j: int)
    requires
        b.wf(),
        on_board(i, j),
        b.moves(i, j) is Ok,
    ensures
        forall|k: int|
            #![trigger generated(b, i, j)[k]]
            0 <= k < generated(b, i, j).len() && generated(b, i, j)[k].des.pos.0 as int == i + 2
                * forward(b.turn) ==> i == start_rank(b.turn),
{
}

/// Whether some move of `ms` lands on `(r, c)`.
pub open spec fn lands_on(ms: Seq<Move>, r: int, c: int) -> bool {
    exists|k: int| 0 <= k < ms.len() && (#[trigger] ms[k]).des.pos == (r as usize, c as usize)
}

proof fn lemma_lands_on_concat(xs: Seq<Move>, ys: Seq<Move>, r: int, c: int)
    ensures
        lands_on(xs + ys, r, c) == (lands_on(xs, r, c) || lands_on(ys, r, c)),
{
    if lands_on(xs + ys, r, c) {
        let k = choose|k: int|
            0 <= k < (xs + ys).len() && (#[trigger] (xs + ys)[k]).des.pos == (r as usize, c as usize);
        if k < xs.len() {
            assert(xs[k] == (xs + ys)[k]);
        } else {
            assert(ys[k - xs.len()] == (xs + ys)[k]);
        }
    }
    if lands_on(xs, r, c) {
        let k = choose|k: int| 0 <= k < xs.len() && (#[trigger] xs[k]).des.pos == (r as usize, c as usize);
        assert((xs + ys)[k] == xs[k]);
    }
    if lands_on(ys, r, c) {
        let k = choose|k: int| 0 <= k < ys.len() && (#[trigger] ys[k]).des.pos == (r as usize, c as usize);
        assert((xs + ys)[k + xs.len()] == ys[k]);
    }
}

proof fn lemma_lands_on_single(mv: Move, r: int, c: int)
    ensures
        lands_on(seq![mv], r, c) == (mv.des.pos == (r as usize, c as usize)),
{
    if mv.des.pos == (r as usize, c as usize) {
        assert(seq![mv][0] == mv);
    }
}

/// Whether the diagonal square `(r, c)` admits a capture by the side to move:
/// it holds an enemy piece, or it is empty and the en passant conditions
/// hold for the pawn on row `i`.
pub open spec fn capture_allowed(b: BoardModel, i: int, r: int, c: int) -> bool {
    match b.at(r, c).piece {
        Some(q) => q.color != b.turn,
        None => b.en_passant_open(i, c),
    }
}

/// For a pawn of the side to move, a diagonal move onto a square one row
/// ahead and one file aside is offered exactly when that square holds an
/// enemy piece, or is empty and an enemy pawn beside the mover double-stepped
/// on the last move.
pub proof fn lemma_diagonal_offered_iff(b: BoardModel, i: int, j: int, c: int)
    requires
        b.wf(),
        on_board(i, j),
        is_pawn_of(b.at(i, j).piece, b.turn),
        i != last_rank(b.turn),
        c == j + 1 || c == j - 1,
        on_board(i + forward(b.turn), c),
    ensures
        b.moves(i, j) is Ok,
        lands_on(generated(b, i, j), i + forward(b.turn), c) == capture_allowed(
            b,
            i,
            i + forward(b.turn),
            c,
        ),
{
    let f = forward(b.turn);
    let s = b.first_side();
    let r = i + f;
    let a = b.forward_step(i, j, i + f);
    let d = if i == start_rank(b.turn) {
        b.forward_step(i, j, i + 2 * f)
    } else {
        seq![]
    };
    let e = b.diagonal(i, j, j + s);
    let g = b.diagonal(i, j, j - s);
    assert(generated(b, i, j) == a + d + e + g);
    lemma_lands_on_concat(a, d, r, c);
    lemma_lands_on_concat(a + d, e, r, c);
    lemma_lands_on_concat(a + d + e, g, r, c);
    assert(!lands_on(a, r, c)) by {
        if on_board(i + f, j) && b.at(i + f, j).piece is None {
            assert(b.at(i + f, j) == b.squares[cell(i + f, j)]);
            lemma_lands_on_single(plain_move(b.at(i, j), b.at(i + f, j)), r, c);
        }
    }
    assert(!lands_on(d, r, c)) by {
        if i == start_rank(b.turn) && on_board(i + 2 * f, j) && b.at(i + 2 * f, j).piece is None {
            assert(b.at(i + 2 * f, j) == b.squares[cell(i + 2 * f, j)]);
            lemma_lands_on_single(plain_move(b.at(i, j), b.at(i + 2 * f, j)), r, c);
        }
    }
    assert(b.at(r, c) == b.squares[cell(r, c)]);
    let other = if c == j + s {
        j - s
    } else {
        j + s
    };
    let here = b.diagonal(i, j, c);
    let there = b.diagonal(i, j, other);
    assert(lands_on(here, r, c) == capture_allowed(b, i, r, c)) by {
        if here.len() == 1 {
            lemma_lands_on_single(here[0], r, c);
            assert(here =~= seq![here[0]]);
        }
    }
    assert(!lands_on(there, r, c)) by {
        if there.len() == 1 {
            assert(on_board(r, other));
            assert(b.at(r, other) == b.squares[cell(r, other)]);
            lemma_lands_on_single(there[0], r, c);
            assert(there =~= seq![there[0]]);
        }
    }
}

/// Applying a generated move hands the turn to the other side and appends
/// exactly one snapshot, of the resulting position, to the history; the
/// earlier snapshots stay as they were.
pub proof fn lemma_apply_generated(b: BoardModel, i: int, j: int, k: int)
    requires
        b.wf(),
        on_board(i, j),
        b.moves(i, j) is Ok,
        0 <= k < generated(b, i, j).len(),
    ensures
        move_on_board(generated(b, i, j)[k]),
        b.applied(generated(b, i, j)[k]).wf(),
        b.applied(generated(b, i, j)[k]).turn == !b.turn,
        b.applied(generated(b, i, j)[k]).history.len() == b.history.len() + 1,
        b.applied(generated(b, i, j)[k]).history.last() == b.applied(
            generated(b, i, j)[k],
        ).snapshot(),
        b.applied(generated(b, i, j)[k]).history.drop_last() == b.history,
{
    lemma_generated_moves_shape(b, i, j);
    let mv = generated(b, i, j)[k];
    assert(well_shaped(b, i, j, mv));
    lemma_relocated_wf(b, mv);
    assert(b.applied(mv).history.drop_last() =~= b.history);
}

/// An en passant capture removes the moving pawn from its square and the
/// passed-over enemy pawn from the square beside it, and leaves the mover
/// alone on the diagonal destination.
pub proof fn lemma_en_passant_execution(b: BoardModel, i: int, j: int, k: int)
    requires
        b.wf(),
        on_board(i, j),
        b.moves(i, j) is Ok,
        0 <= k < generated(b, i, j).len(),
        generated(b, i, j)[k].epilogue is EnPassantCapture,
    ensures
        ({
            let mv = generated(b, i, j)[k];
            let r = mv.des.pos.0 as int;
            let c = mv.des.pos.1 as int;
            let a = b.applied(mv);
            &&& r == i + forward(b.turn)
            &&& c == j - 1 || c == j + 1
            &&& mv.epilogue == (Epilogue::EnPassantCapture { row: i as usize, col: c as usize })
            &&& is_pawn_of(b.at(i, c).piece, !b.turn)
            &&& b.at(r, c).piece is None
            &&& a.at(i, j).piece is None
            &&& a.at(i, c).piece is None
            &&& a.at(r, c).piece == b.at(i, j).piece
        }),
{
    lemma_generated_moves_shape(b, i, j);
    let mv = generated(b, i, j)[k];
    assert(well_shaped(b, i, j, mv));
    let r = mv.des.pos.0 as int;
    let c = mv.des.pos.1 as int;
    assert(b.at(i, j) == b.squares[cell(i, j)]);
    assert(b.at(r, c) == b.squares[cell(r, c)]);
    assert(b.at(r, c).piece is None);
}

/// Generation reads the board only: the same board and square always give
/// the same answer.
pub proof fn lemma_generation_deterministic(b1: BoardModel, b2: BoardModel, i: int, j: int)
    requires
        b1 == b2,
    ensures
        b1.moves(i, j) == b2.moves(i, j),
{
}

} // verus!
