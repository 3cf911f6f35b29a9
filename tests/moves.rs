use chess_core::{Board, Epilogue, Move, MoveGenError, Piece, PieceType};

fn moves_at(board: &Board, i: usize, j: usize) -> Vec<Move> {
    board.get_moves(i, j).expect("generation refused")
}

fn play(board: &mut Board, i: usize, j: usize, index: usize) {
    let moves = moves_at(board, i, j);
    board.do_move(moves[index]);
}

fn dest(m: &Move) -> (usize, usize) {
    m.des.pos
}

fn pawn(color: bool) -> Option<Piece> {
    Some(Piece { kind: PieceType::Pawn, color })
}

#[test]
fn new_board_starting_arrangement() {
    let b = Board::new();
    let back = [
        PieceType::Rook,
        PieceType::Knight,
        PieceType::Bishop,
        PieceType::Queen,
        PieceType::King,
        PieceType::Bishop,
        PieceType::Knight,
        PieceType::Rook,
    ];
    for c in 0..8 {
        assert_eq!(b.square(0, c).piece, Some(Piece { kind: back[c], color: false }));
        assert_eq!(b.square(7, c).piece, Some(Piece { kind: back[c], color: true }));
        assert_eq!(b.square(1, c).piece, pawn(false));
        assert_eq!(b.square(6, c).piece, pawn(true));
        for r in 2..6 {
            assert_eq!(b.square(r, c).piece, None);
        }
    }
    assert!(b.turn());
    assert_eq!(b.history_len(), 1);
    assert!(b.history_turn(0));
    for r in 0..8 {
        for c in 0..8 {
            assert_eq!(b.history_square(0, r, c), b.square(r, c));
        }
    }
}

#[test]
fn empty_board_has_derived_squares() {
    let b = Board::empty();
    for r in 0..8 {
        for c in 0..8 {
            let s = b.square(r, c);
            assert_eq!(s.piece, None);
            assert_eq!(s.pos, (r, c));
            assert_eq!(s.color, (r + c) % 2 == 0);
        }
    }
    assert!(b.turn());
    assert_eq!(b.history_len(), 0);
}

#[test]
fn idle_squares_yield_no_moves() {
    let b = Board::new();
    for r in 0..8 {
        for c in 0..8 {
            let s = b.square(r, c);
            let idle = match s.piece {
                None => true,
                Some(p) => p.color != b.turn(),
            };
            if idle {
                assert_eq!(b.get_moves(r, c), Ok(Vec::new()));
            }
        }
    }
    let e = Board::empty();
    assert_eq!(e.get_moves(3, 3), Ok(Vec::new()));
}

#[test]
fn scenario_a_opening_pawn_moves() {
    let b = Board::new();
    let moves = moves_at(&b, 6, 0);
    assert_eq!(moves.len(), 2);
    assert_eq!(dest(&moves[0]), (5, 0));
    assert_eq!(dest(&moves[1]), (4, 0));
    for m in &moves {
        assert_eq!(m.pos, b.square(6, 0));
        assert_eq!(m.epilogue, Epilogue::Plain);
        assert_eq!(m.des.piece, None);
    }
}

#[test]
fn scenario_b_other_pawn_keeps_double_step() {
    let mut b = Board::new();
    let moves = moves_at(&b, 6, 0);
    b.do_move(moves[1]);
    assert_eq!(b.square(4, 0).piece, pawn(true));
    // Black is to move now, so white's pawns offer nothing.
    assert_eq!(b.get_moves(6, 1), Ok(Vec::new()));
    play(&mut b, 1, 7, 0);
    let moves = moves_at(&b, 6, 1);
    assert!(moves.iter().any(|m| dest(m) == (4, 1)));
}

#[test]
fn scenario_c_en_passant_offered_and_applied() {
    let mut b = Board::new();
    play(&mut b, 6, 7, 0);
    play(&mut b, 1, 1, 1);
    play(&mut b, 5, 7, 0);
    play(&mut b, 3, 1, 0);
    play(&mut b, 6, 0, 1);
    assert_eq!(b.square(4, 0).piece, pawn(true));
    assert_eq!(b.square(4, 1).piece, pawn(false));
    assert!(!b.turn());
    let moves = moves_at(&b, 4, 1);
    assert_eq!(moves.len(), 2);
    assert_eq!(dest(&moves[0]), (5, 1));
    assert_eq!(moves[0].epilogue, Epilogue::Plain);
    let ep = moves[1];
    assert_eq!(dest(&ep), (5, 0));
    assert_eq!(ep.epilogue, Epilogue::EnPassantCapture { row: 4, col: 0 });
    let before = b.history_len();
    b.do_move(ep);
    assert_eq!(b.square(4, 0).piece, None);
    assert_eq!(b.square(4, 1).piece, None);
    assert_eq!(b.square(5, 0).piece, pawn(false));
    assert!(b.turn());
    assert_eq!(b.history_len(), before + 1);
}

#[test]
fn en_passant_expires_after_one_ply() {
    let mut b = Board::new();
    play(&mut b, 6, 7, 0);
    play(&mut b, 1, 1, 1);
    play(&mut b, 5, 7, 0);
    play(&mut b, 3, 1, 0);
    play(&mut b, 6, 0, 1);
    play(&mut b, 1, 7, 0);
    play(&mut b, 6, 6, 0);
    let moves = moves_at(&b, 4, 1);
    assert_eq!(moves.len(), 1);
    assert_eq!(dest(&moves[0]), (5, 1));
}

#[test]
fn scenario_d_other_kinds_refused() {
    let b = Board::new();
    let expected = [
        (7, 0, PieceType::Rook),
        (7, 1, PieceType::Knight),
        (7, 2, PieceType::Bishop),
        (7, 3, PieceType::Queen),
        (7, 4, PieceType::King),
    ];
    for (r, c, kind) in expected {
        assert_eq!(b.get_moves(r, c), Err(MoveGenError::Unsupported(kind)));
    }
}

#[test]
fn diagonal_capture_of_enemy_piece() {
    let mut b = Board::new();
    play(&mut b, 6, 0, 1);
    play(&mut b, 1, 1, 1);
    let moves = moves_at(&b, 4, 0);
    assert_eq!(moves.len(), 2);
    assert_eq!(dest(&moves[0]), (3, 0));
    assert_eq!(dest(&moves[1]), (3, 1));
    assert_eq!(moves[1].des.piece, pawn(false));
    b.do_move(moves[1]);
    assert_eq!(b.square(3, 1).piece, pawn(true));
    assert_eq!(b.square(4, 0).piece, None);
}

#[test]
fn forward_step_blocked_by_piece() {
    let mut b = Board::new();
    play(&mut b, 6, 0, 1);
    play(&mut b, 1, 0, 1);
    let moves = moves_at(&b, 4, 0);
    assert!(moves.is_empty());
}

#[test]
fn double_step_ignores_intermediate_square() {
    let mut b = Board::new();
    play(&mut b, 6, 7, 0);
    play(&mut b, 1, 1, 1);
    play(&mut b, 5, 7, 0);
    play(&mut b, 3, 1, 0);
    play(&mut b, 4, 7, 0);
    play(&mut b, 4, 1, 0);
    assert_eq!(b.square(5, 1).piece, pawn(false));
    let moves = moves_at(&b, 6, 1);
    assert_eq!(moves.len(), 1);
    assert_eq!(dest(&moves[0]), (4, 1));
}

#[test]
fn double_step_only_from_start_rank() {
    let mut b = Board::new();
    play(&mut b, 6, 3, 0);
    play(&mut b, 1, 7, 0);
    let moves = moves_at(&b, 5, 3);
    assert_eq!(moves.len(), 1);
    assert_eq!(dest(&moves[0]), (4, 3));
}

#[test]
fn pawn_on_last_rank_refused() {
    let mut b = Board::new();
    let forced = Move { pos: b.square(6, 0), des: b.square(0, 0), epilogue: Epilogue::Plain };
    b.do_move(forced);
    play(&mut b, 1, 7, 0);
    assert_eq!(b.square(0, 0).piece, pawn(true));
    assert_eq!(b.get_moves(0, 0), Err(MoveGenError::PawnOnLastRank));
}

#[test]
fn apply_flips_turn_and_records_snapshot() {
    let mut b = Board::new();
    let moves = moves_at(&b, 6, 4);
    b.do_move(moves[0]);
    assert!(!b.turn());
    assert_eq!(b.history_len(), 2);
    assert!(!b.history_turn(1));
    assert!(b.history_turn(0));
    for r in 0..8 {
        for c in 0..8 {
            assert_eq!(b.history_square(1, r, c), b.square(r, c));
        }
    }
    assert_eq!(b.history_square(0, 6, 4).piece, pawn(true));
    assert_eq!(b.history_square(0, 5, 4).piece, None);
    assert_eq!(b.square(6, 4).piece, None);
    assert_eq!(b.square(5, 4).piece, pawn(true));
}

#[test]
fn generation_is_repeatable_and_read_only() {
    let b = Board::new();
    let first = b.get_moves(6, 2);
    let second = b.get_moves(6, 2);
    assert_eq!(first, second);
    assert_eq!(b.history_len(), 1);
    assert!(b.turn());
    assert_eq!(b.square(6, 2).piece, pawn(true));
}

#[test]
fn create_move_bounds() {
    let b = Board::new();
    let from = b.square(6, 0);
    let m = b.create_move(from, (-1, 0), 2, Epilogue::Plain).expect("on board");
    assert_eq!(m.des, b.square(4, 0));
    assert_eq!(m.pos, from);
    assert_eq!(b.create_move(from, (-1, -1), 1, Epilogue::Plain), None);
    assert_eq!(b.create_move(from, (1, 0), 2, Epilogue::Plain), None);
    let far = b.create_move(b.square(0, 0), (1, 1), 7, Epilogue::Plain).expect("on board");
    assert_eq!(far.des.pos, (7, 7));
}

#[test]
fn en_passant_not_offered_beside_unmoved_doubled_pawn() {
    let mut b = Board::new();
    // A direct move puts a second white pawn on file 0, which keeps its
    // unmoved pawn on the starting rank.
    let doubled = Move { pos: b.square(6, 7), des: b.square(4, 0), epilogue: Epilogue::Plain };
    b.do_move(doubled);
    play(&mut b, 1, 1, 1);
    play(&mut b, 6, 6, 0);
    play(&mut b, 3, 1, 0);
    play(&mut b, 5, 6, 0);
    assert_eq!(b.square(4, 0).piece, pawn(true));
    assert_eq!(b.square(6, 0).piece, pawn(true));
    assert_eq!(b.square(4, 1).piece, pawn(false));
    let moves = moves_at(&b, 4, 1);
    assert_eq!(moves.len(), 1);
    assert_eq!(dest(&moves[0]), (5, 1));
}
