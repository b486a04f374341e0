use tetris_core::board::{Block, Board, BLOCK_LENGTH, FLOOR_ROW, MAX_COLUMN, SPAWN_ROW};
use tetris_core::piece::{
    auto_move_piece_down, check_collision, manually_move_piece, resolve_movability, rotate_piece,
    spawn_piece, ActivePiece, AutoMovePieceDownTimer, DescentTimer, Movable, Piece, PieceCell,
    DESCENT_PERIOD,
};

fn unit_piece(x: i32, y: i32) -> ActivePiece {
    let block = Block::new(x, y);
    let render = block.translation();
    ActivePiece {
        kind: Piece::I,
        cells: vec![PieceCell { block, render }],
        movable: Movable { can_down: true, can_left: true, can_right: true },
        timer: AutoMovePieceDownTimer(DescentTimer::new(DESCENT_PERIOD)),
    }
}

fn multi_piece(coords: &[(i32, i32)]) -> ActivePiece {
    let mut cells = Vec::new();
    for &(x, y) in coords {
        let block = Block::new(x, y);
        let render = block.translation();
        cells.push(PieceCell { block, render });
    }
    ActivePiece {
        kind: Piece::O,
        cells,
        movable: Movable { can_down: true, can_left: true, can_right: true },
        timer: AutoMovePieceDownTimer(DescentTimer::new(DESCENT_PERIOD)),
    }
}

fn positions(p: &ActivePiece) -> Vec<(i32, i32)> {
    p.cells.iter().map(|c| (c.block.x, c.block.y)).collect()
}

#[test]
fn test_spawn_layout() {
    let pieces = spawn_piece();
    assert_eq!(pieces.len(), 4);
    for (k, p) in pieces.iter().enumerate() {
        assert_eq!(p.kind, Piece::I);
        assert_eq!(p.cells.len(), 1);
        assert_eq!(p.cells[0].block.x, k as i32);
        assert_eq!(p.cells[0].block.y, SPAWN_ROW);
        assert_eq!(p.cells[0].render.x, k as i64 * BLOCK_LENGTH);
        assert_eq!(p.cells[0].render.y, SPAWN_ROW as i64 * BLOCK_LENGTH);
        assert!(p.movable.can_down && p.movable.can_left && p.movable.can_right);
        assert_eq!(p.timer.0.accumulated, 0);
        assert_eq!(p.timer.0.period, DESCENT_PERIOD);
    }
}

#[test]
fn test_translation_scaling() {
    let b = Block::new(2, 3);
    let r = b.translation();
    assert_eq!(r.x, 2 * BLOCK_LENGTH);
    assert_eq!(r.y, 3 * BLOCK_LENGTH);
    assert_eq!(Block::new(0, 0).translation().x, 0);
}

#[test]
fn test_resolver_boundary_flags() {
    let board = Board::new();
    let left = unit_piece(0, 10);
    let m = resolve_movability(&left.cells, &board);
    assert!(!m.can_left && m.can_right && m.can_down);

    let right = unit_piece(MAX_COLUMN, 10);
    let m = resolve_movability(&right.cells, &board);
    assert!(m.can_left && !m.can_right && m.can_down);

    let floor = unit_piece(5, FLOOR_ROW);
    let m = resolve_movability(&floor.cells, &board);
    assert!(m.can_left && m.can_right && !m.can_down);
}

#[test]
fn test_resolver_is_pure() {
    let mut board = Board::new();
    board.place(4, 9);
    let piece = multi_piece(&[(5, 10), (5, 11)]);
    let first = resolve_movability(&piece.cells, &board);
    let second = resolve_movability(&piece.cells, &board);
    assert_eq!(first, second);
}

#[test]
fn test_left_neighbor_blocks() {
    let mut board = Board::new();
    assert!(board.place(2, 19));
    let piece = unit_piece(3, 19);
    let m = resolve_movability(&piece.cells, &board);
    assert!(!m.can_left);
    assert!(m.can_right && m.can_down);
}

#[test]
fn test_diagonal_neighbor_blocks_per_axis() {
    // The board pass compares one axis at a time: a diagonal neighbour at
    // (x-1, y-1) blocks both leftward and downward movement.
    let mut board = Board::new();
    assert!(board.place(2, 18));
    let piece = unit_piece(3, 19);
    let m = resolve_movability(&piece.cells, &board);
    assert!(!m.can_left);
    assert!(!m.can_down);
    assert!(m.can_right);
}

#[test]
fn test_scenario_spawn_four() {
    let mut pieces = spawn_piece();
    let board = Board::new();

    check_collision(&mut pieces, &board);
    for (k, p) in pieces.iter().enumerate() {
        assert!(p.movable.can_down);
        assert!(p.movable.can_right);
        assert_eq!(p.movable.can_left, k != 0);
    }

    manually_move_piece(&mut pieces, false, false, true);
    for (k, p) in pieces.iter().enumerate() {
        assert_eq!(positions(p), vec![(k as i32, 18)]);
    }

    check_collision(&mut pieces, &board);
    manually_move_piece(&mut pieces, true, false, false);
    assert_eq!(positions(&pieces[0]), vec![(0, 18)]);
    assert_eq!(positions(&pieces[1]), vec![(0, 18)]);
    assert_eq!(positions(&pieces[2]), vec![(1, 18)]);
    assert_eq!(positions(&pieces[3]), vec![(2, 18)]);
}

#[test]
fn test_scenario_settled_cell_below() {
    let mut board = Board::new();
    assert!(board.place(3, 18));
    let mut pieces = vec![unit_piece(3, 19)];
    check_collision(&mut pieces, &board);
    assert!(!pieces[0].movable.can_down);
}

#[test]
fn test_left_rejection_is_idempotent() {
    let board = Board::new();
    let mut pieces = vec![unit_piece(0, 10)];
    check_collision(&mut pieces, &board);
    assert!(!pieces[0].movable.can_left);
    manually_move_piece(&mut pieces, true, false, false);
    assert_eq!(positions(&pieces[0]), vec![(0, 10)]);
    manually_move_piece(&mut pieces, true, false, false);
    assert_eq!(positions(&pieces[0]), vec![(0, 10)]);
    assert!(!pieces[0].movable.can_left);
}

#[test]
fn test_first_match_wins() {
    // Left is checked before right before down: with every key down at once,
    // only the leftward step is taken.
    let board = Board::new();
    let mut pieces = vec![unit_piece(5, 10)];
    check_collision(&mut pieces, &board);
    manually_move_piece(&mut pieces, true, true, true);
    assert_eq!(positions(&pieces[0]), vec![(4, 10)]);

    let mut pieces = vec![unit_piece(5, 10)];
    check_collision(&mut pieces, &board);
    manually_move_piece(&mut pieces, false, true, true);
    assert_eq!(positions(&pieces[0]), vec![(6, 10)]);
}

#[test]
fn test_no_event_no_change() {
    let mut pieces = vec![unit_piece(5, 10)];
    manually_move_piece(&mut pieces, false, false, false);
    assert_eq!(positions(&pieces[0]), vec![(5, 10)]);
}

#[test]
fn test_translation_atomicity() {
    let board = Board::new();
    let mut pieces = vec![multi_piece(&[(4, 10), (5, 10), (4, 11), (5, 11)])];
    check_collision(&mut pieces, &board);
    let before = positions(&pieces[0]);
    manually_move_piece(&mut pieces, false, false, true);
    let after = positions(&pieces[0]);
    assert_eq!(after.len(), before.len());
    for (b, a) in before.iter().zip(after.iter()) {
        assert_eq!(a.0, b.0);
        assert_eq!(a.1, b.1 - 1);
    }
    // Relative offsets within the piece are preserved.
    for i in 0..after.len() {
        for j in 0..after.len() {
            assert_eq!(after[i].0 - after[j].0, before[i].0 - before[j].0);
            assert_eq!(after[i].1 - after[j].1, before[i].1 - before[j].1);
        }
    }
    // Every cell's rendering position was recomputed from its new coordinate.
    for c in pieces[0].cells.iter() {
        assert_eq!(c.render.x, c.block.x as i64 * BLOCK_LENGTH);
        assert_eq!(c.render.y, c.block.y as i64 * BLOCK_LENGTH);
    }
}

#[test]
fn test_timer_fires_after_full_period() {
    let mut t = DescentTimer::new(1000);
    assert!(!t.tick(999));
    assert_eq!(t.accumulated, 999);
    assert!(t.tick(1));
    assert_eq!(t.accumulated, 0);
    assert!(t.tick(1500));
    assert_eq!(t.accumulated, 500);
    // A large elapsed time fires once per tick; the overshoot is kept.
    assert!(t.tick(2500));
    assert_eq!(t.accumulated, 2000);
}

#[test]
fn test_auto_descent_moves_when_period_elapses() {
    let board = Board::new();
    let mut pieces = vec![unit_piece(5, 10)];
    check_collision(&mut pieces, &board);

    auto_move_piece_down(&mut pieces, 400);
    assert_eq!(positions(&pieces[0]), vec![(5, 10)]);
    assert_eq!(pieces[0].timer.0.accumulated, 400);

    auto_move_piece_down(&mut pieces, 600);
    assert_eq!(positions(&pieces[0]), vec![(5, 9)]);
    assert_eq!(pieces[0].timer.0.accumulated, 0);
}

#[test]
fn test_blocked_piece_timer_still_resets() {
    let board = Board::new();
    let mut pieces = vec![unit_piece(5, FLOOR_ROW)];
    check_collision(&mut pieces, &board);
    assert!(!pieces[0].movable.can_down);

    auto_move_piece_down(&mut pieces, 1300);
    // The firing is unconditional: the timer reset on schedule even though
    // the piece could not move.
    assert_eq!(positions(&pieces[0]), vec![(5, FLOOR_ROW)]);
    assert_eq!(pieces[0].timer.0.accumulated, 300);
}

#[test]
fn test_rotate_accepts_valid_candidate() {
    let board = Board::new();
    let mut piece = multi_piece(&[(4, 10), (5, 10), (6, 10), (5, 11)]);
    let candidate = vec![
        Block::new(5, 9),
        Block::new(5, 10),
        Block::new(5, 11),
        Block::new(4, 10),
    ];
    let accepted = rotate_piece(&mut piece, &candidate, &board);
    assert!(accepted);
    assert_eq!(positions(&piece), vec![(5, 9), (5, 10), (5, 11), (4, 10)]);
    for c in piece.cells.iter() {
        assert_eq!(c.render.x, c.block.x as i64 * BLOCK_LENGTH);
        assert_eq!(c.render.y, c.block.y as i64 * BLOCK_LENGTH);
    }
}

#[test]
fn test_rotate_rejects_out_of_bounds() {
    let board = Board::new();
    let mut piece = multi_piece(&[(8, 10), (9, 10), (8, 11), (9, 11)]);
    let before = positions(&piece);
    let candidate = vec![
        Block::new(9, 10),
        Block::new(10, 10),
        Block::new(9, 11),
        Block::new(10, 11),
    ];
    let accepted = rotate_piece(&mut piece, &candidate, &board);
    assert!(!accepted);
    assert_eq!(positions(&piece), before);
}

#[test]
fn test_rotate_rejects_overlap() {
    let mut board = Board::new();
    assert!(board.place(5, 10));
    let mut piece = multi_piece(&[(4, 10), (4, 11), (5, 11), (5, 12)]);
    let before = positions(&piece);
    let candidate = vec![
        Block::new(4, 10),
        Block::new(5, 10),
        Block::new(4, 11),
        Block::new(5, 11),
    ];
    let accepted = rotate_piece(&mut piece, &candidate, &board);
    assert!(!accepted);
    assert_eq!(positions(&piece), before);
}

#[test]
fn test_board_rejects_duplicate_cell() {
    let mut board = Board::new();
    assert!(board.place(3, 4));
    assert!(!board.place(3, 4));
    assert_eq!(board.cells.len(), 1);
    assert!(board.occupied(3, 4));
    assert!(!board.occupied(3, 5));
}
