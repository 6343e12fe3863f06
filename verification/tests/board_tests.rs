use blockfall::board::Board;
use blockfall::cell::{CellState, CollisionResult, Point};
use blockfall::shape::BlockType;

fn count_of(board: &Board, state: CellState) -> usize {
    board.get_cells().iter().filter(|c| **c == state).count()
}

#[test]
fn mapping_block_to_board() {
    let block = BlockType::get_random_block();
    let mut board = Board::new_board(6, 6);
    board.new_round();
    let _ = block;
}

#[test]
fn test_collision() {
    let block = BlockType::get_random_block();
    let mut board = Board::new_board(6, 6);
    board.new_round();
    let next_position = Point { x: 4, y: 3 };
    board.check_horizon_edge_collision(&next_position);
    let _ = block;
}

#[test]
fn new_board_starts_empty() {
    let board = Board::new_board(4, 5);
    assert_eq!(board.get_cells().len(), 20);
    assert!(board.get_cells().iter().all(|c| *c == CellState::Empty));
    assert_eq!(board.get_active_position(), Point { x: 0, y: 0 });
}

#[test]
fn new_round_resets_anchor_to_spawn_point() {
    let mut board = Board::new_board(6, 6);
    board.new_round();
    assert_eq!(board.get_active_position(), Point { x: 3, y: 1 });
    assert!(board.get_cells().iter().all(|c| *c == CellState::Empty));
}

#[test]
fn scenario_square_locks_at_floor() {
    let mut board = Board::new_board(6, 6);
    board.new_round_with_entropy(0);
    let mut locked = false;
    for _ in 0..12 {
        board.down();
        if count_of(&board, CellState::FixedOccupied) > 0 {
            locked = true;
            break;
        }
    }
    assert!(locked);
    // the square descended from the spawn point (3, 1) and locked at (3, 4),
    // the last anchor whose 2x2 footprint still fits above the floor
    assert_eq!(count_of(&board, CellState::FixedOccupied), 4);
    assert_eq!(count_of(&board, CellState::MovingOccupied), 0);
    let cells = board.get_cells();
    assert_eq!(cells[4 * 6 + 3], CellState::FixedOccupied);
    assert_eq!(cells[4 * 6 + 4], CellState::FixedOccupied);
    assert_eq!(cells[5 * 6 + 3], CellState::FixedOccupied);
    assert_eq!(cells[5 * 6 + 4], CellState::FixedOccupied);
    // the lock respawned at the fixed spawn point
    assert_eq!(board.get_active_position(), Point { x: 3, y: 1 });
}

#[test]
fn scenario_right_edge_rejected() {
    let mut board = Board::new_board(6, 6);
    board.new_round_with_entropy(0);
    board.right();
    // column 4 is the rightmost legal column for the square's extents
    assert_eq!(board.get_active_position(), Point { x: 4, y: 1 });
    assert_eq!(
        board.edge_collision_check(&Point { x: 5, y: 1 }),
        CollisionResult::EdgeCollision
    );
    let before: Vec<CellState> = board.get_cells().clone();
    board.right();
    assert_eq!(board.get_active_position(), Point { x: 4, y: 1 });
    assert_eq!(board.get_cells(), &before);
}

#[test]
fn scenario_second_lock_blocked_one_row_above() {
    let mut board = Board::new_board(6, 6);
    board.new_round_with_entropy(0);
    for _ in 0..4 {
        board.down();
    }
    assert_eq!(count_of(&board, CellState::FixedOccupied), 4);
    // second square, dropped down the same column
    board.new_round_with_entropy(0);
    board.down();
    assert_eq!(board.get_active_position(), Point { x: 3, y: 2 });
    // the first lock's topmost fixed row is 4; an anchor one row above it
    // would land the footprint on the stack and is reported distinctly
    let topmost_fixed_row = (0..6)
        .find(|r| (0..6).any(|c| board.get_cells()[r * 6 + c] == CellState::FixedOccupied))
        .unwrap();
    assert_eq!(topmost_fixed_row, 4);
    assert_eq!(
        board.horizon_block_check(&Point { x: 3, y: 3 }),
        CollisionResult::HorizontalHitBlock
    );
    assert_eq!(
        board.edge_collision_check(&Point { x: 3, y: 3 }),
        CollisionResult::HorizontalHitBlock
    );
    let before: Vec<CellState> = board.get_cells().clone();
    board.down();
    assert_eq!(board.get_active_position(), Point { x: 3, y: 2 });
    assert_eq!(board.get_cells(), &before);
}

#[test]
fn draw_paints_footprint_and_clear_is_idempotent() {
    let mut board = Board::new_board(6, 6);
    board.new_round_with_entropy(4);
    // the Z pattern occupies local cells (0,1), (1,1), (1,2), (2,2)
    board.draw_current_block(Point { x: 2, y: 2 }, true);
    assert_eq!(count_of(&board, CellState::MovingOccupied), 4);
    let cells = board.get_cells();
    assert_eq!(cells[2 * 6 + 1], CellState::MovingOccupied);
    assert_eq!(cells[2 * 6 + 2], CellState::MovingOccupied);
    assert_eq!(cells[3 * 6 + 2], CellState::MovingOccupied);
    assert_eq!(cells[3 * 6 + 3], CellState::MovingOccupied);
    board.clear_last_position();
    let once: Vec<CellState> = board.get_cells().clone();
    assert!(once.iter().all(|c| *c == CellState::Empty));
    board.clear_last_position();
    assert_eq!(board.get_cells(), &once);
}

#[test]
fn clipping_skips_left_wrap_at_column_zero() {
    let mut board = Board::new_board(6, 6);
    board.new_round_with_entropy(3);
    // the T pattern occupies local cells (0,0), (1,0), (2,0), (1,1), (1,2);
    // at anchor column 0 its left column would wrap to column 5 and is clipped
    board.draw_current_block(Point { x: 0, y: 2 }, true);
    assert_eq!(count_of(&board, CellState::MovingOccupied), 4);
    let cells = board.get_cells();
    assert_eq!(cells[1 * 6 + 0], CellState::MovingOccupied);
    assert_eq!(cells[1 * 6 + 1], CellState::MovingOccupied);
    assert_eq!(cells[2 * 6 + 0], CellState::MovingOccupied);
    assert_eq!(cells[3 * 6 + 0], CellState::MovingOccupied);
    for r in 0..6 {
        assert_eq!(cells[r * 6 + 5], CellState::Empty);
    }
}

#[test]
fn clipping_skips_top_wrap_at_row_zero() {
    let mut board = Board::new_board(6, 6);
    board.new_round_with_entropy(1);
    // the I pattern occupies local cells (1,0), (1,1), (1,2); at anchor row 0
    // its top cell would wrap to row 5 and is clipped
    board.draw_current_block(Point { x: 2, y: 0 }, true);
    assert_eq!(count_of(&board, CellState::MovingOccupied), 2);
    let cells = board.get_cells();
    assert_eq!(cells[0 * 6 + 2], CellState::MovingOccupied);
    assert_eq!(cells[1 * 6 + 2], CellState::MovingOccupied);
    for c in 0..6 {
        assert_eq!(cells[5 * 6 + c], CellState::Empty);
    }
}

#[test]
fn vertical_check_reports_hit_bottom_at_floor() {
    let mut board = Board::new_board(6, 6);
    board.new_round_with_entropy(0);
    assert_eq!(
        board.check_vertical_edge_collision(&Point { x: 3, y: 4 }),
        CollisionResult::NoEdgeCollision
    );
    assert_eq!(
        board.check_vertical_edge_collision(&Point { x: 3, y: 5 }),
        CollisionResult::HitBottom
    );
}

#[test]
fn up_past_top_locks_in_place() {
    let mut board = Board::new_board(6, 6);
    board.new_round_with_entropy(0);
    board.up();
    assert_eq!(board.get_active_position(), Point { x: 3, y: 0 });
    // another up would push the square's top row past the edge: the vertical
    // check fails, which locks the footprint where it stands and respawns
    board.up();
    assert_eq!(count_of(&board, CellState::FixedOccupied), 4);
    assert_eq!(board.get_active_position(), Point { x: 3, y: 1 });
}

#[test]
fn committed_move_repaints_at_new_anchor() {
    let mut board = Board::new_board(6, 6);
    board.new_round_with_entropy(0);
    board.down();
    assert_eq!(count_of(&board, CellState::MovingOccupied), 4);
    board.left();
    assert_eq!(board.get_active_position(), Point { x: 2, y: 2 });
    assert_eq!(count_of(&board, CellState::MovingOccupied), 4);
    let cells = board.get_cells();
    assert_eq!(cells[2 * 6 + 2], CellState::MovingOccupied);
    assert_eq!(cells[2 * 6 + 3], CellState::MovingOccupied);
    assert_eq!(cells[3 * 6 + 2], CellState::MovingOccupied);
    assert_eq!(cells[3 * 6 + 3], CellState::MovingOccupied);
}
