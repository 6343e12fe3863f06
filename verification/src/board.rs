//! The board: grid storage with row-major addressing, footprint painting and
//! clearing with horizontal/vertical wraparound, collision evaluation, and
//! the move/lock/respawn state machine.

use vstd::prelude::*;
use vstd::arithmetic::div_mod::lemma_mod_bound;
use crate::cell::{CellState, CollisionResult, Point};
use crate::shape::{
    Block,
    BlockType,
    is_catalog_shape,
    is_spawnable_shape,
    lemma_extents_in_bounds,
    selected_shape,
};

verus! {

/// Row-major linear index of a grid coordinate.
pub open spec fn spec_index(width: int, line: int, col: int) -> int {
    width * line + col
}

/// The wrapped board coordinate reached from `anchor` by the relative offset
/// encoded as `offset` (the offsets `modulus - 1`, 0 and 1 realize -1, 0 and
/// +1 via wraparound).
pub open spec fn wrap_coord(offset: int, anchor: int, modulus: int) -> int {
    (offset + anchor) % modulus
}

/// The clipping rule of the footprint enumeration: the wraparound offset
/// `modulus - 1` is skipped when the wrapped coordinate came out above the
/// anchor, meaning no true wraparound occurred and the visit would alias a
/// coordinate already covered from the other side.
pub open spec fn skip_offset(offset: int, anchor: int, modulus: int) -> bool {
    offset == modulus - 1 && wrap_coord(offset, anchor, modulus) > anchor
}

/// The shape-local index component of a wrapped coordinate: 0 when the board
/// cell lies on the low side of the anchor, 1 at the anchor, 2 on the high
/// side.
pub open spec fn local_component(anchor: int, wrapped: int) -> int {
    if anchor > wrapped {
        0
    } else if anchor == wrapped {
        1
    } else {
        2
    }
}

/// The shape cell that the offset pair maps onto the board at the wrapped
/// coordinates `(line, col)` around anchor `(px, py)`.
pub open spec fn mapped_shape_cell(
    shape: Seq<CellState>,
    px: int,
    py: int,
    line: int,
    col: int,
) -> CellState {
    shape[local_component(px, col) + 3 * local_component(py, line)]
}

/// One step of footprint painting: the grid after visiting the single
/// relative offset pair `(x_off, y_off)`.
///
/// The write policy is asymmetric on purpose: when locking
/// (`draw_active == false`) an occupied shape cell is committed as
/// `FixedOccupied` unconditionally; an empty shape cell never erases a
/// `FixedOccupied` grid cell; in every other case the shape cell's value is
/// written as is.
pub open spec fn paint_cell(
    cells: Seq<CellState>,
    shape: Seq<CellState>,
    width: int,
    height: int,
    px: int,
    py: int,
    x_off: int,
    y_off: int,
    draw_active: bool,
) -> Seq<CellState> {
    let line = wrap_coord(y_off, py, height);
    let col = wrap_coord(x_off, px, width);
    if skip_offset(y_off, py, height) || skip_offset(x_off, px, width) {
        cells
    } else {
        let idx = spec_index(width, line, col);
        let sc = mapped_shape_cell(shape, px, py, line, col);
        if sc == CellState::MovingOccupied && !draw_active {
            cells.update(idx, CellState::FixedOccupied)
        } else if sc == CellState::Empty && cells[idx] == CellState::FixedOccupied {
            cells
        } else {
            cells.update(idx, sc)
        }
    }
}

/// Footprint painting restricted to one horizontal offset: the three vertical
/// offsets visited in order `height - 1`, 0, 1.
pub open spec fn paint_col(
    cells: Seq<CellState>,
    shape: Seq<CellState>,
    width: int,
    height: int,
    px: int,
    py: int,
    x_off: int,
    draw_active: bool,
) -> Seq<CellState> {
    let c1 = paint_cell(cells, shape, width, height, px, py, x_off, height - 1, draw_active);
    let c2 = paint_cell(c1, shape, width, height, px, py, x_off, 0, draw_active);
    paint_cell(c2, shape, width, height, px, py, x_off, 1, draw_active)
}

/// The full 9-offset footprint paint at anchor `(px, py)`: horizontal offsets
/// visited in order `width - 1`, 0, 1, each with its three vertical offsets.
pub open spec fn spec_paint(
    cells: Seq<CellState>,
    shape: Seq<CellState>,
    width: int,
    height: int,
    px: int,
    py: int,
    draw_active: bool,
) -> Seq<CellState> {
    let c1 = paint_col(cells, shape, width, height, px, py, width - 1, draw_active);
    let c2 = paint_col(c1, shape, width, height, px, py, 0, draw_active);
    paint_col(c2, shape, width, height, px, py, 1, draw_active)
}

/// One step of footprint clearing: the visited cell is reset to `Empty`
/// unconditionally, with no clipping.
pub open spec fn clear_cell(
    cells: Seq<CellState>,
    width: int,
    height: int,
    px: int,
    py: int,
    x_off: int,
    y_off: int,
) -> Seq<CellState> {
    cells.update(
        spec_index(width, wrap_coord(y_off, py, height), wrap_coord(x_off, px, width)),
        CellState::Empty,
    )
}

/// Footprint clearing restricted to one horizontal offset.
pub open spec fn clear_col(
    cells: Seq<CellState>,
    width: int,
    height: int,
    px: int,
    py: int,
    x_off: int,
) -> Seq<CellState> {
    let c1 = clear_cell(cells, width, height, px, py, x_off, height - 1);
    let c2 = clear_cell(c1, width, height, px, py, x_off, 0);
    clear_cell(c2, width, height, px, py, x_off, 1)
}

/// The full 9-offset footprint clear at anchor `(px, py)`.
pub open spec fn spec_clear(
    cells: Seq<CellState>,
    width: int,
    height: int,
    px: int,
    py: int,
) -> Seq<CellState> {
    let c1 = clear_col(cells, width, height, px, py, width - 1);
    let c2 = clear_col(c1, width, height, px, py, 0);
    clear_col(c2, width, height, px, py, 1)
}

/// An anchor the board can hold between moves: within the grid horizontally;
/// vertically within the grid, except that on a single-row board the fixed
/// spawn row 1 lies just below it.
pub open spec fn anchor_in_range(width: int, height: int, p: Point) -> bool {
    &&& 0 <= p.x < width
    &&& 0 <= p.y
    &&& p.y < height || (height == 1 && p.y == 1)
}

/// The grid board owning the active block and its anchor.
pub struct Board {
    pub width: u32,
    pub height: u32,
    pub cells: Vec<CellState>,
    pub active_position: Point,
    pub active_block: Block,
}

impl Board {
    /// Well-formedness: positive dimensions small enough for exact index
    /// arithmetic, grid storage of exactly `width * height` cells, a
    /// well-formed active block, and an anchor the state machine can have
    /// produced.
    pub open spec fn wf(self) -> bool {
        &&& 1 <= self.width <= 0x1FFF_FFFF
        &&& 1 <= self.height <= 0x1FFF_FFFF
        &&& self.width * self.height <= u32::MAX
        &&& self.cells@.len() == self.width * self.height
        &&& self.active_block.wf()
        &&& anchor_in_range(self.width as int, self.height as int, self.active_position)
    }

    /// Read-only view of the flat grid, row-major, length `width * height`.
    pub fn get_cells(&self) -> (r: &Vec<CellState>)
        ensures
            r@ == self.cells@,
    {
        &self.cells
    }

    /// The active block's current anchor.
    pub fn get_active_position(&self) -> (r: Point)
        ensures
            r == self.active_position,
    {
        self.active_position
    }

    /// Row-major linear index, valid only inside the grid; wraparound is the
    /// caller's responsibility.
    fn get_index(&self, line: u32, column: u32) -> (r: u32)
        requires
            self.width * self.height <= u32::MAX,
            1 <= self.width,
            1 <= self.height,
            line < self.height,
            column < self.width,
        ensures
            r == spec_index(self.width as int, line as int, column as int),
            r < self.width * self.height,
    {
        proof {
            lemma_grid_index_in_bounds(
                self.width as int,
                self.height as int,
                line as int,
                column as int,
            );
        }
        self.width * line + column
    }

    /// A fresh board of the given dimensions: every cell `Empty`, the anchor
    /// at the origin, and a random active block (a zero dimension is a caller
    /// error and is rejected here, before any index arithmetic can go wrong).
    pub fn new_board(width: u32, height: u32) -> (b: Board)
        requires
            1 <= width <= 0x1FFF_FFFF,
            1 <= height <= 0x1FFF_FFFF,
            width * height <= u32::MAX,
        ensures
            b.wf(),
            b.width == width,
            b.height == height,
            b.cells@.len() == width * height,
            forall|i: int| 0 <= i < b.cells@.len() ==> b.cells@[i] == CellState::Empty,
            b.active_position == (Point { x: 0, y: 0 }),
            is_spawnable_shape(b.active_block),
    {
        let total: u32 = width * height;
        let mut cells: Vec<CellState> = Vec::new();
        let mut i: u32 = 0;
        while i < total
            invariant
                i <= total,
                cells@.len() == i,
                forall|k: int| 0 <= k < i ==> cells@[k] == CellState::Empty,
            decreases total - i,
        {
            cells.push(CellState::Empty);
            i = i + 1;
        }
        let block = BlockType::get_random_block();
        Board {
            width,
            height,
            cells,
            active_position: Point { x: 0, y: 0 },
            active_block: block,
        }
    }
}

impl Board {
    /// Visit one relative offset of the active block's footprint at the
    /// current anchor and apply the paint write policy to the wrapped cell.
    fn paint_one(&mut self, x_off: u32, y_off: u32, draw_active: bool)
        requires
            1 <= old(self).width <= 0x1FFF_FFFF,
            1 <= old(self).height <= 0x1FFF_FFFF,
            old(self).width * old(self).height <= u32::MAX,
            old(self).cells@.len() == old(self).width * old(self).height,
            old(self).active_block.shape_array@.len() == 9,
            0 <= old(self).active_position.x,
            0 <= old(self).active_position.y,
        ensures
            final(self).cells@ == paint_cell(
                old(self).cells@,
                old(self).active_block.shape_array@,
                old(self).width as int,
                old(self).height as int,
                old(self).active_position.x as int,
                old(self).active_position.y as int,
                x_off as int,
                y_off as int,
                draw_active,
            ),
            final(self).width == old(self).width,
            final(self).height == old(self).height,
            final(self).active_position == old(self).active_position,
            final(self).active_block == old(self).active_block,
    {
        let px: i32 = self.active_position.x;
        let py: i32 = self.active_position.y;
        let line: u32 = wrap_index(y_off, py, self.height);
        if y_off == self.height - 1 && (line as i64) > (py as i64) {
            return ;
        }
        let col: u32 = wrap_index(x_off, px, self.width);
        if x_off == self.width - 1 && (col as i64) > (px as i64) {
            return ;
        }
        let index: u32 = self.get_index(line, col);
        let width_diff: u32 = if px > col as i32 {
            0
        } else if px == col as i32 {
            1
        } else {
            2
        };
        let height_diff: u32 = if py > line as i32 {
            0
        } else if py == line as i32 {
            1
        } else {
            2
        };
        let mapping: usize = (width_diff + height_diff * 3) as usize;
        let shape_cell = self.active_block.shape_array[mapping];
        let index_us: usize = index as usize;
        let grid_cell = self.cells[index_us];
        if shape_cell == CellState::MovingOccupied && !draw_active {
            self.cells[index_us] = CellState::FixedOccupied;
        } else if shape_cell == CellState::Empty && grid_cell == CellState::FixedOccupied {
            // never erase locked stack while painting a passing shape
        } else {
            self.cells[index_us] = shape_cell;
        }
    }

    /// Move the anchor to `next_position` and paint the active block's 3x3
    /// footprint there, wrapped and clipped, under the paint write policy.
    pub fn draw_current_block(&mut self, next_position: Point, draw_active: bool)
        requires
            old(self).wf(),
            anchor_in_range(old(self).width as int, old(self).height as int, next_position),
        ensures
            final(self).wf(),
            final(self).cells@ == spec_paint(
                old(self).cells@,
                old(self).active_block.shape_array@,
                old(self).width as int,
                old(self).height as int,
                next_position.x as int,
                next_position.y as int,
                draw_active,
            ),
            final(self).active_position == next_position,
            final(self).width == old(self).width,
            final(self).height == old(self).height,
            final(self).active_block == old(self).active_block,
    {
        proof {
            lemma_all_offsets_in_range(
                old(self).width as int,
                old(self).height as int,
                next_position.x as int,
                next_position.y as int,
            );
        }
        self.active_position = next_position;
        let w1: u32 = self.width - 1;
        let h1: u32 = self.height - 1;
        self.paint_one(w1, h1, draw_active);
        self.paint_one(w1, 0, draw_active);
        self.paint_one(w1, 1, draw_active);
        self.paint_one(0, h1, draw_active);
        self.paint_one(0, 0, draw_active);
        self.paint_one(0, 1, draw_active);
        self.paint_one(1, h1, draw_active);
        self.paint_one(1, 0, draw_active);
        self.paint_one(1, 1, draw_active);
        proof {
            lemma_paint_preserves_len(
                old(self).cells@,
                old(self).active_block.shape_array@,
                old(self).width as int,
                old(self).height as int,
                next_position.x as int,
                next_position.y as int,
                draw_active,
            );
        }
    }

    /// Visit one relative offset at the current anchor and reset the wrapped
    /// cell to `Empty`.
    fn clear_one(&mut self, x_off: u32, y_off: u32)
        requires
            1 <= old(self).width <= 0x1FFF_FFFF,
            1 <= old(self).height <= 0x1FFF_FFFF,
            old(self).width * old(self).height <= u32::MAX,
            old(self).cells@.len() == old(self).width * old(self).height,
        ensures
            final(self).cells@ == clear_cell(
                old(self).cells@,
                old(self).width as int,
                old(self).height as int,
                old(self).active_position.x as int,
                old(self).active_position.y as int,
                x_off as int,
                y_off as int,
            ),
            final(self).width == old(self).width,
            final(self).height == old(self).height,
            final(self).active_position == old(self).active_position,
            final(self).active_block == old(self).active_block,
    {
        let line: u32 = wrap_index(y_off, self.active_position.y, self.height);
        let col: u32 = wrap_index(x_off, self.active_position.x, self.width);
        let index: u32 = self.get_index(line, col);
        self.cells[index as usize] = CellState::Empty;
    }

    /// Reset every cell the 9-offset footprint enumeration visits at the
    /// current anchor to `Empty`. No clipping is applied: re-visiting an
    /// aliased cell just re-clears it. Called on the block's previous anchor
    /// immediately before the new anchor is painted. The reset is
    /// unconditional over the whole 3x3 neighborhood, exactly as the write
    /// policy of the state machine expects it.
    pub fn clear_last_position(&mut self)
        requires
            old(self).wf(),
        ensures
            final(self).wf(),
            final(self).cells@ == spec_clear(
                old(self).cells@,
                old(self).width as int,
                old(self).height as int,
                old(self).active_position.x as int,
                old(self).active_position.y as int,
            ),
            final(self).width == old(self).width,
            final(self).height == old(self).height,
            final(self).active_position == old(self).active_position,
            final(self).active_block == old(self).active_block,
    {
        proof {
            lemma_all_offsets_in_range(
                old(self).width as int,
                old(self).height as int,
                old(self).active_position.x as int,
                old(self).active_position.y as int,
            );
        }
        let w1: u32 = self.width - 1;
        let h1: u32 = self.height - 1;
        self.clear_one(w1, h1);
        self.clear_one(w1, 0);
        self.clear_one(w1, 1);
        self.clear_one(0, h1);
        self.clear_one(0, 0);
        self.clear_one(0, 1);
        self.clear_one(1, h1);
        self.clear_one(1, 0);
        self.clear_one(1, 1);
        proof {
            lemma_clear_preserves_len(
                old(self).cells@,
                old(self).width as int,
                old(self).height as int,
                old(self).active_position.x as int,
                old(self).active_position.y as int,
            );
        }
    }
}

/// A candidate coordinate the collision queries accept: far enough from the
/// i32 range ends that the edge-distance arithmetic cannot overflow.
pub open spec fn coord_in_reach(c: int) -> bool {
    -0x4000_0000 <= c <= 0x4000_0000
}

/// Whether the shape cell mapped onto the wrapped board cell by one relative
/// offset is occupied while the board cell already belongs to the fixed
/// stack.
pub open spec fn offset_hits(
    cells: Seq<CellState>,
    shape: Seq<CellState>,
    width: int,
    height: int,
    px: int,
    py: int,
    x_off: int,
    y_off: int,
) -> bool {
    let line = wrap_coord(y_off, py, height);
    let col = wrap_coord(x_off, px, width);
    &&& !skip_offset(y_off, py, height)
    &&& !skip_offset(x_off, px, width)
    &&& mapped_shape_cell(shape, px, py, line, col) == CellState::MovingOccupied
    &&& cells[spec_index(width, line, col)] == CellState::FixedOccupied
}

/// Whether any offset of the footprint at anchor `(px, py)` would land an
/// occupied shape cell on a `FixedOccupied` grid cell.
pub open spec fn footprint_blocked(
    cells: Seq<CellState>,
    shape: Seq<CellState>,
    width: int,
    height: int,
    px: int,
    py: int,
) -> bool {
    ||| offset_hits(cells, shape, width, height, px, py, width - 1, height - 1)
    ||| offset_hits(cells, shape, width, height, px, py, width - 1, 0)
    ||| offset_hits(cells, shape, width, height, px, py, width - 1, 1)
    ||| offset_hits(cells, shape, width, height, px, py, 0, height - 1)
    ||| offset_hits(cells, shape, width, height, px, py, 0, 0)
    ||| offset_hits(cells, shape, width, height, px, py, 0, 1)
    ||| offset_hits(cells, shape, width, height, px, py, 1, height - 1)
    ||| offset_hits(cells, shape, width, height, px, py, 1, 0)
    ||| offset_hits(cells, shape, width, height, px, py, 1, 1)
}

impl Board {
    /// Signed distance from the shape's leftmost occupied column to the left
    /// board edge at candidate column `next_x`.
    pub open spec fn spec_left_len(self, next_x: int) -> int {
        next_x + self.active_block.left_most_cell - 1
    }

    /// Signed distance from the shape's rightmost occupied column to the
    /// right board edge at candidate column `next_x`.
    pub open spec fn spec_right_len(self, next_x: int) -> int {
        self.width - self.active_block.right_most_cell - next_x
    }

    /// Signed distance from the shape's topmost occupied row to the top board
    /// edge at candidate row `next_y`.
    pub open spec fn spec_up_len(self, next_y: int) -> int {
        next_y + self.active_block.top_most_cell - 1
    }

    /// Signed distance from the shape's bottommost occupied row to the floor
    /// at candidate row `next_y`.
    pub open spec fn spec_down_len(self, next_y: int) -> int {
        self.height - self.active_block.bottom_most_cell - next_y
    }

    /// The candidate column keeps every occupied shape column on the board.
    pub open spec fn horizontal_edge_ok(self, next_x: int) -> bool {
        self.spec_left_len(next_x) >= 0 && self.spec_right_len(next_x) >= 0
    }

    /// The candidate row keeps every occupied shape row on the board.
    pub open spec fn vertical_edge_ok(self, next_y: int) -> bool {
        self.spec_up_len(next_y) >= 0 && self.spec_down_len(next_y) >= 0
    }

    /// The outcome of evaluating a candidate anchor, in the fixed priority
    /// order: collision with the fixed stack first, then the floor/top edges,
    /// then the side edges.
    pub open spec fn spec_collision(self, next: Point) -> CollisionResult {
        if footprint_blocked(
            self.cells@,
            self.active_block.shape_array@,
            self.width as int,
            self.height as int,
            next.x as int,
            next.y as int,
        ) {
            CollisionResult::HorizontalHitBlock
        } else if !self.vertical_edge_ok(next.y as int) {
            CollisionResult::HitBottom
        } else if !self.horizontal_edge_ok(next.x as int) {
            CollisionResult::EdgeCollision
        } else {
            CollisionResult::NoEdgeCollision
        }
    }
}

/// How one move request changes the board: a rejected move leaves it
/// untouched; a `HitBottom` locks the footprint at the current anchor and
/// respawns at the fixed spawn point with a fresh shape; any other outcome
/// clears the old footprint, paints the candidate one, and commits the
/// candidate anchor.
pub open spec fn move_transition(pre: Board, next: Point, post: Board) -> bool {
    match pre.spec_collision(next) {
        CollisionResult::EdgeCollision => post == pre,
        CollisionResult::HorizontalHitBlock => post == pre,
        CollisionResult::HitBottom => {
            &&& post.width == pre.width
            &&& post.height == pre.height
            &&& post.cells@ == spec_paint(
                pre.cells@,
                pre.active_block.shape_array@,
                pre.width as int,
                pre.height as int,
                pre.active_position.x as int,
                pre.active_position.y as int,
                false,
            )
            &&& post.active_position.x == pre.width as int / 2
            &&& post.active_position.y == 1
            &&& post.active_block.wf()
            &&& is_spawnable_shape(post.active_block)
        },
        _ => {
            &&& post.width == pre.width
            &&& post.height == pre.height
            &&& post.active_block == pre.active_block
            &&& post.active_position == next
            &&& post.cells@ == spec_paint(
                spec_clear(
                    pre.cells@,
                    pre.width as int,
                    pre.height as int,
                    pre.active_position.x as int,
                    pre.active_position.y as int,
                ),
                pre.active_block.shape_array@,
                pre.width as int,
                pre.height as int,
                next.x as int,
                next.y as int,
                true,
            )
        },
    }
}

impl Board {
    /// Distance helper of the horizontal edge check (left side).
    fn left_to_edge_length(&self, next_x: i32) -> (r: i32)
        requires
            self.active_block.wf(),
            coord_in_reach(next_x as int),
        ensures
            r == self.spec_left_len(next_x as int),
    {
        proof {
            lemma_extents_in_bounds(self.active_block);
        }
        next_x + self.active_block.left_most_cell - self.active_block.center_x_offset
    }

    /// Distance helper of the horizontal edge check (right side).
    fn right_to_edge_length(&self, next_x: i32) -> (r: i32)
        requires
            self.active_block.wf(),
            self.width <= 0x1FFF_FFFF,
            coord_in_reach(next_x as int),
        ensures
            r == self.spec_right_len(next_x as int),
    {
        proof {
            lemma_extents_in_bounds(self.active_block);
        }
        self.width as i32 - 1 + (self.active_block.width as i32 - self.active_block.right_most_cell
            - self.active_block.center_x_offset) - next_x - self.active_block.width as i32 / 2
    }

    /// Distance helper of the vertical edge check (top side).
    fn up_to_edge_length(&self, next_y: i32) -> (r: i32)
        requires
            self.active_block.wf(),
            coord_in_reach(next_y as int),
        ensures
            r == self.spec_up_len(next_y as int),
    {
        proof {
            lemma_extents_in_bounds(self.active_block);
        }
        next_y + self.active_block.top_most_cell - self.active_block.center_y_offset
    }

    /// Distance helper of the vertical edge check (floor side).
    fn down_to_edge_length(&self, next_y: i32) -> (r: i32)
        requires
            self.active_block.wf(),
            self.height <= 0x1FFF_FFFF,
            coord_in_reach(next_y as int),
        ensures
            r == self.spec_down_len(next_y as int),
    {
        proof {
            lemma_extents_in_bounds(self.active_block);
        }
        self.height as i32 - 1 + (self.active_block.height as i32
            - self.active_block.bottom_most_cell - self.active_block.center_y_offset) - next_y
            - self.active_block.height as i32 / 2
    }

    /// Side-edge collision check for a candidate anchor: `EdgeCollision` when
    /// an occupied shape column would cross the left or right board edge.
    pub fn check_horizon_edge_collision(&self, next_position: &Point) -> (r: CollisionResult)
        requires
            self.active_block.wf(),
            self.width <= 0x1FFF_FFFF,
            coord_in_reach(next_position.x as int),
        ensures
            r == (if self.horizontal_edge_ok(next_position.x as int) {
                CollisionResult::NoEdgeCollision
            } else {
                CollisionResult::EdgeCollision
            }),
    {
        if self.left_to_edge_length(next_position.x) >= 0 && self.right_to_edge_length(
            next_position.x,
        ) >= 0 {
            return CollisionResult::NoEdgeCollision;
        }
        CollisionResult::EdgeCollision
    }

    /// Floor/top collision check for a candidate anchor: `HitBottom` when an
    /// occupied shape row would cross the top edge or the floor.
    pub fn check_vertical_edge_collision(&self, next_position: &Point) -> (r: CollisionResult)
        requires
            self.active_block.wf(),
            self.height <= 0x1FFF_FFFF,
            coord_in_reach(next_position.y as int),
        ensures
            r == (if self.vertical_edge_ok(next_position.y as int) {
                CollisionResult::NoEdgeCollision
            } else {
                CollisionResult::HitBottom
            }),
    {
        if self.up_to_edge_length(next_position.y) >= 0 && self.down_to_edge_length(
            next_position.y,
        ) >= 0 {
            return CollisionResult::NoEdgeCollision;
        }
        CollisionResult::HitBottom
    }

    /// Whether one relative offset of the footprint at the candidate anchor
    /// lands an occupied shape cell on the fixed stack.
    fn offset_hit(&self, next_position: &Point, x_off: u32, y_off: u32) -> (r: bool)
        requires
            1 <= self.width <= 0x1FFF_FFFF,
            1 <= self.height <= 0x1FFF_FFFF,
            self.width * self.height <= u32::MAX,
            self.cells@.len() == self.width * self.height,
            self.active_block.shape_array@.len() == 9,
        ensures
            r == offset_hits(
                self.cells@,
                self.active_block.shape_array@,
                self.width as int,
                self.height as int,
                next_position.x as int,
                next_position.y as int,
                x_off as int,
                y_off as int,
            ),
    {
        let px: i32 = next_position.x;
        let py: i32 = next_position.y;
        let line: u32 = wrap_index(y_off, py, self.height);
        if y_off == self.height - 1 && (line as i64) > (py as i64) {
            return false;
        }
        let col: u32 = wrap_index(x_off, px, self.width);
        if x_off == self.width - 1 && (col as i64) > (px as i64) {
            return false;
        }
        let index: u32 = self.get_index(line, col);
        let width_diff: u32 = if px > col as i32 {
            0
        } else if px == col as i32 {
            1
        } else {
            2
        };
        let height_diff: u32 = if py > line as i32 {
            0
        } else if py == line as i32 {
            1
        } else {
            2
        };
        let mapping: usize = (width_diff + height_diff * 3) as usize;
        let shape_cell = self.active_block.shape_array[mapping];
        let grid_cell = self.cells[index as usize];
        shape_cell == CellState::MovingOccupied && grid_cell == CellState::FixedOccupied
    }

    /// Inter-block collision check: re-run the 9-offset wrapped enumeration
    /// at the candidate anchor and report `HorizontalHitBlock` as soon as an
    /// occupied shape cell would land on a `FixedOccupied` grid cell.
    pub fn horizon_block_check(&self, next_position: &Point) -> (r: CollisionResult)
        requires
            1 <= self.width <= 0x1FFF_FFFF,
            1 <= self.height <= 0x1FFF_FFFF,
            self.width * self.height <= u32::MAX,
            self.cells@.len() == self.width * self.height,
            self.active_block.shape_array@.len() == 9,
        ensures
            r == (if footprint_blocked(
                self.cells@,
                self.active_block.shape_array@,
                self.width as int,
                self.height as int,
                next_position.x as int,
                next_position.y as int,
            ) {
                CollisionResult::HorizontalHitBlock
            } else {
                CollisionResult::NoEdgeCollision
            }),
    {
        let w1: u32 = self.width - 1;
        let h1: u32 = self.height - 1;
        if self.offset_hit(next_position, w1, h1) {
            return CollisionResult::HorizontalHitBlock;
        }
        if self.offset_hit(next_position, w1, 0) {
            return CollisionResult::HorizontalHitBlock;
        }
        if self.offset_hit(next_position, w1, 1) {
            return CollisionResult::HorizontalHitBlock;
        }
        if self.offset_hit(next_position, 0, h1) {
            return CollisionResult::HorizontalHitBlock;
        }
        if self.offset_hit(next_position, 0, 0) {
            return CollisionResult::HorizontalHitBlock;
        }
        if self.offset_hit(next_position, 0, 1) {
            return CollisionResult::HorizontalHitBlock;
        }
        if self.offset_hit(next_position, 1, h1) {
            return CollisionResult::HorizontalHitBlock;
        }
        if self.offset_hit(next_position, 1, 0) {
            return CollisionResult::HorizontalHitBlock;
        }
        if self.offset_hit(next_position, 1, 1) {
            return CollisionResult::HorizontalHitBlock;
        }
        CollisionResult::NoEdgeCollision
    }

    /// Full collision evaluation for a candidate anchor, in the fixed
    /// priority order: stack collision, then floor/top, then side edges. The
    /// first non-passing check is authoritative.
    pub fn edge_collision_check(&self, next_position: &Point) -> (r: CollisionResult)
        requires
            self.wf(),
            coord_in_reach(next_position.x as int),
            coord_in_reach(next_position.y as int),
        ensures
            r == self.spec_collision(*next_position),
    {
        let horizon_block = self.horizon_block_check(next_position);
        if matches!(horizon_block, CollisionResult::HorizontalHitBlock) {
            return CollisionResult::HorizontalHitBlock;
        }
        let vertical_edge = self.check_vertical_edge_collision(next_position);
        if matches!(vertical_edge, CollisionResult::HitBottom) {
            return CollisionResult::HitBottom;
        }
        let horizon_edge = self.check_horizon_edge_collision(next_position);
        if matches!(horizon_edge, CollisionResult::EdgeCollision) {
            return CollisionResult::EdgeCollision;
        }
        CollisionResult::NoEdgeCollision
    }

    /// Begin a round: reset the anchor to the fixed spawn point (horizontal
    /// center, near the top) and draw a fresh random shape. The grid itself
    /// is left untouched; the new footprint is painted by the first move.
    ///
    /// Spawning deliberately never examines the grid: a spawn cell may
    /// already belong to the fixed stack, and stacking indefinitely past the
    /// top of the board is accepted behavior. There is no terminal
    /// "game over" state in this core.
    pub fn new_round(&mut self)
        requires
            old(self).wf(),
        ensures
            final(self).wf(),
            final(self).cells@ == old(self).cells@,
            final(self).width == old(self).width,
            final(self).height == old(self).height,
            final(self).active_position.x == old(self).width as int / 2,
            final(self).active_position.y == 1,
            is_spawnable_shape(final(self).active_block),
    {
        proof {
            vstd::arithmetic::div_mod::lemma_div_decreases(old(self).width as int, 2);
        }
        self.active_position = Point { x: (self.width / 2) as i32, y: 1 };
        let block = BlockType::get_random_block();
        self.active_block = block;
    }

    /// Begin a round with an injected entropy byte: deterministic shape
    /// selection for tests and seeded sequences, otherwise exactly
    /// `new_round`.
    pub fn new_round_with_entropy(&mut self, entropy: u8)
        requires
            old(self).wf(),
        ensures
            final(self).wf(),
            final(self).cells@ == old(self).cells@,
            final(self).width == old(self).width,
            final(self).height == old(self).height,
            final(self).active_position.x == old(self).width as int / 2,
            final(self).active_position.y == 1,
            final(self).active_block.shape_array@ == selected_shape(entropy),
            is_catalog_shape(final(self).active_block),
    {
        proof {
            vstd::arithmetic::div_mod::lemma_div_decreases(old(self).width as int, 2);
        }
        self.active_position = Point { x: (self.width / 2) as i32, y: 1 };
        let block = BlockType::get_block_for_entropy(entropy);
        self.active_block = block;
    }

    /// Apply one move request: reject it on an edge or stack collision, lock
    /// and respawn on `HitBottom`, otherwise repaint at the candidate anchor.
    fn move_block(&mut self, next_position: Point)
        requires
            old(self).wf(),
            coord_in_reach(next_position.x as int),
            coord_in_reach(next_position.y as int),
        ensures
            final(self).wf(),
            move_transition(*old(self), next_position, *final(self)),
    {
        let collision = self.edge_collision_check(&next_position);
        match collision {
            CollisionResult::EdgeCollision => {},
            CollisionResult::HorizontalHitBlock => {},
            CollisionResult::HitBottom => {
                let position = self.active_position;
                self.draw_current_block(position, false);
                self.new_round();
            },
            _ => {
                proof {
                    lemma_extents_in_bounds(old(self).active_block);
                }
                self.clear_last_position();
                self.draw_current_block(next_position, true);
            },
        }
    }

    /// Request a move one row up.
    pub fn up(&mut self)
        requires
            old(self).wf(),
        ensures
            final(self).wf(),
            move_transition(
                *old(self),
                (Point {
                    x: old(self).active_position.x,
                    y: (old(self).active_position.y - 1) as i32,
                }),
                *final(self),
            ),
    {
        let next_position = Point { x: self.active_position.x, y: self.active_position.y - 1 };
        self.move_block(next_position);
    }

    /// Request a move one row down.
    pub fn down(&mut self)
        requires
            old(self).wf(),
        ensures
            final(self).wf(),
            move_transition(
                *old(self),
                (Point {
                    x: old(self).active_position.x,
                    y: (old(self).active_position.y + 1) as i32,
                }),
                *final(self),
            ),
    {
        let next_position = Point { x: self.active_position.x, y: self.active_position.y + 1 };
        self.move_block(next_position);
    }

    /// Request a move one column left.
    pub fn left(&mut self)
        requires
            old(self).wf(),
        ensures
            final(self).wf(),
            move_transition(
                *old(self),
                (Point {
                    x: (old(self).active_position.x - 1) as i32,
                    y: old(self).active_position.y,
                }),
                *final(self),
            ),
    {
        let next_position = Point { x: self.active_position.x - 1, y: self.active_position.y };
        self.move_block(next_position);
    }

    /// Request a move one column right.
    pub fn right(&mut self)
        requires
            old(self).wf(),
        ensures
            final(self).wf(),
            move_transition(
                *old(self),
                (Point {
                    x: (old(self).active_position.x + 1) as i32,
                    y: old(self).active_position.y,
                }),
                *final(self),
            ),
    {
        let next_position = Point { x: self.active_position.x + 1, y: self.active_position.y };
        self.move_block(next_position);
    }
}

/// The wrapped board coordinate for one relative offset, computed over the
/// signed anchor.
fn wrap_index(offset: u32, anchor: i32, modulus: u32) -> (r: u32)
    requires
        1 <= modulus,
    ensures
        r == wrap_coord(offset as int, anchor as int, modulus as int),
        r < modulus,
{
    let sum: i64 = offset as i64 + anchor as i64;
    let m: i64 = modulus as i64;
    proof {
        lemma_mod_bound(sum as int, m as int);
    }
    match sum.checked_rem_euclid(m) {
        Some(v) => v as u32,
        None => {
            proof {
                assert(false);
            }
            0
        },
    }
}

/// Every index the 9-offset enumeration can touch lies inside the grid.
proof fn lemma_all_offsets_in_range(width: int, height: int, px: int, py: int)
    requires
        1 <= width,
        1 <= height,
    ensures
        forall|x_off: int, y_off: int|
            0 <= #[trigger] spec_index(
                width,
                wrap_coord(y_off, py, height),
                wrap_coord(x_off, px, width),
            ) < width * height,
{
    assert forall|x_off: int, y_off: int|
        0 <= #[trigger] spec_index(
            width,
            wrap_coord(y_off, py, height),
            wrap_coord(x_off, px, width),
        ) < width * height by {
        lemma_footprint_index_in_range(width, height, px, py, x_off, y_off);
    }
}

/// One painting step preserves the grid's length.
proof fn lemma_paint_cell_preserves_len(
    cells: Seq<CellState>,
    shape: Seq<CellState>,
    width: int,
    height: int,
    px: int,
    py: int,
    x_off: int,
    y_off: int,
    draw_active: bool,
)
    requires
        1 <= width,
        1 <= height,
        cells.len() == width * height,
    ensures
        paint_cell(cells, shape, width, height, px, py, x_off, y_off, draw_active).len()
            == cells.len(),
{
    lemma_footprint_index_in_range(width, height, px, py, x_off, y_off);
}

/// One painted column preserves the grid's length.
proof fn lemma_paint_col_preserves_len(
    cells: Seq<CellState>,
    shape: Seq<CellState>,
    width: int,
    height: int,
    px: int,
    py: int,
    x_off: int,
    draw_active: bool,
)
    requires
        1 <= width,
        1 <= height,
        cells.len() == width * height,
    ensures
        paint_col(cells, shape, width, height, px, py, x_off, draw_active).len() == cells.len(),
{
    let c1 = paint_cell(cells, shape, width, height, px, py, x_off, height - 1, draw_active);
    lemma_paint_cell_preserves_len(
        cells,
        shape,
        width,
        height,
        px,
        py,
        x_off,
        height - 1,
        draw_active,
    );
    let c2 = paint_cell(c1, shape, width, height, px, py, x_off, 0, draw_active);
    lemma_paint_cell_preserves_len(c1, shape, width, height, px, py, x_off, 0, draw_active);
    lemma_paint_cell_preserves_len(c2, shape, width, height, px, py, x_off, 1, draw_active);
}

/// Painting preserves the grid's length.
proof fn lemma_paint_preserves_len(
    cells: Seq<CellState>,
    shape: Seq<CellState>,
    width: int,
    height: int,
    px: int,
    py: int,
    draw_active: bool,
)
    requires
        1 <= width,
        1 <= height,
        cells.len() == width * height,
    ensures
        spec_paint(cells, shape, width, height, px, py, draw_active).len() == cells.len(),
{
    let c1 = paint_col(cells, shape, width, height, px, py, width - 1, draw_active);
    lemma_paint_col_preserves_len(cells, shape, width, height, px, py, width - 1, draw_active);
    let c2 = paint_col(c1, shape, width, height, px, py, 0, draw_active);
    lemma_paint_col_preserves_len(c1, shape, width, height, px, py, 0, draw_active);
    lemma_paint_col_preserves_len(c2, shape, width, height, px, py, 1, draw_active);
}

/// One clearing step preserves the grid's length.
proof fn lemma_clear_cell_preserves_len(
    cells: Seq<CellState>,
    width: int,
    height: int,
    px: int,
    py: int,
    x_off: int,
    y_off: int,
)
    requires
        1 <= width,
        1 <= height,
        cells.len() == width * height,
    ensures
        clear_cell(cells, width, height, px, py, x_off, y_off).len() == cells.len(),
{
    lemma_footprint_index_in_range(width, height, px, py, x_off, y_off);
}

/// One cleared column preserves the grid's length.
proof fn lemma_clear_col_preserves_len(
    cells: Seq<CellState>,
    width: int,
    height: int,
    px: int,
    py: int,
    x_off: int,
)
    requires
        1 <= width,
        1 <= height,
        cells.len() == width * height,
    ensures
        clear_col(cells, width, height, px, py, x_off).len() == cells.len(),
{
    let c1 = clear_cell(cells, width, height, px, py, x_off, height - 1);
    lemma_clear_cell_preserves_len(cells, width, height, px, py, x_off, height - 1);
    let c2 = clear_cell(c1, width, height, px, py, x_off, 0);
    lemma_clear_cell_preserves_len(c1, width, height, px, py, x_off, 0);
    lemma_clear_cell_preserves_len(c2, width, height, px, py, x_off, 1);
}

/// Clearing preserves the grid's length.
proof fn lemma_clear_preserves_len(
    cells: Seq<CellState>,
    width: int,
    height: int,
    px: int,
    py: int,
)
    requires
        1 <= width,
        1 <= height,
        cells.len() == width * height,
    ensures
        spec_clear(cells, width, height, px, py).len() == cells.len(),
{
    let c1 = clear_col(cells, width, height, px, py, width - 1);
    lemma_clear_col_preserves_len(cells, width, height, px, py, width - 1);
    let c2 = clear_col(c1, width, height, px, py, 0);
    lemma_clear_col_preserves_len(c1, width, height, px, py, 0);
    lemma_clear_col_preserves_len(c2, width, height, px, py, 1);
}

/// The index visited by the offset pair `(x_off, y_off)` of the footprint
/// enumeration at anchor `(px, py)`.
pub open spec fn visited_index(
    width: int,
    height: int,
    px: int,
    py: int,
    x_off: int,
    y_off: int,
) -> int {
    spec_index(width, wrap_coord(y_off, py, height), wrap_coord(x_off, px, width))
}

/// Whether `k` is one of the nine indices the footprint enumeration visits at
/// anchor `(px, py)`.
pub open spec fn footprint_covers(width: int, height: int, px: int, py: int, k: int) -> bool {
    ||| k == visited_index(width, height, px, py, width - 1, height - 1)
    ||| k == visited_index(width, height, px, py, width - 1, 0)
    ||| k == visited_index(width, height, px, py, width - 1, 1)
    ||| k == visited_index(width, height, px, py, 0, height - 1)
    ||| k == visited_index(width, height, px, py, 0, 0)
    ||| k == visited_index(width, height, px, py, 0, 1)
    ||| k == visited_index(width, height, px, py, 1, height - 1)
    ||| k == visited_index(width, height, px, py, 1, 0)
    ||| k == visited_index(width, height, px, py, 1, 1)
}

/// One clearing step, seen per element: the visited index becomes `Empty`,
/// every other index keeps its value.
proof fn lemma_clear_cell_elem(
    cells: Seq<CellState>,
    width: int,
    height: int,
    px: int,
    py: int,
    x_off: int,
    y_off: int,
    k: int,
)
    requires
        1 <= width,
        1 <= height,
        cells.len() == width * height,
        0 <= k < cells.len(),
    ensures
        clear_cell(cells, width, height, px, py, x_off, y_off)[k] == if k == visited_index(
            width,
            height,
            px,
            py,
            x_off,
            y_off,
        ) {
            CellState::Empty
        } else {
            cells[k]
        },
{
    lemma_footprint_index_in_range(width, height, px, py, x_off, y_off);
}

/// One cleared column, seen per element.
proof fn lemma_clear_col_elem(
    cells: Seq<CellState>,
    width: int,
    height: int,
    px: int,
    py: int,
    x_off: int,
    k: int,
)
    requires
        1 <= width,
        1 <= height,
        cells.len() == width * height,
        0 <= k < cells.len(),
    ensures
        clear_col(cells, width, height, px, py, x_off)[k] == if k == visited_index(
            width,
            height,
            px,
            py,
            x_off,
            height - 1,
        ) || k == visited_index(width, height, px, py, x_off, 0) || k == visited_index(
            width,
            height,
            px,
            py,
            x_off,
            1,
        ) {
            CellState::Empty
        } else {
            cells[k]
        },
{
    let c1 = clear_cell(cells, width, height, px, py, x_off, height - 1);
    lemma_clear_cell_preserves_len(cells, width, height, px, py, x_off, height - 1);
    lemma_clear_cell_elem(cells, width, height, px, py, x_off, height - 1, k);
    let c2 = clear_cell(c1, width, height, px, py, x_off, 0);
    lemma_clear_cell_preserves_len(c1, width, height, px, py, x_off, 0);
    lemma_clear_cell_elem(c1, width, height, px, py, x_off, 0, k);
    lemma_clear_cell_elem(c2, width, height, px, py, x_off, 1, k);
}

/// The full footprint clear, seen per element: exactly the nine visited
/// indices become `Empty`, every other cell keeps its value.
pub proof fn lemma_clear_elem(
    cells: Seq<CellState>,
    width: int,
    height: int,
    px: int,
    py: int,
    k: int,
)
    requires
        1 <= width,
        1 <= height,
        cells.len() == width * height,
        0 <= k < cells.len(),
    ensures
        spec_clear(cells, width, height, px, py)[k] == if footprint_covers(
            width,
            height,
            px,
            py,
            k,
        ) {
            CellState::Empty
        } else {
            cells[k]
        },
{
    let c1 = clear_col(cells, width, height, px, py, width - 1);
    lemma_clear_col_preserves_len(cells, width, height, px, py, width - 1);
    lemma_clear_col_elem(cells, width, height, px, py, width - 1, k);
    let c2 = clear_col(c1, width, height, px, py, 0);
    lemma_clear_col_preserves_len(c1, width, height, px, py, 0);
    lemma_clear_col_elem(c1, width, height, px, py, 0, k);
    lemma_clear_col_elem(c2, width, height, px, py, 1, k);
}

/// Law: clearing the footprint twice in a row at the same anchor yields the
/// same grid as clearing it once — re-clearing `Empty` cells is a no-op.
pub proof fn lemma_clear_idempotent(
    cells: Seq<CellState>,
    width: int,
    height: int,
    px: int,
    py: int,
)
    requires
        1 <= width,
        1 <= height,
        cells.len() == width * height,
    ensures
        spec_clear(spec_clear(cells, width, height, px, py), width, height, px, py) == spec_clear(
            cells,
            width,
            height,
            px,
            py,
        ),
{
    let once = spec_clear(cells, width, height, px, py);
    lemma_clear_preserves_len(cells, width, height, px, py);
    let twice = spec_clear(once, width, height, px, py);
    lemma_clear_preserves_len(once, width, height, px, py);
    assert forall|k: int| 0 <= k < once.len() implies twice[k] == once[k] by {
        lemma_clear_elem(cells, width, height, px, py, k);
        lemma_clear_elem(once, width, height, px, py, k);
    }
    assert(twice =~= once);
}

/// Distinct in-range coordinates give distinct row-major indices.
proof fn lemma_index_injective(width: int, l1: int, c1: int, l2: int, c2: int)
    requires
        0 <= c1 < width,
        0 <= c2 < width,
        0 <= l1,
        0 <= l2,
        spec_index(width, l1, c1) == spec_index(width, l2, c2),
    ensures
        l1 == l2,
        c1 == c2,
{
    assert(l1 == l2 && c1 == c2) by (nonlinear_arith)
        requires
            0 <= c1 < width,
            0 <= c2 < width,
            0 <= l1,
            0 <= l2,
            width * l1 + c1 == width * l2 + c2,
    ;
}

/// In a locking paint, once the target cell of an occupied footprint
/// coordinate holds `FixedOccupied`, any further painting step keeps it so: a
/// step visiting other coordinates cannot touch the cell, and a step that
/// aliases the same coordinates maps the same occupied shape cell and
/// re-commits it.
proof fn lemma_paint_cell_keeps_lock(
    cells: Seq<CellState>,
    shape: Seq<CellState>,
    width: int,
    height: int,
    px: int,
    py: int,
    x_off: int,
    y_off: int,
    l: int,
    c: int,
)
    requires
        1 <= width,
        1 <= height,
        cells.len() == width * height,
        0 <= l < height,
        0 <= c < width,
        mapped_shape_cell(shape, px, py, l, c) == CellState::MovingOccupied,
        cells[spec_index(width, l, c)] == CellState::FixedOccupied,
    ensures
        paint_cell(cells, shape, width, height, px, py, x_off, y_off, false)[spec_index(
            width,
            l,
            c,
        )] == CellState::FixedOccupied,
{
    lemma_footprint_index_in_range(width, height, px, py, x_off, y_off);
    lemma_grid_index_in_bounds(width, height, l, c);
    lemma_mod_bound(y_off + py, height);
    lemma_mod_bound(x_off + px, width);
    let line = wrap_coord(y_off, py, height);
    let col = wrap_coord(x_off, px, width);
    if l != line || c != col {
        if spec_index(width, l, c) == visited_index(width, height, px, py, x_off, y_off) {
            lemma_index_injective(width, l, c, line, col);
        }
    }
}

/// One locking column keeps an already committed occupied footprint cell
/// `FixedOccupied`.
proof fn lemma_paint_col_keeps_lock(
    cells: Seq<CellState>,
    shape: Seq<CellState>,
    width: int,
    height: int,
    px: int,
    py: int,
    x_off: int,
    l: int,
    c: int,
)
    requires
        1 <= width,
        1 <= height,
        cells.len() == width * height,
        0 <= l < height,
        0 <= c < width,
        mapped_shape_cell(shape, px, py, l, c) == CellState::MovingOccupied,
        cells[spec_index(width, l, c)] == CellState::FixedOccupied,
    ensures
        paint_col(cells, shape, width, height, px, py, x_off, false)[spec_index(width, l, c)]
            == CellState::FixedOccupied,
{
    let c1 = paint_cell(cells, shape, width, height, px, py, x_off, height - 1, false);
    lemma_paint_cell_preserves_len(cells, shape, width, height, px, py, x_off, height - 1, false);
    lemma_paint_cell_keeps_lock(cells, shape, width, height, px, py, x_off, height - 1, l, c);
    let c2 = paint_cell(c1, shape, width, height, px, py, x_off, 0, false);
    lemma_paint_cell_preserves_len(c1, shape, width, height, px, py, x_off, 0, false);
    lemma_paint_cell_keeps_lock(c1, shape, width, height, px, py, x_off, 0, l, c);
    lemma_paint_cell_keeps_lock(c2, shape, width, height, px, py, x_off, 1, l, c);
}

/// Within one locking column, the step for an unclipped occupied offset
/// leaves `FixedOccupied` at its wrapped coordinate.
proof fn lemma_paint_col_lock(
    cells: Seq<CellState>,
    shape: Seq<CellState>,
    width: int,
    height: int,
    px: int,
    py: int,
    x_off: int,
    y_off: int,
)
    requires
        1 <= width,
        1 <= height,
        cells.len() == width * height,
        y_off == height - 1 || y_off == 0 || y_off == 1,
        !skip_offset(y_off, py, height),
        !skip_offset(x_off, px, width),
        mapped_shape_cell(
            shape,
            px,
            py,
            wrap_coord(y_off, py, height),
            wrap_coord(x_off, px, width),
        ) == CellState::MovingOccupied,
    ensures
        paint_col(cells, shape, width, height, px, py, x_off, false)[visited_index(
            width,
            height,
            px,
            py,
            x_off,
            y_off,
        )] == CellState::FixedOccupied,
{
    lemma_mod_bound(y_off + py, height);
    lemma_mod_bound(x_off + px, width);
    let line = wrap_coord(y_off, py, height);
    let col = wrap_coord(x_off, px, width);
    lemma_footprint_index_in_range(width, height, px, py, x_off, y_off);
    let c1 = paint_cell(cells, shape, width, height, px, py, x_off, height - 1, false);
    lemma_paint_cell_preserves_len(cells, shape, width, height, px, py, x_off, height - 1, false);
    let c2 = paint_cell(c1, shape, width, height, px, py, x_off, 0, false);
    lemma_paint_cell_preserves_len(c1, shape, width, height, px, py, x_off, 0, false);
    if y_off == height - 1 {
        lemma_paint_cell_keeps_lock(c1, shape, width, height, px, py, x_off, 0, line, col);
        lemma_paint_cell_keeps_lock(c2, shape, width, height, px, py, x_off, 1, line, col);
    } else if y_off == 0 {
        lemma_paint_cell_keeps_lock(c2, shape, width, height, px, py, x_off, 1, line, col);
    }
}

/// Law: a locking paint (`draw_as_moving == false`) turns every unclipped
/// footprint cell whose shape cell is occupied into `FixedOccupied`, on every
/// board geometry, aliased offsets included.
pub proof fn lemma_lock_paints_fixed(
    cells: Seq<CellState>,
    shape: Seq<CellState>,
    width: int,
    height: int,
    px: int,
    py: int,
    x_off: int,
    y_off: int,
)
    requires
        1 <= width,
        1 <= height,
        cells.len() == width * height,
        x_off == width - 1 || x_off == 0 || x_off == 1,
        y_off == height - 1 || y_off == 0 || y_off == 1,
        !skip_offset(y_off, py, height),
        !skip_offset(x_off, px, width),
        mapped_shape_cell(
            shape,
            px,
            py,
            wrap_coord(y_off, py, height),
            wrap_coord(x_off, px, width),
        ) == CellState::MovingOccupied,
    ensures
        spec_paint(cells, shape, width, height, px, py, false)[visited_index(
            width,
            height,
            px,
            py,
            x_off,
            y_off,
        )] == CellState::FixedOccupied,
{
    lemma_mod_bound(y_off + py, height);
    lemma_mod_bound(x_off + px, width);
    let line = wrap_coord(y_off, py, height);
    let col = wrap_coord(x_off, px, width);
    let s1 = paint_col(cells, shape, width, height, px, py, width - 1, false);
    lemma_paint_col_preserves_len(cells, shape, width, height, px, py, width - 1, false);
    let s2 = paint_col(s1, shape, width, height, px, py, 0, false);
    lemma_paint_col_preserves_len(s1, shape, width, height, px, py, 0, false);
    if x_off == width - 1 {
        lemma_paint_col_lock(cells, shape, width, height, px, py, width - 1, y_off);
        lemma_paint_col_keeps_lock(s1, shape, width, height, px, py, 0, line, col);
        lemma_paint_col_keeps_lock(s2, shape, width, height, px, py, 1, line, col);
    } else if x_off == 0 {
        lemma_paint_col_lock(s1, shape, width, height, px, py, 0, y_off);
        lemma_paint_col_keeps_lock(s2, shape, width, height, px, py, 1, line, col);
    } else {
        lemma_paint_col_lock(s2, shape, width, height, px, py, 1, y_off);
    }
}

/// Law: after a `HitBottom` transition, every unclipped footprint cell the
/// locked shape occupied holds `FixedOccupied`, and the subsequent spawn's
/// anchor is the fixed spawn point `(width / 2, 1)`.
pub proof fn lemma_lock_transition_fixes_footprint(
    pre: Board,
    next: Point,
    post: Board,
    x_off: int,
    y_off: int,
)
    requires
        pre.wf(),
        move_transition(pre, next, post),
        pre.spec_collision(next) == CollisionResult::HitBottom,
        x_off == pre.width - 1 || x_off == 0 || x_off == 1,
        y_off == pre.height - 1 || y_off == 0 || y_off == 1,
        !skip_offset(y_off, pre.active_position.y as int, pre.height as int),
        !skip_offset(x_off, pre.active_position.x as int, pre.width as int),
        mapped_shape_cell(
            pre.active_block.shape_array@,
            pre.active_position.x as int,
            pre.active_position.y as int,
            wrap_coord(y_off, pre.active_position.y as int, pre.height as int),
            wrap_coord(x_off, pre.active_position.x as int, pre.width as int),
        ) == CellState::MovingOccupied,
    ensures
        post.cells@[visited_index(
            pre.width as int,
            pre.height as int,
            pre.active_position.x as int,
            pre.active_position.y as int,
            x_off,
            y_off,
        )] == CellState::FixedOccupied,
        post.active_position.x == pre.width as int / 2,
        post.active_position.y == 1,
{
    lemma_lock_paints_fixed(
        pre.cells@,
        pre.active_block.shape_array@,
        pre.width as int,
        pre.height as int,
        pre.active_position.x as int,
        pre.active_position.y as int,
        x_off,
        y_off,
    );
}

/// A row-major index formed from in-range coordinates lies inside the grid.
proof fn lemma_grid_index_in_bounds(width: int, height: int, line: int, col: int)
    requires
        1 <= width,
        1 <= height,
        0 <= line < height,
        0 <= col < width,
    ensures
        0 <= width * line + col < width * height,
{
    assert(width * line + col < width * height) by (nonlinear_arith)
        requires
            1 <= width,
            0 <= line < height,
            0 <= col < width,
    ;
    assert(width * line + col >= 0) by (nonlinear_arith)
        requires
            1 <= width,
            0 <= line,
            0 <= col,
    ;
}

/// Law: for every valid board geometry and every anchor, signed or not, the
/// linear index that the painting and clearing enumeration produces for any
/// relative offset lies in `[0, width * height)` — no visit can write out of
/// bounds.
pub proof fn lemma_footprint_index_in_range(
    width: int,
    height: int,
    px: int,
    py: int,
    x_off: int,
    y_off: int,
)
    requires
        1 <= width,
        1 <= height,
    ensures
        0 <= spec_index(width, wrap_coord(y_off, py, height), wrap_coord(x_off, px, width))
            < width * height,
{
    lemma_mod_bound(y_off + py, height);
    lemma_mod_bound(x_off + px, width);
    lemma_grid_index_in_bounds(
        width,
        height,
        wrap_coord(y_off, py, height),
        wrap_coord(x_off, px, width),
    );
}

} // verus!
