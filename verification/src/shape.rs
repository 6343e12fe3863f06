//! Block shapes: a fixed 3x3 occupancy pattern, flattened row-major with the
//! center cell at index 4, plus precomputed bounding extents and the catalog
//! of named variants.

use vstd::prelude::*;
use vstd::string::StringExecFns;
use crate::cell::CellState;
use crate::entropy::fetch_entropy_byte;

verus! {

/// A named 3x3 block shape with derived scalar extents.
///
/// The extents record, in shape-local coordinates, the outermost occupied
/// column (`left_most_cell`/`right_most_cell`) and row
/// (`top_most_cell`/`bottom_most_cell`). They must be recomputed whenever the
/// occupancy pattern changes: a shape with stale extents produces silently
/// wrong collision results. The shape is always anchored at its own center
/// cell, so both center offsets are fixed at 1.
#[derive(Clone, Debug)]
pub struct Block {
    pub name: String,
    pub width: u32,
    pub height: u32,
    pub shape_array: Vec<CellState>,
    pub left_most_cell: i32,
    pub right_most_cell: i32,
    pub top_most_cell: i32,
    pub bottom_most_cell: i32,
    pub center_x_offset: i32,
    pub center_y_offset: i32,
}

/// Column `c` of the 3x3 pattern holds at least one occupied cell.
pub open spec fn col_occupied(shape: Seq<CellState>, c: int) -> bool {
    ||| shape[c] == CellState::MovingOccupied
    ||| shape[c + 3] == CellState::MovingOccupied
    ||| shape[c + 6] == CellState::MovingOccupied
}

/// Row `r` of the 3x3 pattern holds at least one occupied cell.
pub open spec fn row_occupied(shape: Seq<CellState>, r: int) -> bool {
    ||| shape[3 * r] == CellState::MovingOccupied
    ||| shape[3 * r + 1] == CellState::MovingOccupied
    ||| shape[3 * r + 2] == CellState::MovingOccupied
}

/// The first occupied column of the pattern, or -1 if none is occupied.
pub open spec fn spec_left_most(shape: Seq<CellState>) -> int {
    if col_occupied(shape, 0) {
        0
    } else if col_occupied(shape, 1) {
        1
    } else if col_occupied(shape, 2) {
        2
    } else {
        -1
    }
}

/// The last occupied column of the pattern, or -1 if none is occupied.
pub open spec fn spec_right_most(shape: Seq<CellState>) -> int {
    if col_occupied(shape, 2) {
        2
    } else if col_occupied(shape, 1) {
        1
    } else if col_occupied(shape, 0) {
        0
    } else {
        -1
    }
}

/// The first occupied row of the pattern, or -1 if none is occupied.
pub open spec fn spec_top_most(shape: Seq<CellState>) -> int {
    if row_occupied(shape, 0) {
        0
    } else if row_occupied(shape, 1) {
        1
    } else if row_occupied(shape, 2) {
        2
    } else {
        -1
    }
}

/// The last occupied row of the pattern, or -1 if none is occupied.
pub open spec fn spec_bottom_most(shape: Seq<CellState>) -> int {
    if row_occupied(shape, 2) {
        2
    } else if row_occupied(shape, 1) {
        1
    } else if row_occupied(shape, 0) {
        0
    } else {
        -1
    }
}

impl Block {
    /// Well-formedness: the fixed 3x3 geometry, an occupied center cell (every
    /// catalog variant grows out of the single-center-cell basic shape), and
    /// extents that match the occupancy pattern, never stale.
    pub open spec fn wf(self) -> bool {
        &&& self.shape_array@.len() == 9
        &&& self.width == 3
        &&& self.height == 3
        &&& self.center_x_offset == 1
        &&& self.center_y_offset == 1
        &&& self.shape_array@[4] == CellState::MovingOccupied
        &&& self.left_most_cell == spec_left_most(self.shape_array@)
        &&& self.right_most_cell == spec_right_most(self.shape_array@)
        &&& self.top_most_cell == spec_top_most(self.shape_array@)
        &&& self.bottom_most_cell == spec_bottom_most(self.shape_array@)
    }

    /// Recompute the four bounding extents from the occupancy pattern. Must be
    /// called after any change to the pattern and before any collision query
    /// reads the extents.
    pub fn calculate_most_cell(&mut self)
        requires
            old(self).shape_array@.len() == 9,
        ensures
            final(self).left_most_cell == spec_left_most(old(self).shape_array@),
            final(self).right_most_cell == spec_right_most(old(self).shape_array@),
            final(self).top_most_cell == spec_top_most(old(self).shape_array@),
            final(self).bottom_most_cell == spec_bottom_most(old(self).shape_array@),
            final(self).shape_array@ == old(self).shape_array@,
            final(self).name == old(self).name,
            final(self).width == old(self).width,
            final(self).height == old(self).height,
            final(self).center_x_offset == old(self).center_x_offset,
            final(self).center_y_offset == old(self).center_y_offset,
    {
        let left: i32 = if col_has(&self.shape_array, 0) {
            0
        } else if col_has(&self.shape_array, 1) {
            1
        } else if col_has(&self.shape_array, 2) {
            2
        } else {
            -1
        };
        let right: i32 = if col_has(&self.shape_array, 2) {
            2
        } else if col_has(&self.shape_array, 1) {
            1
        } else if col_has(&self.shape_array, 0) {
            0
        } else {
            -1
        };
        let top: i32 = if row_has(&self.shape_array, 0) {
            0
        } else if row_has(&self.shape_array, 1) {
            1
        } else if row_has(&self.shape_array, 2) {
            2
        } else {
            -1
        };
        let bottom: i32 = if row_has(&self.shape_array, 2) {
            2
        } else if row_has(&self.shape_array, 1) {
            1
        } else if row_has(&self.shape_array, 0) {
            0
        } else {
            -1
        };
        self.left_most_cell = left;
        self.right_most_cell = right;
        self.top_most_cell = top;
        self.bottom_most_cell = bottom;
    }
}

/// Whether column `c` of the flattened 3x3 pattern holds an occupied cell.
fn col_has(shape: &Vec<CellState>, c: usize) -> (r: bool)
    requires
        shape@.len() == 9,
        c < 3,
    ensures
        r == col_occupied(shape@, c as int),
{
    shape[c] == CellState::MovingOccupied || shape[c + 3] == CellState::MovingOccupied
        || shape[c + 6] == CellState::MovingOccupied
}

/// Whether row `r` of the flattened 3x3 pattern holds an occupied cell.
fn row_has(shape: &Vec<CellState>, r: usize) -> (res: bool)
    requires
        shape@.len() == 9,
        r < 3,
    ensures
        res == row_occupied(shape@, r as int),
{
    shape[3 * r] == CellState::MovingOccupied || shape[3 * r + 1] == CellState::MovingOccupied
        || shape[3 * r + 2] == CellState::MovingOccupied
}

/// Law: for every well-formed shape, `left_most <= right_most` and
/// `top_most <= bottom_most`, and both pairs lie within the 3x3 local bounds
/// `[0, 2]`. The occupied center cell even pins each pair around 1.
pub proof fn lemma_extents_in_bounds(b: Block)
    requires
        b.wf(),
    ensures
        0 <= b.left_most_cell <= 1,
        1 <= b.right_most_cell <= 2,
        0 <= b.top_most_cell <= 1,
        1 <= b.bottom_most_cell <= 2,
        b.left_most_cell <= b.right_most_cell,
        b.top_most_cell <= b.bottom_most_cell,
{
    assert(col_occupied(b.shape_array@, 1));
    assert(row_occupied(b.shape_array@, 1));
}

/// The degenerate single-center-cell pattern.
pub open spec fn basic_shape() -> Seq<CellState> {
    seq![
        CellState::Empty, CellState::Empty, CellState::Empty,
        CellState::Empty, CellState::MovingOccupied, CellState::Empty,
        CellState::Empty, CellState::Empty, CellState::Empty,
    ]
}

/// The square variant: a 2x2 footprint in the lower right of the pattern.
pub open spec fn square_shape() -> Seq<CellState> {
    basic_shape().update(5, CellState::MovingOccupied).update(7, CellState::MovingOccupied).update(
        8,
        CellState::MovingOccupied,
    )
}

/// The Z variant.
pub open spec fn z_shape() -> Seq<CellState> {
    basic_shape().update(3, CellState::MovingOccupied).update(7, CellState::MovingOccupied).update(
        8,
        CellState::MovingOccupied,
    )
}

/// The T variant.
pub open spec fn t_shape() -> Seq<CellState> {
    basic_shape().update(0, CellState::MovingOccupied).update(1, CellState::MovingOccupied).update(
        2,
        CellState::MovingOccupied,
    ).update(7, CellState::MovingOccupied)
}

/// The I variant: the full center column.
pub open spec fn i_shape() -> Seq<CellState> {
    basic_shape().update(1, CellState::MovingOccupied).update(7, CellState::MovingOccupied)
}

/// The L variant.
pub open spec fn l_shape() -> Seq<CellState> {
    basic_shape().update(1, CellState::MovingOccupied).update(7, CellState::MovingOccupied).update(
        8,
        CellState::MovingOccupied,
    )
}

/// The five named variants the catalog draws from.
pub open spec fn is_catalog_shape(b: Block) -> bool {
    ||| b.shape_array@ == square_shape()
    ||| b.shape_array@ == i_shape()
    ||| b.shape_array@ == l_shape()
    ||| b.shape_array@ == t_shape()
    ||| b.shape_array@ == z_shape()
}

/// What a spawn may produce: a catalog variant, or the degenerate basic shape
/// as the explicit fallback when the entropy source is unavailable.
pub open spec fn is_spawnable_shape(b: Block) -> bool {
    is_catalog_shape(b) || b.shape_array@ == basic_shape()
}

/// The variant selected by one byte of entropy: uniform over the five catalog
/// shapes, by the byte's remainder modulo 5.
pub open spec fn selected_shape(entropy: u8) -> Seq<CellState> {
    if entropy % 5 == 0 {
        square_shape()
    } else if entropy % 5 == 1 {
        i_shape()
    } else if entropy % 5 == 2 {
        l_shape()
    } else if entropy % 5 == 3 {
        t_shape()
    } else {
        z_shape()
    }
}

/// The stateless block catalog.
pub struct BlockType {}

impl BlockType {
    /// The degenerate single-center-cell shape all variants grow out of.
    pub fn get_basic_block() -> (b: Block)
        ensures
            b.wf(),
            b.shape_array@ == basic_shape(),
            b.name@ == "basic"@,
            b.left_most_cell == 1,
            b.right_most_cell == 1,
            b.top_most_cell == 1,
            b.bottom_most_cell == 1,
    {
        let mut shape: Vec<CellState> = Vec::new();
        shape.push(CellState::Empty);
        shape.push(CellState::Empty);
        shape.push(CellState::Empty);
        shape.push(CellState::Empty);
        shape.push(CellState::MovingOccupied);
        shape.push(CellState::Empty);
        shape.push(CellState::Empty);
        shape.push(CellState::Empty);
        shape.push(CellState::Empty);
        proof {
            assert(shape@ =~= basic_shape());
        }
        let mut b = Block {
            name: String::from_str("basic"),
            width: 3,
            height: 3,
            shape_array: shape,
            left_most_cell: 0,
            right_most_cell: 0,
            top_most_cell: 0,
            bottom_most_cell: 0,
            center_x_offset: 1,
            center_y_offset: 1,
        };
        b.calculate_most_cell();
        b
    }

    /// The square variant: a 2x2 footprint.
    pub fn get_square_block() -> (b: Block)
        ensures
            b.wf(),
            b.shape_array@ == square_shape(),
            b.name@ == "square"@,
            b.left_most_cell == 1,
            b.right_most_cell == 2,
            b.top_most_cell == 1,
            b.bottom_most_cell == 2,
    {
        let mut b = Self::get_basic_block();
        b.name = String::from_str("square");
        b.shape_array[5] = CellState::MovingOccupied;
        b.shape_array[7] = CellState::MovingOccupied;
        b.shape_array[8] = CellState::MovingOccupied;
        b.calculate_most_cell();
        b
    }

    /// The Z variant.
    pub fn get_z_block() -> (b: Block)
        ensures
            b.wf(),
            b.shape_array@ == z_shape(),
            b.name@ == "z"@,
            b.left_most_cell == 0,
            b.right_most_cell == 2,
            b.top_most_cell == 1,
            b.bottom_most_cell == 2,
    {
        let mut b = Self::get_basic_block();
        b.name = String::from_str("z");
        b.shape_array[3] = CellState::MovingOccupied;
        b.shape_array[7] = CellState::MovingOccupied;
        b.shape_array[8] = CellState::MovingOccupied;
        b.calculate_most_cell();
        b
    }

    /// The T variant.
    pub fn get_t_block() -> (b: Block)
        ensures
            b.wf(),
            b.shape_array@ == t_shape(),
            b.name@ == "t"@,
            b.left_most_cell == 0,
            b.right_most_cell == 2,
            b.top_most_cell == 0,
            b.bottom_most_cell == 2,
    {
        let mut b = Self::get_basic_block();
        b.name = String::from_str("t");
        b.shape_array[0] = CellState::MovingOccupied;
        b.shape_array[1] = CellState::MovingOccupied;
        b.shape_array[2] = CellState::MovingOccupied;
        b.shape_array[7] = CellState::MovingOccupied;
        b.calculate_most_cell();
        b
    }

    /// The I variant: the full center column.
    pub fn get_i_block() -> (b: Block)
        ensures
            b.wf(),
            b.shape_array@ == i_shape(),
            b.name@ == "i"@,
            b.left_most_cell == 1,
            b.right_most_cell == 1,
            b.top_most_cell == 0,
            b.bottom_most_cell == 2,
    {
        let mut b = Self::get_basic_block();
        b.name = String::from_str("i");
        b.shape_array[1] = CellState::MovingOccupied;
        b.shape_array[7] = CellState::MovingOccupied;
        b.calculate_most_cell();
        b
    }

    /// The L variant.
    pub fn get_l_block() -> (b: Block)
        ensures
            b.wf(),
            b.shape_array@ == l_shape(),
            b.name@ == "l"@,
            b.left_most_cell == 1,
            b.right_most_cell == 2,
            b.top_most_cell == 0,
            b.bottom_most_cell == 2,
    {
        let mut b = Self::get_basic_block();
        b.name = String::from_str("l");
        b.shape_array[1] = CellState::MovingOccupied;
        b.shape_array[7] = CellState::MovingOccupied;
        b.shape_array[8] = CellState::MovingOccupied;
        b.calculate_most_cell();
        b
    }

    /// The variant a given entropy byte selects: the byte's remainder modulo 5
    /// picks one of the five catalog shapes.
    pub fn get_block_for_entropy(entropy: u8) -> (b: Block)
        ensures
            b.wf(),
            b.shape_array@ == selected_shape(entropy),
            is_catalog_shape(b),
    {
        let index = entropy % 5;
        if index == 0 {
            Self::get_square_block()
        } else if index == 1 {
            Self::get_i_block()
        } else if index == 2 {
            Self::get_l_block()
        } else if index == 3 {
            Self::get_t_block()
        } else {
            Self::get_z_block()
        }
    }

    /// Draw a fresh shape from one random byte, uniform over the five catalog
    /// variants. If the entropy source is unavailable the spawn falls back,
    /// explicitly and never silently, to the degenerate basic shape, which is
    /// visibly distinct from every catalog variant.
    pub fn get_random_block() -> (b: Block)
        ensures
            b.wf(),
            is_spawnable_shape(b),
    {
        match fetch_entropy_byte() {
            Ok(byte) => Self::get_block_for_entropy(byte),
            Err(_) => Self::get_basic_block(),
        }
    }
}

} // verus!
