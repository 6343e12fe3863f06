use blockfall::cell::CellState;
use blockfall::shape::BlockType;

#[test]
fn test_block_most_cell() {
    let mut block = BlockType::get_z_block();
    println!(
        "left{}, right{}, top{}, bottom{}",
        block.left_most_cell, block.right_most_cell, block.top_most_cell, block.bottom_most_cell
    );
    block.calculate_most_cell();
    assert_eq!(block.left_most_cell, 0);
    assert_eq!(block.right_most_cell, 2);
    assert_eq!(block.top_most_cell, 1);
    assert_eq!(block.bottom_most_cell, 2);
}

#[test]
fn extents_of_catalog_shapes() {
    let square = BlockType::get_square_block();
    assert_eq!(
        (square.left_most_cell, square.right_most_cell, square.top_most_cell, square.bottom_most_cell),
        (1, 2, 1, 2)
    );
    let z = BlockType::get_z_block();
    assert_eq!((z.left_most_cell, z.right_most_cell, z.top_most_cell, z.bottom_most_cell), (0, 2, 1, 2));
    let t = BlockType::get_t_block();
    assert_eq!((t.left_most_cell, t.right_most_cell, t.top_most_cell, t.bottom_most_cell), (0, 2, 0, 2));
    let i = BlockType::get_i_block();
    assert_eq!((i.left_most_cell, i.right_most_cell, i.top_most_cell, i.bottom_most_cell), (1, 1, 0, 2));
    let l = BlockType::get_l_block();
    assert_eq!((l.left_most_cell, l.right_most_cell, l.top_most_cell, l.bottom_most_cell), (1, 2, 0, 2));
    let basic = BlockType::get_basic_block();
    assert_eq!(
        (basic.left_most_cell, basic.right_most_cell, basic.top_most_cell, basic.bottom_most_cell),
        (1, 1, 1, 1)
    );
}

#[test]
fn extent_pairs_are_ordered_within_local_bounds() {
    let blocks = vec![
        BlockType::get_basic_block(),
        BlockType::get_square_block(),
        BlockType::get_i_block(),
        BlockType::get_l_block(),
        BlockType::get_t_block(),
        BlockType::get_z_block(),
    ];
    for b in &blocks {
        assert!(0 <= b.left_most_cell && b.left_most_cell <= b.right_most_cell && b.right_most_cell <= 2);
        assert!(0 <= b.top_most_cell && b.top_most_cell <= b.bottom_most_cell && b.bottom_most_cell <= 2);
    }
}

#[test]
fn square_pattern_cells() {
    let b = BlockType::get_square_block();
    let expect = [
        CellState::Empty,
        CellState::Empty,
        CellState::Empty,
        CellState::Empty,
        CellState::MovingOccupied,
        CellState::MovingOccupied,
        CellState::Empty,
        CellState::MovingOccupied,
        CellState::MovingOccupied,
    ];
    assert_eq!(b.shape_array.len(), 9);
    for (i, c) in b.shape_array.iter().enumerate() {
        assert_eq!(*c, expect[i]);
    }
}

#[test]
fn entropy_selects_variant_mod_five() {
    assert_eq!(BlockType::get_block_for_entropy(0).name, "square");
    assert_eq!(BlockType::get_block_for_entropy(1).name, "i");
    assert_eq!(BlockType::get_block_for_entropy(2).name, "l");
    assert_eq!(BlockType::get_block_for_entropy(3).name, "t");
    assert_eq!(BlockType::get_block_for_entropy(4).name, "z");
    assert_eq!(BlockType::get_block_for_entropy(5).name, "square");
    assert_eq!(BlockType::get_block_for_entropy(7).name, "l");
    assert_eq!(BlockType::get_block_for_entropy(255).name, "square");
}

#[test]
fn random_block_is_spawnable() {
    let b = BlockType::get_random_block();
    let names = ["square", "i", "l", "t", "z", "basic"];
    assert!(names.contains(&b.name.as_str()));
    assert!(b.left_most_cell <= b.right_most_cell);
    assert!(b.top_most_cell <= b.bottom_most_cell);
    assert_eq!(b.shape_array[4], CellState::MovingOccupied);
}
