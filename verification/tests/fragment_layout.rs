use tile_layout::attention::fragment::{
    absolute_pos_in_fragment, num_units_per_row, WhiteboxFragment, WhiteboxFragmentLayout,
};
use tile_layout::ir::{MatrixIdent, MatrixLayout};
use tile_layout::size::TileSize;

fn layout(line_layout: MatrixLayout, ident: MatrixIdent) -> WhiteboxFragmentLayout {
    WhiteboxFragmentLayout::new(line_layout, 2, 2, ident, TileSize::new(16, 8, 16))
}

#[test]
fn row_major_accumulator_positions() {
    // n = 8 columns, lines of 2: 4 lanes per row.
    assert_eq!(absolute_pos_in_fragment(0, 0, 0, MatrixLayout::RowMajor, 2, MatrixIdent::Accumulator, 16, 8, 16), (0, 0));
    assert_eq!(absolute_pos_in_fragment(5, 0, 1, MatrixLayout::RowMajor, 2, MatrixIdent::Accumulator, 16, 8, 16), (1, 3));
    assert_eq!(absolute_pos_in_fragment(31, 0, 1, MatrixLayout::RowMajor, 2, MatrixIdent::Accumulator, 16, 8, 16), (7, 7));
    // the relative row plays no part in a row-major layout
    assert_eq!(absolute_pos_in_fragment(5, 3, 1, MatrixLayout::RowMajor, 2, MatrixIdent::Accumulator, 16, 8, 16), (1, 3));
}

#[test]
fn row_major_a_uses_k() {
    // A is m x k: k = 16 columns, lines of 4: 4 lanes per row.
    assert_eq!(absolute_pos_in_fragment(6, 0, 2, MatrixLayout::RowMajor, 4, MatrixIdent::A, 8, 32, 16), (1, 10));
    // B is k x n: n = 32 columns, 8 lanes per row.
    assert_eq!(absolute_pos_in_fragment(6, 0, 2, MatrixLayout::RowMajor, 4, MatrixIdent::B, 8, 32, 16), (0, 26));
}

#[test]
fn col_major_positions() {
    // accumulator column major: m = 16 rows, lines of 4: 4 lanes per column.
    assert_eq!(absolute_pos_in_fragment(9, 3, 0, MatrixLayout::ColMajor, 4, MatrixIdent::Accumulator, 16, 8, 16), (7, 2));
    // the relative column plays no part in a column-major layout
    assert_eq!(absolute_pos_in_fragment(9, 3, 5, MatrixLayout::ColMajor, 4, MatrixIdent::Accumulator, 16, 8, 16), (7, 2));
    // B column major: k = 16 rows
    assert_eq!(absolute_pos_in_fragment(9, 1, 0, MatrixLayout::ColMajor, 8, MatrixIdent::B, 4, 4, 16), (9, 4));
}

#[test]
fn every_element_of_a_row_major_tile_has_one_owner() {
    // 8 x 8 accumulator, lines of 2: 32 lanes x 2 elements cover the 64 elements once.
    let mut seen = vec![vec![0u32; 8]; 8];
    for lane in 0..32u32 {
        for c in 0..2u32 {
            let (r, col) = absolute_pos_in_fragment(lane, 0, c, MatrixLayout::RowMajor, 2, MatrixIdent::Accumulator, 8, 8, 8);
            seen[r as usize][col as usize] += 1;
        }
    }
    assert!(seen.iter().all(|row| row.iter().all(|&n| n == 1)));
}

#[test]
fn units_per_row_each_case() {
    assert_eq!(num_units_per_row(MatrixLayout::RowMajor, 2, 8, 16, MatrixIdent::A), 8);
    assert_eq!(num_units_per_row(MatrixLayout::ColMajor, 2, 8, 16, MatrixIdent::A), 16);
    assert_eq!(num_units_per_row(MatrixLayout::RowMajor, 2, 8, 16, MatrixIdent::B), 4);
    assert_eq!(num_units_per_row(MatrixLayout::ColMajor, 2, 8, 16, MatrixIdent::B), 8);
    assert_eq!(num_units_per_row(MatrixLayout::RowMajor, 4, 8, 16, MatrixIdent::Accumulator), 2);
    assert_eq!(num_units_per_row(MatrixLayout::ColMajor, 4, 8, 16, MatrixIdent::Accumulator), 8);
}

#[test]
fn layout_local_view() {
    let row = layout(MatrixLayout::RowMajor, MatrixIdent::Accumulator);
    assert_eq!(row.num_local_rows(), 1);
    assert_eq!(row.num_local_cols(), 4);
    assert_eq!(row.absolute_index((3, 1)), 1);
    let col = layout(MatrixLayout::ColMajor, MatrixIdent::Accumulator);
    assert_eq!(col.num_local_rows(), 4);
    assert_eq!(col.num_local_cols(), 1);
    assert_eq!(col.absolute_index((3, 1)), 3);
}

#[test]
fn layout_absolute_pos_and_units() {
    let row = layout(MatrixLayout::RowMajor, MatrixIdent::Accumulator);
    // n = 8, lines of 2: 4 units per row; lane 6 is on row 6 / 4 = 1
    assert_eq!(row.num_units_per_row(), 4);
    assert_eq!(row.absolute_pos(6, (0, 1)), (1, 5));
    let col = layout(MatrixLayout::ColMajor, MatrixIdent::Accumulator);
    assert_eq!(col.num_units_per_row(), 8);
    assert_eq!(col.absolute_pos(9, (1, 0)), (3, 1));
}

#[test]
fn fragment_zero_and_groups_row_major() {
    let mut f = WhiteboxFragment::new(layout(MatrixLayout::RowMajor, MatrixIdent::Accumulator), 7i32);
    assert_eq!(f.array, vec![vec![7, 7], vec![7, 7]]);
    f.array[0][1] = 3;
    f.array[1][0] = 5;
    assert_eq!(f.rowwise_groups(), vec![vec![7, 3, 5, 7]]);
    assert_eq!(f.row_of(1, 1), 0);
    assert_eq!(f.num_units_per_row(), 4);
    f.zero(0);
    assert_eq!(f.array, vec![vec![0, 0], vec![0, 0]]);
}

#[test]
fn fragment_groups_col_major() {
    let mut f = WhiteboxFragment::new(layout(MatrixLayout::ColMajor, MatrixIdent::Accumulator), 0i32);
    f.array = vec![vec![1, 2], vec![3, 4]];
    assert_eq!(f.rowwise_groups(), vec![vec![1], vec![2], vec![3], vec![4]]);
    assert_eq!(f.row_of(0, 1), 1);
    assert_eq!(f.row_of(1, 0), 2);
    assert_eq!(f.row_of(1, 1), 3);
    assert_eq!(f.mask_line((1, 0)), &vec![3, 4]);
}
