use tile_layout::matmul::definition::MatrixLayout;
use tile_layout::matmul::interleaved_eager::{
    InterleavedEagerAccumulator, InterleavedEagerFragment, InterleavedEagerMatmul, InterleavedEagerMatmulConfig,
};
use tile_layout::size::TileSize;

fn config() -> InterleavedEagerMatmulConfig {
    InterleavedEagerMatmulConfig { tile_size: TileSize::new(3, 5, 8), plane_dim: 4 }
}

#[test]
fn fragment_get_row_and_col_major() {
    let row = InterleavedEagerFragment { array: (0..6).collect::<Vec<i32>>(), layout: MatrixLayout::RowMajor, row_count: 2, col_count: 3 };
    assert_eq!(row.get(1, 2), 5);
    assert_eq!(row.get(0, 1), 1);
    let col = InterleavedEagerFragment { array: (0..6).collect::<Vec<i32>>(), layout: MatrixLayout::ColMajor, row_count: 2, col_count: 3 };
    assert_eq!(col.get(1, 2), 5);
    assert_eq!(col.get(0, 1), 2);
    assert_eq!(col.get(1, 0), 1);
}

#[test]
fn config_shares() {
    let c = config();
    assert_eq!(c.elements_per_unit_m(), 3);
    assert_eq!(c.elements_per_unit_n(), 5);
    assert_eq!(c.elements_per_unit_k(), 2);
    assert_eq!(c.plane_dim(), 4);
    // 15 results over 4 units: 4 each
    assert_eq!(c.num_local_accumulators(), 4);
}

#[test]
fn allocations_have_stripe_shapes() {
    let lhs = InterleavedEagerMatmul::allocate_lhs(MatrixLayout::ColMajor, config(), 0u8);
    assert_eq!((lhs.row_count, lhs.col_count, lhs.array.len()), (3, 2, 6));
    assert_eq!(lhs.layout, MatrixLayout::ColMajor);
    let rhs = InterleavedEagerMatmul::allocate_rhs(MatrixLayout::RowMajor, config(), 1u8);
    assert_eq!((rhs.row_count, rhs.col_count, rhs.array.len()), (2, 5, 10));
    assert!(rhs.array.iter().all(|&x| x == 1));
    let acc = InterleavedEagerMatmul::allocate_acc(MatrixLayout::RowMajor, config(), 0i64);
    assert_eq!(acc.array, vec![0i64; 4]);
}

#[test]
fn accumulator_slots_are_round_robin() {
    // element (2, 3) is result 13: slot 3 of unit 1
    assert_eq!(InterleavedEagerMatmul::accumulator_slot(config(), 2, 3), (3, 1));
    assert_eq!(InterleavedEagerMatmul::accumulator_slot(config(), 0, 0), (0, 0));
    let mut seen = vec![vec![false; 4]; 4];
    for r in 0..3 {
        for c in 0..5 {
            let (local, unit) = InterleavedEagerMatmul::accumulator_slot(config(), r, c);
            assert!(!seen[local][unit]);
            seen[local][unit] = true;
        }
    }
}

#[test]
fn execute_stores_plane_dot_products() {
    // 2 x 3 result over k = 4 split across 2 units (2 each); 3 accumulators per unit.
    let config = InterleavedEagerMatmulConfig { tile_size: TileSize::new(2, 3, 4), plane_dim: 2 };
    // full lhs (2 x 4) and rhs (4 x 3), row major
    let lhs_full = [[1u64, 2, 3, 4], [5, 6, 7, 8]];
    let rhs_full = [[1u64, 0, 2], [0, 1, 3], [1, 1, 1], [2, 0, 1]];
    let mut lhs = Vec::new();
    let mut rhs = Vec::new();
    for unit in 0..2usize {
        let ks = [2 * unit, 2 * unit + 1];
        let l: Vec<u64> = (0..2).flat_map(|i| ks.iter().map(move |&k| lhs_full[i][k])).collect();
        let r: Vec<u64> = ks.iter().flat_map(|&k| (0..3).map(move |j| rhs_full[k][j])).collect();
        lhs.push(InterleavedEagerFragment { array: l, layout: MatrixLayout::RowMajor, row_count: 2, col_count: 2 });
        rhs.push(InterleavedEagerFragment { array: r, layout: MatrixLayout::RowMajor, row_count: 2, col_count: 3 });
    }
    let mut expected = vec![0u64; 6];
    for i in 0..2 {
        for j in 0..3 {
            expected[i * 3 + j] = (0..4).map(|k| lhs_full[i][k] * rhs_full[k][j]).sum();
        }
    }
    for unit in 0..2usize {
        let mut acc = InterleavedEagerAccumulator { array: vec![10u64; 3] };
        InterleavedEagerMatmul::execute(&lhs, &rhs, &mut acc, unit, config);
        let want: Vec<u64> = (0..3).map(|l| 10 + expected[l * 2 + unit]).collect();
        assert_eq!(acc.array, want);
    }
}

#[test]
fn execute_wraps_modulo_u64() {
    let config = InterleavedEagerMatmulConfig { tile_size: TileSize::new(1, 1, 1), plane_dim: 1 };
    let lhs = vec![InterleavedEagerFragment { array: vec![u64::MAX], layout: MatrixLayout::RowMajor, row_count: 1, col_count: 1 }];
    let rhs = vec![InterleavedEagerFragment { array: vec![2u64], layout: MatrixLayout::RowMajor, row_count: 1, col_count: 1 }];
    let mut acc = InterleavedEagerAccumulator { array: vec![5u64] };
    InterleavedEagerMatmul::execute(&lhs, &rhs, &mut acc, 0, config);
    // MAX * 2 = 2^65 - 2, which is 2^64 - 2 modulo 2^64; plus 5 wraps to 3
    assert_eq!(acc.array, vec![3u64]);
}
