use tile_layout::attention::setup::{
    AttentionBlueprint, AttentionStageSize, AttentionTileSize, AttentionTilingScheme,
    WhiteboxAcceleratedTileAttention,
};
use tile_layout::ir::{MatrixIdent, MatrixLayout};
use tile_layout::size::{CubeDimResource, TileSize};

fn blueprint() -> AttentionBlueprint {
    AttentionBlueprint {
        plane_dim: 32,
        tiling_scheme: AttentionTilingScheme {
            tile_size: AttentionTileSize { seq_q: 16, head_dim: 64, seq_kv: 8, val_dim: 32 },
            stage_size: AttentionStageSize { seq_q: 4 },
        },
        causal: true,
        masked: false,
    }
}

#[test]
fn expand_config_reads_blueprint() {
    let config = WhiteboxAcceleratedTileAttention::expand_config(&blueprint()).unwrap();
    assert_eq!(config.plane_dim(), 32);
    assert_eq!(config.num_planes(), 4);
    assert_eq!(config.attention_tile_size(), AttentionTileSize { seq_q: 16, head_dim: 64, seq_kv: 8, val_dim: 32 });
    assert_eq!(config.num_rows_per_unit(), 16);
    assert!(config.causal_mask());
    assert!(!config.materialized_mask());
}

#[test]
fn computation_resources_is_one_plane() {
    assert_eq!(WhiteboxAcceleratedTileAttention::computation_resources().unwrap(), CubeDimResource::Planes(1));
}

#[test]
fn score_tile_size() {
    let t = AttentionTileSize { seq_q: 16, head_dim: 64, seq_kv: 8, val_dim: 32 };
    assert_eq!(t.to_score_matmul_tile_size(), TileSize::new(16, 8, 64));
}

#[test]
fn softmax_layout_is_score_accumulator() {
    let config = WhiteboxAcceleratedTileAttention::expand_config(&blueprint()).unwrap();
    let layout = WhiteboxAcceleratedTileAttention::softmax_layout(config, MatrixLayout::RowMajor, 2, 2);
    assert_eq!(layout.matrix_ident, MatrixIdent::Accumulator);
    assert_eq!(layout.tile_size, TileSize::new(16, 8, 64));
    assert_eq!(layout.mma_line_layout, MatrixLayout::RowMajor);
    assert_eq!(layout.mma_line_size, 2);
    assert_eq!(layout.mma_lines_per_lane, 2);
    // accumulator rows of n = 8 columns: 4 lanes per row
    assert_eq!(layout.num_units_per_row(), 4);
}
