use vstd::prelude::*;
use crate::attention::fragment::WhiteboxFragmentLayout;
use crate::attention::setup::{WhiteboxAcceleratedAttentionMatmulConfig, WhiteboxAcceleratedTileAttention};
use crate::ir::{MatrixIdent, MatrixLayout};
use crate::size::TileSize;

verus! {

impl WhiteboxAcceleratedTileAttention {
    /// Layout of the softmax fragment: the accumulator of the score matmul on the
    /// configured tile, as the MMA definition of that matmul lays out its
    /// accumulator registers (`mma_line_layout`, `mma_line_size`,
    /// `mma_lines_per_lane`).
    pub fn softmax_layout(
        config: WhiteboxAcceleratedAttentionMatmulConfig,
        mma_line_layout: MatrixLayout,
        mma_line_size: u32,
        mma_lines_per_lane: u32,
    ) -> (r: WhiteboxFragmentLayout)
        ensures
            r.mma_line_layout == mma_line_layout,
            r.mma_line_size == mma_line_size,
            r.mma_lines_per_lane == mma_lines_per_lane,
            r.matrix_ident == MatrixIdent::Accumulator,
            r.tile_size == (TileSize {
                m: config.shared.attention_tile_size.seq_q,
                n: config.shared.attention_tile_size.seq_kv,
                k: config.shared.attention_tile_size.head_dim,
            }),
    {
        let tile_size = config.shared.attention_tile_size.to_score_matmul_tile_size();
        WhiteboxFragmentLayout::new(
            mma_line_layout,
            mma_line_size,
            mma_lines_per_lane,
            MatrixIdent::Accumulator,
            tile_size,
        )
    }
}

} // verus!
