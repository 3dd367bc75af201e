use vstd::prelude::*;
use crate::size::{CubeDimResource, InvalidConfigError, TileSize};

verus! {

/// Sizes of one attention tile: `seq_q` query rows, `head_dim` features per query
/// and key, `seq_kv` keys and values, `val_dim` features per value.
#[derive(Clone, Copy, Debug, PartialEq, Eq, Structural)]
pub struct AttentionTileSize {
    pub seq_q: u32,
    pub head_dim: u32,
    pub seq_kv: u32,
    pub val_dim: u32,
}

impl AttentionTileSize {
    /// Tile of the score matmul `Q * K^T`: `(seq_q x head_dim) * (head_dim x seq_kv)`.
    pub fn to_score_matmul_tile_size(&self) -> (r: TileSize)
        ensures
            r == (TileSize { m: self.seq_q, n: self.seq_kv, k: self.head_dim }),
    {
        TileSize { m: self.seq_q, n: self.seq_kv, k: self.head_dim }
    }
}

/// Settings that every tile attention configuration shares.
#[derive(Clone, Copy, Debug, PartialEq, Eq, Structural)]
pub struct SharedTileAttentionConfig {
    pub plane_dim: u32,
    pub num_planes: u32,
    pub attention_tile_size: AttentionTileSize,
    pub causal_mask: bool,
    pub materialized_mask: bool,
}

/// Configuration of the whitebox accelerated tile attention.
#[derive(Clone, Copy, Debug, PartialEq, Eq, Structural)]
pub struct WhiteboxAcceleratedAttentionMatmulConfig {
    pub shared: SharedTileAttentionConfig,
}

impl WhiteboxAcceleratedAttentionMatmulConfig {
    pub fn plane_dim(&self) -> (r: u32)
        ensures
            r == self.shared.plane_dim,
    {
        self.shared.plane_dim
    }

    pub fn num_planes(&self) -> (r: u32)
        ensures
            r == self.shared.num_planes,
    {
        self.shared.num_planes
    }

    pub fn attention_tile_size(&self) -> (r: AttentionTileSize)
        ensures
            r == self.shared.attention_tile_size,
    {
        self.shared.attention_tile_size
    }

    /// Each unit handles the `seq_q` rows of its tile.
    pub fn num_rows_per_unit(&self) -> (r: u32)
        ensures
            r == self.shared.attention_tile_size.seq_q,
    {
        self.shared.attention_tile_size.seq_q
    }

    pub fn causal_mask(&self) -> (r: bool)
        ensures
            r == self.shared.causal_mask,
    {
        self.shared.causal_mask
    }

    pub fn materialized_mask(&self) -> (r: bool)
        ensures
            r == self.shared.materialized_mask,
    {
        self.shared.materialized_mask
    }
}

/// Stage sizes of an attention blueprint, in tiles.
#[derive(Clone, Copy, Debug, PartialEq, Eq, Structural)]
pub struct AttentionStageSize {
    pub seq_q: u32,
}

/// Tiling of an attention problem.
#[derive(Clone, Copy, Debug, PartialEq, Eq, Structural)]
pub struct AttentionTilingScheme {
    pub tile_size: AttentionTileSize,
    pub stage_size: AttentionStageSize,
}

/// The choices from which an attention kernel is configured.
#[derive(Clone, Copy, Debug, PartialEq, Eq, Structural)]
pub struct AttentionBlueprint {
    pub plane_dim: u32,
    pub tiling_scheme: AttentionTilingScheme,
    pub causal: bool,
    pub masked: bool,
}

/// Why an attention kernel could not be set up.
#[derive(Debug)]
pub enum AttentionSetupError {
    InvalidConfig(InvalidConfigError),
}

/// Uses accelerated instructions, and performs row-dependent computations
/// directly on the fragments.
#[derive(Clone, Copy, Debug, PartialEq, Eq, Structural)]
pub struct WhiteboxAcceleratedTileAttention;

/// The configuration that a blueprint expands to: one plane per query stage row.
pub open spec fn expanded_config(blueprint: AttentionBlueprint) -> WhiteboxAcceleratedAttentionMatmulConfig {
    WhiteboxAcceleratedAttentionMatmulConfig {
        shared: SharedTileAttentionConfig {
            plane_dim: blueprint.plane_dim,
            attention_tile_size: blueprint.tiling_scheme.tile_size,
            num_planes: blueprint.tiling_scheme.stage_size.seq_q,
            causal_mask: blueprint.causal,
            materialized_mask: blueprint.masked,
        },
    }
}

impl WhiteboxAcceleratedTileAttention {
    /// The tile attention runs on a single plane.
    pub fn computation_resources() -> (r: Result<CubeDimResource, InvalidConfigError>)
        ensures
            r == Ok::<CubeDimResource, InvalidConfigError>(CubeDimResource::Planes(1)),
    {
        Ok(CubeDimResource::Planes(1))
    }

    /// Configuration for `blueprint`; every blueprint is accepted.
    pub fn expand_config(blueprint: &AttentionBlueprint) -> (r: Result<
        WhiteboxAcceleratedAttentionMatmulConfig,
        AttentionSetupError,
    >)
        ensures
            r == Ok::<WhiteboxAcceleratedAttentionMatmulConfig, AttentionSetupError>(expanded_config(*blueprint)),
    {
        Ok(
            WhiteboxAcceleratedAttentionMatmulConfig {
                shared: SharedTileAttentionConfig {
                    plane_dim: blueprint.plane_dim,
                    attention_tile_size: blueprint.tiling_scheme.tile_size,
                    num_planes: blueprint.tiling_scheme.stage_size.seq_q,
                    causal_mask: blueprint.causal,
                    materialized_mask: blueprint.masked,
                },
            },
        )
    }
}

/// Reading a setting back from the configuration that a blueprint expands to
/// gives the blueprint's own choice: plane size, tile size, causality and mask.
/// The number of planes is the stage's number of query tiles, and each unit
/// handles the `seq_q` rows of its tile.
pub proof fn lemma_expanded_config_reflects_blueprint(blueprint: AttentionBlueprint)
    ensures
        expanded_config(blueprint).shared.plane_dim == blueprint.plane_dim,
        expanded_config(blueprint).shared.num_planes == blueprint.tiling_scheme.stage_size.seq_q,
        expanded_config(blueprint).shared.attention_tile_size == blueprint.tiling_scheme.tile_size,
        expanded_config(blueprint).shared.attention_tile_size.seq_q == blueprint.tiling_scheme.tile_size.seq_q,
        expanded_config(blueprint).shared.causal_mask == blueprint.causal,
        expanded_config(blueprint).shared.materialized_mask == blueprint.masked,
{
}

} // verus!
