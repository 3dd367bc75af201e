use vstd::prelude::*;
use crate::matmul::definition::{
    MatmulElems, MatmulSetupError, MatmulVectorSizes, MatrixLayout, MmaConfig, TilingBlueprint,
};
use crate::matmul::definition::MmaConfigSet;
use crate::runtime_types::storage_type_eq;
use crate::runtime_types::{mma_io_config_new, mma_io_config_of};
use crate::size::{CubeDimResource, InvalidConfigError, TileSize};
use cubecl::ir::{DeviceProperties, StorageType};
use cubek_std::SwizzleModes;
use cubek_std::tile::MmaIOConfig;

verus! {

/// The tile matmul implementations that a kernel can dispatch to.
#[derive(Clone, Copy, Debug, PartialEq, Eq, Structural)]
pub enum DispatchTileMatmul {
    Cmma,
    Mma,
    Register,
    PlaneVec,
    Interleaved,
}

/// Settings shared by every tile matmul.
#[derive(Clone, Copy, Debug)]
pub struct SharedTileConfig {
    pub tile_size: TileSize,
    pub plane_dim: u32,
    pub swizzle_modes: SwizzleModes,
}

impl SharedTileConfig {
    pub fn new(tile_size: TileSize, plane_dim: u32, swizzle_modes: SwizzleModes) -> (r: Self)
        ensures
            r == (SharedTileConfig { tile_size, plane_dim, swizzle_modes }),
    {
        SharedTileConfig { tile_size, plane_dim, swizzle_modes }
    }
}

/// Configuration of the MMA tile matmul.
#[derive(Clone, Copy, Debug)]
pub struct MmaMatmulConfig {
    pub shared: SharedTileConfig,
    pub mma_io_config: MmaIOConfig,
}

/// Configuration of the register tile matmul: the shared settings and the
/// layouts of the two operands.
#[derive(Clone, Copy, Debug)]
pub struct RegisterMatmulConfig {
    pub shared: SharedTileConfig,
    pub lhs_layout: MatrixLayout,
    pub rhs_layout: MatrixLayout,
}

impl RegisterMatmulConfig {
    pub fn from_shared_tile_config(lhs_layout: MatrixLayout, rhs_layout: MatrixLayout, shared: SharedTileConfig) -> (r:
        Self)
        ensures
            r == (RegisterMatmulConfig { shared, lhs_layout, rhs_layout }),
    {
        RegisterMatmulConfig { shared, lhs_layout, rhs_layout }
    }
}

/// Configuration of the plane vector-matrix inner product tile matmul.
#[derive(Clone, Copy, Debug)]
pub struct PlaneVecMatInnerProductConfig {
    pub shared: SharedTileConfig,
    pub reduce_vector_size: u32,
}

impl PlaneVecMatInnerProductConfig {
    pub fn new(shared: SharedTileConfig, reduce_vector_size: u32) -> (r: Self)
        ensures
            r == (PlaneVecMatInnerProductConfig { shared, reduce_vector_size }),
    {
        PlaneVecMatInnerProductConfig { shared, reduce_vector_size }
    }
}

/// Configuration of the interleaved tile matmul.
#[derive(Clone, Copy, Debug)]
pub struct InterleavedMatmulConfig {
    pub shared: SharedTileConfig,
}

impl InterleavedMatmulConfig {
    pub fn from_shared_tile_config(shared: SharedTileConfig) -> (r: Self)
        ensures
            r == (InterleavedMatmulConfig { shared }),
    {
        InterleavedMatmulConfig { shared }
    }
}

/// Configuration of the tile matmul that a dispatch selects.
#[derive(Clone, Copy, Debug)]
pub enum DispatchConfig {
    Cmma(SharedTileConfig),
    Mma(MmaMatmulConfig),
    Register(RegisterMatmulConfig),
    PlaneVec(PlaneVecMatInnerProductConfig),
    Interleaved(InterleavedMatmulConfig),
}

/// The shared settings that a blueprint gives every tile matmul.
pub open spec fn shared_of(blueprint: TilingBlueprint) -> SharedTileConfig {
    SharedTileConfig {
        tile_size: blueprint.tiling_scheme.tile_size,
        plane_dim: blueprint.plane_dim,
        swizzle_modes: blueprint.swizzle_modes,
    }
}

/// The sizes, in order, of the MMA configurations of `configs` whose element
/// types are `(lhs, rhs, acc)`.
pub open spec fn matching_sizes(configs: Seq<MmaConfig>, lhs: StorageType, rhs: StorageType, acc: StorageType) -> Seq<
    TileSize,
>
    decreases configs.len(),
{
    if configs.len() == 0 {
        Seq::empty()
    } else {
        let c = configs.last();
        let rest = matching_sizes(configs.drop_last(), lhs, rhs, acc);
        if c.a_type == lhs && c.b_type == rhs && c.cd_type == acc {
            rest.push(TileSize { m: c.m, n: c.n, k: c.k })
        } else {
            rest
        }
    }
}

impl DispatchTileMatmul {
    /// Whether the tile matmul runs on the device's matrix instructions.
    pub open spec fn spec_requires_accelerator(self) -> bool {
        self == DispatchTileMatmul::Cmma || self == DispatchTileMatmul::Mma
    }

    /// What `expand_config` gives for this tile matmul, with `mma_io_config` as
    /// the load/store methods of the MMA tile matmul.
    pub open spec fn config_for(
        self,
        blueprint: TilingBlueprint,
        vector_sizes: MatmulVectorSizes,
        mma_io_config: MmaIOConfig,
    ) -> DispatchConfig {
        let shared = shared_of(blueprint);
        match self {
            DispatchTileMatmul::Cmma => DispatchConfig::Cmma(shared),
            DispatchTileMatmul::Mma => DispatchConfig::Mma(MmaMatmulConfig { shared, mma_io_config }),
            DispatchTileMatmul::Register => DispatchConfig::Register(
                RegisterMatmulConfig { shared, lhs_layout: blueprint.lhs_layout, rhs_layout: blueprint.rhs_layout },
            ),
            DispatchTileMatmul::PlaneVec => DispatchConfig::PlaneVec(
                PlaneVecMatInnerProductConfig { shared, reduce_vector_size: vector_sizes.lhs as u32 },
            ),
            DispatchTileMatmul::Interleaved => DispatchConfig::Interleaved(InterleavedMatmulConfig { shared }),
        }
    }

    /// Whether the device can run configuration `config` for this tile matmul.
    pub open spec fn spec_is_supported(self, cmma_configs: Seq<MmaConfig>, mma_configs: Seq<MmaConfig>, config: MmaConfig) -> bool {
        match self {
            DispatchTileMatmul::Cmma => cmma_configs.contains(config),
            DispatchTileMatmul::Mma => mma_configs.contains(config),
            _ => true,
        }
    }

    /// The tile sizes that the device offers this tile matmul for the element
    /// types `(lhs, rhs, acc)`.
    pub open spec fn spec_supported_sizes(
        self,
        cmma_configs: Seq<MmaConfig>,
        mma_configs: Seq<MmaConfig>,
        lhs: StorageType,
        rhs: StorageType,
        acc: StorageType,
    ) -> Seq<TileSize> {
        match self {
            DispatchTileMatmul::Cmma => matching_sizes(cmma_configs, lhs, rhs, acc),
            DispatchTileMatmul::Mma => matching_sizes(mma_configs, lhs, rhs, acc),
            _ => Seq::empty(),
        }
    }

    /// Whether the stage memory is swizzled, given the device's alignment.
    pub open spec fn spec_should_swizzle(self, alignment: bool) -> bool {
        match self {
            DispatchTileMatmul::Cmma => false,
            DispatchTileMatmul::Mma => alignment,
            DispatchTileMatmul::Register => alignment,
            DispatchTileMatmul::PlaneVec => false,
            DispatchTileMatmul::Interleaved => alignment,
        }
    }

    pub fn requires_accelerator(&self) -> (r: bool)
        ensures
            r == self.spec_requires_accelerator(),
    {
        match self {
            DispatchTileMatmul::Cmma | DispatchTileMatmul::Mma => true,
            DispatchTileMatmul::Register | DispatchTileMatmul::PlaneVec | DispatchTileMatmul::Interleaved => false,
        }
    }

    /// Every tile matmul but CMMA can cast the stage element on load.
    pub fn can_cast_stage_element(&self) -> (r: bool)
        ensures
            r == (*self != DispatchTileMatmul::Cmma),
    {
        match self {
            DispatchTileMatmul::Cmma => false,
            DispatchTileMatmul::Mma
            | DispatchTileMatmul::Register
            | DispatchTileMatmul::PlaneVec
            | DispatchTileMatmul::Interleaved => true,
        }
    }

    /// Whether the stage memory should be swizzled, given whether the device
    /// guarantees the alignment that swizzling needs (`alignment`). CMMA does not
    /// support it and the plane vector matmul has no tuned setting for it; the
    /// others swizzle exactly when the alignment is there.
    pub fn should_swizzle(&self, alignment: bool) -> (r: bool)
        ensures
            r == self.spec_should_swizzle(alignment),
    {
        match self {
            DispatchTileMatmul::Cmma => false,
            DispatchTileMatmul::Mma => alignment,
            DispatchTileMatmul::Register => alignment,
            DispatchTileMatmul::PlaneVec => false,
            DispatchTileMatmul::Interleaved => alignment,
        }
    }

    /// The register tile matmul runs on one unit; the others on one plane.
    pub fn cubedim_resource(&self) -> (r: Result<CubeDimResource, InvalidConfigError>)
        ensures
            r == Ok::<CubeDimResource, InvalidConfigError>(
                if *self == DispatchTileMatmul::Register {
                    CubeDimResource::Units(1)
                } else {
                    CubeDimResource::Planes(1)
                },
            ),
    {
        match self {
            DispatchTileMatmul::Cmma
            | DispatchTileMatmul::Mma
            | DispatchTileMatmul::PlaneVec
            | DispatchTileMatmul::Interleaved => Ok(CubeDimResource::Planes(1)),
            DispatchTileMatmul::Register => Ok(CubeDimResource::Units(1)),
        }
    }

    /// Configuration of this tile matmul for `blueprint`, with `mma_io_config` as
    /// the load/store methods of the MMA tile matmul.
    pub fn config_with_io(
        &self,
        blueprint: &TilingBlueprint,
        vector_sizes: &MatmulVectorSizes,
        mma_io_config: MmaIOConfig,
    ) -> (r: DispatchConfig)
        ensures
            r == self.config_for(*blueprint, *vector_sizes, mma_io_config),
    {
        let shared = SharedTileConfig::new(blueprint.tiling_scheme.tile_size, blueprint.plane_dim, blueprint.swizzle_modes);
        match self {
            DispatchTileMatmul::Cmma => DispatchConfig::Cmma(shared),
            DispatchTileMatmul::Mma => DispatchConfig::Mma(MmaMatmulConfig { shared, mma_io_config }),
            DispatchTileMatmul::Register => DispatchConfig::Register(
                RegisterMatmulConfig::from_shared_tile_config(blueprint.lhs_layout, blueprint.rhs_layout, shared),
            ),
            DispatchTileMatmul::PlaneVec => DispatchConfig::PlaneVec(
                PlaneVecMatInnerProductConfig::new(shared, vector_sizes.lhs as u32),
            ),
            DispatchTileMatmul::Interleaved => DispatchConfig::Interleaved(
                InterleavedMatmulConfig::from_shared_tile_config(shared),
            ),
        }
    }

    /// Configuration of this tile matmul for `blueprint` on a device with
    /// properties `device_props`; every blueprint is accepted. The MMA tile
    /// matmul takes its load/store methods from the device and the stage types of
    /// `dtypes`; all its other settings, and those of every other tile matmul, are
    /// the blueprint's.
    pub fn expand_config(
        &self,
        device_props: &DeviceProperties,
        blueprint: &TilingBlueprint,
        dtypes: &MatmulElems,
        vector_sizes: &MatmulVectorSizes,
    ) -> (r: Result<DispatchConfig, MatmulSetupError>)
        ensures
            r == Ok::<DispatchConfig, MatmulSetupError>(
                self.config_for(
                    *blueprint,
                    *vector_sizes,
                    mma_io_config_of(*device_props, dtypes.lhs_stage, dtypes.rhs_stage, dtypes.acc_stage),
                ),
            ),
    {
        let io = mma_io_config_new(device_props, dtypes.lhs_stage, dtypes.rhs_stage, dtypes.acc_stage);
        let config = self.config_with_io(blueprint, vector_sizes, io);
        Ok(config)
    }

    /// Whether the device supports MMA configuration `config` for this tile
    /// matmul: CMMA and MMA need it among the device's `cmma_configs` or
    /// `mma_configs`; the others run everywhere.
    pub fn is_supported(&self, cmma_configs: &MmaConfigSet, mma_configs: &MmaConfigSet, config: MmaConfig) -> (r:
        bool)
        ensures
            r == self.spec_is_supported(cmma_configs@, mma_configs@, config),
    {
        match self {
            DispatchTileMatmul::Cmma => cmma_configs.contains(&config),
            DispatchTileMatmul::Mma => mma_configs.contains(&config),
            DispatchTileMatmul::Register | DispatchTileMatmul::PlaneVec | DispatchTileMatmul::Interleaved => true,
        }
    }

    /// Tile sizes of the device's configurations (`cmma_configs` for CMMA,
    /// `mma_configs` for MMA), in their order, whose element types are
    /// `(lhs_ty, rhs_ty, acc_ty)`. The other tile matmuls have no fixed sizes.
    pub fn supported_sizes(
        &self,
        cmma_configs: &MmaConfigSet,
        mma_configs: &MmaConfigSet,
        lhs_ty: StorageType,
        rhs_ty: StorageType,
        acc_ty: StorageType,
    ) -> (r: Vec<TileSize>)
        ensures
            r@ == self.spec_supported_sizes(cmma_configs@, mma_configs@, lhs_ty, rhs_ty, acc_ty),
    {
        let iters = match self {
            DispatchTileMatmul::Cmma => cmma_configs.configs(),
            DispatchTileMatmul::Mma => mma_configs.configs(),
            DispatchTileMatmul::Register | DispatchTileMatmul::PlaneVec | DispatchTileMatmul::Interleaved => {
                return Vec::new();
            },
        };
        filter_sizes(iters, &lhs_ty, &rhs_ty, &acc_ty)
    }
}

/// The sizes of the configurations whose element types are `(lhs, rhs, acc)`.
fn filter_sizes(configs: &Vec<MmaConfig>, lhs: &StorageType, rhs: &StorageType, acc: &StorageType) -> (r: Vec<
    TileSize,
>)
    ensures
        r@ == matching_sizes(configs@, *lhs, *rhs, *acc),
{
    let mut sizes: Vec<TileSize> = Vec::new();
    let mut i: usize = 0;
    while i < configs.len()
        invariant
            i <= configs@.len(),
            sizes@ == matching_sizes(configs@.take(i as int), *lhs, *rhs, *acc),
        decreases configs@.len() - i,
    {
        let c = &configs[i];
        proof {
            assert(configs@.take(i as int + 1).drop_last() == configs@.take(i as int));
            assert(configs@.take(i as int + 1).last() == configs@[i as int]);
        }
        if storage_type_eq(&c.a_type, lhs) && storage_type_eq(&c.b_type, rhs) && storage_type_eq(&c.cd_type, acc) {
            sizes.push(TileSize::from_tuple((c.m, c.n, c.k)));
        }
        i = i + 1;
    }
    assert(configs@.take(configs@.len() as int) == configs@);
    sizes
}

} // verus!

verus! {

/// The settings that every dispatched configuration shares.
pub open spec fn shared_config(config: DispatchConfig) -> SharedTileConfig {
    match config {
        DispatchConfig::Cmma(shared) => shared,
        DispatchConfig::Mma(c) => c.shared,
        DispatchConfig::Register(c) => c.shared,
        DispatchConfig::PlaneVec(c) => c.shared,
        DispatchConfig::Interleaved(c) => c.shared,
    }
}

/// Whatever tile matmul is dispatched, its configuration keeps the blueprint's
/// tile size, plane size and swizzle modes; a tile matmul that runs on the
/// device's matrix instructions gets a CMMA or MMA configuration, and only it.
pub proof fn lemma_dispatch_keeps_blueprint(
    tile: DispatchTileMatmul,
    blueprint: TilingBlueprint,
    vector_sizes: MatmulVectorSizes,
    mma_io_config: MmaIOConfig,
)
    ensures
        shared_config(tile.config_for(blueprint, vector_sizes, mma_io_config)) == shared_of(blueprint),
        shared_config(tile.config_for(blueprint, vector_sizes, mma_io_config)).tile_size
            == blueprint.tiling_scheme.tile_size,
        tile.spec_requires_accelerator() <==> (tile.config_for(blueprint, vector_sizes, mma_io_config) is Cmma
            || tile.config_for(blueprint, vector_sizes, mma_io_config) is Mma),
{
}

/// A tile matmul that does not need the device's matrix instructions runs on
/// every configuration and has no fixed tile sizes.
pub proof fn lemma_non_accelerated_runs_everywhere(
    tile: DispatchTileMatmul,
    cmma_configs: Seq<MmaConfig>,
    mma_configs: Seq<MmaConfig>,
    config: MmaConfig,
    lhs: StorageType,
    rhs: StorageType,
    acc: StorageType,
)
    requires
        !tile.spec_requires_accelerator(),
    ensures
        tile.spec_is_supported(cmma_configs, mma_configs, config),
        tile.spec_supported_sizes(cmma_configs, mma_configs, lhs, rhs, acc).len() == 0,
{
}

/// Swizzling is never chosen on a device without the alignment it needs; with
/// it, every tile matmul swizzles but CMMA (unsupported) and the plane vector one
/// (untuned).
pub proof fn lemma_swizzle_needs_alignment(tile: DispatchTileMatmul, alignment: bool)
    ensures
        tile.spec_should_swizzle(alignment) ==> alignment,
        alignment ==> (tile.spec_should_swizzle(alignment) <==> tile != DispatchTileMatmul::Cmma && tile
            != DispatchTileMatmul::PlaneVec),
{
}

/// Every size in `matching_sizes` is that of a configuration of `configs` with
/// the requested element types.
pub proof fn lemma_matching_size_has_config(
    configs: Seq<MmaConfig>,
    lhs: StorageType,
    rhs: StorageType,
    acc: StorageType,
    j: int,
)
    requires
        0 <= j < matching_sizes(configs, lhs, rhs, acc).len(),
    ensures
        exists|c: MmaConfig|
            #![trigger configs.contains(c)]
            configs.contains(c) && c.a_type == lhs && c.b_type == rhs && c.cd_type == acc
                && matching_sizes(configs, lhs, rhs, acc)[j] == (TileSize { m: c.m, n: c.n, k: c.k }),
    decreases configs.len(),
{
    let rest = matching_sizes(configs.drop_last(), lhs, rhs, acc);
    let c = configs.last();
    if j < rest.len() {
        lemma_matching_size_has_config(configs.drop_last(), lhs, rhs, acc, j);
        let w = choose|w: MmaConfig|
            #![trigger configs.drop_last().contains(w)]
            configs.drop_last().contains(w) && w.a_type == lhs && w.b_type == rhs && w.cd_type == acc
                && rest[j] == (TileSize { m: w.m, n: w.n, k: w.k });
        let idx = choose|idx: int| 0 <= idx < configs.drop_last().len() && configs.drop_last()[idx] == w;
        assert(configs[idx] == w);
        assert(configs.contains(w));
    } else {
        assert(configs[configs.len() - 1] == c);
        assert(configs.contains(c));
    }
}

/// Every tile size that a tile matmul reports as supported comes from a
/// configuration that it reports as supported, with the requested element types.
pub proof fn lemma_supported_sizes_are_supported(
    tile: DispatchTileMatmul,
    cmma_configs: Seq<MmaConfig>,
    mma_configs: Seq<MmaConfig>,
    lhs: StorageType,
    rhs: StorageType,
    acc: StorageType,
    j: int,
)
    requires
        0 <= j < tile.spec_supported_sizes(cmma_configs, mma_configs, lhs, rhs, acc).len(),
    ensures
        exists|c: MmaConfig|
            #![trigger tile.spec_is_supported(cmma_configs, mma_configs, c)]
            tile.spec_is_supported(cmma_configs, mma_configs, c) && c.a_type == lhs && c.b_type == rhs && c.cd_type
                == acc && tile.spec_supported_sizes(cmma_configs, mma_configs, lhs, rhs, acc)[j] == (TileSize {
                m: c.m,
                n: c.n,
                k: c.k,
            }),
{
    let configs = if tile == DispatchTileMatmul::Cmma { cmma_configs } else { mma_configs };
    lemma_matching_size_has_config(configs, lhs, rhs, acc, j);
    let c = choose|c: MmaConfig|
        #![trigger configs.contains(c)]
        configs.contains(c) && c.a_type == lhs && c.b_type == rhs && c.cd_type == acc
            && matching_sizes(configs, lhs, rhs, acc)[j] == (TileSize { m: c.m, n: c.n, k: c.k });
    assert(tile.spec_is_supported(cmma_configs, mma_configs, c));
}

} // verus!

verus! {

/// Each input of `expand_config` reaches only the configuration that reads it:
/// the device's load/store methods only the MMA one, the lhs vector size only the
/// plane vector one, the operand layouts only the register one. Two blueprints
/// that agree on the shared settings give the same configuration otherwise.
pub proof fn lemma_config_ignores_unread_inputs(
    tile: DispatchTileMatmul,
    blueprint1: TilingBlueprint,
    blueprint2: TilingBlueprint,
    vector_sizes1: MatmulVectorSizes,
    vector_sizes2: MatmulVectorSizes,
    io1: MmaIOConfig,
    io2: MmaIOConfig,
)
    requires
        shared_of(blueprint1) == shared_of(blueprint2),
        tile == DispatchTileMatmul::Mma ==> io1 == io2,
        tile == DispatchTileMatmul::PlaneVec ==> vector_sizes1.lhs == vector_sizes2.lhs,
        tile == DispatchTileMatmul::Register ==> blueprint1.lhs_layout == blueprint2.lhs_layout
            && blueprint1.rhs_layout == blueprint2.rhs_layout,
    ensures
        tile.config_for(blueprint1, vector_sizes1, io1) == tile.config_for(blueprint2, vector_sizes2, io2),
{
}

} // verus!

verus! {

/// Whether configuration `c` multiplies `lhs` by `rhs` into `acc`.
pub open spec fn has_types(c: MmaConfig, lhs: StorageType, rhs: StorageType, acc: StorageType) -> bool {
    c.a_type == lhs && c.b_type == rhs && c.cd_type == acc
}

/// The tile size of configuration `c`.
pub open spec fn size_of_config(c: MmaConfig) -> TileSize {
    TileSize { m: c.m, n: c.n, k: c.k }
}

/// The sizes kept from a sequence of configurations are those of the
/// configurations with the requested element types, in the sequence's order:
/// the filter of the sequence by element types, mapped to tile sizes.
pub proof fn lemma_matching_sizes_is_filter(configs: Seq<MmaConfig>, lhs: StorageType, rhs: StorageType, acc: StorageType)
    ensures
        matching_sizes(configs, lhs, rhs, acc) == configs.filter(|c: MmaConfig| has_types(c, lhs, rhs, acc)).map_values(
            |c: MmaConfig| size_of_config(c),
        ),
    decreases configs.len(),
{
    let pred = |c: MmaConfig| has_types(c, lhs, rhs, acc);
    let f = |c: MmaConfig| size_of_config(c);
    reveal(Seq::filter);
    if configs.len() > 0 {
        lemma_matching_sizes_is_filter(configs.drop_last(), lhs, rhs, acc);
        let sub = configs.drop_last().filter(pred);
        assert(configs.filter(pred) == (if pred(configs.last()) { sub.push(configs.last()) } else { sub }));
        if pred(configs.last()) {
            assert(sub.push(configs.last()).map_values(f) =~= sub.map_values(f).push(f(configs.last())));
        }
    } else {
        assert(configs.filter(pred) =~= Seq::<MmaConfig>::empty());
    }
}

/// Every configuration of the device's set with the requested element types has
/// its tile size among the supported sizes of CMMA (from the CMMA set) and of MMA
/// (from the MMA set): none is dropped.
pub proof fn lemma_supported_sizes_complete(
    cmma_configs: Seq<MmaConfig>,
    mma_configs: Seq<MmaConfig>,
    lhs: StorageType,
    rhs: StorageType,
    acc: StorageType,
    c: MmaConfig,
)
    requires
        has_types(c, lhs, rhs, acc),
    ensures
        cmma_configs.contains(c) ==> DispatchTileMatmul::Cmma.spec_supported_sizes(
            cmma_configs,
            mma_configs,
            lhs,
            rhs,
            acc,
        ).contains(size_of_config(c)),
        mma_configs.contains(c) ==> DispatchTileMatmul::Mma.spec_supported_sizes(
            cmma_configs,
            mma_configs,
            lhs,
            rhs,
            acc,
        ).contains(size_of_config(c)),
{
    let pred = |x: MmaConfig| has_types(x, lhs, rhs, acc);
    let f = |x: MmaConfig| size_of_config(x);
    lemma_matching_sizes_is_filter(cmma_configs, lhs, rhs, acc);
    lemma_matching_sizes_is_filter(mma_configs, lhs, rhs, acc);
    broadcast use vstd::seq_lib::group_filter_ensures;
    if cmma_configs.contains(c) {
        let fc = cmma_configs.filter(pred);
        assert(fc.contains(c));
        let j = choose|j: int| 0 <= j < fc.len() && fc[j] == c;
        assert(fc.map_values(f)[j] == size_of_config(c));
    }
    if mma_configs.contains(c) {
        let fc = mma_configs.filter(pred);
        assert(fc.contains(c));
        let j = choose|j: int| 0 <= j < fc.len() && fc[j] == c;
        assert(fc.map_values(f)[j] == size_of_config(c));
    }
}

/// The supported sizes of CMMA are the sizes of the CMMA configurations with the
/// requested element types, in the set's order, whatever the MMA set holds; and
/// the other way round for MMA.
pub proof fn lemma_supported_sizes_read_own_set(
    cmma_configs: Seq<MmaConfig>,
    mma_configs: Seq<MmaConfig>,
    lhs: StorageType,
    rhs: StorageType,
    acc: StorageType,
)
    ensures
        DispatchTileMatmul::Cmma.spec_supported_sizes(cmma_configs, mma_configs, lhs, rhs, acc) == cmma_configs.filter(
            |c: MmaConfig| has_types(c, lhs, rhs, acc),
        ).map_values(|c: MmaConfig| size_of_config(c)),
        DispatchTileMatmul::Mma.spec_supported_sizes(cmma_configs, mma_configs, lhs, rhs, acc) == mma_configs.filter(
            |c: MmaConfig| has_types(c, lhs, rhs, acc),
        ).map_values(|c: MmaConfig| size_of_config(c)),
{
    lemma_matching_sizes_is_filter(cmma_configs, lhs, rhs, acc);
    lemma_matching_sizes_is_filter(mma_configs, lhs, rhs, acc);
}

/// CMMA runs a configuration exactly when the device's CMMA set holds it, and
/// MMA exactly when the MMA set holds it: each reads its own set only, so the
/// answer does not move when only the other set changes.
pub proof fn lemma_support_reads_own_set(
    cmma_configs: Seq<MmaConfig>,
    mma_configs: Seq<MmaConfig>,
    other_cmma: Seq<MmaConfig>,
    other_mma: Seq<MmaConfig>,
    c: MmaConfig,
)
    ensures
        DispatchTileMatmul::Cmma.spec_is_supported(cmma_configs, mma_configs, c) <==> cmma_configs.contains(c),
        DispatchTileMatmul::Mma.spec_is_supported(cmma_configs, mma_configs, c) <==> mma_configs.contains(c),
        DispatchTileMatmul::Cmma.spec_is_supported(cmma_configs, mma_configs, c)
            == DispatchTileMatmul::Cmma.spec_is_supported(cmma_configs, other_mma, c),
        DispatchTileMatmul::Mma.spec_is_supported(cmma_configs, mma_configs, c)
            == DispatchTileMatmul::Mma.spec_is_supported(other_cmma, mma_configs, c),
{
}

/// What each dispatched configuration carries besides the shared settings: the
/// MMA one the given load/store methods, the register one the blueprint's
/// operand layouts, the plane vector one the lhs vector size as its reduce vector
/// size; each tile matmul gets the configuration of its own kind.
pub proof fn lemma_config_payloads(
    tile: DispatchTileMatmul,
    blueprint: TilingBlueprint,
    vector_sizes: MatmulVectorSizes,
    mma_io_config: MmaIOConfig,
)
    ensures
        ({
            let config = tile.config_for(blueprint, vector_sizes, mma_io_config);
            &&& (tile == DispatchTileMatmul::Cmma <==> config is Cmma)
            &&& (tile == DispatchTileMatmul::Mma <==> config is Mma)
            &&& (tile == DispatchTileMatmul::Register <==> config is Register)
            &&& (tile == DispatchTileMatmul::PlaneVec <==> config is PlaneVec)
            &&& (tile == DispatchTileMatmul::Interleaved <==> config is Interleaved)
            &&& (config is Mma ==> config->Mma_0.mma_io_config == mma_io_config)
            &&& (config is Register ==> config->Register_0.lhs_layout == blueprint.lhs_layout
                && config->Register_0.rhs_layout == blueprint.rhs_layout)
            &&& (config is PlaneVec ==> config->PlaneVec_0.reduce_vector_size == vector_sizes.lhs as u32)
            &&& (config is PlaneVec && vector_sizes.lhs <= u32::MAX ==> config->PlaneVec_0.reduce_vector_size
                == vector_sizes.lhs)
            &&& shared_config(config).tile_size == blueprint.tiling_scheme.tile_size
            &&& shared_config(config).plane_dim == blueprint.plane_dim
            &&& shared_config(config).swizzle_modes == blueprint.swizzle_modes
        }),
{
}

} // verus!
