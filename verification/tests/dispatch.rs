use cubecl::ir::features::{Features, MmaConfig as DeviceMmaConfig};
use cubecl::ir::{DeviceProperties, ElemType, FloatKind, HardwareProperties, MemoryDeviceProperties, StorageType};
use cubecl::profile::TimingMethod;
use cubek_std::tile::{LoadMethod, StoreMethod};
use cubek_std::SwizzleModes;
use tile_layout::matmul::definition::{
    MatmulElems, MatmulVectorSizes, MatrixLayout, MmaConfig, MmaConfigSet, TilingBlueprint, TilingScheme,
};
use tile_layout::matmul::dispatch::{DispatchConfig, DispatchTileMatmul};
use tile_layout::size::{CubeDimResource, TileSize};

const ALL: [DispatchTileMatmul; 5] = [
    DispatchTileMatmul::Cmma,
    DispatchTileMatmul::Mma,
    DispatchTileMatmul::Register,
    DispatchTileMatmul::PlaneVec,
    DispatchTileMatmul::Interleaved,
];

fn f16() -> StorageType {
    StorageType::Scalar(ElemType::Float(FloatKind::F16))
}

fn f32() -> StorageType {
    StorageType::Scalar(ElemType::Float(FloatKind::F32))
}

fn mma(a: StorageType, cd: StorageType, m: u32, n: u32, k: u32) -> MmaConfig {
    MmaConfig { a_type: a, b_type: a, cd_type: cd, m, n, k }
}

fn set(configs: Vec<MmaConfig>) -> MmaConfigSet {
    let mut s = MmaConfigSet::new();
    for c in configs {
        s.insert(c);
    }
    s
}

fn blueprint() -> TilingBlueprint {
    TilingBlueprint {
        tiling_scheme: TilingScheme { tile_size: TileSize::new(16, 16, 8) },
        plane_dim: 32,
        swizzle_modes: SwizzleModes::default(),
        lhs_layout: MatrixLayout::RowMajor,
        rhs_layout: MatrixLayout::ColMajor,
    }
}

fn device() -> DeviceProperties {
    let mut features = Features::default();
    features.alignment = true;
    features.matmul.cmma.insert(DeviceMmaConfig { a_type: f16(), b_type: f16(), cd_type: f32(), m: 16, n: 16, k: 16 });
    DeviceProperties::new(
        features,
        MemoryDeviceProperties { max_page_size: 1 << 30, alignment: 32 },
        HardwareProperties {
            load_width: 128,
            plane_size_min: 32,
            plane_size_max: 32,
            max_bindings: 8,
            max_shared_memory_size: 48 * 1024,
            max_cube_count: (65535, 65535, 65535),
            max_units_per_cube: 1024,
            max_cube_dim: (1024, 1024, 64),
            num_streaming_multiprocessors: None,
            num_cpu_cores: None,
            num_tensor_cores: None,
            min_tensor_cores_dim: None,
            max_vector_size: 4,
        },
        TimingMethod::System,
    )
}

#[test]
fn accelerator_and_cast() {
    let acc: Vec<bool> = ALL.iter().map(|t| t.requires_accelerator()).collect();
    assert_eq!(acc, vec![true, true, false, false, false]);
    let cast: Vec<bool> = ALL.iter().map(|t| t.can_cast_stage_element()).collect();
    assert_eq!(cast, vec![false, true, true, true, true]);
}

#[test]
fn swizzle_follows_alignment() {
    let with: Vec<bool> = ALL.iter().map(|t| t.should_swizzle(true)).collect();
    assert_eq!(with, vec![false, true, true, false, true]);
    assert!(ALL.iter().all(|t| !t.should_swizzle(false)));
}

#[test]
fn cubedim_resources() {
    for t in ALL {
        let expected = if t == DispatchTileMatmul::Register { CubeDimResource::Units(1) } else { CubeDimResource::Planes(1) };
        assert_eq!(t.cubedim_resource().unwrap(), expected);
    }
}

#[test]
fn supported_sizes_filter_by_types_in_order() {
    let cmma = set(vec![mma(f16(), f32(), 16, 16, 16), mma(f32(), f32(), 16, 16, 8), mma(f16(), f32(), 32, 8, 16)]);
    let mma_set = set(vec![mma(f16(), f16(), 16, 8, 16)]);
    assert_eq!(
        DispatchTileMatmul::Cmma.supported_sizes(&cmma, &mma_set, f16(), f16(), f32()),
        vec![TileSize::new(16, 16, 16), TileSize::new(32, 8, 16)]
    );
    assert_eq!(DispatchTileMatmul::Mma.supported_sizes(&cmma, &mma_set, f16(), f16(), f16()), vec![TileSize::new(16, 8, 16)]);
    assert_eq!(DispatchTileMatmul::Mma.supported_sizes(&cmma, &mma_set, f16(), f16(), f32()), vec![]);
    assert_eq!(DispatchTileMatmul::Register.supported_sizes(&cmma, &mma_set, f16(), f16(), f32()), vec![]);
}

#[test]
fn is_supported_by_membership() {
    let cmma = set(vec![mma(f16(), f32(), 16, 16, 16)]);
    let none = MmaConfigSet::new();
    assert!(DispatchTileMatmul::Cmma.is_supported(&cmma, &none, mma(f16(), f32(), 16, 16, 16)));
    assert!(!DispatchTileMatmul::Cmma.is_supported(&cmma, &none, mma(f16(), f16(), 16, 16, 16)));
    assert!(!DispatchTileMatmul::Cmma.is_supported(&cmma, &none, mma(f16(), f32(), 16, 16, 8)));
    assert!(!DispatchTileMatmul::Mma.is_supported(&cmma, &none, mma(f16(), f32(), 16, 16, 16)));
    assert!(DispatchTileMatmul::Interleaved.is_supported(&none, &none, mma(f16(), f32(), 1, 1, 1)));
}

#[test]
fn expand_config_variants() {
    let dtypes = MatmulElems { lhs_stage: f16(), rhs_stage: f16(), acc_stage: f32() };
    let vectors = MatmulVectorSizes { lhs: 8, rhs: 4, out: 4 };
    let props = device();
    for t in ALL {
        let config = t.expand_config(&props, &blueprint(), &dtypes, &vectors).unwrap();
        let shared = match config {
            DispatchConfig::Cmma(s) => { assert_eq!(t, DispatchTileMatmul::Cmma); s }
            DispatchConfig::Mma(c) => {
                assert_eq!(t, DispatchTileMatmul::Mma);
                // the device offers no ldmatrix / stmatrix
                assert_eq!(c.mma_io_config.lhs_load_method, LoadMethod::Manual);
                assert_eq!(c.mma_io_config.store_method, StoreMethod::Manual);
                c.shared
            }
            DispatchConfig::Register(c) => {
                assert_eq!(t, DispatchTileMatmul::Register);
                assert_eq!((c.lhs_layout, c.rhs_layout), (MatrixLayout::RowMajor, MatrixLayout::ColMajor));
                c.shared
            }
            DispatchConfig::PlaneVec(c) => {
                assert_eq!(t, DispatchTileMatmul::PlaneVec);
                assert_eq!(c.reduce_vector_size, 8);
                c.shared
            }
            DispatchConfig::Interleaved(c) => { assert_eq!(t, DispatchTileMatmul::Interleaved); c.shared }
        };
        assert_eq!(shared.tile_size, TileSize::new(16, 16, 8));
        assert_eq!(shared.plane_dim, 32);
        assert_eq!(shared.swizzle_modes, SwizzleModes::default());
    }
}

#[test]
fn tile_size_from_tuple() {
    assert_eq!(TileSize::from_tuple((1, 2, 3)), TileSize { m: 1, n: 2, k: 3 });
}

#[test]
fn config_set_keeps_each_config_once() {
    let mut s = MmaConfigSet::new();
    assert!(s.insert(mma(f16(), f32(), 16, 16, 16)));
    assert!(s.insert(mma(f16(), f16(), 16, 16, 16)));
    assert!(!s.insert(mma(f16(), f32(), 16, 16, 16)));
    assert_eq!(s.configs().len(), 2);
    assert!(s.contains(&mma(f16(), f16(), 16, 16, 16)));
    assert!(!s.contains(&mma(f32(), f32(), 16, 16, 16)));
}

#[test]
fn mma_io_config_follows_stage_types() {
    // a device that offers ldmatrix for f16 only: the lhs (f16) is loaded with it,
    // the accumulator (f32) manually
    let mut props = device();
    props.features.matmul.ldmatrix.insert(f16());
    let dtypes = MatmulElems { lhs_stage: f16(), rhs_stage: f32(), acc_stage: f32() };
    let vectors = MatmulVectorSizes { lhs: 8, rhs: 4, out: 4 };
    match DispatchTileMatmul::Mma.expand_config(&props, &blueprint(), &dtypes, &vectors).unwrap() {
        DispatchConfig::Mma(c) => {
            assert_eq!(c.mma_io_config.lhs_load_method, LoadMethod::LoadMatrix);
            assert_eq!(c.mma_io_config.rhs_load_method, LoadMethod::Manual);
            assert_eq!(c.mma_io_config.acc_load_method, LoadMethod::Manual);
        }
        _ => panic!("expected an MMA configuration"),
    }
}

#[test]
fn config_set_keeps_device_order() {
    let mut s = MmaConfigSet::new();
    s.insert(mma(f32(), f32(), 16, 16, 8));
    s.insert(mma(f16(), f32(), 32, 8, 16));
    s.insert(mma(f16(), f32(), 16, 16, 16));
    s.insert(mma(f16(), f16(), 16, 16, 16));
    let mut device_set = std::collections::BTreeSet::new();
    for c in s.configs() {
        device_set.insert(DeviceMmaConfig { a_type: c.a_type, b_type: c.b_type, cd_type: c.cd_type, m: c.m, n: c.n, k: c.k });
    }
    let got: Vec<(StorageType, StorageType, u32, u32, u32)> =
        s.configs().iter().map(|c| (c.a_type, c.cd_type, c.m, c.n, c.k)).collect();
    let want: Vec<(StorageType, StorageType, u32, u32, u32)> =
        device_set.iter().map(|c| (c.a_type, c.cd_type, c.m, c.n, c.k)).collect();
    assert!(got == want);
    assert_eq!(
        DispatchTileMatmul::Cmma.supported_sizes(&s, &MmaConfigSet::new(), f16(), f16(), f32()),
        vec![TileSize::new(16, 16, 16), TileSize::new(32, 8, 16)]
    );
}
