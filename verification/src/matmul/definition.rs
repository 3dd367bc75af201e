use vstd::prelude::*;
use crate::runtime_types::{storage_type_eq, storage_type_less, storage_type_lt};
use crate::size::{InvalidConfigError, TileSize};
use cubecl::ir::StorageType;
use cubek_std::SwizzleModes;

verus! {

/// Layout of a 2D structure such as a tensor, a shared memory or a slice.
#[derive(Clone, Copy, Debug, PartialEq, Eq, Structural)]
pub enum MatrixLayout {
    RowMajor,
    ColMajor,
}

/// Tiling of a matmul problem.
#[derive(Clone, Copy, Debug)]
pub struct TilingScheme {
    pub tile_size: TileSize,
}

/// The choices from which a matmul kernel is configured.
#[derive(Clone, Copy, Debug)]
pub struct TilingBlueprint {
    pub tiling_scheme: TilingScheme,
    pub plane_dim: u32,
    pub swizzle_modes: SwizzleModes,
    pub lhs_layout: MatrixLayout,
    pub rhs_layout: MatrixLayout,
}

/// Storage types of the operands as they sit in the stage.
#[derive(Clone, Copy)]
pub struct MatmulElems {
    pub lhs_stage: StorageType,
    pub rhs_stage: StorageType,
    pub acc_stage: StorageType,
}

/// Vector sizes of the global operands.
#[derive(Clone, Copy, Debug, PartialEq, Eq, Structural)]
pub struct MatmulVectorSizes {
    pub lhs: usize,
    pub rhs: usize,
    pub out: usize,
}

/// Why a matmul kernel could not be set up.
#[derive(Debug)]
pub enum MatmulSetupError {
    InvalidConfig(InvalidConfigError),
}

/// A matrix shape and element types that an MMA instruction of the device
/// accepts: `a_type` (`m x k`) times `b_type` (`k x n`) into `cd_type`.
#[derive(Clone, Copy)]
pub struct MmaConfig {
    pub a_type: StorageType,
    pub b_type: StorageType,
    pub cd_type: StorageType,
    pub m: u32,
    pub n: u32,
    pub k: u32,
}

/// Whether `c1` comes before `c2` in the order that the device's configuration
/// sets keep: the derived order of `MmaConfig`, field by field (`a_type`,
/// `b_type`, `cd_type`, `m`, `n`, `k`).
pub open spec fn config_less(c1: MmaConfig, c2: MmaConfig) -> bool {
    ||| storage_type_less(c1.a_type, c2.a_type)
    ||| c1.a_type == c2.a_type && storage_type_less(c1.b_type, c2.b_type)
    ||| c1.a_type == c2.a_type && c1.b_type == c2.b_type && storage_type_less(c1.cd_type, c2.cd_type)
    ||| c1.a_type == c2.a_type && c1.b_type == c2.b_type && c1.cd_type == c2.cd_type && (c1.m < c2.m || (c1.m
        == c2.m && (c1.n < c2.n || (c1.n == c2.n && c1.k < c2.k))))
}

/// Whether `c1` comes before `c2` in the order of the device's configuration sets.
fn config_lt(c1: &MmaConfig, c2: &MmaConfig) -> (r: bool)
    ensures
        r == config_less(*c1, *c2),
{
    if storage_type_lt(&c1.a_type, &c2.a_type) {
        return true;
    }
    if !storage_type_eq(&c1.a_type, &c2.a_type) {
        return false;
    }
    if storage_type_lt(&c1.b_type, &c2.b_type) {
        return true;
    }
    if !storage_type_eq(&c1.b_type, &c2.b_type) {
        return false;
    }
    if storage_type_lt(&c1.cd_type, &c2.cd_type) {
        return true;
    }
    if !storage_type_eq(&c1.cd_type, &c2.cd_type) {
        return false;
    }
    c1.m < c2.m || (c1.m == c2.m && (c1.n < c2.n || (c1.n == c2.n && c1.k < c2.k)))
}

/// The MMA configurations that a device offers, each once. Each configuration is
/// inserted before the first one that it comes before in the device's order
/// (`config_less`). The derived order being a strict total order, configurations
/// inserted in any order end up in ascending order, the order in which a
/// device's `BTreeSet` of configurations yields them.
pub struct MmaConfigSet {
    configs: Vec<MmaConfig>,
}

impl View for MmaConfigSet {
    type V = Seq<MmaConfig>;

    closed spec fn view(&self) -> Seq<MmaConfig> {
        self.configs@
    }
}

impl MmaConfigSet {
    /// No configuration occurs twice.
    #[verifier::type_invariant]
    spec fn no_repeats(self) -> bool {
        self.configs@.no_duplicates()
    }

    pub fn new() -> (r: Self)
        ensures
            r@ == Seq::<MmaConfig>::empty(),
    {
        MmaConfigSet { configs: Vec::new() }
    }

    /// Whether `config` is in the set.
    pub fn contains(&self, config: &MmaConfig) -> (r: bool)
        ensures
            r == self@.contains(*config),
    {
        let mut i: usize = 0;
        while i < self.configs.len()
            invariant
                i <= self.configs@.len(),
                forall|j: int| 0 <= j < i ==> self.configs@[j] != *config,
            decreases self.configs@.len() - i,
        {
            let c = &self.configs[i];
            if storage_type_eq(&c.a_type, &config.a_type) && storage_type_eq(&c.b_type, &config.b_type)
                && storage_type_eq(&c.cd_type, &config.cd_type) && c.m == config.m && c.n == config.n && c.k
                == config.k {
                assert(self.configs@[i as int] == *config);
                return true;
            }
            i = i + 1;
        }
        false
    }

    /// Adds `config` unless the set already holds it, just before the first
    /// configuration that it comes before (at the end if there is none); tells
    /// whether it was added.
    pub fn insert(&mut self, config: MmaConfig) -> (r: bool)
        ensures
            r == !old(self)@.contains(config),
            !r ==> final(self)@ == old(self)@,
            r ==> exists|i: int|
                0 <= i <= old(self)@.len() && final(self)@ == old(self)@.insert(i, config) && (forall|j: int|
                    0 <= j < i ==> !config_less(config, #[trigger] old(self)@[j])) && (i < old(self)@.len()
                    ==> config_less(config, old(self)@[i])),
            final(self)@.no_duplicates(),
    {
        proof {
            use_type_invariant(&*self);
        }
        if self.contains(&config) {
            return false;
        }
        let mut i: usize = 0;
        while i < self.configs.len() && !config_lt(&config, &self.configs[i])
            invariant
                i <= self.configs@.len(),
                forall|j: int| 0 <= j < i ==> !config_less(config, #[trigger] self.configs@[j]),
            decreases self.configs@.len() - i,
        {
            i = i + 1;
        }
        let ghost before_view = self.configs@;
        assert(i < before_view.len() ==> config_less(config, before_view[i as int]));
        let mut configs: Vec<MmaConfig> = Vec::new();
        std::mem::swap(&mut configs, &mut self.configs);
        let ghost before = configs@;
        configs.insert(i, config);
        proof {
            assert(!before.contains(config));
            assert forall|a: int, b: int| 0 <= a < b < configs@.len() implies configs@[a] != configs@[b] by {
                if a == i as int {
                    assert(configs@[b] == before[b - 1]);
                } else if b == i as int {
                    assert(configs@[a] == before[a]);
                } else {
                    let a0 = if a < i { a } else { a - 1 };
                    let b0 = if b < i { b } else { b - 1 };
                    assert(configs@[a] == before[a0]);
                    assert(configs@[b] == before[b0]);
                }
            }
        }
        self.configs = configs;
        true
    }

    /// The configurations, in order, each once.
    pub fn configs(&self) -> (r: &Vec<MmaConfig>)
        ensures
            r@ == self@,
            r@.no_duplicates(),
    {
        proof {
            use_type_invariant(self);
        }
        &self.configs
    }
}

} // verus!
