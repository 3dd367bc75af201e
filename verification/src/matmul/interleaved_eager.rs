use vstd::prelude::*;
use crate::arith::{lemma_compose_div_mod, lemma_compose_unique, lemma_div_mod_parts};
use crate::matmul::definition::MatrixLayout;
use crate::size::TileSize;

verus! {

/// The stripe of an input tile that one unit of the plane owns, as a
/// `row_count x col_count` matrix stored in `layout` order.
pub struct InterleavedEagerFragment<E> {
    pub array: Vec<E>,
    pub layout: MatrixLayout,
    pub row_count: usize,
    pub col_count: usize,
}

/// Index in storage of the element at `(i, j)` of a `rows x cols` matrix.
pub open spec fn storage_index(layout: MatrixLayout, rows: int, cols: int, i: int, j: int) -> int {
    match layout {
        MatrixLayout::RowMajor => i * cols + j,
        MatrixLayout::ColMajor => j * rows + i,
    }
}

impl<E: Copy> InterleavedEagerFragment<E> {
    /// The storage holds the `row_count x col_count` elements; only those are read.
    pub open spec fn wf(&self) -> bool {
        self.array@.len() >= self.row_count * self.col_count
    }

    /// Element `(i, j)`.
    pub fn get(&self, i: usize, j: usize) -> (r: E)
        requires
            self.wf(),
            i < self.row_count,
            j < self.col_count,
        ensures
            r == self.array@[storage_index(self.layout, self.row_count as int, self.col_count as int, i as int, j as int)],
    {
        let len = self.array.len();
        proof {
            lemma_storage_index_in_range(self.layout, self.row_count as int, self.col_count as int, i as int, j as int);
            assert(i * self.col_count <= i * self.col_count + j);
        }
        match self.layout {
            MatrixLayout::RowMajor => self.array[i * self.col_count + j],
            MatrixLayout::ColMajor => self.array[j * self.row_count + i],
        }
    }
}

/// Every position `(i, j)` of a `rows x cols` matrix is stored below
/// `rows * cols`.
pub proof fn lemma_storage_index_in_range(layout: MatrixLayout, rows: int, cols: int, i: int, j: int)
    requires
        0 <= i < rows,
        0 <= j < cols,
    ensures
        0 <= storage_index(layout, rows, cols, i, j) < rows * cols,
{
    match layout {
        MatrixLayout::RowMajor => {
            assert(0 <= i * cols + j < rows * cols) by (nonlinear_arith)
                requires 0 <= i < rows, 0 <= j < cols;
        },
        MatrixLayout::ColMajor => {
            assert(0 <= j * rows + i < rows * cols) by (nonlinear_arith)
                requires 0 <= i < rows, 0 <= j < cols;
        },
    }
}

/// Two different positions of a matrix are stored at two different indices.
pub proof fn lemma_storage_index_injective(layout: MatrixLayout, rows: int, cols: int, i1: int, j1: int, i2: int, j2: int)
    requires
        0 <= i1 < rows,
        0 <= j1 < cols,
        0 <= i2 < rows,
        0 <= j2 < cols,
        i1 != i2 || j1 != j2,
    ensures
        storage_index(layout, rows, cols, i1, j1) != storage_index(layout, rows, cols, i2, j2),
{
    match layout {
        MatrixLayout::RowMajor => {
            if i1 * cols + j1 == i2 * cols + j2 {
                lemma_compose_unique(i1, j1, i2, j2, cols);
            }
        },
        MatrixLayout::ColMajor => {
            if j1 * rows + i1 == j2 * rows + i2 {
                lemma_compose_unique(j1, i1, j2, i2, rows);
            }
        },
    }
}

/// Every storage index below `rows * cols` holds some position of the matrix.
pub proof fn lemma_storage_index_onto(layout: MatrixLayout, rows: int, cols: int, p: int)
    requires
        rows >= 0,
        cols >= 0,
        0 <= p < rows * cols,
    ensures
        ({
            let (i, j) = match layout {
                MatrixLayout::RowMajor => (p / cols, p % cols),
                MatrixLayout::ColMajor => (p % rows, p / rows),
            };
            &&& 0 <= i < rows
            &&& 0 <= j < cols
            &&& storage_index(layout, rows, cols, i, j) == p
        }),
{
    assert(rows > 0 && cols > 0) by (nonlinear_arith)
        requires 0 <= p < rows * cols, rows >= 0, cols >= 0;
    match layout {
        MatrixLayout::RowMajor => {
            lemma_div_mod_parts(p, cols);
            let q = p / cols;
            assert(q < rows) by (nonlinear_arith)
                requires p == q * cols + p % cols, 0 <= p % cols, p < rows * cols, cols > 0;
        },
        MatrixLayout::ColMajor => {
            lemma_div_mod_parts(p, rows);
            let q = p / rows;
            assert(q < cols) by (nonlinear_arith)
                requires p == q * rows + p % rows, 0 <= p % rows, p < rows * cols, rows > 0;
        },
    }
}

/// Holds a full accumulator per unit, with partial contributions that the plane
/// combines.
pub struct InterleavedEagerAccumulator<E> {
    pub array: Vec<E>,
}

/// Configuration of the interleaved eager tile matmul: each of the `plane_dim`
/// units of the plane takes `k / plane_dim` of the reduction dimension.
#[derive(Clone, Copy, Debug, PartialEq, Eq, Structural)]
pub struct InterleavedEagerMatmulConfig {
    pub tile_size: TileSize,
    pub plane_dim: u32,
}

impl InterleavedEagerMatmulConfig {
    /// The plane splits the reduction dimension evenly between its units.
    pub open spec fn valid(self) -> bool {
        &&& self.plane_dim > 0
        &&& self.tile_size.k % self.plane_dim == 0
    }

    /// Number of accumulator elements that each unit stores.
    pub open spec fn local_accumulators(self) -> int {
        (self.tile_size.m * self.tile_size.n + self.plane_dim - 1) / (self.plane_dim as int)
    }

    pub fn plane_dim(&self) -> (r: u32)
        ensures
            r == self.plane_dim,
    {
        self.plane_dim
    }

    pub fn elements_per_unit_m(&self) -> (r: usize)
        ensures
            r == self.tile_size.m,
    {
        self.tile_size.m as usize
    }

    pub fn elements_per_unit_n(&self) -> (r: usize)
        ensures
            r == self.tile_size.n,
    {
        self.tile_size.n as usize
    }

    /// Each unit takes an equal share of the reduction dimension.
    pub fn elements_per_unit_k(&self) -> (r: usize)
        requires
            self.valid(),
        ensures
            r == self.tile_size.k / self.plane_dim,
    {
        (self.tile_size.k / self.plane_dim) as usize
    }

    /// Enough accumulator elements for each unit to hold its share of the
    /// `m x n` results when they are dealt out round-robin over the plane.
    pub fn num_local_accumulators(&self) -> (r: usize)
        requires
            self.plane_dim > 0,
            self.tile_size.m * self.tile_size.n + self.plane_dim <= usize::MAX,
        ensures
            r == self.local_accumulators(),
    {
        let total: usize = self.tile_size.m as usize * self.tile_size.n as usize;
        (total + self.plane_dim as usize - 1) / self.plane_dim as usize
    }
}

/// Computes a tile matmul where each unit of the plane accumulates an
/// interleaved (by `plane_dim`) partial dot-product over `k`; the plane combines
/// those contributions at every element.
#[derive(Clone, Copy, Debug, PartialEq, Eq, Structural)]
pub struct InterleavedEagerMatmul;

/// The slot of accumulator element `(row, col)` of an `m x n` accumulator dealt
/// out over `plane_dim` units: it is element `(row * n + col) / plane_dim` of
/// unit `(row * n + col) % plane_dim`.
pub open spec fn accumulator_slot_spec(n: int, plane_dim: int, row: int, col: int) -> (int, int) {
    ((row * n + col) / plane_dim, (row * n + col) % plane_dim)
}

impl InterleavedEagerMatmul {
    /// Fragment for the lhs stripe of a unit: `m x (k / plane_dim)`, each element
    /// `value`.
    pub fn allocate_lhs<L: Copy>(layout: MatrixLayout, config: InterleavedEagerMatmulConfig, value: L) -> (r:
        InterleavedEagerFragment<L>)
        requires
            config.valid(),
            config.tile_size.m * (config.tile_size.k / config.plane_dim) <= usize::MAX,
        ensures
            r.wf(),
            r.array@.len() == r.row_count * r.col_count,
            r.layout == layout,
            r.row_count == config.tile_size.m,
            r.col_count == config.tile_size.k / config.plane_dim,
            forall|p: int| 0 <= p < r.array@.len() ==> #[trigger] r.array@[p] == value,
    {
        let row_count = config.elements_per_unit_m();
        let col_count = config.elements_per_unit_k();
        InterleavedEagerFragment { array: filled(row_count * col_count, value), layout, row_count, col_count }
    }

    /// Fragment for the rhs stripe of a unit: `(k / plane_dim) x n`, each element
    /// `value`.
    pub fn allocate_rhs<R: Copy>(layout: MatrixLayout, config: InterleavedEagerMatmulConfig, value: R) -> (r:
        InterleavedEagerFragment<R>)
        requires
            config.valid(),
            (config.tile_size.k / config.plane_dim) * config.tile_size.n <= usize::MAX,
        ensures
            r.wf(),
            r.array@.len() == r.row_count * r.col_count,
            r.layout == layout,
            r.row_count == config.tile_size.k / config.plane_dim,
            r.col_count == config.tile_size.n,
            forall|p: int| 0 <= p < r.array@.len() ==> #[trigger] r.array@[p] == value,
    {
        let row_count = config.elements_per_unit_k();
        let col_count = config.elements_per_unit_n();
        InterleavedEagerFragment { array: filled(row_count * col_count, value), layout, row_count, col_count }
    }

    /// Accumulator of a unit, each element `value`; accumulators are row major.
    pub fn allocate_acc<A: Copy>(layout: MatrixLayout, config: InterleavedEagerMatmulConfig, value: A) -> (r:
        InterleavedEagerAccumulator<A>)
        requires
            layout == MatrixLayout::RowMajor,
            config.plane_dim > 0,
            config.tile_size.m * config.tile_size.n + config.plane_dim <= usize::MAX,
        ensures
            r.array@.len() == config.local_accumulators(),
            forall|p: int| 0 <= p < r.array@.len() ==> #[trigger] r.array@[p] == value,
    {
        InterleavedEagerAccumulator { array: filled(config.num_local_accumulators(), value) }
    }

    /// Where the plane-summed result for accumulator element `(row, col)` goes:
    /// `(index in the unit's accumulator, unit that stores it)`.
    pub fn accumulator_slot(config: InterleavedEagerMatmulConfig, row: usize, col: usize) -> (r: (usize, usize))
        requires
            config.plane_dim > 0,
            row < config.tile_size.m,
            col < config.tile_size.n,
            config.tile_size.m * config.tile_size.n <= usize::MAX,
        ensures
            r.0 == accumulator_slot_spec(config.tile_size.n as int, config.plane_dim as int, row as int, col as int).0,
            r.1 == accumulator_slot_spec(config.tile_size.n as int, config.plane_dim as int, row as int, col as int).1,
    {
        let n = config.elements_per_unit_n();
        proof {
            lemma_storage_index_in_range(
                MatrixLayout::RowMajor,
                config.tile_size.m as int,
                config.tile_size.n as int,
                row as int,
                col as int,
            );
        }
        let acc_index = row * n + col;
        let plane_dim = config.plane_dim() as usize;
        (acc_index / plane_dim, acc_index % plane_dim)
    }
}

/// Every accumulator element of the `m x n` tile lands in one slot of one unit:
/// the unit is below `plane_dim` and the index is below the number of local
/// accumulators that `allocate_acc` provides.
pub proof fn lemma_accumulator_slot_in_range(config: InterleavedEagerMatmulConfig, row: int, col: int)
    requires
        config.plane_dim > 0,
        0 <= row < config.tile_size.m,
        0 <= col < config.tile_size.n,
    ensures
        ({
            let (local, unit) = accumulator_slot_spec(config.tile_size.n as int, config.plane_dim as int, row, col);
            &&& 0 <= unit < config.plane_dim
            &&& 0 <= local < config.local_accumulators()
        }),
{
    let m = config.tile_size.m as int;
    let n = config.tile_size.n as int;
    let d = config.plane_dim as int;
    lemma_storage_index_in_range(MatrixLayout::RowMajor, m, n, row, col);
    let a = row * n + col;
    lemma_div_mod_parts(a, d);
    let total = m * n;
    lemma_div_mod_parts(total + d - 1, d);
    let q = a / d;
    let c = (total + d - 1) / d;
    assert(q < c) by (nonlinear_arith)
        requires
            a == q * d + a % d,
            0 <= a % d < d,
            a < total,
            total + d - 1 == c * d + (total + d - 1) % d,
            0 <= (total + d - 1) % d < d,
            d > 0,
    ;
}

/// Two different accumulator elements never share a slot: the plane-summed
/// results of distinct `(row, col)` are stored at distinct places.
pub proof fn lemma_accumulator_slots_distinct(
    config: InterleavedEagerMatmulConfig,
    row1: int,
    col1: int,
    row2: int,
    col2: int,
)
    requires
        config.plane_dim > 0,
        0 <= row1 < config.tile_size.m,
        0 <= col1 < config.tile_size.n,
        0 <= row2 < config.tile_size.m,
        0 <= col2 < config.tile_size.n,
        row1 != row2 || col1 != col2,
    ensures
        accumulator_slot_spec(config.tile_size.n as int, config.plane_dim as int, row1, col1)
            != accumulator_slot_spec(config.tile_size.n as int, config.plane_dim as int, row2, col2),
{
    let m = config.tile_size.m as int;
    let n = config.tile_size.n as int;
    let d = config.plane_dim as int;
    lemma_storage_index_injective(MatrixLayout::RowMajor, m, n, row1, col1, row2, col2);
    lemma_storage_index_in_range(MatrixLayout::RowMajor, m, n, row1, col1);
    lemma_storage_index_in_range(MatrixLayout::RowMajor, m, n, row2, col2);
    let a1 = row1 * n + col1;
    let a2 = row2 * n + col2;
    lemma_div_mod_parts(a1, d);
    lemma_div_mod_parts(a2, d);
}

/// Every slot below the `m x n` results is filled: slot `local` of unit `unit`
/// receives accumulator element `(p / n, p % n)` with `p = local * plane_dim + unit`.
pub proof fn lemma_accumulator_slot_onto(config: InterleavedEagerMatmulConfig, local: int, unit: int)
    requires
        config.plane_dim > 0,
        0 <= unit < config.plane_dim,
        0 <= local,
        local * config.plane_dim + unit < config.tile_size.m * config.tile_size.n,
    ensures
        ({
            let p = local * config.plane_dim + unit;
            let n = config.tile_size.n as int;
            &&& 0 <= p / n < config.tile_size.m
            &&& 0 <= p % n < n
            &&& accumulator_slot_spec(n, config.plane_dim as int, p / n, p % n) == (local, unit)
        }),
{
    let m = config.tile_size.m as int;
    let n = config.tile_size.n as int;
    let d = config.plane_dim as int;
    let p = local * d + unit;
    assert(p >= 0) by (nonlinear_arith) requires local >= 0, d > 0, unit >= 0, p == local * d + unit;
    lemma_storage_index_onto(MatrixLayout::RowMajor, m, n, p);
    lemma_compose_div_mod(local, unit, d);
}

/// A vector of `len` copies of `value`.
fn filled<E: Copy>(len: usize, value: E) -> (v: Vec<E>)
    ensures
        v@.len() == len,
        forall|p: int| 0 <= p < len ==> #[trigger] v@[p] == value,
{
    let mut v: Vec<E> = Vec::new();
    let mut i: usize = 0;
    while i < len
        invariant
            i <= len,
            v@.len() == i,
            forall|p: int| 0 <= p < i ==> #[trigger] v@[p] == value,
        decreases len - i,
    {
        v.push(value);
        i = i + 1;
    }
    v
}

} // verus!

verus! {

/// `2^64`, the modulus of `u64` arithmetic.
pub open spec fn u64_modulus() -> int {
    0x1_0000_0000_0000_0000
}

/// Element `(i, j)` of a fragment, as an integer.
pub open spec fn elem_at(f: InterleavedEagerFragment<u64>, i: int, j: int) -> int {
    f.array@[storage_index(f.layout, f.row_count as int, f.col_count as int, i, j)] as int
}

/// The partial dot product of one unit for accumulator element `(row, col)`:
/// the sum over `t < count` of `lhs(row, t) * rhs(t, col)`.
pub open spec fn unit_dot(
    lhs: InterleavedEagerFragment<u64>,
    rhs: InterleavedEagerFragment<u64>,
    row: int,
    col: int,
    count: nat,
) -> int
    decreases count,
{
    if count == 0 {
        0
    } else {
        unit_dot(lhs, rhs, row, col, (count - 1) as nat) + elem_at(lhs, row, count - 1) * elem_at(
            rhs,
            count - 1,
            col,
        )
    }
}

/// The dot product that the plane combines for accumulator element
/// `(row, col)`: the sum over the first `units` units of their partial dot
/// products over `local_k` elements.
pub open spec fn plane_dot(
    lhs: Seq<InterleavedEagerFragment<u64>>,
    rhs: Seq<InterleavedEagerFragment<u64>>,
    row: int,
    col: int,
    local_k: nat,
    units: nat,
) -> int
    decreases units,
{
    if units == 0 {
        0
    } else {
        plane_dot(lhs, rhs, row, col, local_k, (units - 1) as nat) + unit_dot(
            lhs[units - 1],
            rhs[units - 1],
            row,
            col,
            local_k,
        )
    }
}

/// The stripes of the plane's units cover their share of the tile: unit `u`
/// holds an lhs stripe of at least `m x (k / plane_dim)` and an rhs stripe of at
/// least `(k / plane_dim) x n`.
pub open spec fn plane_stripes_fit(
    lhs: Seq<InterleavedEagerFragment<u64>>,
    rhs: Seq<InterleavedEagerFragment<u64>>,
    config: InterleavedEagerMatmulConfig,
) -> bool {
    &&& lhs.len() == config.plane_dim
    &&& rhs.len() == config.plane_dim
    &&& forall|u: int|
        0 <= u < config.plane_dim ==> {
            &&& (#[trigger] lhs[u]).wf()
            &&& rhs[u].wf()
            &&& lhs[u].row_count >= config.tile_size.m
            &&& lhs[u].col_count >= config.tile_size.k / config.plane_dim
            &&& rhs[u].row_count >= config.tile_size.k / config.plane_dim
            &&& rhs[u].col_count >= config.tile_size.n
        }
}

/// What slot `p = local * plane_dim + unit` of a unit's accumulator holds once
/// the results below `done` have been stored: the old value plus the plane's
/// dot product for element `(p / n, p % n)`, modulo `2^64`.
pub open spec fn slot_after(
    old_value: u64,
    p: int,
    done: int,
    lhs: Seq<InterleavedEagerFragment<u64>>,
    rhs: Seq<InterleavedEagerFragment<u64>>,
    config: InterleavedEagerMatmulConfig,
) -> int {
    let n = config.tile_size.n as int;
    if p < done {
        (old_value + plane_dot(
            lhs,
            rhs,
            p / n,
            p % n,
            (config.tile_size.k / config.plane_dim) as nat,
            config.plane_dim as nat,
        )) % u64_modulus()
    } else {
        old_value as int
    }
}

/// `a + b` modulo `2^64`.
fn add_wrapping(a: u64, b: u64) -> (r: u64)
    ensures
        r == (a + b) % u64_modulus(),
{
    proof {
        if a + b > u64::MAX {
            vstd::arithmetic::div_mod::lemma_fundamental_div_mod_converse(a + b, u64_modulus(), 1, a + b - u64_modulus());
        } else {
            vstd::arithmetic::div_mod::lemma_fundamental_div_mod_converse(a + b, u64_modulus(), 0, a + b);
        }
    }
    a.wrapping_add(b)
}

/// `a * b` modulo `2^64`.
fn mul_wrapping(a: u64, b: u64) -> (r: u64)
    ensures
        r == (a * b) % u64_modulus(),
{
    proof {
        vstd::arithmetic::div_mod::lemma_mod_bound(a * b, u64_modulus());
        assert(a * b >= 0) by (nonlinear_arith);
    }
    a.wrapping_mul(b)
}

/// The partial dot product of one unit, modulo `2^64`.
fn unit_partial(
    lhs: &InterleavedEagerFragment<u64>,
    rhs: &InterleavedEagerFragment<u64>,
    row: usize,
    col: usize,
    count: usize,
) -> (r: u64)
    requires
        lhs.wf(),
        rhs.wf(),
        row < lhs.row_count,
        count <= lhs.col_count,
        count <= rhs.row_count,
        col < rhs.col_count,
    ensures
        r == unit_dot(*lhs, *rhs, row as int, col as int, count as nat) % u64_modulus(),
{
    let mut sum: u64 = 0;
    let mut t: usize = 0;
    while t < count
        invariant
            lhs.wf(),
            rhs.wf(),
            row < lhs.row_count,
            count <= lhs.col_count,
            count <= rhs.row_count,
            col < rhs.col_count,
            t <= count,
            sum == unit_dot(*lhs, *rhs, row as int, col as int, t as nat) % u64_modulus(),
        decreases count - t,
    {
        let a = lhs.get(row, t);
        let b = rhs.get(t, col);
        let product = mul_wrapping(a, b);
        proof {
            let d = unit_dot(*lhs, *rhs, row as int, col as int, t as nat);
            vstd::arithmetic::div_mod::lemma_add_mod_noop(d, a * b, u64_modulus());
            assert(unit_dot(*lhs, *rhs, row as int, col as int, (t + 1) as nat) == d + a * b);
        }
        sum = add_wrapping(sum, product);
        t = t + 1;
    }
    sum
}

/// The plane-wide sum of the units' partial dot products, modulo `2^64`.
fn plane_partial(
    lhs: &Vec<InterleavedEagerFragment<u64>>,
    rhs: &Vec<InterleavedEagerFragment<u64>>,
    config: InterleavedEagerMatmulConfig,
    row: usize,
    col: usize,
    local_k: usize,
) -> (r: u64)
    requires
        config.valid(),
        plane_stripes_fit(lhs@, rhs@, config),
        local_k == config.tile_size.k / config.plane_dim,
        row < config.tile_size.m,
        col < config.tile_size.n,
    ensures
        r == plane_dot(lhs@, rhs@, row as int, col as int, local_k as nat, config.plane_dim as nat) % u64_modulus(),
{
    let mut sum: u64 = 0;
    let mut u: usize = 0;
    while u < lhs.len()
        invariant
            config.valid(),
            plane_stripes_fit(lhs@, rhs@, config),
            local_k == config.tile_size.k / config.plane_dim,
            row < config.tile_size.m,
            col < config.tile_size.n,
            u <= lhs@.len(),
            sum == plane_dot(lhs@, rhs@, row as int, col as int, local_k as nat, u as nat) % u64_modulus(),
        decreases lhs@.len() - u,
    {
        assert(lhs@[u as int].wf());
        let partial = unit_partial(&lhs[u], &rhs[u], row, col, local_k);
        proof {
            let d = plane_dot(lhs@, rhs@, row as int, col as int, local_k as nat, u as nat);
            let e = unit_dot(lhs@[u as int], rhs@[u as int], row as int, col as int, local_k as nat);
            vstd::arithmetic::div_mod::lemma_add_mod_noop(d, e, u64_modulus());
        }
        sum = add_wrapping(sum, partial);
        u = u + 1;
    }
    sum
}

impl InterleavedEagerMatmul {
    /// The tile matmul as unit `unit` of the plane runs it, on `u64` elements
    /// (arithmetic modulo `2^64`). `lhs` and `rhs` hold the stripes of all the
    /// plane's units, indexed by unit, so that the plane-wide sum of their partial
    /// dot products can be formed. For every accumulator element `(row, col)` the
    /// unit adds that sum to its slot when it is the storing unit, and zero
    /// otherwise. So slot `local` ends up holding its old value plus the plane's
    /// dot product for element `p = local * plane_dim + unit`, if `p` is below
    /// `m * n`, and its old value otherwise.
    pub fn execute(
        lhs: &Vec<InterleavedEagerFragment<u64>>,
        rhs: &Vec<InterleavedEagerFragment<u64>>,
        acc: &mut InterleavedEagerAccumulator<u64>,
        unit: usize,
        config: InterleavedEagerMatmulConfig,
    )
        requires
            config.valid(),
            plane_stripes_fit(lhs@, rhs@, config),
            unit < config.plane_dim,
            old(acc).array@.len() >= config.local_accumulators(),
            config.tile_size.m * config.tile_size.n + config.plane_dim <= usize::MAX,
        ensures
            final(acc).array@.len() == old(acc).array@.len(),
            forall|l: int|
                0 <= l < old(acc).array@.len() ==> #[trigger] final(acc).array@[l] == slot_after(
                    old(acc).array@[l],
                    l * config.plane_dim + unit,
                    config.tile_size.m * config.tile_size.n,
                    lhs@,
                    rhs@,
                    config,
                ),
    {
        let m = config.elements_per_unit_m();
        let n = config.elements_per_unit_n();
        let local_k = config.elements_per_unit_k();
        let ghost pd = config.plane_dim as int;
        let ghost old_values = acc.array@;
        let mut m_: usize = 0;
        while m_ < m
            invariant
                config.valid(),
                plane_stripes_fit(lhs@, rhs@, config),
                unit < config.plane_dim,
                pd == config.plane_dim,
                old_values.len() >= config.local_accumulators(),
                config.tile_size.m * config.tile_size.n + config.plane_dim <= usize::MAX,
                m == config.tile_size.m,
                n == config.tile_size.n,
                local_k == config.tile_size.k / config.plane_dim,
                m_ <= m,
                acc.array@.len() == old_values.len(),
                forall|l: int|
                    0 <= l < old_values.len() ==> #[trigger] acc.array@[l] == slot_after(
                        old_values[l],
                        l * pd + unit,
                        m_ * n,
                        lhs@,
                        rhs@,
                        config,
                    ),
            decreases m - m_,
        {
            let mut n_: usize = 0;
            while n_ < n
                invariant
                    config.valid(),
                    plane_stripes_fit(lhs@, rhs@, config),
                    unit < config.plane_dim,
                    pd == config.plane_dim,
                    old_values.len() >= config.local_accumulators(),
                    config.tile_size.m * config.tile_size.n + config.plane_dim <= usize::MAX,
                    m == config.tile_size.m,
                    n == config.tile_size.n,
                    local_k == config.tile_size.k / config.plane_dim,
                    m_ < m,
                    n_ <= n,
                    acc.array@.len() == old_values.len(),
                    forall|l: int|
                        0 <= l < old_values.len() ==> #[trigger] acc.array@[l] == slot_after(
                            old_values[l],
                            l * pd + unit,
                            m_ * n + n_,
                            lhs@,
                            rhs@,
                            config,
                        ),
                decreases n - n_,
            {
                let plane_summed = plane_partial(lhs, rhs, config, m_, n_, local_k);
                let (local, storing) = InterleavedEagerMatmul::accumulator_slot(config, m_, n_);
                let contribution: u64 = if storing == unit { plane_summed } else { 0 };
                let ghost a = m_ * n + n_;
                proof {
                    lemma_accumulator_slot_in_range(config, m_ as int, n_ as int);
                    lemma_div_mod_parts(a, pd);
                    lemma_compose_div_mod(m_ as int, n_ as int, n as int);
                }
                let current = acc.array[local];
                let updated = add_wrapping(current, contribution);
                let ghost before = acc.array@;
                acc.array.set(local, updated);
                proof {
                    assert forall|l: int| 0 <= l < old_values.len() implies #[trigger] acc.array@[l] == slot_after(
                        old_values[l],
                        l * pd + unit,
                        a + 1,
                        lhs@,
                        rhs@,
                        config,
                    ) by {
                        let p = l * pd + unit;
                        if l == local as int {
                            if storing == unit {
                                assert(p == a);
                                let d = plane_dot(lhs@, rhs@, m_ as int, n_ as int, local_k as nat, config.plane_dim as nat);
                                vstd::arithmetic::div_mod::lemma_add_mod_noop(old_values[l] as int, d, u64_modulus());
                                vstd::arithmetic::div_mod::lemma_small_mod(old_values[l] as nat, u64_modulus() as nat);
                            } else {
                                assert(p != a);
                                vstd::arithmetic::div_mod::lemma_small_mod(before[l] as nat, u64_modulus() as nat);
                            }
                        } else {
                            if p == a {
                                lemma_compose_unique(l, unit as int, local as int, storing as int, pd);
                            }
                            assert(acc.array@[l] == before[l]);
                        }
                    }
                }
                n_ = n_ + 1;
            }
            proof {
                assert(m_ * n + n == (m_ + 1) * n) by (nonlinear_arith);
            }
            m_ = m_ + 1;
        }
    }
}

} // verus!

verus! {

/// A unit's partial dot product of `u64` elements is never negative.
pub proof fn lemma_unit_dot_nonnegative(
    lhs: InterleavedEagerFragment<u64>,
    rhs: InterleavedEagerFragment<u64>,
    row: int,
    col: int,
    count: nat,
)
    ensures
        unit_dot(lhs, rhs, row, col, count) >= 0,
    decreases count,
{
    if count > 0 {
        lemma_unit_dot_nonnegative(lhs, rhs, row, col, (count - 1) as nat);
        let a = elem_at(lhs, row, count - 1);
        let b = elem_at(rhs, count - 1, col);
        assert(a * b >= 0) by (nonlinear_arith)
            requires a >= 0, b >= 0;
    }
}

/// The plane's dot product of `u64` elements is never negative.
pub proof fn lemma_plane_dot_nonnegative(
    lhs: Seq<InterleavedEagerFragment<u64>>,
    rhs: Seq<InterleavedEagerFragment<u64>>,
    row: int,
    col: int,
    local_k: nat,
    units: nat,
)
    ensures
        plane_dot(lhs, rhs, row, col, local_k, units) >= 0,
    decreases units,
{
    if units > 0 {
        lemma_plane_dot_nonnegative(lhs, rhs, row, col, local_k, (units - 1) as nat);
        lemma_unit_dot_nonnegative(lhs[units - 1], rhs[units - 1], row, col, local_k);
    }
}

/// `execute` adds to an accumulator slot and does not overwrite it: when no sum
/// wraps past `2^64`, a filled slot grows by exactly the plane's dot product for
/// its element, whatever it held before, so two runs on the same stripes from
/// different accumulators change each slot by the same amount.
pub proof fn lemma_execute_adds_plane_dot(
    old1: u64,
    old2: u64,
    p: int,
    lhs: Seq<InterleavedEagerFragment<u64>>,
    rhs: Seq<InterleavedEagerFragment<u64>>,
    config: InterleavedEagerMatmulConfig,
)
    requires
        0 <= p < config.tile_size.m * config.tile_size.n,
        config.tile_size.n > 0,
        old1 + plane_dot(
            lhs,
            rhs,
            p / (config.tile_size.n as int),
            p % (config.tile_size.n as int),
            (config.tile_size.k / config.plane_dim) as nat,
            config.plane_dim as nat,
        ) < u64_modulus(),
        old2 + plane_dot(
            lhs,
            rhs,
            p / (config.tile_size.n as int),
            p % (config.tile_size.n as int),
            (config.tile_size.k / config.plane_dim) as nat,
            config.plane_dim as nat,
        ) < u64_modulus(),
    ensures
        slot_after(old1, p, config.tile_size.m * config.tile_size.n, lhs, rhs, config) - old1 == plane_dot(
            lhs,
            rhs,
            p / (config.tile_size.n as int),
            p % (config.tile_size.n as int),
            (config.tile_size.k / config.plane_dim) as nat,
            config.plane_dim as nat,
        ),
        slot_after(old1, p, config.tile_size.m * config.tile_size.n, lhs, rhs, config) - old1 == slot_after(
            old2,
            p,
            config.tile_size.m * config.tile_size.n,
            lhs,
            rhs,
            config,
        ) - old2,
{
    let n = config.tile_size.n as int;
    let d = plane_dot(lhs, rhs, p / n, p % n, (config.tile_size.k / config.plane_dim) as nat, config.plane_dim as nat);
    lemma_plane_dot_nonnegative(lhs, rhs, p / n, p % n, (config.tile_size.k / config.plane_dim) as nat, config.plane_dim as nat);
    vstd::arithmetic::div_mod::lemma_small_mod((old1 + d) as nat, u64_modulus() as nat);
    vstd::arithmetic::div_mod::lemma_small_mod((old2 + d) as nat, u64_modulus() as nat);
}

} // verus!

verus! {

/// Element `(i, j)` of a fragment is read through its layout: at `i * cols + j`
/// of its storage when row major, at `j * rows + i` when column major; it is the
/// value that `get(i, j)` returns.
pub proof fn lemma_elem_at_follows_layout(f: InterleavedEagerFragment<u64>, i: int, j: int)
    ensures
        f.layout == MatrixLayout::RowMajor ==> elem_at(f, i, j) == f.array@[i * f.col_count + j] as int,
        f.layout == MatrixLayout::ColMajor ==> elem_at(f, i, j) == f.array@[j * f.row_count + i] as int,
{
}

/// Each step of a unit's partial dot product adds the product of the lhs element
/// at `(row, t)` and the rhs element at `(t, col)`, each read through its own
/// layout.
pub proof fn lemma_unit_dot_step(
    lhs: InterleavedEagerFragment<u64>,
    rhs: InterleavedEagerFragment<u64>,
    row: int,
    col: int,
    t: nat,
)
    ensures
        unit_dot(lhs, rhs, row, col, t + 1) - unit_dot(lhs, rhs, row, col, t) == (if lhs.layout
            == MatrixLayout::RowMajor {
            lhs.array@[row * lhs.col_count + t] as int
        } else {
            lhs.array@[t * lhs.row_count + row] as int
        }) * (if rhs.layout == MatrixLayout::RowMajor {
            rhs.array@[t * rhs.col_count + col] as int
        } else {
            rhs.array@[col * rhs.row_count + t] as int
        }),
{
    assert(unit_dot(lhs, rhs, row, col, t + 1) == unit_dot(lhs, rhs, row, col, t) + elem_at(lhs, row, t as int)
        * elem_at(rhs, t as int, col));
}

} // verus!
