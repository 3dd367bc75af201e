use vstd::prelude::*;
use crate::arith::{lemma_chunk_within, lemma_compose_div_mod, lemma_compose_unique, lemma_div_mod_parts};
use crate::ir::{MatrixIdent, MatrixLayout};
use crate::size::TileSize;

verus! {

/// Length of the dimension along which a lane's registers are contiguous: the
/// columns of the operand for a row-major layout, its rows for a column-major one.
/// `A` is `m x k`, `B` is `k x n` and the accumulator is `m x n`.
pub open spec fn contiguous_dim(layout: MatrixLayout, ident: MatrixIdent, m: u32, n: u32, k: u32) -> int {
    match layout {
        MatrixLayout::RowMajor => match ident {
            MatrixIdent::A => k as int,
            MatrixIdent::B => n as int,
            MatrixIdent::Accumulator => n as int,
        },
        MatrixLayout::ColMajor => match ident {
            MatrixIdent::A => m as int,
            MatrixIdent::B => k as int,
            MatrixIdent::Accumulator => m as int,
        },
        MatrixLayout::Undefined => 0,
    }
}

/// Number of lanes that share one row (row-major) or one column (column-major).
pub open spec fn lanes_per_dim(layout: MatrixLayout, line_size: u32, ident: MatrixIdent, m: u32, n: u32, k: u32) -> int {
    contiguous_dim(layout, ident, m, n, k) / (line_size as int)
}

/// A layout in which every lane holds whole lines along the contiguous dimension.
pub open spec fn layout_supported(layout: MatrixLayout, line_size: u32, ident: MatrixIdent, m: u32, n: u32, k: u32) -> bool {
    &&& layout != MatrixLayout::Undefined
    &&& line_size > 0
    &&& contiguous_dim(layout, ident, m, n, k) >= line_size
}

/// Position `(row, col)` in the tile of the element that lane `lane` holds at
/// offset `(relative_row, relative_col)` of its registers.
pub open spec fn fragment_position(
    lane: u32,
    relative_row: u32,
    relative_col: u32,
    layout: MatrixLayout,
    line_size: u32,
    ident: MatrixIdent,
    m: u32,
    n: u32,
    k: u32,
) -> (int, int) {
    let lanes = lanes_per_dim(layout, line_size, ident, m, n, k);
    let lane = lane as int;
    match layout {
        MatrixLayout::RowMajor => (lane / lanes, (lane % lanes) * line_size + relative_col),
        MatrixLayout::ColMajor => ((lane % lanes) * line_size + relative_row, lane / lanes),
        MatrixLayout::Undefined => (0, 0),
    }
}

/// Returns the absolute position in the fragment of the element that lane
/// `lane_id` holds at `(relative_row, relative_col)`.
///
/// The elements of a lane lie contiguously on one row (row-major, where
/// `relative_row` plays no part) or on one column (column-major, where
/// `relative_col` plays no part).
pub fn absolute_pos_in_fragment(
    lane_id: u32,
    relative_row: u32,
    relative_col: u32,
    mma_line_layout: MatrixLayout,
    mma_line_size: u32,
    ident: MatrixIdent,
    m: u32,
    n: u32,
    k: u32,
) -> (pos: (u32, u32))
    requires
        layout_supported(mma_line_layout, mma_line_size, ident, m, n, k),
        fragment_position(lane_id, relative_row, relative_col, mma_line_layout, mma_line_size, ident, m, n, k).0 <= u32::MAX,
        fragment_position(lane_id, relative_row, relative_col, mma_line_layout, mma_line_size, ident, m, n, k).1 <= u32::MAX,
    ensures
        pos.0 == fragment_position(lane_id, relative_row, relative_col, mma_line_layout, mma_line_size, ident, m, n, k).0,
        pos.1 == fragment_position(lane_id, relative_row, relative_col, mma_line_layout, mma_line_size, ident, m, n, k).1,
{
    let contiguous_dim: u32 = match mma_line_layout {
        MatrixLayout::RowMajor => match ident {
            MatrixIdent::A => k,
            MatrixIdent::B => n,
            MatrixIdent::Accumulator => n,
        },
        _ => match ident {
            MatrixIdent::A => m,
            MatrixIdent::B => k,
            MatrixIdent::Accumulator => m,
        },
    };
    let lanes_per_contiguous_dim: u32 = contiguous_dim / mma_line_size;
    proof {
        lemma_chunk_within(lane_id as int, mma_line_size as int, contiguous_dim as int);
    }
    let offset: u32 = (lane_id % lanes_per_contiguous_dim) * mma_line_size;
    let major: u32 = lane_id / lanes_per_contiguous_dim;
    match mma_line_layout {
        MatrixLayout::RowMajor => (major, offset + relative_col),
        _ => (offset + relative_row, major),
    }
}

/// Number of units that hold a part of each row of the operand.
pub open spec fn units_per_row(layout: MatrixLayout, line_size: u32, n: u32, k: u32, ident: MatrixIdent) -> int {
    match (ident, layout) {
        (MatrixIdent::A, MatrixLayout::RowMajor) => k as int / line_size as int,
        (MatrixIdent::A, MatrixLayout::ColMajor) => k as int,
        (MatrixIdent::B, MatrixLayout::RowMajor) => n as int / line_size as int,
        (MatrixIdent::B, MatrixLayout::ColMajor) => n as int,
        (MatrixIdent::Accumulator, MatrixLayout::RowMajor) => n as int / line_size as int,
        (MatrixIdent::Accumulator, MatrixLayout::ColMajor) => n as int,
        (_, _) => 0,
    }
}

/// Number of units that hold a part of each row, assuming that the elements of a
/// lane are all contiguous on one row or one column.
pub fn num_units_per_row(
    mma_line_layout: MatrixLayout,
    mma_line_size: u32,
    n: u32,
    k: u32,
    ident: MatrixIdent,
) -> (r: u32)
    requires
        mma_line_layout != MatrixLayout::Undefined,
        mma_line_layout == MatrixLayout::RowMajor ==> mma_line_size > 0,
    ensures
        r == units_per_row(mma_line_layout, mma_line_size, n, k, ident),
{
    match (ident, mma_line_layout) {
        (MatrixIdent::A, MatrixLayout::RowMajor) => k / mma_line_size,
        (MatrixIdent::A, MatrixLayout::ColMajor) => k,
        (MatrixIdent::B, MatrixLayout::RowMajor) => n / mma_line_size,
        (MatrixIdent::B, MatrixLayout::ColMajor) => n,
        (MatrixIdent::Accumulator, MatrixLayout::RowMajor) => n / mma_line_size,
        (_, _) => n,
    }
}

} // verus!

verus! {

/// Index of the dimension along which the lanes' lines run: columns in a
/// row-major layout, rows in a column-major one.
pub open spec fn along(layout: MatrixLayout, pos: (int, int)) -> int {
    if layout == MatrixLayout::RowMajor { pos.1 } else { pos.0 }
}

/// Index of the other dimension: each lane stays on one of these.
pub open spec fn across(layout: MatrixLayout, pos: (int, int)) -> int {
    if layout == MatrixLayout::RowMajor { pos.0 } else { pos.1 }
}

/// Offset of an element inside its lane's line: the relative column in a
/// row-major layout, the relative row in a column-major one.
pub open spec fn offset_in_line(layout: MatrixLayout, relative_row: u32, relative_col: u32) -> int {
    if layout == MatrixLayout::RowMajor { relative_col as int } else { relative_row as int }
}

/// Every element that a lane holds lies on the tile: along the lines it stays
/// below the contiguous dimension, and a lane below `count * lanes_per_dim`
/// stays on one of the first `count` lines.
pub proof fn lemma_fragment_position_in_tile(
    lane: u32,
    relative_row: u32,
    relative_col: u32,
    layout: MatrixLayout,
    line_size: u32,
    ident: MatrixIdent,
    m: u32,
    n: u32,
    k: u32,
    count: int,
)
    requires
        layout_supported(layout, line_size, ident, m, n, k),
        offset_in_line(layout, relative_row, relative_col) < line_size,
        lane < count * lanes_per_dim(layout, line_size, ident, m, n, k),
    ensures
        ({
            let pos = fragment_position(lane, relative_row, relative_col, layout, line_size, ident, m, n, k);
            &&& 0 <= along(layout, pos) < contiguous_dim(layout, ident, m, n, k)
            &&& 0 <= across(layout, pos) < count
        }),
{
    let lanes = lanes_per_dim(layout, line_size, ident, m, n, k);
    let cd = contiguous_dim(layout, ident, m, n, k);
    lemma_chunk_within(lane as int, line_size as int, cd);
    lemma_div_mod_parts(lane as int, lanes);
    let q = lane as int / lanes;
    assert(q < count) by (nonlinear_arith)
        requires
            lane as int == q * lanes + lane as int % lanes,
            0 <= lane as int % lanes,
            lane < count * lanes,
            lanes >= 1,
    ;
}

/// Two different registers, of one lane or of two, never hold the same
/// element of the tile.
pub proof fn lemma_fragment_positions_distinct(
    lane1: u32,
    relative_row1: u32,
    relative_col1: u32,
    lane2: u32,
    relative_row2: u32,
    relative_col2: u32,
    layout: MatrixLayout,
    line_size: u32,
    ident: MatrixIdent,
    m: u32,
    n: u32,
    k: u32,
)
    requires
        layout_supported(layout, line_size, ident, m, n, k),
        offset_in_line(layout, relative_row1, relative_col1) < line_size,
        offset_in_line(layout, relative_row2, relative_col2) < line_size,
        lane1 != lane2 || offset_in_line(layout, relative_row1, relative_col1) != offset_in_line(
            layout,
            relative_row2,
            relative_col2,
        ),
    ensures
        fragment_position(lane1, relative_row1, relative_col1, layout, line_size, ident, m, n, k)
            != fragment_position(lane2, relative_row2, relative_col2, layout, line_size, ident, m, n, k),
{
    let lanes = lanes_per_dim(layout, line_size, ident, m, n, k);
    let cd = contiguous_dim(layout, ident, m, n, k);
    let ls = line_size as int;
    lemma_chunk_within(lane1 as int, ls, cd);
    lemma_div_mod_parts(lane1 as int, lanes);
    lemma_div_mod_parts(lane2 as int, lanes);
    let o1 = offset_in_line(layout, relative_row1, relative_col1);
    let o2 = offset_in_line(layout, relative_row2, relative_col2);
    let p1 = fragment_position(lane1, relative_row1, relative_col1, layout, line_size, ident, m, n, k);
    let p2 = fragment_position(lane2, relative_row2, relative_col2, layout, line_size, ident, m, n, k);
    if p1 == p2 {
        assert(along(layout, p1) == (lane1 as int % lanes) * ls + o1);
        assert(along(layout, p2) == (lane2 as int % lanes) * ls + o2);
        lemma_compose_unique(lane1 as int % lanes, o1, lane2 as int % lanes, o2, ls);
        assert(across(layout, p1) == lane1 as int / lanes);
        assert(across(layout, p2) == lane2 as int / lanes);
        assert(lane1 == lane2);
    }
}

/// Every element of the lines covered by the lanes is held by some lane: the
/// element at `along` on line `across` sits in lane
/// `across * lanes_per_dim + along / line_size`, at offset `along % line_size`.
pub proof fn lemma_fragment_position_owner(
    across_index: int,
    along_index: int,
    layout: MatrixLayout,
    line_size: u32,
    ident: MatrixIdent,
    m: u32,
    n: u32,
    k: u32,
)
    requires
        layout_supported(layout, line_size, ident, m, n, k),
        0 <= across_index,
        0 <= along_index < lanes_per_dim(layout, line_size, ident, m, n, k) * line_size,
        across_index * lanes_per_dim(layout, line_size, ident, m, n, k) + along_index / (line_size as int) <= u32::MAX,
    ensures
        ({
            let lanes = lanes_per_dim(layout, line_size, ident, m, n, k);
            let lane = (across_index * lanes + along_index / (line_size as int)) as u32;
            let offset = (along_index % (line_size as int)) as u32;
            let pos = if layout == MatrixLayout::RowMajor {
                fragment_position(lane, 0, offset, layout, line_size, ident, m, n, k)
            } else {
                fragment_position(lane, offset, 0, layout, line_size, ident, m, n, k)
            };
            &&& across(layout, pos) == across_index
            &&& along(layout, pos) == along_index
        }),
{
    let lanes = lanes_per_dim(layout, line_size, ident, m, n, k);
    let cd = contiguous_dim(layout, ident, m, n, k);
    let ls = line_size as int;
    lemma_chunk_within(0, ls, cd);
    lemma_div_mod_parts(along_index, ls);
    let q = along_index / ls;
    let r = along_index % ls;
    assert(q < lanes) by (nonlinear_arith)
        requires
            along_index == q * ls + r,
            0 <= r,
            along_index < lanes * ls,
            ls > 0,
    ;
    lemma_compose_div_mod(across_index, q, lanes);
    let lane = across_index * lanes + q;
    assert(lane >= 0) by (nonlinear_arith)
        requires across_index >= 0, lanes >= 1, q >= 0, lane == across_index * lanes + q;
    assert(q * ls + r == along_index);
}

} // verus!

verus! {

/// Where the registers of one lane sit in an MMA fragment, as the MMA definition
/// reports it for one matrix role.
#[derive(Clone, Copy, Debug, PartialEq, Eq, Structural)]
pub struct WhiteboxFragmentLayout {
    pub mma_line_layout: MatrixLayout,
    pub mma_line_size: u32,
    pub mma_lines_per_lane: u32,
    pub matrix_ident: MatrixIdent,
    pub tile_size: TileSize,
}

impl WhiteboxFragmentLayout {
    /// Number of rows of the local (per lane) view of the fragment.
    pub open spec fn local_rows(self) -> int {
        match self.mma_line_layout {
            MatrixLayout::RowMajor => 1,
            MatrixLayout::ColMajor => self.mma_lines_per_lane * self.mma_line_size,
            MatrixLayout::Undefined => 0,
        }
    }

    /// Number of columns of the local (per lane) view of the fragment.
    pub open spec fn local_cols(self) -> int {
        match self.mma_line_layout {
            MatrixLayout::RowMajor => self.mma_lines_per_lane * self.mma_line_size,
            MatrixLayout::ColMajor => 1,
            MatrixLayout::Undefined => 0,
        }
    }

    /// The lines of a lane can be placed on the tile.
    pub open spec fn supported(self) -> bool {
        layout_supported(
            self.mma_line_layout,
            self.mma_line_size,
            self.matrix_ident,
            self.tile_size.m,
            self.tile_size.n,
            self.tile_size.k,
        )
    }

    /// Tile position of the element at `local_pos` of lane `lane`.
    pub open spec fn position(self, lane: u32, local_pos: (u32, u32)) -> (int, int) {
        fragment_position(
            lane,
            local_pos.0,
            local_pos.1,
            self.mma_line_layout,
            self.mma_line_size,
            self.matrix_ident,
            self.tile_size.m,
            self.tile_size.n,
            self.tile_size.k,
        )
    }

    /// Layout of the registers of role `matrix_ident` in a tile of size
    /// `tile_size`, from what the MMA definition reports for that role: the layout
    /// of each line, the number of elements in a line and the number of lines that
    /// a lane holds.
    pub fn new(
        mma_line_layout: MatrixLayout,
        mma_line_size: u32,
        mma_lines_per_lane: u32,
        matrix_ident: MatrixIdent,
        tile_size: TileSize,
    ) -> (r: Self)
        ensures
            r == (WhiteboxFragmentLayout {
                mma_line_layout,
                mma_line_size,
                mma_lines_per_lane,
                matrix_ident,
                tile_size,
            }),
    {
        WhiteboxFragmentLayout { mma_line_layout, mma_line_size, mma_lines_per_lane, matrix_ident, tile_size }
    }

    /// Index of the register line that holds the local position `local_pos`.
    pub fn absolute_index(&self, local_pos: (u32, u32)) -> (r: u32)
        requires
            self.mma_line_layout != MatrixLayout::Undefined,
        ensures
            r == (if self.mma_line_layout == MatrixLayout::RowMajor { local_pos.1 } else { local_pos.0 }),
            r == offset_in_line(self.mma_line_layout, local_pos.0, local_pos.1),
    {
        match self.mma_line_layout {
            MatrixLayout::RowMajor => local_pos.1,
            _ => local_pos.0,
        }
    }

    pub fn num_local_rows(&self) -> (r: u32)
        requires
            self.mma_line_layout != MatrixLayout::Undefined,
            self.mma_line_layout == MatrixLayout::ColMajor ==> self.mma_lines_per_lane * self.mma_line_size <= u32::MAX,
        ensures
            r == self.local_rows(),
    {
        match self.mma_line_layout {
            MatrixLayout::RowMajor => 1,
            _ => self.mma_lines_per_lane * self.mma_line_size,
        }
    }

    pub fn num_local_cols(&self) -> (r: u32)
        requires
            self.mma_line_layout != MatrixLayout::Undefined,
            self.mma_line_layout == MatrixLayout::RowMajor ==> self.mma_lines_per_lane * self.mma_line_size <= u32::MAX,
        ensures
            r == self.local_cols(),
    {
        match self.mma_line_layout {
            MatrixLayout::RowMajor => self.mma_lines_per_lane * self.mma_line_size,
            _ => 1,
        }
    }

    /// Absolute position in the tile of the element that lane `lane_id` holds at
    /// `local_pos`.
    pub fn absolute_pos(&self, lane_id: u32, local_pos: (u32, u32)) -> (pos: (u32, u32))
        requires
            self.supported(),
            self.position(lane_id, local_pos).0 <= u32::MAX,
            self.position(lane_id, local_pos).1 <= u32::MAX,
        ensures
            pos.0 == self.position(lane_id, local_pos).0,
            pos.1 == self.position(lane_id, local_pos).1,
    {
        absolute_pos_in_fragment(
            lane_id,
            local_pos.0,
            local_pos.1,
            self.mma_line_layout,
            self.mma_line_size,
            self.matrix_ident,
            self.tile_size.m,
            self.tile_size.n,
            self.tile_size.k,
        )
    }

    pub fn num_units_per_row(&self) -> (r: u32)
        requires
            self.mma_line_layout != MatrixLayout::Undefined,
            self.mma_line_layout == MatrixLayout::RowMajor ==> self.mma_line_size > 0,
        ensures
            r == units_per_row(
                self.mma_line_layout,
                self.mma_line_size,
                self.tile_size.n,
                self.tile_size.k,
                self.matrix_ident,
            ),
    {
        num_units_per_row(
            self.mma_line_layout,
            self.mma_line_size,
            self.tile_size.n,
            self.tile_size.k,
            self.matrix_ident,
        )
    }
}

/// The local view of a lane, `num_local_rows x num_local_cols`, holds exactly
/// its `mma_lines_per_lane * mma_line_size` elements, all on one row or all on
/// one column.
pub proof fn lemma_local_view_holds_lane_elements(layout: WhiteboxFragmentLayout)
    requires
        layout.mma_line_layout != MatrixLayout::Undefined,
    ensures
        layout.local_rows() * layout.local_cols() == layout.mma_lines_per_lane * layout.mma_line_size,
        layout.local_rows() == 1 || layout.local_cols() == 1,
{
}

/// In a row-major layout, lane `lane` holds elements of row
/// `lane / num_units_per_row` only: each row is shared by `num_units_per_row`
/// consecutive lanes. In a column-major layout each lane holds part of one
/// column, and `num_units_per_row` is the number of columns of the operand.
pub proof fn lemma_units_per_row_matches_positions(layout: WhiteboxFragmentLayout, lane: u32, local_pos: (u32, u32))
    requires
        layout.supported(),
    ensures
        layout.mma_line_layout == MatrixLayout::RowMajor ==> layout.position(lane, local_pos).0 == lane as int
            / units_per_row(
            layout.mma_line_layout,
            layout.mma_line_size,
            layout.tile_size.n,
            layout.tile_size.k,
            layout.matrix_ident,
        ),
        layout.mma_line_layout == MatrixLayout::ColMajor ==> units_per_row(
            layout.mma_line_layout,
            layout.mma_line_size,
            layout.tile_size.n,
            layout.tile_size.k,
            layout.matrix_ident,
        ) == operand_cols(layout.matrix_ident, layout.tile_size),
{
}

/// Number of columns of the operand of role `ident`: `A` is `m x k`, `B` is
/// `k x n`, the accumulator is `m x n`.
pub open spec fn operand_cols(ident: MatrixIdent, tile_size: TileSize) -> int {
    match ident {
        MatrixIdent::A => tile_size.k as int,
        MatrixIdent::B => tile_size.n as int,
        MatrixIdent::Accumulator => tile_size.n as int,
    }
}

} // verus!

verus! {

/// The registers that one lane holds for an MMA operand: `mma_lines_per_lane`
/// lines of `mma_line_size` elements each.
pub struct WhiteboxFragment<E> {
    pub array: Vec<Vec<E>>,
    pub layout: WhiteboxFragmentLayout,
}

impl<E: Copy> WhiteboxFragment<E> {
    /// The fragment holds at least the register lines that the layout gives, each
    /// at least a line long; only those are read.
    pub open spec fn wf(&self) -> bool {
        &&& self.array@.len() >= self.layout.mma_lines_per_lane
        &&& forall|l: int| 0 <= l < self.layout.mma_lines_per_lane ==> #[trigger] self.array@[l]@.len() >= self.layout.mma_line_size
    }

    /// Element `e` of line `l`.
    pub open spec fn elem(&self, l: int, e: int) -> E {
        self.array@[l]@[e]
    }

    /// Local row that element `e` of line `l` belongs to: a row-major lane holds a
    /// single row, while in a column-major lane every element is on its own row.
    pub open spec fn row_of_spec(&self, l: int, e: int) -> int {
        if self.layout.mma_line_layout == MatrixLayout::RowMajor {
            0
        } else {
            l * self.layout.mma_line_size + e
        }
    }

    /// Registers laid out as `layout` says, each holding `value`.
    pub fn new(layout: WhiteboxFragmentLayout, value: E) -> (r: Self)
        ensures
            r.wf(),
            r.layout == layout,
            r.array@.len() == layout.mma_lines_per_lane,
            forall|l: int| 0 <= l < layout.mma_lines_per_lane ==> #[trigger] r.array@[l]@.len() == layout.mma_line_size,
            forall|l: int, e: int|
                0 <= l < layout.mma_lines_per_lane && 0 <= e < layout.mma_line_size ==> #[trigger] r.elem(l, e) == value,
    {
        let mut array: Vec<Vec<E>> = Vec::new();
        let mut l: u32 = 0;
        while l < layout.mma_lines_per_lane
            invariant
                l <= layout.mma_lines_per_lane,
                array@.len() == l,
                forall|i: int| 0 <= i < l ==> #[trigger] array@[i]@.len() == layout.mma_line_size,
                forall|i: int, e: int| 0 <= i < l && 0 <= e < layout.mma_line_size ==> #[trigger] array@[i]@[e] == value,
            decreases layout.mma_lines_per_lane - l,
        {
            let line = filled_line(layout.mma_line_size, value);
            array.push(line);
            l = l + 1;
        }
        WhiteboxFragment { array, layout }
    }

    /// Sets every element of every register line to `zero`, the zero of the
    /// element type.
    pub fn zero(&mut self, zero: E)
        requires
            old(self).wf(),
        ensures
            final(self).wf(),
            final(self).layout == old(self).layout,
            final(self).array@.len() == old(self).array@.len(),
            forall|l: int|
                0 <= l < old(self).layout.mma_lines_per_lane ==> #[trigger] final(self).array@[l]@.len()
                    == old(self).layout.mma_line_size,
            forall|l: int|
                old(self).layout.mma_lines_per_lane <= l < old(self).array@.len() ==> #[trigger] final(self).array@[l]
                    == old(self).array@[l],
            forall|l: int, e: int|
                0 <= l < old(self).layout.mma_lines_per_lane && 0 <= e < old(self).layout.mma_line_size
                    ==> #[trigger] final(self).elem(l, e) == zero,
    {
        let mut i: u32 = 0;
        while i < self.layout.mma_lines_per_lane
            invariant
                i <= self.layout.mma_lines_per_lane,
                self.layout == old(self).layout,
                self.wf(),
                self.array@.len() == old(self).array@.len(),
                forall|l: int| 0 <= l < i ==> #[trigger] self.array@[l]@.len() == self.layout.mma_line_size,
                forall|l: int| i <= l < self.array@.len() ==> #[trigger] self.array@[l] == old(self).array@[l],
                forall|l: int, e: int| 0 <= l < i && 0 <= e < self.layout.mma_line_size ==> #[trigger] self.array@[l]@[e] == zero,
            decreases self.layout.mma_lines_per_lane - i,
        {
            let line = filled_line(self.layout.mma_line_size, zero);
            let ghost before = self.array@;
            self.array.set(i as usize, line);
            proof {
                assert(self.array@ == before.update(i as int, line));
                assert forall|l: int, e: int| 0 <= l < i + 1 && 0 <= e < self.layout.mma_line_size implies #[trigger] self.array@[l]@[e] == zero by {
                    if l < i {
                        assert(self.array@[l] == before[l]);
                        assert(before[l]@[e] == zero);
                    }
                }
            }
            i = i + 1;
        }
    }

    /// The register line that a mask reads at `local_pos`: the line at
    /// `absolute_index(local_pos)`.
    pub fn mask_line(&self, local_pos: (u32, u32)) -> (r: &Vec<E>)
        requires
            self.layout.mma_line_layout != MatrixLayout::Undefined,
            offset_in_line(self.layout.mma_line_layout, local_pos.0, local_pos.1) < self.array@.len(),
        ensures
            *r == self.array@[offset_in_line(self.layout.mma_line_layout, local_pos.0, local_pos.1)],
    {
        let index = self.layout.absolute_index(local_pos);
        &self.array[index as usize]
    }

    pub fn num_units_per_row(&self) -> (r: u32)
        requires
            self.layout.mma_line_layout != MatrixLayout::Undefined,
            self.layout.mma_line_layout == MatrixLayout::RowMajor ==> self.layout.mma_line_size > 0,
        ensures
            r == units_per_row(
                self.layout.mma_line_layout,
                self.layout.mma_line_size,
                self.layout.tile_size.n,
                self.layout.tile_size.k,
                self.layout.matrix_ident,
            ),
    {
        self.layout.num_units_per_row()
    }

    /// Local row that element `e` of line `l` belongs to; a row-wise statistic
    /// for that row (its max, its scale) is found at this index.
    pub fn row_of(&self, l: u32, e: u32) -> (r: usize)
        requires
            self.layout.mma_line_layout != MatrixLayout::Undefined,
            l < self.layout.mma_lines_per_lane,
            e < self.layout.mma_line_size,
            self.layout.mma_line_layout == MatrixLayout::ColMajor ==> self.layout.mma_lines_per_lane
                * self.layout.mma_line_size <= u32::MAX,
        ensures
            r == self.row_of_spec(l as int, e as int),
            r < self.layout.local_rows(),
    {
        match self.layout.mma_line_layout {
            MatrixLayout::RowMajor => 0,
            _ => {
                proof {
                    assert(l * self.layout.mma_line_size + e < self.layout.mma_lines_per_lane * self.layout.mma_line_size)
                        by (nonlinear_arith)
                        requires
                            l < self.layout.mma_lines_per_lane,
                            e < self.layout.mma_line_size,
                    ;
                }
                (l * self.layout.mma_line_size + e) as usize
            },
        }
    }

    /// Groups the elements of the lane by local row, each group in register
    /// order. A row-major lane holds one row, all of its elements; in a
    /// column-major lane every element forms a row of its own, in register order.
    /// A row-wise reduction (such as the row max) reduces each group.
    pub fn rowwise_groups(&self) -> (groups: Vec<Vec<E>>)
        requires
            self.wf(),
            self.layout.mma_line_layout != MatrixLayout::Undefined,
        ensures
            groups@.len() == self.layout.local_rows(),
            self.layout.mma_line_layout == MatrixLayout::RowMajor ==> groups@[0]@.len()
                == self.layout.mma_lines_per_lane * self.layout.mma_line_size,
            self.layout.mma_line_layout == MatrixLayout::ColMajor ==> forall|r: int|
                0 <= r < groups@.len() ==> #[trigger] groups@[r]@.len() == 1,
            forall|l: int, e: int|
                0 <= l < self.layout.mma_lines_per_lane && 0 <= e < self.layout.mma_line_size ==> ({
                    let pos_in_row = if self.layout.mma_line_layout == MatrixLayout::RowMajor {
                        l * self.layout.mma_line_size + e
                    } else {
                        0
                    };
                    groups@[self.row_of_spec(l, e)]@[pos_in_row] == #[trigger] self.elem(l, e)
                }),
    {
        let lines = self.layout.mma_lines_per_lane;
        let size = self.layout.mma_line_size;
        let mut groups: Vec<Vec<E>> = Vec::new();
        match self.layout.mma_line_layout {
            MatrixLayout::RowMajor => {
                let mut all: Vec<E> = Vec::new();
                let mut l: u32 = 0;
                while l < lines
                    invariant
                        self.wf(),
                        lines == self.layout.mma_lines_per_lane,
                        size == self.layout.mma_line_size,
                        l <= lines,
                        all@.len() == l * size,
                        forall|i: int, e: int| 0 <= i < l && 0 <= e < size ==> all@[i * size + e] == #[trigger] self.elem(i, e),
                    decreases lines - l,
                {
                    let mut e: u32 = 0;
                    while e < size
                        invariant
                            self.wf(),
                            lines == self.layout.mma_lines_per_lane,
                            size == self.layout.mma_line_size,
                            l < lines,
                            e <= size,
                            all@.len() == l * size + e,
                            forall|i: int, f: int| 0 <= i < l && 0 <= f < size ==> all@[i * size + f] == #[trigger] self.elem(i, f),
                            forall|f: int| 0 <= f < e ==> all@[l * size + f] == #[trigger] self.elem(l as int, f),
                        decreases size - e,
                    {
                        proof {
                            assert forall|i: int, f: int| 0 <= i < l && 0 <= f < size implies #[trigger] self.elem(i, f) == self.elem(i, f) && i * size + f < l * size by {
                                assert(i * size + f < (i + 1) * size) by (nonlinear_arith)
                                    requires 0 <= f < size;
                                assert((i + 1) * size <= l * size) by (nonlinear_arith)
                                    requires i + 1 <= l, size >= 0;
                            }
                        }
                        all.push(self.array[l as usize][e as usize]);
                        e = e + 1;
                    }
                    proof {
                        assert(l * size + size == (l + 1) * size) by (nonlinear_arith);
                    }
                    l = l + 1;
                }
                groups.push(all);
            },
            _ => {
                let mut l: u32 = 0;
                while l < lines
                    invariant
                        self.wf(),
                        self.layout.mma_line_layout == MatrixLayout::ColMajor,
                        lines == self.layout.mma_lines_per_lane,
                        size == self.layout.mma_line_size,
                        l <= lines,
                        groups@.len() == l * size,
                        forall|r: int| 0 <= r < groups@.len() ==> #[trigger] groups@[r]@.len() == 1,
                        forall|i: int, e: int| 0 <= i < l && 0 <= e < size ==> groups@[i * size + e]@[0] == #[trigger] self.elem(i, e),
                    decreases lines - l,
                {
                    let mut e: u32 = 0;
                    while e < size
                        invariant
                            self.wf(),
                            lines == self.layout.mma_lines_per_lane,
                            size == self.layout.mma_line_size,
                            l < lines,
                            e <= size,
                            groups@.len() == l * size + e,
                            forall|r: int| 0 <= r < groups@.len() ==> #[trigger] groups@[r]@.len() == 1,
                            forall|i: int, f: int| 0 <= i < l && 0 <= f < size ==> groups@[i * size + f]@[0] == #[trigger] self.elem(i, f),
                            forall|f: int| 0 <= f < e ==> groups@[l * size + f]@[0] == #[trigger] self.elem(l as int, f),
                        decreases size - e,
                    {
                        proof {
                            assert forall|i: int, f: int| 0 <= i < l && 0 <= f < size implies #[trigger] self.elem(i, f) == self.elem(i, f) && i * size + f < l * size by {
                                assert(i * size + f < (i + 1) * size) by (nonlinear_arith)
                                    requires 0 <= f < size;
                                assert((i + 1) * size <= l * size) by (nonlinear_arith)
                                    requires i + 1 <= l, size >= 0;
                            }
                        }
                        let mut single: Vec<E> = Vec::new();
                        single.push(self.array[l as usize][e as usize]);
                        groups.push(single);
                        e = e + 1;
                    }
                    proof {
                        assert(l * size + size == (l + 1) * size) by (nonlinear_arith);
                    }
                    l = l + 1;
                }
            },
        }
        groups
    }
}

/// A line of `size` copies of `value`.
fn filled_line<E: Copy>(size: u32, value: E) -> (line: Vec<E>)
    ensures
        line@.len() == size,
        forall|e: int| 0 <= e < size ==> #[trigger] line@[e] == value,
{
    let mut line: Vec<E> = Vec::new();
    let mut e: u32 = 0;
    while e < size
        invariant
            e <= size,
            line@.len() == e,
            forall|f: int| 0 <= f < e ==> #[trigger] line@[f] == value,
        decreases size - e,
    {
        line.push(value);
        e = e + 1;
    }
    line
}

} // verus!

verus! {

/// Every local row of a lane holds at least one of its elements: row `r` holds
/// element `r % mma_line_size` of line `r / mma_line_size` in a column-major
/// lane, and element `0` of line `0` in a row-major one.
pub proof fn lemma_every_local_row_holds_an_element<E: Copy>(fragment: WhiteboxFragment<E>, r: int)
    requires
        fragment.layout.mma_line_layout != MatrixLayout::Undefined,
        fragment.layout.mma_line_size > 0,
        fragment.layout.mma_lines_per_lane > 0,
        0 <= r < fragment.layout.local_rows(),
    ensures
        ({
            let size = fragment.layout.mma_line_size as int;
            let (l, e) = if fragment.layout.mma_line_layout == MatrixLayout::RowMajor { (0, 0) } else { (r / size, r % size) };
            &&& 0 <= l < fragment.layout.mma_lines_per_lane
            &&& 0 <= e < size
            &&& fragment.row_of_spec(l, e) == r
        }),
{
    let size = fragment.layout.mma_line_size as int;
    if fragment.layout.mma_line_layout == MatrixLayout::ColMajor {
        lemma_div_mod_parts(r, size);
        let l = r / size;
        assert(l < fragment.layout.mma_lines_per_lane) by (nonlinear_arith)
            requires
                r == l * size + r % size,
                0 <= r % size,
                r < fragment.layout.mma_lines_per_lane * size,
                size > 0,
        ;
        assert(l * size + r % size == r);
    }
}

} // verus!

verus! {

/// Only the offset along the line moves an element: in a row-major layout the
/// relative row plays no part, in a column-major layout the relative column.
pub proof fn lemma_position_ignores_offset_across(
    lane: u32,
    relative_row1: u32,
    relative_col1: u32,
    relative_row2: u32,
    relative_col2: u32,
    layout: MatrixLayout,
    line_size: u32,
    ident: MatrixIdent,
    m: u32,
    n: u32,
    k: u32,
)
    requires
        offset_in_line(layout, relative_row1, relative_col1) == offset_in_line(layout, relative_row2, relative_col2),
    ensures
        fragment_position(lane, relative_row1, relative_col1, layout, line_size, ident, m, n, k)
            == fragment_position(lane, relative_row2, relative_col2, layout, line_size, ident, m, n, k),
{
}

} // verus!

verus! {

/// Shape `(rows, cols)` of the operand of role `ident` in an `m x n x k` matmul:
/// `A` is `m x k`, `B` is `k x n`, the accumulator is `m x n`.
pub open spec fn operand_shape(ident: MatrixIdent, m: u32, n: u32, k: u32) -> (int, int) {
    match ident {
        MatrixIdent::A => (m as int, k as int),
        MatrixIdent::B => (k as int, n as int),
        MatrixIdent::Accumulator => (m as int, n as int),
    }
}

/// A lane's lines run along the operand's rows in a row-major layout, so their
/// dimension is the operand's column count, and down its columns in a
/// column-major layout, so their dimension is its row count. A lane's position
/// follows: in a row-major layout lane `lane` is on row `lane / (cols / line_size)`
/// at column `(lane % (cols / line_size)) * line_size + relative_col`; in a
/// column-major layout it is on column `lane / (rows / line_size)` at row
/// `(lane % (rows / line_size)) * line_size + relative_row`.
pub proof fn lemma_fragment_position_on_operand(
    lane: u32,
    relative_row: u32,
    relative_col: u32,
    layout: MatrixLayout,
    line_size: u32,
    ident: MatrixIdent,
    m: u32,
    n: u32,
    k: u32,
)
    requires
        layout != MatrixLayout::Undefined,
    ensures
        ({
            let (rows, cols) = operand_shape(ident, m, n, k);
            let ls = line_size as int;
            let pos = fragment_position(lane, relative_row, relative_col, layout, line_size, ident, m, n, k);
            &&& layout == MatrixLayout::RowMajor ==> contiguous_dim(layout, ident, m, n, k) == cols
                && pos == (lane as int / (cols / ls), (lane as int % (cols / ls)) * ls + relative_col)
            &&& layout == MatrixLayout::ColMajor ==> contiguous_dim(layout, ident, m, n, k) == rows
                && pos == ((lane as int % (rows / ls)) * ls + relative_row, lane as int / (rows / ls))
        }),
{
}

/// The elements of the lanes fall on the operand: with `lines` lines across the
/// operand (its rows in a row-major layout, its columns in a column-major one),
/// every element that a lane below `lines * lanes_per_line` holds at an offset
/// below `line_size` lies inside the operand's `rows x cols`.
pub proof fn lemma_fragment_position_inside_operand(
    lane: u32,
    relative_row: u32,
    relative_col: u32,
    layout: MatrixLayout,
    line_size: u32,
    ident: MatrixIdent,
    m: u32,
    n: u32,
    k: u32,
)
    requires
        layout_supported(layout, line_size, ident, m, n, k),
        offset_in_line(layout, relative_row, relative_col) < line_size,
        ({
            let (rows, cols) = operand_shape(ident, m, n, k);
            if layout == MatrixLayout::RowMajor {
                lane < rows * (cols / (line_size as int))
            } else {
                lane < cols * (rows / (line_size as int))
            }
        }),
    ensures
        ({
            let (rows, cols) = operand_shape(ident, m, n, k);
            let pos = fragment_position(lane, relative_row, relative_col, layout, line_size, ident, m, n, k);
            &&& 0 <= pos.0 < rows
            &&& 0 <= pos.1 < cols
        }),
{
    let (rows, cols) = operand_shape(ident, m, n, k);
    let count = if layout == MatrixLayout::RowMajor { rows } else { cols };
    lemma_fragment_position_in_tile(lane, relative_row, relative_col, layout, line_size, ident, m, n, k, count);
}

} // verus!
