//! The discrete half of surface extraction: which configuration a cell is
//! in, which triangles it emits, which slots and index entries they take and
//! which lattice edge each emitted vertex lies on.
//!
//! The samples come in as one flag each, telling whether the field value is
//! below the isolevel. Where on its edge a vertex lies is left to whoever
//! holds the field values.

use crate::tables::{
    corner, corner_offset, edge_corners, edge_crossed, edge_ends, has_bit, Tables,
};
use crate::volume::{lemma_coords_round_trip, VolumeDescriptor};
use vstd::prelude::*;

verus! {

/// `w` if the flag is set, else nothing.
pub open spec fn weight(flag: bool, w: int) -> int {
    if flag {
        w
    } else {
        0
    }
}

/// The configuration of a cell whose corner `k` is below the isolevel
/// exactly when `flags[k]` holds: bit `k` is set for each such corner.
pub open spec fn case_of(flags: Seq<bool>) -> int {
    weight(flags[0], 1) + weight(flags[1], 2) + weight(flags[2], 4) + weight(flags[3], 8) + weight(
        flags[4],
        16,
    ) + weight(flags[5], 32) + weight(flags[6], 64) + weight(flags[7], 128)
}

/// Position in the value buffer of corner `k` of cell `c`.
pub open spec fn corner_sample(d: VolumeDescriptor, c: int, k: int) -> int {
    let p = d.cell_coords_of(c);
    let o = corner_offset(k);
    d.sample_index_of(p.0 + o.0, p.1 + o.1, p.2 + o.2)
}

/// The eight corner flags of cell `c`.
pub open spec fn corner_flags(d: VolumeDescriptor, below: Seq<bool>, c: int) -> Seq<bool> {
    Seq::new(8, |k: int| below[corner_sample(d, c, k)])
}

/// The configuration of cell `c`.
pub open spec fn cell_case(d: VolumeDescriptor, below: Seq<bool>, c: int) -> int {
    case_of(corner_flags(d, below, c))
}

/// Triangles that cell `c` emits.
pub open spec fn cell_triangles(d: VolumeDescriptor, t: Tables, below: Seq<bool>, c: int) -> int {
    t.triangles_of(cell_case(d, below, c))
}

/// Entry `i` of the index buffer: the slot of the vertex emitted there, or
/// zero where the owning cell emits nothing.
pub open spec fn index_entry(d: VolumeDescriptor, t: Tables, below: Seq<bool>, i: int) -> int {
    let c = i / 15;
    let j = i % 15;
    if j < 3 * cell_triangles(d, t, below, c) {
        36 * c + j
    } else {
        0
    }
}

/// Triangles emitted by the cells below `c`.
pub open spec fn triangles_before(d: VolumeDescriptor, t: Tables, below: Seq<bool>, c: int) -> int
    decreases c,
{
    if c <= 0 {
        0
    } else {
        triangles_before(d, t, below, c - 1) + cell_triangles(d, t, below, c - 1)
    }
}

/// What extraction needs of its inputs: one flag for each sample, and slot
/// numbers that fit an index entry.
pub open spec fn extractable(d: VolumeDescriptor, below: Seq<bool>) -> bool {
    &&& below.len() == d.samples()
    &&& 36 * d.m() <= u32::MAX
}

/// The bits of a configuration are the flags it was formed from.
pub proof fn lemma_case_bits(flags: Seq<bool>, k: int)
    requires
        flags.len() == 8,
        0 <= k < 8,
    ensures
        0 <= case_of(flags) < 256,
        has_bit(case_of(flags), k) == flags[k],
{
}

/// A configuration is 0 when no corner is below the isolevel and 255 when
/// every corner is.
pub proof fn lemma_uniform_flags(flags: Seq<bool>, side: bool)
    requires
        flags.len() == 8,
        forall|k: int| 0 <= k < 8 ==> flags[k] == side,
    ensures
        case_of(flags) == if side {
            255int
        } else {
            0int
        },
{
}

/// The corners of a cell are samples of the lattice.
pub proof fn lemma_corner_is_sample(d: VolumeDescriptor, c: int, k: int)
    requires
        d.wf(),
        0 <= c < d.m(),
        0 <= k < 8,
    ensures
        0 <= corner_sample(d, c, k) < d.samples(),
{
    let p = d.cell_coords_of(c);
    let o = corner_offset(k);
    lemma_coords_round_trip(d, 0, 0, 0, c);
    lemma_coords_round_trip(d, p.0 + o.0, p.1 + o.1, p.2 + o.2, 0);
}

/// The configuration of a cell is one of the 256, and a cell emits five
/// triangles at most.
pub proof fn lemma_cell_bounds(d: VolumeDescriptor, t: Tables, below: Seq<bool>, c: int)
    requires
        t.wf(),
    ensures
        0 <= cell_case(d, below, c) < 256,
        0 <= cell_triangles(d, t, below, c) <= 5,
{
    lemma_case_bits(corner_flags(d, below, c), 0);
    t.lemma_rows(cell_case(d, below, c));
}

/// The whole lattice emits at most five triangles for each of its cells.
pub proof fn lemma_triangle_bound(d: VolumeDescriptor, t: Tables, below: Seq<bool>, c: int)
    requires
        t.wf(),
        0 <= c,
    ensures
        0 <= triangles_before(d, t, below, c) <= 5 * c,
    decreases c,
{
    if c > 0 {
        lemma_triangle_bound(d, t, below, c - 1);
        lemma_cell_bounds(d, t, below, c - 1);
    }
}

/// Every entry of the index buffer is zero or names a slot of the cell that
/// owns the entry, among the first fifteen of its thirty-six.
pub proof fn lemma_index_entry_stays_in_cell(
    d: VolumeDescriptor,
    t: Tables,
    below: Seq<bool>,
    i: int,
)
    requires
        d.wf(),
        t.wf(),
        0 <= i < 15 * d.m(),
    ensures
        0 <= index_entry(d, t, below, i) < 36 * d.m(),
        index_entry(d, t, below, i) == 0 || (36 * (i / 15) <= index_entry(d, t, below, i) < 36 * (i
            / 15) + 15),
{
    lemma_cell_bounds(d, t, below, i / 15);
}

/// A field that lies on one side of the isolevel everywhere yields no
/// triangle: every entry of the index buffer is zero.
pub proof fn lemma_one_sided_field_is_empty(
    d: VolumeDescriptor,
    t: Tables,
    below: Seq<bool>,
    side: bool,
    i: int,
)
    requires
        d.wf(),
        t.wf(),
        below.len() == d.samples(),
        forall|s: int| 0 <= s < below.len() ==> below[s] == side,
        0 <= i < 15 * d.m(),
    ensures
        cell_triangles(d, t, below, i / 15) == 0,
        index_entry(d, t, below, i) == 0,
        triangles_before(d, t, below, d.m() as int) == 0,
{
    let c = i / 15;
    lemma_cell_is_empty(d, t, below, side, c);
    lemma_no_triangles_before(d, t, below, side, d.m() as int);
}

proof fn lemma_cell_is_empty(
    d: VolumeDescriptor,
    t: Tables,
    below: Seq<bool>,
    side: bool,
    c: int,
)
    requires
        d.wf(),
        t.wf(),
        below.len() == d.samples(),
        forall|s: int| 0 <= s < below.len() ==> below[s] == side,
        0 <= c < d.m(),
    ensures
        cell_triangles(d, t, below, c) == 0,
{
    let flags = corner_flags(d, below, c);
    assert forall|k: int| 0 <= k < 8 implies flags[k] == side by {
        lemma_corner_is_sample(d, c, k);
    }
    lemma_uniform_flags(flags, side);
    t.lemma_rows(cell_case(d, below, c));
}

proof fn lemma_no_triangles_before(
    d: VolumeDescriptor,
    t: Tables,
    below: Seq<bool>,
    side: bool,
    c: int,
)
    requires
        d.wf(),
        t.wf(),
        below.len() == d.samples(),
        forall|s: int| 0 <= s < below.len() ==> below[s] == side,
        0 <= c <= d.m(),
    ensures
        triangles_before(d, t, below, c) == 0,
    decreases c,
{
    if c > 0 {
        lemma_no_triangles_before(d, t, below, side, c - 1);
        lemma_cell_is_empty(d, t, below, side, c - 1);
    }
}

/// The configuration formed from eight corner flags.
pub fn case_index(flags: &[bool; 8]) -> (r: u8)
    ensures
        r == case_of(flags@),
{
    let mut case: u8 = 0;
    if flags[0] {
        case = case + 1;
    }
    if flags[1] {
        case = case + 2;
    }
    if flags[2] {
        case = case + 4;
    }
    if flags[3] {
        case = case + 8;
    }
    if flags[4] {
        case = case + 16;
    }
    if flags[5] {
        case = case + 32;
    }
    if flags[6] {
        case = case + 64;
    }
    if flags[7] {
        case = case + 128;
    }
    case
}

/// Position in the value buffer of corner `k` of cell `c`.
pub fn corner_sample_index(d: &VolumeDescriptor, c: u32, k: u8) -> (r: u32)
    requires
        c < d.m(),
        k < 8,
    ensures
        r == corner_sample(*d, c as int, k as int),
        r < d.samples(),
{
    let p: (u32, u32, u32) = d.cell_coords(c);
    let o: (u32, u32, u32) = corner(k);
    let n: u32 = d.resolution();
    d.sample_index(p.0 + o.0, p.1 + o.1, p.2 + o.2)
}

/// The configuration of cell `c`.
pub fn cell_configuration(d: &VolumeDescriptor, below: &Vec<bool>, c: u32) -> (r: u8)
    requires
        c < d.m(),
        below.len() == d.samples(),
    ensures
        r == cell_case(*d, below@, c as int),
{
    let flags: [bool; 8] = [
        below[corner_sample_index(d, c, 0) as usize],
        below[corner_sample_index(d, c, 1) as usize],
        below[corner_sample_index(d, c, 2) as usize],
        below[corner_sample_index(d, c, 3) as usize],
        below[corner_sample_index(d, c, 4) as usize],
        below[corner_sample_index(d, c, 5) as usize],
        below[corner_sample_index(d, c, 6) as usize],
        below[corner_sample_index(d, c, 7) as usize],
    ];
    proof {
        assert(flags@ =~= corner_flags(*d, below@, c as int));
    }
    case_index(&flags)
}

/// Why extraction refused its inputs.
#[derive(Clone, Copy, Debug, PartialEq, Eq, Structural)]
pub enum ExtractError {
    /// The flags are not one for each sample of the lattice.
    SampleCount,
    /// There is one flag for each sample, but the lattice has more vertex
    /// slots than an index entry can name.
    SlotRange,
}

/// A vertex emitted by a cell: the slot it is written to, the edge of the
/// cell it lies on, and the positions in the value buffer of that edge's two
/// ends.
#[derive(Clone, Copy, Debug, PartialEq, Eq, Structural)]
pub struct EdgeVertex {
    pub slot: u32,
    pub edge: u8,
    pub from: u32,
    pub to: u32,
}

/// The `j`-th vertex that cell `c` emits.
pub open spec fn edge_vertex(
    d: VolumeDescriptor,
    t: Tables,
    below: Seq<bool>,
    c: int,
    j: int,
) -> EdgeVertex {
    let e = t.row_entry(cell_case(d, below, c), j);
    EdgeVertex {
        slot: (36 * c + j) as u32,
        edge: e as u8,
        from: corner_sample(d, c, edge_ends(e).0) as u32,
        to: corner_sample(d, c, edge_ends(e).1) as u32,
    }
}

/// Every vertex that a cell emits lies on an edge whose two ends are on
/// different sides of the isolevel, inside the slot range that the cell owns.
pub proof fn lemma_emitted_vertex_crosses(
    d: VolumeDescriptor,
    t: Tables,
    below: Seq<bool>,
    c: int,
    j: int,
)
    requires
        d.wf(),
        t.wf(),
        below.len() == d.samples(),
        0 <= c < d.m(),
        0 <= j < 3 * cell_triangles(d, t, below, c),
    ensures
        0 <= t.row_entry(cell_case(d, below, c), j) < 12,
        36 * c <= 36 * c + j < 36 * c + 15,
        below[corner_sample(d, c, edge_ends(t.row_entry(cell_case(d, below, c), j)).0)]
            != below[corner_sample(d, c, edge_ends(t.row_entry(cell_case(d, below, c), j)).1)],
{
    let case = cell_case(d, below, c);
    let flags = corner_flags(d, below, c);
    lemma_cell_bounds(d, t, below, c);
    t.lemma_rows(case);
    let e = t.row_entry(case, j);
    assert(0 <= e < 12 && edge_crossed(case, e));
    lemma_case_bits(flags, edge_ends(e).0);
    lemma_case_bits(flags, edge_ends(e).1);
}

/// The vertices that cell `c` emits, in emission order: three for each of
/// its triangles.
pub fn cell_vertices(d: &VolumeDescriptor, t: &Tables, below: &Vec<bool>, c: u32) -> (r: Vec<
    EdgeVertex,
>)
    requires
        extractable(*d, below@),
        c < d.m(),
    ensures
        r.len() == 3 * cell_triangles(*d, *t, below@, c as int),
        forall|j: int| 0 <= j < r.len() ==> r[j] == edge_vertex(*d, *t, below@, c as int, j),
{
    let case: u8 = cell_configuration(d, below, c);
    let count: u8 = t.triangle_count(case);
    let mut out: Vec<EdgeVertex> = Vec::new();
    let mut j: u8 = 0;
    while j < 3 * count
        invariant
            j <= 3 * count,
            count <= 5,
            count == cell_triangles(*d, *t, below@, c as int),
            case == cell_case(*d, below@, c as int),
            extractable(*d, below@),
            c < d.m(),
            out.len() == j,
            forall|i: int| 0 <= i < j ==> out[i] == edge_vertex(*d, *t, below@, c as int, i),
        decreases 3 * count - j,
    {
        let e: i32 = t.triangle_entry(case, j);
        let ends: (u8, u8) = edge_corners(e as u8);
        let from: u32 = corner_sample_index(d, c, ends.0);
        let to: u32 = corner_sample_index(d, c, ends.1);
        out.push(EdgeVertex { slot: 36 * c + j as u32, edge: e as u8, from, to });
        j = j + 1;
    }
    out
}

/// The index buffer of the whole lattice: fifteen entries for each cell, the
/// slots of its emitted vertices first and zeros behind them.
pub fn index_buffer(d: &VolumeDescriptor, t: &Tables, below: &Vec<bool>) -> (r: Result<
    Vec<u32>,
    ExtractError,
>)
    ensures
        match r {
            Ok(v) => {
                &&& extractable(*d, below@)
                &&& v.len() == 15 * d.m()
                &&& forall|i: int| 0 <= i < v.len() ==> v[i] == index_entry(*d, *t, below@, i)
            },
            Err(ExtractError::SampleCount) => below.len() != d.samples(),
            Err(ExtractError::SlotRange) => below.len() == d.samples() && 36 * d.m() > u32::MAX,
        },
{
    let m: u64 = d.cells();
    if below.len() as u64 != d.sample_count() {
        return Err(ExtractError::SampleCount);
    }
    if 36 * m > u32::MAX as u64 {
        return Err(ExtractError::SlotRange);
    }
    let mut out: Vec<u32> = Vec::new();
    let mut c: u32 = 0;
    while (c as u64) < m
        invariant
            c <= m,
            m == d.m(),
            extractable(*d, below@),
            out.len() == 15 * c,
            forall|i: int| 0 <= i < out.len() ==> out[i] == index_entry(*d, *t, below@, i),
        decreases m - c,
    {
        let case: u8 = cell_configuration(d, below, c);
        let count: u8 = t.triangle_count(case);
        let mut j: u32 = 0;
        while j < 15
            invariant
                j <= 15,
                c < m,
                m == d.m(),
                36 * m <= u32::MAX,
                count <= 5,
                count == cell_triangles(*d, *t, below@, c as int),
                out.len() == 15 * c + j,
                forall|i: int| 0 <= i < out.len() ==> out[i] == index_entry(*d, *t, below@, i),
            decreases 15 - j,
        {
            let entry: u32 = if j < 3 * (count as u32) {
                36 * c + j
            } else {
                0
            };
            proof {
                let i = 15 * c + j;
                assert(i / 15 == c && i % 15 == j);
            }
            out.push(entry);
            j = j + 1;
        }
        c = c + 1;
    }
    Ok(out)
}

/// Triangles that the whole lattice emits, never more than five for each of
/// its cells.
pub fn triangle_total(d: &VolumeDescriptor, t: &Tables, below: &Vec<bool>) -> (r: Option<u64>)
    ensures
        match r {
            Some(total) => {
                &&& below.len() == d.samples()
                &&& total == triangles_before(*d, *t, below@, d.m() as int)
                &&& total <= 5 * d.m()
            },
            None => below.len() != d.samples(),
        },
{
    let m: u64 = d.cells();
    if below.len() as u64 != d.sample_count() {
        return None;
    }
    let mut total: u64 = 0;
    let mut c: u32 = 0;
    while (c as u64) < m
        invariant
            c <= m,
            m == d.m(),
            m < u32::MAX,
            below.len() == d.samples(),
            total == triangles_before(*d, *t, below@, c as int),
            total <= 5 * c,
        decreases m - c,
    {
        let case: u8 = cell_configuration(d, below, c);
        let count: u8 = t.triangle_count(case);
        total = total + count as u64;
        c = c + 1;
    }
    Some(total)
}

} // verus!
