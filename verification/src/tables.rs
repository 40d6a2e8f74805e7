//! The unit cube of Marching Cubes and the two lookup tables keyed by its
//! sign configurations.
//!
//! The tables themselves are data handed in from outside. This module says
//! what makes such data usable: the edge table must name exactly the edges
//! whose ends lie on different sides of the surface, and every row of the
//! triangle table must list whole triangles over crossed edges and then
//! nothing but the sentinel.

use vstd::prelude::*;

verus! {

/// Sign configurations of a cell, and entries of the edge table.
pub const CASE_COUNT: usize = 256;

/// Entries of the flattened triangle table.
pub const TRIANGLE_ENTRIES: usize = 4096;

/// The entry that ends a row of the triangle table and fills its remainder.
pub const SENTINEL: i32 = -1;

/// Offset of corner `k` from the lowest corner of its cell.
pub open spec fn corner_offset(k: int) -> (int, int, int) {
    if k == 0 {
        (0, 0, 0)
    } else if k == 1 {
        (1, 0, 0)
    } else if k == 2 {
        (1, 1, 0)
    } else if k == 3 {
        (0, 1, 0)
    } else if k == 4 {
        (0, 0, 1)
    } else if k == 5 {
        (1, 0, 1)
    } else if k == 6 {
        (1, 1, 1)
    } else {
        (0, 1, 1)
    }
}

/// The two corners that edge `e` joins.
pub open spec fn edge_ends(e: int) -> (int, int) {
    if e == 0 {
        (0, 1)
    } else if e == 1 {
        (1, 2)
    } else if e == 2 {
        (2, 3)
    } else if e == 3 {
        (3, 0)
    } else if e == 4 {
        (4, 5)
    } else if e == 5 {
        (5, 6)
    } else if e == 6 {
        (6, 7)
    } else if e == 7 {
        (7, 4)
    } else if e == 8 {
        (0, 4)
    } else if e == 9 {
        (1, 5)
    } else if e == 10 {
        (2, 6)
    } else {
        (3, 7)
    }
}

/// Whether bit `k` of `v` is set, for the twelve lowest bits.
pub open spec fn has_bit(v: int, k: int) -> bool {
    if k == 0 {
        v % 2 == 1
    } else if k == 1 {
        (v / 2) % 2 == 1
    } else if k == 2 {
        (v / 4) % 2 == 1
    } else if k == 3 {
        (v / 8) % 2 == 1
    } else if k == 4 {
        (v / 16) % 2 == 1
    } else if k == 5 {
        (v / 32) % 2 == 1
    } else if k == 6 {
        (v / 64) % 2 == 1
    } else if k == 7 {
        (v / 128) % 2 == 1
    } else if k == 8 {
        (v / 256) % 2 == 1
    } else if k == 9 {
        (v / 512) % 2 == 1
    } else if k == 10 {
        (v / 1024) % 2 == 1
    } else {
        (v / 2048) % 2 == 1
    }
}

/// Whether the surface crosses edge `e` in configuration `case`: one of its
/// ends is below the isolevel and the other is not.
pub open spec fn edge_crossed(case: int, e: int) -> bool {
    has_bit(case, edge_ends(e).0) != has_bit(case, edge_ends(e).1)
}

/// Bit `e` if edge `e` is crossed in configuration `case`, else nothing.
pub open spec fn edge_bit(case: int, e: int, weight: int) -> int {
    if edge_crossed(case, e) {
        weight
    } else {
        0
    }
}

/// The twelve-bit mask of the edges crossed in configuration `case`.
pub open spec fn crossing_mask(case: int) -> int {
    edge_bit(case, 0, 1) + edge_bit(case, 1, 2) + edge_bit(case, 2, 4) + edge_bit(case, 3, 8)
        + edge_bit(case, 4, 16) + edge_bit(case, 5, 32) + edge_bit(case, 6, 64) + edge_bit(
        case,
        7,
        128,
    ) + edge_bit(case, 8, 256) + edge_bit(case, 9, 512) + edge_bit(case, 10, 1024) + edge_bit(
        case,
        11,
        2048,
    )
}

/// Row `case` of a flattened triangle table.
pub open spec fn row_of(tri: Seq<i32>, case: int) -> Seq<i32> {
    tri.subrange(16 * case, 16 * case + 16)
}

/// A row holds `k` triangles: `3 * k` edges, each crossed in the row's
/// configuration, and the sentinel in every entry after them.
pub open spec fn row_ok(case: int, row: Seq<i32>, k: int) -> bool {
    &&& 0 <= k <= 5
    &&& row.len() == 16
    &&& forall|i: int|
        0 <= i < 3 * k ==> 0 <= #[trigger] row[i] < 12 && edge_crossed(case, row[i] as int)
    &&& forall|i: int| 3 * k <= i < 16 ==> #[trigger] row[i] == SENTINEL
}

/// A row is valid when it holds some number of triangles.
pub open spec fn row_valid(case: int, row: Seq<i32>) -> bool {
    exists|k: int| row_ok(case, row, k)
}

/// The edge entry of configuration `case` is the mask of its crossed edges.
pub open spec fn edge_entry_ok(edge: Seq<u32>, case: int) -> bool {
    edge[case] == crossing_mask(case)
}

/// What makes a pair of tables usable.
pub open spec fn tables_valid(edge: Seq<u32>, tri: Seq<i32>) -> bool {
    &&& edge.len() == 256
    &&& tri.len() == 4096
    &&& forall|case: int| 0 <= case < 256 ==> #[trigger] edge_entry_ok(edge, case)
    &&& forall|case: int| 0 <= case < 256 ==> row_valid(case, #[trigger] row_of(tri, case))
}

/// Bit `e` of the mask of a configuration is set exactly when edge `e` is
/// crossed in it, and the mask has no bit above the twelfth.
pub proof fn lemma_mask_bits(case: int, e: int)
    requires
        0 <= e < 12,
    ensures
        0 <= crossing_mask(case) < 4096,
        has_bit(crossing_mask(case), e) == edge_crossed(case, e),
{
}

/// Complementary configurations cross the same edges.
pub proof fn lemma_mask_of_complement(case: int)
    requires
        0 <= case < 256,
    ensures
        crossing_mask(255 - case) == crossing_mask(case),
{
    assert forall|k: int| 0 <= k < 8 implies has_bit(255 - case, k) == !has_bit(case, k) by {}
    assert forall|e: int| 0 <= e < 12 implies edge_crossed(255 - case, e) == edge_crossed(
        case,
        e,
    ) by {
        assert(has_bit(255 - case, edge_ends(e).0) == !has_bit(case, edge_ends(e).0));
        assert(has_bit(255 - case, edge_ends(e).1) == !has_bit(case, edge_ends(e).1));
    }
}

/// A row holds one number of triangles only.
pub proof fn lemma_row_count_unique(case: int, row: Seq<i32>, k1: int, k2: int)
    requires
        row_ok(case, row, k1),
        row_ok(case, row, k2),
    ensures
        k1 == k2,
{
    if k1 < k2 {
        assert(row[3 * k1] == SENTINEL);
        assert(0 <= row[3 * k1]);
    } else if k2 < k1 {
        assert(row[3 * k2] == SENTINEL);
        assert(0 <= row[3 * k2]);
    }
}

/// With every corner on the same side of the surface no edge is crossed, so
/// a valid row of such a configuration holds no triangle.
pub proof fn lemma_uniform_case_is_empty(case: int, row: Seq<i32>, k: int)
    requires
        case == 0 || case == 255,
        row_ok(case, row, k),
    ensures
        crossing_mask(case) == 0,
        k == 0,
{
    assert(forall|e: int| 0 <= e < 12 ==> !edge_crossed(case, e));
    if k > 0 {
        assert(0 <= row[0] < 12);
        assert(edge_crossed(case, row[0] as int));
    }
}

/// Offset of corner `k` from the lowest corner of its cell.
pub fn corner(k: u8) -> (r: (u32, u32, u32))
    requires
        k < 8,
    ensures
        (r.0 as int, r.1 as int, r.2 as int) == corner_offset(k as int),
        r.0 <= 1,
        r.1 <= 1,
        r.2 <= 1,
{
    if k == 0 {
        (0, 0, 0)
    } else if k == 1 {
        (1, 0, 0)
    } else if k == 2 {
        (1, 1, 0)
    } else if k == 3 {
        (0, 1, 0)
    } else if k == 4 {
        (0, 0, 1)
    } else if k == 5 {
        (1, 0, 1)
    } else if k == 6 {
        (1, 1, 1)
    } else {
        (0, 1, 1)
    }
}

/// The two corners that edge `e` joins.
pub fn edge_corners(e: u8) -> (r: (u8, u8))
    requires
        e < 12,
    ensures
        (r.0 as int, r.1 as int) == edge_ends(e as int),
        r.0 < 8,
        r.1 < 8,
        r.0 != r.1,
{
    if e == 0 {
        (0, 1)
    } else if e == 1 {
        (1, 2)
    } else if e == 2 {
        (2, 3)
    } else if e == 3 {
        (3, 0)
    } else if e == 4 {
        (4, 5)
    } else if e == 5 {
        (5, 6)
    } else if e == 6 {
        (6, 7)
    } else if e == 7 {
        (7, 4)
    } else if e == 8 {
        (0, 4)
    } else if e == 9 {
        (1, 5)
    } else if e == 10 {
        (2, 6)
    } else {
        (3, 7)
    }
}

/// Whether bit `k` of `v` is set.
pub fn bit(v: u32, k: u8) -> (r: bool)
    requires
        k < 12,
    ensures
        r == has_bit(v as int, k as int),
{
    if k == 0 {
        v % 2 == 1
    } else if k == 1 {
        (v / 2) % 2 == 1
    } else if k == 2 {
        (v / 4) % 2 == 1
    } else if k == 3 {
        (v / 8) % 2 == 1
    } else if k == 4 {
        (v / 16) % 2 == 1
    } else if k == 5 {
        (v / 32) % 2 == 1
    } else if k == 6 {
        (v / 64) % 2 == 1
    } else if k == 7 {
        (v / 128) % 2 == 1
    } else if k == 8 {
        (v / 256) % 2 == 1
    } else if k == 9 {
        (v / 512) % 2 == 1
    } else if k == 10 {
        (v / 1024) % 2 == 1
    } else {
        (v / 2048) % 2 == 1
    }
}

/// Whether the surface crosses edge `e` in configuration `case`.
pub fn edge_is_crossed(case: u8, e: u8) -> (r: bool)
    requires
        e < 12,
    ensures
        r == edge_crossed(case as int, e as int),
{
    let ends: (u8, u8) = edge_corners(e);
    bit(case as u32, ends.0) != bit(case as u32, ends.1)
}

/// The mask of the edges crossed in configuration `case`.
pub fn edge_mask(case: u8) -> (r: u32)
    ensures
        r == crossing_mask(case as int),
        r < 4096,
{
    let mut mask: u32 = 0;
    if edge_is_crossed(case, 0) {
        mask = mask + 1;
    }
    if edge_is_crossed(case, 1) {
        mask = mask + 2;
    }
    if edge_is_crossed(case, 2) {
        mask = mask + 4;
    }
    if edge_is_crossed(case, 3) {
        mask = mask + 8;
    }
    if edge_is_crossed(case, 4) {
        mask = mask + 16;
    }
    if edge_is_crossed(case, 5) {
        mask = mask + 32;
    }
    if edge_is_crossed(case, 6) {
        mask = mask + 64;
    }
    if edge_is_crossed(case, 7) {
        mask = mask + 128;
    }
    if edge_is_crossed(case, 8) {
        mask = mask + 256;
    }
    if edge_is_crossed(case, 9) {
        mask = mask + 512;
    }
    if edge_is_crossed(case, 10) {
        mask = mask + 1024;
    }
    if edge_is_crossed(case, 11) {
        mask = mask + 2048;
    }
    mask
}

/// Why a pair of tables was refused.
#[derive(Clone, Copy, Debug, PartialEq, Eq, Structural)]
pub enum TableError {
    /// The edge table has not 256 entries or the triangle table not 4096.
    BadLength,
    /// The edge entry of this configuration is not the mask of its crossed
    /// edges; every configuration before it is.
    BadEdgeMask { case: u8 },
    /// The triangle row of this configuration is not valid; all edge entries
    /// are, and so is every row before it.
    BadTriangleRow { case: u8 },
}

/// A validated pair of lookup tables.
#[derive(Debug)]
pub struct Tables {
    edge: Vec<u32>,
    tri: Vec<i32>,
    counts: Vec<u8>,
}

/// Checks row `case` of the triangle table and counts its triangles.
fn check_row(case: u8, tri: &Vec<i32>) -> (r: Option<u8>)
    requires
        tri.len() == 4096,
    ensures
        match r {
            Some(k) => row_ok(case as int, row_of(tri@, case as int), k as int),
            None => !row_valid(case as int, row_of(tri@, case as int)),
        },
{
    let base: usize = 16 * (case as usize);
    let ghost row = row_of(tri@, case as int);
    let ghost c = case as int;
    assert(forall|i: int| 0 <= i < 16 ==> row[i] == tri@[16 * c + i]);
    let mut j: usize = 0;
    while j < 16 && tri[base + j] != SENTINEL
        invariant
            j <= 16,
            0 <= c < 256,
            c == case as int,
            base == 16 * c,
            tri.len() == 4096,
            row == row_of(tri@, c),
            row.len() == 16,
            forall|i: int| 0 <= i < 16 ==> row[i] == tri@[16 * c + i],
            forall|i: int| 0 <= i < j ==> 0 <= #[trigger] row[i] < 12 && edge_crossed(c, row[i] as int),
        decreases 16 - j,
    {
        let t: i32 = tri[base + j];
        if t < 0 || t >= 12 || !edge_is_crossed(case, t as u8) {
            proof {
                assert(row[j as int] == t);
                assert forall|k: int| !row_ok(c, row, k) by {
                    if row_ok(c, row, k) {
                        if (j as int) < 3 * k {
                            assert(0 <= row[j as int] < 12);
                        } else {
                            assert(row[j as int] == SENTINEL);
                        }
                    }
                }
            }
            return None;
        }
        j = j + 1;
    }
    if j == 16 || j % 3 != 0 {
        proof {
            assert forall|k: int| !row_ok(c, row, k) by {
                if row_ok(c, row, k) {
                    if j == 16 {
                        assert(row[15] == SENTINEL);
                        assert(0 <= row[15]);
                    } else if (j as int) < 3 * k {
                        assert(row[j as int] == SENTINEL);
                        assert(0 <= row[j as int]);
                    } else {
                        assert(row[3 * k] == SENTINEL);
                        assert(0 <= row[3 * k]);
                    }
                }
            }
        }
        return None;
    }
    let count: usize = j / 3;
    let mut i: usize = j;
    while i < 16
        invariant
            j <= i <= 16,
            j < 16,
            j == 3 * count,
            0 <= c < 256,
            c == case as int,
            row == row_of(tri@, c),
            base == 16 * c,
            tri.len() == 4096,
            row.len() == 16,
            row[j as int] == SENTINEL,
            forall|i: int| 0 <= i < 16 ==> row[i] == tri@[16 * c + i],
            forall|i: int| 0 <= i < j ==> 0 <= #[trigger] row[i] < 12 && edge_crossed(c, row[i] as int),
            forall|x: int| j <= x < i ==> #[trigger] row[x] == SENTINEL,
        decreases 16 - i,
    {
        if tri[base + i] != SENTINEL {
            proof {
                assert(row[i as int] != SENTINEL);
                assert forall|k: int| !row_ok(c, row, k) by {
                    if row_ok(c, row, k) {
                        if (j as int) < 3 * k {
                            assert(0 <= row[j as int]);
                        } else if 3 * k < j {
                            assert(row[3 * k] == SENTINEL);
                            assert(0 <= row[3 * k]);
                        } else {
                            assert(row[i as int] == SENTINEL);
                        }
                    }
                }
            }
            return None;
        }
        i = i + 1;
    }
    Some(count as u8)
}

impl Tables {
    /// The edge table: one mask for each configuration.
    pub closed spec fn edges(self) -> Seq<u32> {
        self.edge@
    }

    /// The triangle table, its rows one after another.
    pub closed spec fn triangles(self) -> Seq<i32> {
        self.tri@
    }

    /// Triangles listed in the row of each configuration.
    pub closed spec fn counts(self) -> Seq<u8> {
        self.counts@
    }

    /// The tables are valid and the counts are those of the rows.
    #[verifier::type_invariant]
    pub open spec fn wf(self) -> bool {
        &&& tables_valid(self.edges(), self.triangles())
        &&& self.counts().len() == 256
        &&& forall|case: int|
            0 <= case < 256 ==> row_ok(
                case,
                row_of(self.triangles(), case),
                #[trigger] self.counts()[case] as int,
            )
    }

    /// Edge `j` of the row of configuration `case`.
    pub open spec fn row_entry(self, case: int, j: int) -> int {
        self.triangles()[16 * case + j] as int
    }

    /// Triangles that configuration `case` emits.
    pub open spec fn triangles_of(self, case: int) -> int {
        self.counts()[case] as int
    }

    /// What the rows of well-formed tables hold, entry by entry.
    pub proof fn lemma_rows(self, case: int)
        requires
            self.wf(),
            0 <= case < 256,
        ensures
            0 <= self.triangles_of(case) <= 5,
            self.edges()[case] == crossing_mask(case),
            forall|j: int|
                0 <= j < 3 * self.triangles_of(case) ==> 0 <= #[trigger] self.row_entry(case, j)
                    < 12 && edge_crossed(case, self.row_entry(case, j)),
            forall|j: int|
                3 * self.triangles_of(case) <= j < 16 ==> #[trigger] self.row_entry(case, j)
                    == SENTINEL,
            (case == 0 || case == 255) ==> self.triangles_of(case) == 0,
    {
        let row = row_of(self.triangles(), case);
        let k = self.counts()[case] as int;
        assert(row_ok(case, row, k));
        assert(edge_entry_ok(self.edges(), case));
        assert forall|j: int| 0 <= j < 16 implies row[j] == self.row_entry(case, j) by {}
        assert forall|j: int| 0 <= j < 3 * k implies 0 <= #[trigger] self.row_entry(case, j) < 12
            && edge_crossed(case, self.row_entry(case, j)) by {
            assert(0 <= row[j] < 12);
        }
        assert forall|j: int| 3 * k <= j < 16 implies #[trigger] self.row_entry(case, j)
            == SENTINEL by {
            assert(row[j] == SENTINEL);
        }
        if case == 0 || case == 255 {
            lemma_uniform_case_is_empty(case, row, k);
        }
    }

    /// Accepts an edge table and a flattened triangle table if they are
    /// valid, and says what is wrong with them if they are not.
    pub fn new(edge: Vec<u32>, tri: Vec<i32>) -> (r: Result<Tables, TableError>)
        ensures
            match r {
                Ok(t) => {
                    &&& tables_valid(edge@, tri@)
                    &&& t.wf()
                    &&& t.edges() == edge@
                    &&& t.triangles() == tri@
                },
                Err(TableError::BadLength) => edge.len() != 256 || tri.len() != 4096,
                Err(TableError::BadEdgeMask { case }) => {
                    &&& edge.len() == 256
                    &&& tri.len() == 4096
                    &&& !edge_entry_ok(edge@, case as int)
                    &&& forall|c: int| 0 <= c < case ==> #[trigger] edge_entry_ok(edge@, c)
                },
                Err(TableError::BadTriangleRow { case }) => {
                    &&& edge.len() == 256
                    &&& tri.len() == 4096
                    &&& forall|c: int| 0 <= c < 256 ==> #[trigger] edge_entry_ok(edge@, c)
                    &&& !row_valid(case as int, row_of(tri@, case as int))
                    &&& forall|c: int| 0 <= c < case ==> row_valid(c, #[trigger] row_of(tri@, c))
                },
            },
    {
        if edge.len() != CASE_COUNT || tri.len() != TRIANGLE_ENTRIES {
            return Err(TableError::BadLength);
        }
        let mut case: usize = 0;
        while case < 256
            invariant
                case <= 256,
                edge.len() == 256,
                tri.len() == 4096,
                forall|c: int| 0 <= c < case ==> #[trigger] edge_entry_ok(edge@, c),
            decreases 256 - case,
        {
            if edge[case] != edge_mask(case as u8) {
                return Err(TableError::BadEdgeMask { case: case as u8 });
            }
            case = case + 1;
        }
        let mut counts: Vec<u8> = Vec::new();
        let mut case: usize = 0;
        while case < 256
            invariant
                case <= 256,
                edge.len() == 256,
                tri.len() == 4096,
                forall|c: int| 0 <= c < 256 ==> #[trigger] edge_entry_ok(edge@, c),
                counts.len() == case,
                forall|c: int|
                    0 <= c < case ==> row_ok(c, row_of(tri@, c), #[trigger] counts@[c] as int),
            decreases 256 - case,
        {
            match check_row(case as u8, &tri) {
                Some(k) => {
                    counts.push(k);
                },
                None => {
                    proof {
                        assert forall|c: int| 0 <= c < case implies row_valid(
                            c,
                            #[trigger] row_of(tri@, c),
                        ) by {
                            assert(row_ok(c, row_of(tri@, c), counts@[c] as int));
                        }
                    }
                    return Err(TableError::BadTriangleRow { case: case as u8 });
                },
            }
            case = case + 1;
        }
        proof {
            assert forall|c: int| 0 <= c < 256 implies row_valid(c, #[trigger] row_of(tri@, c)) by {
                assert(row_ok(c, row_of(tri@, c), counts@[c] as int));
            }
        }
        Ok(Tables { edge, tri, counts })
    }

    /// The edge mask of configuration `case`.
    pub fn edge_entry(&self, case: u8) -> (r: u32)
        ensures
            r == self.edges()[case as int],
            r == crossing_mask(case as int),
    {
        proof {
            use_type_invariant(self);
            assert(edge_entry_ok(self.edges(), case as int));
        }
        self.edge[case as usize]
    }

    /// Triangles that configuration `case` emits.
    pub fn triangle_count(&self, case: u8) -> (r: u8)
        ensures
            r == self.triangles_of(case as int),
            r <= 5,
    {
        proof {
            use_type_invariant(self);
            self.lemma_rows(case as int);
        }
        self.counts[case as usize]
    }

    /// Entry `j` of the row of configuration `case`: an edge of the cell
    /// while a triangle is being listed, the sentinel after the last one.
    pub fn triangle_entry(&self, case: u8, j: u8) -> (r: i32)
        requires
            j < 16,
        ensures
            r == self.row_entry(case as int, j as int),
            j < 3 * self.triangles_of(case as int) ==> 0 <= r < 12 && edge_crossed(
                case as int,
                r as int,
            ),
            j >= 3 * self.triangles_of(case as int) ==> r == SENTINEL,
    {
        proof {
            use_type_invariant(self);
            self.lemma_rows(case as int);
            assert(self.row_entry(case as int, j as int) == self.tri@[16 * case + j]);
        }
        self.tri[16 * (case as usize) + (j as usize)]
    }

    /// The words of the table buffer: the edge table first, the triangle
    /// table behind it row by row, each entry in two's complement.
    pub open spec fn packed(self) -> Seq<u32> {
        Seq::new(
            4352,
            |i: int|
                if i < 256 {
                    self.edges()[i]
                } else {
                    self.triangles()[i - 256] as u32
                },
        )
    }

    /// The words of the table buffer.
    pub fn pack(&self) -> (r: Vec<u32>)
        ensures
            r@ == self.packed(),
            r.len() == 4352,
    {
        proof {
            use_type_invariant(self);
        }
        let mut words: Vec<u32> = Vec::new();
        let mut i: usize = 0;
        while i < 256
            invariant
                i <= 256,
                self.edge.len() == 256,
                words.len() == i,
                forall|x: int| 0 <= x < i ==> words@[x] == self.edge@[x],
            decreases 256 - i,
        {
            words.push(self.edge[i]);
            i = i + 1;
        }
        let mut j: usize = 0;
        while j < 4096
            invariant
                j <= 4096,
                self.tri.len() == 4096,
                self.edge.len() == 256,
                words.len() == 256 + j,
                forall|x: int| 0 <= x < 256 ==> words@[x] == self.edge@[x],
                forall|x: int| 0 <= x < j ==> words@[256 + x] == self.tri@[x] as u32,
            decreases 4096 - j,
        {
            words.push(self.tri[j] as u32);
            j = j + 1;
        }
        proof {
            assert forall|x: int| 0 <= x < 4352 implies words@[x] == self.packed()[x] by {
                if x >= 256 {
                    assert(words@[256 + (x - 256)] == self.tri@[x - 256] as u32);
                }
            }
            assert(words@ =~= self.packed());
        }
        words
    }
}

} // verus!
