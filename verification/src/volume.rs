//! The volume descriptor: effective resolution, derived counts and the
//! addressing rules of the lattice, its cells and their slot ranges.

use vstd::prelude::*;

verus! {

/// Vertex slots owned by one cell: three vertices for each of twelve triangles.
pub const SLOTS_PER_CELL: u64 = 36;

/// Index entries owned by one cell: five triangles at most.
pub const INDICES_PER_CELL: u64 = 15;

/// Bytes of one vertex slot: four single-precision components.
pub const SLOT_BYTES: u64 = 16;

/// Bytes of one lattice sample and of one index entry.
pub const WORD_BYTES: u64 = 4;

/// Storage-buffer ceiling used by `VolumeDescriptor::new`, counted in lattice
/// samples: a quarter of a 1 GiB binding, four bytes per sample.
pub const DEFAULT_CEILING: u32 = 268_435_456;

/// Largest resolution whose cube still fits in 32 bits.
pub const MAX_RESOLUTION: u64 = 1625;

/// `n` cubed.
pub open spec fn cube(n: int) -> int {
    n * n * n
}

/// `requested` rounded up to the next multiple of `tile`.
pub open spec fn round_up(requested: int, tile: int) -> int
    recommends
        tile > 0,
{
    ((requested + tile - 1) / tile) * tile
}

/// Why a volume descriptor could not be built.
#[derive(Clone, Copy, Debug, PartialEq, Eq, Structural)]
pub enum VolumeError {
    /// The requested resolution is below 2, or the lattice would hold more
    /// samples than the storage-buffer ceiling allows.
    InvalidResolution,
}

/// Resolution of the lattice and the workgroup tile it is aligned to.
#[derive(Clone, Copy, Debug)]
pub struct VolumeDescriptor {
    resolution: u32,
    tile: u32,
}

/// Of two sides the larger has the larger cube, or an equal one.
pub proof fn lemma_cube_monotonic(a: int, b: int)
    requires
        0 <= a <= b,
    ensures
        cube(a) <= cube(b),
{
    assert(a * a <= b * b) by (nonlinear_arith)
        requires
            0 <= a <= b,
    ;
    assert(a * a * a <= b * b * b) by (nonlinear_arith)
        requires
            0 <= a <= b,
            0 <= a * a <= b * b,
    ;
}

/// Of two different sides the larger has the larger cube.
pub proof fn lemma_cube_strictly_monotonic(a: int, b: int)
    requires
        0 <= a < b,
    ensures
        cube(a) < cube(b),
{
    lemma_cube_monotonic(a + 1, b);
    assert(a * a * a < (a + 1) * (a + 1) * (a + 1)) by (nonlinear_arith)
        requires
            0 <= a,
    ;
}

/// Rounding up gives the least multiple of the tile that is not below the
/// request: a multiple, at least the request, less than a tile above it.
pub proof fn lemma_round_up(requested: int, tile: int)
    requires
        0 <= requested,
        1 <= tile,
    ensures
        requested <= round_up(requested, tile) < requested + tile,
        round_up(requested, tile) % tile == 0,
        round_up(requested, tile) / tile == (requested + tile - 1) / tile,
{
    let a = requested + tile - 1;
    vstd::arithmetic::div_mod::lemma_fundamental_div_mod(a, tile);
    vstd::arithmetic::div_mod::lemma_mod_bound(a, tile);
    assert((a / tile) * tile == tile * (a / tile)) by (nonlinear_arith);
    vstd::arithmetic::div_mod::lemma_mod_multiples_basic(a / tile, tile);
    vstd::arithmetic::div_mod::lemma_div_multiples_vanish(a / tile, tile);
}

/// Position of the point `(x, y, z)` in a cube of side `side` stored with `x`
/// running fastest and `z` slowest.
pub open spec fn linear_index(side: int, x: int, y: int, z: int) -> int {
    z * (side * side) + y * side + x
}

/// A point inside the cube has a position below the cube's volume.
pub proof fn lemma_linear_index_bound(side: int, x: int, y: int, z: int)
    requires
        0 <= x < side,
        0 <= y < side,
        0 <= z < side,
    ensures
        0 <= linear_index(side, x, y, z) < cube(side),
        linear_index(side, x, y, z) == (z * side + y) * side + x,
        0 <= z * side + y < side * side,
{
    assert(z * (side * side) + y * side + x == (z * side + y) * side + x) by (nonlinear_arith);
    assert(0 <= z * side + y <= (side - 1) * side + (side - 1)) by (nonlinear_arith)
        requires
            0 <= y < side,
            0 <= z < side,
    ;
    assert((side - 1) * side + (side - 1) == side * side - 1) by (nonlinear_arith);
    assert(0 <= (z * side + y) * side + x <= (side * side - 1) * side + (side - 1))
        by (nonlinear_arith)
        requires
            0 <= x < side,
            0 <= z * side + y <= side * side - 1,
    ;
    assert((side * side - 1) * side + (side - 1) == side * side * side - 1) by (nonlinear_arith);
}

/// The coordinates of a point are recovered from its position by division.
pub proof fn lemma_linear_index_parts(side: int, x: int, y: int, z: int)
    requires
        0 <= x < side,
        0 <= y < side,
        0 <= z < side,
    ensures
        linear_index(side, x, y, z) % side == x,
        (linear_index(side, x, y, z) / side) % side == y,
        (linear_index(side, x, y, z) / side) / side == z,
{
    lemma_linear_index_bound(side, x, y, z);
    let i = linear_index(side, x, y, z);
    vstd::arithmetic::div_mod::lemma_fundamental_div_mod_converse(i, side, z * side + y, x);
    vstd::arithmetic::div_mod::lemma_fundamental_div_mod_converse(z * side + y, side, z, y);
}

/// Two points of the cube with the same position are the same point.
pub proof fn lemma_linear_index_injective(
    side: int,
    x1: int,
    y1: int,
    z1: int,
    x2: int,
    y2: int,
    z2: int,
)
    requires
        0 <= x1 < side,
        0 <= y1 < side,
        0 <= z1 < side,
        0 <= x2 < side,
        0 <= y2 < side,
        0 <= z2 < side,
        linear_index(side, x1, y1, z1) == linear_index(side, x2, y2, z2),
    ensures
        x1 == x2,
        y1 == y2,
        z1 == z2,
{
    lemma_linear_index_parts(side, x1, y1, z1);
    lemma_linear_index_parts(side, x2, y2, z2);
}

/// Every position below the cube's volume is the position of the point whose
/// coordinates division gives.
pub proof fn lemma_linear_index_inverse(side: int, i: int)
    requires
        side >= 1,
        0 <= i < cube(side),
    ensures
        0 <= i % side < side,
        0 <= (i / side) % side < side,
        0 <= (i / side) / side < side,
        linear_index(side, i % side, (i / side) % side, (i / side) / side) == i,
{
    let q = i / side;
    let x = i % side;
    let y = q % side;
    let z = q / side;
    vstd::arithmetic::div_mod::lemma_fundamental_div_mod(i, side);
    vstd::arithmetic::div_mod::lemma_mod_bound(i, side);
    vstd::arithmetic::div_mod::lemma_fundamental_div_mod(q, side);
    vstd::arithmetic::div_mod::lemma_mod_bound(q, side);
    assert(0 <= q) by (nonlinear_arith)
        requires
            i == side * q + x,
            0 <= x < side,
            0 <= i,
            side >= 1,
    ;
    assert(0 <= z) by (nonlinear_arith)
        requires
            q == side * z + y,
            0 <= y < side,
            0 <= q,
            side >= 1,
    ;
    assert(z < side) by (nonlinear_arith)
        requires
            i == side * q + x,
            q == side * z + y,
            0 <= x,
            0 <= y,
            i < side * side * side,
            side >= 1,
    ;
    assert(z * (side * side) + y * side + x == side * (side * z + y) + x) by (nonlinear_arith);
}

impl VolumeDescriptor {
    /// The effective resolution `N`: samples along each axis of the lattice.
    pub closed spec fn n(self) -> nat {
        self.resolution as nat
    }

    /// Side of the workgroup tile that `N` is a multiple of.
    pub closed spec fn tile_side(self) -> nat {
        self.tile as nat
    }

    /// The cell count `M = (N - 1)^3`.
    pub open spec fn m(self) -> nat {
        cube(self.n() - 1) as nat
    }

    /// Samples in the whole lattice, `N^3`.
    pub open spec fn samples(self) -> nat {
        cube(self.n() as int) as nat
    }

    /// A descriptor is well formed when its resolution is at least 2, is a
    /// multiple of a positive tile side, and its cube fits in 32 bits.
    #[verifier::type_invariant]
    pub open spec fn wf(self) -> bool {
        &&& self.tile_side() >= 1
        &&& self.n() >= 2
        &&& self.n() % self.tile_side() == 0
        &&& cube(self.n() as int) <= u32::MAX
    }

    /// What holds of every well-formed descriptor: the bounds that keep all
    /// derived counts inside 64 bits.
    pub proof fn lemma_bounds(self)
        requires
            self.wf(),
        ensures
            2 <= self.n() <= MAX_RESOLUTION,
            1 <= self.tile_side() <= self.n(),
            1 <= self.m() < self.samples() <= u32::MAX,
            self.n() * self.n() <= self.samples(),
            (self.n() - 1) * (self.n() - 1) <= self.m(),
    {
        let n = self.n() as int;
        if n > MAX_RESOLUTION {
            lemma_cube_monotonic(1626, n);
            assert(cube(1626) == 4298942376) by (nonlinear_arith);
        }
        lemma_cube_strictly_monotonic(n - 1, n);
        lemma_cube_monotonic(1, n - 1);
        assert(cube(1) == 1) by (nonlinear_arith);
        assert(n * n <= n * n * n) by (nonlinear_arith)
            requires
                n >= 1,
        ;
        assert((n - 1) * (n - 1) <= (n - 1) * (n - 1) * (n - 1)) by (nonlinear_arith)
            requires
                n - 1 >= 1,
        ;
        if self.tile_side() > self.n() {
            vstd::arithmetic::div_mod::lemma_small_mod(self.n(), self.tile_side());
        }
    }

    /// Builds the descriptor for `requested` samples per axis, rounded up to a
    /// multiple of `tile`, under a ceiling on the number of lattice samples.
    pub fn with_ceiling(requested: u32, tile: u32, ceiling: u32) -> (r: Result<
        VolumeDescriptor,
        VolumeError,
    >)
        requires
            tile >= 1,
        ensures
            match r {
                Ok(d) => {
                    &&& requested >= 2
                    &&& cube(round_up(requested as int, tile as int)) <= ceiling
                    &&& d.wf()
                    &&& d.n() == round_up(requested as int, tile as int)
                    &&& d.tile_side() == tile
                },
                Err(e) => {
                    &&& e == VolumeError::InvalidResolution
                    &&& (requested < 2 || cube(round_up(requested as int, tile as int)) > ceiling)
                },
            },
    {
        if requested < 2 {
            return Err(VolumeError::InvalidResolution);
        }
        let req: u64 = requested as u64;
        let t: u64 = tile as u64;
        let groups: u64 = (req + t - 1) / t;
        proof {
            lemma_round_up(req as int, t as int);
            assert(groups * t == round_up(req as int, t as int));
        }
        let n: u64 = groups * t;
        if n > MAX_RESOLUTION {
            proof {
                lemma_cube_monotonic(1626, n as int);
                assert(cube(1626) == 4298942376) by (nonlinear_arith);
            }
            return Err(VolumeError::InvalidResolution);
        }
        proof {
            lemma_cube_monotonic(n as int, 1625);
            assert(cube(1625) == 4291015625) by (nonlinear_arith);
            assert(n * n <= n * n * n) by (nonlinear_arith)
                requires
                    n >= 1,
            ;
        }
        let samples: u64 = n * n * n;
        if samples > ceiling as u64 {
            return Err(VolumeError::InvalidResolution);
        }
        Ok(VolumeDescriptor { resolution: n as u32, tile })
    }

    /// Builds the descriptor under the default storage-buffer ceiling.
    pub fn new(requested: u32, tile: u32) -> (r: Result<VolumeDescriptor, VolumeError>)
        requires
            tile >= 1,
        ensures
            match r {
                Ok(d) => {
                    &&& requested >= 2
                    &&& cube(round_up(requested as int, tile as int)) <= DEFAULT_CEILING
                    &&& d.wf()
                    &&& d.n() == round_up(requested as int, tile as int)
                    &&& d.tile_side() == tile
                },
                Err(e) => {
                    &&& e == VolumeError::InvalidResolution
                    &&& (requested < 2 || cube(round_up(requested as int, tile as int))
                        > DEFAULT_CEILING)
                },
            },
    {
        VolumeDescriptor::with_ceiling(requested, tile, DEFAULT_CEILING)
    }

    /// The effective resolution `N`.
    pub fn resolution(&self) -> (r: u32)
        ensures
            r == self.n(),
            self.wf(),
    {
        proof {
            use_type_invariant(self);
        }
        self.resolution
    }

    /// The tile side that `N` is aligned to.
    pub fn tile(&self) -> (r: u32)
        ensures
            r == self.tile_side(),
            r >= 1,
            self.n() % (r as nat) == 0,
    {
        proof {
            use_type_invariant(self);
        }
        self.tile
    }

    /// The cell count `M`.
    pub fn cells(&self) -> (r: u64)
        ensures
            r == self.m(),
            1 <= r < u32::MAX,
    {
        proof {
            use_type_invariant(self);
            self.lemma_bounds();
        }
        let k: u64 = (self.resolution - 1) as u64;
        k * k * k
    }

    /// Vertex slots in each of the position, normal and colour buffers.
    pub fn slot_count(&self) -> (r: u64)
        ensures
            r == SLOTS_PER_CELL * self.m(),
    {
        SLOTS_PER_CELL * self.cells()
    }

    /// Entries of the index buffer, which is also the length of the draw.
    pub fn index_count(&self) -> (r: u64)
        ensures
            r == INDICES_PER_CELL * self.m(),
    {
        INDICES_PER_CELL * self.cells()
    }

    /// Samples in the lattice, `N^3`.
    pub fn sample_count(&self) -> (r: u64)
        ensures
            r == self.samples(),
            r <= u32::MAX,
    {
        proof {
            use_type_invariant(self);
            self.lemma_bounds();
        }
        let n: u64 = self.resolution as u64;
        n * n * n
    }

    /// Workgroups dispatched along each axis: `N / tile`, with no remainder.
    pub fn workgroups_per_axis(&self) -> (r: u32)
        ensures
            r == self.n() / self.tile_side(),
            r * self.tile_side() == self.n(),
            r >= 1,
    {
        proof {
            use_type_invariant(self);
            self.lemma_bounds();
            vstd::arithmetic::div_mod::lemma_fundamental_div_mod(
                self.n() as int,
                self.tile_side() as int,
            );
            assert(self.tile_side() * (self.n() / self.tile_side()) == (self.n() / self.tile_side())
                * self.tile_side()) by (nonlinear_arith);
            if self.n() / self.tile_side() < 1 {
                vstd::arithmetic::div_mod::lemma_div_pos_is_pos(
                    self.n() as int,
                    self.tile_side() as int,
                );
                assert((self.n() / self.tile_side()) * self.tile_side() == 0) by (nonlinear_arith)
                    requires
                        self.n() / self.tile_side() == 0,
                ;
            }
        }
        self.resolution / self.tile
    }

    /// The dispatch grid of both compute passes.
    pub fn dispatch(&self) -> (r: (u32, u32, u32))
        ensures
            r.0 == self.n() / self.tile_side(),
            r.1 == r.0,
            r.2 == r.0,
            r.0 * self.tile_side() == self.n(),
    {
        let g: u32 = self.workgroups_per_axis();
        (g, g, g)
    }

    /// Invocations in one workgroup: the tile side cubed.
    pub fn workgroup_size(&self) -> (r: u32)
        ensures
            r == cube(self.tile_side() as int),
    {
        proof {
            use_type_invariant(self);
            self.lemma_bounds();
            lemma_cube_monotonic(self.tile_side() as int, self.n() as int);
            let t = self.tile_side() as int;
            assert(0 <= t * t <= t * t * t) by (nonlinear_arith)
                requires
                    t >= 1,
            ;
        }
        let t: u64 = self.tile as u64;
        (t * t * t) as u32
    }

    /// Position in the value buffer of the sample at `(x, y, z)`.
    pub open spec fn sample_index_of(self, x: int, y: int, z: int) -> int {
        linear_index(self.n() as int, x, y, z)
    }

    /// Number of the cell whose lowest corner is `(cx, cy, cz)`.
    pub open spec fn cell_index_of(self, cx: int, cy: int, cz: int) -> int {
        linear_index(self.n() - 1, cx, cy, cz)
    }

    /// The lowest corner of cell `c`, by division.
    pub open spec fn cell_coords_of(self, c: int) -> (int, int, int) {
        let k = self.n() - 1;
        (c % k, (c / k) % k, (c / k) / k)
    }

    /// The sample stored at position `i` of the value buffer, by division.
    pub open spec fn sample_coords_of(self, i: int) -> (int, int, int) {
        let n = self.n() as int;
        (i % n, (i / n) % n, (i / n) / n)
    }

    /// Whether `(x, y, z)` is a sample of the lattice.
    pub open spec fn has_sample(self, x: int, y: int, z: int) -> bool {
        0 <= x < self.n() && 0 <= y < self.n() && 0 <= z < self.n()
    }

    /// Whether `(cx, cy, cz)` is the lowest corner of a cell: no coordinate
    /// reaches the last sample of its axis.
    pub open spec fn has_cell(self, cx: int, cy: int, cz: int) -> bool {
        0 <= cx < self.n() - 1 && 0 <= cy < self.n() - 1 && 0 <= cz < self.n() - 1
    }

    /// Position in the value buffer of the sample at `(x, y, z)`:
    /// `z * N^2 + y * N + x`.
    pub fn sample_index(&self, x: u32, y: u32, z: u32) -> (r: u32)
        requires
            self.has_sample(x as int, y as int, z as int),
        ensures
            r == self.sample_index_of(x as int, y as int, z as int),
            r < self.samples(),
    {
        proof {
            use_type_invariant(self);
            self.lemma_bounds();
            lemma_linear_index_bound(self.n() as int, x as int, y as int, z as int);
        }
        let n: u64 = self.resolution as u64;
        let row: u64 = z as u64 * n + y as u64;
        (row * n + x as u64) as u32
    }

    /// The sample stored at position `i` of the value buffer.
    pub fn sample_coords(&self, i: u32) -> (r: (u32, u32, u32))
        requires
            i < self.samples(),
        ensures
            self.has_sample(r.0 as int, r.1 as int, r.2 as int),
            self.sample_index_of(r.0 as int, r.1 as int, r.2 as int) == i,
            (r.0 as int, r.1 as int, r.2 as int) == self.sample_coords_of(i as int),
    {
        proof {
            use_type_invariant(self);
            self.lemma_bounds();
            lemma_linear_index_inverse(self.n() as int, i as int);
        }
        let n: u32 = self.resolution;
        let q: u32 = i / n;
        (i % n, q % n, q / n)
    }

    /// Number of the cell whose lowest corner is `(cx, cy, cz)`.
    pub fn cell_index(&self, cx: u32, cy: u32, cz: u32) -> (r: u32)
        requires
            self.has_cell(cx as int, cy as int, cz as int),
        ensures
            r == self.cell_index_of(cx as int, cy as int, cz as int),
            r < self.m(),
    {
        proof {
            use_type_invariant(self);
            self.lemma_bounds();
            lemma_linear_index_bound(self.n() - 1, cx as int, cy as int, cz as int);
        }
        let k: u64 = (self.resolution - 1) as u64;
        let row: u64 = cz as u64 * k + cy as u64;
        (row * k + cx as u64) as u32
    }

    /// The lowest corner of cell `c`.
    pub fn cell_coords(&self, c: u32) -> (r: (u32, u32, u32))
        requires
            c < self.m(),
        ensures
            self.has_cell(r.0 as int, r.1 as int, r.2 as int),
            self.cell_index_of(r.0 as int, r.1 as int, r.2 as int) == c,
            (r.0 as int, r.1 as int, r.2 as int) == self.cell_coords_of(c as int),
    {
        proof {
            use_type_invariant(self);
            self.lemma_bounds();
            lemma_linear_index_inverse(self.n() - 1, c as int);
        }
        let k: u32 = self.resolution - 1;
        let q: u32 = c / k;
        (c % k, q % k, q / k)
    }

    /// The cell handled by the invocation at `(gx, gy, gz)`, if it has one:
    /// an invocation on the last sample of any axis has no cell.
    pub fn invocation_cell(&self, gx: u32, gy: u32, gz: u32) -> (r: Option<u32>)
        ensures
            match r {
                Some(c) => self.has_cell(gx as int, gy as int, gz as int) && c
                    == self.cell_index_of(gx as int, gy as int, gz as int) && c < self.m(),
                None => !self.has_cell(gx as int, gy as int, gz as int),
            },
    {
        proof {
            use_type_invariant(self);
        }
        let last: u32 = self.resolution - 1;
        if gx >= last || gy >= last || gz >= last {
            None
        } else {
            Some(self.cell_index(gx, gy, gz))
        }
    }

    /// First vertex slot of cell `c` and the slot one past its last.
    pub fn vertex_slots(&self, c: u32) -> (r: (u64, u64))
        requires
            c < self.m(),
        ensures
            r.0 == SLOTS_PER_CELL * c,
            r.1 == r.0 + SLOTS_PER_CELL,
            r.1 <= SLOTS_PER_CELL * self.m(),
    {
        let start: u64 = SLOTS_PER_CELL * (c as u64);
        (start, start + SLOTS_PER_CELL)
    }

    /// First index entry of cell `c` and the entry one past its last.
    pub fn index_entries(&self, c: u32) -> (r: (u64, u64))
        requires
            c < self.m(),
        ensures
            r.0 == INDICES_PER_CELL * c,
            r.1 == r.0 + INDICES_PER_CELL,
            r.1 <= INDICES_PER_CELL * self.m(),
    {
        let start: u64 = INDICES_PER_CELL * (c as u64);
        (start, start + INDICES_PER_CELL)
    }

    /// Bytes of the value buffer: one word per sample.
    pub fn value_buffer_bytes(&self) -> (r: u64)
        ensures
            r == 4 * self.samples(),
    {
        WORD_BYTES * self.sample_count()
    }

    /// Bytes of each of the position, normal and colour buffers: four words
    /// for each of the cell's thirty-six slots.
    pub fn vertex_buffer_bytes(&self) -> (r: u64)
        ensures
            r == 4 * 3 * 12 * self.m() * 4,
            r == SLOT_BYTES * (SLOTS_PER_CELL * self.m()),
    {
        proof {
            use_type_invariant(self);
            lemma_descriptor_sizes(*self);
        }
        SLOT_BYTES * self.slot_count()
    }

    /// Bytes of the index buffer: one word per index entry.
    pub fn index_buffer_bytes(&self) -> (r: u64)
        ensures
            r == 4 * 15 * self.m(),
    {
        proof {
            use_type_invariant(self);
            lemma_descriptor_sizes(*self);
        }
        WORD_BYTES * self.index_count()
    }
}

/// Numbering cells and taking their lowest corners are inverse to each other,
/// and so are numbering samples and taking their coordinates.
pub proof fn lemma_coords_round_trip(d: VolumeDescriptor, x: int, y: int, z: int, i: int)
    requires
        d.wf(),
    ensures
        d.has_sample(x, y, z) ==> 0 <= d.sample_index_of(x, y, z) < d.samples()
            && d.sample_coords_of(d.sample_index_of(x, y, z)) == (x, y, z),
        d.has_cell(x, y, z) ==> 0 <= d.cell_index_of(x, y, z) < d.m() && d.cell_coords_of(
            d.cell_index_of(x, y, z),
        ) == (x, y, z),
        0 <= i < d.samples() ==> d.has_sample(
            d.sample_coords_of(i).0,
            d.sample_coords_of(i).1,
            d.sample_coords_of(i).2,
        ) && d.sample_index_of(
            d.sample_coords_of(i).0,
            d.sample_coords_of(i).1,
            d.sample_coords_of(i).2,
        ) == i,
        0 <= i < d.m() ==> d.has_cell(
            d.cell_coords_of(i).0,
            d.cell_coords_of(i).1,
            d.cell_coords_of(i).2,
        ) && d.cell_index_of(d.cell_coords_of(i).0, d.cell_coords_of(i).1, d.cell_coords_of(i).2)
            == i,
{
    d.lemma_bounds();
    if d.has_sample(x, y, z) {
        lemma_linear_index_bound(d.n() as int, x, y, z);
        lemma_linear_index_parts(d.n() as int, x, y, z);
    }
    if d.has_cell(x, y, z) {
        lemma_linear_index_bound(d.n() - 1, x, y, z);
        lemma_linear_index_parts(d.n() - 1, x, y, z);
    }
    if 0 <= i < d.samples() {
        lemma_linear_index_inverse(d.n() as int, i);
    }
    if 0 <= i < d.m() {
        lemma_linear_index_inverse(d.n() - 1, i);
    }
}

/// Vertex slots that cell `c` owns.
pub open spec fn cell_slots(c: int) -> Set<int> {
    Set::new(|s: int| 36 * c <= s < 36 * c + 36)
}

/// Index entries that cell `c` owns.
pub open spec fn cell_indices(c: int) -> Set<int> {
    Set::new(|i: int| 15 * c <= i < 15 * c + 15)
}

/// No two cells share a vertex slot or an index entry, and every slot and
/// entry below the buffers' ends belongs to the cell that division names.
pub proof fn lemma_cells_do_not_share(a: int, b: int)
    requires
        0 <= a,
        0 <= b,
        a != b,
    ensures
        cell_slots(a).disjoint(cell_slots(b)),
        cell_indices(a).disjoint(cell_indices(b)),
{
}

/// Every slot below `36 * M` is owned by exactly the cell `slot / 36`, and
/// every index entry below `15 * M` by the cell `entry / 15`.
pub proof fn lemma_slot_owner(d: VolumeDescriptor, slot: int, entry: int)
    requires
        d.wf(),
        0 <= slot < 36 * d.m(),
        0 <= entry < 15 * d.m(),
    ensures
        0 <= slot / 36 < d.m(),
        cell_slots(slot / 36).contains(slot),
        forall|c: int| cell_slots(c).contains(slot) ==> c == slot / 36,
        0 <= entry / 15 < d.m(),
        cell_indices(entry / 15).contains(entry),
        forall|c: int| cell_indices(c).contains(entry) ==> c == entry / 15,
{
}

/// Dispatch alignment and sizing of a well-formed descriptor: the resolution
/// is a whole number of tiles, and the byte sizes of the value, vertex and
/// index buffers all fit in 64 bits.
pub proof fn lemma_descriptor_sizes(d: VolumeDescriptor)
    requires
        d.wf(),
    ensures
        d.n() % d.tile_side() == 0,
        (d.n() / d.tile_side()) * d.tile_side() == d.n(),
        4 * d.samples() <= u64::MAX,
        4 * 3 * 12 * d.m() * 4 <= u64::MAX,
        4 * 15 * d.m() <= u64::MAX,
        4 * 3 * 12 * d.m() * 4 == 16 * (36 * d.m()),
        4 * 15 * d.m() == 4 * (15 * d.m()),
{
    d.lemma_bounds();
    let m = d.m() as int;
    assert(4 * 3 * 12 * m * 4 == 576 * m) by (nonlinear_arith);
    assert(4 * 15 * m == 60 * m) by (nonlinear_arith);
    vstd::arithmetic::div_mod::lemma_fundamental_div_mod(d.n() as int, d.tile_side() as int);
    assert(d.tile_side() * (d.n() / d.tile_side()) == (d.n() / d.tile_side()) * d.tile_side())
        by (nonlinear_arith);
}

} // verus!
