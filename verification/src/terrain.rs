//! A host-side walk over the cells of a sampled field that collects the
//! points where the surface crosses the first edge of a cell.
//!
//! The field itself is not seen here: every sample comes in as the side of
//! the iso level it lies on. Points are given in half cells, so that the
//! middle of an edge has whole coordinates.

use crate::volume::{
    cube, lemma_cube_monotonic, lemma_linear_index_bound, lemma_linear_index_parts, linear_index,
};
use vstd::prelude::*;

verus! {

/// Where a sample lies relative to the iso level.
#[derive(Clone, Copy, Debug, PartialEq, Eq, Structural)]
pub enum Side {
    Below,
    On,
    Above,
}

/// A point of the lattice in half cells.
#[derive(Clone, Copy, Debug, PartialEq, Eq, Structural)]
pub struct HalfPoint {
    pub x: u64,
    pub y: u64,
    pub z: u64,
}

/// The crossing points found by a walk, and one index for each of them.
#[derive(Debug)]
pub struct Terrain {
    pub resolution: u64,
    pub vertices: Vec<HalfPoint>,
    pub indices: Vec<u64>,
}

/// Whether the surface crosses the edge from a sample on side `a` to one on
/// side `b`: the first lies strictly on one side and the second does not.
pub open spec fn crosses(a: Side, b: Side) -> bool {
    (a == Side::Below && b != Side::Below) || (a == Side::Above && b != Side::Above)
}

/// Whether the surface crosses the first edge of cell `c`, the one that
/// leaves its lowest corner along the first axis.
pub open spec fn cell_crosses(resolution: int, sides: Seq<Side>, c: int) -> bool {
    let k = resolution - 1;
    let x = c % k;
    let y = (c / k) % k;
    let z = (c / k) / k;
    crosses(
        sides[linear_index(resolution, x, y, z)],
        sides[linear_index(resolution, x + 1, y, z)],
    )
}

/// The middle of the first edge of cell `c`.
pub open spec fn edge_middle(resolution: int, c: int) -> HalfPoint {
    let k = resolution - 1;
    HalfPoint {
        x: (2 * (c % k) + 1) as u64,
        y: (2 * ((c / k) % k)) as u64,
        z: (2 * ((c / k) / k)) as u64,
    }
}

/// The crossing points of the cells below `c`, in the order of the cells.
pub open spec fn crossings_before(resolution: int, sides: Seq<Side>, c: int) -> Seq<HalfPoint>
    decreases c,
{
    if c <= 0 {
        Seq::empty()
    } else {
        let before = crossings_before(resolution, sides, c - 1);
        if cell_crosses(resolution, sides, c - 1) {
            before.push(edge_middle(resolution, c - 1))
        } else {
            before
        }
    }
}

/// A walk finds one point at most in each cell.
pub proof fn lemma_crossings_bound(resolution: int, sides: Seq<Side>, c: int)
    requires
        0 <= c,
    ensures
        crossings_before(resolution, sides, c).len() <= c,
    decreases c,
{
    if c > 0 {
        lemma_crossings_bound(resolution, sides, c - 1);
    }
}

/// Whether the surface crosses the edge from a sample on side `a` to one on
/// side `b`.
pub fn is_crossing(a: Side, b: Side) -> (r: bool)
    ensures
        r == crosses(a, b),
{
    match a {
        Side::Below => match b {
            Side::Below => false,
            _ => true,
        },
        Side::Above => match b {
            Side::Above => false,
            _ => true,
        },
        Side::On => false,
    }
}

impl Terrain {
    /// Walks the cells of a lattice of `resolution` samples per axis, the
    /// first axis running fastest, and collects the middle of the first edge
    /// of every cell in which the surface crosses that edge. The indices
    /// number the points in the order they were found.
    pub fn new(resolution: u64, sides: &Vec<Side>) -> (t: Terrain)
        requires
            resolution >= 1,
            sides.len() == cube(resolution as int),
        ensures
            t.resolution == resolution,
            t.vertices@ == crossings_before(resolution as int, sides@, cube(resolution - 1)),
            t.indices.len() == t.vertices.len(),
            forall|i: int| 0 <= i < t.indices.len() ==> t.indices[i] == i,
    {
        let k: u64 = resolution - 1;
        let ghost n = resolution as int;
        let mut vertices: Vec<HalfPoint> = Vec::new();
        let mut indices: Vec<u64> = Vec::new();
        proof {
            lemma_cube_monotonic(k as int, n);
            assert(0 * (k * k) + 0 * k + 0 == 0) by (nonlinear_arith);
        }
        let mut z: u64 = 0;
        while z < k
            invariant
                z <= k,
                k == n - 1,
                n == resolution,
                sides.len() == cube(n),
                cube(k as int) <= cube(n),
                vertices@ == crossings_before(n, sides@, z * (k * k)),
                indices.len() == vertices.len(),
                vertices.len() <= z * (k * k),
                forall|i: int| 0 <= i < indices.len() ==> indices[i] == i,
            decreases k - z,
        {
            proof {
                assert(z * (k * k) == z * (k * k) + 0 * k) by (nonlinear_arith);
            }
            let mut y: u64 = 0;
            while y < k
                invariant
                    y <= k,
                    z < k,
                    k == n - 1,
                    n == resolution,
                    sides.len() == cube(n),
                    cube(k as int) <= cube(n),
                    vertices@ == crossings_before(n, sides@, z * (k * k) + y * k),
                    indices.len() == vertices.len(),
                    vertices.len() <= z * (k * k) + y * k,
                    forall|i: int| 0 <= i < indices.len() ==> indices[i] == i,
                decreases k - y,
            {
                let mut x: u64 = 0;
                while x < k
                    invariant
                        x <= k,
                        y < k,
                        z < k,
                        k == n - 1,
                        n == resolution,
                        sides.len() == cube(n),
                        cube(k as int) <= cube(n),
                        vertices@ == crossings_before(n, sides@, z * (k * k) + y * k + x),
                        indices.len() == vertices.len(),
                        vertices.len() <= z * (k * k) + y * k + x,
                        forall|i: int| 0 <= i < indices.len() ==> indices[i] == i,
                    decreases k - x,
                {
                    proof {
                        lemma_linear_index_bound(k as int, x as int, y as int, z as int);
                        lemma_linear_index_parts(k as int, x as int, y as int, z as int);
                        lemma_linear_index_bound(n, x as int, y as int, z as int);
                        lemma_linear_index_bound(n, x + 1, y as int, z as int);
                        assert(2 * n <= n * n <= n * n * n) by (nonlinear_arith)
                            requires
                                n >= 2,
                        ;
                    }
                    let row: u64 = z * resolution + y;
                    let here: u64 = row * resolution + x;
                    let a: Side = sides[here as usize];
                    let b: Side = sides[(here + 1) as usize];
                    if is_crossing(a, b) {
                        indices.push(vertices.len() as u64);
                        vertices.push(HalfPoint { x: 2 * x + 1, y: 2 * y, z: 2 * z });
                    }
                    x = x + 1;
                }
                proof {
                    assert(z * (k * k) + y * k + k == z * (k * k) + (y + 1) * k) by (nonlinear_arith);
                }
                y = y + 1;
            }
            proof {
                assert(z * (k * k) + k * k == (z + 1) * (k * k)) by (nonlinear_arith);
            }
            z = z + 1;
        }
        proof {
            assert(k * (k * k) == cube(k as int)) by (nonlinear_arith);
        }
        Terrain { resolution, vertices, indices }
    }
}

} // verus!
