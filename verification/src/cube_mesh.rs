//! The unit cube cut into small cubes, and each of these into six tetrahedra.

use crate::scalar::Scalar;
use crate::sphere_surface::{coordinate_bits, SpacePoint};
use simplicial::gen::cartesian::CartesianGrid;
use vstd::prelude::*;

verus! {

/// A mesh of tetrahedra. The vertices of an edge and of a cell rise.
#[derive(Debug)]
pub struct CubeMesh {
    pub positions: Vec<SpacePoint>,
    pub edges: Vec<(usize, usize)>,
    pub cells: Vec<(usize, usize, usize, usize)>,
}

impl CubeMesh {
    /// Whether every edge and every cell lists vertices of the mesh, in rising order.
    pub open spec fn wf(&self) -> bool {
        &&& forall|e: int|
            0 <= e < self.edges.len() ==> (#[trigger] self.edges@[e]).0 < self.edges@[e].1
                < self.positions.len()
        &&& forall|c: int|
            0 <= c < self.cells.len() ==> (#[trigger] self.cells@[c]).0 < self.cells@[c].1
                < self.cells@[c].2 < self.cells@[c].3 < self.positions.len()
    }
}

/// The most small cubes along a side for which the mesh can be expected to fit into memory.
pub const FINEST_CUBES: usize = 512;

/// The number of vertices with `n` small cubes along a side.
pub open spec fn cube_vertices(n: nat) -> nat {
    (n + 1) * (n + 1) * (n + 1)
}

/// The number of edges: those along the axes, the diagonals of squares and the diagonals of cubes.
pub open spec fn cube_edges(n: nat) -> nat {
    3 * (n * (n + 1) * (n + 1)) + 3 * (n * n * (n + 1)) + n * n * n
}

/// The number of cells.
pub open spec fn cube_cells(n: nat) -> nat {
    6 * (n * n * n)
}

/// What `CartesianGrid::triangulate` makes of the unit cube with a number of small cubes along a
/// side: the coordinates of the vertices, the edges and the cells.
pub uninterp spec fn cube_parts(n: usize) -> (
    Seq<(u64, u64, u64)>,
    Seq<(usize, usize)>,
    Seq<(usize, usize, usize, usize)>,
);

/// Calls `CartesianGrid::triangulate` of the `simplicial` crate on the unit cube, which cuts every
/// small cube along its diagonals into six tetrahedra, and lists every simplex once with its
/// vertices in rising order; the grid must not be empty. The outcome depends on the number of small
/// cubes along a side alone; of the coordinates nothing further is stated.
#[verifier::external_body]
fn triangulated_cube(n: usize) -> (mesh: CubeMesh)
    requires
        0 < n <= FINEST_CUBES,
    ensures
        coordinate_bits(mesh.positions@) == cube_parts(n).0,
        mesh.edges@ == cube_parts(n).1,
        mesh.cells@ == cube_parts(n).2,
        mesh.positions.len() == cube_vertices(n as nat),
        mesh.edges.len() == cube_edges(n as nat),
        mesh.cells.len() == cube_cells(n as nat),
        mesh.wf(),
{
    let (complex, coords) = CartesianGrid::new_unit(3, n).triangulate();
    CubeMesh {
        positions: coords.coord_iter().map(|p| SpacePoint {
            x: Scalar { bits: p[0].to_bits() },
            y: Scalar { bits: p[1].to_bits() },
            z: Scalar { bits: p[2].to_bits() },
        }).collect(),
        edges: complex.skeleton_raw(1).iter().map(|s| (s[0], s[1])).collect(),
        cells: complex.skeleton_raw(3).iter().map(|s| (s[0], s[1], s[2], s[3])).collect(),
    }
}

/// Builds the mesh of the unit cube with `n` small cubes along a side. It has cells.
pub fn build_mesh(n: usize) -> (mesh: CubeMesh)
    requires
        0 < n <= FINEST_CUBES,
    ensures
        coordinate_bits(mesh.positions@) == cube_parts(n).0,
        mesh.edges@ == cube_parts(n).1,
        mesh.cells@ == cube_parts(n).2,
        mesh.positions.len() == cube_vertices(n as nat),
        mesh.edges.len() == cube_edges(n as nat),
        mesh.cells.len() == cube_cells(n as nat),
        mesh.cells.len() > 0,
        mesh.wf(),
{
    proof {
        assert(n * n * n > 0) by (nonlinear_arith)
            requires
                n > 0,
        ;
    }
    triangulated_cube(n)
}

} // verus!
