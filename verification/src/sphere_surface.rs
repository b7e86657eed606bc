//! The triangulated sphere: an icosahedron whose faces are split again and again.

use crate::scalar::Scalar;
use simplicial::gen::sphere::mesh_sphere_surface;
use vstd::prelude::*;

verus! {

/// A point of space.
#[derive(Debug, Clone, Copy, PartialEq, Eq, Structural)]
pub struct SpacePoint {
    pub x: Scalar,
    pub y: Scalar,
    pub z: Scalar,
}

/// A triangulated surface in space. The vertices of an edge and of a face rise.
#[derive(Debug)]
pub struct SphereSurface {
    pub positions: Vec<SpacePoint>,
    pub edges: Vec<(usize, usize)>,
    pub faces: Vec<(usize, usize, usize)>,
}

/// The bits of the coordinates of points.
pub open spec fn coordinate_bits(points: Seq<SpacePoint>) -> Seq<(u64, u64, u64)> {
    points.map_values(|point: SpacePoint| (point.x.bits, point.y.bits, point.z.bits))
}

impl SphereSurface {
    /// Whether every edge and every face lists vertices of the surface, in rising order.
    pub open spec fn wf(&self) -> bool {
        &&& forall|e: int|
            0 <= e < self.edges.len() ==> (#[trigger] self.edges@[e]).0 < self.edges@[e].1
                < self.positions.len()
        &&& forall|f: int|
            0 <= f < self.faces.len() ==> (#[trigger] self.faces@[f]).0 < self.faces@[f].1
                < self.faces@[f].2 < self.positions.len()
    }
}

/// How many faces a face has become after the given number of splittings.
pub open spec fn pieces(level: nat) -> nat
    decreases level,
{
    if level == 0 {
        1
    } else {
        4 * pieces((level - 1) as nat)
    }
}

/// The number of vertices at a level.
pub open spec fn vertices_at(level: nat) -> nat {
    10 * pieces(level) + 2
}

/// The number of edges at a level.
pub open spec fn edges_at(level: nat) -> nat {
    30 * pieces(level)
}

/// The number of faces at a level.
pub open spec fn faces_at(level: nat) -> nat {
    20 * pieces(level)
}

/// The finest level whose surface can be expected to fit into memory.
pub const FINEST_LEVEL: usize = 12;

/// The numbers are those of a sphere, every edge lies between two faces, and a splitting adds a
/// vertex for every edge, two edges for every edge and three for every face.
pub proof fn lemma_sphere_sizes(level: nat)
    ensures
        vertices_at(level) - edges_at(level) + faces_at(level) == 2,
        3 * faces_at(level) == 2 * edges_at(level),
        vertices_at(level + 1) == vertices_at(level) + edges_at(level),
        edges_at(level + 1) == 2 * edges_at(level) + 3 * faces_at(level),
        faces_at(level + 1) == 4 * faces_at(level),
{
}

/// There are no more pieces at a coarser level.
proof fn lemma_pieces_rise(level: nat, finer: nat)
    requires
        level <= finer,
    ensures
        1 <= pieces(level) <= pieces(finer),
    decreases finer,
{
    if level < finer {
        lemma_pieces_rise(level, (finer - 1) as nat);
    } else if level > 0 {
        lemma_pieces_rise((level - 1) as nat, (level - 1) as nat);
    }
}

/// The number of faces is bounded at the levels that fit into memory.
pub proof fn lemma_faces_fit(level: nat)
    requires
        level <= FINEST_LEVEL,
    ensures
        20 <= faces_at(level) <= 335_544_320,
{
    lemma_pieces_rise(level, 12);
    assert(pieces(12) == 16_777_216) by {
        reveal_with_fuel(pieces, 13);
    }
}

/// What `mesh_sphere_surface` makes of a number of splittings: the coordinates of the vertices,
/// the edges and the faces.
pub uninterp spec fn sphere_parts(level: usize) -> (
    Seq<(u64, u64, u64)>,
    Seq<(usize, usize)>,
    Seq<(usize, usize, usize)>,
);

/// Calls `mesh_sphere_surface` of the `simplicial` crate, which splits every face of an icosahedron
/// into four, the given number of times, and lists every simplex once with its vertices in rising
/// order. A splitting adds a vertex for every edge, so the numbers of vertices, edges and faces are
/// known. The outcome depends on the number of splittings alone; the coordinates are roots and
/// quotients, which are left without a statement.
#[verifier::external_body]
fn subdivided_icosahedron(level: usize) -> (surface: SphereSurface)
    requires
        level <= FINEST_LEVEL,
    ensures
        coordinate_bits(surface.positions@) == sphere_parts(level).0,
        surface.edges@ == sphere_parts(level).1,
        surface.faces@ == sphere_parts(level).2,
        surface.positions.len() == vertices_at(level as nat),
        surface.edges.len() == edges_at(level as nat),
        surface.faces.len() == faces_at(level as nat),
        surface.wf(),
{
    let (complex, coords) = mesh_sphere_surface(level);
    SphereSurface {
        positions: coords.coord_iter().map(|p| SpacePoint {
            x: Scalar { bits: p[0].to_bits() },
            y: Scalar { bits: p[1].to_bits() },
            z: Scalar { bits: p[2].to_bits() },
        }).collect(),
        edges: complex.skeleton_raw(1).iter().map(|s| (s[0], s[1])).collect(),
        faces: complex.skeleton_raw(2).iter().map(|s| (s[0], s[1], s[2])).collect(),
    }
}

/// Builds the surface of a sphere at a level.
pub fn build_surface(level: usize) -> (surface: SphereSurface)
    requires
        level <= FINEST_LEVEL,
    ensures
        coordinate_bits(surface.positions@) == sphere_parts(level).0,
        surface.edges@ == sphere_parts(level).1,
        surface.faces@ == sphere_parts(level).2,
        surface.positions.len() == vertices_at(level as nat),
        surface.edges.len() == edges_at(level as nat),
        surface.faces.len() == faces_at(level as nat),
        surface.wf(),
{
    subdivided_icosahedron(level)
}

} // verus!
