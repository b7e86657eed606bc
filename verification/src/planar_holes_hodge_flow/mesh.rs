//! Meshes of simplices: vertices, edges and cells as plain indices.

use super::components::edges_in_range;
use super::shortest_path::{adjacency_in_range, steps_of, EdgeStep};
use crate::index_set::IndexSet;
use vstd::prelude::*;

verus! {

/// The topology of a mesh. An edge runs from its first to its second vertex. A cell lists its
/// corners; in a mesh of the plane the cells are triangles.
#[derive(Debug)]
pub struct MeshTopology {
    pub vertex_count: usize,
    pub edges: Vec<(usize, usize)>,
    pub cells: Vec<Vec<usize>>,
}

impl MeshTopology {
    pub open spec fn wf(&self) -> bool {
        &&& edges_in_range(self.vertex_count as nat, self.edges@)
        &&& forall|e: int| 0 <= e < self.edges.len() ==> (#[trigger] self.edges@[e]).0
            != self.edges@[e].1
    }

    /// Whether the ends of every edge are two vertices of the mesh.
    pub fn is_well_formed(&self) -> (well_formed: bool)
        ensures
            well_formed == self.wf(),
    {
        let mut index: usize = 0;
        while index < self.edges.len()
            invariant
                index <= self.edges.len(),
                forall|e: int|
                    #![trigger self.edges@[e]]
                    0 <= e < index ==> self.edges@[e].0 < self.vertex_count && self.edges@[e].1
                        < self.vertex_count && self.edges@[e].0 != self.edges@[e].1,
            decreases self.edges.len() - index,
        {
            let edge: (usize, usize) = self.edges[index];
            if edge.0 >= self.vertex_count || edge.1 >= self.vertex_count || edge.0 == edge.1 {
                assert(self.edges@[index as int] == edge);
                return false;
            }
            index = index + 1;
        }
        true
    }
}

/// Whether all of the vertices are corners of a cell.
pub open spec fn cell_has(cell: Seq<usize>, vertices: Seq<usize>) -> bool {
    forall|i: int| 0 <= i < vertices.len() ==> cell.contains(#[trigger] vertices[i])
}

/// The number of cells that have all of the vertices as corners.
pub open spec fn cells_around(cells: Seq<Vec<usize>>, vertices: Seq<usize>) -> nat {
    cells.filter(|cell: Vec<usize>| cell_has(cell@, vertices)).len()
}

/// The ends of an edge.
pub open spec fn ends_of(edge: (usize, usize)) -> Seq<usize> {
    seq![edge.0, edge.1]
}

/// The side of a cell that lies opposite to the corner at a place.
pub open spec fn side_opposite(cell: Seq<usize>, place: int) -> Seq<usize> {
    cell.remove(place)
}

/// Whether the side of a cell opposite to the corner at a place bounds the mesh: no other cell has
/// it.
pub open spec fn is_boundary_side(topology: MeshTopology, cell: int, place: int) -> bool {
    cells_around(topology.cells@, side_opposite(topology.cells@[cell]@, place)) == 1
}

/// Whether the vertices lie on a side that bounds the mesh.
pub open spec fn bounds_mesh(topology: MeshTopology, vertices: Seq<usize>) -> bool {
    exists|cell: int, place: int| #[trigger]
        on_boundary_side(topology, vertices, cell, place)
}

/// Whether the vertices lie on the side of a cell opposite to the corner at a place, and the side
/// bounds the mesh.
pub open spec fn on_boundary_side(
    topology: MeshTopology,
    vertices: Seq<usize>,
    cell: int,
    place: int,
) -> bool {
    &&& 0 <= cell < topology.cells.len()
    &&& 0 <= place < topology.cells@[cell].len()
    &&& cell_has(side_opposite(topology.cells@[cell]@, place), vertices)
    &&& is_boundary_side(topology, cell, place)
}

/// Whether edge `e` lies on the boundary of the mesh.
pub open spec fn on_boundary(topology: MeshTopology, e: int) -> bool {
    bounds_mesh(topology, ends_of(topology.edges@[e]))
}

/// Whether vertex `v` lies on the boundary of the mesh.
pub open spec fn vertex_on_boundary(topology: MeshTopology, v: usize) -> bool {
    bounds_mesh(topology, seq![v])
}

/// Finds a corner of a cell.
fn find_corner(cell: &Vec<usize>, vertex: usize) -> (found: bool)
    ensures
        found == cell@.contains(vertex),
{
    let mut index: usize = 0;
    while index < cell.len()
        invariant
            index <= cell.len(),
            forall|i: int| 0 <= i < index ==> #[trigger] cell@[i] != vertex,
        decreases cell.len() - index,
    {
        if cell[index] == vertex {
            assert(cell@[index as int] == vertex);
            return true;
        }
        index = index + 1;
    }
    false
}

/// Decides whether all of the vertices are corners of a cell.
fn check_corners(cell: &Vec<usize>, vertices: &Vec<usize>) -> (has: bool)
    ensures
        has == cell_has(cell@, vertices@),
{
    let mut index: usize = 0;
    while index < vertices.len()
        invariant
            index <= vertices.len(),
            forall|i: int| 0 <= i < index ==> cell@.contains(#[trigger] vertices@[i]),
        decreases vertices.len() - index,
    {
        if !find_corner(cell, vertices[index]) {
            assert(!cell@.contains(vertices@[index as int]));
            return false;
        }
        index = index + 1;
    }
    true
}

/// Counts the cells that have all of the vertices as corners.
fn count_cells_around(cells: &Vec<Vec<usize>>, vertices: &Vec<usize>) -> (count: usize)
    ensures
        count == cells_around(cells@, vertices@),
{
    let ghost holds = |cell: Vec<usize>| cell_has(cell@, vertices@);
    let mut count: usize = 0;
    let mut index: usize = 0;
    proof {
        reveal(Seq::filter);
        assert(cells@.take(0).filter(holds).len() == 0);
    }
    while index < cells.len()
        invariant
            index <= cells.len(),
            count <= index,
            holds == (|cell: Vec<usize>| cell_has(cell@, vertices@)),
            count == cells@.take(index as int).filter(holds).len(),
        decreases cells.len() - index,
    {
        proof {
            reveal(Seq::filter);
            assert(cells@.take(index + 1).drop_last() =~= cells@.take(index as int));
            assert(cells@.take(index + 1).last() == cells@[index as int]);
        }
        if check_corners(&cells[index], vertices) {
            count = count + 1;
        }
        index = index + 1;
    }
    assert(cells@.take(index as int) =~= cells@);
    count
}

/// Counts the cells that contain `edge`.
pub fn cocell_count(cells: &Vec<Vec<usize>>, edge: (usize, usize)) -> (count: usize)
    ensures
        count == cells_around(cells@, ends_of(edge)),
{
    let ends: Vec<usize> = vec![edge.0, edge.1];
    assert(ends@ =~= ends_of(edge));
    count_cells_around(cells, &ends)
}

/// Copies the corners of a cell but the one at a place.
fn copy_side(cell: &Vec<usize>, place: usize) -> (side: Vec<usize>)
    requires
        place < cell.len(),
    ensures
        side@ == side_opposite(cell@, place as int),
{
    let mut side: Vec<usize> = Vec::new();
    let mut index: usize = 0;
    while index < cell.len()
        invariant
            index <= cell.len(),
            place < cell.len(),
            side.len() == (if index <= place {
                index as int
            } else {
                index - 1
            }),
            forall|i: int|
                0 <= i < side.len() ==> #[trigger] side@[i] == side_opposite(
                    cell@,
                    place as int,
                )[i],
        decreases cell.len() - index,
    {
        if index != place {
            side.push(cell[index]);
        }
        index = index + 1;
    }
    assert(side@ =~= side_opposite(cell@, place as int));
    side
}

/// Decides whether the vertices lie on a side that bounds the mesh.
fn check_boundary(topology: &MeshTopology, vertices: &Vec<usize>) -> (bounds: bool)
    ensures
        bounds == bounds_mesh(*topology, vertices@),
{
    let mut cell: usize = 0;
    while cell < topology.cells.len()
        invariant
            cell <= topology.cells.len(),
            forall|c: int, k: int|
                c < cell ==> !#[trigger] on_boundary_side(*topology, vertices@, c, k),
        decreases topology.cells.len() - cell,
    {
        let mut place: usize = 0;
        while place < topology.cells[cell].len()
            invariant
                cell < topology.cells.len(),
                place <= topology.cells@[cell as int].len(),
                forall|c: int, k: int|
                    c < cell ==> !#[trigger] on_boundary_side(*topology, vertices@, c, k),
                forall|k: int|
                    k < place ==> !#[trigger] on_boundary_side(
                        *topology,
                        vertices@,
                        cell as int,
                        k,
                    ),
            decreases topology.cells@[cell as int].len() - place,
        {
            let side = copy_side(&topology.cells[cell], place);
            if check_corners(&side, vertices) && count_cells_around(&topology.cells, &side) == 1 {
                assert(on_boundary_side(*topology, vertices@, cell as int, place as int));
                return true;
            }
            place = place + 1;
        }
        cell = cell + 1;
    }
    false
}

/// The edges that bound the mesh.
pub fn boundary_edge_indices(topology: &MeshTopology) -> (indices: IndexSet)
    ensures
        indices.wf(),
        forall|e: usize| #[trigger]
            indices@.contains(e) <==> e < topology.edges.len() && on_boundary(*topology, e as int),
{
    let mut indices = IndexSet::new();
    let mut index: usize = 0;
    while index < topology.edges.len()
        invariant
            index <= topology.edges.len(),
            indices.wf(),
            forall|e: usize| #[trigger]
                indices@.contains(e) <==> e < index && on_boundary(*topology, e as int),
        decreases topology.edges.len() - index,
    {
        let edge: (usize, usize) = topology.edges[index];
        let ends: Vec<usize> = vec![edge.0, edge.1];
        assert(ends@ =~= ends_of(edge));
        if check_boundary(topology, &ends) {
            indices.insert(index);
        }
        index = index + 1;
    }
    indices
}

/// The vertices on the boundary of the mesh.
pub fn boundary_vertex_indices(topology: &MeshTopology) -> (indices: IndexSet)
    ensures
        indices.wf(),
        forall|v: usize| #[trigger]
            indices@.contains(v) <==> v < topology.vertex_count && vertex_on_boundary(*topology, v),
{
    let mut indices = IndexSet::new();
    let mut vertex: usize = 0;
    while vertex < topology.vertex_count
        invariant
            vertex <= topology.vertex_count,
            indices.wf(),
            forall|v: usize| #[trigger]
                indices@.contains(v) <==> v < vertex && vertex_on_boundary(*topology, v),
        decreases topology.vertex_count - vertex,
    {
        let corner: Vec<usize> = vec![vertex];
        assert(corner@ =~= seq![vertex]);
        if check_boundary(topology, &corner) {
            indices.insert(vertex);
        }
        vertex = vertex + 1;
    }
    indices
}

/// Cells that have the same vertices as corners are counted alike.
proof fn lemma_same_vertices(cells: Seq<Vec<usize>>, left: Seq<usize>, right: Seq<usize>)
    requires
        forall|cell: Vec<usize>| #[trigger]
            cell_has(cell@, left) == cell_has(cell@, right),
    ensures
        cells_around(cells, left) == cells_around(cells, right),
    decreases cells.len(),
{
    reveal(Seq::filter);
    if cells.len() > 0 {
        lemma_same_vertices(cells.drop_last(), left, right);
        assert(cell_has(cells.last()@, left) == cell_has(cells.last()@, right));
    }
}

/// A mesh of triangles is bounded by the edges that lie in one triangle.
pub proof fn lemma_triangle_boundary(topology: MeshTopology, e: int)
    requires
        topology.wf(),
        forall|c: int|
            0 <= c < topology.cells.len() ==> (#[trigger] topology.cells@[c]).len() == 3,
        0 <= e < topology.edges.len(),
    ensures
        on_boundary(topology, e) <==> cells_around(
            topology.cells@,
            ends_of(topology.edges@[e]),
        ) == 1,
{
    let ends = ends_of(topology.edges@[e]);
    assert(topology.edges@[e].0 != topology.edges@[e].1);
    assert(ends[0] == topology.edges@[e].0 && ends[1] == topology.edges@[e].1);
    assert forall|c: int, k: int|
        0 <= c < topology.cells.len() && 0 <= k < 3 && cell_has(
            #[trigger] side_opposite(topology.cells@[c]@, k),
            ends,
        ) implies is_boundary_side(topology, c, k) == (cells_around(topology.cells@, ends) == 1) by {
        let side = side_opposite(topology.cells@[c]@, k);
        assert(topology.cells@[c].len() == 3);
        assert(side.len() == 2);
        assert(side.contains(ends[0]) && side.contains(ends[1]));
        assert(side[0] == ends[0] && side[1] == ends[1] || side[0] == ends[1] && side[1]
            == ends[0]);
        assert forall|cell: Vec<usize>| #[trigger] cell_has(cell@, side) == cell_has(
            cell@,
            ends,
        ) by {
            if cell_has(cell@, side) {
                assert(cell@.contains(side[0]) && cell@.contains(side[1]));
            }
            if cell_has(cell@, ends) {
                assert(cell@.contains(ends[0]) && cell@.contains(ends[1]));
            }
        }
        lemma_same_vertices(topology.cells@, side, ends);
    }
    if on_boundary(topology, e) {
        let (c, k) = choose|c: int, k: int| #[trigger] on_boundary_side(topology, ends, c, k);
        assert(cell_has(side_opposite(topology.cells@[c]@, k), ends));
    }
    if cells_around(topology.cells@, ends) == 1 {
        let holds = |cell: Vec<usize>| cell_has(cell@, ends);
        lemma_filter_member(topology.cells@, holds);
        let c = choose|c: int| 0 <= c < topology.cells.len() && holds(topology.cells@[c]);
        let cell = topology.cells@[c]@;
        assert(cell_has(cell, ends));
        assert(cell.contains(ends[0]) && cell.contains(ends[1]));
        let i = choose|i: int| 0 <= i < cell.len() && cell[i] == ends[0];
        let j = choose|j: int| 0 <= j < cell.len() && cell[j] == ends[1];
        assert(topology.cells@[c].len() == 3);
        let k = 3 - i - j;
        let side = side_opposite(cell, k);
        assert(side[if i < k {
            i
        } else {
            i - 1
        }] == ends[0]);
        assert(side[if j < k {
            j
        } else {
            j - 1
        }] == ends[1]);
        assert(cell_has(side, ends));
        assert(on_boundary_side(topology, ends, c, k));
    }
}

/// A list that keeps something under a filter has an item that passes it.
proof fn lemma_filter_member(cells: Seq<Vec<usize>>, holds: spec_fn(Vec<usize>) -> bool)
    requires
        cells.filter(holds).len() > 0,
    ensures
        exists|c: int| 0 <= c < cells.len() && holds(#[trigger] cells[c]),
    decreases cells.len(),
{
    reveal(Seq::filter);
    if cells.len() > 0 {
        if holds(cells.last()) {
            assert(holds(cells[cells.len() - 1]));
        } else {
            lemma_filter_member(cells.drop_last(), holds);
            let c = choose|c: int| 0 <= c < cells.len() - 1 && holds(cells.drop_last()[c]);
            assert(holds(cells[c]));
        }
    }
}

/// The step along edge `e` out of vertex `v`, where `e` has `v` as an end.
pub open spec fn step_along(
    edges: Seq<(usize, usize)>,
    lengths: Seq<u64>,
    e: int,
    v: int,
) -> EdgeStep {
    if edges[e].0 == v {
        EdgeStep { to: edges[e].1, edge_index: e as usize, sign: 1, length: lengths[e] }
    } else {
        EdgeStep { to: edges[e].0, edge_index: e as usize, sign: -1i64, length: lengths[e] }
    }
}

/// The steps out of vertex `v` along the first `count` edges, in the order of the edges.
pub open spec fn adjacent_steps(
    edges: Seq<(usize, usize)>,
    lengths: Seq<u64>,
    count: int,
    v: int,
) -> Seq<EdgeStep>
    decreases count,
{
    if count <= 0 {
        Seq::empty()
    } else {
        let before = adjacent_steps(edges, lengths, count - 1, v);
        if edges[count - 1].0 == v || edges[count - 1].1 == v {
            before.push(step_along(edges, lengths, count - 1, v))
        } else {
            before
        }
    }
}

/// Whether `adjacency` lists the steps out of every vertex.
pub open spec fn is_adjacency(
    topology: MeshTopology,
    lengths: Seq<u64>,
    adjacency: Seq<Vec<EdgeStep>>,
) -> bool {
    &&& adjacency.len() == topology.vertex_count
    &&& forall|v: int|
        #![trigger steps_of(adjacency, v)]
        0 <= v < adjacency.len() ==> steps_of(adjacency, v) == adjacent_steps(
            topology.edges@,
            lengths,
            topology.edges.len() as int,
            v,
        )
}

/// Every step out of a vertex is a step along an edge that has the vertex as an end.
pub proof fn lemma_adjacent_step(
    edges: Seq<(usize, usize)>,
    lengths: Seq<u64>,
    count: int,
    v: int,
    step: EdgeStep,
)
    requires
        0 <= count <= edges.len() <= usize::MAX,
        adjacent_steps(edges, lengths, count, v).contains(step),
    ensures
        0 <= step.edge_index < count,
        edges[step.edge_index as int].0 == v || edges[step.edge_index as int].1 == v,
        step == step_along(edges, lengths, step.edge_index as int, v),
    decreases count,
{
    let all = adjacent_steps(edges, lengths, count, v);
    let i = choose|i: int| 0 <= i < all.len() && all[i] == step;
    if count > 0 {
        let before = adjacent_steps(edges, lengths, count - 1, v);
        if i < before.len() {
            assert(before[i] == step);
            assert(before.contains(step));
            lemma_adjacent_step(edges, lengths, count - 1, v, step);
        }
    }
}

/// Whether every step is along an edge of the mesh out of its vertex, with the sign of its
/// direction.
pub open spec fn steps_match(topology: MeshTopology, adjacency: Seq<Vec<EdgeStep>>) -> bool {
    &&& adjacency.len() == topology.vertex_count
    &&& forall|v: int, k: int|
        #![trigger steps_of(adjacency, v)[k]]
        0 <= v < adjacency.len() && 0 <= k < steps_of(adjacency, v).len() ==> step_matches(
            topology,
            v,
            steps_of(adjacency, v)[k],
        )
}

/// Whether a step out of `v` is along an edge of the mesh.
pub open spec fn step_matches(topology: MeshTopology, v: int, step: EdgeStep) -> bool {
    &&& step.edge_index < topology.edges.len()
    &&& (step.sign == 1 && topology.edges@[step.edge_index as int].0 == v
        && topology.edges@[step.edge_index as int].1 == step.to) || (step.sign == -1
        && topology.edges@[step.edge_index as int].1 == v
        && topology.edges@[step.edge_index as int].0 == step.to)
}

/// Whether every sign is `1` or `-1`.
pub open spec fn unit_signs(adjacency: Seq<Vec<EdgeStep>>) -> bool {
    forall|v: int, k: int|
        #![trigger steps_of(adjacency, v)[k]]
        0 <= v < adjacency.len() && 0 <= k < steps_of(adjacency, v).len() ==> steps_of(
            adjacency,
            v,
        )[k].sign == 1 || steps_of(adjacency, v)[k].sign == -1
}

proof fn lemma_adjacency_matches(
    topology: MeshTopology,
    lengths: Seq<u64>,
    adjacency: Seq<Vec<EdgeStep>>,
)
    requires
        topology.wf(),
        is_adjacency(topology, lengths, adjacency),
    ensures
        adjacency_in_range(adjacency),
        steps_match(topology, adjacency),
        unit_signs(adjacency),
{
    assert forall|v: int, k: int|
        #![trigger steps_of(adjacency, v)[k]]
        0 <= v < adjacency.len() && 0 <= k < steps_of(adjacency, v).len() implies steps_of(
        adjacency,
        v,
    )[k].to < adjacency.len() && step_matches(topology, v, steps_of(adjacency, v)[k]) by {
        let step = steps_of(adjacency, v)[k];
        assert(steps_of(adjacency, v).contains(step));
        lemma_adjacent_step(
            topology.edges@,
            lengths,
            topology.edges.len() as int,
            v,
            step,
        );
        assert(topology.edges@[step.edge_index as int].0 < topology.vertex_count);
    }
}

/// Lists the steps out of every vertex, edge by edge.
pub fn build_edge_adjacency(topology: &MeshTopology, lengths: &Vec<u64>) -> (adjacency: Vec<
    Vec<EdgeStep>,
>)
    requires
        topology.wf(),
        lengths.len() == topology.edges.len(),
    ensures
        is_adjacency(*topology, lengths@, adjacency@),
        adjacency_in_range(adjacency@),
        steps_match(*topology, adjacency@),
        unit_signs(adjacency@),
{
    let mut adjacency: Vec<Vec<EdgeStep>> = Vec::new();
    while adjacency.len() < topology.vertex_count
        invariant
            adjacency.len() <= topology.vertex_count,
            forall|v: int|
                #![trigger steps_of(adjacency@, v)]
                0 <= v < adjacency.len() ==> steps_of(adjacency@, v) == Seq::<EdgeStep>::empty(),
        decreases topology.vertex_count - adjacency.len(),
    {
        let ghost before = adjacency@;
        adjacency.push(Vec::new());
        proof {
            assert forall|v: int| 0 <= v < adjacency.len() implies #[trigger] steps_of(
                adjacency@,
                v,
            ) == Seq::<EdgeStep>::empty() by {
                if v < before.len() {
                    assert(steps_of(before, v) == Seq::<EdgeStep>::empty());
                }
            }
        }
    }
    let mut index: usize = 0;
    while index < topology.edges.len()
        invariant
            topology.wf(),
            lengths.len() == topology.edges.len(),
            index <= topology.edges.len(),
            adjacency.len() == topology.vertex_count,
            forall|v: int|
                #![trigger steps_of(adjacency@, v)]
                0 <= v < adjacency.len() ==> steps_of(adjacency@, v) == adjacent_steps(
                    topology.edges@,
                    lengths@,
                    index as int,
                    v,
                ),
        decreases topology.edges.len() - index,
    {
        let edge: (usize, usize) = topology.edges[index];
        let length: u64 = lengths[index];
        assert(topology.edges@[index as int] == edge);
        assert(edge.0 < topology.vertex_count && edge.1 < topology.vertex_count);
        let ghost before = adjacency@;
        adjacency[edge.0].push(EdgeStep { to: edge.1, edge_index: index, sign: 1, length });
        let ghost between = adjacency@;
        adjacency[edge.1].push(EdgeStep { to: edge.0, edge_index: index, sign: -1, length });
        proof {
            assert forall|v: int| 0 <= v < adjacency.len() implies #[trigger] steps_of(
                adjacency@,
                v,
            ) == adjacent_steps(topology.edges@, lengths@, index + 1, v) by {
                assert(steps_of(before, v) == adjacent_steps(
                    topology.edges@,
                    lengths@,
                    index as int,
                    v,
                ));
                if v != edge.0 && v != edge.1 {
                    assert(adjacency@[v] == before[v]);
                }
            }
        }
        index = index + 1;
    }
    proof {
        lemma_adjacency_matches(*topology, lengths@, adjacency@);
    }
    adjacency
}

/// Whether edge `e` joins the two vertices, in either direction.
pub open spec fn is_edge_between(edges: Seq<(usize, usize)>, e: int, a: usize, b: usize) -> bool {
    (edges[e].0 == a && edges[e].1 == b) || (edges[e].0 == b && edges[e].1 == a)
}

/// Finds the last edge that joins two vertices, with its own first and second vertex.
pub fn edge_lookup(topology: &MeshTopology, a: usize, b: usize) -> (found: Option<
    (usize, usize, usize),
>)
    ensures
        match found {
            Some((e, first, second)) => {
                &&& e < topology.edges.len()
                &&& topology.edges@[e as int] == (first, second)
                &&& is_edge_between(topology.edges@, e as int, a, b)
                &&& forall|later: int|
                    e < later < topology.edges.len() ==> !#[trigger] is_edge_between(
                        topology.edges@,
                        later,
                        a,
                        b,
                    )
            },
            None => forall|e: int|
                0 <= e < topology.edges.len() ==> !#[trigger] is_edge_between(
                    topology.edges@,
                    e,
                    a,
                    b,
                ),
        },
{
    let mut index: usize = topology.edges.len();
    while index > 0
        invariant
            index <= topology.edges.len(),
            forall|later: int|
                index <= later < topology.edges.len() ==> !#[trigger] is_edge_between(
                    topology.edges@,
                    later,
                    a,
                    b,
                ),
        decreases index,
    {
        index = index - 1;
        let edge: (usize, usize) = topology.edges[index];
        if (edge.0 == a && edge.1 == b) || (edge.0 == b && edge.1 == a) {
            return Some((index, edge.0, edge.1));
        }
    }
    None
}

} // verus!
