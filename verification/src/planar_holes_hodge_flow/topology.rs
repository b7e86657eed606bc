//! What is counted of a mesh, and what the domain has to look like.

use super::components::{
    component_anchors, component_count, component_system, has_component_count, is_component_minimum,
    representative,
};
use super::mesh::{boundary_edge_indices, on_boundary, MeshTopology};
use crate::text::{count_text, decimal};
use vstd::prelude::*;

verus! {

/// The counts of a mesh, and the numbers that they determine: the Euler characteristic and the
/// Betti numbers of a domain in the plane.
#[derive(Debug, Clone, Copy, PartialEq, Eq, Structural)]
pub struct PlanarHolesTopologySummary {
    pub vertex_count: usize,
    pub edge_count: usize,
    pub face_count: usize,
    pub euler_characteristic: isize,
    pub b0: usize,
    pub b1: usize,
    pub b2: usize,
    pub boundary_edge_count: usize,
}

/// Counts the connected components of a mesh.
pub fn connected_component_count(topology: &MeshTopology) -> (count: usize)
    requires
        topology.wf(),
    ensures
        has_component_count(topology.vertex_count as nat, topology.edges@, count as nat),
        count <= topology.vertex_count,
        topology.vertex_count > 0 ==> count > 0,
{
    component_count(topology.vertex_count, &topology.edges)
}

/// Picks the smallest vertex of every connected component, in the order of the components'
/// representatives.
pub fn connected_component_vertex_anchors_local(topology: &MeshTopology) -> (anchors: Vec<usize>)
    requires
        topology.wf(),
    ensures
        component_system(topology.vertex_count as nat, topology.edges@, anchors@),
        forall|i: int|
            0 <= i < anchors.len() ==> is_component_minimum(
                topology.edges@,
                #[trigger] anchors@[i] as int,
            ),
        forall|i: int, j: int|
            0 <= i < j < anchors.len() ==> representative(
                topology.edges@,
                topology.edges@.len(),
                #[trigger] anchors@[i] as int,
            ) < representative(
                topology.edges@,
                topology.edges@.len(),
                #[trigger] anchors@[j] as int,
            ),
{
    component_anchors(topology.vertex_count, &topology.edges)
}

/// The number of edges that bound the mesh.
pub open spec fn boundary_edge_total(topology: MeshTopology, count: int) -> int
    decreases count,
{
    if count <= 0 {
        0
    } else {
        boundary_edge_total(topology, count - 1) + (if on_boundary(topology, count - 1) {
            1int
        } else {
            0int
        })
    }
}

/// The larger of two numbers.
pub open spec fn larger(left: int, right: int) -> int {
    if left < right {
        right
    } else {
        left
    }
}

/// Whether the summary holds the counts of the mesh.
pub open spec fn summarizes(summary: PlanarHolesTopologySummary, topology: MeshTopology) -> bool {
    &&& summary.vertex_count == topology.vertex_count
    &&& summary.edge_count == topology.edges.len()
    &&& summary.face_count == topology.cells.len()
    &&& summary.euler_characteristic == topology.vertex_count - topology.edges.len()
        + topology.cells.len()
    &&& has_component_count(
        topology.vertex_count as nat,
        topology.edges@,
        summary.b0 as nat,
    )
    &&& summary.b2 == 0
    &&& summary.b1 == larger(summary.b0 - summary.euler_characteristic, 0)
    &&& summary.boundary_edge_count == boundary_edge_total(topology, topology.edges.len() as int)
}

/// Counts the edges that bound the mesh.
fn count_boundary_edges(topology: &MeshTopology) -> (count: usize)
    ensures
        count == boundary_edge_total(*topology, topology.edges.len() as int),
{
    let boundary = boundary_edge_indices(topology);
    let mut count: usize = 0;
    let mut index: usize = 0;
    while index < topology.edges.len()
        invariant
            index <= topology.edges.len(),
            count <= index,
            boundary.wf(),
            forall|e: usize| #[trigger]
                boundary@.contains(e) <==> e < topology.edges.len() && on_boundary(
                    *topology,
                    e as int,
                ),
            count == boundary_edge_total(*topology, index as int),
        decreases topology.edges.len() - index,
    {
        if boundary.contains(index) {
            count = count + 1;
        }
        index = index + 1;
    }
    count
}

/// Counts a mesh.
pub fn summarize_topology(topology: &MeshTopology) -> (summary: PlanarHolesTopologySummary)
    requires
        topology.wf(),
        topology.vertex_count + topology.cells.len() <= isize::MAX,
        topology.edges.len() <= isize::MAX,
    ensures
        summarizes(summary, *topology),
{
    let vertex_count: usize = topology.vertex_count;
    let edge_count: usize = topology.edges.len();
    let face_count: usize = topology.cells.len();
    let euler_characteristic: isize = vertex_count as isize - edge_count as isize
        + face_count as isize;
    let b0: usize = connected_component_count(topology);
    let difference: i128 = b0 as i128 - euler_characteristic as i128;
    let b1: usize = if difference > 0 {
        difference as usize
    } else {
        0
    };
    PlanarHolesTopologySummary {
        vertex_count,
        edge_count,
        face_count,
        euler_characteristic,
        b0,
        b1,
        b2: 0,
        boundary_edge_count: count_boundary_edges(topology),
    }
}

/// A summary of a mesh whose first Betti number is not cut off at zero satisfies the Euler
/// relation; and summaries of one mesh are equal.
pub proof fn lemma_euler_relation(
    topology: MeshTopology,
    summary: PlanarHolesTopologySummary,
    other: PlanarHolesTopologySummary,
)
    requires
        summarizes(summary, topology),
        summarizes(other, topology),
    ensures
        summary.euler_characteristic <= summary.b0 ==> summary.euler_characteristic == summary.b0
            - summary.b1 + summary.b2,
        summary == other,
{
    super::components::lemma_component_count_unique(
        topology.vertex_count as nat,
        topology.edges@,
        summary.b0 as nat,
        other.b0 as nat,
    );
}

/// What is wrong with the domain, if anything: it has to be connected, with three holes and a
/// boundary.
pub open spec fn topology_message(summary: PlanarHolesTopologySummary) -> Option<Seq<char>> {
    if summary.b0 != 1 || summary.b1 != 3 || summary.b2 != 0 {
        Some(
            "expected connected planar domain with three holes (b0=1,b1=3,b2=0), got b0="@
                + decimal(summary.b0 as nat) + " b1="@ + decimal(summary.b1 as nat) + " b2="@
                + decimal(summary.b2 as nat),
        )
    } else if summary.boundary_edge_count == 0 {
        Some("planar holes domain should have boundary edges"@)
    } else {
        None
    }
}

/// Checks that the domain is connected and has three holes and a boundary.
pub fn validate_topology(summary: &PlanarHolesTopologySummary) -> (result: Result<(), String>)
    ensures
        match result {
            Ok(_) => topology_message(*summary) is None,
            Err(message) => topology_message(*summary) == Some(message@),
        },
{
    if summary.b0 != 1 || summary.b1 != 3 || summary.b2 != 0 {
        let mut message = String::from_str(
            "expected connected planar domain with three holes (b0=1,b1=3,b2=0), got b0=",
        );
        message.append(count_text(summary.b0).as_str());
        message.append(" b1=");
        message.append(count_text(summary.b1).as_str());
        message.append(" b2=");
        message.append(count_text(summary.b2).as_str());
        return Err(message);
    }
    if summary.boundary_edge_count == 0 {
        return Err(String::from_str("planar holes domain should have boundary edges"));
    }
    Ok(())
}

/// Which rows stay when the anchors are taken out of a square system: the others, in order.
pub open spec fn kept_indices(dimension: nat, anchors: Seq<usize>) -> Seq<int> {
    Seq::new(dimension, |i: int| i).filter(|i: int| !anchors.contains(i as usize))
}

/// What is wrong with the anchors of a system, if anything.
pub open spec fn anchor_message(
    row_count: nat,
    column_count: nat,
    anchors: Seq<usize>,
    message: Seq<char>,
) -> bool {
    if row_count != column_count {
        message == "exact branch source precision must be square, got "@ + decimal(row_count)
            + "x"@ + decimal(column_count)
    } else if anchors.len() == 0 {
        message == "exact branch needs at least one vertex anchor"@
    } else {
        exists|i: int|
            #![trigger anchors[i]]
            0 <= i < anchors.len() && anchors[i] >= row_count && (forall|j: int|
                0 <= j < i ==> #[trigger] anchors[j] < row_count) && message
                == "exact branch anchor "@ + decimal(anchors[i] as nat)
                + " is out of bounds for "@ + decimal(row_count) + " vertices"@
    }
}

/// Chooses the rows that stay when the anchors are taken out of a square system of the given
/// shape.
pub fn anchor_exact_0form_branch(row_count: usize, column_count: usize, anchors: &Vec<usize>) -> (result:
    Result<Vec<usize>, String>)
    ensures
        result is Ok <==> row_count == column_count && anchors.len() > 0 && forall|i: int|
            0 <= i < anchors.len() ==> #[trigger] anchors@[i] < row_count,
        match result {
            Ok(kept) => {
                &&& kept.len() == kept_indices(row_count as nat, anchors@).len()
                &&& forall|i: int|
                    0 <= i < kept.len() ==> #[trigger] kept@[i] == kept_indices(
                        row_count as nat,
                        anchors@,
                    )[i]
            },
            Err(message) => anchor_message(
                row_count as nat,
                column_count as nat,
                anchors@,
                message@,
            ),
        },
{
    if row_count != column_count {
        let mut message = String::from_str("exact branch source precision must be square, got ");
        message.append(count_text(row_count).as_str());
        message.append("x");
        message.append(count_text(column_count).as_str());
        return Err(message);
    }
    if anchors.len() == 0 {
        return Err(String::from_str("exact branch needs at least one vertex anchor"));
    }
    let mut is_anchor: Vec<bool> = Vec::new();
    while is_anchor.len() < row_count
        invariant
            is_anchor.len() <= row_count,
            forall|i: int| 0 <= i < is_anchor.len() ==> !#[trigger] is_anchor@[i],
        decreases row_count - is_anchor.len(),
    {
        is_anchor.push(false);
    }
    let mut index: usize = 0;
    while index < anchors.len()
        invariant
            row_count == column_count,
            anchors.len() > 0,
            index <= anchors.len(),
            is_anchor.len() == row_count,
            forall|i: int| 0 <= i < index ==> #[trigger] anchors@[i] < row_count,
            forall|v: int|
                #![trigger is_anchor@[v]]
                0 <= v < row_count ==> (is_anchor@[v] <==> exists|i: int|
                    0 <= i < index && #[trigger] anchors@[i] == v),
        decreases anchors.len() - index,
    {
        let anchor: usize = anchors[index];
        assert(anchors@[index as int] == anchor);
        if anchor >= row_count {
            let mut message = String::from_str("exact branch anchor ");
            message.append(count_text(anchor).as_str());
            message.append(" is out of bounds for ");
            message.append(count_text(row_count).as_str());
            message.append(" vertices");
            return Err(message);
        }
        is_anchor.set(anchor, true);
        index = index + 1;
    }
    let ghost keep = |i: int| !anchors@.contains(i as usize);
    let ghost all = Seq::new(row_count as nat, |i: int| i);
    let mut kept: Vec<usize> = Vec::new();
    let mut row: usize = 0;
    proof {
        reveal(Seq::filter);
        assert(all.take(0).filter(keep) =~= Seq::<int>::empty());
    }
    while row < row_count
        invariant
            row <= row_count,
            is_anchor.len() == row_count,
            all == Seq::new(row_count as nat, |i: int| i),
            keep == (|i: int| !anchors@.contains(i as usize)),
            forall|v: int|
                #![trigger is_anchor@[v]]
                0 <= v < row_count ==> (is_anchor@[v] <==> exists|i: int|
                    0 <= i < anchors.len() && #[trigger] anchors@[i] == v),
            kept.len() == all.take(row as int).filter(keep).len(),
            forall|i: int|
                0 <= i < kept.len() ==> #[trigger] kept@[i] == all.take(row as int).filter(
                    keep,
                )[i],
        decreases row_count - row,
    {
        proof {
            reveal(Seq::filter);
            assert(all.take(row + 1).drop_last() =~= all.take(row as int));
            assert(all.take(row + 1).last() == row as int);
            assert(keep(row as int) == !is_anchor@[row as int]) by {
                if anchors@.contains(row) {
                    let i = choose|i: int| 0 <= i < anchors@.len() && anchors@[i] == row;
                    assert(anchors@[i] == row as int);
                }
                if is_anchor@[row as int] {
                    let i = choose|i: int| 0 <= i < anchors.len() && #[trigger] anchors@[i] == row as int;
                    assert(anchors@[i] == row);
                }
            }
        }
        if !is_anchor[row] {
            kept.push(row);
        }
        row = row + 1;
    }
    assert(all.take(row as int) =~= all);
    Ok(kept)
}

} // verus!
