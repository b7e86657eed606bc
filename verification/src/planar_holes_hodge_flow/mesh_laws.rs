//! What holds of the steps between the vertices of a mesh, of its boundary, of the sides of its
//! triangles, of the unknowns that stay when some are fixed, of the eigenvalues that are reported,
//! and of the elements of a mesh file.

use super::fields::{above_part, are_extremes, side};
use super::mesh::{
    adjacent_steps, is_adjacency, lemma_adjacent_step, on_boundary, MeshTopology,
};
use super::mesh_file::{cell_kind, cells_of, elements_of_kind, node_total, nodes_of_kind};
use super::shortest_path::{steps_of, EdgeStep};
use super::topology::{boundary_edge_total, kept_indices};
use crate::order::{is_sorted_copy, lemma_filter_keeps_places};
use crate::scalar::Scalar;
use vstd::prelude::*;

verus! {

/// The edges of the steps out of a vertex rise, and there is a step along every edge that has the
/// vertex as an end.
proof fn lemma_steps_rise(
    edges: Seq<(usize, usize)>,
    lengths: Seq<u64>,
    count: int,
    v: int,
)
    requires
        0 <= count <= edges.len() <= usize::MAX,
    ensures
        forall|i: int, j: int|
            0 <= i < j < adjacent_steps(edges, lengths, count, v).len() ==> (
            #[trigger] adjacent_steps(edges, lengths, count, v)[i]).edge_index < (
            #[trigger] adjacent_steps(edges, lengths, count, v)[j]).edge_index,
        forall|e: int|
            #![trigger edges[e]]
            0 <= e < count && (edges[e].0 == v || edges[e].1 == v) ==> exists|k: int|
                0 <= k < adjacent_steps(edges, lengths, count, v).len() && (
                #[trigger] adjacent_steps(edges, lengths, count, v)[k]).edge_index == e,
    decreases count,
{
    if count > 0 {
        lemma_steps_rise(edges, lengths, count - 1, v);
        let before = adjacent_steps(edges, lengths, count - 1, v);
        let all = adjacent_steps(edges, lengths, count, v);
        assert forall|i: int, j: int| 0 <= i < j < all.len() implies (#[trigger] all[i]).edge_index
            < (#[trigger] all[j]).edge_index by {
            assert(all[i] == before[i]);
            if j < before.len() {
                assert(all[j] == before[j]);
            } else {
                assert(before.contains(before[i]));
                lemma_adjacent_step(edges, lengths, count - 1, v, before[i]);
            }
        }
        assert forall|e: int|
            #![trigger edges[e]]
            0 <= e < count && (edges[e].0 == v || edges[e].1 == v) implies exists|k: int|
            0 <= k < all.len() && (#[trigger] all[k]).edge_index == e by {
            if e < count - 1 {
                let k = choose|k: int|
                    0 <= k < before.len() && (#[trigger] before[k]).edge_index == e;
                assert(all[k] == before[k]);
            } else {
                assert(all[before.len() as int].edge_index == e);
            }
        }
    }
}

/// Whether a step out of a vertex goes along an edge to its other end: with sign 1 where the edge
/// points away from the vertex, with sign -1 where it points to it, and over its whole length.
pub open spec fn goes_along(
    topology: MeshTopology,
    lengths: Seq<u64>,
    v: int,
    e: int,
    step: EdgeStep,
) -> bool {
    &&& step.edge_index == e
    &&& step.length == lengths[e]
    &&& step.sign == 1 ==> topology.edges@[e] == (v as usize, step.to)
    &&& step.sign != 1 ==> step.sign == -1 && topology.edges@[e] == (step.to, v as usize)
}

/// Out of every vertex there is exactly one step along each edge that ends or starts there, and no
/// other: it goes to the other end. The steps come in the order of the edges.
pub proof fn lemma_steps_go_along_edges(
    topology: MeshTopology,
    lengths: Seq<u64>,
    adjacency: Seq<Vec<EdgeStep>>,
    v: int,
)
    requires
        topology.wf(),
        is_adjacency(topology, lengths, adjacency),
        0 <= v < topology.vertex_count,
    ensures
        forall|k: int|
            #![trigger steps_of(adjacency, v)[k]]
            0 <= k < steps_of(adjacency, v).len() ==> 0 <= steps_of(adjacency, v)[k].edge_index
                < topology.edges.len() && goes_along(
                topology,
                lengths,
                v,
                steps_of(adjacency, v)[k].edge_index as int,
                steps_of(adjacency, v)[k],
            ),
        forall|i: int, j: int|
            0 <= i < j < steps_of(adjacency, v).len() ==> (#[trigger] steps_of(
                adjacency,
                v,
            )[i]).edge_index < (#[trigger] steps_of(adjacency, v)[j]).edge_index,
        forall|e: int|
            #![trigger topology.edges@[e]]
            0 <= e < topology.edges.len() && (topology.edges@[e].0 == v || topology.edges@[e].1
                == v) ==> exists|k: int|
                0 <= k < steps_of(adjacency, v).len() && #[trigger] goes_along(
                    topology,
                    lengths,
                    v,
                    e,
                    steps_of(adjacency, v)[k],
                ),
{
    let edges = topology.edges@;
    let steps = steps_of(adjacency, v);
    assert(steps == adjacent_steps(edges, lengths, edges.len() as int, v));
    lemma_steps_rise(edges, lengths, edges.len() as int, v);
    assert forall|k: int| #![trigger steps[k]] 0 <= k < steps.len() implies 0
        <= steps[k].edge_index < edges.len() && goes_along(
        topology,
        lengths,
        v,
        steps[k].edge_index as int,
        steps[k],
    ) by {
        assert(steps.contains(steps[k]));
        lemma_adjacent_step(edges, lengths, edges.len() as int, v, steps[k]);
    }
    assert forall|e: int|
        #![trigger topology.edges@[e]]
        0 <= e < edges.len() && (edges[e].0 == v || edges[e].1 == v) implies exists|k: int|
        0 <= k < steps.len() && #[trigger] goes_along(topology, lengths, v, e, steps[k]) by {
        let k = choose|k: int|
            0 <= k < adjacent_steps(edges, lengths, edges.len() as int, v).len() && (
            #[trigger] adjacent_steps(edges, lengths, edges.len() as int, v)[k]).edge_index == e;
        assert(goes_along(topology, lengths, v, e, steps[k]));
    }
}

/// Every step can be taken back: a step out of a vertex has a step out of the vertex that it leads
/// to, along the same edge, over the same length, and with the other sign.
pub proof fn lemma_steps_can_be_taken_back(
    topology: MeshTopology,
    lengths: Seq<u64>,
    adjacency: Seq<Vec<EdgeStep>>,
    v: int,
    k: int,
)
    requires
        topology.wf(),
        is_adjacency(topology, lengths, adjacency),
        0 <= v < topology.vertex_count,
        0 <= k < steps_of(adjacency, v).len(),
    ensures
        ({
            let step = steps_of(adjacency, v)[k];
            &&& step.to != v
            &&& step.to < topology.vertex_count
            &&& steps_of(adjacency, step.to as int).contains(
                EdgeStep { to: v as usize, sign: (-step.sign) as i64, ..step },
            )
        }),
{
    let step = steps_of(adjacency, v)[k];
    lemma_steps_go_along_edges(topology, lengths, adjacency, v);
    let e = step.edge_index as int;
    assert(goes_along(topology, lengths, v, e, step));
    let w = step.to as int;
    assert(topology.edges@[e].0 != topology.edges@[e].1);
    assert(w < topology.vertex_count);
    lemma_steps_go_along_edges(topology, lengths, adjacency, w);
    let back = choose|i: int|
        0 <= i < steps_of(adjacency, w).len() && #[trigger] goes_along(
            topology,
            lengths,
            w,
            e,
            steps_of(adjacency, w)[i],
        );
    let other = steps_of(adjacency, w)[back];
    assert(goes_along(topology, lengths, w, e, other));
    assert(other == EdgeStep { to: v as usize, sign: (-step.sign) as i64, ..step });
    assert(steps_of(adjacency, w).contains(other));
}

/// The number of boundary edges is that of the edges on the boundary: there is a list of them in
/// increasing order that has as many, and it holds every one.
pub proof fn lemma_boundary_edges_counted(topology: MeshTopology, count: int) -> (listed: Seq<int>)
    requires
        0 <= count <= topology.edges.len(),
    ensures
        listed.len() == boundary_edge_total(topology, count),
        forall|i: int, j: int|
            0 <= i < j < listed.len() ==> #[trigger] listed[i] < #[trigger] listed[j],
        forall|e: int| #[trigger]
            listed.contains(e) <==> 0 <= e < count && on_boundary(topology, e),
    decreases count,
{
    if count <= 0 {
        Seq::empty()
    } else {
        let before = lemma_boundary_edges_counted(topology, count - 1);
        let listed = if on_boundary(topology, count - 1) {
            before.push(count - 1)
        } else {
            before
        };
        assert forall|i: int, j: int| 0 <= i < j < listed.len() implies #[trigger] listed[i]
            < #[trigger] listed[j] by {
            assert(before.contains(before[i]));
            assert(listed[i] == before[i]);
            if j < before.len() {
                assert(listed[j] == before[j]);
            }
        }
        assert forall|e: int| #[trigger]
            listed.contains(e) <==> 0 <= e < count && on_boundary(topology, e) by {
            if before.contains(e) {
                let i = choose|i: int| 0 <= i < before.len() && before[i] == e;
                assert(listed[i] == e);
            }
            if e == count - 1 && on_boundary(topology, e) {
                assert(listed[before.len() as int] == e);
            }
            if listed.contains(e) {
                let i = choose|i: int| 0 <= i < listed.len() && listed[i] == e;
                if i < before.len() {
                    assert(before[i] == e);
                }
            }
        }
        listed
    }
}

/// The unknowns that stay when anchors are fixed are all others, in increasing order.
pub proof fn lemma_anchors_are_left_out(dimension: nat, anchors: Seq<usize>)
    requires
        dimension <= usize::MAX,
    ensures
        forall|i: int, j: int|
            0 <= i < j < kept_indices(dimension, anchors).len() ==> #[trigger] kept_indices(
                dimension,
                anchors,
            )[i] < #[trigger] kept_indices(dimension, anchors)[j],
        forall|i: int|
            0 <= i < dimension ==> (#[trigger] kept_indices(dimension, anchors).contains(i) <==> (
            forall|k: int| 0 <= k < anchors.len() ==> #[trigger] anchors[k] != i)),
        forall|i: int| #[trigger]
            kept_indices(dimension, anchors).contains(i) ==> 0 <= i < dimension,
{
    let all = Seq::new(dimension, |i: int| i);
    let keeps = |i: int| !anchors.contains(i as usize);
    let kept = kept_indices(dimension, anchors);
    let places = lemma_filter_keeps_places(all, keeps);
    assert forall|i: int, j: int| 0 <= i < j < kept.len() implies #[trigger] kept[i]
        < #[trigger] kept[j] by {
        assert(places[i] < places[j]);
    }
    assert forall|i: int| #[trigger] kept.contains(i) implies 0 <= i < dimension by {
        let k = choose|k: int| 0 <= k < kept.len() && kept[k] == i;
        assert(kept[k] == all[places[k]]);
    }
    assert forall|i: int| 0 <= i < dimension implies (#[trigger] kept.contains(i) <==> (forall|
        k: int,
    |
        0 <= k < anchors.len() ==> #[trigger] anchors[k] != i)) by {
        assert(all[i] == i);
        if kept.contains(i) {
            let k = choose|k: int| 0 <= k < kept.len() && kept[k] == i;
            assert(places.contains(places[k]));
            assert(keeps(all[places[k]]));
            assert forall|n: int| 0 <= n < anchors.len() implies #[trigger] anchors[n] != i by {
                assert(anchors.contains(anchors[n]));
            }
        }
        if forall|n: int| 0 <= n < anchors.len() ==> #[trigger] anchors[n] != i {
            assert(keeps(i)) by {
                if anchors.contains(i as usize) {
                    let n = choose|n: int| 0 <= n < anchors.len() && anchors[n] == i as usize;
                    assert(anchors[n] != i);
                }
            }
            assert(places.contains(i));
            let k = choose|k: int| 0 <= k < places.len() && places[k] == i;
            assert(kept[k] == i);
        }
    }
}

/// The three sides of a triangle lead around it: each leads from a corner to the next one, and the
/// last back to the first. So every two corners are the ends of one side.
pub proof fn lemma_sides_go_round(cell: Seq<usize>, number: int)
    requires
        cell.len() == 3,
        0 <= number < 3,
    ensures
        side(cell, number).0 == cell[number],
        side(cell, number).1 == side(cell, (number + 1) % 3).0,
        forall|i: int, j: int|
            0 <= i < j < 3 ==> exists|n: int|
                0 <= n < 3 && (#[trigger] side(cell, n) == (#[trigger] cell[i], #[trigger] cell[j])
                    || side(cell, n) == (cell[j], cell[i])),
{
    assert forall|i: int, j: int| 0 <= i < j < 3 implies exists|n: int|
        0 <= n < 3 && (#[trigger] side(cell, n) == (#[trigger] cell[i], #[trigger] cell[j]) || side(
            cell,
            n,
        ) == (cell[j], cell[i])) by {
        let n: int = if i == 0 && j == 1 {
            0
        } else if i == 1 {
            1
        } else {
            2
        };
        assert(side(cell, n) == (cell[i], cell[j]) || side(cell, n) == (cell[j], cell[i]));
    }
}

/// The extremes of positive eigenvalues bound all that are finite and positive, as many as are
/// counted, and are two of them.
pub proof fn lemma_extremes_bound_eigenvalues(
    values: Seq<Scalar>,
    extremes: (usize, Scalar, Scalar),
)
    requires
        are_extremes(values, extremes),
    ensures
        extremes.0 == 0 <==> forall|i: int|
            0 <= i < values.len() ==> !(#[trigger] values[i]).finite() || values[i].rank()
                <= 0x3d71_9799_812d_ea11,
        extremes.0 == 0 ==> extremes.1.nan() && extremes.2.nan(),
        extremes.0 > 0 ==> values.contains(extremes.1) && values.contains(extremes.2),
        extremes.0 > 0 ==> forall|i: int|
            0 <= i < values.len() && (#[trigger] values[i]).finite() && values[i].rank()
                > 0x3d71_9799_812d_ea11 ==> extremes.1.le(values[i]) && values[i].le(extremes.2),
{
    let least = Scalar { bits: 0x3d71_9799_812d_ea11 };
    let keeps = |value: Scalar| value.finite() && least.lt(value);
    let part = above_part(values, least);
    assert(part == values.filter(keeps));
    let places = lemma_filter_keeps_places(values, keeps);
    if part.len() == 0 {
        assert forall|i: int| 0 <= i < values.len() implies !(#[trigger] values[i]).finite()
            || values[i].rank() <= 0x3d71_9799_812d_ea11 by {
            if keeps(values[i]) {
                assert(places.contains(i));
            }
        }
    } else {
        assert(places.contains(places[0]));
        assert(keeps(values[places[0]]));
        broadcast use vstd::seq_lib::group_to_multiset_ensures;

        let sorted = choose|sorted: Seq<Scalar>| #[trigger]
            is_sorted_copy(part, sorted) && extremes.1 == sorted[0] && extremes.2
                == sorted[sorted.len() - 1];
        assert(sorted.to_multiset().len() == part.to_multiset().len());
        assert(sorted.len() == part.len());
        assert forall|x: Scalar| #[trigger] sorted.contains(x) <==> part.contains(x) by {
            assert(sorted.contains(x) <==> sorted.to_multiset().count(x) > 0);
            assert(part.contains(x) <==> part.to_multiset().count(x) > 0);
        }
        assert(sorted.contains(sorted[0]) && sorted.contains(sorted[sorted.len() - 1]));
        assert forall|x: Scalar| #[trigger] part.contains(x) implies values.contains(x)
            && !x.nan() by {
            let i = choose|i: int| 0 <= i < part.len() && part[i] == x;
            assert(places.contains(places[i]));
            assert(values[places[i]] == x);
        }
        assert forall|i: int|
            0 <= i < values.len() && (#[trigger] values[i]).finite() && values[i].rank()
                > 0x3d71_9799_812d_ea11 implies extremes.1.le(values[i]) && values[i].le(
            extremes.2,
        ) by {
            assert(keeps(values[i]));
            assert(places.contains(i));
            let k = choose|k: int| 0 <= k < places.len() && places[k] == i;
            assert(part[k] == values[i]);
            assert(part.contains(values[i]));
            assert(sorted.contains(values[i]));
            let p = choose|p: int| 0 <= p < sorted.len() && sorted[p] == values[i];
            if p > 0 {
                assert(sorted[0].rank() <= sorted[p].rank());
            }
            if p < sorted.len() - 1 {
                assert(sorted[p].rank() <= sorted[sorted.len() - 1].rank());
            }
        }
    }
}

/// The elements of a kind are those of the blocks of that kind, and no others.
pub proof fn lemma_elements_of_kind(blocks: Seq<(i32, Seq<Seq<u64>>)>, kind: i32, element: Seq<u64>)
    ensures
        elements_of_kind(blocks, kind).contains(element) <==> exists|b: int|
            0 <= b < blocks.len() && (#[trigger] blocks[b]).0 == kind && blocks[b].1.contains(
                element,
            ),
    decreases blocks.len(),
{
    if blocks.len() > 0 {
        let shorter = blocks.drop_last();
        let before = elements_of_kind(shorter, kind);
        let all = elements_of_kind(blocks, kind);
        let last = blocks.last();
        lemma_elements_of_kind(shorter, kind, element);
        if all.contains(element) {
            let i = choose|i: int| 0 <= i < all.len() && all[i] == element;
            if i < before.len() {
                assert(before[i] == element);
                assert(before.contains(element));
                let b = choose|b: int|
                    0 <= b < shorter.len() && (#[trigger] shorter[b]).0 == kind
                        && shorter[b].1.contains(element);
                assert(blocks[b] == shorter[b]);
            } else {
                assert(last.1[i - before.len()] == element);
                assert(blocks[blocks.len() - 1].1.contains(element));
            }
        }
        if exists|b: int|
            0 <= b < blocks.len() && (#[trigger] blocks[b]).0 == kind && blocks[b].1.contains(
                element,
            ) {
            let b = choose|b: int|
                0 <= b < blocks.len() && (#[trigger] blocks[b]).0 == kind && blocks[b].1.contains(
                    element,
                );
            if b < shorter.len() {
                assert(shorter[b] == blocks[b]);
                let i = choose|i: int| 0 <= i < before.len() && before[i] == element;
                assert(all[i] == element);
            } else {
                let i = choose|i: int| 0 <= i < last.1.len() && last.1[i] == element;
                assert(all[before.len() + i] == element);
            }
        }
    }
}

/// The cells of a file are its tetrahedra if it has any, else its triangles if it has any, else its
/// lines: no element of more corners is passed over.
pub proof fn lemma_cells_have_most_corners(blocks: Seq<(i32, Seq<Seq<u64>>)>)
    ensures
        cells_of(blocks) == elements_of_kind(blocks, cell_kind(blocks)),
        nodes_of_kind(cell_kind(blocks)) >= 2,
        forall|kind: i32|
            #![trigger elements_of_kind(blocks, kind)]
            nodes_of_kind(kind) > nodes_of_kind(cell_kind(blocks)) ==> elements_of_kind(
                blocks,
                kind,
            ).len() == 0,
        forall|kind: i32|
            #![trigger elements_of_kind(blocks, kind)]
            nodes_of_kind(kind) >= 2 && elements_of_kind(blocks, kind).len() > 0 ==> cells_of(
                blocks,
            ).len() > 0,
{
}

/// The nodes of all blocks together are counted block by block.
pub proof fn lemma_nodes_add_up(counts: Seq<usize>, more: Seq<usize>)
    ensures
        node_total(counts + more) == node_total(counts) + node_total(more),
    decreases more.len(),
{
    if more.len() > 0 {
        lemma_nodes_add_up(counts, more.drop_last());
        assert((counts + more).drop_last() =~= counts + more.drop_last());
    } else {
        assert(counts + more =~= counts);
    }
}

} // verus!
