//! What holds of the paths through target vertices: they come by every target in turn, on nearly
//! shortest pieces, and their rows read the flow along their vertices.

use super::cycles::{
    cycle_stops, describes_path, edges_of, joined, legs_between, stops_reachable, vertices_follow,
    without_repeats,
};
use super::hole_cycles::{
    are_hole_cycles, family_in_range, is_hole_cycle, targets_in_range, CycleFamily,
    PlanarHoleCycle, SignedMatrix,
};
use super::holes::PlanarHoleSpec;
use super::mesh::{step_matches, steps_match, MeshTopology};
use super::rows::pairing;
use super::sensors::open_path_exists;
use super::shortest_path::{
    adjacency_in_range, reachable, route_between, route_length, route_vertex, steps_of, EdgeStep,
};
use vstd::prelude::*;

verus! {

/// Whether the path stands at each of the targets at the place that is given for it, and the
/// places do not go back.
pub open spec fn comes_by(vertices: Seq<usize>, targets: Seq<usize>, places: Seq<int>) -> bool {
    &&& places.len() == targets.len()
    &&& forall|i: int|
        #![trigger places[i]]
        0 <= i < places.len() ==> 0 <= places[i] < vertices.len() && vertices[places[i]]
            == targets[i]
    &&& forall|i: int, j: int|
        0 <= i <= j < places.len() ==> #[trigger] places[i] <= #[trigger] places[j]
}

/// Whether the path goes from one place to another along steps of the graph, and no other way
/// between the two vertices is shorter by more than `tolerance` for each of its steps.
pub open spec fn nearly_straight(
    adjacency: Seq<Vec<EdgeStep>>,
    vertices: Seq<usize>,
    from: int,
    to: int,
    tolerance: int,
) -> bool {
    exists|steps: Seq<EdgeStep>|
        {
            &&& #[trigger] route_between(
                adjacency,
                vertices[from] as int,
                vertices[to] as int,
                steps,
            )
            &&& steps.len() == to - from
            &&& forall|i: int|
                0 <= i < steps.len() ==> (#[trigger] steps[i]).to == vertices[from + i + 1]
            &&& forall|other: Seq<EdgeStep>| #[trigger]
                route_between(adjacency, vertices[from] as int, vertices[to] as int, other)
                    ==> route_length(steps, steps.len() as int) <= route_length(
                    other,
                    other.len() as int,
                ) + other.len() * tolerance
        }
}

/// Whether the path goes from target to target on nearly shortest pieces, and waits where a target
/// is given twice in a row.
pub open spec fn straight_between_targets(
    adjacency: Seq<Vec<EdgeStep>>,
    vertices: Seq<usize>,
    targets: Seq<usize>,
    places: Seq<int>,
    tolerance: int,
) -> bool {
    forall|i: int|
        #![trigger places[i]]
        0 <= i < targets.len() - 1 ==> if targets[i] == targets[i + 1] {
            places[i + 1] == places[i]
        } else {
            nearly_straight(adjacency, vertices, places[i], places[i + 1], tolerance)
        }
}

/// Whether each of the signed edges joins a vertex of the path with the next one: forwards where
/// its sign is 1, and backwards where it is -1.
pub open spec fn runs_along(
    topology: MeshTopology,
    vertices: Seq<usize>,
    edges: Seq<(usize, i64)>,
) -> bool {
    &&& edges.len() == vertices.len() - 1
    &&& forall|i: int|
        #![trigger edges[i]]
        0 <= i < edges.len() ==> edges[i].0 < topology.edges.len() && (if edges[i].1 == 1 {
            topology.edges@[edges[i].0 as int] == (vertices[i], vertices[i + 1])
        } else {
            edges[i].1 == -1 && topology.edges@[edges[i].0 as int] == (vertices[i + 1], vertices[i])
        })
}

/// Whether a row reads of every field what flows along the path.
pub open spec fn reads_flow_along(
    topology: MeshTopology,
    vertices: Seq<usize>,
    entries: Seq<(usize, i64)>,
) -> bool {
    exists|edges: Seq<(usize, i64)>| #[trigger]
        runs_along(topology, vertices, edges) && forall|field: spec_fn(int) -> int| #[trigger]
            pairing(entries, field) == pairing(edges, field)
}

/// Whether a closed path comes by every target, in the order in which they are given, on nearly
/// shortest pieces, and goes back from the last to the first on a further such piece.
pub open spec fn goes_round(
    adjacency: Seq<Vec<EdgeStep>>,
    vertices: Seq<usize>,
    targets: Seq<usize>,
    tolerance: int,
) -> bool {
    &&& vertices[vertices.len() - 1] == targets[0]
    &&& exists|places: Seq<int>|
        {
            &&& #[trigger] comes_by(vertices, targets, places)
            &&& places[0] == 0
            &&& straight_between_targets(adjacency, vertices, targets, places, tolerance)
            &&& nearly_straight(
                adjacency,
                vertices,
                places[targets.len() - 1],
                vertices.len() - 1,
                tolerance,
            )
        }
}

/// The place of an item among the items without repeats.
spec fn kept_place(items: Seq<usize>, i: int) -> int {
    without_repeats(items.take(i + 1)).len() - 1
}

/// Leaving out repeats from the front of a list gives the front of the list without repeats.
proof fn lemma_front_without_repeats(items: Seq<usize>, count: int)
    requires
        0 <= count <= items.len(),
    ensures
        without_repeats(items.take(count)).len() <= without_repeats(items).len(),
        forall|k: int|
            0 <= k < without_repeats(items.take(count)).len() ==> #[trigger] without_repeats(
                items.take(count),
            )[k] == without_repeats(items)[k],
    decreases items.len(),
{
    if count == items.len() {
        assert(items.take(count) =~= items);
    } else if items.len() > 1 {
        let shorter = items.drop_last();
        lemma_front_without_repeats(shorter, count);
        assert(shorter.take(count) =~= items.take(count));
        assert forall|k: int|
            0 <= k < without_repeats(items.take(count)).len() implies #[trigger] without_repeats(
            items.take(count),
        )[k] == without_repeats(items)[k] by {
            assert(without_repeats(shorter.take(count))[k] == without_repeats(shorter)[k]);
        }
    } else {
        assert(items.take(count) =~= Seq::empty());
    }
}

/// Every item is kept: it stands in the list without repeats, where the item before it stands if
/// the two are equal, and one place further else.
proof fn lemma_kept_place(items: Seq<usize>, i: int)
    requires
        0 <= i < items.len(),
    ensures
        0 <= kept_place(items, i) < without_repeats(items).len(),
        without_repeats(items)[kept_place(items, i)] == items[i],
        i == 0 ==> kept_place(items, i) == 0,
        i > 0 ==> kept_place(items, i) == kept_place(items, i - 1) + (if items[i - 1] == items[i] {
            0int
        } else {
            1int
        }),
        i == items.len() - 1 ==> kept_place(items, i) == without_repeats(items).len() - 1,
    decreases i,
{
    let front = items.take(i + 1);
    lemma_front_without_repeats(items, i + 1);
    assert(front.last() == items[i]);
    if i > 0 {
        lemma_kept_place(items, i - 1);
        assert(front.drop_last() =~= items.take(i));
        assert(front[front.len() - 2] == items[i - 1]);
        let before = without_repeats(items.take(i));
        assert(before.len() == kept_place(items, i - 1) + 1);
        if items[i - 1] == items[i] {
            assert(without_repeats(front) == before);
        } else {
            assert(without_repeats(front) == before.push(items[i]));
            assert(without_repeats(front)[before.len() as int] == items[i]);
        }
    } else {
        assert(front =~= seq![items[0]]);
        assert(without_repeats(front)[0] == items[0]);
    }
    if i == items.len() - 1 {
        assert(front =~= items);
    }
}

/// A list without repeats has no two equal neighbours; it has a single item if and only if all
/// items of the list are equal.
pub proof fn lemma_no_equal_neighbours(items: Seq<usize>)
    ensures
        forall|k: int|
            0 <= k < without_repeats(items).len() - 1 ==> #[trigger] without_repeats(items)[k]
                != without_repeats(items)[k + 1],
        items.len() > 0 ==> (without_repeats(items).len() < 2 <==> forall|i: int|
            0 <= i < items.len() ==> #[trigger] items[i] == items[0]),
    decreases items.len(),
{
    if items.len() > 1 {
        let shorter = items.drop_last();
        lemma_no_equal_neighbours(shorter);
        lemma_kept_place(shorter, shorter.len() - 1);
        let (kept, before) = (without_repeats(items), without_repeats(shorter));
        assert(before[before.len() - 1] == items[items.len() - 2]);
        assert forall|k: int| 0 <= k < kept.len() - 1 implies #[trigger] kept[k] != kept[k + 1] by {
            assert(kept[k] == before[k]);
            if k + 1 < before.len() {
                assert(kept[k + 1] == before[k + 1]);
            }
        }
        if kept.len() < 2 {
            assert forall|i: int| 0 <= i < items.len() implies #[trigger] items[i] == items[0] by {
                if i < shorter.len() {
                    assert(shorter[i] == shorter[0]);
                } else {
                    assert(shorter[shorter.len() - 1] == shorter[0]);
                }
            }
        }
        if forall|i: int| 0 <= i < items.len() ==> #[trigger] items[i] == items[0] {
            assert forall|i: int| 0 <= i < shorter.len() implies #[trigger] shorter[i]
                == shorter[0] by {
                assert(items[i] == items[0]);
            }
            assert(items[items.len() - 1] == items[0] && items[items.len() - 2] == items[0]);
        }
    }
}

/// The pieces of a path between its stops.
proof fn lemma_pieces(
    adjacency: Seq<Vec<EdgeStep>>,
    stops: Seq<usize>,
    tolerance: int,
    legs: Seq<Seq<EdgeStep>>,
    vertices: Seq<usize>,
    k: int,
)
    requires
        legs.len() == stops.len() - 1,
        legs_between(adjacency, stops, tolerance, legs),
        vertices_follow(vertices, stops[0] as int, joined(legs, legs.len() as int)),
        0 <= k < stops.len(),
    ensures
        0 <= joined(legs, k).len() < vertices.len(),
        vertices[joined(legs, k).len() as int] == stops[k],
        k < stops.len() - 1 ==> joined(legs, k).len() <= joined(legs, k + 1).len()
            && nearly_straight(
            adjacency,
            vertices,
            joined(legs, k).len() as int,
            joined(legs, k + 1).len() as int,
            tolerance,
        ),
    decreases stops.len() - k,
{
    let whole = joined(legs, legs.len() as int);
    lemma_joined_front(legs, k, legs.len() as int);
    let from = joined(legs, k).len() as int;
    if k > 0 {
        assert(route_between(adjacency, stops[k - 1] as int, stops[k] as int, legs[k - 1]));
        lemma_end_of_legs(adjacency, stops, tolerance, legs, k);
        if from > 0 {
            assert(joined(legs, k)[from - 1] == whole[from - 1]);
        }
        assert(vertices[from] == route_vertex(stops[0] as int, whole, from));
    } else {
        assert(vertices[0] == route_vertex(stops[0] as int, whole, 0));
    }
    if k < stops.len() - 1 {
        lemma_pieces(adjacency, stops, tolerance, legs, vertices, k + 1);
        lemma_joined_front(legs, k + 1, legs.len() as int);
        let steps = legs[k];
        let next = joined(legs, k + 1);
        assert(next == joined(legs, k) + steps);
        assert(route_between(adjacency, stops[k] as int, stops[k + 1] as int, steps));
        assert forall|i: int| 0 <= i < steps.len() implies (#[trigger] steps[i]).to == vertices[from
            + i + 1] by {
            assert(next[from + i] == steps[i]);
            assert(whole[from + i] == next[from + i]);
            assert(vertices[from + i + 1] == route_vertex(stops[0] as int, whole, from + i + 1));
        }
        assert(nearly_straight(adjacency, vertices, from, next.len() as int, tolerance));
    }
}

/// The front of the legs put together is the front of all legs put together.
proof fn lemma_joined_front(legs: Seq<Seq<EdgeStep>>, count: int, total: int)
    requires
        0 <= count <= total <= legs.len(),
    ensures
        joined(legs, count).len() <= joined(legs, total).len(),
        forall|i: int|
            0 <= i < joined(legs, count).len() ==> #[trigger] joined(legs, count)[i] == joined(
                legs,
                total,
            )[i],
    decreases total,
{
    if count < total {
        lemma_joined_front(legs, count, total - 1);
        assert forall|i: int| 0 <= i < joined(legs, count).len() implies #[trigger] joined(
            legs,
            count,
        )[i] == joined(legs, total)[i] by {
            assert(joined(legs, total)[i] == joined(legs, total - 1)[i]);
        }
    }
}

/// The legs up to a stop end at the stop.
proof fn lemma_end_of_legs(
    adjacency: Seq<Vec<EdgeStep>>,
    stops: Seq<usize>,
    tolerance: int,
    legs: Seq<Seq<EdgeStep>>,
    count: int,
)
    requires
        legs.len() == stops.len() - 1,
        legs_between(adjacency, stops, tolerance, legs),
        0 <= count <= legs.len(),
    ensures
        route_vertex(stops[0] as int, joined(legs, count), joined(legs, count).len() as int)
            == stops[count],
    decreases count,
{
    if count > 0 {
        lemma_end_of_legs(adjacency, stops, tolerance, legs, count - 1);
        let steps = legs[count - 1];
        assert(route_between(adjacency, stops[count - 1] as int, stops[count] as int, steps));
        let all = joined(legs, count);
        if steps.len() > 0 {
            assert(all[all.len() - 1] == steps[steps.len() - 1]);
        } else {
            assert(all =~= joined(legs, count - 1));
        }
    }
}

/// The legs put together are a route, each step of which leaves a vertex of the graph.
proof fn lemma_steps_leave_vertices(
    adjacency: Seq<Vec<EdgeStep>>,
    stops: Seq<usize>,
    tolerance: int,
    legs: Seq<Seq<EdgeStep>>,
    count: int,
    i: int,
)
    requires
        adjacency_in_range(adjacency),
        legs.len() == stops.len() - 1,
        legs_between(adjacency, stops, tolerance, legs),
        stops[0] < adjacency.len(),
        0 <= count <= legs.len(),
        0 <= i < joined(legs, count).len(),
    ensures
        ({
            let from = route_vertex(stops[0] as int, joined(legs, count), i);
            &&& 0 <= from < adjacency.len()
            &&& steps_of(adjacency, from).contains(joined(legs, count)[i])
        }),
    decreases count, i,
{
    let all = joined(legs, count);
    let before = joined(legs, count - 1);
    let steps = legs[count - 1];
    assert(all == before + steps);
    if i < before.len() {
        lemma_steps_leave_vertices(adjacency, stops, tolerance, legs, count - 1, i);
        assert(route_vertex(stops[0] as int, all, i) == route_vertex(stops[0] as int, before, i));
    } else {
        let j = i - before.len();
        let start = stops[count - 1] as int;
        assert(route_between(adjacency, start, stops[count] as int, steps));
        lemma_end_of_legs(adjacency, stops, tolerance, legs, count - 1);
        assert(route_vertex(stops[0] as int, all, i) == route_vertex(start, steps, j)) by {
            if j == 0 {
                if i > 0 {
                    assert(all[i - 1] == before[i - 1]);
                }
            } else {
                assert(all[i - 1] == steps[j - 1]);
            }
        }
        assert(steps_of(adjacency, route_vertex(start, steps, j)).contains(steps[j]));
        let from = route_vertex(stops[0] as int, all, i);
        if i > 0 {
            lemma_steps_leave_vertices(adjacency, stops, tolerance, legs, count, i - 1);
            let last = route_vertex(stops[0] as int, all, i - 1);
            let k = choose|k: int|
                0 <= k < steps_of(adjacency, last).len() && steps_of(adjacency, last)[k] == all[i
                    - 1];
            assert(steps_of(adjacency, last)[k].to < adjacency.len());
        }
    }
}

/// A row that describes a path reads what flows along its vertices.
proof fn lemma_row_along_path(
    topology: MeshTopology,
    adjacency: Seq<Vec<EdgeStep>>,
    stops: Seq<usize>,
    tolerance: int,
    entries: Seq<(usize, i64)>,
    vertices: Seq<usize>,
)
    requires
        adjacency_in_range(adjacency),
        steps_match(topology, adjacency),
        stops.len() > 0,
        stops[0] < adjacency.len(),
        describes_path(adjacency, stops, tolerance, entries, vertices),
    ensures
        reads_flow_along(topology, vertices, entries),
{
    let legs = choose|legs: Seq<Seq<EdgeStep>>|
        {
            &&& legs.len() == stops.len() - 1
            &&& #[trigger] legs_between(adjacency, stops, tolerance, legs)
            &&& forall|field: spec_fn(int) -> int| #[trigger]
                pairing(entries, field) == pairing(
                    edges_of(joined(legs, legs.len() as int)),
                    field,
                )
            &&& vertices_follow(vertices, stops[0] as int, joined(legs, legs.len() as int))
        };
    let steps = joined(legs, legs.len() as int);
    let edges = edges_of(steps);
    assert forall|i: int| 0 <= i < edges.len() implies (#[trigger] edges[i]).0
        < topology.edges.len() && (if edges[i].1 == 1 {
        topology.edges@[edges[i].0 as int] == (vertices[i], vertices[i + 1])
    } else {
        edges[i].1 == -1 && topology.edges@[edges[i].0 as int] == (vertices[i + 1], vertices[i])
    }) by {
        lemma_steps_leave_vertices(adjacency, stops, tolerance, legs, legs.len() as int, i);
        let from = route_vertex(stops[0] as int, steps, i);
        assert(vertices[i] == from);
        assert(vertices[i + 1] == route_vertex(stops[0] as int, steps, i + 1));
        let k = choose|k: int|
            0 <= k < steps_of(adjacency, from).len() && steps_of(adjacency, from)[k] == steps[i];
        assert(step_matches(topology, from, steps_of(adjacency, from)[k]));
    }
    assert(runs_along(topology, vertices, edges));
}

/// A path whose first stops are the targets without repeats comes by the targets in turn, on
/// nearly shortest pieces.
proof fn lemma_comes_by(
    adjacency: Seq<Vec<EdgeStep>>,
    targets: Seq<usize>,
    stops: Seq<usize>,
    tolerance: int,
    entries: Seq<(usize, i64)>,
    vertices: Seq<usize>,
) -> (places: Seq<int>)
    requires
        targets.len() > 0,
        without_repeats(targets).len() <= stops.len(),
        stops.len() <= without_repeats(targets).len() + 1,
        forall|k: int|
            0 <= k < without_repeats(targets).len() ==> #[trigger] stops[k] == without_repeats(
                targets,
            )[k],
        describes_path(adjacency, stops, tolerance, entries, vertices),
    ensures
        comes_by(vertices, targets, places),
        places[0] == 0,
        straight_between_targets(adjacency, vertices, targets, places, tolerance),
        vertices[vertices.len() - 1] == stops[stops.len() - 1],
        stops.len() == without_repeats(targets).len() ==> places[targets.len() - 1]
            == vertices.len() - 1,
        stops.len() == without_repeats(targets).len() + 1 ==> nearly_straight(
            adjacency,
            vertices,
            places[targets.len() - 1],
            vertices.len() - 1,
            tolerance,
        ),
{
    let legs = choose|legs: Seq<Seq<EdgeStep>>|
        {
            &&& legs.len() == stops.len() - 1
            &&& #[trigger] legs_between(adjacency, stops, tolerance, legs)
            &&& forall|field: spec_fn(int) -> int| #[trigger]
                pairing(entries, field) == pairing(
                    edges_of(joined(legs, legs.len() as int)),
                    field,
                )
            &&& vertices_follow(vertices, stops[0] as int, joined(legs, legs.len() as int))
        };
    let places = Seq::new(
        targets.len(),
        |i: int| joined(legs, kept_place(targets, i)).len() as int,
    );
    assert forall|i: int| 0 <= i < places.len() implies 0 <= #[trigger] places[i] < vertices.len()
        && vertices[places[i]] == targets[i] by {
        lemma_kept_place(targets, i);
        lemma_pieces(adjacency, stops, tolerance, legs, vertices, kept_place(targets, i));
    }
    assert forall|i: int, j: int| 0 <= i <= j < places.len() implies #[trigger] places[i]
        <= #[trigger] places[j] by {
        lemma_kept_places_rise(targets, i, j);
        lemma_kept_place(targets, i);
        lemma_kept_place(targets, j);
        lemma_joined_front(legs, kept_place(targets, i), kept_place(targets, j));
    }
    assert forall|i: int| #![trigger places[i]] 0 <= i < targets.len() - 1 implies if targets[i]
        == targets[i + 1] {
        places[i + 1] == places[i]
    } else {
        nearly_straight(adjacency, vertices, places[i], places[i + 1], tolerance)
    } by {
        lemma_kept_place(targets, i);
        lemma_kept_place(targets, i + 1);
        lemma_pieces(adjacency, stops, tolerance, legs, vertices, kept_place(targets, i));
    }
    let last = targets.len() - 1;
    lemma_kept_place(targets, 0);
    lemma_kept_place(targets, last);
    lemma_pieces(adjacency, stops, tolerance, legs, vertices, legs.len() as int);
    lemma_pieces(adjacency, stops, tolerance, legs, vertices, kept_place(targets, last));
    places
}

proof fn lemma_kept_places_rise(items: Seq<usize>, i: int, j: int)
    requires
        0 <= i <= j < items.len(),
    ensures
        kept_place(items, i) <= kept_place(items, j),
    decreases j,
{
    if i < j {
        lemma_kept_places_rise(items, i, j - 1);
        lemma_kept_place(items, j);
    }
}

/// A closed path around a hole comes by every target vertex, in the order in which they are given,
/// on nearly shortest pieces; a last such piece leads from the last target back to the first. Its
/// row reads of every field what flows along the path.
pub proof fn lemma_cycle_comes_by_targets(
    topology: MeshTopology,
    adjacency: Seq<Vec<EdgeStep>>,
    targets: Seq<usize>,
    tolerance: int,
    entries: Seq<(usize, i64)>,
    vertices: Seq<usize>,
)
    requires
        adjacency_in_range(adjacency),
        steps_match(topology, adjacency),
        targets.len() > 0,
        targets[0] < adjacency.len(),
        describes_path(adjacency, cycle_stops(targets), tolerance, entries, vertices),
    ensures
        goes_round(adjacency, vertices, targets, tolerance),
        reads_flow_along(topology, vertices, entries),
{
    lemma_kept_place(targets, 0);
    let places = lemma_comes_by(
        adjacency,
        targets,
        cycle_stops(targets),
        tolerance,
        entries,
        vertices,
    );
    assert(comes_by(vertices, targets, places));
    lemma_row_along_path(
        topology,
        adjacency,
        cycle_stops(targets),
        tolerance,
        entries,
        vertices,
    );
}

/// An open path comes by every target vertex, in the order in which they are given, on nearly
/// shortest pieces, and ends at the last. Its row reads of every field what flows along the path.
pub proof fn lemma_open_path_comes_by_targets(
    topology: MeshTopology,
    adjacency: Seq<Vec<EdgeStep>>,
    targets: Seq<usize>,
    tolerance: int,
    entries: Seq<(usize, i64)>,
    vertices: Seq<usize>,
)
    requires
        adjacency_in_range(adjacency),
        steps_match(topology, adjacency),
        targets.len() > 0,
        targets[0] < adjacency.len(),
        describes_path(adjacency, without_repeats(targets), tolerance, entries, vertices),
    ensures
        exists|places: Seq<int>|
            {
                &&& #[trigger] comes_by(vertices, targets, places)
                &&& places[0] == 0
                &&& straight_between_targets(adjacency, vertices, targets, places, tolerance)
                &&& places[targets.len() - 1] == vertices.len() - 1
            },
        reads_flow_along(topology, vertices, entries),
{
    lemma_kept_place(targets, 0);
    let places = lemma_comes_by(
        adjacency,
        targets,
        without_repeats(targets),
        tolerance,
        entries,
        vertices,
    );
    assert(comes_by(vertices, targets, places));
    lemma_row_along_path(
        topology,
        adjacency,
        without_repeats(targets),
        tolerance,
        entries,
        vertices,
    );
}

/// The rows of the matrix of a family of cycles stand in the order of the holes. Row for row, the
/// cycle goes round by the targets that the family has for the hole, the row reads of every field
/// what flows along the cycle, and it lists the edges on which the flow does not cancel, each once,
/// as many as the cycle counts.
pub proof fn lemma_matrix_reads_cycles(
    topology: MeshTopology,
    adjacency: Seq<Vec<EdgeStep>>,
    tolerance: int,
    holes: Seq<PlanarHoleSpec>,
    family: CycleFamily,
    matrix: SignedMatrix,
    cycles: Seq<PlanarHoleCycle>,
    h: int,
)
    requires
        adjacency_in_range(adjacency),
        steps_match(topology, adjacency),
        family_in_range(family, holes.len(), adjacency.len()),
        are_hole_cycles(topology, adjacency, tolerance, holes, family, matrix, cycles),
        0 <= h < holes.len(),
        family.target_vertices@[h].len() > 0,
    ensures
        matrix.rows.len() == holes.len() && cycles.len() == holes.len(),
        cycles[h].hole_index == h,
        goes_round(
            adjacency,
            cycles[h].path_vertices@,
            family.target_vertices@[h]@,
            tolerance,
        ),
        reads_flow_along(topology, cycles[h].path_vertices@, matrix.rows@[h]@),
        forall|i: int, j: int|
            0 <= i < j < matrix.rows@[h].len() ==> (#[trigger] matrix.rows@[h]@[i]).0 < (
            #[trigger] matrix.rows@[h]@[j]).0,
        forall|i: int|
            0 <= i < matrix.rows@[h].len() ==> (#[trigger] matrix.rows@[h]@[i]).1 != 0
                && matrix.rows@[h]@[i].0 < matrix.column_count,
        cycles[h].edge_count == matrix.rows@[h].len(),
        matrix.column_count == topology.edges.len(),
        cycles[h].radius == family.radii@[h] && cycles[h].angle_offset == family.angle_offset,
        cycles[h].name@ == cycles[h].family@ + "_"@ + holes[h].name@,
        cycles[h].family@ == family.name@,
{
    reveal(is_hole_cycle);
    let cycle = cycles[h];
    assert(targets_in_range(family.target_vertices@[h]@, adjacency.len()));
    lemma_cycle_comes_by_targets(
        topology,
        adjacency,
        family.target_vertices@[h]@,
        tolerance,
        matrix.rows@[h]@,
        cycle.path_vertices@,
    );
}

/// Two neighbours in the list without repeats are neighbours in the list.
proof fn lemma_kept_neighbours(items: Seq<usize>, k: int) -> (i: int)
    requires
        0 <= k < without_repeats(items).len() - 1,
    ensures
        0 <= i < items.len() - 1,
        items[i] == without_repeats(items)[k],
        items[i + 1] == without_repeats(items)[k + 1],
    decreases items.len(),
{
    let shorter = items.drop_last();
    let (kept, before) = (without_repeats(items), without_repeats(shorter));
    if k + 1 < before.len() {
        let i = lemma_kept_neighbours(shorter, k);
        assert(kept[k] == before[k] && kept[k + 1] == before[k + 1]);
        assert(shorter[i] == items[i] && shorter[i + 1] == items[i + 1]);
        i
    } else {
        lemma_kept_place(shorter, shorter.len() - 1);
        assert(kept == before.push(items.last()));
        assert(kept[k] == before[k]);
        assert(before[k] == items[items.len() - 2]);
        items.len() - 2
    }
}

/// Whether every target can be reached from the one before it.
pub open spec fn each_reaches_next(adjacency: Seq<Vec<EdgeStep>>, targets: Seq<usize>) -> bool {
    forall|i: int|
        #![trigger targets[i]]
        0 <= i < targets.len() - 1 ==> reachable(
            adjacency,
            targets[i] as int,
            targets[i + 1] as int,
        )
}

/// An open path through the targets exists if and only if they are not all the same vertex and
/// every target can be reached from the one before it.
pub proof fn lemma_open_path_exists(adjacency: Seq<Vec<EdgeStep>>, targets: Seq<usize>)
    requires
        targets.len() > 0,
    ensures
        open_path_exists(adjacency, targets) <==> (exists|i: int|
            0 <= i < targets.len() && #[trigger] targets[i] != targets[0]) && each_reaches_next(
            adjacency,
            targets,
        ),
{
    lemma_no_equal_neighbours(targets);
    lemma_legs_exist(adjacency, targets);
}

/// The stops can be joined if and only if every target can be reached from the one before it.
proof fn lemma_legs_exist(adjacency: Seq<Vec<EdgeStep>>, targets: Seq<usize>)
    requires
        targets.len() > 0,
    ensures
        stops_reachable(
            adjacency,
            without_repeats(targets),
            without_repeats(targets).len() - 1,
        ) <==> each_reaches_next(adjacency, targets),
{
    let stops = without_repeats(targets);
    if stops_reachable(adjacency, stops, stops.len() - 1) {
        assert forall|i: int|
            #![trigger targets[i]]
            0 <= i < targets.len() - 1 implies reachable(
            adjacency,
            targets[i] as int,
            targets[i + 1] as int,
        ) by {
            lemma_kept_place(targets, i);
            lemma_kept_place(targets, i + 1);
            if targets[i] == targets[i + 1] {
                assert(route_between(
                    adjacency,
                    targets[i] as int,
                    targets[i + 1] as int,
                    Seq::empty(),
                ));
            } else {
                assert(stops[kept_place(targets, i)] == targets[i]);
            }
        }
    }
    if each_reaches_next(adjacency, targets) {
        assert forall|k: int|
            #![trigger stops[k]]
            0 <= k < stops.len() - 1 implies reachable(
            adjacency,
            stops[k] as int,
            stops[k + 1] as int,
        ) by {
            let i = lemma_kept_neighbours(targets, k);
            assert(targets[i] == stops[k]);
        }
    }
}

/// A closed path through the targets exists if and only if they are not all the same vertex, every
/// target can be reached from the one before it, and the first from the last.
pub proof fn lemma_cycle_exists(adjacency: Seq<Vec<EdgeStep>>, targets: Seq<usize>)
    requires
        targets.len() > 0,
    ensures
        without_repeats(targets).len() >= 2 && stops_reachable(
            adjacency,
            cycle_stops(targets),
            cycle_stops(targets).len() - 1,
        ) <==> (exists|i: int| 0 <= i < targets.len() && #[trigger] targets[i] != targets[0])
            && each_reaches_next(adjacency, targets) && reachable(
            adjacency,
            targets.last() as int,
            targets[0] as int,
        ),
{
    let kept = without_repeats(targets);
    let stops = cycle_stops(targets);
    lemma_no_equal_neighbours(targets);
    lemma_legs_exist(adjacency, targets);
    lemma_kept_place(targets, 0);
    lemma_kept_place(targets, targets.len() - 1);
    assert(stops.len() == kept.len() + 1);
    assert(kept[0] == targets[0]);
    assert(kept[kept.len() - 1] == targets.last());
    assert(stops[kept.len() - 1] == targets.last() && stops[kept.len() as int] == targets[0]);
    assert forall|k: int| 0 <= k < kept.len() implies #[trigger] stops[k] == kept[k] by {}
    if stops_reachable(adjacency, stops, stops.len() - 1) {
        assert(reachable(
            adjacency,
            stops[kept.len() - 1] as int,
            stops[kept.len() - 1 + 1] as int,
        ));
        assert forall|k: int|
            #![trigger kept[k]]
            0 <= k < kept.len() - 1 implies reachable(
            adjacency,
            kept[k] as int,
            kept[k + 1] as int,
        ) by {
            assert(stops[k] == kept[k]);
            assert(stops[k + 1] == kept[k + 1]);
        }
    }
    if stops_reachable(adjacency, kept, kept.len() - 1) && reachable(
        adjacency,
        targets.last() as int,
        targets[0] as int,
    ) {
        assert forall|k: int|
            #![trigger stops[k]]
            0 <= k < stops.len() - 1 implies reachable(
            adjacency,
            stops[k] as int,
            stops[k + 1] as int,
        ) by {
            if k < kept.len() - 1 {
                assert(stops[k] == kept[k]);
                assert(stops[k + 1] == kept[k + 1]);
            }
        }
    }
}

} // verus!
