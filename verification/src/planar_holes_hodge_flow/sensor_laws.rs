//! What holds of line sensors: which vertices they run along, and what their rows read.

use super::cycles::{
    cycle_stops, describes_path, lemma_path_row_balance, lemma_without_repeats, without_repeats,
};
use super::grid::{GridPoint, LoopCandidate};
use super::holes::PlanarHoleSpec;
use super::mesh::{step_matches, steps_match, MeshTopology};
use super::path_laws::{
    comes_by, goes_round, lemma_cycle_comes_by_targets, lemma_open_path_comes_by_targets,
    nearly_straight, reads_flow_along, runs_along, straight_between_targets,
};
use super::rows::{balance_at, canonical, lemma_closed_row, pairing};
use super::sensors::{
    is_homology_pair, is_loop_row, is_path_row, is_row_of_path, PathHomologyPair, SensorRow,
};
use super::shortest_path::{
    adjacency_in_range, is_search_route, is_shortest_path, path_follows, route_between,
    route_vertex, steps_of, EdgeStep, ShortestPath,
};
use vstd::prelude::*;

verus! {

/// The row of a loop runs along a closed path of the mesh that comes by the target vertices of the
/// loop in turn, and reads of every field what flows along it. Nothing is gained or lost at any
/// vertex.
pub proof fn lemma_loop_row_goes_round(
    topology: MeshTopology,
    adjacency: Seq<Vec<EdgeStep>>,
    tolerance: int,
    prefix: Seq<char>,
    candidate: LoopCandidate,
    targets: Seq<usize>,
    number: int,
    row: SensorRow,
)
    requires
        topology.wf(),
        adjacency_in_range(adjacency),
        steps_match(topology, adjacency),
        targets.len() > 0,
        targets[0] < adjacency.len(),
        is_loop_row(adjacency, tolerance, prefix, candidate, targets, number, row),
    ensures
        exists|vertices: Seq<usize>| #[trigger]
            goes_round(adjacency, vertices, targets, tolerance) && reads_flow_along(
                topology,
                vertices,
                row.entries@,
            ),
        forall|v: int| #[trigger] balance_at(topology.edges@, row.entries@, v) == 0,
        canonical(row.entries@),
        row.entries.len() > 0,
{
    let vertices = choose|vertices: Seq<usize>| #[trigger]
        describes_path(adjacency, cycle_stops(targets), tolerance, row.entries@, vertices);
    lemma_cycle_comes_by_targets(
        topology,
        adjacency,
        targets,
        tolerance,
        row.entries@,
        vertices,
    );
    lemma_without_repeats(targets);
    let stops = cycle_stops(targets);
    assert(stops.first() == targets[0] && stops.last() == targets[0]);
    lemma_path_row_balance(topology, adjacency, stops, tolerance, row.entries@, vertices);
}

proof fn lemma_route_stays(
    adjacency: Seq<Vec<EdgeStep>>,
    start: int,
    goal: int,
    steps: Seq<EdgeStep>,
    i: int,
)
    requires
        adjacency_in_range(adjacency),
        0 <= start < adjacency.len(),
        route_between(adjacency, start, goal, steps),
        0 <= i <= steps.len(),
    ensures
        0 <= route_vertex(start, steps, i) < adjacency.len(),
    decreases i,
{
    if i > 0 {
        lemma_route_stays(adjacency, start, goal, steps, i - 1);
        let from = route_vertex(start, steps, i - 1);
        assert(steps_of(adjacency, from).contains(steps[i - 1]));
        let k = choose|k: int|
            0 <= k < steps_of(adjacency, from).len() && steps_of(adjacency, from)[k] == steps[i
                - 1];
        assert(steps_of(adjacency, from)[k].to < adjacency.len());
    }
}

/// The row of a long path runs along a path of the mesh from the first end to the second that
/// visits no vertex twice, has eight edges or more, and is nearly shortest. It reads of every field
/// what flows along the path.
pub proof fn lemma_path_row_joins_ends(
    topology: MeshTopology,
    adjacency: Seq<Vec<EdgeStep>>,
    tolerance: int,
    prefix: Seq<char>,
    cells: u32,
    pair: (GridPoint, GridPoint),
    ends: (usize, usize),
    number: int,
    row: SensorRow,
)
    requires
        adjacency_in_range(adjacency),
        steps_match(topology, adjacency),
        ends.0 < adjacency.len(),
        is_path_row(adjacency, tolerance, prefix, cells, pair, ends, number, row),
    ensures
        exists|vertices: Seq<usize>|
            {
                &&& vertices.len() >= 9
                &&& vertices[0] == ends.0
                &&& vertices[vertices.len() - 1] == ends.1
                &&& vertices.no_duplicates()
                &&& nearly_straight(adjacency, vertices, 0, vertices.len() - 1, tolerance)
                &&& #[trigger] reads_flow_along(topology, vertices, row.entries@)
            },
        canonical(row.entries@),
{
    let (start, goal) = (ends.0 as int, ends.1 as int);
    let path = choose|path: ShortestPath| #[trigger]
        is_shortest_path(adjacency, start, goal, tolerance, path) && path.edges.len() >= 8
            && is_row_of_path(path, row.entries@);
    let steps = choose|steps: Seq<EdgeStep>|
        {
            &&& #[trigger] route_between(adjacency, start, goal, steps)
            &&& path_follows(path, start, steps)
            &&& is_search_route(adjacency, start, goal, tolerance, steps)
        };
    let vertices = path.vertices@;
    let edges = path.edges@;
    assert(vertices[0] == route_vertex(start, steps, 0));
    assert(vertices[vertices.len() - 1] == route_vertex(start, steps, steps.len() as int));
    assert forall|i: int| 0 <= i < edges.len() implies (#[trigger] edges[i]).0
        < topology.edges.len() && (if edges[i].1 == 1 {
        topology.edges@[edges[i].0 as int] == (vertices[i], vertices[i + 1])
    } else {
        edges[i].1 == -1 && topology.edges@[edges[i].0 as int] == (vertices[i + 1], vertices[i])
    }) by {
        let from = route_vertex(start, steps, i);
        lemma_route_stays(adjacency, start, goal, steps, i);
        assert(vertices[i] == from);
        assert(vertices[i + 1] == route_vertex(start, steps, i + 1));
        assert(steps_of(adjacency, from).contains(steps[i]));
        let k = choose|k: int|
            0 <= k < steps_of(adjacency, from).len() && steps_of(adjacency, from)[k] == steps[i];
        assert(step_matches(topology, from, steps_of(adjacency, from)[k]));
    }
    assert(runs_along(topology, vertices, edges));
    assert(nearly_straight(adjacency, vertices, 0, vertices.len() - 1, tolerance)) by {
        assert(route_between(
            adjacency,
            vertices[0] as int,
            vertices[vertices.len() - 1] as int,
            steps,
        ));
        assert forall|i: int| 0 <= i < steps.len() implies (#[trigger] steps[i]).to == vertices[0
            + i + 1] by {
            assert(vertices[i + 1] == route_vertex(start, steps, i + 1));
        }
    }
    assert(reads_flow_along(topology, vertices, row.entries@));
}

/// Whether a row reads what flows along an open path of the mesh that comes by the targets in
/// turn, from the first to the last.
pub open spec fn reads_path_by(
    topology: MeshTopology,
    adjacency: Seq<Vec<EdgeStep>>,
    targets: Seq<usize>,
    tolerance: int,
    entries: Seq<(usize, i64)>,
) -> bool {
    exists|vertices: Seq<usize>, places: Seq<int>|
        {
            &&& #[trigger] comes_by(vertices, targets, places)
            &&& places[0] == 0
            &&& places[targets.len() - 1] == vertices.len() - 1
            &&& straight_between_targets(adjacency, vertices, targets, places, tolerance)
            &&& reads_flow_along(topology, vertices, entries)
        }
}

/// The two paths of a pair lead from the same vertex to the same vertex, one by the targets above
/// the hole and one by those below it. The contrast reads of every field what flows along the
/// upper path less what flows along the lower one, and nothing is gained or lost at any vertex.
pub proof fn lemma_pair_passes_on_both_sides(
    topology: MeshTopology,
    adjacency: Seq<Vec<EdgeStep>>,
    tolerance: int,
    family: Seq<char>,
    hole_index: int,
    hole: PlanarHoleSpec,
    upper_targets: Seq<usize>,
    lower_targets: Seq<usize>,
    pair: PathHomologyPair,
)
    requires
        topology.wf(),
        adjacency_in_range(adjacency),
        steps_match(topology, adjacency),
        upper_targets.len() > 0,
        lower_targets.len() > 0,
        upper_targets[0] < adjacency.len(),
        lower_targets[0] < adjacency.len(),
        is_homology_pair(
            topology,
            adjacency,
            tolerance,
            family,
            hole_index,
            hole,
            upper_targets,
            lower_targets,
            pair,
        ),
    ensures
        pair.hole_index == hole_index,
        pair.hole_name@ == hole.name@,
        upper_targets[0] == lower_targets[0] == pair.shared_start_vertex,
        upper_targets.last() == lower_targets.last() == pair.shared_end_vertex,
        reads_path_by(topology, adjacency, upper_targets, tolerance, pair.upper.entries@),
        reads_path_by(topology, adjacency, lower_targets, tolerance, pair.lower.entries@),
        forall|field: spec_fn(int) -> int| #[trigger]
            pairing(pair.contrast.entries@, field) + pairing(pair.lower.entries@, field) == pairing(
                pair.upper.entries@,
                field,
            ),
        forall|v: int|
            0 <= v < topology.vertex_count ==> #[trigger] balance_at(
                topology.edges@,
                pair.contrast.entries@,
                v,
            ) == 0,
{
    reveal(is_homology_pair);
    let above = choose|vertices: Seq<usize>| #[trigger]
        describes_path(
            adjacency,
            without_repeats(upper_targets),
            tolerance,
            pair.upper.entries@,
            vertices,
        );
    let below = choose|vertices: Seq<usize>| #[trigger]
        describes_path(
            adjacency,
            without_repeats(lower_targets),
            tolerance,
            pair.lower.entries@,
            vertices,
        );
    lemma_open_path_comes_by_targets(
        topology,
        adjacency,
        upper_targets,
        tolerance,
        pair.upper.entries@,
        above,
    );
    lemma_open_path_comes_by_targets(
        topology,
        adjacency,
        lower_targets,
        tolerance,
        pair.lower.entries@,
        below,
    );
    lemma_closed_row(topology, pair.contrast.entries@);
}

} // verus!
