//! Rows along closed and open paths through given vertices.

use super::mesh::{step_matches, steps_match, unit_signs, MeshTopology};
use super::rows::{
    add_entry, balance_at, canonical, closure_residual, entries_in_range, incidence,
    lemma_canonical_in_range, lemma_closed_row, lemma_pairing_concat, lemma_pairing_push,
    lemma_weight_of_entry, nonzero_entries, pairing, row_mass, sorted_entries, weight_at,
    weights_within,
};
use super::shortest_path::{
    adjacency_in_range, is_route, is_search_route, no_path_text, path_follows, reachable,
    route_between, route_vertex, shortest_path, steps_of, EdgeStep, ShortestPath,
};
use vstd::prelude::*;

verus! {

/// The items with each run of equal neighbours reduced to one.
pub open spec fn without_repeats(items: Seq<usize>) -> Seq<usize>
    decreases items.len(),
{
    if items.len() <= 1 {
        items
    } else if items.last() == items[items.len() - 2] {
        without_repeats(items.drop_last())
    } else {
        without_repeats(items.drop_last()).push(items.last())
    }
}

/// Leaving out repeats keeps the first and the last item, and adds none.
pub proof fn lemma_without_repeats(items: Seq<usize>)
    ensures
        without_repeats(items).len() <= items.len(),
        items.len() > 0 ==> without_repeats(items).len() > 0 && without_repeats(items).last()
            == items.last() && without_repeats(items).first() == items.first(),
        forall|i: int|
            0 <= i < without_repeats(items).len() ==> items.contains(
                #[trigger] without_repeats(items)[i],
            ),
    decreases items.len(),
{
    if items.len() > 1 {
        let shorter = items.drop_last();
        lemma_without_repeats(shorter);
        assert forall|i: int| 0 <= i < without_repeats(items).len() implies items.contains(
            #[trigger] without_repeats(items)[i],
        ) by {
            if i < without_repeats(shorter).len() {
                assert(without_repeats(shorter)[i] == without_repeats(items)[i]);
                assert(shorter.contains(without_repeats(shorter)[i]));
                let j = choose|j: int|
                    0 <= j < shorter.len() && shorter[j] == without_repeats(shorter)[i];
                assert(items[j] == shorter[j]);
            } else {
                assert(items[items.len() - 1] == items.last());
            }
        }
    } else {
        assert forall|i: int| 0 <= i < without_repeats(items).len() implies items.contains(
            #[trigger] without_repeats(items)[i],
        ) by {
            assert(items[i] == items[i]);
        }
    }
}

fn dedup_vertices(items: &Vec<usize>) -> (kept: Vec<usize>)
    ensures
        kept@ == without_repeats(items@),
{
    let mut kept: Vec<usize> = Vec::new();
    let mut index: usize = 0;
    proof {
        assert(items@.take(0) =~= Seq::<usize>::empty());
    }
    while index < items.len()
        invariant
            index <= items.len(),
            kept@ == without_repeats(items@.take(index as int)),
        decreases items.len() - index,
    {
        let item: usize = items[index];
        proof {
            let next = items@.take(index + 1);
            assert(next.drop_last() =~= items@.take(index as int));
            assert(next.last() == item);
            if index > 0 {
                assert(next[next.len() - 2] == items@[index - 1]);
            } else {
                assert(without_repeats(next) =~= kept@.push(item));
            }
        }
        if index == 0 || items[index - 1] != item {
            kept.push(item);
        }
        index = index + 1;
    }
    assert(items@.take(index as int) =~= items@);
    kept
}

/// The signed edges of a route.
pub open spec fn edges_of(steps: Seq<EdgeStep>) -> Seq<(usize, i64)> {
    steps.map_values(|step: EdgeStep| (step.edge_index, step.sign))
}

/// The first `count` routes, one after the other.
pub open spec fn joined(legs: Seq<Seq<EdgeStep>>, count: int) -> Seq<EdgeStep>
    decreases count,
{
    if count <= 0 {
        Seq::empty()
    } else {
        joined(legs, count - 1) + legs[count - 1]
    }
}

/// Whether the legs lead from each stop to the next on the nearly shortest routes that a search
/// finds.
pub open spec fn legs_between(
    adjacency: Seq<Vec<EdgeStep>>,
    stops: Seq<usize>,
    tolerance: int,
    legs: Seq<Seq<EdgeStep>>,
) -> bool {
    forall|i: int|
        #![trigger legs[i]]
        0 <= i < legs.len() ==> route_between(
            adjacency,
            stops[i] as int,
            stops[i + 1] as int,
            legs[i],
        ) && is_search_route(
            adjacency,
            stops[i] as int,
            stops[i + 1] as int,
            tolerance,
            legs[i],
        )
}

/// Whether each stop can be reached from the one before it, for the first `count` stops after
/// the first.
pub open spec fn stops_reachable(
    adjacency: Seq<Vec<EdgeStep>>,
    stops: Seq<usize>,
    count: int,
) -> bool {
    forall|i: int|
        #![trigger stops[i]]
        0 <= i < count ==> reachable(adjacency, stops[i] as int, stops[i + 1] as int)
}

/// Whether `vertices` are the vertices of the route from `start`.
pub open spec fn vertices_follow(
    vertices: Seq<usize>,
    start: int,
    steps: Seq<EdgeStep>,
) -> bool {
    &&& vertices.len() == steps.len() + 1
    &&& forall|i: int|
        0 <= i < vertices.len() ==> #[trigger] vertices[i] == route_vertex(start, steps, i)
}

/// Whether a row and a list of vertices describe a path through all stops on nearly shortest
/// routes.
pub open spec fn describes_path(
    adjacency: Seq<Vec<EdgeStep>>,
    stops: Seq<usize>,
    tolerance: int,
    entries: Seq<(usize, i64)>,
    vertices: Seq<usize>,
) -> bool {
    &&& canonical(entries)
    &&& exists|legs: Seq<Seq<EdgeStep>>|
        {
            &&& legs.len() == stops.len() - 1
            &&& #[trigger] legs_between(adjacency, stops, tolerance, legs)
            &&& forall|field: spec_fn(int) -> int| #[trigger]
                pairing(entries, field) == pairing(
                    edges_of(joined(legs, legs.len() as int)),
                    field,
                )
            &&& vertices_follow(vertices, stops[0] as int, joined(legs, legs.len() as int))
        }
}

proof fn lemma_edges_of_concat(left: Seq<EdgeStep>, right: Seq<EdgeStep>)
    ensures
        edges_of(left + right) == edges_of(left) + edges_of(right),
{
    assert(edges_of(left + right) =~= edges_of(left) + edges_of(right));
}

/// Two routes, one of which starts where the other ends, make one route.
proof fn lemma_route_concat(
    adjacency: Seq<Vec<EdgeStep>>,
    start: int,
    middle: int,
    goal: int,
    left: Seq<EdgeStep>,
    right: Seq<EdgeStep>,
)
    requires
        route_between(adjacency, start, middle, left),
        route_between(adjacency, middle, goal, right),
    ensures
        route_between(adjacency, start, goal, left + right),
        forall|i: int|
            0 <= i <= left.len() ==> #[trigger] route_vertex(start, left + right, i)
                == route_vertex(start, left, i),
        forall|i: int|
            0 <= i <= right.len() ==> #[trigger] route_vertex(
                start,
                left + right,
                left.len() + i,
            ) == route_vertex(middle, right, i),
{
    let whole = left + right;
    assert forall|i: int| 0 <= i <= left.len() implies #[trigger] route_vertex(start, whole, i)
        == route_vertex(start, left, i) by {
        if i > 0 {
            assert(whole[i - 1] == left[i - 1]);
        }
    }
    assert forall|i: int| 0 <= i <= right.len() implies #[trigger] route_vertex(
        start,
        whole,
        left.len() + i,
    ) == route_vertex(middle, right, i) by {
        if i > 0 {
            assert(whole[left.len() + i - 1] == right[i - 1]);
        } else {
            assert(route_vertex(start, whole, left.len() as int) == route_vertex(
                start,
                left,
                left.len() as int,
            ));
        }
    }
    assert forall|i: int| 0 <= i < whole.len() implies steps_of(
        adjacency,
        route_vertex(start, whole, i),
    ).contains(#[trigger] whole[i]) by {
        if i < left.len() {
            assert(whole[i] == left[i]);
            assert(route_vertex(start, whole, i) == route_vertex(start, left, i));
        } else {
            let j = i - left.len();
            assert(whole[i] == right[j]);
            assert(route_vertex(start, whole, left.len() + j) == route_vertex(middle, right, j));
        }
    }
    assert(route_vertex(start, whole, (left.len() + right.len()) as int) == route_vertex(
        middle,
        right,
        right.len() as int,
    ));
}

proof fn lemma_unit_route(
    adjacency: Seq<Vec<EdgeStep>>,
    start: int,
    steps: Seq<EdgeStep>,
    index: int,
)
    requires
        adjacency_in_range(adjacency),
        unit_signs(adjacency),
        0 <= start < adjacency.len(),
        is_route(adjacency, start, steps),
        0 <= index < steps.len(),
    ensures
        0 <= route_vertex(start, steps, index) < adjacency.len(),
        steps[index].sign == 1 || steps[index].sign == -1,
        steps[index].to < adjacency.len(),
    decreases index,
{
    if index > 0 {
        lemma_unit_route(adjacency, start, steps, index - 1);
    }
    let from = route_vertex(start, steps, index);
    assert(steps_of(adjacency, from).contains(steps[index]));
    let k = choose|k: int|
        0 <= k < steps_of(adjacency, from).len() && steps_of(adjacency, from)[k] == steps[index];
    assert(steps_of(adjacency, from)[k].to < adjacency.len());
}

/// A vertex list without duplicates is no longer than the number of vertices.
proof fn lemma_distinct_vertices(vertices: Seq<usize>, count: nat)
    requires
        vertices.no_duplicates(),
        forall|i: int| 0 <= i < vertices.len() ==> #[trigger] vertices[i] < count,
    ensures
        vertices.len() <= count,
{
    let wide = vertices.map_values(|v: usize| v as int);
    assert(wide.no_duplicates());
    wide.unique_seq_to_set();
    let range = vstd::set_lib::set_int_range(0, count as int);
    vstd::set_lib::lemma_int_range(0, count as int);
    assert forall|x: int| wide.to_set().contains(x) implies range.contains(x) by {
        let i = choose|i: int| 0 <= i < wide.len() && wide[i] == x;
        assert(vertices[i] < count);
    }
    vstd::set_lib::lemma_len_subset(wide.to_set(), range);
}

/// The signs along a leg, added to a row.
pub(crate) fn add_path_edges(
    row: &mut Vec<(usize, i64)>,
    edges: &Vec<(usize, i64)>,
    Ghost(bound): Ghost<int>,
)
    requires
        sorted_entries(old(row)@),
        weights_within(old(row)@, bound),
        0 <= bound,
        bound + edges.len() <= i64::MAX,
        weights_within(edges@, 1),
    ensures
        sorted_entries(final(row)@),
        weights_within(final(row)@, bound + edges.len()),
        forall|field: spec_fn(int) -> int|
            #![trigger pairing(final(row)@, field)]
            pairing(final(row)@, field) == pairing(old(row)@, field) + pairing(edges@, field),
{
    let mut index: usize = 0;
    while index < edges.len()
        invariant
            index <= edges.len(),
            0 <= bound,
            bound + edges.len() <= i64::MAX,
            weights_within(edges@, 1),
            sorted_entries(row@),
            weights_within(row@, bound + index),
            forall|field: spec_fn(int) -> int|
                #![trigger pairing(row@, field)]
                pairing(row@, field) == pairing(old(row)@, field) + pairing(
                    edges@.take(index as int),
                    field,
                ),
        decreases edges.len() - index,
    {
        let entry: (usize, i64) = edges[index];
        let ghost before = row@;
        assert(edges@[index as int] == entry);
        add_entry(row, entry.0, entry.1, Ghost(bound + index), Ghost(1));
        proof {
            assert forall|field: spec_fn(int) -> int| #[trigger]
                pairing(row@, field) == pairing(old(row)@, field) + pairing(
                    edges@.take(index + 1),
                    field,
                ) by {
                assert(edges@.take(index + 1) =~= edges@.take(index as int).push(entry));
                lemma_pairing_push(edges@.take(index as int), entry, field);
                assert(pairing(before, field) == pairing(old(row)@, field) + pairing(
                    edges@.take(index as int),
                    field,
                ));
            }
        }
        index = index + 1;
    }
    assert(edges@.take(index as int) =~= edges@);
}

/// Adds all but the first vertex of a path.
fn append_tail(vertices: &mut Vec<usize>, path: &Vec<usize>)
    requires
        path.len() > 0,
    ensures
        final(vertices)@ == old(vertices)@ + path@.skip(1),
{
    let mut position: usize = 1;
    while position < path.len()
        invariant
            1 <= position <= path.len(),
            vertices@ == old(vertices)@ + path@.subrange(1, position as int),
        decreases path.len() - position,
    {
        vertices.push(path[position]);
        proof {
            assert(path@.subrange(1, position + 1) =~= path@.subrange(1, position as int).push(
                path@[position as int],
            ));
        }
        position = position + 1;
    }
    assert(path@.subrange(1, position as int) =~= path@.skip(1));
}

/// Whether `legs` lead to stop `index`, and the row and the vertices are theirs.
spec fn traced(
    adjacency: Seq<Vec<EdgeStep>>,
    stops: Seq<usize>,
    tolerance: int,
    legs: Seq<Seq<EdgeStep>>,
    row: Seq<(usize, i64)>,
    vertices: Seq<usize>,
) -> bool {
    let index = legs.len() as int;
    &&& stops_reachable(adjacency, stops, index)
    &&& legs_between(adjacency, stops, tolerance, legs)
    &&& route_between(adjacency, stops[0] as int, stops[index] as int, joined(legs, index))
    &&& forall|field: spec_fn(int) -> int| #[trigger]
        pairing(row, field) == pairing(edges_of(joined(legs, index)), field)
    &&& vertices_follow(vertices, stops[0] as int, joined(legs, index))
}

/// A path that visits no vertex twice has fewer edges than the graph has vertices, each with a unit
/// sign.
pub proof fn lemma_path_bounds(
    adjacency: Seq<Vec<EdgeStep>>,
    start: int,
    goal: int,
    path: ShortestPath,
    steps: Seq<EdgeStep>,
)
    requires
        adjacency_in_range(adjacency),
        unit_signs(adjacency),
        0 <= start < adjacency.len(),
        path.vertices@.no_duplicates(),
        route_between(adjacency, start, goal, steps),
        path_follows(path, start, steps),
    ensures
        path.edges.len() < adjacency.len(),
        weights_within(path.edges@, 1),
        edges_of(steps) == path.edges@,
{
    assert forall|i: int| 0 <= i < path.vertices.len() implies #[trigger] path.vertices@[i]
        < adjacency.len() by {
        if i > 0 {
            lemma_unit_route(adjacency, start, steps, i - 1);
        }
    }
    lemma_distinct_vertices(path.vertices@, adjacency.len());
    assert forall|i: int| 0 <= i < path.edges.len() implies -1 <= (#[trigger] path.edges@[i]).1
        <= 1 by {
        lemma_unit_route(adjacency, start, steps, i);
    }
    assert(edges_of(steps) =~= path.edges@);
}

proof fn lemma_traced_step(
    adjacency: Seq<Vec<EdgeStep>>,
    stops: Seq<usize>,
    tolerance: int,
    legs: Seq<Seq<EdgeStep>>,
    row: Seq<(usize, i64)>,
    vertices: Seq<usize>,
    path: ShortestPath,
    steps: Seq<EdgeStep>,
    new_row: Seq<(usize, i64)>,
)
    requires
        legs.len() + 1 < stops.len(),
        traced(adjacency, stops, tolerance, legs, row, vertices),
        route_between(
            adjacency,
            stops[legs.len() as int] as int,
            stops[(legs.len() + 1) as int] as int,
            steps,
        ),
        path_follows(path, stops[legs.len() as int] as int, steps),
        is_search_route(
            adjacency,
            stops[legs.len() as int] as int,
            stops[(legs.len() + 1) as int] as int,
            tolerance,
            steps,
        ),
        edges_of(steps) == path.edges@,
        forall|field: spec_fn(int) -> int| #[trigger]
            pairing(new_row, field) == pairing(row, field) + pairing(path.edges@, field),
    ensures
        traced(
            adjacency,
            stops,
            tolerance,
            legs.push(steps),
            new_row,
            vertices + path.vertices@.skip(1),
        ),
{
    let index = legs.len() as int;
    let start = stops[index] as int;
    let longer = legs.push(steps);
    let done = joined(legs, index);
    let grown = vertices + path.vertices@.skip(1);
    lemma_joined_push(legs, steps);
    lemma_route_concat(adjacency, stops[0] as int, start, stops[index + 1] as int, done, steps);
    lemma_edges_of_concat(done, steps);
    assert forall|i: int| 0 <= i < longer.len() implies route_between(
        adjacency,
        stops[i] as int,
        stops[i + 1] as int,
        #[trigger] longer[i],
    ) && is_search_route(
        adjacency,
        stops[i] as int,
        stops[i + 1] as int,
        tolerance,
        longer[i],
    ) by {
        if i < legs.len() {
            assert(longer[i] == legs[i]);
        }
    }
    assert forall|i: int| 0 <= i < index + 1 implies reachable(
        adjacency,
        #[trigger] stops[i] as int,
        stops[i + 1] as int,
    ) by {
        assert(route_between(adjacency, stops[i] as int, stops[i + 1] as int, longer[i]));
    }
    assert forall|field: spec_fn(int) -> int| #[trigger]
        pairing(new_row, field) == pairing(edges_of(joined(longer, index + 1)), field) by {
        lemma_pairing_concat(edges_of(done), edges_of(steps), field);
        assert(pairing(row, field) == pairing(edges_of(done), field));
    }
    assert forall|i: int| 0 <= i < grown.len() implies #[trigger] grown[i] == route_vertex(
        stops[0] as int,
        joined(longer, index + 1),
        i,
    ) by {
        if i < vertices.len() {
            assert(grown[i] == vertices[i]);
            assert(route_vertex(stops[0] as int, done + steps, i) == route_vertex(
                stops[0] as int,
                done,
                i,
            ));
        } else {
            let j = i - done.len();
            assert(grown[i] == path.vertices@[j]);
            assert(route_vertex(stops[0] as int, done + steps, done.len() + j) == route_vertex(
                start,
                steps,
                j,
            ));
        }
    }
}

/// Searches shortest paths from stop to stop, and adds up their signed edges.
fn trace_stops(adjacency: &Vec<Vec<EdgeStep>>, stops: &Vec<usize>, tolerance: u64) -> (result:
    Result<(Vec<(usize, i64)>, Vec<usize>), String>)
    requires
        adjacency_in_range(adjacency@),
        unit_signs(adjacency@),
        stops.len() > 0,
        forall|i: int| 0 <= i < stops.len() ==> #[trigger] stops@[i] < adjacency.len(),
        stops.len() * adjacency.len() <= i64::MAX,
    ensures
        result is Ok <==> stops_reachable(adjacency@, stops@, stops.len() - 1),
        match result {
            Ok((entries, vertices)) => describes_path(
                adjacency@,
                stops@,
                tolerance as int,
                entries@,
                vertices@,
            ) && vertices.len() <= (stops.len() - 1) * adjacency.len() + 1,
            Err(message) => first_gap(adjacency@, stops@, message@),
        },
{
    let mut row: Vec<(usize, i64)> = Vec::new();
    let mut vertices: Vec<usize> = vec![stops[0]];
    let mut index: usize = 0;
    let ghost mut legs: Seq<Seq<EdgeStep>> = Seq::empty();
    proof {
        assert(edges_of(joined(legs, 0)) =~= Seq::<(usize, i64)>::empty());
        assert(0 * adjacency.len() == 0) by (nonlinear_arith);
    }
    while index < stops.len() - 1
        invariant
            adjacency_in_range(adjacency@),
            unit_signs(adjacency@),
            stops.len() > 0,
            forall|i: int| 0 <= i < stops.len() ==> #[trigger] stops@[i] < adjacency.len(),
            stops.len() * adjacency.len() <= i64::MAX,
            index < stops.len(),
            legs.len() == index,
            traced(adjacency@, stops@, tolerance as int, legs, row@, vertices@),
            sorted_entries(row@),
            weights_within(row@, index * adjacency.len()),
            vertices.len() <= index * adjacency.len() + 1,
        decreases stops.len() - index,
    {
        let start: usize = stops[index];
        let goal: usize = stops[index + 1];
        assert(stops@[index as int] < adjacency.len() && stops@[index + 1] < adjacency.len());
        match shortest_path(adjacency, start, goal, tolerance) {
            Err(message) => {
                assert(stops@[index as int] == start);
                return Err(message);
            },
            Ok(path) => {
                let ghost steps = choose|steps: Seq<EdgeStep>|
                    {
                        &&& #[trigger] route_between(
                            adjacency@,
                            start as int,
                            goal as int,
                            steps,
                        )
                        &&& path_follows(path, start as int, steps)
                        &&& is_search_route(
                            adjacency@,
                            start as int,
                            goal as int,
                            tolerance as int,
                            steps,
                        )
                    };
                let ghost before_row = row@;
                let ghost before_vertices = vertices@;
                proof {
                    lemma_path_bounds(adjacency@, start as int, goal as int, path, steps);
                    assert((index + 1) * adjacency.len() <= stops.len() * adjacency.len())
                        by (nonlinear_arith)
                        requires
                            index + 1 <= stops.len(),
                            0 <= adjacency.len(),
                    ;
                    assert(index * adjacency.len() + adjacency.len() == (index + 1)
                        * adjacency.len()) by (nonlinear_arith);
                    assert(0 <= index * adjacency.len()) by (nonlinear_arith)
                        requires
                            0 <= index,
                            0 <= adjacency.len(),
                    ;
                }
                add_path_edges(&mut row, &path.edges, Ghost(index * adjacency.len()));
                append_tail(&mut vertices, &path.vertices);
                proof {
                    lemma_traced_step(
                        adjacency@,
                        stops@,
                        tolerance as int,
                        legs,
                        before_row,
                        before_vertices,
                        path,
                        steps,
                        row@,
                    );
                    legs = legs.push(steps);
                }
                index = index + 1;
            },
        }
    }
    let entries = nonzero_entries(&row);
    Ok((entries, vertices))
}

/// Whether the message names the first stop that cannot be reached from the one before it.
pub open spec fn first_gap(
    adjacency: Seq<Vec<EdgeStep>>,
    stops: Seq<usize>,
    message: Seq<char>,
) -> bool {
    exists|i: int|
        #![trigger stops[i]]
        0 <= i < stops.len() - 1 && stops_reachable(adjacency, stops, i) && !reachable(
            adjacency,
            stops[i] as int,
            stops[i + 1] as int,
        ) && message == no_path_text(stops[i] as int, stops[i + 1] as int)
}

proof fn lemma_joined_prefix(legs: Seq<Seq<EdgeStep>>, steps: Seq<EdgeStep>, count: int)
    requires
        0 <= count <= legs.len(),
    ensures
        joined(legs.push(steps), count) == joined(legs, count),
    decreases count,
{
    if count > 0 {
        lemma_joined_prefix(legs, steps, count - 1);
    }
}

proof fn lemma_joined_push(legs: Seq<Seq<EdgeStep>>, steps: Seq<EdgeStep>)
    ensures
        joined(legs.push(steps), (legs.len() + 1) as int) == joined(legs, legs.len() as int) + steps,
{
    lemma_joined_prefix(legs, steps, legs.len() as int);
}

/// What flows into a vertex along a route, less what flows out, is one at the end of the route
/// and minus one at its start.
pub proof fn lemma_route_balance(
    topology: MeshTopology,
    adjacency: Seq<Vec<EdgeStep>>,
    start: int,
    goal: int,
    steps: Seq<EdgeStep>,
    v: int,
)
    requires
        topology.wf(),
        steps_match(topology, adjacency),
        0 <= start < adjacency.len(),
        route_between(adjacency, start, goal, steps),
    ensures
        entries_in_range(edges_of(steps), topology.edges.len() as nat),
        0 <= goal < adjacency.len(),
        balance_at(topology.edges@, edges_of(steps), v) == end_balance(start, goal, v),
    decreases steps.len(),
{
    if steps.len() == 0 {
        assert(edges_of(steps) =~= Seq::<(usize, i64)>::empty());
    } else {
        let shorter = steps.drop_last();
        let last = steps.last();
        let end = shorter.len() as int;
        let before = route_vertex(start, steps, end);
        assert(route_vertex(start, shorter, end) == before);
        assert(is_route(adjacency, start, shorter)) by {
            assert forall|i: int| 0 <= i < shorter.len() implies steps_of(
                adjacency,
                route_vertex(start, shorter, i),
            ).contains(#[trigger] shorter[i]) by {
                assert(steps[i] == shorter[i]);
                assert(route_vertex(start, steps, i) == route_vertex(start, shorter, i));
            }
        }
        lemma_route_balance(topology, adjacency, start, before, shorter, v);
        assert(steps[end] == last);
        assert(steps_of(adjacency, before).contains(last));
        let k = choose|k: int|
            0 <= k < steps_of(adjacency, before).len() && steps_of(adjacency, before)[k] == last;
        assert(step_matches(topology, before, steps_of(adjacency, before)[k]));
        let edge = last.edge_index as int;
        assert(topology.edges@[edge].0 < topology.vertex_count && topology.edges@[edge].1
            < topology.vertex_count && topology.edges@[edge].0 != topology.edges@[edge].1);
        let entry = (last.edge_index, last.sign);
        assert(edges_of(steps) =~= edges_of(shorter).push(entry));
        let field = |e: int| incidence(topology.edges@, v, e);
        lemma_pairing_push(edges_of(shorter), entry, field);
        assert(field(edge) == incidence(topology.edges@, v, edge));
        let value = incidence(topology.edges@, v, edge);
        assert(1 * value == value && -1 * value == -value) by (nonlinear_arith);
        assert forall|i: int| 0 <= i < edges_of(steps).len() implies (#[trigger] edges_of(
            steps,
        )[i]).0 < topology.edges.len() by {
            if i < edges_of(shorter).len() {
                assert(edges_of(steps)[i] == edges_of(shorter)[i]);
            }
        }
    }
}

/// One at the end of a path and minus one at its start; zero everywhere where the two are one.
pub open spec fn end_balance(start: int, goal: int, v: int) -> int {
    (if goal == v {
        1int
    } else {
        0int
    }) - (if start == v {
        1int
    } else {
        0int
    })
}

proof fn lemma_joined_route(
    adjacency: Seq<Vec<EdgeStep>>,
    stops: Seq<usize>,
    tolerance: int,
    legs: Seq<Seq<EdgeStep>>,
    count: int,
)
    requires
        legs_between(adjacency, stops, tolerance, legs),
        0 <= count <= legs.len(),
    ensures
        route_between(
            adjacency,
            stops[0] as int,
            stops[count] as int,
            joined(legs, count),
        ),
    decreases count,
{
    if count > 0 {
        lemma_joined_route(adjacency, stops, tolerance, legs, count - 1);
        assert(route_between(
            adjacency,
            stops[count - 1] as int,
            stops[count] as int,
            legs[count - 1],
        ));
        lemma_route_concat(
            adjacency,
            stops[0] as int,
            stops[count - 1] as int,
            stops[count] as int,
            joined(legs, count - 1),
            legs[count - 1],
        );
    }
}

/// A row along a path through given stops lists only edges of the mesh, and flows from the first
/// stop to the last.
pub proof fn lemma_path_row_balance(
    topology: MeshTopology,
    adjacency: Seq<Vec<EdgeStep>>,
    stops: Seq<usize>,
    tolerance: int,
    entries: Seq<(usize, i64)>,
    vertices: Seq<usize>,
)
    requires
        topology.wf(),
        steps_match(topology, adjacency),
        stops.len() > 0,
        stops[0] < adjacency.len(),
        describes_path(adjacency, stops, tolerance, entries, vertices),
    ensures
        entries_in_range(entries, topology.edges.len() as nat),
        forall|v: int| #[trigger]
            balance_at(topology.edges@, entries, v) == end_balance(
                stops.first() as int,
                stops.last() as int,
                v,
            ),
{
    let legs = choose|legs: Seq<Seq<EdgeStep>>|
        {
            &&& legs.len() == stops.len() - 1
            &&& #[trigger] legs_between(adjacency, stops, tolerance, legs)
            &&& forall|field: spec_fn(int) -> int| #[trigger]
                pairing(entries, field) == pairing(
                    edges_of(joined(legs, legs.len() as int)),
                    field,
                )
            &&& vertices_follow(vertices, stops[0] as int, joined(legs, legs.len() as int))
        };
    let steps = joined(legs, legs.len() as int);
    lemma_joined_route(adjacency, stops, tolerance, legs, legs.len() as int);
    lemma_route_balance(
        topology,
        adjacency,
        stops[0] as int,
        stops.last() as int,
        steps,
        0,
    );
    lemma_canonical_in_range(entries, edges_of(steps), topology.edges.len() as nat);
    assert forall|v: int| #[trigger] balance_at(topology.edges@, entries, v) == end_balance(
        stops.first() as int,
        stops.last() as int,
        v,
    ) by {
        lemma_route_balance(
            topology,
            adjacency,
            stops[0] as int,
            stops.last() as int,
            steps,
            v,
        );
        let field = |e: int| incidence(topology.edges@, v, e);
        assert(pairing(entries, field) == pairing(edges_of(steps), field));
    }
}

fn has_invalid_edge(entries: &Vec<(usize, i64)>, edge_count: usize) -> (invalid: bool)
    ensures
        invalid == !entries_in_range(entries@, edge_count as nat),
{
    let mut index: usize = 0;
    while index < entries.len()
        invariant
            index <= entries.len(),
            forall|i: int| 0 <= i < index ==> (#[trigger] entries@[i]).0 < edge_count,
        decreases entries.len() - index,
    {
        if entries[index].0 >= edge_count {
            assert(entries@[index as int].0 >= edge_count);
            return true;
        }
        index = index + 1;
    }
    false
}

/// The stops of a cycle: the target vertices without repeats, and the first of them again.
pub open spec fn cycle_stops(target_vertices: Seq<usize>) -> Seq<usize> {
    without_repeats(target_vertices).push(without_repeats(target_vertices)[0])
}

/// Whether some path through the stops runs along an edge that the mesh does not have.
pub open spec fn leaves_mesh(
    adjacency: Seq<Vec<EdgeStep>>,
    stops: Seq<usize>,
    tolerance: int,
    edge_count: nat,
) -> bool {
    exists|entries: Seq<(usize, i64)>, vertices: Seq<usize>| #[trigger]
        describes_path(adjacency, stops, tolerance, entries, vertices) && !entries_in_range(
            entries,
            edge_count,
        )
}

/// Builds the row of a closed path through the target vertices, on nearly shortest routes, and
/// lists the vertices of the path.
pub fn build_cycle_row(
    topology: &MeshTopology,
    adjacency: &Vec<Vec<EdgeStep>>,
    target_vertices: &Vec<usize>,
    tolerance: u64,
) -> (result: Result<(Vec<(usize, i64)>, Vec<usize>), String>)
    requires
        adjacency_in_range(adjacency@),
        unit_signs(adjacency@),
        forall|i: int|
            0 <= i < target_vertices.len() ==> #[trigger] target_vertices@[i] < adjacency.len(),
        (target_vertices.len() + 1) * adjacency.len() <= i64::MAX,
    ensures
        match result {
            Ok((entries, vertices)) => {
                &&& without_repeats(target_vertices@).len() >= 2
                &&& describes_path(
                    adjacency@,
                    cycle_stops(target_vertices@),
                    tolerance as int,
                    entries@,
                    vertices@,
                )
                &&& vertices.len() <= target_vertices.len() * adjacency.len() + 1
                &&& entries_in_range(entries@, topology.edges.len() as nat)
            },
            Err(message) => {
                if without_repeats(target_vertices@).len() < 2 {
                    message@ == "cycle requires at least two distinct target vertices"@
                } else if !stops_reachable(
                    adjacency@,
                    cycle_stops(target_vertices@),
                    cycle_stops(target_vertices@).len() - 1,
                ) {
                    first_gap(adjacency@, cycle_stops(target_vertices@), message@)
                } else {
                    message@ == "cycle row contains an invalid edge index"@ && leaves_mesh(
                        adjacency@,
                        cycle_stops(target_vertices@),
                        tolerance as int,
                        topology.edges.len() as nat,
                    )
                }
            },
        },
        topology.wf() && steps_match(*topology, adjacency@) ==> (result is Ok <==> without_repeats(
            target_vertices@,
        ).len() >= 2 && stops_reachable(
            adjacency@,
            cycle_stops(target_vertices@),
            cycle_stops(target_vertices@).len() - 1,
        )),
        topology.wf() && steps_match(*topology, adjacency@) && result is Ok ==> closure_residual(
            *topology,
            (result->Ok_0).0@,
        ) == 0,
{
    let mut stops = dedup_vertices(target_vertices);
    if stops.len() < 2 {
        return Err(
            String::from_str("cycle requires at least two distinct target vertices"),
        );
    }
    proof {
        lemma_without_repeats(target_vertices@);
        assert forall|i: int| 0 <= i < stops.len() implies #[trigger] stops@[i] < adjacency.len() by {
            assert(target_vertices@.contains(without_repeats(target_vertices@)[i]));
            let j = choose|j: int|
                0 <= j < target_vertices.len() && target_vertices@[j] == stops@[i];
            assert(target_vertices@[j] < adjacency.len());
        }
        assert((stops.len() + 1) * adjacency.len() <= (target_vertices.len() + 1)
            * adjacency.len()) by (nonlinear_arith)
            requires
                stops.len() <= target_vertices.len(),
                0 <= adjacency.len(),
        ;
        assert(stops.len() * adjacency.len() <= target_vertices.len() * adjacency.len())
            by (nonlinear_arith)
            requires
                stops.len() <= target_vertices.len(),
                0 <= adjacency.len(),
        ;
    }
    let first: usize = stops[0];
    stops.push(first);
    assert(stops@ == cycle_stops(target_vertices@));
    match trace_stops(adjacency, &stops, tolerance) {
        Err(message) => Err(message),
        Ok((entries, vertices)) => {
            proof {
                if topology.wf() && steps_match(*topology, adjacency@) {
                    lemma_path_row_balance(
                        *topology,
                        adjacency@,
                        stops@,
                        tolerance as int,
                        entries@,
                        vertices@,
                    );
                    assert forall|v: int| 0 <= v < topology.vertex_count implies #[trigger] balance_at(
                        topology.edges@,
                        entries@,
                        v,
                    ) == 0 by {
                        assert(stops@.last() == first);
                        assert(stops@.first() == first);
                    }
                    lemma_closed_row(*topology, entries@);
                }
            }
            if has_invalid_edge(&entries, topology.edges.len()) {
                Err(String::from_str("cycle row contains an invalid edge index"))
            } else {
                Ok((entries, vertices))
            }
        },
    }
}

/// Builds the row of an open path through the target vertices, on nearly shortest routes, and
/// lists the vertices of the path.
pub fn build_open_path_row(
    topology: &MeshTopology,
    adjacency: &Vec<Vec<EdgeStep>>,
    target_vertices: &Vec<usize>,
    tolerance: u64,
) -> (result: Result<(Vec<(usize, i64)>, Vec<usize>), String>)
    requires
        adjacency_in_range(adjacency@),
        unit_signs(adjacency@),
        forall|i: int|
            0 <= i < target_vertices.len() ==> #[trigger] target_vertices@[i] < adjacency.len(),
        target_vertices.len() * adjacency.len() <= i64::MAX,
    ensures
        match result {
            Ok((entries, vertices)) => {
                &&& without_repeats(target_vertices@).len() >= 2
                &&& describes_path(
                    adjacency@,
                    without_repeats(target_vertices@),
                    tolerance as int,
                    entries@,
                    vertices@,
                )
                &&& vertices.len() <= target_vertices.len() * adjacency.len() + 1
                &&& entries_in_range(entries@, topology.edges.len() as nat)
            },
            Err(message) => {
                if without_repeats(target_vertices@).len() < 2 {
                    message@ == "open path requires at least two distinct target vertices"@
                } else if !stops_reachable(
                    adjacency@,
                    without_repeats(target_vertices@),
                    without_repeats(target_vertices@).len() - 1,
                ) {
                    first_gap(adjacency@, without_repeats(target_vertices@), message@)
                } else {
                    message@ == "open path row contains an invalid edge index"@ && leaves_mesh(
                        adjacency@,
                        without_repeats(target_vertices@),
                        tolerance as int,
                        topology.edges.len() as nat,
                    )
                }
            },
        },
        topology.wf() && steps_match(*topology, adjacency@) ==> (result is Ok <==> without_repeats(
            target_vertices@,
        ).len() >= 2 && stops_reachable(
            adjacency@,
            without_repeats(target_vertices@),
            without_repeats(target_vertices@).len() - 1,
        )),
        topology.wf() && steps_match(*topology, adjacency@) && result is Ok ==> forall|v: int|
            #[trigger]
            balance_at(topology.edges@, (result->Ok_0).0@, v) == end_balance(
                target_vertices@.first() as int,
                target_vertices@.last() as int,
                v,
            ),
{
    let stops = dedup_vertices(target_vertices);
    if stops.len() < 2 {
        return Err(
            String::from_str("open path requires at least two distinct target vertices"),
        );
    }
    proof {
        lemma_without_repeats(target_vertices@);
        assert forall|i: int| 0 <= i < stops.len() implies #[trigger] stops@[i] < adjacency.len() by {
            assert(target_vertices@.contains(without_repeats(target_vertices@)[i]));
            let j = choose|j: int|
                0 <= j < target_vertices.len() && target_vertices@[j] == stops@[i];
            assert(target_vertices@[j] < adjacency.len());
        }
        assert(stops.len() * adjacency.len() <= target_vertices.len() * adjacency.len())
            by (nonlinear_arith)
            requires
                stops.len() <= target_vertices.len(),
                0 <= adjacency.len(),
        ;
        assert((stops.len() - 1) * adjacency.len() <= stops.len() * adjacency.len())
            by (nonlinear_arith)
            requires
                0 <= adjacency.len(),
        ;
    }
    match trace_stops(adjacency, &stops, tolerance) {
        Err(message) => Err(message),
        Ok((entries, vertices)) => {
            proof {
                if topology.wf() && steps_match(*topology, adjacency@) {
                    lemma_path_row_balance(
                        *topology,
                        adjacency@,
                        stops@,
                        tolerance as int,
                        entries@,
                        vertices@,
                    );
                }
            }
            if has_invalid_edge(&entries, topology.edges.len()) {
                Err(String::from_str("open path row contains an invalid edge index"))
            } else {
                Ok((entries, vertices))
            }
        },
    }
}

proof fn lemma_pairing_bounded(entries: Seq<(usize, i64)>, field: spec_fn(int) -> int)
    requires
        weights_within(entries, 1),
        forall|e: int| -1 <= #[trigger] field(e) <= 1,
    ensures
        pairing(entries, field) <= entries.len(),
    decreases entries.len(),
{
    if entries.len() > 0 {
        assert(weights_within(entries.drop_last(), 1));
        lemma_pairing_bounded(entries.drop_last(), field);
        let weight = entries.last().1 as int;
        let value = field(entries.last().0 as int);
        assert(entries[entries.len() - 1].1 == weight);
        assert(weight * value <= 1) by (nonlinear_arith)
            requires
                -1 <= weight <= 1,
                -1 <= value <= 1,
        ;
    }
}

proof fn lemma_mass_is_pairing(
    entries: Seq<(usize, i64)>,
    field: spec_fn(int) -> int,
    count: int,
)
    requires
        0 <= count <= entries.len(),
        forall|i: int|
            0 <= i < entries.len() ==> field((#[trigger] entries[i]).0 as int) == (
            if entries[i].1 < 0 {
                -1int
            } else {
                1int
            }),
    ensures
        row_mass(entries, count) == pairing(entries.take(count), field),
    decreases count,
{
    if count > 0 {
        lemma_mass_is_pairing(entries, field, count - 1);
        assert(entries.take(count).drop_last() =~= entries.take(count - 1));
        assert(entries.take(count).last() == entries[count - 1]);
        let weight = entries[count - 1].1 as int;
        assert(weight * -1 == -weight && weight * 1 == weight) by (nonlinear_arith);
    }
}

/// The weights of a row along a path add up to no more than the number of steps of the path.
pub proof fn lemma_path_row_mass(
    adjacency: Seq<Vec<EdgeStep>>,
    stops: Seq<usize>,
    tolerance: int,
    entries: Seq<(usize, i64)>,
    vertices: Seq<usize>,
)
    requires
        adjacency_in_range(adjacency),
        unit_signs(adjacency),
        stops.len() > 0,
        stops[0] < adjacency.len(),
        describes_path(adjacency, stops, tolerance, entries, vertices),
    ensures
        row_mass(entries, entries.len() as int) <= vertices.len() - 1,
{
    let legs = choose|legs: Seq<Seq<EdgeStep>>|
        {
            &&& legs.len() == stops.len() - 1
            &&& #[trigger] legs_between(adjacency, stops, tolerance, legs)
            &&& forall|field: spec_fn(int) -> int| #[trigger]
                pairing(entries, field) == pairing(
                    edges_of(joined(legs, legs.len() as int)),
                    field,
                )
            &&& vertices_follow(vertices, stops[0] as int, joined(legs, legs.len() as int))
        };
    let steps = joined(legs, legs.len() as int);
    lemma_joined_route(adjacency, stops, tolerance, legs, legs.len() as int);
    let field = |e: int|
        if weight_at(entries, e) < 0 {
            -1int
        } else {
            1int
        };
    assert forall|i: int| 0 <= i < entries.len() implies field((#[trigger] entries[i]).0 as int)
        == (if entries[i].1 < 0 {
        -1int
    } else {
        1int
    }) by {
        lemma_weight_of_entry(entries, i);
    }
    lemma_mass_is_pairing(entries, field, entries.len() as int);
    assert(entries.take(entries.len() as int) =~= entries);
    assert forall|i: int| 0 <= i < edges_of(steps).len() implies -1 <= (#[trigger] edges_of(
        steps,
    )[i]).1 <= 1 by {
        lemma_unit_route(adjacency, stops[0] as int, steps, i);
    }
    lemma_pairing_bounded(edges_of(steps), field);
    assert(pairing(entries, field) == pairing(edges_of(steps), field));
}

} // verus!
