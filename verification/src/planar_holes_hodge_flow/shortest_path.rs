//! Shortest paths in the edge graph of a mesh.

use crate::text::{count_text, decimal};
use vstd::prelude::*;

verus! {

/// One way to leave a vertex: along edge `edge_index` to vertex `to`. The sign is `1` where the
/// step runs from the first to the second vertex of the edge, `-1` where it runs back. Lengths are
/// whole multiples of a unit that the caller chooses.
#[derive(Debug, Clone, Copy, PartialEq, Eq, Structural)]
pub struct EdgeStep {
    pub to: usize,
    pub edge_index: usize,
    pub sign: i64,
    pub length: u64,
}

/// A path: the vertices in order, and the signed edges between them.
#[derive(Debug)]
pub struct ShortestPath {
    pub vertices: Vec<usize>,
    pub edges: Vec<(usize, i64)>,
}

#[derive(Debug, Clone, Copy, PartialEq, Eq, Structural)]
struct QueueState {
    cost: u128,
    vertex: usize,
}

/// How a search came to a vertex: by `step` out of vertex `from`.
#[derive(Debug, Clone, Copy, PartialEq, Eq, Structural)]
pub struct Arrival {
    pub from: usize,
    pub step: EdgeStep,
}

/// A search under way: the lengths of the best ways known, the last step of each of them, and the
/// settled vertices in the order in which they were settled.
pub struct Search {
    pub distances: Seq<Option<int>>,
    pub arrivals: Seq<Option<Arrival>>,
    pub settled: Seq<usize>,
}

/// The steps out of each vertex.
pub open spec fn steps_of(adjacency: Seq<Vec<EdgeStep>>, vertex: int) -> Seq<EdgeStep> {
    adjacency[vertex]@
}

/// Whether every step leads to a vertex of the graph.
pub open spec fn adjacency_in_range(adjacency: Seq<Vec<EdgeStep>>) -> bool {
    forall|v: int, k: int|
        #![trigger steps_of(adjacency, v)[k]]
        0 <= v < adjacency.len() && 0 <= k < steps_of(adjacency, v).len() ==> steps_of(
            adjacency,
            v,
        )[k].to < adjacency.len()
}

/// The vertex that is reached after `count` steps of a route from `start`.
pub open spec fn route_vertex(start: int, steps: Seq<EdgeStep>, count: int) -> int {
    if count == 0 {
        start
    } else {
        steps[count - 1].to as int
    }
}

/// Whether each of the steps leaves the vertex that the one before it reaches.
pub open spec fn is_route(adjacency: Seq<Vec<EdgeStep>>, start: int, steps: Seq<EdgeStep>) -> bool {
    forall|i: int|
        #![trigger route_vertex(start, steps, i)]
        0 <= i < steps.len() ==> steps_of(adjacency, route_vertex(start, steps, i)).contains(
            steps[i],
        )
}

/// Whether the steps lead from `start` to `goal`.
pub open spec fn route_between(
    adjacency: Seq<Vec<EdgeStep>>,
    start: int,
    goal: int,
    steps: Seq<EdgeStep>,
) -> bool {
    is_route(adjacency, start, steps) && route_vertex(start, steps, steps.len() as int) == goal
}

/// The total length of the first `count` steps.
pub open spec fn route_length(steps: Seq<EdgeStep>, count: int) -> int
    decreases count,
{
    if count <= 0 {
        0
    } else {
        route_length(steps, count - 1) + steps[count - 1].length
    }
}

/// Whether `goal` can be reached from `start`.
pub open spec fn reachable(adjacency: Seq<Vec<EdgeStep>>, start: int, goal: int) -> bool {
    exists|steps: Seq<EdgeStep>| #[trigger] route_between(adjacency, start, goal, steps)
}

/// The vertices and the signed edges of a route.
pub open spec fn path_follows(path: ShortestPath, start: int, steps: Seq<EdgeStep>) -> bool {
    &&& path.vertices.len() == steps.len() + 1
    &&& path.edges.len() == steps.len()
    &&& forall|i: int|
        0 <= i < path.vertices.len() ==> #[trigger] path.vertices@[i] == route_vertex(
            start,
            steps,
            i,
        )
    &&& forall|i: int|
        0 <= i < path.edges.len() ==> #[trigger] path.edges@[i] == (
            steps[i].edge_index,
            steps[i].sign,
        )
}

/// Whether no route to `goal` is shorter than `steps` by more than `tolerance` for each of its
/// own steps.
pub open spec fn nearly_shortest(
    adjacency: Seq<Vec<EdgeStep>>,
    start: int,
    goal: int,
    tolerance: int,
    steps: Seq<EdgeStep>,
) -> bool {
    forall|other: Seq<EdgeStep>| #[trigger]
        route_between(adjacency, start, goal, other) ==> route_length(steps, steps.len() as int)
            <= route_length(other, other.len() as int) + other.len() * tolerance
}

/// A search that has not left `start` yet.
pub open spec fn opening(count: nat, start: int) -> Search {
    Search {
        distances: Seq::new(
            count,
            |v: int|
                if v == start {
                    Some(0)
                } else {
                    None
                },
        ),
        arrivals: Seq::new(count, |v: int| None),
        settled: Seq::empty(),
    }
}

/// Whether a vertex is known and not settled.
pub open spec fn is_pending(search: Search, v: usize) -> bool {
    v < search.distances.len() && search.distances[v as int] is Some && !search.settled.contains(v)
}

/// Whether `v` is settled next: of the pending vertices the nearest, and of equally near ones the
/// largest.
pub open spec fn is_next(search: Search, v: usize) -> bool {
    &&& is_pending(search, v)
    &&& forall|w: usize| #[trigger]
        is_pending(search, w) ==> search.distances[v as int]->0 < search.distances[w as int]->0 || (
        search.distances[v as int]->0 == search.distances[w as int]->0 && v >= w)
}

/// Looks at a step out of `from`: the way over it replaces the best one known only where it is
/// shorter by more than `tolerance`.
pub open spec fn look_at(search: Search, from: usize, step: EdgeStep, tolerance: int) -> Search {
    let length = search.distances[from as int]->0 + step.length;
    let known = search.distances[step.to as int];
    if known is None || length + tolerance < known->0 {
        Search {
            distances: search.distances.update(step.to as int, Some(length)),
            arrivals: search.arrivals.update(step.to as int, Some(Arrival { from, step })),
            settled: search.settled,
        }
    } else {
        search
    }
}

/// Looks at the first `count` steps out of `from`, one after the other.
pub open spec fn look_at_steps(
    search: Search,
    from: usize,
    steps: Seq<EdgeStep>,
    count: int,
    tolerance: int,
) -> Search
    decreases count,
{
    if count <= 0 {
        search
    } else {
        look_at(
            look_at_steps(search, from, steps, count - 1, tolerance),
            from,
            steps[count - 1],
            tolerance,
        )
    }
}

/// Settles a vertex and looks at all steps out of it.
pub open spec fn settle(
    adjacency: Seq<Vec<EdgeStep>>,
    search: Search,
    v: usize,
    tolerance: int,
) -> Search {
    look_at_steps(
        Search { settled: search.settled.push(v), ..search },
        v,
        steps_of(adjacency, v as int),
        steps_of(adjacency, v as int).len() as int,
        tolerance,
    )
}

/// Whether the search goes on with `v`.
pub open spec fn goes_on(search: Search, goal: int, v: usize) -> bool {
    is_next(search, v) && v != goal
}

/// The search after a number of rounds. A round settles the next vertex; at the goal, and where no
/// vertex is pending, the search rests.
pub open spec fn search_after(
    adjacency: Seq<Vec<EdgeStep>>,
    start: int,
    goal: int,
    tolerance: int,
    rounds: nat,
) -> Search
    decreases rounds,
{
    if rounds == 0 {
        opening(adjacency.len(), start)
    } else {
        let before = search_after(adjacency, start, goal, tolerance, (rounds - 1) as nat);
        if exists|v: usize| goes_on(before, goal, v) {
            settle(adjacency, before, choose|v: usize| goes_on(before, goal, v), tolerance)
        } else {
            before
        }
    }
}

/// Whether step `i` of a route is the step by which its end was reached.
pub open spec fn arrives(
    arrivals: Seq<Option<Arrival>>,
    start: int,
    steps: Seq<EdgeStep>,
    i: int,
) -> bool {
    &&& arrivals[steps[i].to as int] is Some
    &&& arrivals[steps[i].to as int]->0.from == route_vertex(start, steps, i)
    &&& arrivals[steps[i].to as int]->0.step == steps[i]
}

/// Whether every step of a route is the one by which the search came to the end of the step.
pub open spec fn follows_search(
    adjacency: Seq<Vec<EdgeStep>>,
    start: int,
    goal: int,
    tolerance: int,
    steps: Seq<EdgeStep>,
) -> bool {
    forall|i: int|
        0 <= i < steps.len() ==> #[trigger] arrives(
            search_after(adjacency, start, goal, tolerance, adjacency.len()).arrivals,
            start,
            steps,
            i,
        )
}

/// Whether a route is the one that the search finds, and of nearly the least length.
pub open spec fn is_search_route(
    adjacency: Seq<Vec<EdgeStep>>,
    start: int,
    goal: int,
    tolerance: int,
    steps: Seq<EdgeStep>,
) -> bool {
    &&& nearly_shortest(adjacency, start, goal, tolerance, steps)
    &&& follows_search(adjacency, start, goal, tolerance, steps)
}

/// Whether `path` is the path from `start` to `goal` that the search finds, of nearly the least
/// length, and visits no vertex twice.
pub open spec fn is_shortest_path(
    adjacency: Seq<Vec<EdgeStep>>,
    start: int,
    goal: int,
    tolerance: int,
    path: ShortestPath,
) -> bool {
    &&& path.vertices@.no_duplicates()
    &&& exists|steps: Seq<EdgeStep>|
        {
            &&& #[trigger] route_between(adjacency, start, goal, steps)
            &&& path_follows(path, start, steps)
            &&& is_search_route(adjacency, start, goal, tolerance, steps)
        }
}

/// The message for a goal that cannot be reached.
pub open spec fn no_path_text(start: int, goal: int) -> Seq<char> {
    "no path found from vertex "@ + decimal(start as nat) + " to "@ + decimal(goal as nat)
}

/// Whether `left` leaves the queue before `right`: the smaller cost goes first, and of two equal
/// costs the larger vertex.
spec fn leaves_first(left: QueueState, right: QueueState) -> bool {
    left.cost < right.cost || (left.cost == right.cost && left.vertex >= right.vertex)
}

/// Removes the entry that leaves the queue first.
fn pop_queue(queue: &mut Vec<QueueState>) -> (popped: Option<QueueState>)
    ensures
        old(queue).len() == 0 ==> popped is None && final(queue)@ == old(queue)@,
        old(queue).len() > 0 ==> popped is Some && exists|i: int|
            #![trigger old(queue)@[i]]
            0 <= i < old(queue).len() && popped->0 == old(queue)@[i] && final(queue)@ == old(
                queue,
            )@.remove(i) && forall|j: int|
                0 <= j < old(queue).len() ==> leaves_first(popped->0, #[trigger] old(queue)@[j]),
{
    if queue.len() == 0 {
        return None;
    }
    let mut best: usize = 0;
    let mut index: usize = 1;
    while index < queue.len()
        invariant
            best < queue.len(),
            1 <= index <= queue.len(),
            forall|j: int| 0 <= j < index ==> leaves_first(queue@[best as int], #[trigger] queue@[j]),
        decreases queue.len() - index,
    {
        let candidate: QueueState = queue[index];
        let current: QueueState = queue[best];
        if candidate.cost < current.cost || (candidate.cost == current.cost && candidate.vertex
            > current.vertex) {
            best = index;
        }
        index = index + 1;
    }
    let popped: QueueState = queue.remove(best);
    assert(popped == old(queue)@[best as int]);
    Some(popped)
}

/// The lengths of the best ways known, without a bound.
spec fn known_lengths(dist: Seq<Option<u128>>) -> Seq<Option<int>> {
    Seq::new(
        dist.len(),
        |v: int|
            match dist[v] {
                Some(length) => Some(length as int),
                None => None,
            },
    )
}

/// The stage of the search that the three lists stand for.
spec fn stage(
    dist: Seq<Option<u128>>,
    prev: Seq<Option<Arrival>>,
    order: Seq<usize>,
) -> Search {
    Search { distances: known_lengths(dist), arrivals: prev, settled: order }
}

/// Only one vertex is next.
proof fn lemma_next_unique(search: Search, v: usize, w: usize)
    requires
        is_next(search, v),
        is_next(search, w),
    ensures
        v == w,
{
    assert(is_pending(search, v) && is_pending(search, w));
}

/// Once no vertex is settled any more, further rounds change nothing.
proof fn lemma_search_rests(
    adjacency: Seq<Vec<EdgeStep>>,
    start: int,
    goal: int,
    tolerance: int,
    rounds: nat,
    more: nat,
)
    requires
        rounds <= more,
        forall|v: usize|
            !#[trigger] goes_on(search_after(adjacency, start, goal, tolerance, rounds), goal, v),
    ensures
        search_after(adjacency, start, goal, tolerance, more) == search_after(
            adjacency,
            start,
            goal,
            tolerance,
            rounds,
        ),
    decreases more,
{
    if rounds < more {
        lemma_search_rests(adjacency, start, goal, tolerance, rounds, (more - 1) as nat);
    }
}

/// A round settles the vertex that is next.
proof fn lemma_round(
    adjacency: Seq<Vec<EdgeStep>>,
    start: int,
    goal: int,
    tolerance: int,
    rounds: nat,
    v: usize,
)
    requires
        goes_on(search_after(adjacency, start, goal, tolerance, rounds), goal, v),
    ensures
        search_after(adjacency, start, goal, tolerance, rounds + 1) == settle(
            adjacency,
            search_after(adjacency, start, goal, tolerance, rounds),
            v,
            tolerance,
        ),
{
    let before = search_after(adjacency, start, goal, tolerance, rounds);
    let chosen = choose|w: usize| goes_on(before, goal, w);
    lemma_next_unique(before, chosen, v);
}

/// An unsettled vertex that leaves the queue with its distance is next.
proof fn lemma_next_in_queue(
    tolerance: int,
    dist: Seq<Option<u128>>,
    prev: Seq<Option<Arrival>>,
    queue: Seq<QueueState>,
    order: Seq<usize>,
    taken: int,
)
    requires
        queue_invariant(tolerance, dist, queue, order),
        0 <= taken < queue.len(),
        forall|j: int| 0 <= j < queue.len() ==> leaves_first(queue[taken], #[trigger] queue[j]),
        !order.contains(queue[taken].vertex),
        queue[taken].cost <= dist[queue[taken].vertex as int]->0,
        0 <= tolerance,
    ensures
        is_next(stage(dist, prev, order), queue[taken].vertex),
{
    let search = stage(dist, prev, order);
    let v = queue[taken].vertex;
    assert(is_pending(search, v));
    assert forall|w: usize| #[trigger] is_pending(search, w) implies search.distances[v as int]->0
        < search.distances[w as int]->0 || (search.distances[v as int]->0
        == search.distances[w as int]->0 && v >= w) by {
        assert(dist[w as int] is Some);
        let entry = QueueState { cost: dist[w as int]->0, vertex: w };
        let j = choose|j: int| 0 <= j < queue.len() && queue[j] == entry;
        assert(leaves_first(queue[taken], queue[j]));
    }
}

/// The facts that every stage of the search keeps. `order` lists the settled vertices in the
/// order in which they were settled.
spec fn search_invariant(
    adjacency: Seq<Vec<EdgeStep>>,
    start: int,
    goal: int,
    tolerance: int,
    dist: Seq<Option<u128>>,
    prev: Seq<Option<Arrival>>,
    order: Seq<usize>,
) -> bool {
    let n = adjacency.len();
    &&& adjacency_in_range(adjacency)
    &&& n <= usize::MAX
    &&& 0 <= start < n
    &&& 0 <= goal < n
    &&& start != goal
    &&& 0 <= tolerance
    &&& dist.len() == n
    &&& prev.len() == n
    &&& dist[start] == Some(0u128)
    &&& order.no_duplicates()
    &&& forall|i: int|
        #![trigger order[i]]
        0 <= i < order.len() ==> order[i] < n && order[i] != goal && dist[order[i] as int] is Some
            && dist[order[i] as int]->0 <= i * u64::MAX
    &&& forall|i: int, j: int|
        0 <= i < j < order.len() ==> dist[#[trigger] order[i] as int]->0
            <= dist[#[trigger] order[j] as int]->0
    &&& forall|v: int|
        #![trigger dist[v]]
        0 <= v < n && dist[v] is Some && v != start ==> prev[v] is Some && reached_through(
            adjacency,
            dist,
            order,
            v,
            prev[v]->0.from as int,
            prev[v]->0.step,
        )
    &&& forall|v: int, i: int|
        #![trigger dist[v], order[i]]
        0 <= v < n && dist[v] is Some && !order.contains(v as usize) && 0 <= i < order.len()
            ==> dist[order[i] as int]->0 <= dist[v]->0
    &&& (order.len() > 0 ==> order[0] == start)
}

/// Whether `v` was reached by `step` out of the settled vertex `p`, which was settled before `v`
/// where `v` is settled too.
spec fn reached_through(
    adjacency: Seq<Vec<EdgeStep>>,
    dist: Seq<Option<u128>>,
    order: Seq<usize>,
    v: int,
    p: int,
    step: EdgeStep,
) -> bool {
    &&& 0 <= p < adjacency.len()
    &&& steps_of(adjacency, p).contains(step)
    &&& step.to == v
    &&& dist[p] is Some
    &&& dist[v]->0 == dist[p]->0 + step.length
    &&& settled_before(order, p as usize, v as usize)
}

/// Whether `p` is settled, and before `v` where `v` is settled too.
spec fn settled_before(order: Seq<usize>, p: usize, v: usize) -> bool {
    exists|i: int|
        #![trigger order[i]]
        0 <= i < order.len() && order[i] == p && forall|j: int|
            #![trigger order[j]]
            0 <= j < order.len() && order[j] == v ==> i < j
}

/// Whether the first `done` steps out of `u` have been looked at.
spec fn relaxed(
    adjacency: Seq<Vec<EdgeStep>>,
    tolerance: int,
    dist: Seq<Option<u128>>,
    u: int,
    done: int,
) -> bool {
    forall|k: int|
        #![trigger steps_of(adjacency, u)[k]]
        0 <= k < done ==> dist[steps_of(adjacency, u)[k].to as int] is Some
            && dist[steps_of(adjacency, u)[k].to as int]->0 <= dist[u]->0 + steps_of(
            adjacency,
            u,
        )[k].length + tolerance
}

/// Whether all steps out of the first `count` settled vertices have been looked at.
spec fn all_relaxed(
    adjacency: Seq<Vec<EdgeStep>>,
    tolerance: int,
    dist: Seq<Option<u128>>,
    order: Seq<usize>,
    count: int,
) -> bool {
    forall|i: int|
        #![trigger order[i]]
        0 <= i < count ==> relaxed(
            adjacency,
            tolerance,
            dist,
            order[i] as int,
            steps_of(adjacency, order[i] as int).len() as int,
        )
}

/// Whether the queue holds each unsettled vertex with its distance, and otherwise only entries
/// that are out of date by more than the tolerance.
spec fn queue_invariant(
    tolerance: int,
    dist: Seq<Option<u128>>,
    queue: Seq<QueueState>,
    order: Seq<usize>,
) -> bool {
    &&& forall|i: int|
        #![trigger queue[i]]
        0 <= i < queue.len() ==> queue[i].vertex < dist.len() && dist[queue[i].vertex as int] is Some
            && (queue[i].cost == dist[queue[i].vertex as int]->0 || queue[i].cost
            > dist[queue[i].vertex as int]->0 + tolerance) && (order.contains(queue[i].vertex)
            ==> queue[i].cost > dist[queue[i].vertex as int]->0 + tolerance)
    &&& forall|i: int, j: int|
        #![trigger queue[i], queue[j]]
        0 <= i < j < queue.len() && queue[i].vertex == queue[j].vertex ==> queue[i].cost
            != queue[j].cost
    &&& forall|v: int|
        #![trigger dist[v]]
        0 <= v < dist.len() && dist[v] is Some && !order.contains(v as usize) ==> queue.contains(
            QueueState { cost: dist[v]->0, vertex: v as usize },
        )
}

proof fn lemma_order_len(order: Seq<usize>, n: nat)
    requires
        order.no_duplicates(),
        forall|i: int| 0 <= i < order.len() ==> #[trigger] order[i] < n,
    ensures
        order.len() <= n,
{
    let wide = order.map_values(|v: usize| v as int);
    assert(wide.no_duplicates());
    wide.unique_seq_to_set();
    let range = vstd::set_lib::set_int_range(0, n as int);
    vstd::set_lib::lemma_int_range(0, n as int);
    assert(wide.to_set().subset_of(range)) by {
        assert forall|x: int| wide.to_set().contains(x) implies range.contains(x) by {
            let i = choose|i: int| 0 <= i < wide.len() && wide[i] == x;
            assert(order[i] < n);
        }
    }
    vstd::set_lib::lemma_len_subset(wide.to_set(), range);
}

/// A shorter way to an unsettled vertex by a step out of the vertex that was settled last keeps
/// the facts of the search.
proof fn lemma_closer(
    adjacency: Seq<Vec<EdgeStep>>,
    start: int,
    goal: int,
    tolerance: int,
    dist: Seq<Option<u128>>,
    prev: Seq<Option<Arrival>>,
    queue: Seq<QueueState>,
    order: Seq<usize>,
    vertex: usize,
    step: EdgeStep,
    next_cost: u128,
)
    requires
        search_invariant(adjacency, start, goal, tolerance, dist, prev, order),
        queue_invariant(tolerance, dist, queue, order),
        order.len() > 0,
        order.last() == vertex,
        steps_of(adjacency, vertex as int).contains(step),
        step.to < adjacency.len(),
        dist[vertex as int] is Some,
        next_cost == dist[vertex as int]->0 + step.length,
        dist[step.to as int] is Some ==> next_cost + tolerance < dist[step.to as int]->0,
    ensures
        !order.contains(step.to),
        search_invariant(
            adjacency,
            start,
            goal,
            tolerance,
            dist.update(step.to as int, Some(next_cost)),
            prev.update(step.to as int, Some(Arrival { from: vertex, step })),
            order,
        ),
        queue_invariant(
            tolerance,
            dist.update(step.to as int, Some(next_cost)),
            queue.push(QueueState { cost: next_cost, vertex: step.to }),
            order,
        ),
        all_relaxed(adjacency, tolerance, dist, order, order.len() - 1) ==> all_relaxed(
            adjacency,
            tolerance,
            dist.update(step.to as int, Some(next_cost)),
            order,
            order.len() - 1,
        ),
{
    let target = step.to as int;
    let new_dist = dist.update(target, Some(next_cost));
    let new_prev = prev.update(target, Some(Arrival { from: vertex, step }));
    let new_queue = queue.push(QueueState { cost: next_cost, vertex: step.to });
    let end = order.len() - 1;
    assert(order[end] == vertex);
    if order.contains(step.to) {
        let i = choose|i: int| 0 <= i < order.len() && order[i] == step.to;
        if i < end {
            assert(dist[order[i] as int]->0 <= dist[order[end] as int]->0);
        }
        assert(false);
    }
    assert(order.contains(vertex));
    assert forall|i: int| 0 <= i < order.len() implies new_dist[#[trigger] order[i] as int]
        == dist[order[i] as int] by {
        assert(order.contains(order[i]));
    }
    assert(order[0] == start);
    assert forall|v: int| 0 <= v < new_dist.len() && (#[trigger] new_dist[v]) is Some && v
        != start implies new_prev[v] is Some && reached_through(
        adjacency,
        new_dist,
        order,
        v,
        new_prev[v]->0.from as int,
        new_prev[v]->0.step,
    ) by {
        if v != target {
            assert(dist[v] is Some);
            assert(reached_through(
                adjacency,
                dist,
                order,
                v,
                prev[v]->0.from as int,
                prev[v]->0.step,
            ));
        } else {
            assert(settled_before(order, vertex, step.to)) by {
                assert(order[end] == vertex);
                assert forall|j: int| 0 <= j < order.len() && #[trigger] order[j] == step.to implies end
                    < j by {
                    assert(order.contains(order[j]));
                }
            }
        }
    }
    assert forall|v: int, i: int|
        #![trigger new_dist[v], order[i]]
        0 <= v < new_dist.len() && new_dist[v] is Some && !order.contains(v as usize) && 0 <= i
            < order.len() implies new_dist[order[i] as int]->0 <= new_dist[v]->0 by {
        if v == target {
            if i < end {
                assert(dist[order[i] as int]->0 <= dist[order[end] as int]->0);
            }
        } else {
            assert(dist[v] is Some);
        }
    }
    assert forall|i: int| 0 <= i < new_queue.len() implies (#[trigger] new_queue[i]).vertex
        < new_dist.len() && new_dist[new_queue[i].vertex as int] is Some && (new_queue[i].cost
        == new_dist[new_queue[i].vertex as int]->0 || new_queue[i].cost
        > new_dist[new_queue[i].vertex as int]->0 + tolerance) && (order.contains(
        new_queue[i].vertex,
    ) ==> new_queue[i].cost > new_dist[new_queue[i].vertex as int]->0 + tolerance) by {
        if i < queue.len() {
            assert(new_queue[i] == queue[i]);
        }
    }
    assert forall|v: int|
        0 <= v < new_dist.len() && (#[trigger] new_dist[v]) is Some && !order.contains(
            v as usize,
        ) implies new_queue.contains((QueueState { cost: new_dist[v]->0, vertex: v as usize })) by {
        let entry = QueueState { cost: new_dist[v]->0, vertex: v as usize };
        if v == target {
            assert(new_queue[queue.len() as int] == entry);
        } else {
            assert(dist[v] is Some);
            let i = choose|i: int| 0 <= i < queue.len() && queue[i] == entry;
            assert(new_queue[i] == entry);
        }
    }
    if all_relaxed(adjacency, tolerance, dist, order, end) {
        assert forall|i: int| 0 <= i < end implies relaxed(
            adjacency,
            tolerance,
            new_dist,
            #[trigger] order[i] as int,
            steps_of(adjacency, order[i] as int).len() as int,
        ) by {
            assert(relaxed(
                adjacency,
                tolerance,
                dist,
                order[i] as int,
                steps_of(adjacency, order[i] as int).len() as int,
            ));
            assert(new_dist[order[i] as int] == dist[order[i] as int]);
        }
    }
}

/// Looks at the steps out of the vertex that was settled last.
fn relax_steps(
    adjacency: &Vec<Vec<EdgeStep>>,
    vertex: usize,
    cost: u128,
    tolerance: u64,
    dist: &mut Vec<Option<u128>>,
    prev: &mut Vec<Option<Arrival>>,
    queue: &mut Vec<QueueState>,
    Ghost(start): Ghost<int>,
    Ghost(goal): Ghost<int>,
    Ghost(order): Ghost<Seq<usize>>,
)
    requires
        search_invariant(
            adjacency@,
            start,
            goal,
            tolerance as int,
            old(dist)@,
            old(prev)@,
            order,
        ),
        queue_invariant(tolerance as int, old(dist)@, old(queue)@, order),
        order.len() > 0,
        order.last() == vertex,
        old(dist)@[vertex as int] == Some(cost),
        all_relaxed(adjacency@, tolerance as int, old(dist)@, order, order.len() - 1),
    ensures
        search_invariant(
            adjacency@,
            start,
            goal,
            tolerance as int,
            final(dist)@,
            final(prev)@,
            order,
        ),
        queue_invariant(tolerance as int, final(dist)@, final(queue)@, order),
        all_relaxed(adjacency@, tolerance as int, final(dist)@, order, order.len() as int),
        stage(final(dist)@, final(prev)@, order) == look_at_steps(
            stage(old(dist)@, old(prev)@, order),
            vertex,
            steps_of(adjacency@, vertex as int),
            steps_of(adjacency@, vertex as int).len() as int,
            tolerance as int,
        ),
{
    let ghost before = stage(dist@, prev@, order);
    let vertex_count: usize = adjacency.len();
    let last: usize = adjacency[vertex].len();
    let mut index: usize = 0;
    proof {
        assert forall|i: int| 0 <= i < order.len() implies #[trigger] order[i] < adjacency@.len() by {}
        lemma_order_len(order, adjacency@.len());
        assert(order[order.len() - 1] == vertex);
        assert(cost <= (order.len() - 1) * u64::MAX);
        assert((order.len() - 1) * u64::MAX <= (u64::MAX - 1) * u64::MAX) by (nonlinear_arith)
            requires
                0 < order.len() <= u64::MAX,
        ;
    }
    while index < last
        invariant
            last == steps_of(adjacency@, vertex as int).len(),
            vertex < adjacency.len(),
            index <= last,
            search_invariant(adjacency@, start, goal, tolerance as int, dist@, prev@, order),
            queue_invariant(tolerance as int, dist@, queue@, order),
            order.len() > 0,
            order.last() == vertex,
            cost <= (u64::MAX - 1) * u64::MAX,
            dist@[vertex as int] == Some(cost),
            all_relaxed(adjacency@, tolerance as int, dist@, order, order.len() - 1),
            relaxed(adjacency@, tolerance as int, dist@, vertex as int, index as int),
            stage(dist@, prev@, order) == look_at_steps(
                before,
                vertex,
                steps_of(adjacency@, vertex as int),
                index as int,
                tolerance as int,
            ),
        decreases last - index,
    {
        let step: EdgeStep = adjacency[vertex][index];
        assert(steps_of(adjacency@, vertex as int)[index as int] == step);
        let next_cost: u128 = cost + step.length as u128;
        let closer: bool = match dist[step.to] {
            Some(known) => next_cost + (tolerance as u128) < known,
            None => true,
        };
        let ghost reached = stage(dist@, prev@, order);
        let ghost known = dist@;
        assert(reached.distances[vertex as int] == Some(cost as int));
        if closer {
            proof {
                lemma_closer(
                    adjacency@,
                    start,
                    goal,
                    tolerance as int,
                    dist@,
                    prev@,
                    queue@,
                    order,
                    vertex,
                    step,
                    next_cost,
                );
                assert(order[order.len() - 1] == vertex);
                assert(order.contains(vertex));
            }
            dist.set(step.to, Some(next_cost));
            prev.set(step.to, Some(Arrival { from: vertex, step }));
            queue.push(QueueState { cost: next_cost, vertex: step.to });
            assert(known_lengths(dist@) =~= known_lengths(known).update(
                step.to as int,
                Some(next_cost as int),
            ));
        }
        assert(stage(dist@, prev@, order) == look_at(reached, vertex, step, tolerance as int));
        index = index + 1;
    }
    proof {
        assert forall|i: int| 0 <= i < order.len() implies relaxed(
            adjacency@,
            tolerance as int,
            dist@,
            #[trigger] order[i] as int,
            steps_of(adjacency@, order[i] as int).len() as int,
        ) by {
            if i == order.len() - 1 {
                assert(order[i] == vertex);
            }
        }
    }
}

proof fn lemma_push_contains(order: Seq<usize>, u: usize)
    ensures
        forall|v: usize| #[trigger]
            order.push(u).contains(v) == (order.contains(v) || v == u),
{
    let longer = order.push(u);
    assert forall|v: usize| #[trigger] longer.contains(v) == (order.contains(v) || v == u) by {
        if longer.contains(v) {
            let i = choose|i: int| 0 <= i < longer.len() && longer[i] == v;
            if i < order.len() {
                assert(order[i] == v);
            }
        }
        if order.contains(v) {
            let i = choose|i: int| 0 <= i < order.len() && order[i] == v;
            assert(longer[i] == v);
        }
        if v == u {
            assert(longer[order.len() as int] == u);
        }
    }
}

/// Settling an unsettled vertex that leaves the queue with its distance keeps the facts of the
/// search.
proof fn lemma_settle(
    adjacency: Seq<Vec<EdgeStep>>,
    start: int,
    goal: int,
    tolerance: int,
    dist: Seq<Option<u128>>,
    prev: Seq<Option<Arrival>>,
    queue: Seq<QueueState>,
    order: Seq<usize>,
    taken: int,
)
    requires
        search_invariant(adjacency, start, goal, tolerance, dist, prev, order),
        queue_invariant(tolerance, dist, queue, order),
        0 <= taken < queue.len(),
        forall|j: int| 0 <= j < queue.len() ==> leaves_first(queue[taken], #[trigger] queue[j]),
        queue[taken].vertex != goal,
        queue[taken].cost == dist[queue[taken].vertex as int]->0,
    ensures
        !order.contains(queue[taken].vertex),
        search_invariant(
            adjacency,
            start,
            goal,
            tolerance,
            dist,
            prev,
            order.push(queue[taken].vertex),
        ),
        order.len() < adjacency.len(),
{
    let u = queue[taken].vertex;
    let longer = order.push(u);
    assert(!order.contains(u));
    assert forall|v: int|
        0 <= v < dist.len() && (#[trigger] dist[v]) is Some && !order.contains(
            v as usize,
        ) implies dist[u as int]->0 <= dist[v]->0 by {
        let entry = QueueState { cost: dist[v]->0, vertex: v as usize };
        let j = choose|j: int| 0 <= j < queue.len() && queue[j] == entry;
        assert(leaves_first(queue[taken], queue[j]));
    }
    assert(longer.no_duplicates()) by {
        assert forall|i: int, j: int| 0 <= i < longer.len() && 0 <= j < longer.len() && i
            != j implies longer[i] != longer[j] by {
            if i < order.len() {
                assert(order.contains(order[i]));
            }
            if j < order.len() {
                assert(order.contains(order[j]));
            }
        }
    }
    assert(dist[u as int]->0 <= order.len() * u64::MAX) by {
        if u != start {
            assert(reached_through(
                adjacency,
                dist,
                order,
                u as int,
                prev[u as int]->0.from as int,
                prev[u as int]->0.step,
            ));
            let i = choose|i: int|
                #![trigger order[i]]
                0 <= i < order.len() && order[i] == prev[u as int]->0.from && forall|j: int|
                    #![trigger order[j]]
                    0 <= j < order.len() && order[j] == u ==> i < j;
            assert(dist[order[i] as int]->0 <= i * u64::MAX);
        }
    }
    assert forall|i: int| 0 <= i < longer.len() implies #[trigger] longer[i] < adjacency.len()
        && longer[i] != goal && dist[longer[i] as int] is Some && dist[longer[i] as int]->0 <= i
        * u64::MAX by {
        if i < order.len() {
            assert(longer[i] == order[i]);
        }
    }
    assert forall|i: int, j: int| 0 <= i < j < longer.len() implies dist[#[trigger] longer[i] as int]->0
        <= dist[#[trigger] longer[j] as int]->0 by {
        assert(longer[i] == order[i]);
        if j < order.len() {
            assert(longer[j] == order[j]);
        } else {
            assert(dist[u as int] is Some);
        }
    }
    assert forall|v: int| 0 <= v < adjacency.len() && (#[trigger] dist[v]) is Some && v
        != start implies prev[v] is Some && reached_through(
        adjacency,
        dist,
        longer,
        v,
        prev[v]->0.from as int,
        prev[v]->0.step,
    ) by {
        let from = prev[v]->0.from;
        assert(reached_through(adjacency, dist, order, v, from as int, prev[v]->0.step));
        let i = choose|i: int|
            #![trigger order[i]]
            0 <= i < order.len() && order[i] == from && forall|j: int|
                #![trigger order[j]]
                0 <= j < order.len() && order[j] == v as usize ==> i < j;
        assert(longer[i] == from);
        assert forall|j: int| 0 <= j < longer.len() && #[trigger] longer[j]
            == v as usize implies i < j by {
            if j < order.len() {
                assert(order[j] == v as usize);
            }
        }
    }
    lemma_push_contains(order, u);
    assert forall|v: int, i: int|
        #![trigger dist[v], longer[i]]
        0 <= v < adjacency.len() && dist[v] is Some && !longer.contains(v as usize) && 0 <= i
            < longer.len() implies dist[longer[i] as int]->0 <= dist[v]->0 by {
        assert(!order.contains(v as usize));
        if i < order.len() {
            assert(longer[i] == order[i]);
        }
    }
    if order.len() == 0 && u != start {
        assert(reached_through(
            adjacency,
            dist,
            order,
            u as int,
            prev[u as int]->0.from as int,
            prev[u as int]->0.step,
        ));
        assert(false);
    }
    assert(longer[0] == start) by {
        if order.len() > 0 {
            assert(longer[0] == order[0]);
        }
    }
    assert forall|i: int| 0 <= i < longer.len() implies #[trigger] longer[i] < adjacency.len() by {}
    lemma_order_len(longer, adjacency.len());
}

proof fn lemma_settle_queue(
    adjacency: Seq<Vec<EdgeStep>>,
    start: int,
    goal: int,
    tolerance: int,
    dist: Seq<Option<u128>>,
    prev: Seq<Option<Arrival>>,
    queue: Seq<QueueState>,
    order: Seq<usize>,
    taken: int,
)
    requires
        search_invariant(adjacency, start, goal, tolerance, dist, prev, order),
        queue_invariant(tolerance, dist, queue, order),
        0 <= taken < queue.len(),
        forall|j: int| 0 <= j < queue.len() ==> leaves_first(queue[taken], #[trigger] queue[j]),
        queue[taken].vertex != goal,
        queue[taken].cost == dist[queue[taken].vertex as int]->0,
    ensures
        queue_invariant(tolerance, dist, queue.remove(taken), order.push(queue[taken].vertex)),
{
    let u = queue[taken].vertex;
    let longer = order.push(u);
    let rest = queue.remove(taken);
    lemma_push_contains(order, u);
    assert forall|i: int| 0 <= i < rest.len() implies (#[trigger] rest[i]).vertex < dist.len()
        && dist[rest[i].vertex as int] is Some && (rest[i].cost == dist[rest[i].vertex as int]->0
        || rest[i].cost > dist[rest[i].vertex as int]->0 + tolerance) && (longer.contains(
        rest[i].vertex,
    ) ==> rest[i].cost > dist[rest[i].vertex as int]->0 + tolerance) by {
        let k = if i < taken {
            i
        } else {
            i + 1
        };
        assert(rest[i] == queue[k]);
        assert(longer.contains(rest[i].vertex) == (order.contains(rest[i].vertex) || rest[i].vertex
            == u));
        if rest[i].vertex == u {
            assert(queue[k].cost != queue[taken].cost);
        }
    }
    assert forall|i: int, j: int|
        #![trigger rest[i], rest[j]]
        0 <= i < j < rest.len() && rest[i].vertex == rest[j].vertex implies rest[i].cost
        != rest[j].cost by {
        let k = if i < taken {
            i
        } else {
            i + 1
        };
        let l = if j < taken {
            j
        } else {
            j + 1
        };
        assert(rest[i] == queue[k] && rest[j] == queue[l]);
    }
    assert forall|v: int|
        0 <= v < dist.len() && (#[trigger] dist[v]) is Some && !longer.contains(
            v as usize,
        ) implies rest.contains((QueueState { cost: dist[v]->0, vertex: v as usize })) by {
        assert(!order.contains(v as usize));
        let entry = QueueState { cost: dist[v]->0, vertex: v as usize };
        let j = choose|j: int| 0 <= j < queue.len() && queue[j] == entry;
        assert(j != taken);
        if j < taken {
            assert(rest[j] == entry);
        } else {
            assert(rest[j - 1] == entry);
        }
    }
}

proof fn lemma_route_length_monotone(steps: Seq<EdgeStep>, low: int, high: int)
    requires
        0 <= low <= high,
    ensures
        0 <= route_length(steps, low) <= route_length(steps, high),
    decreases high,
{
    if low < high {
        lemma_route_length_monotone(steps, low, high - 1);
    } else if high > 0 {
        lemma_route_length_monotone(steps, low - 1, high - 1);
    }
}

proof fn lemma_route_in_range(
    adjacency: Seq<Vec<EdgeStep>>,
    start: int,
    steps: Seq<EdgeStep>,
    count: int,
)
    requires
        adjacency_in_range(adjacency),
        0 <= start < adjacency.len(),
        is_route(adjacency, start, steps),
        0 <= count <= steps.len(),
    ensures
        0 <= route_vertex(start, steps, count) < adjacency.len(),
    decreases count,
{
    if count > 0 {
        lemma_route_in_range(adjacency, start, steps, count - 1);
        let from = route_vertex(start, steps, count - 1);
        assert(steps_of(adjacency, from).contains(steps[count - 1]));
        let k = choose|k: int|
            0 <= k < steps_of(adjacency, from).len() && steps_of(adjacency, from)[k] == steps[count
                - 1];
        assert(steps_of(adjacency, from)[k].to < adjacency.len());
    }
}

/// Along any route, either a vertex with a known distance is still unsettled, or the route has
/// stayed among the settled vertices; in both cases the distance is nearly the length so far.
proof fn lemma_route_frontier(
    adjacency: Seq<Vec<EdgeStep>>,
    start: int,
    goal: int,
    tolerance: int,
    dist: Seq<Option<u128>>,
    prev: Seq<Option<Arrival>>,
    order: Seq<usize>,
    other: Seq<EdgeStep>,
    count: int,
) -> (at: int)
    requires
        search_invariant(adjacency, start, goal, tolerance, dist, prev, order),
        all_relaxed(adjacency, tolerance, dist, order, order.len() as int),
        is_route(adjacency, start, other),
        0 <= count <= other.len(),
    ensures
        0 <= at <= count,
        0 <= route_vertex(start, other, at) < adjacency.len(),
        dist[route_vertex(start, other, at)] is Some,
        dist[route_vertex(start, other, at)]->0 <= route_length(other, at) + at * tolerance,
        at < count ==> !order.contains(route_vertex(start, other, at) as usize),
    decreases count,
{
    if count == 0 {
        0
    } else {
        let before = lemma_route_frontier(
            adjacency,
            start,
            goal,
            tolerance,
            dist,
            prev,
            order,
            other,
            count - 1,
        );
        let w = route_vertex(start, other, before);
        if before < count - 1 || !order.contains(w as usize) {
            before
        } else {
            let i = choose|i: int| 0 <= i < order.len() && order[i] == w as usize;
            assert(relaxed(
                adjacency,
                tolerance,
                dist,
                order[i] as int,
                steps_of(adjacency, order[i] as int).len() as int,
            ));
            let step = other[count - 1];
            assert(steps_of(adjacency, w).contains(step));
            let k = choose|k: int|
                0 <= k < steps_of(adjacency, w).len() && steps_of(adjacency, w)[k] == step;
            assert(steps_of(adjacency, w)[k].to < adjacency.len());
            assert(before * tolerance + tolerance == count * tolerance) by (nonlinear_arith)
                requires
                    before == count - 1,
            ;
            count
        }
    }
}

/// Reads the entries of a vector from the last to the first.
fn reversed<T: Copy>(items: &Vec<T>) -> (back: Vec<T>)
    ensures
        back.len() == items.len(),
        forall|i: int| 0 <= i < back.len() ==> #[trigger] back@[i] == items@[items.len() - 1 - i],
{
    let mut back: Vec<T> = Vec::new();
    let mut index: usize = items.len();
    while index > 0
        invariant
            index <= items.len(),
            back.len() == items.len() - index,
            forall|i: int|
                0 <= i < back.len() ==> #[trigger] back@[i] == items@[items.len() - 1 - i],
        decreases index,
    {
        index = index - 1;
        back.push(items[index]);
    }
    back
}

/// Whether every vertex that is not settled is at least as far away as the goal.
spec fn goal_is_next(dist: Seq<Option<u128>>, order: Seq<usize>, goal: int) -> bool {
    &&& dist[goal] is Some
    &&& forall|v: int|
        #![trigger dist[v]]
        0 <= v < dist.len() && dist[v] is Some && !order.contains(v as usize) ==> dist[goal]->0
            <= dist[v]->0
}

/// Whether every vertex with a known distance is settled.
spec fn nothing_left(dist: Seq<Option<u128>>, order: Seq<usize>) -> bool {
    forall|v: int|
        #![trigger dist[v]]
        0 <= v < dist.len() && dist[v] is Some ==> order.contains(v as usize)
}

proof fn lemma_goal_not_settled(
    adjacency: Seq<Vec<EdgeStep>>,
    start: int,
    goal: int,
    tolerance: int,
    dist: Seq<Option<u128>>,
    prev: Seq<Option<Arrival>>,
    order: Seq<usize>,
)
    requires
        search_invariant(adjacency, start, goal, tolerance, dist, prev, order),
    ensures
        !order.contains(goal as usize),
{
    if order.contains(goal as usize) {
        let i = choose|i: int| 0 <= i < order.len() && order[i] == goal as usize;
        assert(order[i] != goal);
    }
}

proof fn lemma_unreachable(
    adjacency: Seq<Vec<EdgeStep>>,
    start: int,
    goal: int,
    tolerance: int,
    dist: Seq<Option<u128>>,
    prev: Seq<Option<Arrival>>,
    order: Seq<usize>,
)
    requires
        search_invariant(adjacency, start, goal, tolerance, dist, prev, order),
        all_relaxed(adjacency, tolerance, dist, order, order.len() as int),
        nothing_left(dist, order),
    ensures
        dist[goal] is None,
        !reachable(adjacency, start, goal),
{
    lemma_goal_not_settled(adjacency, start, goal, tolerance, dist, prev, order);
    if reachable(adjacency, start, goal) {
        let other = choose|steps: Seq<EdgeStep>| #[trigger]
            route_between(adjacency, start, goal, steps);
        let at = lemma_route_frontier(
            adjacency,
            start,
            goal,
            tolerance,
            dist,
            prev,
            order,
            other,
            other.len() as int,
        );
        assert(order.contains(route_vertex(start, other, at) as usize));
    }
}

proof fn lemma_goal_distance(
    adjacency: Seq<Vec<EdgeStep>>,
    start: int,
    goal: int,
    tolerance: int,
    dist: Seq<Option<u128>>,
    prev: Seq<Option<Arrival>>,
    order: Seq<usize>,
    steps: Seq<EdgeStep>,
)
    requires
        search_invariant(adjacency, start, goal, tolerance, dist, prev, order),
        all_relaxed(adjacency, tolerance, dist, order, order.len() as int),
        goal_is_next(dist, order, goal),
        route_length(steps, steps.len() as int) == dist[goal]->0,
    ensures
        nearly_shortest(adjacency, start, goal, tolerance, steps),
{
    lemma_goal_not_settled(adjacency, start, goal, tolerance, dist, prev, order);
    assert forall|other: Seq<EdgeStep>| #[trigger]
        route_between(adjacency, start, goal, other) implies route_length(
        steps,
        steps.len() as int,
    ) <= route_length(other, other.len() as int) + other.len() * tolerance by {
        let at = lemma_route_frontier(
            adjacency,
            start,
            goal,
            tolerance,
            dist,
            prev,
            order,
            other,
            other.len() as int,
        );
        lemma_route_length_monotone(other, at, other.len() as int);
        assert(at * tolerance <= other.len() * tolerance) by (nonlinear_arith)
            requires
                0 <= at <= other.len(),
                0 <= tolerance,
        ;
        assert(!order.contains(route_vertex(start, other, at) as usize));
    }
}

/// Adds one step in front of a route.
proof fn lemma_route_prepend(
    adjacency: Seq<Vec<EdgeStep>>,
    from: int,
    goal: int,
    first: EdgeStep,
    steps: Seq<EdgeStep>,
)
    requires
        steps_of(adjacency, from).contains(first),
        route_between(adjacency, first.to as int, goal, steps),
    ensures
        route_between(adjacency, from, goal, seq![first] + steps),
        route_length(seq![first] + steps, (steps.len() + 1) as int) == first.length + route_length(
            steps,
            steps.len() as int,
        ),
        forall|i: int|
            0 < i <= steps.len() + 1 ==> #[trigger] route_vertex(from, seq![first] + steps, i)
                == route_vertex(first.to as int, steps, i - 1),
{
    let longer = seq![first] + steps;
    assert forall|i: int| 0 < i <= steps.len() + 1 implies #[trigger] route_vertex(from, longer, i)
        == route_vertex(first.to as int, steps, i - 1) by {
        if i > 1 {
            assert(longer[i - 1] == steps[i - 2]);
        }
    }
    assert forall|i: int| 0 <= i < longer.len() implies steps_of(
        adjacency,
        route_vertex(from, longer, i),
    ).contains(#[trigger] longer[i]) by {
        if i > 0 {
            assert(longer[i] == steps[i - 1]);
            assert(route_vertex(from, longer, i) == route_vertex(first.to as int, steps, i - 1));
        }
    }
    lemma_route_length_prepend(first, steps, steps.len() as int);
}

proof fn lemma_route_length_prepend(first: EdgeStep, steps: Seq<EdgeStep>, count: int)
    requires
        0 <= count <= steps.len(),
    ensures
        route_length(seq![first] + steps, count + 1) == first.length + route_length(steps, count),
    decreases count,
{
    let longer = seq![first] + steps;
    if count > 0 {
        lemma_route_length_prepend(first, steps, count - 1);
        assert(longer[count] == steps[count - 1]);
    } else {
        assert(route_length(longer, 0) == 0);
        assert(longer[0] == first);
    }
}

/// Follows the arrivals back from the goal.
fn trace_back(
    prev: &Vec<Option<Arrival>>,
    start: usize,
    goal: usize,
    Ghost(adjacency): Ghost<Seq<Vec<EdgeStep>>>,
    Ghost(tolerance): Ghost<int>,
    Ghost(dist): Ghost<Seq<Option<u128>>>,
    Ghost(order): Ghost<Seq<usize>>,
) -> (path: ShortestPath)
    requires
        search_invariant(
            adjacency,
            start as int,
            goal as int,
            tolerance,
            dist,
            prev@,
            order,
        ),
        dist[goal as int] is Some,
    ensures
        path.vertices@.no_duplicates(),
        exists|steps: Seq<EdgeStep>|
            {
                &&& #[trigger] route_between(adjacency, start as int, goal as int, steps)
                &&& path_follows(path, start as int, steps)
                &&& route_length(steps, steps.len() as int) == dist[goal as int]->0
                &&& forall|i: int|
                    0 <= i < steps.len() ==> #[trigger] arrives(prev@, start as int, steps, i)
            },
{
    let mut current: usize = goal;
    let mut back_vertices: Vec<usize> = vec![goal];
    let mut back_edges: Vec<(usize, i64)> = Vec::new();
    let ghost mut steps: Seq<EdgeStep> = Seq::empty();
    let ghost mut places: Seq<int> = seq![order.len() as int];
    proof {
        lemma_goal_not_settled(
            adjacency,
            start as int,
            goal as int,
            tolerance,
            dist,
            prev@,
            order,
        );
        assert(route_length(steps, 0) == 0);
    }
    while current != start
        invariant
            search_invariant(
                adjacency,
                start as int,
                goal as int,
                tolerance,
                dist,
                prev@,
                order,
            ),
            !order.contains(goal),
            current < dist.len(),
            dist[current as int] is Some,
            dist[goal as int] is Some,
            route_between(adjacency, current as int, goal as int, steps),
            route_length(steps, steps.len() as int) + dist[current as int]->0
                == dist[goal as int]->0,
            forall|i: int|
                0 <= i < steps.len() ==> #[trigger] arrives(prev@, current as int, steps, i),
            back_vertices.len() == steps.len() + 1,
            back_edges.len() == steps.len(),
            places.len() == back_vertices.len(),
            forall|i: int|
                0 <= i < back_vertices.len() ==> #[trigger] back_vertices@[i] == route_vertex(
                    current as int,
                    steps,
                    steps.len() - i,
                ),
            forall|i: int|
                0 <= i < back_edges.len() ==> #[trigger] back_edges@[i] == (
                    steps[steps.len() - 1 - i].edge_index,
                    steps[steps.len() - 1 - i].sign,
                ),
            forall|i: int, j: int|
                0 <= i < j < places.len() ==> #[trigger] places[i] > #[trigger] places[j],
            forall|i: int|
                #![trigger places[i]]
                0 <= i < places.len() ==> 0 <= places[i] <= order.len() && (if i == 0 {
                    places[i] == order.len() && back_vertices@[i] == goal
                } else {
                    places[i] < order.len() && order[places[i]] == back_vertices@[i]
                }),
        decreases places.last(),
    {
        assert(reached_through(
            adjacency,
            dist,
            order,
            current as int,
            prev@[current as int]->0.from as int,
            prev@[current as int]->0.step,
        ));
        if let Some(arrival) = prev[current] {
            let ghost at = choose|i: int|
                #![trigger order[i]]
                0 <= i < order.len() && order[i] == arrival.from && forall|j: int|
                    #![trigger order[j]]
                    0 <= j < order.len() && order[j] == current ==> i < j;
            let ghost old_vertices = back_vertices@;
            let ghost old_edges = back_edges@;
            let ghost old_steps = steps;
            let ghost old_places = places;
            proof {
                assert(back_vertices@[steps.len() as int] == current);
                assert(places[steps.len() as int] == places.last());
                if steps.len() > 0 {
                    assert(order[places.last()] == current);
                }
                assert(at < places.last());
                lemma_route_prepend(
                    adjacency,
                    arrival.from as int,
                    goal as int,
                    arrival.step,
                    steps,
                );
                steps = seq![arrival.step] + steps;
                places = places.push(at);
                assert forall|i: int| 0 <= i < steps.len() implies #[trigger] arrives(
                    prev@,
                    arrival.from as int,
                    steps,
                    i,
                ) by {
                    if i > 0 {
                        assert(steps[i] == old_steps[i - 1]);
                        assert(arrives(prev@, current as int, old_steps, i - 1));
                        assert(route_vertex(arrival.from as int, steps, i) == route_vertex(
                            current as int,
                            old_steps,
                            i - 1,
                        ));
                    }
                }
            }
            back_edges.push((arrival.step.edge_index, arrival.step.sign));
            back_vertices.push(arrival.from);
            proof {
                assert forall|i: int| 0 <= i < back_vertices.len() implies #[trigger] back_vertices@[i]
                    == route_vertex(arrival.from as int, steps, steps.len() - i) by {
                    if i < old_vertices.len() {
                        assert(back_vertices@[i] == old_vertices[i]);
                        assert(route_vertex(arrival.from as int, steps, steps.len() - i)
                            == route_vertex(current as int, old_steps, old_steps.len() - i));
                    }
                }
                assert forall|i: int| 0 <= i < back_edges.len() implies #[trigger] back_edges@[i] == (
                    steps[steps.len() - 1 - i].edge_index,
                    steps[steps.len() - 1 - i].sign,
                ) by {
                    if i < old_edges.len() {
                        assert(back_edges@[i] == old_edges[i]);
                        assert(steps[steps.len() - 1 - i] == old_steps[old_steps.len() - 1 - i]);
                    }
                }
                assert forall|i: int, j: int| 0 <= i < j < places.len() implies #[trigger] places[i]
                    > #[trigger] places[j] by {
                    assert(places[i] == old_places[i]);
                    if j < old_places.len() {
                        assert(places[j] == old_places[j]);
                    } else if i < old_places.len() - 1 {
                        assert(old_places[i] > old_places[old_places.len() - 1]);
                    }
                }
                assert forall|i: int| 0 <= i < places.len() implies 0 <= #[trigger] places[i]
                    <= order.len() && (if i == 0 {
                    places[i] == order.len() && back_vertices@[i] == goal
                } else {
                    places[i] < order.len() && order[places[i]] == back_vertices@[i]
                }) by {
                    if i < old_places.len() {
                        assert(places[i] == old_places[i]);
                        assert(back_vertices@[i] == old_vertices[i]);
                    }
                }
            }
            current = arrival.from;
        } else {
            assert(false);
        }
    }
    let vertices = reversed(&back_vertices);
    let edges = reversed(&back_edges);
    proof {
        assert forall|i: int, j: int| 0 <= i < vertices.len() && 0 <= j < vertices.len() && i
            != j implies vertices@[i] != vertices@[j] by {
            let k = vertices.len() - 1 - i;
            let l = vertices.len() - 1 - j;
            assert(vertices@[i] == back_vertices@[k] && vertices@[j] == back_vertices@[l]);
            assert(places[k] != places[l]);
            if k == 0 {
                assert(order.contains(order[places[l]]));
            } else if l == 0 {
                assert(order.contains(order[places[k]]));
            }
        }
        assert forall|i: int| 0 <= i < vertices.len() implies #[trigger] vertices@[i] == route_vertex(
            start as int,
            steps,
            i,
        ) by {
            assert(vertices@[i] == back_vertices@[vertices.len() - 1 - i]);
        }
        assert forall|i: int| 0 <= i < edges.len() implies #[trigger] edges@[i] == (
            steps[i].edge_index,
            steps[i].sign,
        ) by {
            assert(edges@[i] == back_edges@[edges.len() - 1 - i]);
        }
        assert(path_follows(ShortestPath { vertices, edges }, start as int, steps));
    }
    ShortestPath { vertices, edges }
}

/// Searches a shortest path from `start` to `goal`. Of equally near vertices the search goes on
/// from the largest. A way replaces the best one known only where it is shorter by more than
/// `tolerance`.
pub fn shortest_path(
    adjacency: &Vec<Vec<EdgeStep>>,
    start: usize,
    goal: usize,
    tolerance: u64,
) -> (result: Result<ShortestPath, String>)
    requires
        adjacency_in_range(adjacency@),
        start < adjacency.len(),
        goal < adjacency.len(),
    ensures
        result is Ok <==> reachable(adjacency@, start as int, goal as int),
        match result {
            Ok(path) => is_shortest_path(
                adjacency@,
                start as int,
                goal as int,
                tolerance as int,
                path,
            ),
            Err(message) => message@ == no_path_text(start as int, goal as int),
        },
{
    if start == goal {
        let path = ShortestPath { vertices: vec![start], edges: Vec::new() };
        proof {
            let steps = Seq::<EdgeStep>::empty();
            assert(route_between(adjacency@, start as int, goal as int, steps));
            assert(path_follows(path, start as int, steps));
            assert forall|other: Seq<EdgeStep>| #[trigger]
                route_between(adjacency@, start as int, goal as int, other) implies route_length(
                steps,
                steps.len() as int,
            ) <= route_length(other, other.len() as int) + other.len() * tolerance by {
                lemma_route_length_monotone(other, 0, other.len() as int);
                assert(0 <= other.len() * tolerance) by (nonlinear_arith)
                    requires
                        0 <= other.len(),
                        0 <= tolerance,
                ;
            }
            assert(nearly_shortest(
                adjacency@,
                start as int,
                goal as int,
                tolerance as int,
                steps,
            ));
            assert(is_search_route(
                adjacency@,
                start as int,
                goal as int,
                tolerance as int,
                steps,
            ));
        }
        return Ok(path);
    }
    let mut dist: Vec<Option<u128>> = Vec::new();
    let mut prev: Vec<Option<Arrival>> = Vec::new();
    while dist.len() < adjacency.len()
        invariant
            dist.len() <= adjacency.len(),
            prev.len() == dist.len(),
            forall|v: int| 0 <= v < dist.len() ==> (#[trigger] dist@[v]) is None,
            forall|v: int| 0 <= v < prev.len() ==> (#[trigger] prev@[v]) is None,
        decreases adjacency.len() - dist.len(),
    {
        dist.push(None);
        prev.push(None);
    }
    dist.set(start, Some(0));
    let mut queue: Vec<QueueState> = vec![QueueState { cost: 0, vertex: start }];
    let ghost mut order: Seq<usize> = Seq::empty();
    proof {
        assert(queue@[0] == (QueueState { cost: 0, vertex: start }));
        assert(queue@.contains((QueueState { cost: 0, vertex: start })));
        let open = opening(adjacency@.len(), start as int);
        assert(known_lengths(dist@) =~= open.distances);
        assert(prev@ =~= open.arrivals);
    }
    loop
        invariant_except_break
            queue_invariant(tolerance as int, dist@, queue@, order),
        invariant
            start != goal,
            search_invariant(
                adjacency@,
                start as int,
                goal as int,
                tolerance as int,
                dist@,
                prev@,
                order,
            ),
            all_relaxed(adjacency@, tolerance as int, dist@, order, order.len() as int),
            stage(dist@, prev@, order) == search_after(
                adjacency@,
                start as int,
                goal as int,
                tolerance as int,
                order.len(),
            ),
        ensures
            nothing_left(dist@, order) || goal_is_next(dist@, order, goal as int),
            forall|v: usize|
                !#[trigger] goes_on(stage(dist@, prev@, order), goal as int, v),
        decreases adjacency.len() - order.len(), queue.len(),
    {
        let ghost full = queue@;
        match pop_queue(&mut queue) {
            None => {
                assert(nothing_left(dist@, order)) by {
                    assert forall|v: int| 0 <= v < dist@.len() && (#[trigger] dist@[v]) is Some implies order.contains(
                    v as usize) by {
                        if !order.contains(v as usize) {
                            assert(full.contains(
                                (QueueState { cost: dist@[v]->0, vertex: v as usize }),
                            ));
                        }
                    }
                }
                assert forall|v: usize|
                    !#[trigger] goes_on(stage(dist@, prev@, order), goal as int, v) by {
                    if goes_on(stage(dist@, prev@, order), goal as int, v) {
                        assert(dist@[v as int] is Some);
                    }
                }
                break;
            },
            Some(state) => {
                let ghost taken = choose|i: int|
                    #![trigger full[i]]
                    0 <= i < full.len() && state == full[i] && queue@ == full.remove(i)
                        && forall|j: int|
                        0 <= j < full.len() ==> leaves_first(state, #[trigger] full[j]);
                assert(full[taken] == state);
                if state.vertex == goal {
                    proof {
                        lemma_goal_not_settled(
                            adjacency@,
                            start as int,
                            goal as int,
                            tolerance as int,
                            dist@,
                            prev@,
                            order,
                        );
                        assert forall|v: int|
                            0 <= v < dist@.len() && (#[trigger] dist@[v]) is Some && !order.contains(
                                v as usize,
                            ) implies dist@[goal as int]->0 <= dist@[v]->0 by {
                            let entry = QueueState { cost: dist@[v]->0, vertex: v as usize };
                            let j = choose|j: int| 0 <= j < full.len() && full[j] == entry;
                            assert(leaves_first(state, full[j]));
                        }
                        assert(dist@[goal as int] is Some);
                        assert(full.contains(
                            (QueueState { cost: dist@[goal as int]->0, vertex: goal }),
                        ));
                        lemma_next_in_queue(
                            tolerance as int,
                            dist@,
                            prev@,
                            full,
                            order,
                            taken,
                        );
                        assert forall|v: usize|
                            !#[trigger] goes_on(stage(dist@, prev@, order), goal as int, v) by {
                            if goes_on(stage(dist@, prev@, order), goal as int, v) {
                                lemma_next_unique(stage(dist@, prev@, order), v, goal);
                            }
                        }
                    }
                    break;
                }
                let stale: bool = match dist[state.vertex] {
                    Some(known) => {
                        proof {
                            lemma_distance_bound(
                                adjacency@,
                                start as int,
                                goal as int,
                                tolerance as int,
                                dist@,
                                prev@,
                                order,
                                state.vertex as int,
                            );
                        }
                        state.cost > known + (tolerance as u128)
                    },
                    None => true,
                };
                if stale {
                    proof {
                        lemma_drop_stale(
                            tolerance as int,
                            dist@,
                            full,
                            order,
                            taken,
                        );
                    }
                } else {
                    proof {
                        lemma_settle(
                            adjacency@,
                            start as int,
                            goal as int,
                            tolerance as int,
                            dist@,
                            prev@,
                            full,
                            order,
                            taken,
                        );
                        lemma_settle_queue(
                            adjacency@,
                            start as int,
                            goal as int,
                            tolerance as int,
                            dist@,
                            prev@,
                            full,
                            order,
                            taken,
                        );
                        lemma_next_in_queue(
                            tolerance as int,
                            dist@,
                            prev@,
                            full,
                            order,
                            taken,
                        );
                        let longer = order.push(state.vertex);
                        lemma_round(
                            adjacency@,
                            start as int,
                            goal as int,
                            tolerance as int,
                            order.len(),
                            state.vertex,
                        );
                        assert(stage(dist@, prev@, longer) == (Search {
                            settled: longer,
                            ..stage(dist@, prev@, order)
                        }));
                        assert forall|i: int| 0 <= i < longer.len() - 1 implies relaxed(
                            adjacency@,
                            tolerance as int,
                            dist@,
                            #[trigger] longer[i] as int,
                            steps_of(adjacency@, longer[i] as int).len() as int,
                        ) by {
                            assert(longer[i] == order[i]);
                        }
                        order = longer;
                    }
                    relax_steps(
                        adjacency,
                        state.vertex,
                        state.cost,
                        tolerance,
                        &mut dist,
                        &mut prev,
                        &mut queue,
                        Ghost(start as int),
                        Ghost(goal as int),
                        Ghost(order),
                    );
                }
            },
        }
    }
    if dist[goal].is_none() {
        let mut message = String::from_str("no path found from vertex ");
        message.append(count_text(start).as_str());
        message.append(" to ");
        message.append(count_text(goal).as_str());
        proof {
            lemma_unreachable(
                adjacency@,
                start as int,
                goal as int,
                tolerance as int,
                dist@,
                prev@,
                order,
            );
        }
        return Err(message);
    }
    proof {
        if nothing_left(dist@, order) {
            lemma_unreachable(
                adjacency@,
                start as int,
                goal as int,
                tolerance as int,
                dist@,
                prev@,
                order,
            );
        }
    }
    let path = trace_back(
        &prev,
        start,
        goal,
        Ghost(adjacency@),
        Ghost(tolerance as int),
        Ghost(dist@),
        Ghost(order),
    );
    proof {
        let steps = choose|steps: Seq<EdgeStep>|
            {
                &&& #[trigger] route_between(adjacency@, start as int, goal as int, steps)
                &&& path_follows(path, start as int, steps)
                &&& route_length(steps, steps.len() as int) == dist@[goal as int]->0
                &&& forall|i: int|
                    0 <= i < steps.len() ==> #[trigger] arrives(prev@, start as int, steps, i)
            };
        lemma_goal_distance(
            adjacency@,
            start as int,
            goal as int,
            tolerance as int,
            dist@,
            prev@,
            order,
            steps,
        );
        assert forall|i: int| 0 <= i < order.len() implies #[trigger] order[i] < adjacency@.len() by {}
        lemma_order_len(order, adjacency@.len());
        lemma_search_rests(
            adjacency@,
            start as int,
            goal as int,
            tolerance as int,
            order.len(),
            adjacency@.len(),
        );
        assert(follows_search(adjacency@, start as int, goal as int, tolerance as int, steps));
    }
    Ok(path)
}

proof fn lemma_distance_bound(
    adjacency: Seq<Vec<EdgeStep>>,
    start: int,
    goal: int,
    tolerance: int,
    dist: Seq<Option<u128>>,
    prev: Seq<Option<Arrival>>,
    order: Seq<usize>,
    v: int,
)
    requires
        search_invariant(adjacency, start, goal, tolerance, dist, prev, order),
        0 <= v < adjacency.len(),
        dist[v] is Some,
    ensures
        dist[v]->0 <= u64::MAX * u64::MAX,
{
    assert forall|i: int| 0 <= i < order.len() implies #[trigger] order[i] < adjacency.len() by {}
    lemma_order_len(order, adjacency.len());
    if v != start {
        let from = prev[v]->0.from;
        assert(reached_through(adjacency, dist, order, v, from as int, prev[v]->0.step));
        let i = choose|i: int|
            #![trigger order[i]]
            0 <= i < order.len() && order[i] == from && forall|j: int|
                #![trigger order[j]]
                0 <= j < order.len() && order[j] == v as usize ==> i < j;
        assert(dist[order[i] as int]->0 <= i * u64::MAX);
        assert(i * u64::MAX + u64::MAX <= u64::MAX * u64::MAX) by (nonlinear_arith)
            requires
                i + 1 <= u64::MAX,
        ;
    }
}

proof fn lemma_drop_stale(
    tolerance: int,
    dist: Seq<Option<u128>>,
    queue: Seq<QueueState>,
    order: Seq<usize>,
    taken: int,
)
    requires
        queue_invariant(tolerance, dist, queue, order),
        dist.len() <= usize::MAX,
        0 <= tolerance,
        0 <= taken < queue.len(),
        queue[taken].cost > dist[queue[taken].vertex as int]->0 + tolerance,
    ensures
        queue_invariant(tolerance, dist, queue.remove(taken), order),
{
    let rest = queue.remove(taken);
    assert forall|i: int| 0 <= i < rest.len() implies (#[trigger] rest[i]) == queue[if i < taken {
        i
    } else {
        i + 1
    }] by {}
    assert forall|v: int|
        0 <= v < dist.len() && (#[trigger] dist[v]) is Some && !order.contains(
            v as usize,
        ) implies rest.contains((QueueState { cost: dist[v]->0, vertex: v as usize })) by {
        let entry = QueueState { cost: dist[v]->0, vertex: v as usize };
        let j = choose|j: int| 0 <= j < queue.len() && queue[j] == entry;
        if j < taken {
            assert(rest[j] == entry);
        } else {
            assert(rest[j - 1] == entry);
        }
    }
}

/// Whether a search has come to no vertex on a way of negative length, and never back to `start`.
spec fn starts_at(search: Search, start: int) -> bool {
    &&& search.distances[start] == Some(0int)
    &&& search.arrivals[start] is None
    &&& forall|v: int|
        #![trigger search.distances[v]]
        0 <= v < search.distances.len() && search.distances[v] is Some ==> search.distances[v]->0
            >= 0
}

proof fn lemma_looking_keeps_start(
    search: Search,
    start: int,
    from: usize,
    steps: Seq<EdgeStep>,
    count: int,
    tolerance: int,
)
    requires
        starts_at(search, start),
        0 <= tolerance,
        0 <= start < search.distances.len(),
        search.arrivals.len() == search.distances.len(),
        from < search.distances.len(),
        search.distances[from as int] is Some,
        0 <= count <= steps.len(),
        forall|k: int|
            0 <= k < steps.len() ==> (#[trigger] steps[k]).to < search.distances.len(),
    ensures
        starts_at(look_at_steps(search, from, steps, count, tolerance), start),
        look_at_steps(search, from, steps, count, tolerance).distances.len()
            == search.distances.len(),
        look_at_steps(search, from, steps, count, tolerance).arrivals.len()
            == search.distances.len(),
        look_at_steps(search, from, steps, count, tolerance).distances[from as int] is Some,
    decreases count,
{
    if count > 0 {
        lemma_looking_keeps_start(search, start, from, steps, count - 1, tolerance);
        let before = look_at_steps(search, from, steps, count - 1, tolerance);
        let after = look_at(before, from, steps[count - 1], tolerance);
        assert forall|v: int|
            0 <= v < after.distances.len() && (
            #[trigger] after.distances[v]) is Some implies after.distances[v]->0 >= 0 by {
            assert(before.distances[v] is Some ==> before.distances[v]->0 >= 0);
            assert(before.distances[from as int]->0 >= 0);
        }
    }
}

proof fn lemma_search_keeps_start(
    adjacency: Seq<Vec<EdgeStep>>,
    start: int,
    goal: int,
    tolerance: int,
    rounds: nat,
)
    requires
        adjacency_in_range(adjacency),
        0 <= start < adjacency.len(),
        0 <= tolerance,
    ensures
        starts_at(search_after(adjacency, start, goal, tolerance, rounds), start),
        search_after(adjacency, start, goal, tolerance, rounds).distances.len() == adjacency.len(),
        search_after(adjacency, start, goal, tolerance, rounds).arrivals.len() == adjacency.len(),
    decreases rounds,
{
    if rounds > 0 {
        lemma_search_keeps_start(adjacency, start, goal, tolerance, (rounds - 1) as nat);
        let before = search_after(adjacency, start, goal, tolerance, (rounds - 1) as nat);
        if exists|v: usize| goes_on(before, goal, v) {
            let v = choose|v: usize| goes_on(before, goal, v);
            let settled = Search { settled: before.settled.push(v), ..before };
            let steps = steps_of(adjacency, v as int);
            assert forall|k: int| 0 <= k < steps.len() implies (#[trigger] steps[k]).to
                < settled.distances.len() by {
                assert(steps_of(adjacency, v as int)[k].to < adjacency.len());
            }
            lemma_looking_keeps_start(settled, start, v, steps, steps.len() as int, tolerance);
        }
    }
}

/// A search finds one route to a goal and no other.
pub proof fn lemma_search_route_unique(
    adjacency: Seq<Vec<EdgeStep>>,
    start: int,
    goal: int,
    tolerance: int,
    left: Seq<EdgeStep>,
    right: Seq<EdgeStep>,
)
    requires
        adjacency_in_range(adjacency),
        0 <= start < adjacency.len(),
        0 <= tolerance,
        route_between(adjacency, start, goal, left),
        route_between(adjacency, start, goal, right),
        follows_search(adjacency, start, goal, tolerance, left),
        follows_search(adjacency, start, goal, tolerance, right),
    ensures
        left == right,
{
    let arrivals = search_after(adjacency, start, goal, tolerance, adjacency.len()).arrivals;
    lemma_search_keeps_start(adjacency, start, goal, tolerance, adjacency.len());
    lemma_same_tails(arrivals, start, left, right);
}

/// Two routes that come to the same end by the steps of a search are the same.
proof fn lemma_same_tails(
    arrivals: Seq<Option<Arrival>>,
    start: int,
    left: Seq<EdgeStep>,
    right: Seq<EdgeStep>,
)
    requires
        arrivals[start] is None,
        route_vertex(start, left, left.len() as int) == route_vertex(
            start,
            right,
            right.len() as int,
        ),
        forall|i: int| 0 <= i < left.len() ==> #[trigger] arrives(arrivals, start, left, i),
        forall|i: int| 0 <= i < right.len() ==> #[trigger] arrives(arrivals, start, right, i),
    ensures
        left == right,
    decreases left.len(),
{
    if left.len() > 0 {
        assert(arrives(arrivals, start, left, left.len() - 1));
    }
    if right.len() > 0 {
        assert(arrives(arrivals, start, right, right.len() - 1));
    }
    if left.len() > 0 && right.len() > 0 {
        let (shorter, other) = (left.drop_last(), right.drop_last());
        assert forall|i: int| 0 <= i < shorter.len() implies #[trigger] arrives(
            arrivals,
            start,
            shorter,
            i,
        ) by {
            assert(arrives(arrivals, start, left, i));
        }
        assert forall|i: int| 0 <= i < other.len() implies #[trigger] arrives(
            arrivals,
            start,
            other,
            i,
        ) by {
            assert(arrives(arrivals, start, right, i));
        }
        assert(route_vertex(start, shorter, shorter.len() as int) == route_vertex(
            start,
            left,
            left.len() - 1,
        ));
        assert(route_vertex(start, other, other.len() as int) == route_vertex(
            start,
            right,
            right.len() - 1,
        ));
        lemma_same_tails(arrivals, start, shorter, other);
        assert(left =~= shorter.push(left.last()));
        assert(right =~= other.push(right.last()));
    } else {
        assert(left =~= right);
    }
}

} // verus!
