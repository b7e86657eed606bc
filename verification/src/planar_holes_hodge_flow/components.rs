//! Connected components of the mesh graph by union-find with path compression.

use vstd::prelude::*;

verus! {

/// Whether `rank` witnesses that following `parent` always ends at a root.
pub open spec fn ranked(parent: Seq<usize>, rank: Seq<nat>) -> bool {
    &&& rank.len() == parent.len()
    &&& forall|v: int|
        #![trigger parent[v]]
        0 <= v < parent.len() ==> parent[v] < parent.len() && (parent[v] != v ==> rank[parent[v] as int]
            < rank[v])
}

/// Whether `parent` is a forest: every vertex leads to a vertex that is its own parent.
pub open spec fn forest(parent: Seq<usize>) -> bool {
    exists|rank: Seq<nat>| ranked(parent, rank)
}

/// Some rank function of a forest.
pub open spec fn rank_of(parent: Seq<usize>) -> Seq<nat> {
    choose|rank: Seq<nat>| ranked(parent, rank)
}

/// The root that vertex `v` leads to.
pub open spec fn root(parent: Seq<usize>, v: int) -> int
    decreases rank_of(parent)[v],
    when forest(parent) && 0 <= v < parent.len()
{
    if parent[v] == v {
        v
    } else {
        root(parent, parent[v] as int)
    }
}

proof fn lemma_root(parent: Seq<usize>, rank: Seq<nat>, v: int)
    requires
        forest(parent),
        ranked(parent, rank),
        0 <= v < parent.len(),
    ensures
        0 <= root(parent, v) < parent.len(),
        parent[root(parent, v)] == root(parent, v),
        root(parent, root(parent, v)) == root(parent, v),
        parent[v] != v ==> rank[root(parent, v)] < rank[v],
        parent[v] == v ==> root(parent, v) == v,
    decreases rank_of(parent)[v],
{
    if parent[v] != v {
        lemma_root(parent, rank, parent[v] as int);
    }
}

/// Pointing a vertex straight at its root keeps the forest and all of its roots.
proof fn lemma_compress(parent: Seq<usize>, v: int, u: int)
    requires
        forest(parent),
        0 <= v < parent.len(),
        0 <= u < parent.len(),
    ensures
        forest(parent.update(v, root(parent, v) as usize)),
        root(parent.update(v, root(parent, v) as usize), u) == root(parent, u),
    decreases rank_of(parent)[u],
{
    let rank = rank_of(parent);
    lemma_root(parent, rank, v);
    let next = parent.update(v, root(parent, v) as usize);
    assert(ranked(next, rank));
    lemma_root(parent, rank, u);
    if u == v {
        if next[v] != v {
            lemma_root(next, rank, next[v] as int);
        }
    } else if parent[u] != u {
        lemma_compress(parent, v, parent[u] as int);
        assert(next[u] == parent[u]);
    }
}

proof fn lemma_compress_all(parent: Seq<usize>, v: int)
    requires
        forest(parent),
        0 <= v < parent.len(),
    ensures
        forest(parent.update(v, root(parent, v) as usize)),
        forall|u: int|
            #![trigger root(parent, u)]
            0 <= u < parent.len() ==> root(parent.update(v, root(parent, v) as usize), u) == root(
                parent,
                u,
            ),
{
    lemma_compress(parent, v, v);
    assert forall|u: int| 0 <= u < parent.len() implies root(
        parent.update(v, root(parent, v) as usize),
        u,
    ) == #[trigger] root(parent, u) by {
        lemma_compress(parent, v, u);
    }
}

/// Whether two parent sequences describe the same classes with the same roots.
pub open spec fn same_roots(before: Seq<usize>, after: Seq<usize>) -> bool {
    &&& after.len() == before.len()
    &&& forall|u: int|
        #![trigger root(before, u)]
        #![trigger root(after, u)]
        0 <= u < before.len() ==> root(after, u) == root(before, u)
}

/// Finds the root of `vertex` and points every vertex on the way straight at it.
pub fn find_vertex_root(parent: &mut Vec<usize>, vertex: usize) -> (found: usize)
    requires
        forest(old(parent)@),
        vertex < old(parent).len(),
    ensures
        forest(final(parent)@),
        same_roots(old(parent)@, final(parent)@),
        found == root(old(parent)@, vertex as int),
        found < old(parent).len(),
        final(parent)@[vertex as int] == found,
    decreases rank_of(old(parent)@)[vertex as int],
{
    let up: usize = parent[vertex];
    if up != vertex {
        proof {
            assert(ranked(parent@, rank_of(parent@)));
            assert(parent@[vertex as int] == up);
        }
        let found: usize = find_vertex_root(parent, up);
        proof {
            lemma_root(parent@, rank_of(parent@), vertex as int);
            assert(root(old(parent)@, vertex as int) == root(old(parent)@, up as int));
            assert(root(parent@, vertex as int) == found);
            lemma_compress_all(parent@, vertex as int);
            assert forall|u: int| 0 <= u < old(parent)@.len() implies root(
                parent@.update(vertex as int, found),
                u,
            ) == #[trigger] root(old(parent)@, u) by {
                assert(root(parent@, u) == root(old(parent)@, u));
            }
        }
        parent.set(vertex, found);
        found
    } else {
        vertex
    }
}

/// Hanging root `rr` below root `lr` merges exactly these two classes.
proof fn lemma_union(parent: Seq<usize>, lr: int, rr: int, u: int)
    requires
        forest(parent),
        0 <= lr < parent.len(),
        0 <= rr < parent.len(),
        parent[lr] == lr,
        parent[rr] == rr,
        lr != rr,
        0 <= u < parent.len(),
    ensures
        forest(parent.update(rr, lr as usize)),
        root(parent.update(rr, lr as usize), u) == (if root(parent, u) == rr {
            lr
        } else {
            root(parent, u)
        }),
    decreases rank_of(parent)[u],
{
    let rank = rank_of(parent);
    let next = parent.update(rr, lr as usize);
    let lifted = Seq::new(
        parent.len(),
        |x: int|
            if root(parent, x) == rr {
                rank[x] + rank[lr] + 1
            } else {
                rank[x]
            },
    );
    assert(ranked(next, lifted)) by {
        lemma_root(parent, rank, rr);
        lemma_root(parent, rank, lr);
        assert forall|x: int| 0 <= x < next.len() implies #[trigger] next[x] < next.len() && (next[x]
            != x ==> lifted[next[x] as int] < lifted[x]) by {
            assert(parent[x] < parent.len());
            if x != rr && parent[x] != x {
                assert(root(parent, x) == root(parent, parent[x] as int));
            }
        }
    }
    lemma_root(parent, rank, u);
    if u == rr {
        lemma_root(next, lifted, lr);
    } else if parent[u] != u {
        lemma_union(parent, lr, rr, parent[u] as int);
    }
}

/// Merges the classes of `lhs` and `rhs`; the root of `lhs` is the root of the merged class.
pub fn union_vertices(parent: &mut Vec<usize>, lhs: usize, rhs: usize)
    requires
        forest(old(parent)@),
        lhs < old(parent).len(),
        rhs < old(parent).len(),
    ensures
        forest(final(parent)@),
        final(parent).len() == old(parent).len(),
        forall|u: int|
            #![trigger root(final(parent)@, u)]
            #![trigger root(old(parent)@, u)]
            0 <= u < old(parent).len() ==> root(final(parent)@, u) == merged_root(
                root(old(parent)@, lhs as int),
                root(old(parent)@, rhs as int),
                root(old(parent)@, u),
            ),
{
    let lhs_root: usize = find_vertex_root(parent, lhs);
    let ghost first = parent@;
    proof {
        assert(root(first, rhs as int) == root(old(parent)@, rhs as int));
    }
    let rhs_root: usize = find_vertex_root(parent, rhs);
    let ghost second = parent@;
    proof {
        assert forall|u: int| 0 <= u < second.len() implies #[trigger] root(second, u) == root(
            old(parent)@,
            u,
        ) by {
            assert(root(first, u) == root(old(parent)@, u));
        }
        lemma_root(second, rank_of(second), lhs as int);
        lemma_root(second, rank_of(second), rhs as int);
        assert(root(second, lhs as int) == lhs_root);
        assert(root(second, rhs as int) == rhs_root);
    }
    if lhs_root != rhs_root {
        parent.set(rhs_root, lhs_root);
        proof {
            lemma_union(second, lhs_root as int, rhs_root as int, 0);
            assert forall|u: int| 0 <= u < second.len() implies #[trigger] root(parent@, u)
                == merged_root(
                root(old(parent)@, lhs as int),
                root(old(parent)@, rhs as int),
                root(old(parent)@, u),
            ) by {
                lemma_union(second, lhs_root as int, rhs_root as int, u);
                assert(root(second, u) == root(old(parent)@, u));
            }
        }
    }
}

/// The root of a class with root `own` once the classes rooted at `lhs` and `rhs` are one.
pub open spec fn merged_root(lhs: int, rhs: int, own: int) -> int {
    if own == rhs {
        lhs
    } else {
        own
    }
}

/// The representative of vertex `v` once the first `count` edges have been merged in order: the
/// representative of an edge's first vertex stands for the merged class.
pub open spec fn representative(edges: Seq<(usize, usize)>, count: nat, v: int) -> int
    decreases count,
{
    if count == 0 {
        v
    } else {
        let before = (count - 1) as nat;
        let edge = edges[count - 1];
        merged_root(
            representative(edges, before, edge.0 as int),
            representative(edges, before, edge.1 as int),
            representative(edges, before, v),
        )
    }
}

/// Whether both ends of every edge are vertices below `vertex_count`.
pub open spec fn edges_in_range(vertex_count: nat, edges: Seq<(usize, usize)>) -> bool {
    forall|e: int|
        #![trigger edges[e]]
        0 <= e < edges.len() ==> edges[e].0 < vertex_count && edges[e].1 < vertex_count
}

/// Whether `u` and `v` are the two ends of an edge.
pub open spec fn adjacent(edges: Seq<(usize, usize)>, u: int, v: int) -> bool {
    exists|e: int|
        #![trigger edges[e]]
        0 <= e < edges.len() && ((edges[e].0 == u && edges[e].1 == v) || (edges[e].0 == v
            && edges[e].1 == u))
}

/// Whether `walk` is a nonempty sequence of vertices in which neighbours are joined by an edge.
pub open spec fn is_walk(edges: Seq<(usize, usize)>, walk: Seq<int>) -> bool {
    &&& walk.len() > 0
    &&& forall|i: int| 0 <= i < walk.len() - 1 ==> #[trigger] adjacent(edges, walk[i], walk[i + 1])
}

/// Whether a walk leads from `u` to `v`.
pub open spec fn connected(edges: Seq<(usize, usize)>, u: int, v: int) -> bool {
    exists|walk: Seq<int>| #[trigger]
        is_walk(edges, walk) && walk.first() == u && walk.last() == v
}

/// Every vertex is connected to itself.
pub proof fn lemma_connected_reflexive(edges: Seq<(usize, usize)>, u: int)
    ensures
        connected(edges, u, u),
{
    let walk = seq![u];
    assert(is_walk(edges, walk));
    assert(walk.first() == u && walk.last() == u);
}

/// A walk can be followed back.
pub proof fn lemma_connected_symmetric(edges: Seq<(usize, usize)>, u: int, v: int)
    requires
        connected(edges, u, v),
    ensures
        connected(edges, v, u),
{
    let walk = choose|walk: Seq<int>| #[trigger]
        is_walk(edges, walk) && walk.first() == u && walk.last() == v;
    let back = Seq::new(walk.len(), |i: int| walk[walk.len() - 1 - i]);
    assert(is_walk(edges, back)) by {
        assert forall|i: int| 0 <= i < back.len() - 1 implies #[trigger] adjacent(
            edges,
            back[i],
            back[i + 1],
        ) by {
            let j = walk.len() - 2 - i;
            assert(adjacent(edges, walk[j], walk[j + 1]));
            let e = choose|e: int|
                #![trigger edges[e]]
                0 <= e < edges.len() && ((edges[e].0 == walk[j] && edges[e].1 == walk[j + 1]) || (
                edges[e].0 == walk[j + 1] && edges[e].1 == walk[j]));
            assert(edges[e] == edges[e]);
        }
    }
    assert(back.first() == v && back.last() == u);
}

/// Two walks make up one where the first ends at the start of the second.
pub proof fn lemma_connected_transitive(edges: Seq<(usize, usize)>, u: int, v: int, w: int)
    requires
        connected(edges, u, v),
        connected(edges, v, w),
    ensures
        connected(edges, u, w),
{
    let first = choose|walk: Seq<int>| #[trigger]
        is_walk(edges, walk) && walk.first() == u && walk.last() == v;
    let second = choose|walk: Seq<int>| #[trigger]
        is_walk(edges, walk) && walk.first() == v && walk.last() == w;
    let joined = first + second.skip(1);
    assert(is_walk(edges, joined)) by {
        assert forall|i: int| 0 <= i < joined.len() - 1 implies #[trigger] adjacent(
            edges,
            joined[i],
            joined[i + 1],
        ) by {
            if i < first.len() - 1 {
                assert(adjacent(edges, first[i], first[i + 1]));
            } else {
                let j = i - (first.len() - 1);
                assert(adjacent(edges, second[j], second[j + 1]));
                assert(joined[i] == second[j]);
                assert(joined[i + 1] == second[j + 1]);
            }
        }
    }
    assert(joined.first() == u);
    assert(joined.last() == w);
}

proof fn lemma_connected_monotone(edges: Seq<(usize, usize)>, count: int, u: int, v: int)
    requires
        0 <= count < edges.len(),
        connected(edges.take(count), u, v),
    ensures
        connected(edges.take(count + 1), u, v),
{
    let walk = choose|walk: Seq<int>| #[trigger]
        is_walk(edges.take(count), walk) && walk.first() == u && walk.last() == v;
    assert(is_walk(edges.take(count + 1), walk)) by {
        assert forall|i: int| 0 <= i < walk.len() - 1 implies #[trigger] adjacent(
            edges.take(count + 1),
            walk[i],
            walk[i + 1],
        ) by {
            assert(adjacent(edges.take(count), walk[i], walk[i + 1]));
            let e = choose|e: int|
                #![trigger edges.take(count)[e]]
                0 <= e < count && ((edges.take(count)[e].0 == walk[i] && edges.take(count)[e].1
                    == walk[i + 1]) || (edges.take(count)[e].0 == walk[i + 1] && edges.take(
                    count,
                )[e].1 == walk[i]));
            assert(edges.take(count + 1)[e] == edges.take(count)[e]);
        }
    }
}

proof fn lemma_representative_sound(edges: Seq<(usize, usize)>, count: nat, u: int)
    requires
        count <= edges.len(),
    ensures
        connected(edges.take(count as int), u, representative(edges, count, u)),
    decreases count,
{
    if count == 0 {
        lemma_connected_reflexive(edges.take(0), u);
    } else {
        let before = (count - 1) as nat;
        let taken = edges.take(count as int);
        let edge = edges[count - 1];
        let (a, b) = (edge.0 as int, edge.1 as int);
        lemma_representative_sound(edges, before, u);
        lemma_representative_sound(edges, before, a);
        lemma_representative_sound(edges, before, b);
        lemma_connected_monotone(edges, before as int, u, representative(edges, before, u));
        lemma_connected_monotone(edges, before as int, a, representative(edges, before, a));
        lemma_connected_monotone(edges, before as int, b, representative(edges, before, b));
        if representative(edges, before, u) == representative(edges, before, b) {
            lemma_connected_symmetric(taken, b, representative(edges, before, b));
            assert(connected(taken, b, a)) by {
                let walk = seq![b, a];
                assert(taken[count - 1] == edge);
                assert(adjacent(taken, walk[0], walk[1]));
                assert(is_walk(taken, walk));
                assert(walk.first() == b && walk.last() == a);
            }
            lemma_connected_transitive(taken, u, representative(edges, before, b), b);
            lemma_connected_transitive(taken, u, b, a);
            lemma_connected_transitive(taken, u, a, representative(edges, before, a));
        }
    }
}

proof fn lemma_representative_edge(edges: Seq<(usize, usize)>, count: nat, e: int)
    requires
        0 <= e < count <= edges.len(),
    ensures
        representative(edges, count, edges[e].0 as int) == representative(
            edges,
            count,
            edges[e].1 as int,
        ),
    decreases count,
{
    if e < count - 1 {
        lemma_representative_edge(edges, (count - 1) as nat, e);
    }
}

proof fn lemma_representative_walk(edges: Seq<(usize, usize)>, walk: Seq<int>)
    requires
        is_walk(edges, walk),
    ensures
        representative(edges, edges.len(), walk.first()) == representative(
            edges,
            edges.len(),
            walk.last(),
        ),
    decreases walk.len(),
{
    if walk.len() > 1 {
        let shorter = walk.drop_last();
        assert(is_walk(edges, shorter)) by {
            assert forall|i: int| 0 <= i < shorter.len() - 1 implies #[trigger] adjacent(
                edges,
                shorter[i],
                shorter[i + 1],
            ) by {
                assert(adjacent(edges, walk[i], walk[i + 1]));
            }
        }
        lemma_representative_walk(edges, shorter);
        let i = walk.len() - 2;
        assert(adjacent(edges, walk[i], walk[i + 1]));
        let e = choose|e: int|
            #![trigger edges[e]]
            0 <= e < edges.len() && ((edges[e].0 == walk[i] && edges[e].1 == walk[i + 1]) || (
            edges[e].0 == walk[i + 1] && edges[e].1 == walk[i]));
        lemma_representative_edge(edges, edges.len(), e);
    }
}

/// Two vertices have the same representative exactly where a walk joins them.
pub proof fn lemma_representative_decides_connection(edges: Seq<(usize, usize)>, u: int, v: int)
    ensures
        representative(edges, edges.len(), u) == representative(edges, edges.len(), v)
            <==> connected(edges, u, v),
{
    assert(edges.take(edges.len() as int) =~= edges);
    if connected(edges, u, v) {
        let walk = choose|walk: Seq<int>| #[trigger]
            is_walk(edges, walk) && walk.first() == u && walk.last() == v;
        lemma_representative_walk(edges, walk);
    }
    if representative(edges, edges.len(), u) == representative(edges, edges.len(), v) {
        lemma_representative_sound(edges, edges.len(), u);
        lemma_representative_sound(edges, edges.len(), v);
        lemma_connected_symmetric(edges, v, representative(edges, edges.len(), v));
        lemma_connected_transitive(edges, u, representative(edges, edges.len(), u), v);
    }
}

/// Whether `members` picks exactly one vertex out of every connected component.
pub open spec fn component_system(
    vertex_count: nat,
    edges: Seq<(usize, usize)>,
    members: Seq<usize>,
) -> bool {
    &&& forall|i: int| 0 <= i < members.len() ==> #[trigger] members[i] < vertex_count
    &&& forall|i: int, j: int|
        0 <= i < j < members.len() ==> !connected(
            edges,
            #[trigger] members[i] as int,
            #[trigger] members[j] as int,
        )
    &&& forall|v: int|
        #![trigger covered(edges, members, v)]
        0 <= v < vertex_count ==> covered(edges, members, v)
}

/// Whether some member is connected to `v`.
pub open spec fn covered(edges: Seq<(usize, usize)>, members: Seq<usize>, v: int) -> bool {
    exists|i: int| 0 <= i < members.len() && connected(edges, v, #[trigger] members[i] as int)
}

/// Whether the graph has `count` connected components.
pub open spec fn has_component_count(
    vertex_count: nat,
    edges: Seq<(usize, usize)>,
    count: nat,
) -> bool {
    exists|members: Seq<usize>| #[trigger]
        component_system(vertex_count, edges, members) && members.len() == count
}

proof fn lemma_component_system_no_longer(
    vertex_count: nat,
    edges: Seq<(usize, usize)>,
    left: Seq<usize>,
    right: Seq<usize>,
)
    requires
        component_system(vertex_count, edges, left),
        component_system(vertex_count, edges, right),
    ensures
        left.len() <= right.len(),
{
    let partner = |i: int|
        choose|j: int|
            0 <= j < right.len() && connected(edges, left[i] as int, #[trigger] right[j] as int);
    assert forall|i: int| 0 <= i < left.len() implies 0 <= #[trigger] partner(i) < right.len()
        && connected(edges, left[i] as int, right[partner(i)] as int) by {
        assert(covered(edges, right, left[i] as int));
    }
    assert forall|i: int, j: int|
        0 <= i < left.len() && 0 <= j < left.len() && #[trigger] partner(i) == #[trigger] partner(
            j,
        ) implies i == j by {
        lemma_connected_symmetric(edges, left[j] as int, right[partner(j)] as int);
        lemma_connected_transitive(
            edges,
            left[i] as int,
            right[partner(i)] as int,
            left[j] as int,
        );
        lemma_connected_symmetric(edges, left[i] as int, left[j] as int);
        assert(left[i] == left[i] && left[j] == left[j]);
    }
    let indices = vstd::set_lib::set_int_range(0, left.len() as int);
    let targets = vstd::set_lib::set_int_range(0, right.len() as int);
    vstd::set_lib::lemma_int_range(0, left.len() as int);
    vstd::set_lib::lemma_int_range(0, right.len() as int);
    assert forall|i: int, j: int|
        indices.contains(i) && indices.contains(j) && #[trigger] partner(i) == #[trigger] partner(
            j,
        ) implies i == j by {}
    vstd::set_lib::lemma_map_size(indices, indices.map(partner), partner);
    assert(indices.map(partner).subset_of(targets));
    vstd::set_lib::lemma_len_subset(indices.map(partner), targets);
}

/// A graph has only one number of connected components.
pub proof fn lemma_component_count_unique(
    vertex_count: nat,
    edges: Seq<(usize, usize)>,
    first: nat,
    second: nat,
)
    requires
        has_component_count(vertex_count, edges, first),
        has_component_count(vertex_count, edges, second),
    ensures
        first == second,
{
    let left = choose|members: Seq<usize>| #[trigger]
        component_system(vertex_count, edges, members) && members.len() == first;
    let right = choose|members: Seq<usize>| #[trigger]
        component_system(vertex_count, edges, members) && members.len() == second;
    lemma_component_system_no_longer(vertex_count, edges, left, right);
    lemma_component_system_no_longer(vertex_count, edges, right, left);
}

/// The forest in which the edges have been merged in order.
fn merged_forest(vertex_count: usize, edges: &Vec<(usize, usize)>) -> (parent: Vec<usize>)
    requires
        edges_in_range(vertex_count as nat, edges@),
    ensures
        forest(parent@),
        parent.len() == vertex_count,
        forall|u: int|
            #![trigger root(parent@, u)]
            0 <= u < vertex_count ==> root(parent@, u) == representative(
                edges@,
                edges@.len(),
                u,
            ),
{
    let mut parent: Vec<usize> = Vec::new();
    let mut vertex: usize = 0;
    while vertex < vertex_count
        invariant
            vertex <= vertex_count,
            parent.len() == vertex,
            forall|u: int| 0 <= u < vertex ==> #[trigger] parent@[u] == u,
        decreases vertex_count - vertex,
    {
        parent.push(vertex);
        vertex = vertex + 1;
    }
    proof {
        assert(ranked(parent@, Seq::new(vertex_count as nat, |u: int| 0nat)));
    }
    let mut index: usize = 0;
    while index < edges.len()
        invariant
            index <= edges.len(),
            edges_in_range(vertex_count as nat, edges@),
            forest(parent@),
            parent.len() == vertex_count,
            forall|u: int|
                #![trigger root(parent@, u)]
                0 <= u < vertex_count ==> root(parent@, u) == representative(
                    edges@,
                    index as nat,
                    u,
                ),
        decreases edges.len() - index,
    {
        let edge: (usize, usize) = edges[index];
        let ghost before = parent@;
        assert(edges@[index as int].0 < vertex_count);
        union_vertices(&mut parent, edge.0, edge.1);
        proof {
            assert forall|u: int| 0 <= u < vertex_count implies #[trigger] root(parent@, u)
                == representative(edges@, (index + 1) as nat, u) by {
                assert(root(before, u) == representative(edges@, index as nat, u));
                assert(root(before, edge.0 as int) == representative(
                    edges@,
                    index as nat,
                    edge.0 as int,
                ));
                assert(root(before, edge.1 as int) == representative(
                    edges@,
                    index as nat,
                    edge.1 as int,
                ));
            }
        }
        index = index + 1;
    }
    parent
}

/// Counts the connected components of a graph.
pub fn component_count(vertex_count: usize, edges: &Vec<(usize, usize)>) -> (count: usize)
    requires
        edges_in_range(vertex_count as nat, edges@),
    ensures
        has_component_count(vertex_count as nat, edges@, count as nat),
        count <= vertex_count,
        vertex_count > 0 ==> count > 0,
{
    let mut parent = merged_forest(vertex_count, edges);
    let mut count: usize = 0;
    let mut vertex: usize = 0;
    let ghost mut members: Seq<usize> = Seq::empty();
    let ghost start = parent@;
    while vertex < vertex_count
        invariant
            vertex <= vertex_count,
            forest(parent@),
            forest(start),
            parent.len() == vertex_count,
            start.len() == vertex_count,
            same_roots(start, parent@),
            count <= vertex,
            members.len() == count,
            forall|i: int|
                0 <= i < members.len() ==> #[trigger] members[i] < vertex && root(
                    start,
                    members[i] as int,
                ) == members[i],
            forall|i: int, j: int|
                0 <= i < j < members.len() ==> #[trigger] members[i] < #[trigger] members[j],
            forall|v: int|
                0 <= v < vertex && #[trigger] root(start, v) == v ==> members.contains(v as usize),
        decreases vertex_count - vertex,
    {
        let ghost before = parent@;
        let found: usize = find_vertex_root(&mut parent, vertex);
        proof {
            assert(root(before, vertex as int) == root(start, vertex as int));
            assert forall|u: int| 0 <= u < start.len() implies #[trigger] root(parent@, u) == root(
                start,
                u,
            ) by {
                assert(root(before, u) == root(start, u));
            }
        }
        if found == vertex {
            proof {
                let grown = members.push(vertex);
                assert forall|v: int| 0 <= v < vertex + 1 && #[trigger] root(start, v)
                    == v implies grown.contains(v as usize) by {
                    if v == vertex {
                        assert(grown[members.len() as int] == vertex);
                    } else {
                        let i = choose|i: int| 0 <= i < members.len() && members[i] == v as usize;
                        assert(grown[i] == v as usize);
                    }
                }
                members = grown;
            }
            count = count + 1;
        }
        vertex = vertex + 1;
    }
    proof {
        assert forall|i: int, j: int| 0 <= i < j < members.len() implies !connected(
            edges@,
            #[trigger] members[i] as int,
            #[trigger] members[j] as int,
        ) by {
            lemma_representative_decides_connection(edges@, members[i] as int, members[j] as int);
        }
        assert forall|v: int| 0 <= v < vertex_count implies #[trigger] covered(
            edges@,
            members,
            v,
        ) by {
            lemma_root(start, rank_of(start), v);
            let r = root(start, v);
            assert(members.contains(r as usize));
            let i = choose|i: int| 0 <= i < members.len() && members[i] == r as usize;
            lemma_representative_decides_connection(edges@, v, r);
            assert(root(start, r) == r);
            assert(connected(edges@, v, members[i] as int));
        }
        assert(component_system(vertex_count as nat, edges@, members));
        if vertex_count > 0 {
            assert(covered(edges@, members, 0));
        }
    }
    count
}

/// Whether no vertex below `v` is connected to `v`.
pub open spec fn is_component_minimum(edges: Seq<(usize, usize)>, v: int) -> bool {
    forall|u: int| 0 <= u < v ==> !#[trigger] connected(edges, u, v)
}

/// Picks the smallest vertex of every connected component, in the order of the components'
/// representatives.
pub fn component_anchors(vertex_count: usize, edges: &Vec<(usize, usize)>) -> (anchors: Vec<usize>)
    requires
        edges_in_range(vertex_count as nat, edges@),
    ensures
        component_system(vertex_count as nat, edges@, anchors@),
        forall|i: int|
            0 <= i < anchors.len() ==> is_component_minimum(edges@, #[trigger] anchors@[i] as int),
        forall|i: int, j: int|
            0 <= i < j < anchors.len() ==> representative(
                edges@,
                edges@.len(),
                #[trigger] anchors@[i] as int,
            ) < representative(edges@, edges@.len(), #[trigger] anchors@[j] as int),
{
    let mut parent = merged_forest(vertex_count, edges);
    let mut smallest: Vec<Option<usize>> = Vec::new();
    let mut vertex: usize = 0;
    while vertex < vertex_count
        invariant
            vertex <= vertex_count,
            smallest.len() == vertex,
            forall|r: int| 0 <= r < vertex ==> (#[trigger] smallest@[r]) is None,
        decreases vertex_count - vertex,
    {
        smallest.push(None);
        vertex = vertex + 1;
    }
    let ghost start = parent@;
    vertex = 0;
    while vertex < vertex_count
        invariant
            vertex <= vertex_count,
            forest(parent@),
            forest(start),
            parent.len() == vertex_count,
            start.len() == vertex_count,
            smallest.len() == vertex_count,
            same_roots(start, parent@),
            forall|r: int|
                #![trigger smallest@[r]]
                0 <= r < vertex_count ==> match smallest@[r] {
                    Some(v) => v < vertex && root(start, v as int) == r && forall|u: int|
                        0 <= u < v ==> #[trigger] root(start, u) != r,
                    None => forall|u: int| 0 <= u < vertex ==> #[trigger] root(start, u) != r,
                },
        decreases vertex_count - vertex,
    {
        let ghost before = parent@;
        let found: usize = find_vertex_root(&mut parent, vertex);
        proof {
            assert(root(before, vertex as int) == root(start, vertex as int));
            assert forall|u: int| 0 <= u < start.len() implies #[trigger] root(parent@, u) == root(
                start,
                u,
            ) by {
                assert(root(before, u) == root(start, u));
            }
        }
        if smallest[found].is_none() {
            smallest.set(found, Some(vertex));
        }
        vertex = vertex + 1;
    }
    let mut anchors: Vec<usize> = Vec::new();
    let mut candidate: usize = 0;
    while candidate < vertex_count
        invariant
            candidate <= vertex_count,
            smallest.len() == vertex_count,
            forest(start),
            start.len() == vertex_count,
            forall|r: int|
                #![trigger smallest@[r]]
                0 <= r < vertex_count ==> match smallest@[r] {
                    Some(v) => v < vertex_count && root(start, v as int) == r && forall|u: int|
                        0 <= u < v ==> #[trigger] root(start, u) != r,
                    None => forall|u: int| 0 <= u < vertex_count ==> #[trigger] root(start, u) != r,
                },
            forall|i: int|
                #![trigger anchors@[i]]
                0 <= i < anchors.len() ==> anchors@[i] < vertex_count && root(
                    start,
                    anchors@[i] as int,
                ) < candidate && forall|u: int|
                    0 <= u < anchors@[i] ==> #[trigger] root(start, u) != root(
                        start,
                        anchors@[i] as int,
                    ),
            forall|i: int, j: int|
                0 <= i < j < anchors.len() ==> root(start, #[trigger] anchors@[i] as int) < root(
                    start,
                    #[trigger] anchors@[j] as int,
                ),
            forall|v: int|
                #![trigger root(start, v)]
                0 <= v < vertex_count && 0 <= root(start, v) < candidate ==> exists|i: int|
                    0 <= i < anchors.len() && root(start, #[trigger] anchors@[i] as int) == root(
                        start,
                        v,
                    ),
        decreases vertex_count - candidate,
    {
        let ghost previous = anchors@;
        if let Some(anchor) = smallest[candidate] {
            anchors.push(anchor);
            proof {
                assert forall|v: int| #![trigger root(start, v)]
                    0 <= v < vertex_count && 0 <= root(start, v) < candidate + 1 implies exists|i: int|
                    0 <= i < anchors.len() && root(start, #[trigger] anchors@[i] as int) == root(
                        start,
                        v,
                    ) by {
                    if root(start, v) < candidate {
                        let i = choose|i: int|
                            0 <= i < previous.len() && root(start, #[trigger] previous[i] as int)
                                == root(start, v);
                        assert(anchors@[i] == previous[i]);
                    } else {
                        assert(anchors@[previous.len() as int] == anchor);
                    }
                }
            }
        } else {
            assert(smallest@[candidate as int] is None);
        }
        candidate = candidate + 1;
    }
    proof {
        assert forall|i: int| 0 <= i < anchors.len() implies is_component_minimum(
            edges@,
            #[trigger] anchors@[i] as int,
        ) by {
            assert forall|u: int| 0 <= u < anchors@[i] implies !#[trigger] connected(
                edges@,
                u,
                anchors@[i] as int,
            ) by {
                lemma_representative_decides_connection(edges@, u, anchors@[i] as int);
                assert(root(start, u) != root(start, anchors@[i] as int));
            }
        }
        assert forall|i: int, j: int| 0 <= i < j < anchors.len() implies !connected(
            edges@,
            #[trigger] anchors@[i] as int,
            #[trigger] anchors@[j] as int,
        ) by {
            lemma_representative_decides_connection(edges@, anchors@[i] as int, anchors@[j] as int);
            assert(root(start, anchors@[i] as int) < root(start, anchors@[j] as int));
        }
        assert forall|v: int| 0 <= v < vertex_count implies #[trigger] covered(
            edges@,
            anchors@,
            v,
        ) by {
            lemma_root(start, rank_of(start), v);
            let i = choose|i: int|
                0 <= i < anchors.len() && root(start, #[trigger] anchors@[i] as int) == root(
                    start,
                    v,
                );
            lemma_representative_decides_connection(edges@, v, anchors@[i] as int);
        }
    }
    anchors
}

} // verus!
