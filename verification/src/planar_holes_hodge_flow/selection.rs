//! Which mesh edges are observed.

use super::mesh::{cells_around, cocell_count, ends_of, MeshTopology};
use crate::index_set::{lemma_increasing_sequence_unique, strictly_increasing, IndexSet};
use crate::random::{after_shuffle, is_permutation, shuffled, shuffled_order};
use crate::scalar::Scalar;
use rand::rngs::StdRng;
use vstd::prelude::*;

verus! {

/// The double next to 0.08.
pub const INTERIOR_LOW: u64 = 0x3fb4_7ae1_47ae_147b;

/// The double next to 0.92.
pub const INTERIOR_HIGH: u64 = 0x3fed_70a3_d70a_3d71;

/// Whether a point keeps its distance from the sides of the unit square.
pub open spec fn interior(point: (Scalar, Scalar)) -> bool {
    let low = Scalar { bits: INTERIOR_LOW };
    let high = Scalar { bits: INTERIOR_HIGH };
    low.lt(point.0) && point.0.lt(high) && low.lt(point.1) && point.1.lt(high)
}

/// Tests whether the midpoint of an edge keeps its distance from the sides of the unit square.
pub fn interior_edge_barycenter(point: (Scalar, Scalar)) -> (inside: bool)
    ensures
        inside == interior(point),
{
    let low = Scalar { bits: INTERIOR_LOW };
    let high = Scalar { bits: INTERIOR_HIGH };
    low.less_than(point.0) && point.0.less_than(high) && low.less_than(point.1)
        && point.1.less_than(high)
}

/// Whether a coordinate lies in a closed range.
pub open spec fn in_band(value: Scalar, band: Option<(Scalar, Scalar)>) -> bool {
    match band {
        Some((low, high)) => low.le(value) && value.le(high),
        None => true,
    }
}

/// Whether edge `e` may be observed: it lies on no cycle and is not excluded, two cells meet in
/// it, and its midpoint is interior and within the band.
pub open spec fn may_observe(
    topology: MeshTopology,
    midpoints: Seq<(Scalar, Scalar)>,
    cycle_edges: Set<usize>,
    excluded_edges: Set<usize>,
    band: Option<(Scalar, Scalar)>,
    e: usize,
) -> bool {
    &&& !cycle_edges.contains(e)
    &&& !excluded_edges.contains(e)
    &&& cells_around(topology.cells@, ends_of(topology.edges@[e as int])) == 2
    &&& interior(midpoints[e as int])
    &&& in_band(midpoints[e as int].0, band)
}

/// Whether `candidates` lists the edges that may be observed, in increasing order.
pub open spec fn lists_candidates(
    topology: MeshTopology,
    midpoints: Seq<(Scalar, Scalar)>,
    cycle_edges: Set<usize>,
    excluded_edges: Set<usize>,
    band: Option<(Scalar, Scalar)>,
    candidates: Seq<usize>,
) -> bool {
    &&& strictly_increasing(candidates)
    &&& forall|e: usize| #[trigger]
        candidates.contains(e) <==> e < topology.edges.len() && may_observe(
            topology,
            midpoints,
            cycle_edges,
            excluded_edges,
            band,
            e,
        )
}

/// Lists the edges that may be observed.
pub fn observation_candidates(
    topology: &MeshTopology,
    midpoints: &Vec<(Scalar, Scalar)>,
    cycle_edges: &IndexSet,
    excluded_edges: &IndexSet,
    band: Option<(Scalar, Scalar)>,
) -> (candidates: Vec<usize>)
    requires
        midpoints.len() == topology.edges.len(),
        cycle_edges.wf(),
        excluded_edges.wf(),
    ensures
        lists_candidates(
            *topology,
            midpoints@,
            cycle_edges@,
            excluded_edges@,
            band,
            candidates@,
        ),
{
    let mut candidates: Vec<usize> = Vec::new();
    let mut index: usize = 0;
    while index < topology.edges.len()
        invariant
            midpoints.len() == topology.edges.len(),
            cycle_edges.wf(),
            excluded_edges.wf(),
            index <= topology.edges.len(),
            strictly_increasing(candidates@),
            forall|i: int| 0 <= i < candidates.len() ==> #[trigger] candidates@[i] < index,
            forall|e: usize| #[trigger]
                candidates@.contains(e) <==> e < index && may_observe(
                    *topology,
                    midpoints@,
                    cycle_edges@,
                    excluded_edges@,
                    band,
                    e,
                ),
        decreases topology.edges.len() - index,
    {
        let ghost before = candidates@;
        let midpoint: (Scalar, Scalar) = midpoints[index];
        let within: bool = match band {
            Some((low, high)) => low.at_most(midpoint.0) && midpoint.0.at_most(high),
            None => true,
        };
        if !cycle_edges.contains(index) && !excluded_edges.contains(index) && cocell_count(
            &topology.cells,
            topology.edges[index],
        ) == 2 && interior_edge_barycenter(midpoint) && within {
            candidates.push(index);
            proof {
                assert forall|e: usize| #[trigger] candidates@.contains(e) <==> before.contains(e)
                    || e == index by {
                    if before.contains(e) {
                        let i = choose|i: int| 0 <= i < before.len() && before[i] == e;
                        assert(candidates@[i] == e);
                    }
                    if e == index {
                        assert(candidates@[before.len() as int] == e);
                    }
                    if candidates@.contains(e) {
                        let i = choose|i: int| 0 <= i < candidates@.len() && candidates@[i] == e;
                        if i < before.len() {
                            assert(before[i] == e);
                        }
                    }
                }
            }
        }
        index = index + 1;
    }
    candidates
}

/// The smaller of two numbers.
pub open spec fn smaller(left: int, right: int) -> int {
    if left < right {
        left
    } else {
        right
    }
}

/// Whether `selected` holds, in increasing order, the candidates that come first in `order`, at
/// most `count` of them.
pub open spec fn takes_first(
    candidates: Seq<usize>,
    order: Seq<usize>,
    count: nat,
    selected: Seq<usize>,
) -> bool {
    &&& strictly_increasing(selected)
    &&& selected.len() == smaller(count as int, candidates.len() as int)
    &&& forall|e: usize| #[trigger]
        selected.contains(e) <==> exists|i: int|
            0 <= i < smaller(count as int, candidates.len() as int)
                && candidates[#[trigger] order[i] as int] == e
}

/// Takes the candidates that come first in the given order, at most `count`, and sorts them.
pub fn take_selection(candidates: &Vec<usize>, order: &Vec<usize>, count: usize) -> (selected: Vec<
    usize,
>)
    requires
        strictly_increasing(candidates@),
        is_permutation(order@, candidates.len() as nat),
    ensures
        takes_first(candidates@, order@, count as nat, selected@),
{
    let limit: usize = if count < candidates.len() {
        count
    } else {
        candidates.len()
    };
    let mut set = IndexSet::new();
    let mut index: usize = 0;
    let ghost picked = Seq::new(limit as nat, |i: int| candidates@[order@[i] as int]);
    while index < limit
        invariant
            index <= limit <= candidates.len(),
            is_permutation(order@, candidates.len() as nat),
            picked == Seq::new(limit as nat, |i: int| candidates@[order@[i] as int]),
            set.wf(),
            forall|e: usize| #[trigger]
                set@.contains(e) <==> exists|i: int| 0 <= i < index && #[trigger] picked[i] == e,
        decreases limit - index,
    {
        assert(order@[index as int] < candidates.len());
        let item: usize = candidates[order[index]];
        let ghost before = set@;
        set.insert(item);
        proof {
            assert(picked[index as int] == item);
            assert forall|e: usize| #[trigger] set@.contains(e) <==> exists|i: int|
                0 <= i < index + 1 && #[trigger] picked[i] == e by {
                if before.contains(e) {
                    let i = choose|i: int| 0 <= i < index && #[trigger] picked[i] == e;
                    assert(picked[i] == e);
                }
            }
        }
        index = index + 1;
    }
    let items: &Vec<usize> = set.as_vec();
    let mut selected: Vec<usize> = Vec::new();
    let mut position: usize = 0;
    while position < items.len()
        invariant
            position <= items.len(),
            selected@ == items@.take(position as int),
        decreases items.len() - position,
    {
        selected.push(items[position]);
        assert(items@.take(position + 1) =~= items@.take(position as int).push(
            items@[position as int],
        ));
        position = position + 1;
    }
    assert(selected@ =~= items@);
    proof {
        assert forall|i: int, j: int| 0 <= i < picked.len() && 0 <= j < picked.len() && i
            != j implies picked[i] != picked[j] by {
            assert(order@[i] != order@[j]);
            assert(order@[i] < candidates.len() && order@[j] < candidates.len());
            if order@[i] < order@[j] {
                assert(candidates@[order@[i] as int] < candidates@[order@[j] as int]);
            } else {
                assert(candidates@[order@[j] as int] < candidates@[order@[i] as int]);
            }
        }
        assert(picked.no_duplicates());
        picked.unique_seq_to_set();
        assert(selected@.no_duplicates());
        selected@.unique_seq_to_set();
        assert(selected@.to_set() =~= picked.to_set()) by {
            assert forall|e: usize| selected@.to_set().contains(e) == picked.to_set().contains(e) by {
                assert(set@.contains(e) == selected@.to_set().contains(e));
            }
        }
        assert forall|e: usize| #[trigger] selected@.contains(e) <==> exists|i: int|
            0 <= i < limit && candidates@[#[trigger] order@[i] as int] == e by {
            assert(set@.contains(e) == selected@.to_set().contains(e));
            if selected@.contains(e) {
                let i = choose|i: int| 0 <= i < limit && #[trigger] picked[i] == e;
                assert(candidates@[order@[i] as int] == e);
            }
            if exists|i: int| 0 <= i < limit && candidates@[#[trigger] order@[i] as int] == e {
                let i = choose|i: int|
                    0 <= i < limit && candidates@[#[trigger] order@[i] as int] == e;
                assert(picked[i] == e);
            }
        }
    }
    selected
}

/// Whether `selected` holds, in increasing order, `count` of the edges that may be observed, or
/// all of them where there are fewer.
pub open spec fn selects(
    topology: MeshTopology,
    midpoints: Seq<(Scalar, Scalar)>,
    cycle_edges: Set<usize>,
    excluded_edges: Set<usize>,
    band: Option<(Scalar, Scalar)>,
    count: nat,
    selected: Seq<usize>,
) -> bool {
    &&& strictly_increasing(selected)
    &&& forall|e: usize| #[trigger]
        selected.contains(e) ==> e < topology.edges.len() && may_observe(
            topology,
            midpoints,
            cycle_edges,
            excluded_edges,
            band,
            e,
        )
    &&& exists|candidates: Seq<usize>| #[trigger]
        lists_candidates(topology, midpoints, cycle_edges, excluded_edges, band, candidates)
            && selected.len() == smaller(count as int, candidates.len() as int)
}

/// Whether `selected` are the edges that a generator draws, and `after` is the generator that the
/// draw leaves behind.
pub open spec fn draws(
    topology: MeshTopology,
    midpoints: Seq<(Scalar, Scalar)>,
    cycle_edges: Set<usize>,
    excluded_edges: Set<usize>,
    band: Option<(Scalar, Scalar)>,
    count: nat,
    generator: StdRng,
    selected: Seq<usize>,
    after: StdRng,
) -> bool {
    exists|candidates: Seq<usize>| #[trigger]
        lists_candidates(topology, midpoints, cycle_edges, excluded_edges, band, candidates)
            && is_permutation(shuffled(generator, candidates.len()), candidates.len())
            && takes_first(
            candidates,
            shuffled(generator, candidates.len()),
            count,
            selected,
        ) && after == after_shuffle(generator, candidates.len())
}

/// A draw is settled by the generator: there is one list of candidates, and the shuffle of it
/// says which are taken.
pub proof fn lemma_draw_is_settled(
    topology: MeshTopology,
    midpoints: Seq<(Scalar, Scalar)>,
    cycle_edges: Set<usize>,
    excluded_edges: Set<usize>,
    band: Option<(Scalar, Scalar)>,
    count: nat,
    generator: StdRng,
    first: (Seq<usize>, StdRng),
    second: (Seq<usize>, StdRng),
)
    requires
        draws(
            topology,
            midpoints,
            cycle_edges,
            excluded_edges,
            band,
            count,
            generator,
            first.0,
            first.1,
        ),
        draws(
            topology,
            midpoints,
            cycle_edges,
            excluded_edges,
            band,
            count,
            generator,
            second.0,
            second.1,
        ),
    ensures
        first.0 == second.0,
        first.1 == second.1,
{
    let left = choose|candidates: Seq<usize>| #[trigger]
        lists_candidates(topology, midpoints, cycle_edges, excluded_edges, band, candidates)
            && is_permutation(shuffled(generator, candidates.len()), candidates.len())
            && takes_first(
            candidates,
            shuffled(generator, candidates.len()),
            count,
            first.0,
        ) && first.1 == after_shuffle(generator, candidates.len());
    let right = choose|candidates: Seq<usize>| #[trigger]
        lists_candidates(topology, midpoints, cycle_edges, excluded_edges, band, candidates)
            && is_permutation(shuffled(generator, candidates.len()), candidates.len())
            && takes_first(
            candidates,
            shuffled(generator, candidates.len()),
            count,
            second.0,
        ) && second.1 == after_shuffle(generator, candidates.len());
    assert forall|e: usize| left.to_set().contains(e) == right.to_set().contains(e) by {
        assert(left.contains(e) == right.contains(e));
    }
    assert(left.to_set() =~= right.to_set());
    lemma_increasing_sequence_unique(left, right);
    assert forall|e: usize| first.0.to_set().contains(e) == second.0.to_set().contains(e) by {
        assert(first.0.contains(e) == second.0.contains(e));
    }
    assert(first.0.to_set() =~= second.0.to_set());
    lemma_increasing_sequence_unique(first.0, second.0);
}

proof fn lemma_taken_is_selection(
    topology: MeshTopology,
    midpoints: Seq<(Scalar, Scalar)>,
    cycle_edges: Set<usize>,
    excluded_edges: Set<usize>,
    band: Option<(Scalar, Scalar)>,
    count: nat,
    candidates: Seq<usize>,
    order: Seq<usize>,
    selected: Seq<usize>,
)
    requires
        lists_candidates(topology, midpoints, cycle_edges, excluded_edges, band, candidates),
        is_permutation(order, candidates.len()),
        takes_first(candidates, order, count, selected),
    ensures
        selects(topology, midpoints, cycle_edges, excluded_edges, band, count, selected),
{
    assert forall|e: usize| #[trigger] selected.contains(e) implies e < topology.edges.len()
        && may_observe(topology, midpoints, cycle_edges, excluded_edges, band, e) by {
        let i = choose|i: int|
            0 <= i < smaller(count as int, candidates.len() as int)
                && candidates[#[trigger] order[i] as int] == e;
        assert(order[i] < candidates.len());
        assert(candidates.contains(e));
    }
}

/// Selects `count` edges to observe at random, or all that may be observed where there are
/// fewer, in increasing order.
pub fn select_observation_edges(
    topology: &MeshTopology,
    midpoints: &Vec<(Scalar, Scalar)>,
    cycle_edges: &IndexSet,
    excluded_edges: &IndexSet,
    count: usize,
    generator: &mut StdRng,
) -> (selected: Vec<usize>)
    requires
        midpoints.len() == topology.edges.len(),
        cycle_edges.wf(),
        excluded_edges.wf(),
    ensures
        selects(
            *topology,
            midpoints@,
            cycle_edges@,
            excluded_edges@,
            None,
            count as nat,
            selected@,
        ),
        draws(
            *topology,
            midpoints@,
            cycle_edges@,
            excluded_edges@,
            None,
            count as nat,
            *old(generator),
            selected@,
            *final(generator),
        ),
{
    let candidates = observation_candidates(
        topology,
        midpoints,
        cycle_edges,
        excluded_edges,
        None,
    );
    let order = shuffled_order(candidates.len(), generator);
    let selected = take_selection(&candidates, &order, count);
    proof {
        lemma_taken_is_selection(
            *topology,
            midpoints@,
            cycle_edges@,
            excluded_edges@,
            None,
            count as nat,
            candidates@,
            order@,
            selected@,
        );
    }
    selected
}

/// Selects edges to observe at random among those whose midpoint lies in a vertical strip.
pub fn select_observation_edges_by_barycenter(
    topology: &MeshTopology,
    midpoints: &Vec<(Scalar, Scalar)>,
    cycle_edges: &IndexSet,
    excluded_edges: &IndexSet,
    count: usize,
    generator: &mut StdRng,
    strip: (Scalar, Scalar),
) -> (selected: Vec<usize>)
    requires
        midpoints.len() == topology.edges.len(),
        cycle_edges.wf(),
        excluded_edges.wf(),
    ensures
        selects(
            *topology,
            midpoints@,
            cycle_edges@,
            excluded_edges@,
            Some(strip),
            count as nat,
            selected@,
        ),
        draws(
            *topology,
            midpoints@,
            cycle_edges@,
            excluded_edges@,
            Some(strip),
            count as nat,
            *old(generator),
            selected@,
            *final(generator),
        ),
{
    let candidates = observation_candidates(
        topology,
        midpoints,
        cycle_edges,
        excluded_edges,
        Some(strip),
    );
    let order = shuffled_order(candidates.len(), generator);
    let selected = take_selection(&candidates, &order, count);
    proof {
        lemma_taken_is_selection(
            *topology,
            midpoints@,
            cycle_edges@,
            excluded_edges@,
            Some(strip),
            count as nat,
            candidates@,
            order@,
            selected@,
        );
    }
    selected
}

/// The number of edges that a rounded fraction of the candidates asks for: at least one, and no
/// more than there are.
pub open spec fn fraction_count(rounded: nat, available: nat) -> nat {
    let wanted = if rounded < 1 {
        1
    } else {
        rounded
    };
    if wanted < available {
        wanted
    } else {
        available
    }
}

/// Selects a fraction of the listed candidates at random. `rounded` is the fraction times their
/// number, rounded.
pub fn select_fraction_observation_edges(
    candidates: &Vec<usize>,
    rounded: usize,
    generator: &mut StdRng,
) -> (selected: Vec<usize>)
    requires
        strictly_increasing(candidates@),
    ensures
        strictly_increasing(selected@),
        selected.len() == fraction_count(rounded as nat, candidates.len() as nat),
        forall|e: usize| #[trigger] selected@.contains(e) ==> candidates@.contains(e),
        is_permutation(
            shuffled(*old(generator), candidates.len() as nat),
            candidates.len() as nat,
        ),
        takes_first(
            candidates@,
            shuffled(*old(generator), candidates.len() as nat),
            fraction_count(rounded as nat, candidates.len() as nat),
            selected@,
        ),
        *final(generator) == after_shuffle(*old(generator), candidates.len() as nat),
{
    let wanted: usize = if rounded < 1 {
        1
    } else {
        rounded
    };
    let order = shuffled_order(candidates.len(), generator);
    let selected = take_selection(candidates, &order, wanted);
    proof {
        assert forall|e: usize| #[trigger] selected@.contains(e) implies candidates@.contains(e) by {
            let i = choose|i: int|
                0 <= i < smaller(wanted as int, candidates.len() as int)
                    && candidates@[#[trigger] order@[i] as int] == e;
            assert(order@[i] < candidates.len());
        }
    }
    selected
}

/// A selection is disjoint from the edges on the cycles and from the edges excluded for it, so
/// selections each of which excludes the ones before it have no edge in common.
pub proof fn lemma_selections_disjoint(
    topology: MeshTopology,
    midpoints: Seq<(Scalar, Scalar)>,
    cycle_edges: Set<usize>,
    excluded_edges: Set<usize>,
    band: Option<(Scalar, Scalar)>,
    count: nat,
    selected: Seq<usize>,
)
    requires
        selects(topology, midpoints, cycle_edges, excluded_edges, band, count, selected),
    ensures
        selected.to_set().disjoint(cycle_edges),
        selected.to_set().disjoint(excluded_edges),
        forall|later: Seq<usize>, later_band: Option<(Scalar, Scalar)>, later_count: nat| #[trigger]
            selects(
                topology,
                midpoints,
                cycle_edges,
                excluded_edges.union(selected.to_set()),
                later_band,
                later_count,
                later,
            ) ==> later.to_set().disjoint(selected.to_set()),
{
    assert forall|e: usize| #[trigger] selected.to_set().contains(e) implies !cycle_edges.contains(
        e,
    ) && !excluded_edges.contains(e) by {
        assert(selected.contains(e));
    }
    assert forall|later: Seq<usize>, later_band: Option<(Scalar, Scalar)>, later_count: nat| #[trigger]
        selects(
            topology,
            midpoints,
            cycle_edges,
            excluded_edges.union(selected.to_set()),
            later_band,
            later_count,
            later,
        ) implies later.to_set().disjoint(selected.to_set()) by {
        assert forall|e: usize| #[trigger] later.to_set().contains(e) implies !selected.to_set().contains(
            e,
        ) by {
            assert(later.contains(e));
        }
    }
}

} // verus!
