//! Which edges the studies observe: disjoint random selections away from the cycles.

use super::config::{
    PlanarHolesFlowConfig, PlanarHolesSensorDesignSweepConfig, PlanarHolesTopologyVsNaiveGpConfig,
};
use super::designs::{lines_in, sensor_design_counts};
use super::hole_cycles::{column_used, observation_edge_set, SignedMatrix};
use super::kinds::{PlanarHolesLocalObservationDesign, PlanarHolesSensorDesignKind};
use super::mesh::MeshTopology;
use super::selection::{
    draws, fraction_count, lists_candidates, observation_candidates,
    select_fraction_observation_edges, select_observation_edges,
    select_observation_edges_by_barycenter, selects, takes_first,
};
use super::sensors::{listed, PathHomologyPair};
use crate::index_set::IndexSet;
use crate::random::{after_shuffle, is_permutation, numbers, seeded, seeded_generator, shuffled};
use crate::scalar::Scalar;
use rand::rngs::StdRng;
use vstd::prelude::*;

verus! {

/// How many edges are asked for, and the vertical strip that their midpoints lie in.
#[derive(Debug, Clone, Copy)]
pub struct EdgeRequest {
    pub count: usize,
    pub strip: Option<(Scalar, Scalar)>,
}

/// Whether one of the first `count` selections holds the edge.
pub open spec fn selected_before(selections: Seq<Vec<usize>>, count: int, edge: usize) -> bool {
    exists|k: int| 0 <= k < count && (#[trigger] selections[k])@.contains(edge)
}

/// The edges of the first `count` selections.
pub open spec fn edges_before(selections: Seq<Vec<usize>>, count: int) -> Set<usize> {
    Set::new(|edge: usize| selected_before(selections, count, edge))
}

/// Whether the selections meet the requests one after the other, each drawn with the generator
/// that the one before it leaves, and each without the edges of those before it.
pub open spec fn draws_in_turn(
    topology: MeshTopology,
    midpoints: Seq<(Scalar, Scalar)>,
    reserved: Set<usize>,
    requests: Seq<EdgeRequest>,
    states: Seq<StdRng>,
    selections: Seq<Vec<usize>>,
) -> bool {
    &&& selections.len() == requests.len()
    &&& states.len() == requests.len() + 1
    &&& forall|k: int|
        #![trigger selections[k]]
        0 <= k < requests.len() ==> draws(
            topology,
            midpoints,
            reserved,
            edges_before(selections, k),
            requests[k].strip,
            requests[k].count as nat,
            states[k],
            selections[k]@,
            states[k + 1],
        ) && selects(
            topology,
            midpoints,
            reserved,
            edges_before(selections, k),
            requests[k].strip,
            requests[k].count as nat,
            selections[k]@,
        )
}

/// Whether the selections are those that a generator draws for the requests.
pub open spec fn drawn_selections(
    topology: MeshTopology,
    midpoints: Seq<(Scalar, Scalar)>,
    reserved: Set<usize>,
    requests: Seq<EdgeRequest>,
    generator: StdRng,
    selections: Seq<Vec<usize>>,
    after: StdRng,
) -> bool {
    exists|states: Seq<StdRng>| #[trigger]
        draws_in_turn(topology, midpoints, reserved, requests, states, selections) && states[0]
            == generator && states.last() == after
}

proof fn lemma_edges_before_kept(selections: Seq<Vec<usize>>, next: Vec<usize>, count: int)
    requires
        0 <= count <= selections.len(),
    ensures
        edges_before(selections.push(next), count) == edges_before(selections, count),
{
    let more = selections.push(next);
    assert forall|edge: usize| selected_before(more, count, edge) == selected_before(
        selections,
        count,
        edge,
    ) by {
        if selected_before(more, count, edge) {
            let k = choose|k: int| 0 <= k < count && (#[trigger] more[k])@.contains(edge);
            assert(selections[k]@.contains(edge));
        }
        if selected_before(selections, count, edge) {
            let k = choose|k: int| 0 <= k < count && (#[trigger] selections[k])@.contains(edge);
            assert(more[k]@.contains(edge));
        }
    }
    assert(edges_before(more, count) =~= edges_before(selections, count));
}

/// Selections that are drawn in turn have no edge in common, and none is reserved.
pub proof fn lemma_selections_in_turn_disjoint(
    topology: MeshTopology,
    midpoints: Seq<(Scalar, Scalar)>,
    reserved: Set<usize>,
    requests: Seq<EdgeRequest>,
    states: Seq<StdRng>,
    selections: Seq<Vec<usize>>,
)
    requires
        draws_in_turn(topology, midpoints, reserved, requests, states, selections),
    ensures
        forall|k: int, e: usize|
            0 <= k < selections.len() && #[trigger] selections[k]@.contains(e) ==> e
                < topology.edges.len() && !reserved.contains(e),
        forall|j: int, k: int, e: usize|
            0 <= j < k < selections.len() && #[trigger] selections[j]@.contains(e)
                ==> !#[trigger] selections[k]@.contains(e),
{
    assert forall|k: int, e: usize|
        0 <= k < selections.len() && #[trigger] selections[k]@.contains(e) implies e
        < topology.edges.len() && !reserved.contains(e) by {
        assert(selects(
            topology,
            midpoints,
            reserved,
            edges_before(selections, k),
            requests[k].strip,
            requests[k].count as nat,
            selections[k]@,
        ));
    }
    assert forall|j: int, k: int, e: usize|
        0 <= j < k < selections.len() && #[trigger] selections[j]@.contains(
            e,
        ) implies !#[trigger] selections[k]@.contains(e) by {
        assert(selects(
            topology,
            midpoints,
            reserved,
            edges_before(selections, k),
            requests[k].strip,
            requests[k].count as nat,
            selections[k]@,
        ));
        assert(selected_before(selections, k, e));
    }
}

/// Draws selections of edges for the requests, one after the other. No edge is reserved, and none
/// is in two selections.
pub fn select_disjoint_edges(
    topology: &MeshTopology,
    midpoints: &Vec<(Scalar, Scalar)>,
    reserved: &IndexSet,
    requests: &Vec<EdgeRequest>,
    generator: &mut StdRng,
) -> (selections: Vec<Vec<usize>>)
    requires
        midpoints.len() == topology.edges.len(),
        reserved.wf(),
    ensures
        drawn_selections(
            *topology,
            midpoints@,
            reserved@,
            requests@,
            *old(generator),
            selections@,
            *final(generator),
        ),
{
    let mut selections: Vec<Vec<usize>> = Vec::new();
    let mut used = IndexSet::new();
    let mut index: usize = 0;
    let ghost mut states: Seq<StdRng> = seq![*generator];
    let ghost start = *generator;
    assert(used@ =~= edges_before(selections@, 0));
    assert(requests@.take(0) =~= Seq::<EdgeRequest>::empty());
    while index < requests.len()
        invariant
            midpoints.len() == topology.edges.len(),
            reserved.wf(),
            used.wf(),
            index <= requests.len(),
            selections.len() == index,
            used@ == edges_before(selections@, index as int),
            states.len() == index + 1,
            states[0] == start,
            states.last() == *generator,
            draws_in_turn(
                *topology,
                midpoints@,
                reserved@,
                requests@.take(index as int),
                states,
                selections@,
            ),
        decreases requests.len() - index,
    {
        let request: EdgeRequest = requests[index];
        let selected = match request.strip {
            Some(strip) => select_observation_edges_by_barycenter(
                topology,
                midpoints,
                reserved,
                &used,
                request.count,
                generator,
                strip,
            ),
            None => select_observation_edges(
                topology,
                midpoints,
                reserved,
                &used,
                request.count,
                generator,
            ),
        };
        let ghost before = selections@;
        let ghost old_states = states;
        let ghost used_before = used@;
        used.extend(&selected);
        proof {
            states = states.push(*generator);
            lemma_edges_before_kept(before, selected, index as int);
            let more = before.push(selected);
            assert forall|edge: usize| used@.contains(edge) == selected_before(
                more,
                index + 1,
                edge,
            ) by {
                assert(used@.contains(edge) == (used_before.contains(edge)
                    || selected@.to_set().contains(edge)));
                assert(used_before.contains(edge) == selected_before(before, index as int, edge));
                if used_before.contains(edge) {
                    let k = choose|k: int|
                        0 <= k < index && (#[trigger] before[k])@.contains(edge);
                    assert(more[k]@.contains(edge));
                }
                if selected@.contains(edge) {
                    assert(more[index as int]@.contains(edge));
                }
                if selected_before(more, index + 1, edge) {
                    let k = choose|k: int|
                        0 <= k < index + 1 && (#[trigger] more[k])@.contains(edge);
                    if k < index {
                        assert(before[k]@.contains(edge));
                    }
                }
            }
            assert(used@ =~= edges_before(more, index + 1));
            let asked = requests@.take(index + 1);
            assert forall|k: int|
                #![trigger more[k]]
                0 <= k < asked.len() implies draws(
                *topology,
                midpoints@,
                reserved@,
                edges_before(more, k),
                asked[k].strip,
                asked[k].count as nat,
                states[k],
                more[k]@,
                states[k + 1],
            ) && selects(
                *topology,
                midpoints@,
                reserved@,
                edges_before(more, k),
                asked[k].strip,
                asked[k].count as nat,
                more[k]@,
            ) by {
                lemma_edges_before_kept(before, selected, k);
                if k < index {
                    assert(more[k] == before[k]);
                    assert(asked[k] == requests@.take(index as int)[k]);
                    assert(states[k] == old_states[k]);
                    assert(states[k + 1] == old_states[k + 1]);
                } else {
                    assert(states[k] == old_states.last());
                    assert(states[k + 1] == *generator);
                }
            }
        }
        selections.push(selected);
        index = index + 1;
    }
    assert(requests@.take(index as int) =~= requests@);
    selections
}

/// Whether one of the matrices has an entry in the column.
pub open spec fn column_used_in(matrices: Seq<&SignedMatrix>, column: usize) -> bool {
    exists|m: int| 0 <= m < matrices.len() && column_used(*(#[trigger] matrices[m]), column)
}

/// The columns in which one of the matrices has an entry.
pub open spec fn used_columns(matrices: Seq<&SignedMatrix>) -> Set<usize> {
    Set::new(|column: usize| column_used_in(matrices, column))
}

/// Collects the columns in which one of the matrices has an entry.
pub fn reserved_edges(matrices: &Vec<&SignedMatrix>) -> (edges: IndexSet)
    ensures
        edges.wf(),
        edges@ == used_columns(matrices@),
{
    let mut edges = IndexSet::new();
    let mut index: usize = 0;
    while index < matrices.len()
        invariant
            index <= matrices.len(),
            edges.wf(),
            forall|e: usize| #[trigger]
                edges@.contains(e) <==> exists|m: int|
                    0 <= m < index && column_used(*(#[trigger] matrices@[m]), e),
        decreases matrices.len() - index,
    {
        let ghost before = edges@;
        let used = observation_edge_set(matrices[index]);
        edges.extend(used.as_vec());
        proof {
            assert forall|e: usize| #[trigger] edges@.contains(e) <==> exists|m: int|
                0 <= m < index + 1 && column_used(*(#[trigger] matrices@[m]), e) by {
                assert(edges@.contains(e) == (before.contains(e) || used@.contains(e)));
                if before.contains(e) {
                    let m = choose|m: int|
                        0 <= m < index && column_used(*(#[trigger] matrices@[m]), e);
                    assert(column_used(*matrices@[m], e));
                }
                if used@.contains(e) {
                    assert(column_used(*matrices@[index as int], e));
                }
            }
        }
        index = index + 1;
    }
    proof {
        assert forall|e: usize| edges@.contains(e) == used_columns(matrices@).contains(e) by {
            if column_used_in(matrices@, e) {
                let m = choose|m: int|
                    0 <= m < matrices@.len() && column_used(*(#[trigger] matrices@[m]), e);
                assert(column_used(*matrices@[m], e));
            }
        }
        assert(edges@ =~= used_columns(matrices@));
    }
    edges
}

/// Whether one of the three rows of the pair has an entry for the edge.
pub open spec fn pair_uses(pair: PathHomologyPair, edge: usize) -> bool {
    listed(edge, pair.upper.entries@) || listed(edge, pair.lower.entries@) || listed(
        edge,
        pair.contrast.entries@,
    )
}

/// Whether one of the pairs has an entry for the edge.
pub open spec fn pairs_use(pairs: Seq<PathHomologyPair>, edge: usize) -> bool {
    exists|i: int| 0 <= i < pairs.len() && pair_uses(#[trigger] pairs[i], edge)
}

fn insert_row_edges(edges: &mut IndexSet, entries: &Vec<(usize, i64)>)
    requires
        old(edges).wf(),
    ensures
        final(edges).wf(),
        forall|e: usize| #[trigger]
            final(edges)@.contains(e) <==> old(edges)@.contains(e) || listed(e, entries@),
{
    let ghost before = edges@;
    let mut position: usize = 0;
    while position < entries.len()
        invariant
            position <= entries.len(),
            edges.wf(),
            forall|e: usize| #[trigger]
                edges@.contains(e) <==> before.contains(e) || exists|k: int|
                    0 <= k < position && (#[trigger] entries@[k]).0 == e,
        decreases entries.len() - position,
    {
        let entry: (usize, i64) = entries[position];
        assert(entries@[position as int] == entry);
        edges.insert(entry.0);
        position = position + 1;
    }
    proof {
        assert forall|e: usize| #[trigger] edges@.contains(e) <==> before.contains(e) || listed(
            e,
            entries@,
        ) by {
            if listed(e, entries@) {
                let k = choose|k: int| 0 <= k < entries.len() && (#[trigger] entries@[k]).0 == e;
                assert(entries@[k].0 == e);
            }
        }
    }
}

/// Adds the edges of the rows of all pairs to the reserved edges.
pub fn reserve_pair_edges(edges: &mut IndexSet, pairs: &Vec<PathHomologyPair>)
    requires
        old(edges).wf(),
    ensures
        final(edges).wf(),
        forall|e: usize| #[trigger]
            final(edges)@.contains(e) <==> old(edges)@.contains(e) || pairs_use(pairs@, e),
{
    let ghost start = edges@;
    let mut index: usize = 0;
    while index < pairs.len()
        invariant
            index <= pairs.len(),
            edges.wf(),
            forall|e: usize| #[trigger]
                edges@.contains(e) <==> start.contains(e) || exists|i: int|
                    0 <= i < index && pair_uses(#[trigger] pairs@[i], e),
        decreases pairs.len() - index,
    {
        let ghost before = edges@;
        insert_row_edges(edges, &pairs[index].upper.entries);
        insert_row_edges(edges, &pairs[index].lower.entries);
        insert_row_edges(edges, &pairs[index].contrast.entries);
        proof {
            assert forall|e: usize| #[trigger] edges@.contains(e) <==> start.contains(e)
                || exists|i: int| 0 <= i < index + 1 && pair_uses(#[trigger] pairs@[i], e) by {
                assert(edges@.contains(e) == (before.contains(e) || pair_uses(
                    pairs@[index as int],
                    e,
                )));
                if before.contains(e) && !start.contains(e) {
                    let i = choose|i: int|
                        0 <= i < index && pair_uses(#[trigger] pairs@[i], e);
                    assert(pair_uses(pairs@[i], e));
                }
            }
        }
        index = index + 1;
    }
}

/// The edges that a flow observes and those that it holds out.
#[derive(Debug)]
pub struct FlowEdges {
    pub local: Vec<usize>,
    pub heldout: Vec<usize>,
}

/// Half of a number, rounded up.
pub open spec fn half_rounded(count: nat) -> nat {
    ((count + 1) / 2) as nat
}

/// Whether `local` are the edges that a design observes, drawn with a generator that ends up as
/// `after`.
pub open spec fn local_edges_drawn(
    design: PlanarHolesLocalObservationDesign,
    topology: MeshTopology,
    midpoints: Seq<(Scalar, Scalar)>,
    reserved: Set<usize>,
    count: nat,
    generator: StdRng,
    local: Seq<usize>,
    after: StdRng,
) -> bool {
    match design {
        PlanarHolesLocalObservationDesign::SparseInterior => draws(
            topology,
            midpoints,
            reserved,
            Set::empty(),
            None,
            count,
            generator,
            local,
            after,
        ),
        PlanarHolesLocalObservationDesign::HalfInteriorEdges => exists|candidates: Seq<usize>|
            #[trigger]
            lists_candidates(topology, midpoints, reserved, Set::empty(), None, candidates)
                && is_permutation(shuffled(generator, candidates.len()), candidates.len())
                && takes_first(
                candidates,
                shuffled(generator, candidates.len()),
                fraction_count(half_rounded(candidates.len()), candidates.len()),
                local,
            ) && after == after_shuffle(generator, candidates.len()),
        PlanarHolesLocalObservationDesign::AllEdges => local == numbers(
            topology.edges.len() as nat,
        ) && after == generator,
    }
}

fn all_edges(count: usize) -> (edges: Vec<usize>)
    ensures
        edges@ == numbers(count as nat),
{
    let mut edges: Vec<usize> = Vec::new();
    while edges.len() < count
        invariant
            edges.len() <= count,
            forall|i: int| 0 <= i < edges.len() ==> #[trigger] edges@[i] == i,
        decreases count - edges.len(),
    {
        let next: usize = edges.len();
        edges.push(next);
    }
    assert(edges@ =~= numbers(count as nat));
    edges
}

fn select_local_edges(
    design: PlanarHolesLocalObservationDesign,
    topology: &MeshTopology,
    midpoints: &Vec<(Scalar, Scalar)>,
    reserved: &IndexSet,
    count: usize,
    generator: &mut StdRng,
) -> (local: Vec<usize>)
    requires
        midpoints.len() == topology.edges.len(),
        reserved.wf(),
    ensures
        local_edges_drawn(
            design,
            *topology,
            midpoints@,
            reserved@,
            count as nat,
            *old(generator),
            local@,
            *final(generator),
        ),
{
    let none = IndexSet::new();
    assert(none@ =~= Set::<usize>::empty());
    match design {
        PlanarHolesLocalObservationDesign::SparseInterior => select_observation_edges(
            topology,
            midpoints,
            reserved,
            &none,
            count,
            generator,
        ),
        PlanarHolesLocalObservationDesign::HalfInteriorEdges => {
            let candidates = observation_candidates(topology, midpoints, reserved, &none, None);
            let rounded: usize = candidates.len() / 2 + candidates.len() % 2;
            let selected = select_fraction_observation_edges(&candidates, rounded, generator);
            proof {
                assert(rounded == half_rounded(candidates.len() as nat));
            }
            selected
        },
        PlanarHolesLocalObservationDesign::AllEdges => all_edges(topology.edges.len()),
    }
}

/// Whether `edges` are drawn for a flow: first the observed ones, then those held out. `after` is
/// the generator that the draws leave.
pub open spec fn flow_edges_drawn(
    config: PlanarHolesFlowConfig,
    topology: MeshTopology,
    midpoints: Seq<(Scalar, Scalar)>,
    reserved: Set<usize>,
    edges: FlowEdges,
    after: StdRng,
) -> bool {
    exists|middle: StdRng|
        local_edges_drawn(
            config.local_observation_design,
            topology,
            midpoints,
            reserved,
            config.local_observation_count as nat,
            seeded((config.rng_seed + 31) as u64),
            edges.local@,
            middle,
        ) && #[trigger] draws(
            topology,
            midpoints,
            reserved,
            edges.local@.to_set(),
            None,
            config.heldout_local_count as nat,
            middle,
            edges.heldout@,
            after,
        )
}

/// Selects the edges that a flow observes, as its design says, and the edges that it holds out,
/// away from the training and the held-out cycles. Hands on the generator for the noise.
pub fn select_flow_edges(
    config: &PlanarHolesFlowConfig,
    topology: &MeshTopology,
    midpoints: &Vec<(Scalar, Scalar)>,
    cycles: &SignedMatrix,
    heldout_cycles: &SignedMatrix,
) -> (result: (FlowEdges, StdRng))
    requires
        midpoints.len() == topology.edges.len(),
        config.rng_seed + 31 <= u64::MAX,
    ensures
        flow_edges_drawn(
            *config,
            *topology,
            midpoints@,
            used_columns(seq![cycles, heldout_cycles]),
            result.0,
            result.1,
        ),
        result.0.heldout@.to_set().disjoint(result.0.local@.to_set()),
{
    let matrices: Vec<&SignedMatrix> = vec![cycles, heldout_cycles];
    assert(matrices@ =~= seq![cycles, heldout_cycles]);
    let reserved = reserved_edges(&matrices);
    let mut generator = seeded_generator(config.rng_seed + 31);
    let local = select_local_edges(
        config.local_observation_design,
        topology,
        midpoints,
        &reserved,
        config.local_observation_count,
        &mut generator,
    );
    let mut used = IndexSet::new();
    used.extend(&local);
    assert(used@ =~= local@.to_set());
    let ghost middle = generator;
    let heldout = select_observation_edges(
        topology,
        midpoints,
        &reserved,
        &used,
        config.heldout_local_count,
        &mut generator,
    );
    proof {
        assert forall|e: usize| heldout@.to_set().contains(e) implies !local@.to_set().contains(
            e,
        ) by {
            assert(heldout@.contains(e));
        }
    }
    let edges = FlowEdges { local, heldout };
    assert(draws(
        *topology,
        midpoints@,
        used_columns(seq![cycles, heldout_cycles]),
        edges.local@.to_set(),
        None,
        config.heldout_local_count as nat,
        middle,
        edges.heldout@,
        generator,
    ));
    (edges, generator)
}

/// The requests of a sensor sweep.
pub open spec fn sweep_requests(config: PlanarHolesSensorDesignSweepConfig) -> Seq<EdgeRequest> {
    seq![
        EdgeRequest { count: config.total_observation_budget, strip: None },
        EdgeRequest { count: config.heldout_local_count, strip: None },
    ]
}

/// Selects the edges that a sensor sweep observes and those that it holds out, and hands on the
/// generator for the noise.
pub fn select_sweep_edges(
    config: &PlanarHolesSensorDesignSweepConfig,
    topology: &MeshTopology,
    midpoints: &Vec<(Scalar, Scalar)>,
    reserved: &IndexSet,
) -> (result: (Vec<Vec<usize>>, StdRng))
    requires
        midpoints.len() == topology.edges.len(),
        reserved.wf(),
        config.base.rng_seed + 909 <= u64::MAX,
    ensures
        drawn_selections(
            *topology,
            midpoints@,
            reserved@,
            sweep_requests(*config),
            seeded((config.base.rng_seed + 909) as u64),
            result.0@,
            result.1,
        ),
{
    let requests: Vec<EdgeRequest> = vec![
        EdgeRequest { count: config.total_observation_budget, strip: None },
        EdgeRequest { count: config.heldout_local_count, strip: None },
    ];
    assert(requests@ =~= sweep_requests(*config));
    let mut generator = seeded_generator(config.base.rng_seed + 909);
    let selections = select_disjoint_edges(
        topology,
        midpoints,
        reserved,
        &requests,
        &mut generator,
    );
    (selections, generator)
}

/// A comparison of models with a naive one.
#[derive(Debug, Clone, Copy, PartialEq, Eq, Structural)]
pub enum ComparisonStudy {
    /// On the default domain, with loops, paths and cycles as sensors.
    Topology,
    /// On the domain with a barrier: observed left of it, held out right of it.
    Barrier,
    /// On the default domain, with pairs of paths around the holes as sensors.
    PathHomology,
}

impl ComparisonStudy {
    /// What is added to the seed before the edges are drawn.
    pub open spec fn seed_offset(self) -> u64 {
        match self {
            ComparisonStudy::Topology => 202,
            ComparisonStudy::Barrier => 502,
            ComparisonStudy::PathHomology => 602,
        }
    }

    /// The largest number that is added to the seed before the edges, the loops or the paths of
    /// the study are drawn.
    pub fn last_seed_offset(self) -> (offset: u64)
        ensures
            self == ComparisonStudy::Topology ==> offset == 208,
            self == ComparisonStudy::Barrier ==> offset == 504,
            self == ComparisonStudy::PathHomology ==> offset == 602,
            offset >= self.seed_offset(),
    {
        match self {
            ComparisonStudy::Topology => 208,
            ComparisonStudy::Barrier => 504,
            ComparisonStudy::PathHomology => 602,
        }
    }
}

/// The double next to 0.28.
pub const STRIP_TRAIN_LOW: u64 = 0x3fd1_eb85_1eb8_51ec;

/// The double next to 0.18.
pub const STRIP_VALIDATION_LOW: u64 = 0x3fc7_0a3d_70a3_d70a;

/// The double next to 0.43.
pub const STRIP_LEFT_HIGH: u64 = 0x3fdb_851e_b851_eb85;

/// The double next to 0.57.
pub const STRIP_RIGHT_LOW: u64 = 0x3fe2_3d70_a3d7_0a3d;

/// The double next to 0.72.
pub const STRIP_RIGHT_HIGH: u64 = 0x3fe7_0a3d_70a3_d70a;

/// The strips of the barrier study: left of the barrier for training and validation, right of it
/// for what is held out. The other studies have none.
pub open spec fn study_strips(study: ComparisonStudy) -> (
    Option<(Scalar, Scalar)>,
    Option<(Scalar, Scalar)>,
    Option<(Scalar, Scalar)>,
) {
    match study {
        ComparisonStudy::Barrier => (
            Some((Scalar { bits: STRIP_TRAIN_LOW }, Scalar { bits: STRIP_LEFT_HIGH })),
            Some((Scalar { bits: STRIP_VALIDATION_LOW }, Scalar { bits: STRIP_LEFT_HIGH })),
            Some((Scalar { bits: STRIP_RIGHT_LOW }, Scalar { bits: STRIP_RIGHT_HIGH })),
        ),
        _ => (None, None, None),
    }
}

/// The number of training edges of a study: the share of the budget that a hybrid design leaves
/// for edges where loops and paths are sensors, the whole budget elsewhere.
pub open spec fn train_edge_count(study: ComparisonStudy, budget: nat, hole_count: nat) -> nat {
    match study {
        ComparisonStudy::Topology => {
            let lines = lines_in(PlanarHolesSensorDesignKind::Hybrid, budget, hole_count);
            if lines <= budget {
                (budget - lines) as nat
            } else {
                0
            }
        },
        _ => budget,
    }
}

/// The requests of a study: for training, for validation, and for what is held out.
pub open spec fn study_requests(
    study: ComparisonStudy,
    config: PlanarHolesTopologyVsNaiveGpConfig,
    hole_count: nat,
) -> Seq<EdgeRequest> {
    seq![
        EdgeRequest {
            count: train_edge_count(
                study,
                config.total_observation_budget as nat,
                hole_count,
            ) as usize,
            strip: study_strips(study).0,
        },
        EdgeRequest { count: config.validation_local_count, strip: study_strips(study).1 },
        EdgeRequest { count: config.heldout_local_count, strip: study_strips(study).2 },
    ]
}

/// Selects the edges for training, for validation and to be held out in a comparison study, in
/// this order. Hands on the generator.
pub fn select_study_edges(
    study: ComparisonStudy,
    config: &PlanarHolesTopologyVsNaiveGpConfig,
    hole_count: usize,
    topology: &MeshTopology,
    midpoints: &Vec<(Scalar, Scalar)>,
    reserved: &IndexSet,
) -> (result: (Vec<Vec<usize>>, StdRng))
    requires
        midpoints.len() == topology.edges.len(),
        reserved.wf(),
        config.base.rng_seed + study.seed_offset() <= u64::MAX,
        study == ComparisonStudy::Topology ==> lines_in(
            PlanarHolesSensorDesignKind::Hybrid,
            config.total_observation_budget as nat,
            hole_count as nat,
        ) <= usize::MAX,
    ensures
        drawn_selections(
            *topology,
            midpoints@,
            reserved@,
            study_requests(study, *config, hole_count as nat),
            seeded((config.base.rng_seed + study.seed_offset()) as u64),
            result.0@,
            result.1,
        ),
{
    let offset: u64 = match study {
        ComparisonStudy::Topology => 202,
        ComparisonStudy::Barrier => 502,
        ComparisonStudy::PathHomology => 602,
    };
    let train_count: usize = match study {
        ComparisonStudy::Topology => sensor_design_counts(
            PlanarHolesSensorDesignKind::Hybrid,
            config.total_observation_budget,
            hole_count,
        ).edge_count,
        _ => config.total_observation_budget,
    };
    let strips = match study {
        ComparisonStudy::Barrier => (
            Some((Scalar { bits: STRIP_TRAIN_LOW }, Scalar { bits: STRIP_LEFT_HIGH })),
            Some((Scalar { bits: STRIP_VALIDATION_LOW }, Scalar { bits: STRIP_LEFT_HIGH })),
            Some((Scalar { bits: STRIP_RIGHT_LOW }, Scalar { bits: STRIP_RIGHT_HIGH })),
        ),
        _ => (None, None, None),
    };
    let requests: Vec<EdgeRequest> = vec![
        EdgeRequest { count: train_count, strip: strips.0 },
        EdgeRequest { count: config.validation_local_count, strip: strips.1 },
        EdgeRequest { count: config.heldout_local_count, strip: strips.2 },
    ];
    assert(requests@ =~= study_requests(study, *config, hole_count as nat));
    let mut generator = seeded_generator(config.base.rng_seed + offset);
    let selections = select_disjoint_edges(
        topology,
        midpoints,
        reserved,
        &requests,
        &mut generator,
    );
    (selections, generator)
}

} // verus!
