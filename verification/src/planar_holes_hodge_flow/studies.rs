//! The observations of whole studies: which edges stay reserved, which are drawn, and what is
//! trained on, validated on and held out.

use super::config::{
    PlanarHolesFlowConfig, PlanarHolesSensorDesignSweepConfig, PlanarHolesTopologyVsNaiveGpConfig,
};
use super::designs::lines_in;
use super::edge_plans::{
    drawn_selections, draws_in_turn, edges_before, flow_edges_drawn, pairs_use, reserve_pair_edges,
    reserved_edges, select_flow_edges, select_study_edges, select_sweep_edges, selected_before,
    study_requests, sweep_requests, used_columns, ComparisonStudy, EdgeRequest, FlowEdges,
};
use super::hole_cycles::{
    check_cycles_differ, check_pairing_rank, column_used, contents, observation_edge_set,
    rank_message, SignedMatrix,
};
use super::kinds::{PlanarHolesModelKind, PlanarHolesSensorDesignKind};
use super::mesh::MeshTopology;
use super::models::{
    any_finite, candidate_at, check_tuned_model, is_first_minimum, is_tuned,
    select_topology_vs_naive_candidate, Candidate,
};
use super::observation::{views, PlanarHolesObservation};
use super::observation_plans::{
    barrier_heldout, barrier_heldout_group, barrier_training, barrier_training_group,
    flow_observations, lists_flow, path_homology_heldout, path_homology_heldout_group,
    path_homology_training, path_homology_training_group, study_heldout, study_heldout_group,
    study_training, study_training_group, sweep_heldout_group, sweep_heldout_observations,
    BarrierUse, BuiltCycles, FlowObservations,
};
use super::sensors::{PathHomologyPair, SensorRow};
use crate::index_set::IndexSet;
use crate::random::seeded;
use crate::scalar::Scalar;
use rand::rngs::StdRng;
use vstd::prelude::*;

verus! {

/// The observations of a study, the edges that were drawn for them, and the generator that drew
/// them.
pub struct StudyObservations {
    pub edges: Vec<Vec<usize>>,
    pub training: Vec<PlanarHolesObservation>,
    pub validation: Vec<PlanarHolesObservation>,
    pub heldout: Vec<PlanarHolesObservation>,
    pub generator: StdRng,
}

/// The cycles of a study: for training, for validation, and held-out ones.
#[derive(Debug)]
pub struct StudyCycles {
    pub train: BuiltCycles,
    pub validation: BuiltCycles,
    pub heldout: BuiltCycles,
}

impl StudyCycles {
    pub open spec fn wf(&self) -> bool {
        self.train.wf() && self.validation.wf() && self.heldout.wf()
    }

    /// Whether one of the cycles runs through the edge.
    pub open spec fn uses(&self, edge: usize) -> bool {
        column_used(self.train.matrix, edge) || column_used(self.validation.matrix, edge)
            || column_used(self.heldout.matrix, edge)
    }
}

/// The first part of a study whose cycles do not tell the holes apart.
pub open spec fn rank_fault(ranks: (usize, usize, usize), hole_count: usize) -> Option<Seq<char>> {
    if ranks.0 != hole_count {
        Some(rank_message("train cycle-harmonic"@, ranks.0 as nat, hole_count as nat))
    } else if ranks.1 != hole_count {
        Some(rank_message("validation cycle-harmonic"@, ranks.1 as nat, hole_count as nat))
    } else if ranks.2 != hole_count {
        Some(rank_message("heldout cycle-harmonic"@, ranks.2 as nat, hole_count as nat))
    } else {
        None
    }
}

/// Tests whether the pairings of the training, the validation and the held-out cycles with the
/// harmonic forms have full rank.
pub fn check_study_ranks(ranks: (usize, usize, usize), hole_count: usize) -> (result: Result<
    (),
    String,
>)
    ensures
        match result {
            Ok(_) => rank_fault(ranks, hole_count) is None,
            Err(message) => rank_fault(ranks, hole_count) == Some(message@),
        },
{
    match check_pairing_rank("train cycle-harmonic", ranks.0, hole_count) {
        Err(message) => {
            return Err(message);
        },
        Ok(_) => {},
    }
    match check_pairing_rank("validation cycle-harmonic", ranks.1, hole_count) {
        Err(message) => {
            return Err(message);
        },
        Ok(_) => {},
    }
    check_pairing_rank("heldout cycle-harmonic", ranks.2, hole_count)
}

/// The edges of the cycles of a study.
fn cycle_edges(cycles: &StudyCycles) -> (edges: IndexSet)
    ensures
        edges.wf(),
        forall|e: usize| #[trigger] edges@.contains(e) <==> cycles.uses(e),
{
    let matrices: Vec<&SignedMatrix> = vec![
        &cycles.train.matrix,
        &cycles.validation.matrix,
        &cycles.heldout.matrix,
    ];
    let edges = reserved_edges(&matrices);
    proof {
        assert forall|e: usize| #[trigger] edges@.contains(e) <==> cycles.uses(e) by {
            assert(used_columns(matrices@).contains(e) == edges@.contains(e));
            assert(column_used(*matrices@[0], e) == column_used(cycles.train.matrix, e));
            assert(column_used(*matrices@[1], e) == column_used(cycles.validation.matrix, e));
            assert(column_used(*matrices@[2], e) == column_used(cycles.heldout.matrix, e));
        }
    }
    edges
}

/// Whether one of the families runs through the edge.
pub open spec fn families_use(families: Seq<BuiltCycles>, edge: usize) -> bool {
    exists|f: int| 0 <= f < families.len() && column_used((#[trigger] families[f]).matrix, edge)
}

fn reserve_families(edges: &mut IndexSet, families: &Vec<BuiltCycles>)
    requires
        old(edges).wf(),
    ensures
        final(edges).wf(),
        forall|e: usize| #[trigger]
            final(edges)@.contains(e) <==> old(edges)@.contains(e) || families_use(families@, e),
{
    let ghost start = edges@;
    let mut index: usize = 0;
    while index < families.len()
        invariant
            index <= families.len(),
            edges.wf(),
            forall|e: usize| #[trigger]
                edges@.contains(e) <==> start.contains(e) || exists|f: int|
                    0 <= f < index && column_used((#[trigger] families@[f]).matrix, e),
        decreases families.len() - index,
    {
        let ghost before = edges@;
        let used = observation_edge_set(&families[index].matrix);
        edges.extend(used.as_vec());
        proof {
            assert forall|e: usize| #[trigger] edges@.contains(e) <==> start.contains(e)
                || exists|f: int|
                0 <= f < index + 1 && column_used((#[trigger] families@[f]).matrix, e) by {
                assert(edges@.contains(e) == (before.contains(e) || used@.contains(e)));
                if used@.contains(e) {
                    assert(column_used(families@[index as int].matrix, e));
                }
                if exists|f: int|
                    0 <= f < index + 1 && column_used((#[trigger] families@[f]).matrix, e) {
                    let f = choose|f: int|
                        0 <= f < index + 1 && column_used((#[trigger] families@[f]).matrix, e);
                    if f < index {
                        assert(column_used(families@[f].matrix, e));
                    }
                }
            }
        }
        index = index + 1;
    }
    proof {
        assert forall|e: usize| #[trigger] edges@.contains(e) <==> start.contains(e)
            || families_use(families@, e) by {
            if families_use(families@, e) {
                let f = choose|f: int|
                    0 <= f < families.len() && column_used((#[trigger] families@[f]).matrix, e);
                assert(column_used(families@[f].matrix, e));
            }
        }
    }
}

/// The edges that the study on the default domain keeps for its cycles.
pub open spec fn study_reserved(
    cycles: StudyCycles,
    validation_families: Seq<BuiltCycles>,
    heldout_families: Seq<BuiltCycles>,
) -> Set<usize> {
    Set::new(
        |e: usize|
            cycles.uses(e) || families_use(validation_families, e) || families_use(
                heldout_families,
                e,
            ),
    )
}

/// The rows that a study reads along loops or paths: for training, for validation, and held-out
/// ones.
#[derive(Debug)]
pub struct StudyRows {
    pub train: Vec<SensorRow>,
    pub validation: Vec<SensorRow>,
    pub heldout: Vec<SensorRow>,
}

/// Draws the edges of the study on the default domain away from all of its cycles, and lists its
/// observations.
pub fn topology_study(
    config: &PlanarHolesTopologyVsNaiveGpConfig,
    hole_count: usize,
    topology: &MeshTopology,
    midpoints: &Vec<(Scalar, Scalar)>,
    cycles: &StudyCycles,
    validation_families: &Vec<BuiltCycles>,
    heldout_families: &Vec<BuiltCycles>,
    loops: &StudyRows,
    paths: &StudyRows,
) -> (study: StudyObservations)
    requires
        midpoints.len() == topology.edges.len(),
        config.base.rng_seed + 202 <= u64::MAX,
        lines_in(
            PlanarHolesSensorDesignKind::Hybrid,
            config.total_observation_budget as nat,
            hole_count as nat,
        ) <= usize::MAX,
        cycles.wf(),
        forall|f: int|
            0 <= f < validation_families.len() ==> (#[trigger] validation_families@[f]).wf(),
        forall|f: int| 0 <= f < heldout_families.len() ==> (#[trigger] heldout_families@[f]).wf(),
    ensures
        study.edges.len() == 3,
        drawn_selections(
            *topology,
            midpoints@,
            study_reserved(*cycles, validation_families@, heldout_families@),
            study_requests(ComparisonStudy::Topology, *config, hole_count as nat),
            seeded((config.base.rng_seed + 202) as u64),
            study.edges@,
            study.generator,
        ),
        views(study.training@) == study_training_group(
            *config,
            study.edges@[0]@,
            loops.train@,
            paths.train@,
            cycles.train,
        ),
        views(study.validation@) == study_heldout_group(
            *config,
            "validation"@,
            study.edges@[1]@,
            loops.validation@,
            paths.validation@,
            cycles.validation,
            validation_families@,
        ),
        views(study.heldout@) == study_heldout_group(
            *config,
            "heldout"@,
            study.edges@[2]@,
            loops.heldout@,
            paths.heldout@,
            cycles.heldout,
            heldout_families@,
        ),
{
    let mut reserved = cycle_edges(cycles);
    reserve_families(&mut reserved, validation_families);
    reserve_families(&mut reserved, heldout_families);
    assert(reserved@ =~= study_reserved(*cycles, validation_families@, heldout_families@));
    let (edges, generator) = select_study_edges(
        ComparisonStudy::Topology,
        config,
        hole_count,
        topology,
        midpoints,
        &reserved,
    );
    let training = study_training(config, &edges[0], &loops.train, &paths.train, &cycles.train);
    let validation = study_heldout(
        config,
        "validation",
        &edges[1],
        &loops.validation,
        &paths.validation,
        &cycles.validation,
        validation_families,
    );
    let heldout = study_heldout(
        config,
        "heldout",
        &edges[2],
        &loops.heldout,
        &paths.heldout,
        &cycles.heldout,
        heldout_families,
    );
    StudyObservations { edges, training, validation, heldout, generator }
}

/// Draws the edges of the barrier study away from its cycles, on the left of the barrier to train
/// and to validate and on the right to be held out, and lists its observations.
pub fn barrier_study(
    config: &PlanarHolesTopologyVsNaiveGpConfig,
    hole_count: usize,
    topology: &MeshTopology,
    midpoints: &Vec<(Scalar, Scalar)>,
    cycles: &StudyCycles,
    validation_paths: &Vec<SensorRow>,
    heldout_paths: &Vec<SensorRow>,
) -> (study: StudyObservations)
    requires
        midpoints.len() == topology.edges.len(),
        config.base.rng_seed + 502 <= u64::MAX,
        cycles.wf(),
    ensures
        study.edges.len() == 3,
        drawn_selections(
            *topology,
            midpoints@,
            Set::new(|e: usize| cycles.uses(e)),
            study_requests(ComparisonStudy::Barrier, *config, hole_count as nat),
            seeded((config.base.rng_seed + 502) as u64),
            study.edges@,
            study.generator,
        ),
        views(study.training@) == barrier_training_group(
            *config,
            study.edges@[0]@,
            cycles.train,
        ),
        views(study.validation@) == barrier_heldout_group(
            *config,
            BarrierUse::Validation,
            study.edges@[1]@,
            validation_paths@,
            cycles.validation,
        ),
        views(study.heldout@) == barrier_heldout_group(
            *config,
            BarrierUse::Heldout,
            study.edges@[2]@,
            heldout_paths@,
            cycles.heldout,
        ),
{
    let reserved = cycle_edges(cycles);
    assert(reserved@ =~= Set::new(|e: usize| cycles.uses(e)));
    let (edges, generator) = select_study_edges(
        ComparisonStudy::Barrier,
        config,
        hole_count,
        topology,
        midpoints,
        &reserved,
    );
    let training = barrier_training(config, &edges[0], &cycles.train);
    let validation = barrier_heldout(
        config,
        BarrierUse::Validation,
        &edges[1],
        validation_paths,
        &cycles.validation,
    );
    let heldout = barrier_heldout(
        config,
        BarrierUse::Heldout,
        &edges[2],
        heldout_paths,
        &cycles.heldout,
    );
    StudyObservations { edges, training, validation, heldout, generator }
}

/// The pairs of paths of a study: for training, for validation, and held-out ones.
#[derive(Debug)]
pub struct StudyPairs {
    pub train: Vec<PathHomologyPair>,
    pub validation: Vec<PathHomologyPair>,
    pub heldout: Vec<PathHomologyPair>,
}

impl StudyPairs {
    /// Whether one of the paths runs through the edge.
    pub open spec fn uses(&self, edge: usize) -> bool {
        pairs_use(self.train@, edge) || pairs_use(self.validation@, edge) || pairs_use(
            self.heldout@,
            edge,
        )
    }
}

/// Draws the edges of the study with pairs of paths away from its cycles and its paths, and lists
/// its observations.
pub fn path_homology_study(
    config: &PlanarHolesTopologyVsNaiveGpConfig,
    hole_count: usize,
    topology: &MeshTopology,
    midpoints: &Vec<(Scalar, Scalar)>,
    cycles: &StudyCycles,
    pairs: &StudyPairs,
) -> (study: StudyObservations)
    requires
        midpoints.len() == topology.edges.len(),
        config.base.rng_seed + 602 <= u64::MAX,
        cycles.wf(),
        2 * pairs.train.len() <= usize::MAX,
        2 * pairs.validation.len() <= usize::MAX,
        2 * pairs.heldout.len() <= usize::MAX,
    ensures
        study.edges.len() == 3,
        drawn_selections(
            *topology,
            midpoints@,
            Set::new(|e: usize| cycles.uses(e) || pairs.uses(e)),
            study_requests(ComparisonStudy::PathHomology, *config, hole_count as nat),
            seeded((config.base.rng_seed + 602) as u64),
            study.edges@,
            study.generator,
        ),
        views(study.training@) == path_homology_training_group(
            *config,
            study.edges@[0]@,
            cycles.train,
            pairs.train@,
        ),
        views(study.validation@) == path_homology_heldout_group(
            *config,
            "validation"@,
            study.edges@[1]@,
            cycles.validation,
            pairs.validation@,
        ),
        views(study.heldout@) == path_homology_heldout_group(
            *config,
            "heldout"@,
            study.edges@[2]@,
            cycles.heldout,
            pairs.heldout@,
        ),
{
    let mut reserved = cycle_edges(cycles);
    reserve_pair_edges(&mut reserved, &pairs.train);
    reserve_pair_edges(&mut reserved, &pairs.validation);
    reserve_pair_edges(&mut reserved, &pairs.heldout);
    assert(reserved@ =~= Set::new(|e: usize| cycles.uses(e) || pairs.uses(e)));
    let (edges, generator) = select_study_edges(
        ComparisonStudy::PathHomology,
        config,
        hole_count,
        topology,
        midpoints,
        &reserved,
    );
    let training = path_homology_training(config, &edges[0], &cycles.train, &pairs.train);
    let validation = path_homology_heldout(
        config,
        "validation",
        &edges[1],
        &cycles.validation,
        &pairs.validation,
    );
    let heldout = path_homology_heldout(
        config,
        "heldout",
        &edges[2],
        &cycles.heldout,
        &pairs.heldout,
    );
    StudyObservations { edges, training, validation, heldout, generator }
}

/// The edges of a study are drawn once: none of them is reserved, and no two draws share an edge.
pub proof fn lemma_study_edges_apart(
    topology: MeshTopology,
    midpoints: Seq<(Scalar, Scalar)>,
    reserved: Set<usize>,
    requests: Seq<EdgeRequest>,
    generator: StdRng,
    edges: Seq<Vec<usize>>,
    after: StdRng,
    first: int,
    second: int,
    edge: usize,
)
    requires
        drawn_selections(topology, midpoints, reserved, requests, generator, edges, after),
        0 <= first < edges.len(),
        0 <= second < edges.len(),
        first != second,
        edges[first]@.contains(edge),
    ensures
        !edges[second]@.contains(edge),
        !reserved.contains(edge),
        edge < topology.edges.len(),
{
    let states = choose|states: Seq<StdRng>| #[trigger]
        draws_in_turn(topology, midpoints, reserved, requests, states, edges) && states[0]
            == generator && states.last() == after;
    assert(draws_in_turn(topology, midpoints, reserved, requests, states, edges));
    if edges[second]@.contains(edge) {
        if first < second {
            assert(selected_before(edges, second, edge));
            assert(edges_before(edges, second).contains(edge));
        } else {
            assert(selected_before(edges, first, edge));
            assert(edges_before(edges, first).contains(edge));
        }
    }
}

/// What is wrong with the cycles of a flow, if anything: they do not tell the holes apart, or the
/// held-out ones are the training ones over again.
pub open spec fn flow_fault(
    ranks: (usize, usize),
    hole_count: usize,
    train: SignedMatrix,
    heldout: SignedMatrix,
) -> Option<Seq<char>> {
    if ranks.0 != hole_count {
        Some(rank_message("cycle-harmonic"@, ranks.0 as nat, hole_count as nat))
    } else if ranks.1 != hole_count {
        Some(rank_message("held-out cycle-harmonic"@, ranks.1 as nat, hole_count as nat))
    } else if contents(train) == contents(heldout) {
        Some("training and held-out loop observation rows should not be identical"@)
    } else {
        None
    }
}

/// Tests the cycles of a flow, draws the edges away from them, and lists the observations. Hands
/// on the generator for the noise.
pub fn flow_study(
    config: &PlanarHolesFlowConfig,
    hole_count: usize,
    ranks: (usize, usize),
    topology: &MeshTopology,
    midpoints: &Vec<(Scalar, Scalar)>,
    train: &BuiltCycles,
    heldout: &BuiltCycles,
) -> (result: Result<(FlowEdges, FlowObservations, StdRng), String>)
    requires
        midpoints.len() == topology.edges.len(),
        config.rng_seed + 31 <= u64::MAX,
        train.wf(),
        heldout.wf(),
    ensures
        match result {
            Err(message) => flow_fault(ranks, hole_count, train.matrix, heldout.matrix) == Some(
                message@,
            ),
            Ok((edges, observations, generator)) => {
                &&& flow_fault(ranks, hole_count, train.matrix, heldout.matrix) is None
                &&& flow_edges_drawn(
                    *config,
                    *topology,
                    midpoints@,
                    used_columns(seq![&train.matrix, &heldout.matrix]),
                    edges,
                    generator,
                )
                &&& edges.heldout@.to_set().disjoint(edges.local@.to_set())
                &&& lists_flow(*config, edges, *train, *heldout, observations)
            },
        },
{
    match check_pairing_rank("cycle-harmonic", ranks.0, hole_count) {
        Err(message) => {
            return Err(message);
        },
        Ok(_) => {},
    }
    match check_pairing_rank("held-out cycle-harmonic", ranks.1, hole_count) {
        Err(message) => {
            return Err(message);
        },
        Ok(_) => {},
    }
    match check_cycles_differ(&train.matrix, &heldout.matrix) {
        Err(message) => {
            return Err(message);
        },
        Ok(_) => {},
    }
    let (edges, generator) = select_flow_edges(
        config,
        topology,
        midpoints,
        &train.matrix,
        &heldout.matrix,
    );
    let observations = flow_observations(config, &edges, train, heldout);
    Ok((edges, observations, generator))
}

/// What a sensor sweep draws, to train on and to hold out, and what it holds out.
pub struct SweepObservations {
    pub edges: Vec<Vec<usize>>,
    pub heldout: Vec<PlanarHolesObservation>,
    pub generator: StdRng,
}

/// Draws the edges of a sensor sweep away from its cycles, and lists what it holds out before the
/// harmonic periods. Hands on the generator for the noise.
pub fn sweep_study(
    config: &PlanarHolesSensorDesignSweepConfig,
    topology: &MeshTopology,
    midpoints: &Vec<(Scalar, Scalar)>,
    train: &SignedMatrix,
    heldout: &SignedMatrix,
    heldout_loops: &Vec<SensorRow>,
    heldout_paths: &Vec<SensorRow>,
) -> (study: SweepObservations)
    requires
        midpoints.len() == topology.edges.len(),
        config.base.rng_seed + 909 <= u64::MAX,
    ensures
        study.edges.len() == 2,
        drawn_selections(
            *topology,
            midpoints@,
            used_columns(seq![train, heldout]),
            sweep_requests(*config),
            seeded((config.base.rng_seed + 909) as u64),
            study.edges@,
            study.generator,
        ),
        views(study.heldout@) == sweep_heldout_group(
            *config,
            study.edges@[1]@,
            heldout_loops@,
            heldout_paths@,
        ),
{
    let matrices: Vec<&SignedMatrix> = vec![train, heldout];
    assert(matrices@ =~= seq![train, heldout]);
    let reserved = reserved_edges(&matrices);
    let (edges, generator) = select_sweep_edges(config, topology, midpoints, &reserved);
    let heldout = sweep_heldout_observations(config, &edges[1], heldout_loops, heldout_paths);
    SweepObservations { edges, heldout, generator }
}

/// The ranges and the scales that a model is tuned over.
pub open spec fn tuning_grids(
    model: PlanarHolesModelKind,
    config: PlanarHolesTopologyVsNaiveGpConfig,
) -> (Seq<Scalar>, Seq<Scalar>) {
    if model == PlanarHolesModelKind::NaiveEuclideanVectorMatern {
        (config.naive_kappas@, config.naive_taus@)
    } else {
        (config.hodge_kappas@, config.hodge_taus@)
    }
}

/// Chooses the parameters of a model that is tuned, given the validation scores of all candidates.
pub fn select_tuned_model(
    model: PlanarHolesModelKind,
    config: &PlanarHolesTopologyVsNaiveGpConfig,
    scores: &Vec<Scalar>,
) -> (result: Result<(usize, Candidate), String>)
    requires
        scores.len() == tuning_grids(model, *config).0.len() * tuning_grids(model, *config).1.len()
            * config.observation_variance_scales.len(),
    ensures
        match result {
            Ok((number, candidate)) => {
                &&& is_tuned(model)
                &&& is_first_minimum(scores@, number as int)
                &&& candidate == candidate_at(
                    tuning_grids(model, *config).0,
                    tuning_grids(model, *config).1,
                    config.observation_variance_scales@,
                    number as int,
                )
            },
            Err(message) => if !is_tuned(model) {
                message@ == "unsupported topology-vs-naive model "@ + model.name()
            } else {
                !any_finite(scores@) && message@
                    == "no finite validation score for topology-vs-naive model "@ + model.name()
            },
        },
{
    match check_tuned_model(model) {
        Err(message) => {
            return Err(message);
        },
        Ok(_) => {},
    }
    if model == PlanarHolesModelKind::NaiveEuclideanVectorMatern {
        select_topology_vs_naive_candidate(
            model,
            &config.naive_kappas,
            &config.naive_taus,
            &config.observation_variance_scales,
            scores,
        )
    } else {
        select_topology_vs_naive_candidate(
            model,
            &config.hodge_kappas,
            &config.hodge_taus,
            &config.observation_variance_scales,
            scores,
        )
    }
}

} // verus!
