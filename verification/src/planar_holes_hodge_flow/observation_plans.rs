//! Which observations the studies train on, validate on and hold out, and in which order.

use super::config::{
    PlanarHolesFlowConfig, PlanarHolesSensorDesignSweepConfig, PlanarHolesTopologyVsNaiveGpConfig,
};
use super::designs::{
    at_most, available_counts, lines_in, loops_in, paths_in, periods_in, sensor_design_counts,
    SensorDesignCounts,
};
use super::edge_plans::FlowEdges;
use super::hole_cycles::{PlanarHoleCycle, SignedMatrix};
use super::kinds::{PlanarHolesObservationKind, PlanarHolesSensorDesignKind};
use super::observation::{
    copy_entries, edge_group, edge_observations, harmonic_period_observations, loop_group,
    loop_observations, period_group, row_group, row_observations, views, ObservationModel,
    PlanarHolesObservation,
};
use super::sensors::{path_pair_rows, PathHomologyPair, SensorRow};
use crate::scalar::Scalar;
use crate::text::{count_text, decimal};
use vstd::prelude::*;

verus! {

/// A family of cycles with the matrix that reads the flow along them.
#[derive(Debug)]
pub struct BuiltCycles {
    pub matrix: SignedMatrix,
    pub cycles: Vec<PlanarHoleCycle>,
}

impl BuiltCycles {
    /// Whether every row of the matrix has a cycle.
    pub open spec fn wf(&self) -> bool {
        self.matrix.rows.len() == self.cycles.len()
    }
}

/// The observations of a flow.
#[derive(Debug)]
pub struct FlowObservations {
    pub local: Vec<PlanarHolesObservation>,
    pub loops: Vec<PlanarHolesObservation>,
    pub periods: Vec<PlanarHolesObservation>,
    pub heldout: Vec<PlanarHolesObservation>,
}

/// Whether the observations of a flow are those of its edges and cycles.
pub open spec fn lists_flow(
    config: PlanarHolesFlowConfig,
    edges: FlowEdges,
    train: BuiltCycles,
    heldout: BuiltCycles,
    observations: FlowObservations,
) -> bool {
    &&& views(observations.local@) == edge_group(
        PlanarHolesObservationKind::Local,
        "local"@,
        edges.local@,
        config.local_noise_variance,
    )
    &&& views(observations.loops@) == loop_group(
        PlanarHolesObservationKind::TrainLoop,
        "train_loop"@,
        train.matrix,
        train.cycles@,
        config.loop_noise_variance,
    )
    &&& views(observations.periods@) == period_group(
        PlanarHolesObservationKind::TrainHarmonicPeriod,
        "train_harmonic_period"@,
        train.cycles@,
        config.loop_noise_variance,
    )
    &&& views(observations.heldout@) == edge_group(
        PlanarHolesObservationKind::HeldoutLocal,
        "heldout_local"@,
        edges.heldout@,
        config.local_noise_variance,
    ) + loop_group(
        PlanarHolesObservationKind::HeldoutLoop,
        "heldout_loop"@,
        heldout.matrix,
        heldout.cycles@,
        config.loop_noise_variance,
    ) + period_group(
        PlanarHolesObservationKind::HeldoutHarmonicPeriod,
        "heldout_harmonic_period"@,
        heldout.cycles@,
        config.loop_noise_variance,
    )
}

/// Lists the observations of a flow: local ones, loops and harmonic periods to train on, and the
/// same three held out.
pub fn flow_observations(
    config: &PlanarHolesFlowConfig,
    edges: &FlowEdges,
    train: &BuiltCycles,
    heldout: &BuiltCycles,
) -> (observations: FlowObservations)
    requires
        train.wf(),
        heldout.wf(),
    ensures
        lists_flow(*config, *edges, *train, *heldout, observations),
{
    let mut local: Vec<PlanarHolesObservation> = Vec::new();
    assert(views(local@) =~= Seq::empty());
    edge_observations(
        &mut local,
        PlanarHolesObservationKind::Local,
        "local",
        &edges.local,
        config.local_noise_variance,
    );
    let mut loops: Vec<PlanarHolesObservation> = Vec::new();
    assert(views(loops@) =~= Seq::empty());
    loop_observations(
        &mut loops,
        PlanarHolesObservationKind::TrainLoop,
        "train_loop",
        &train.matrix,
        &train.cycles,
        config.loop_noise_variance,
    );
    let mut periods: Vec<PlanarHolesObservation> = Vec::new();
    assert(views(periods@) =~= Seq::empty());
    harmonic_period_observations(
        &mut periods,
        PlanarHolesObservationKind::TrainHarmonicPeriod,
        "train_harmonic_period",
        &train.cycles,
        config.loop_noise_variance,
    );
    let mut held: Vec<PlanarHolesObservation> = Vec::new();
    assert(views(held@) =~= Seq::empty());
    edge_observations(
        &mut held,
        PlanarHolesObservationKind::HeldoutLocal,
        "heldout_local",
        &edges.heldout,
        config.local_noise_variance,
    );
    loop_observations(
        &mut held,
        PlanarHolesObservationKind::HeldoutLoop,
        "heldout_loop",
        &heldout.matrix,
        &heldout.cycles,
        config.loop_noise_variance,
    );
    harmonic_period_observations(
        &mut held,
        PlanarHolesObservationKind::HeldoutHarmonicPeriod,
        "heldout_harmonic_period",
        &heldout.cycles,
        config.loop_noise_variance,
    );
    FlowObservations { local, loops, periods, heldout: held }
}

/// What a sensor sweep holds out before its harmonic periods.
pub open spec fn sweep_heldout_group(
    config: PlanarHolesSensorDesignSweepConfig,
    edges: Seq<usize>,
    loops: Seq<SensorRow>,
    paths: Seq<SensorRow>,
) -> Seq<ObservationModel> {
    edge_group(
        PlanarHolesObservationKind::HeldoutLocal,
        "heldout_local"@,
        edges,
        config.base.local_noise_variance,
    ) + row_group(
        PlanarHolesObservationKind::HeldoutInteriorLoop,
        loops,
        config.interior_loop_noise_variance,
    ) + row_group(
        PlanarHolesObservationKind::HeldoutLongPath,
        paths,
        config.long_path_noise_variance,
    )
}

/// Lists what a sensor sweep holds out before its harmonic periods: edges, loops and paths.
pub fn sweep_heldout_observations(
    config: &PlanarHolesSensorDesignSweepConfig,
    edges: &Vec<usize>,
    loops: &Vec<SensorRow>,
    paths: &Vec<SensorRow>,
) -> (observations: Vec<PlanarHolesObservation>)
    ensures
        views(observations@) == sweep_heldout_group(*config, edges@, loops@, paths@),
{
    let mut observations: Vec<PlanarHolesObservation> = Vec::new();
    assert(views(observations@) =~= Seq::empty());
    edge_observations(
        &mut observations,
        PlanarHolesObservationKind::HeldoutLocal,
        "heldout_local",
        edges,
        config.base.local_noise_variance,
    );
    row_observations(
        &mut observations,
        PlanarHolesObservationKind::HeldoutInteriorLoop,
        loops,
        loops.len(),
        config.interior_loop_noise_variance,
    );
    row_observations(
        &mut observations,
        PlanarHolesObservationKind::HeldoutLongPath,
        paths,
        paths.len(),
        config.long_path_noise_variance,
    );
    assert(loops@.take(loops.len() as int) =~= loops@);
    assert(paths@.take(paths.len() as int) =~= paths@);
    observations
}

/// What a design trains on in a sensor sweep: the sensors it asks for, the observations of edges,
/// loops and paths, and how many of the harmonic periods follow them.
#[derive(Debug)]
pub struct SweepTraining {
    pub counts: SensorDesignCounts,
    pub observations: Vec<PlanarHolesObservation>,
    pub period_count: usize,
}

fn first_edges(edges: &Vec<usize>, count: usize) -> (first: Vec<usize>)
    requires
        count <= edges.len(),
    ensures
        first@ == edges@.take(count as int),
{
    let mut first: Vec<usize> = Vec::new();
    let mut index: usize = 0;
    while index < count
        invariant
            index <= count <= edges.len(),
            first@ == edges@.take(index as int),
        decreases count - index,
    {
        first.push(edges[index]);
        assert(edges@.take(index + 1) =~= edges@.take(index as int).push(edges@[index as int]));
        index = index + 1;
    }
    first
}

/// The loops that a design takes its interior loops from.
pub open spec fn design_loops(
    design: PlanarHolesSensorDesignKind,
    small_loops: Seq<SensorRow>,
    multiscale_loops: Seq<SensorRow>,
) -> Seq<SensorRow> {
    match design {
        PlanarHolesSensorDesignKind::EdgesSmallInteriorLoops => small_loops,
        _ => multiscale_loops,
    }
}

/// Lists what a design trains on: as many edges, loops, paths and harmonic periods as it asks for
/// and as there are.
pub fn sweep_training(
    config: &PlanarHolesSensorDesignSweepConfig,
    design: PlanarHolesSensorDesignKind,
    hole_count: usize,
    edges: &Vec<usize>,
    small_loops: &Vec<SensorRow>,
    multiscale_loops: &Vec<SensorRow>,
    paths: &Vec<SensorRow>,
    available_periods: usize,
) -> (training: SweepTraining)
    requires
        lines_in(design, config.total_observation_budget as nat, hole_count as nat) <= usize::MAX,
    ensures
        ({
            let total = config.total_observation_budget as nat;
            let loops = design_loops(design, small_loops@, multiscale_loops@);
            let lines = lines_in(design, total, hole_count as nat);
            &&& training.counts.interior_loop_count == loops_in(design, total)
            &&& training.counts.long_path_count == paths_in(design, total)
            &&& training.counts.harmonic_period_count == periods_in(
                design,
                total,
                hole_count as nat,
            )
            &&& training.counts.edge_count == (if lines <= total {
                total - lines
            } else {
                0
            })
            &&& training.period_count == at_most(
                training.counts.harmonic_period_count as nat,
                available_periods as nat,
            )
            &&& views(training.observations@) == edge_group(
                PlanarHolesObservationKind::Local,
                "local"@,
                edges@.take(
                    at_most(training.counts.edge_count as nat, edges@.len()) as int,
                ),
                config.base.local_noise_variance,
            ) + row_group(
                PlanarHolesObservationKind::TrainInteriorLoop,
                loops.take(
                    at_most(training.counts.interior_loop_count as nat, loops.len()) as int,
                ),
                config.interior_loop_noise_variance,
            ) + row_group(
                PlanarHolesObservationKind::TrainLongPath,
                paths@.take(
                    at_most(training.counts.long_path_count as nat, paths@.len()) as int,
                ),
                config.long_path_noise_variance,
            )
        }),
{
    let counts = sensor_design_counts(design, config.total_observation_budget, hole_count);
    let loops: &Vec<SensorRow> = match design {
        PlanarHolesSensorDesignKind::EdgesSmallInteriorLoops => small_loops,
        _ => multiscale_loops,
    };
    let limited = available_counts(
        counts,
        edges.len(),
        loops.len(),
        paths.len(),
        available_periods,
    );
    let mut observations: Vec<PlanarHolesObservation> = Vec::new();
    assert(views(observations@) =~= Seq::empty());
    let observed = first_edges(edges, limited.edge_count);
    edge_observations(
        &mut observations,
        PlanarHolesObservationKind::Local,
        "local",
        &observed,
        config.base.local_noise_variance,
    );
    row_observations(
        &mut observations,
        PlanarHolesObservationKind::TrainInteriorLoop,
        loops,
        limited.interior_loop_count,
        config.interior_loop_noise_variance,
    );
    row_observations(
        &mut observations,
        PlanarHolesObservationKind::TrainLongPath,
        paths,
        limited.long_path_count,
        config.long_path_noise_variance,
    );
    SweepTraining { counts, observations, period_count: limited.harmonic_period_count }
}

/// What the study on the default domain trains on.
pub open spec fn study_training_group(
    config: PlanarHolesTopologyVsNaiveGpConfig,
    edges: Seq<usize>,
    loops: Seq<SensorRow>,
    paths: Seq<SensorRow>,
    train: BuiltCycles,
) -> Seq<ObservationModel> {
    edge_group(
        PlanarHolesObservationKind::Local,
        "train_local"@,
        edges,
        config.base.local_noise_variance,
    ) + row_group(
        PlanarHolesObservationKind::TrainInteriorLoop,
        loops,
        config.interior_loop_noise_variance,
    ) + row_group(
        PlanarHolesObservationKind::TrainLongPath,
        paths,
        config.long_path_noise_variance,
    ) + loop_group(
        PlanarHolesObservationKind::TrainLoop,
        "train_loop"@,
        train.matrix,
        train.cycles@,
        config.base.loop_noise_variance,
    )
}

/// Lists what the study on the default domain trains on: edges, loops, paths and cycles.
pub fn study_training(
    config: &PlanarHolesTopologyVsNaiveGpConfig,
    edges: &Vec<usize>,
    loops: &Vec<SensorRow>,
    paths: &Vec<SensorRow>,
    train: &BuiltCycles,
) -> (observations: Vec<PlanarHolesObservation>)
    requires
        train.wf(),
    ensures
        views(observations@) == study_training_group(*config, edges@, loops@, paths@, *train),
{
    let mut observations: Vec<PlanarHolesObservation> = Vec::new();
    assert(views(observations@) =~= Seq::empty());
    edge_observations(
        &mut observations,
        PlanarHolesObservationKind::Local,
        "train_local",
        edges,
        config.base.local_noise_variance,
    );
    row_observations(
        &mut observations,
        PlanarHolesObservationKind::TrainInteriorLoop,
        loops,
        loops.len(),
        config.interior_loop_noise_variance,
    );
    row_observations(
        &mut observations,
        PlanarHolesObservationKind::TrainLongPath,
        paths,
        paths.len(),
        config.long_path_noise_variance,
    );
    loop_observations(
        &mut observations,
        PlanarHolesObservationKind::TrainLoop,
        "train_loop",
        &train.matrix,
        &train.cycles,
        config.base.loop_noise_variance,
    );
    assert(loops@.take(loops.len() as int) =~= loops@);
    assert(paths@.take(paths.len() as int) =~= paths@);
    observations
}

/// The observations of the first `count` further families of cycles.
pub open spec fn family_groups(
    prefix: Seq<char>,
    families: Seq<BuiltCycles>,
    noise_variance: Scalar,
    count: int,
) -> Seq<ObservationModel>
    decreases count,
{
    if count <= 0 {
        Seq::empty()
    } else {
        family_groups(prefix, families, noise_variance, count - 1) + loop_group(
            PlanarHolesObservationKind::HeldoutLoop,
            prefix + "_loop_family_"@ + decimal((count - 1) as nat),
            families[count - 1].matrix,
            families[count - 1].cycles@,
            noise_variance,
        )
    }
}

/// What the study on the default domain validates on or holds out.
pub open spec fn study_heldout_group(
    config: PlanarHolesTopologyVsNaiveGpConfig,
    prefix: Seq<char>,
    edges: Seq<usize>,
    loops: Seq<SensorRow>,
    paths: Seq<SensorRow>,
    built: BuiltCycles,
    families: Seq<BuiltCycles>,
) -> Seq<ObservationModel> {
    edge_group(
        PlanarHolesObservationKind::HeldoutLocal,
        prefix + "_local"@,
        edges,
        config.base.local_noise_variance,
    ) + row_group(
        PlanarHolesObservationKind::HeldoutInteriorLoop,
        loops,
        config.interior_loop_noise_variance,
    ) + row_group(
        PlanarHolesObservationKind::HeldoutLongPath,
        paths,
        config.long_path_noise_variance,
    ) + loop_group(
        PlanarHolesObservationKind::HeldoutLoop,
        prefix + "_loop"@,
        built.matrix,
        built.cycles@,
        config.base.loop_noise_variance,
    ) + family_groups(
        prefix,
        families,
        config.base.loop_noise_variance,
        families.len() as int,
    )
}

/// Lists what the study on the default domain validates on or holds out, with labels that start
/// with the prefix: edges, loops, paths, cycles, and further families of cycles.
pub fn study_heldout(
    config: &PlanarHolesTopologyVsNaiveGpConfig,
    prefix: &str,
    edges: &Vec<usize>,
    loops: &Vec<SensorRow>,
    paths: &Vec<SensorRow>,
    built: &BuiltCycles,
    families: &Vec<BuiltCycles>,
) -> (observations: Vec<PlanarHolesObservation>)
    requires
        built.wf(),
        forall|f: int| 0 <= f < families.len() ==> (#[trigger] families@[f]).wf(),
    ensures
        views(observations@) == study_heldout_group(
            *config,
            prefix@,
            edges@,
            loops@,
            paths@,
            *built,
            families@,
        ),
{
    let mut observations: Vec<PlanarHolesObservation> = Vec::new();
    assert(views(observations@) =~= Seq::empty());
    let mut local_prefix = String::from_str(prefix);
    local_prefix.append("_local");
    edge_observations(
        &mut observations,
        PlanarHolesObservationKind::HeldoutLocal,
        local_prefix.as_str(),
        edges,
        config.base.local_noise_variance,
    );
    row_observations(
        &mut observations,
        PlanarHolesObservationKind::HeldoutInteriorLoop,
        loops,
        loops.len(),
        config.interior_loop_noise_variance,
    );
    row_observations(
        &mut observations,
        PlanarHolesObservationKind::HeldoutLongPath,
        paths,
        paths.len(),
        config.long_path_noise_variance,
    );
    let mut loop_prefix = String::from_str(prefix);
    loop_prefix.append("_loop");
    loop_observations(
        &mut observations,
        PlanarHolesObservationKind::HeldoutLoop,
        loop_prefix.as_str(),
        &built.matrix,
        &built.cycles,
        config.base.loop_noise_variance,
    );
    assert(loops@.take(loops.len() as int) =~= loops@);
    assert(paths@.take(paths.len() as int) =~= paths@);
    let ghost start = views(observations@);
    let mut index: usize = 0;
    assert(start + family_groups(prefix@, families@, config.base.loop_noise_variance, 0) =~= start);
    while index < families.len()
        invariant
            forall|f: int| 0 <= f < families.len() ==> (#[trigger] families@[f]).wf(),
            index <= families.len(),
            views(observations@) == start + family_groups(
                prefix@,
                families@,
                config.base.loop_noise_variance,
                index as int,
            ),
        decreases families.len() - index,
    {
        let mut family_prefix = String::from_str(prefix);
        family_prefix.append("_loop_family_");
        family_prefix.append(count_text(index).as_str());
        let ghost before = views(observations@);
        let family: &BuiltCycles = &families[index];
        assert(families@[index as int].wf());
        loop_observations(
            &mut observations,
            PlanarHolesObservationKind::HeldoutLoop,
            family_prefix.as_str(),
            &family.matrix,
            &family.cycles,
            config.base.loop_noise_variance,
        );
        proof {
            let groups = family_groups(
                prefix@,
                families@,
                config.base.loop_noise_variance,
                index as int,
            );
            let next = loop_group(
                PlanarHolesObservationKind::HeldoutLoop,
                prefix@ + "_loop_family_"@ + decimal(index as nat),
                family.matrix,
                family.cycles@,
                config.base.loop_noise_variance,
            );
            assert((start + groups) + next =~= start + (groups + next));
        }
        index = index + 1;
    }
    observations
}

/// What the barrier study trains on.
pub open spec fn barrier_training_group(
    config: PlanarHolesTopologyVsNaiveGpConfig,
    edges: Seq<usize>,
    train: BuiltCycles,
) -> Seq<ObservationModel> {
    edge_group(
        PlanarHolesObservationKind::Local,
        "train_left_local"@,
        edges,
        config.base.local_noise_variance,
    ) + loop_group(
        PlanarHolesObservationKind::TrainLoop,
        "train_loop"@,
        train.matrix,
        train.cycles@,
        config.base.loop_noise_variance,
    )
}

/// Lists what the barrier study trains on: edges left of the barrier, and cycles.
pub fn barrier_training(
    config: &PlanarHolesTopologyVsNaiveGpConfig,
    edges: &Vec<usize>,
    train: &BuiltCycles,
) -> (observations: Vec<PlanarHolesObservation>)
    requires
        train.wf(),
    ensures
        views(observations@) == barrier_training_group(*config, edges@, *train),
{
    let mut observations: Vec<PlanarHolesObservation> = Vec::new();
    assert(views(observations@) =~= Seq::empty());
    edge_observations(
        &mut observations,
        PlanarHolesObservationKind::Local,
        "train_left_local",
        edges,
        config.base.local_noise_variance,
    );
    loop_observations(
        &mut observations,
        PlanarHolesObservationKind::TrainLoop,
        "train_loop",
        &train.matrix,
        &train.cycles,
        config.base.loop_noise_variance,
    );
    observations
}

/// What the barrier study does with observations that it does not train on.
#[derive(Debug, Clone, Copy, PartialEq, Eq, Structural)]
pub enum BarrierUse {
    /// Left of the barrier, for validation.
    Validation,
    /// Right of the barrier, held out.
    Heldout,
}

impl BarrierUse {
    /// How the labels of its edges start.
    pub open spec fn edge_prefix(self) -> Seq<char> {
        match self {
            BarrierUse::Validation => "validation_left_local"@,
            BarrierUse::Heldout => "heldout_right_local"@,
        }
    }

    /// How the labels of its cycles start.
    pub open spec fn loop_prefix(self) -> Seq<char> {
        match self {
            BarrierUse::Validation => "validation_loop"@,
            BarrierUse::Heldout => "heldout_loop"@,
        }
    }
}

/// What the barrier study validates on or holds out.
pub open spec fn barrier_heldout_group(
    config: PlanarHolesTopologyVsNaiveGpConfig,
    part: BarrierUse,
    edges: Seq<usize>,
    paths: Seq<SensorRow>,
    built: BuiltCycles,
) -> Seq<ObservationModel> {
    edge_group(
        PlanarHolesObservationKind::HeldoutLocal,
        part.edge_prefix(),
        edges,
        config.base.local_noise_variance,
    ) + row_group(
        PlanarHolesObservationKind::HeldoutLongPath,
        paths,
        config.long_path_noise_variance,
    ) + loop_group(
        PlanarHolesObservationKind::HeldoutLoop,
        part.loop_prefix(),
        built.matrix,
        built.cycles@,
        config.base.loop_noise_variance,
    )
}

/// Lists what the barrier study validates on or holds out: edges, paths and cycles.
pub fn barrier_heldout(
    config: &PlanarHolesTopologyVsNaiveGpConfig,
    part: BarrierUse,
    edges: &Vec<usize>,
    paths: &Vec<SensorRow>,
    built: &BuiltCycles,
) -> (observations: Vec<PlanarHolesObservation>)
    requires
        built.wf(),
    ensures
        views(observations@) == barrier_heldout_group(*config, part, edges@, paths@, *built),
{
    let mut observations: Vec<PlanarHolesObservation> = Vec::new();
    assert(views(observations@) =~= Seq::empty());
    let edge_prefix: &str = match part {
        BarrierUse::Validation => "validation_left_local",
        BarrierUse::Heldout => "heldout_right_local",
    };
    let loop_prefix: &str = match part {
        BarrierUse::Validation => "validation_loop",
        BarrierUse::Heldout => "heldout_loop",
    };
    edge_observations(
        &mut observations,
        PlanarHolesObservationKind::HeldoutLocal,
        edge_prefix,
        edges,
        config.base.local_noise_variance,
    );
    row_observations(
        &mut observations,
        PlanarHolesObservationKind::HeldoutLongPath,
        paths,
        paths.len(),
        config.long_path_noise_variance,
    );
    loop_observations(
        &mut observations,
        PlanarHolesObservationKind::HeldoutLoop,
        loop_prefix,
        &built.matrix,
        &built.cycles,
        config.base.loop_noise_variance,
    );
    assert(paths@.take(paths.len() as int) =~= paths@);
    observations
}

/// The upper and the lower row of every pair, one after the other.
pub open spec fn both_rows(pairs: Seq<PathHomologyPair>) -> Seq<SensorRow> {
    Seq::new(
        2 * pairs.len(),
        |i: int|
            if i % 2 == 0 {
                pairs[i / 2].upper
            } else {
                pairs[i / 2].lower
            },
    )
}

/// The difference row of every pair.
pub open spec fn contrasts(pairs: Seq<PathHomologyPair>) -> Seq<SensorRow> {
    pairs.map_values(|pair: PathHomologyPair| pair.contrast)
}

fn copied_rows(rows: &Vec<&SensorRow>) -> (copies: Vec<SensorRow>)
    ensures
        copies.len() == rows.len(),
        forall|i: int|
            #![trigger copies@[i]]
            0 <= i < rows.len() ==> copies@[i].label@ == rows@[i].label@ && copies@[i].entries@
                == rows@[i].entries@,
{
    let mut copies: Vec<SensorRow> = Vec::new();
    let mut index: usize = 0;
    while index < rows.len()
        invariant
            index <= rows.len(),
            copies.len() == index,
            forall|i: int|
                #![trigger copies@[i]]
                0 <= i < index ==> copies@[i].label@ == rows@[i].label@ && copies@[i].entries@
                    == rows@[i].entries@,
        decreases rows.len() - index,
    {
        let row: &SensorRow = rows[index];
        copies.push(
            SensorRow {
                label: String::from_str(row.label.as_str()),
                entries: copy_entries(&row.entries),
            },
        );
        index = index + 1;
    }
    copies
}

/// Adds observations of both paths of every pair.
pub fn path_observations(
    observations: &mut Vec<PlanarHolesObservation>,
    kind: PlanarHolesObservationKind,
    pairs: &Vec<PathHomologyPair>,
    noise_variance: Scalar,
)
    requires
        2 * pairs.len() <= usize::MAX,
    ensures
        views(final(observations)@) == views(old(observations)@) + row_group(
            kind,
            both_rows(pairs@),
            noise_variance,
        ),
{
    let rows = path_pair_rows(pairs);
    let copies = copied_rows(&rows);
    row_observations(observations, kind, &copies, copies.len(), noise_variance);
    proof {
        assert(copies@.take(copies.len() as int) =~= copies@);
        let group = row_group(kind, copies@, noise_variance);
        let wanted = row_group(kind, both_rows(pairs@), noise_variance);
        assert forall|i: int| 0 <= i < wanted.len() implies group[i] == wanted[i] by {
            let p = i / 2;
            assert(0 <= p < pairs.len());
            assert(*rows@[2 * p] == pairs@[p].upper && *rows@[2 * p + 1] == pairs@[p].lower);
            if i % 2 == 0 {
                assert(i == 2 * p);
            } else {
                assert(i == 2 * p + 1);
            }
            assert(copies@[i].label@ == rows@[i].label@);
        }
        assert(group =~= wanted);
    }
}

/// Adds observations of the difference of the two paths of every pair.
pub fn contrast_observations(
    observations: &mut Vec<PlanarHolesObservation>,
    kind: PlanarHolesObservationKind,
    pairs: &Vec<PathHomologyPair>,
    noise_variance: Scalar,
)
    ensures
        views(final(observations)@) == views(old(observations)@) + row_group(
            kind,
            contrasts(pairs@),
            noise_variance,
        ),
{
    let mut rows: Vec<&SensorRow> = Vec::new();
    let mut index: usize = 0;
    while index < pairs.len()
        invariant
            index <= pairs.len(),
            rows.len() == index,
            forall|i: int| 0 <= i < index ==> *(#[trigger] rows@[i]) == pairs@[i].contrast,
        decreases pairs.len() - index,
    {
        rows.push(&pairs[index].contrast);
        index = index + 1;
    }
    let copies = copied_rows(&rows);
    row_observations(observations, kind, &copies, copies.len(), noise_variance);
    proof {
        assert(copies@.take(copies.len() as int) =~= copies@);
        let group = row_group(kind, copies@, noise_variance);
        let wanted = row_group(kind, contrasts(pairs@), noise_variance);
        assert forall|i: int| 0 <= i < wanted.len() implies group[i] == wanted[i] by {
            assert(*rows@[i] == pairs@[i].contrast);
            assert(copies@[i].label@ == rows@[i].label@);
        }
        assert(group =~= wanted);
    }
}

/// What the study with pairs of paths trains on.
pub open spec fn path_homology_training_group(
    config: PlanarHolesTopologyVsNaiveGpConfig,
    edges: Seq<usize>,
    train: BuiltCycles,
    pairs: Seq<PathHomologyPair>,
) -> Seq<ObservationModel> {
    edge_group(
        PlanarHolesObservationKind::Local,
        "train_local"@,
        edges,
        config.base.local_noise_variance,
    ) + loop_group(
        PlanarHolesObservationKind::TrainLoop,
        "train_loop"@,
        train.matrix,
        train.cycles@,
        config.base.loop_noise_variance,
    ) + row_group(
        PlanarHolesObservationKind::TrainPathHomology,
        both_rows(pairs),
        config.long_path_noise_variance,
    )
}

/// Lists what the study with pairs of paths trains on: edges, cycles and both paths of every
/// pair.
pub fn path_homology_training(
    config: &PlanarHolesTopologyVsNaiveGpConfig,
    edges: &Vec<usize>,
    train: &BuiltCycles,
    pairs: &Vec<PathHomologyPair>,
) -> (observations: Vec<PlanarHolesObservation>)
    requires
        train.wf(),
        2 * pairs.len() <= usize::MAX,
    ensures
        views(observations@) == path_homology_training_group(*config, edges@, *train, pairs@),
{
    let mut observations: Vec<PlanarHolesObservation> = Vec::new();
    assert(views(observations@) =~= Seq::empty());
    edge_observations(
        &mut observations,
        PlanarHolesObservationKind::Local,
        "train_local",
        edges,
        config.base.local_noise_variance,
    );
    loop_observations(
        &mut observations,
        PlanarHolesObservationKind::TrainLoop,
        "train_loop",
        &train.matrix,
        &train.cycles,
        config.base.loop_noise_variance,
    );
    path_observations(
        &mut observations,
        PlanarHolesObservationKind::TrainPathHomology,
        pairs,
        config.long_path_noise_variance,
    );
    observations
}

/// What the study with pairs of paths validates on or holds out.
pub open spec fn path_homology_heldout_group(
    config: PlanarHolesTopologyVsNaiveGpConfig,
    prefix: Seq<char>,
    edges: Seq<usize>,
    built: BuiltCycles,
    pairs: Seq<PathHomologyPair>,
) -> Seq<ObservationModel> {
    edge_group(
        PlanarHolesObservationKind::HeldoutLocal,
        prefix + "_local"@,
        edges,
        config.base.local_noise_variance,
    ) + loop_group(
        PlanarHolesObservationKind::HeldoutLoop,
        prefix + "_loop"@,
        built.matrix,
        built.cycles@,
        config.base.loop_noise_variance,
    ) + row_group(
        PlanarHolesObservationKind::HeldoutPathHomology,
        both_rows(pairs),
        config.long_path_noise_variance,
    ) + row_group(
        PlanarHolesObservationKind::HeldoutPathContrast,
        contrasts(pairs),
        config.base.loop_noise_variance,
    )
}

/// Lists what the study with pairs of paths validates on or holds out, with labels that start
/// with the prefix: edges, cycles, both paths of every pair, and the difference of the two.
pub fn path_homology_heldout(
    config: &PlanarHolesTopologyVsNaiveGpConfig,
    prefix: &str,
    edges: &Vec<usize>,
    built: &BuiltCycles,
    pairs: &Vec<PathHomologyPair>,
) -> (observations: Vec<PlanarHolesObservation>)
    requires
        built.wf(),
        2 * pairs.len() <= usize::MAX,
    ensures
        views(observations@) == path_homology_heldout_group(*config, prefix@, edges@, *built, pairs@),
{
    let mut observations: Vec<PlanarHolesObservation> = Vec::new();
    assert(views(observations@) =~= Seq::empty());
    let mut local_prefix = String::from_str(prefix);
    local_prefix.append("_local");
    edge_observations(
        &mut observations,
        PlanarHolesObservationKind::HeldoutLocal,
        local_prefix.as_str(),
        edges,
        config.base.local_noise_variance,
    );
    let mut loop_prefix = String::from_str(prefix);
    loop_prefix.append("_loop");
    loop_observations(
        &mut observations,
        PlanarHolesObservationKind::HeldoutLoop,
        loop_prefix.as_str(),
        &built.matrix,
        &built.cycles,
        config.base.loop_noise_variance,
    );
    path_observations(
        &mut observations,
        PlanarHolesObservationKind::HeldoutPathHomology,
        pairs,
        config.long_path_noise_variance,
    );
    contrast_observations(
        &mut observations,
        PlanarHolesObservationKind::HeldoutPathContrast,
        pairs,
        config.base.loop_noise_variance,
    );
    observations
}

} // verus!
