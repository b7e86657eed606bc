//! What holds of lists of observations: each reads what it is an observation of, and a study trains
//! and validates on what it says.

use super::config::{
    PlanarHolesFlowConfig, PlanarHolesSensorDesignSweepConfig, PlanarHolesTopologyVsNaiveGpConfig,
};
use super::edge_plans::FlowEdges;
use super::hole_cycles::{PlanarHoleCycle, SignedMatrix};
use super::kinds::{PlanarHolesObservationKind, PlanarHolesObservationScenario};
use super::observation::{
    edge_group, loop_group, period_group, row_group, scenario_group, views, EntriesModel,
    ObservationModel, PlanarHolesObservation,
};
use super::observation_plans::{
    barrier_heldout_group, barrier_training_group, both_rows, contrasts, family_groups, lists_flow,
    path_homology_heldout_group, path_homology_training_group, study_heldout_group,
    study_training_group, sweep_heldout_group, BarrierUse, BuiltCycles, FlowObservations,
};
use super::rows::{pairing, weight_at};
use super::sensors::{PathHomologyPair, SensorRow};
use crate::scalar::Scalar;
use crate::text::decimal;
use vstd::prelude::*;

verus! {

/// Whether an observation reads of every field what a row does.
pub open spec fn reads_row(observation: ObservationModel, row: Seq<(usize, i64)>) -> bool {
    match observation.entries {
        EntriesModel::Signed { entries } => forall|field: spec_fn(int) -> int| #[trigger]
            pairing(entries, field) == pairing(row, field),
        EntriesModel::HarmonicPeriod { cycle } => false,
    }
}

/// Whether an observation reads of every field its value on an edge.
pub open spec fn reads_edge(observation: ObservationModel, edge: int) -> bool {
    match observation.entries {
        EntriesModel::Signed { entries } => forall|field: spec_fn(int) -> int| #[trigger]
            pairing(entries, field) == field(edge),
        EntriesModel::HarmonicPeriod { cycle } => false,
    }
}

/// Whether the value of an observation depends on the value of the field on an edge.
pub open spec fn depends_on(observation: ObservationModel, edge: int) -> bool {
    match observation.entries {
        EntriesModel::Signed { entries } => weight_at(entries, edge) != 0,
        EntriesModel::HarmonicPeriod { cycle } => false,
    }
}

/// Whether the observations from a place on are those of the edges, one for each in their order.
pub open spec fn observes_edges(
    list: Seq<ObservationModel>,
    from: int,
    kind: PlanarHolesObservationKind,
    prefix: Seq<char>,
    edges: Seq<usize>,
    noise_variance: Scalar,
) -> bool {
    &&& from + edges.len() <= list.len()
    &&& forall|i: int|
        #![trigger edges[i]]
        0 <= i < edges.len() ==> {
            &&& reads_edge(list[from + i], edges[i] as int)
            &&& list[from + i].kind == kind
            &&& list[from + i].noise_variance == noise_variance
            &&& list[from + i].label == prefix + "_"@ + decimal(i as nat) + "_edge_"@ + decimal(
                edges[i] as nat,
            )
        }
}

/// Whether the observations from a place on are those of the sensors, one for each in their order.
pub open spec fn observes_sensors(
    list: Seq<ObservationModel>,
    from: int,
    kind: PlanarHolesObservationKind,
    rows: Seq<SensorRow>,
    noise_variance: Scalar,
) -> bool {
    &&& from + rows.len() <= list.len()
    &&& forall|i: int|
        #![trigger rows[i]]
        0 <= i < rows.len() ==> {
            &&& reads_row(list[from + i], rows[i].entries@)
            &&& list[from + i].kind == kind
            &&& list[from + i].noise_variance == noise_variance
            &&& list[from + i].label == rows[i].label@
        }
}

/// Whether the observations from a place on are those of the flows along the cycles, one for each
/// in their order.
pub open spec fn observes_flows(
    list: Seq<ObservationModel>,
    from: int,
    kind: PlanarHolesObservationKind,
    prefix: Seq<char>,
    matrix: SignedMatrix,
    cycles: Seq<PlanarHoleCycle>,
    noise_variance: Scalar,
) -> bool {
    &&& from + matrix.rows.len() <= list.len()
    &&& forall|i: int|
        #![trigger matrix.rows@[i]]
        0 <= i < matrix.rows.len() ==> {
            &&& reads_row(list[from + i], matrix.rows@[i]@)
            &&& list[from + i].kind == kind
            &&& list[from + i].noise_variance == noise_variance
            &&& list[from + i].label == prefix + "_"@ + cycles[i].name@
        }
}

/// Whether the observations from a place on are those of the harmonic flows along the cycles, one
/// for each in their order.
pub open spec fn observes_periods(
    list: Seq<ObservationModel>,
    from: int,
    kind: PlanarHolesObservationKind,
    prefix: Seq<char>,
    cycles: Seq<PlanarHoleCycle>,
    noise_variance: Scalar,
) -> bool {
    &&& from + cycles.len() <= list.len()
    &&& forall|i: int|
        #![trigger cycles[i]]
        0 <= i < cycles.len() ==> {
            &&& list[from + i].entries == (EntriesModel::HarmonicPeriod { cycle: i })
            &&& list[from + i].kind == kind
            &&& list[from + i].noise_variance == noise_variance
            &&& list[from + i].label == prefix + "_"@ + cycles[i].name@
        }
}

proof fn lemma_single_entry(edge: usize)
    ensures
        forall|field: spec_fn(int) -> int| #[trigger]
            pairing(seq![(edge, 1i64)], field) == field(edge as int),
{
    assert forall|field: spec_fn(int) -> int| #[trigger]
        pairing(seq![(edge, 1i64)], field) == field(edge as int) by {
        reveal_with_fuel(pairing, 2);
        assert(seq![(edge, 1i64)].drop_last() =~= Seq::empty());
        assert(1 * field(edge as int) == field(edge as int));
    }
}

/// Observations of single edges read, one after the other, the values of a field on the edges.
pub proof fn lemma_edge_observations_read_edges(
    before: Seq<ObservationModel>,
    kind: PlanarHolesObservationKind,
    prefix: Seq<char>,
    edges: Seq<usize>,
    noise_variance: Scalar,
    after: Seq<ObservationModel>,
)
    ensures
        edge_group(kind, prefix, edges, noise_variance).len() == edges.len(),
        observes_edges(
            before + edge_group(kind, prefix, edges, noise_variance) + after,
            before.len() as int,
            kind,
            prefix,
            edges,
            noise_variance,
        ),
{
    let group = edge_group(kind, prefix, edges, noise_variance);
    let list = before + group + after;
    assert forall|i: int| 0 <= i < edges.len() implies {
        &&& reads_edge(list[before.len() + i], #[trigger] edges[i] as int)
        &&& list[before.len() + i].kind == kind
        &&& list[before.len() + i].noise_variance == noise_variance
        &&& list[before.len() + i].label == prefix + "_"@ + decimal(i as nat) + "_edge_"@
            + decimal(edges[i] as nat)
    } by {
        assert(list[before.len() + i] == group[i]);
        lemma_single_entry(edges[i]);
    }
}

/// The edges on which observations of single edges depend are the edges that they were made for, no
/// more and no less.
pub proof fn lemma_edge_observations_depend_on_edges(
    kind: PlanarHolesObservationKind,
    prefix: Seq<char>,
    edges: Seq<usize>,
    noise_variance: Scalar,
    edge: usize,
)
    ensures
        edges.contains(edge) <==> exists|i: int|
            0 <= i < edge_group(kind, prefix, edges, noise_variance).len() && depends_on(
                #[trigger] edge_group(kind, prefix, edges, noise_variance)[i],
                edge as int,
            ),
{
    let group = edge_group(kind, prefix, edges, noise_variance);
    let empty = Seq::<ObservationModel>::empty();
    lemma_edge_observations_read_edges(empty, kind, prefix, edges, noise_variance, empty);
    assert(empty + group + empty =~= group);
    let indicator = |e: int|
        if e == edge {
            1int
        } else {
            0int
        };
    assert forall|i: int| 0 <= i < group.len() implies (depends_on(#[trigger] group[i], edge as int)
        <==> edges[i] == edge) by {
        assert(reads_edge(group[0 + i], edges[i] as int));
        match group[i].entries {
            EntriesModel::Signed { entries } => {
                assert(weight_at(entries, edge as int) == pairing(entries, indicator));
            },
            EntriesModel::HarmonicPeriod { cycle } => {},
        }
    }
    if edges.contains(edge) {
        let i = choose|i: int| 0 <= i < edges.len() && edges[i] == edge;
        assert(depends_on(group[i], edge as int));
    }
}

/// Observations of sensors read, one after the other, what the rows of the sensors do.
pub proof fn lemma_row_observations_read_rows(
    before: Seq<ObservationModel>,
    kind: PlanarHolesObservationKind,
    rows: Seq<SensorRow>,
    noise_variance: Scalar,
    after: Seq<ObservationModel>,
)
    ensures
        row_group(kind, rows, noise_variance).len() == rows.len(),
        observes_sensors(
            before + row_group(kind, rows, noise_variance) + after,
            before.len() as int,
            kind,
            rows,
            noise_variance,
        ),
{
    let group = row_group(kind, rows, noise_variance);
    let list = before + group + after;
    assert forall|i: int| 0 <= i < rows.len() implies {
        &&& reads_row(list[before.len() + i], (#[trigger] rows[i]).entries@)
        &&& list[before.len() + i].kind == kind
        &&& list[before.len() + i].noise_variance == noise_variance
        &&& list[before.len() + i].label == rows[i].label@
    } by {
        assert(list[before.len() + i] == group[i]);
    }
}

/// Observations of cycles read, one after the other, what the rows of their matrix do.
pub proof fn lemma_loop_observations_read_matrix(
    before: Seq<ObservationModel>,
    kind: PlanarHolesObservationKind,
    prefix: Seq<char>,
    matrix: SignedMatrix,
    cycles: Seq<PlanarHoleCycle>,
    noise_variance: Scalar,
    after: Seq<ObservationModel>,
)
    ensures
        loop_group(kind, prefix, matrix, cycles, noise_variance).len() == matrix.rows.len(),
        observes_flows(
            before + loop_group(kind, prefix, matrix, cycles, noise_variance) + after,
            before.len() as int,
            kind,
            prefix,
            matrix,
            cycles,
            noise_variance,
        ),
{
    let group = loop_group(kind, prefix, matrix, cycles, noise_variance);
    let list = before + group + after;
    assert forall|i: int| 0 <= i < matrix.rows.len() implies {
        &&& reads_row(list[before.len() + i], (#[trigger] matrix.rows@[i])@)
        &&& list[before.len() + i].kind == kind
        &&& list[before.len() + i].noise_variance == noise_variance
        &&& list[before.len() + i].label == prefix + "_"@ + cycles[i].name@
    } by {
        assert(list[before.len() + i] == group[i]);
    }
}

/// Observations of harmonic periods read, one after the other, the periods along the cycles.
pub proof fn lemma_period_observations_read_cycles(
    before: Seq<ObservationModel>,
    kind: PlanarHolesObservationKind,
    prefix: Seq<char>,
    cycles: Seq<PlanarHoleCycle>,
    noise_variance: Scalar,
    after: Seq<ObservationModel>,
)
    ensures
        period_group(kind, prefix, cycles, noise_variance).len() == cycles.len(),
        observes_periods(
            before + period_group(kind, prefix, cycles, noise_variance) + after,
            before.len() as int,
            kind,
            prefix,
            cycles,
            noise_variance,
        ),
{
    let group = period_group(kind, prefix, cycles, noise_variance);
    let list = before + group + after;
    assert forall|i: int| 0 <= i < cycles.len() implies {
        &&& list[before.len() + i].entries == (EntriesModel::HarmonicPeriod { cycle: i })
        &&& list[before.len() + i].kind == kind
        &&& list[before.len() + i].noise_variance == noise_variance
        &&& list[before.len() + i].label == prefix + "_"@ + (#[trigger] cycles[i]).name@
    } by {
        assert(list[before.len() + i] == group[i]);
    }
}

/// A flow observes its edges, the flow along its cycles and the harmonic periods along them, once
/// to train on and once held out, and nothing else.
pub proof fn lemma_flow_observes(
    config: PlanarHolesFlowConfig,
    edges: FlowEdges,
    train: BuiltCycles,
    heldout: BuiltCycles,
    observations: FlowObservations,
)
    requires
        lists_flow(config, edges, train, heldout, observations),
    ensures
        observations.local.len() == edges.local.len(),
        observes_edges(
            views(observations.local@),
            0,
            PlanarHolesObservationKind::Local,
            "local"@,
            edges.local@,
            config.local_noise_variance,
        ),
        observations.loops.len() == train.matrix.rows.len(),
        observes_flows(
            views(observations.loops@),
            0,
            PlanarHolesObservationKind::TrainLoop,
            "train_loop"@,
            train.matrix,
            train.cycles@,
            config.loop_noise_variance,
        ),
        observations.periods.len() == train.cycles.len(),
        observes_periods(
            views(observations.periods@),
            0,
            PlanarHolesObservationKind::TrainHarmonicPeriod,
            "train_harmonic_period"@,
            train.cycles@,
            config.loop_noise_variance,
        ),
        observations.heldout.len() == edges.heldout.len() + heldout.matrix.rows.len()
            + heldout.cycles.len(),
        observes_edges(
            views(observations.heldout@),
            0,
            PlanarHolesObservationKind::HeldoutLocal,
            "heldout_local"@,
            edges.heldout@,
            config.local_noise_variance,
        ),
        observes_flows(
            views(observations.heldout@),
            edges.heldout.len() as int,
            PlanarHolesObservationKind::HeldoutLoop,
            "heldout_loop"@,
            heldout.matrix,
            heldout.cycles@,
            config.loop_noise_variance,
        ),
        observes_periods(
            views(observations.heldout@),
            edges.heldout.len() + heldout.matrix.rows.len(),
            PlanarHolesObservationKind::HeldoutHarmonicPeriod,
            "heldout_harmonic_period"@,
            heldout.cycles@,
            config.loop_noise_variance,
        ),
{
    let none = Seq::<ObservationModel>::empty();
    let (local, loops, periods) = (
        views(observations.local@),
        views(observations.loops@),
        views(observations.periods@),
    );
    lemma_edge_observations_read_edges(
        none,
        PlanarHolesObservationKind::Local,
        "local"@,
        edges.local@,
        config.local_noise_variance,
        none,
    );
    assert(none + local + none =~= local);
    lemma_loop_observations_read_matrix(
        none,
        PlanarHolesObservationKind::TrainLoop,
        "train_loop"@,
        train.matrix,
        train.cycles@,
        config.loop_noise_variance,
        none,
    );
    assert(none + loops + none =~= loops);
    lemma_period_observations_read_cycles(
        none,
        PlanarHolesObservationKind::TrainHarmonicPeriod,
        "train_harmonic_period"@,
        train.cycles@,
        config.loop_noise_variance,
        none,
    );
    assert(none + periods + none =~= periods);
    let first = edge_group(
        PlanarHolesObservationKind::HeldoutLocal,
        "heldout_local"@,
        edges.heldout@,
        config.local_noise_variance,
    );
    let second = loop_group(
        PlanarHolesObservationKind::HeldoutLoop,
        "heldout_loop"@,
        heldout.matrix,
        heldout.cycles@,
        config.loop_noise_variance,
    );
    let third = period_group(
        PlanarHolesObservationKind::HeldoutHarmonicPeriod,
        "heldout_harmonic_period"@,
        heldout.cycles@,
        config.loop_noise_variance,
    );
    lemma_edge_observations_read_edges(
        none,
        PlanarHolesObservationKind::HeldoutLocal,
        "heldout_local"@,
        edges.heldout@,
        config.local_noise_variance,
        second + third,
    );
    assert(none + first + (second + third) =~= first + second + third);
    lemma_loop_observations_read_matrix(
        first,
        PlanarHolesObservationKind::HeldoutLoop,
        "heldout_loop"@,
        heldout.matrix,
        heldout.cycles@,
        config.loop_noise_variance,
        third,
    );
    lemma_period_observations_read_cycles(
        first + second,
        PlanarHolesObservationKind::HeldoutHarmonicPeriod,
        "heldout_harmonic_period"@,
        heldout.cycles@,
        config.loop_noise_variance,
        none,
    );
    assert(first + second + third + none =~= first + second + third);
}

/// Every scenario trains on all local observations, and on each of them once. With loops it trains
/// on all loops besides and on no harmonic period, with harmonic periods on all of these and on no
/// loop, and with neither on nothing else.
pub proof fn lemma_scenario_trains_on<T>(local: Seq<T>, loops: Seq<T>, periods: Seq<T>)
    ensures
        scenario_group(
            PlanarHolesObservationScenario::LocalOnly,
            local,
            loops,
            periods,
        ).to_multiset() == local.to_multiset(),
        scenario_group(
            PlanarHolesObservationScenario::LocalPlusLoops,
            local,
            loops,
            periods,
        ).to_multiset() == local.to_multiset().add(loops.to_multiset()),
        scenario_group(
            PlanarHolesObservationScenario::LocalPlusHarmonicPeriods,
            local,
            loops,
            periods,
        ).to_multiset() == local.to_multiset().add(periods.to_multiset()),
        forall|scenario: PlanarHolesObservationScenario| #[trigger]
            scenario_group(scenario, local, loops, periods).len() >= local.len() && scenario_group(
                scenario,
                local,
                loops,
                periods,
            ).take(local.len() as int) == local,
{
    vstd::seq_lib::lemma_multiset_commutative(local, loops);
    vstd::seq_lib::lemma_multiset_commutative(local, periods);
    assert forall|scenario: PlanarHolesObservationScenario| #[trigger]
        scenario_group(scenario, local, loops, periods).len() >= local.len() && scenario_group(
            scenario,
            local,
            loops,
            periods,
        ).take(local.len() as int) == local by {
        assert(scenario_group(scenario, local, loops, periods).take(local.len() as int) =~= local);
    }
}

/// The training observations of a scenario of a flow.
pub open spec fn flow_training(
    scenario: PlanarHolesObservationScenario,
    observations: FlowObservations,
) -> Seq<PlanarHolesObservation> {
    scenario_group(
        scenario,
        observations.local@,
        observations.loops@,
        observations.periods@,
    )
}

/// A scenario of a flow trains on local observations and, where it has them, on loops or on
/// harmonic periods of the training cycles, one for every cycle; it never trains on what is held
/// out.
pub proof fn lemma_flow_scenario_kinds(
    config: PlanarHolesFlowConfig,
    edges: FlowEdges,
    train: BuiltCycles,
    heldout: BuiltCycles,
    observations: FlowObservations,
    scenario: PlanarHolesObservationScenario,
)
    requires
        lists_flow(config, edges, train, heldout, observations),
        train.wf(),
    ensures
        flow_training(scenario, observations).len() == edges.local.len() + (if scenario
            == PlanarHolesObservationScenario::LocalOnly {
            0
        } else {
            train.cycles.len()
        }),
        forall|i: int|
            0 <= i < edges.local.len() ==> (#[trigger] flow_training(
                scenario,
                observations,
            )[i]).kind == PlanarHolesObservationKind::Local,
        forall|i: int|
            edges.local.len() <= i < flow_training(scenario, observations).len() ==> {
                let trained = #[trigger] flow_training(scenario, observations)[i];
                let cycle = i - edges.local.len();
                &&& scenario == PlanarHolesObservationScenario::LocalPlusLoops ==> trained.kind
                    == PlanarHolesObservationKind::TrainLoop && reads_row(
                    trained@,
                    train.matrix.rows@[cycle]@,
                )
                &&& scenario == PlanarHolesObservationScenario::LocalPlusHarmonicPeriods ==> {
                    &&& trained.kind == PlanarHolesObservationKind::TrainHarmonicPeriod
                    &&& trained@.entries == (EntriesModel::HarmonicPeriod { cycle })
                }
            },
{
    lemma_flow_observes(config, edges, train, heldout, observations);
    let training = flow_training(scenario, observations);
    assert forall|i: int| 0 <= i < edges.local.len() implies (#[trigger] training[i]).kind
        == PlanarHolesObservationKind::Local by {
        assert(training[i] == observations.local@[i]);
        assert(views(observations.local@)[0 + i] == observations.local@[i]@);
        assert(edges.local@[i] == edges.local@[i]);
    }
    assert forall|i: int| edges.local.len() <= i < training.len() implies {
        let trained = #[trigger] training[i];
        let cycle = i - edges.local.len();
        &&& scenario == PlanarHolesObservationScenario::LocalPlusLoops ==> trained.kind
            == PlanarHolesObservationKind::TrainLoop && reads_row(
            trained@,
            train.matrix.rows@[cycle]@,
        )
        &&& scenario == PlanarHolesObservationScenario::LocalPlusHarmonicPeriods ==> {
            &&& trained.kind == PlanarHolesObservationKind::TrainHarmonicPeriod
            &&& trained@.entries == (EntriesModel::HarmonicPeriod { cycle })
        }
    } by {
        let cycle = i - edges.local.len();
        if scenario == PlanarHolesObservationScenario::LocalPlusLoops {
            assert(training[i] == observations.loops@[cycle]);
            assert(views(observations.loops@)[0 + cycle] == observations.loops@[cycle]@);
            assert(train.matrix.rows@[cycle] == train.matrix.rows@[cycle]);
        } else if scenario == PlanarHolesObservationScenario::LocalPlusHarmonicPeriods {
            assert(training[i] == observations.periods@[cycle]);
            assert(views(observations.periods@)[0 + cycle] == observations.periods@[cycle]@);
            assert(train.cycles@[cycle] == train.cycles@[cycle]);
        }
    }
}

/// What a sensor sweep holds out: first an observation of every edge, then of every loop, then of
/// every path, and nothing else before its harmonic periods.
pub proof fn lemma_sweep_holds_out(
    config: PlanarHolesSensorDesignSweepConfig,
    edges: Seq<usize>,
    loops: Seq<SensorRow>,
    paths: Seq<SensorRow>,
)
    ensures
        sweep_heldout_group(
            config,
            edges,
            loops,
            paths,
        ).len() == edges.len() + loops.len() + paths.len(),
        observes_edges(
            sweep_heldout_group(config, edges, loops, paths),
            0,
            PlanarHolesObservationKind::HeldoutLocal,
            "heldout_local"@,
            edges,
            config.base.local_noise_variance,
        ),
        observes_sensors(
            sweep_heldout_group(config, edges, loops, paths),
            edges.len() as int,
            PlanarHolesObservationKind::HeldoutInteriorLoop,
            loops,
            config.interior_loop_noise_variance,
        ),
        observes_sensors(
            sweep_heldout_group(config, edges, loops, paths),
            (edges.len() + loops.len()) as int,
            PlanarHolesObservationKind::HeldoutLongPath,
            paths,
            config.long_path_noise_variance,
        ),
{
    let list = sweep_heldout_group(config, edges, loops, paths);
    let none = Seq::<ObservationModel>::empty();
    let part_0 = edge_group(
        PlanarHolesObservationKind::HeldoutLocal,
        "heldout_local"@,
        edges,
        config.base.local_noise_variance,
    );
    let part_1 = row_group(
        PlanarHolesObservationKind::HeldoutInteriorLoop,
        loops,
        config.interior_loop_noise_variance,
    );
    let part_2 = row_group(
        PlanarHolesObservationKind::HeldoutLongPath,
        paths,
        config.long_path_noise_variance,
    );
    lemma_edge_observations_read_edges(
        none,
        PlanarHolesObservationKind::HeldoutLocal,
        "heldout_local"@,
        edges,
        config.base.local_noise_variance,
        part_1 + part_2,
    );
    assert((none) + part_0 + (part_1 + part_2) =~= list);
    lemma_row_observations_read_rows(
        part_0,
        PlanarHolesObservationKind::HeldoutInteriorLoop,
        loops,
        config.interior_loop_noise_variance,
        part_2,
    );
    assert((part_0) + part_1 + (part_2) =~= list);
    lemma_row_observations_read_rows(
        part_0 + part_1,
        PlanarHolesObservationKind::HeldoutLongPath,
        paths,
        config.long_path_noise_variance,
        none,
    );
    assert((part_0 + part_1) + part_2 + (none) =~= list);
}

/// What the study on the default domain trains on: first an observation of every edge, then of
/// every loop, of every path and of the flow along every training cycle, and nothing else.
pub proof fn lemma_study_trains_on(
    config: PlanarHolesTopologyVsNaiveGpConfig,
    edges: Seq<usize>,
    loops: Seq<SensorRow>,
    paths: Seq<SensorRow>,
    train: BuiltCycles,
)
    ensures
        study_training_group(
            config,
            edges,
            loops,
            paths,
            train,
        ).len() == edges.len() + loops.len() + paths.len() + train.matrix.rows.len(),
        observes_edges(
            study_training_group(config, edges, loops, paths, train),
            0,
            PlanarHolesObservationKind::Local,
            "train_local"@,
            edges,
            config.base.local_noise_variance,
        ),
        observes_sensors(
            study_training_group(config, edges, loops, paths, train),
            edges.len() as int,
            PlanarHolesObservationKind::TrainInteriorLoop,
            loops,
            config.interior_loop_noise_variance,
        ),
        observes_sensors(
            study_training_group(config, edges, loops, paths, train),
            (edges.len() + loops.len()) as int,
            PlanarHolesObservationKind::TrainLongPath,
            paths,
            config.long_path_noise_variance,
        ),
        observes_flows(
            study_training_group(config, edges, loops, paths, train),
            (edges.len() + loops.len() + paths.len()) as int,
            PlanarHolesObservationKind::TrainLoop,
            "train_loop"@,
            train.matrix,
            train.cycles@,
            config.base.loop_noise_variance,
        ),
{
    let list = study_training_group(config, edges, loops, paths, train);
    let none = Seq::<ObservationModel>::empty();
    let part_0 = edge_group(
        PlanarHolesObservationKind::Local,
        "train_local"@,
        edges,
        config.base.local_noise_variance,
    );
    let part_1 = row_group(
        PlanarHolesObservationKind::TrainInteriorLoop,
        loops,
        config.interior_loop_noise_variance,
    );
    let part_2 = row_group(
        PlanarHolesObservationKind::TrainLongPath,
        paths,
        config.long_path_noise_variance,
    );
    let part_3 = loop_group(
        PlanarHolesObservationKind::TrainLoop,
        "train_loop"@,
        train.matrix,
        train.cycles@,
        config.base.loop_noise_variance,
    );
    lemma_edge_observations_read_edges(
        none,
        PlanarHolesObservationKind::Local,
        "train_local"@,
        edges,
        config.base.local_noise_variance,
        part_1 + part_2 + part_3,
    );
    assert((none) + part_0 + (part_1 + part_2 + part_3) =~= list);
    lemma_row_observations_read_rows(
        part_0,
        PlanarHolesObservationKind::TrainInteriorLoop,
        loops,
        config.interior_loop_noise_variance,
        part_2 + part_3,
    );
    assert((part_0) + part_1 + (part_2 + part_3) =~= list);
    lemma_row_observations_read_rows(
        part_0 + part_1,
        PlanarHolesObservationKind::TrainLongPath,
        paths,
        config.long_path_noise_variance,
        part_3,
    );
    assert((part_0 + part_1) + part_2 + (part_3) =~= list);
    lemma_loop_observations_read_matrix(
        part_0 + part_1 + part_2,
        PlanarHolesObservationKind::TrainLoop,
        "train_loop"@,
        train.matrix,
        train.cycles@,
        config.base.loop_noise_variance,
        none,
    );
    assert((part_0 + part_1 + part_2) + part_3 + (none) =~= list);
}

/// What the barrier study trains on: first an observation of every edge, then of the flow along
/// every training cycle, and nothing else.
pub proof fn lemma_barrier_trains_on(
    config: PlanarHolesTopologyVsNaiveGpConfig,
    edges: Seq<usize>,
    train: BuiltCycles,
)
    ensures
        barrier_training_group(config, edges, train).len() == edges.len() + train.matrix.rows.len(),
        observes_edges(
            barrier_training_group(config, edges, train),
            0,
            PlanarHolesObservationKind::Local,
            "train_left_local"@,
            edges,
            config.base.local_noise_variance,
        ),
        observes_flows(
            barrier_training_group(config, edges, train),
            edges.len() as int,
            PlanarHolesObservationKind::TrainLoop,
            "train_loop"@,
            train.matrix,
            train.cycles@,
            config.base.loop_noise_variance,
        ),
{
    let list = barrier_training_group(config, edges, train);
    let none = Seq::<ObservationModel>::empty();
    let part_0 = edge_group(
        PlanarHolesObservationKind::Local,
        "train_left_local"@,
        edges,
        config.base.local_noise_variance,
    );
    let part_1 = loop_group(
        PlanarHolesObservationKind::TrainLoop,
        "train_loop"@,
        train.matrix,
        train.cycles@,
        config.base.loop_noise_variance,
    );
    lemma_edge_observations_read_edges(
        none,
        PlanarHolesObservationKind::Local,
        "train_left_local"@,
        edges,
        config.base.local_noise_variance,
        part_1,
    );
    assert((none) + part_0 + (part_1) =~= list);
    lemma_loop_observations_read_matrix(
        part_0,
        PlanarHolesObservationKind::TrainLoop,
        "train_loop"@,
        train.matrix,
        train.cycles@,
        config.base.loop_noise_variance,
        none,
    );
    assert((part_0) + part_1 + (none) =~= list);
}

/// What the barrier study validates on or holds out: first an observation of every edge, then of
/// every path and of the flow along every cycle, and nothing else. The labels tell the two uses
/// apart.
pub proof fn lemma_barrier_holds_out(
    config: PlanarHolesTopologyVsNaiveGpConfig,
    part: BarrierUse,
    edges: Seq<usize>,
    paths: Seq<SensorRow>,
    built: BuiltCycles,
)
    ensures
        barrier_heldout_group(
            config,
            part,
            edges,
            paths,
            built,
        ).len() == edges.len() + paths.len() + built.matrix.rows.len(),
        observes_edges(
            barrier_heldout_group(config, part, edges, paths, built),
            0,
            PlanarHolesObservationKind::HeldoutLocal,
            (if part == BarrierUse::Validation {
                "validation_left_local"@
            } else {
                "heldout_right_local"@
            }),
            edges,
            config.base.local_noise_variance,
        ),
        observes_sensors(
            barrier_heldout_group(config, part, edges, paths, built),
            edges.len() as int,
            PlanarHolesObservationKind::HeldoutLongPath,
            paths,
            config.long_path_noise_variance,
        ),
        observes_flows(
            barrier_heldout_group(config, part, edges, paths, built),
            (edges.len() + paths.len()) as int,
            PlanarHolesObservationKind::HeldoutLoop,
            (if part == BarrierUse::Validation {
                "validation_loop"@
            } else {
                "heldout_loop"@
            }),
            built.matrix,
            built.cycles@,
            config.base.loop_noise_variance,
        ),
{
    let list = barrier_heldout_group(config, part, edges, paths, built);
    let none = Seq::<ObservationModel>::empty();
    let part_0 = edge_group(
        PlanarHolesObservationKind::HeldoutLocal,
        (if part == BarrierUse::Validation {
            "validation_left_local"@
        } else {
            "heldout_right_local"@
        }),
        edges,
        config.base.local_noise_variance,
    );
    let part_1 = row_group(
        PlanarHolesObservationKind::HeldoutLongPath,
        paths,
        config.long_path_noise_variance,
    );
    let part_2 = loop_group(
        PlanarHolesObservationKind::HeldoutLoop,
        (if part == BarrierUse::Validation {
            "validation_loop"@
        } else {
            "heldout_loop"@
        }),
        built.matrix,
        built.cycles@,
        config.base.loop_noise_variance,
    );
    lemma_edge_observations_read_edges(
        none,
        PlanarHolesObservationKind::HeldoutLocal,
        (if part == BarrierUse::Validation {
            "validation_left_local"@
        } else {
            "heldout_right_local"@
        }),
        edges,
        config.base.local_noise_variance,
        part_1 + part_2,
    );
    assert((none) + part_0 + (part_1 + part_2) =~= list);
    lemma_row_observations_read_rows(
        part_0,
        PlanarHolesObservationKind::HeldoutLongPath,
        paths,
        config.long_path_noise_variance,
        part_2,
    );
    assert((part_0) + part_1 + (part_2) =~= list);
    lemma_loop_observations_read_matrix(
        part_0 + part_1,
        PlanarHolesObservationKind::HeldoutLoop,
        (if part == BarrierUse::Validation {
            "validation_loop"@
        } else {
            "heldout_loop"@
        }),
        built.matrix,
        built.cycles@,
        config.base.loop_noise_variance,
        none,
    );
    assert((part_0 + part_1) + part_2 + (none) =~= list);
}

/// The observations of a further family of cycles, after those of the families before it.
pub open spec fn rows_before(families: Seq<BuiltCycles>, count: int) -> int
    decreases count,
{
    if count <= 0 {
        0
    } else {
        rows_before(families, count - 1) + families[count - 1].matrix.rows.len()
    }
}

/// The further families of cycles are observed one after the other, each with its own labels.
pub proof fn lemma_families_are_observed(
    prefix: Seq<char>,
    families: Seq<BuiltCycles>,
    noise_variance: Scalar,
    count: int,
    family: int,
    before: Seq<ObservationModel>,
    after: Seq<ObservationModel>,
)
    requires
        0 <= family < count <= families.len(),
    ensures
        family_groups(prefix, families, noise_variance, count).len() == rows_before(
            families,
            count,
        ),
        observes_flows(
            before + family_groups(prefix, families, noise_variance, count) + after,
            before.len() + rows_before(families, family),
            PlanarHolesObservationKind::HeldoutLoop,
            prefix + "_loop_family_"@ + decimal(family as nat),
            families[family].matrix,
            families[family].cycles@,
            noise_variance,
        ),
    decreases count,
{
    let earlier = family_groups(prefix, families, noise_variance, count - 1);
    let last = loop_group(
        PlanarHolesObservationKind::HeldoutLoop,
        prefix + "_loop_family_"@ + decimal((count - 1) as nat),
        families[count - 1].matrix,
        families[count - 1].cycles@,
        noise_variance,
    );
    let whole = before + family_groups(prefix, families, noise_variance, count) + after;
    if count > 1 {
        let shown = if family < count - 1 {
            family
        } else {
            0
        };
        lemma_families_are_observed(
            prefix,
            families,
            noise_variance,
            count - 1,
            shown,
            before,
            last + after,
        );
        assert(before + earlier + (last + after) =~= whole);
    } else {
        assert(earlier =~= Seq::empty());
        assert(rows_before(families, 0) == 0);
    }
    lemma_loop_observations_read_matrix(
        before + earlier,
        PlanarHolesObservationKind::HeldoutLoop,
        prefix + "_loop_family_"@ + decimal((count - 1) as nat),
        families[count - 1].matrix,
        families[count - 1].cycles@,
        noise_variance,
        after,
    );
    assert(before + earlier + last + after =~= whole);
}

/// What the study on the default domain validates on or holds out: first an observation of every
/// edge, then of every loop, of every path and of the flow along every cycle, then of the flow
/// along the cycles of every further family, and nothing else.
pub proof fn lemma_study_holds_out(
    config: PlanarHolesTopologyVsNaiveGpConfig,
    prefix: Seq<char>,
    edges: Seq<usize>,
    loops: Seq<SensorRow>,
    paths: Seq<SensorRow>,
    built: BuiltCycles,
    families: Seq<BuiltCycles>,
)
    ensures
        ({
            let list = study_heldout_group(config, prefix, edges, loops, paths, built, families);
            let fixed = edges.len() + loops.len() + paths.len() + built.matrix.rows.len();
            &&& list.len() == fixed + rows_before(families, families.len() as int)
            &&& observes_edges(
                list,
                0,
                PlanarHolesObservationKind::HeldoutLocal,
                prefix + "_local"@,
                edges,
                config.base.local_noise_variance,
            )
            &&& observes_sensors(
                list,
                edges.len() as int,
                PlanarHolesObservationKind::HeldoutInteriorLoop,
                loops,
                config.interior_loop_noise_variance,
            )
            &&& observes_sensors(
                list,
                (edges.len() + loops.len()) as int,
                PlanarHolesObservationKind::HeldoutLongPath,
                paths,
                config.long_path_noise_variance,
            )
            &&& observes_flows(
                list,
                (edges.len() + loops.len() + paths.len()) as int,
                PlanarHolesObservationKind::HeldoutLoop,
                prefix + "_loop"@,
                built.matrix,
                built.cycles@,
                config.base.loop_noise_variance,
            )
            &&& forall|family: int|
                #![trigger families[family]]
                0 <= family < families.len() ==> observes_flows(
                    list,
                    fixed + rows_before(families, family),
                    PlanarHolesObservationKind::HeldoutLoop,
                    prefix + "_loop_family_"@ + decimal(family as nat),
                    families[family].matrix,
                    families[family].cycles@,
                    config.base.loop_noise_variance,
                )
        }),
{
    let list = study_heldout_group(config, prefix, edges, loops, paths, built, families);
    let none = Seq::<ObservationModel>::empty();
    let noise = config.base.loop_noise_variance;
    let a = edge_group(
        PlanarHolesObservationKind::HeldoutLocal,
        prefix + "_local"@,
        edges,
        config.base.local_noise_variance,
    );
    let b = row_group(
        PlanarHolesObservationKind::HeldoutInteriorLoop,
        loops,
        config.interior_loop_noise_variance,
    );
    let c = row_group(
        PlanarHolesObservationKind::HeldoutLongPath,
        paths,
        config.long_path_noise_variance,
    );
    let d = loop_group(
        PlanarHolesObservationKind::HeldoutLoop,
        prefix + "_loop"@,
        built.matrix,
        built.cycles@,
        noise,
    );
    let e = family_groups(prefix, families, noise, families.len() as int);
    lemma_edge_observations_read_edges(
        none,
        PlanarHolesObservationKind::HeldoutLocal,
        prefix + "_local"@,
        edges,
        config.base.local_noise_variance,
        b + c + d + e,
    );
    assert(none + a + (b + c + d + e) =~= list);
    lemma_row_observations_read_rows(
        a,
        PlanarHolesObservationKind::HeldoutInteriorLoop,
        loops,
        config.interior_loop_noise_variance,
        c + d + e,
    );
    assert(a + b + (c + d + e) =~= list);
    lemma_row_observations_read_rows(
        a + b,
        PlanarHolesObservationKind::HeldoutLongPath,
        paths,
        config.long_path_noise_variance,
        d + e,
    );
    assert(a + b + c + (d + e) =~= list);
    lemma_loop_observations_read_matrix(
        a + b + c,
        PlanarHolesObservationKind::HeldoutLoop,
        prefix + "_loop"@,
        built.matrix,
        built.cycles@,
        noise,
        e,
    );
    if families.len() > 0 {
        lemma_families_are_observed(prefix, families, noise, families.len() as int, 0, none, none);
    }
    assert(a + b + c + d + e + none =~= list);
    assert forall|family: int| 0 <= family < families.len() implies observes_flows(
        list,
        edges.len() + loops.len() + paths.len() + built.matrix.rows.len() + rows_before(
            families,
            family,
        ),
        PlanarHolesObservationKind::HeldoutLoop,
        prefix + "_loop_family_"@ + decimal(family as nat),
        (#[trigger] families[family]).matrix,
        families[family].cycles@,
        noise,
    ) by {
        lemma_families_are_observed(
            prefix,
            families,
            noise,
            families.len() as int,
            family,
            a + b + c + d,
            none,
        );
    }
}

/// Whether the observations from a place on are those of the two paths of every pair, the upper one
/// before the lower one.
pub open spec fn observes_both_paths(
    list: Seq<ObservationModel>,
    from: int,
    kind: PlanarHolesObservationKind,
    pairs: Seq<PathHomologyPair>,
    noise_variance: Scalar,
) -> bool {
    &&& from + 2 * pairs.len() <= list.len()
    &&& forall|p: int|
        #![trigger pairs[p]]
        0 <= p < pairs.len() ==> {
            let (upper, lower) = (list[from + 2 * p], list[from + 2 * p + 1]);
            &&& reads_row(upper, pairs[p].upper.entries@)
            &&& reads_row(lower, pairs[p].lower.entries@)
            &&& upper.kind == kind && lower.kind == kind
            &&& upper.noise_variance == noise_variance && lower.noise_variance == noise_variance
            &&& upper.label == pairs[p].upper.label@ && lower.label == pairs[p].lower.label@
        }
}

/// Whether the observations from a place on are those of the contrast of every pair.
pub open spec fn observes_contrasts(
    list: Seq<ObservationModel>,
    from: int,
    kind: PlanarHolesObservationKind,
    pairs: Seq<PathHomologyPair>,
    noise_variance: Scalar,
) -> bool {
    &&& from + pairs.len() <= list.len()
    &&& forall|p: int|
        #![trigger pairs[p]]
        0 <= p < pairs.len() ==> {
            &&& reads_row(list[from + p], pairs[p].contrast.entries@)
            &&& list[from + p].kind == kind
            &&& list[from + p].noise_variance == noise_variance
            &&& list[from + p].label == pairs[p].contrast.label@
        }
}

proof fn lemma_both_paths(
    list: Seq<ObservationModel>,
    from: int,
    kind: PlanarHolesObservationKind,
    pairs: Seq<PathHomologyPair>,
    noise_variance: Scalar,
)
    requires
        observes_sensors(list, from, kind, both_rows(pairs), noise_variance),
    ensures
        both_rows(pairs).len() == 2 * pairs.len(),
        observes_both_paths(list, from, kind, pairs, noise_variance),
{
    let rows = both_rows(pairs);
    assert forall|p: int| 0 <= p < pairs.len() implies {
        let (upper, lower) = (list[from + 2 * p], list[from + 2 * p + 1]);
        &&& reads_row(upper, (#[trigger] pairs[p]).upper.entries@)
        &&& reads_row(lower, pairs[p].lower.entries@)
        &&& upper.kind == kind && lower.kind == kind
        &&& upper.noise_variance == noise_variance && lower.noise_variance == noise_variance
        &&& upper.label == pairs[p].upper.label@ && lower.label == pairs[p].lower.label@
    } by {
        assert((2 * p) % 2 == 0 && (2 * p) / 2 == p);
        assert((2 * p + 1) % 2 == 1 && (2 * p + 1) / 2 == p);
        assert(rows[2 * p] == pairs[p].upper);
        assert(rows[2 * p + 1] == pairs[p].lower);
    }
}

proof fn lemma_contrasts(
    list: Seq<ObservationModel>,
    from: int,
    kind: PlanarHolesObservationKind,
    pairs: Seq<PathHomologyPair>,
    noise_variance: Scalar,
)
    requires
        observes_sensors(list, from, kind, contrasts(pairs), noise_variance),
    ensures
        contrasts(pairs).len() == pairs.len(),
        observes_contrasts(list, from, kind, pairs, noise_variance),
{
    let rows = contrasts(pairs);
    assert forall|p: int| 0 <= p < pairs.len() implies {
        &&& reads_row(list[from + p], (#[trigger] pairs[p]).contrast.entries@)
        &&& list[from + p].kind == kind
        &&& list[from + p].noise_variance == noise_variance
        &&& list[from + p].label == pairs[p].contrast.label@
    } by {
        assert(rows[p] == pairs[p].contrast);
    }
}

/// What the study with pairs of paths trains on: first an observation of every edge, then of the
/// flow along every training cycle, then of both paths of every pair, and nothing else.
pub proof fn lemma_path_homology_trains_on(
    config: PlanarHolesTopologyVsNaiveGpConfig,
    edges: Seq<usize>,
    train: BuiltCycles,
    pairs: Seq<PathHomologyPair>,
)
    ensures
        ({
            let list = path_homology_training_group(config, edges, train, pairs);
            &&& list.len() == edges.len() + train.matrix.rows.len() + 2 * pairs.len()
            &&& observes_edges(
                list,
                0,
                PlanarHolesObservationKind::Local,
                "train_local"@,
                edges,
                config.base.local_noise_variance,
            )
            &&& observes_flows(
                list,
                edges.len() as int,
                PlanarHolesObservationKind::TrainLoop,
                "train_loop"@,
                train.matrix,
                train.cycles@,
                config.base.loop_noise_variance,
            )
            &&& observes_both_paths(
                list,
                (edges.len() + train.matrix.rows.len()) as int,
                PlanarHolesObservationKind::TrainPathHomology,
                pairs,
                config.long_path_noise_variance,
            )
        }),
{
    let list = path_homology_training_group(config, edges, train, pairs);
    let none = Seq::<ObservationModel>::empty();
    let a = edge_group(
        PlanarHolesObservationKind::Local,
        "train_local"@,
        edges,
        config.base.local_noise_variance,
    );
    let b = loop_group(
        PlanarHolesObservationKind::TrainLoop,
        "train_loop"@,
        train.matrix,
        train.cycles@,
        config.base.loop_noise_variance,
    );
    let c = row_group(
        PlanarHolesObservationKind::TrainPathHomology,
        both_rows(pairs),
        config.long_path_noise_variance,
    );
    lemma_edge_observations_read_edges(
        none,
        PlanarHolesObservationKind::Local,
        "train_local"@,
        edges,
        config.base.local_noise_variance,
        b + c,
    );
    assert(none + a + (b + c) =~= list);
    lemma_loop_observations_read_matrix(
        a,
        PlanarHolesObservationKind::TrainLoop,
        "train_loop"@,
        train.matrix,
        train.cycles@,
        config.base.loop_noise_variance,
        c,
    );
    assert(a + b + c =~= list);
    lemma_row_observations_read_rows(
        a + b,
        PlanarHolesObservationKind::TrainPathHomology,
        both_rows(pairs),
        config.long_path_noise_variance,
        none,
    );
    assert(a + b + c + none =~= list);
    lemma_both_paths(
        list,
        (edges.len() + train.matrix.rows.len()) as int,
        PlanarHolesObservationKind::TrainPathHomology,
        pairs,
        config.long_path_noise_variance,
    );
}

/// What the study with pairs of paths validates on or holds out: first an observation of every
/// edge, then of the flow along every cycle, then of both paths of every pair, then of the contrast
/// of every pair, and nothing else.
pub proof fn lemma_path_homology_holds_out(
    config: PlanarHolesTopologyVsNaiveGpConfig,
    prefix: Seq<char>,
    edges: Seq<usize>,
    built: BuiltCycles,
    pairs: Seq<PathHomologyPair>,
)
    ensures
        ({
            let list = path_homology_heldout_group(config, prefix, edges, built, pairs);
            &&& list.len() == edges.len() + built.matrix.rows.len() + 3 * pairs.len()
            &&& observes_edges(
                list,
                0,
                PlanarHolesObservationKind::HeldoutLocal,
                prefix + "_local"@,
                edges,
                config.base.local_noise_variance,
            )
            &&& observes_flows(
                list,
                edges.len() as int,
                PlanarHolesObservationKind::HeldoutLoop,
                prefix + "_loop"@,
                built.matrix,
                built.cycles@,
                config.base.loop_noise_variance,
            )
            &&& observes_both_paths(
                list,
                (edges.len() + built.matrix.rows.len()) as int,
                PlanarHolesObservationKind::HeldoutPathHomology,
                pairs,
                config.long_path_noise_variance,
            )
            &&& observes_contrasts(
                list,
                (edges.len() + built.matrix.rows.len() + 2 * pairs.len()) as int,
                PlanarHolesObservationKind::HeldoutPathContrast,
                pairs,
                config.base.loop_noise_variance,
            )
        }),
{
    let list = path_homology_heldout_group(config, prefix, edges, built, pairs);
    let none = Seq::<ObservationModel>::empty();
    let a = edge_group(
        PlanarHolesObservationKind::HeldoutLocal,
        prefix + "_local"@,
        edges,
        config.base.local_noise_variance,
    );
    let b = loop_group(
        PlanarHolesObservationKind::HeldoutLoop,
        prefix + "_loop"@,
        built.matrix,
        built.cycles@,
        config.base.loop_noise_variance,
    );
    let c = row_group(
        PlanarHolesObservationKind::HeldoutPathHomology,
        both_rows(pairs),
        config.long_path_noise_variance,
    );
    let d = row_group(
        PlanarHolesObservationKind::HeldoutPathContrast,
        contrasts(pairs),
        config.base.loop_noise_variance,
    );
    lemma_edge_observations_read_edges(
        none,
        PlanarHolesObservationKind::HeldoutLocal,
        prefix + "_local"@,
        edges,
        config.base.local_noise_variance,
        b + c + d,
    );
    assert(none + a + (b + c + d) =~= list);
    lemma_loop_observations_read_matrix(
        a,
        PlanarHolesObservationKind::HeldoutLoop,
        prefix + "_loop"@,
        built.matrix,
        built.cycles@,
        config.base.loop_noise_variance,
        c + d,
    );
    assert(a + b + (c + d) =~= list);
    lemma_row_observations_read_rows(
        a + b,
        PlanarHolesObservationKind::HeldoutPathHomology,
        both_rows(pairs),
        config.long_path_noise_variance,
        d,
    );
    assert(a + b + c + d =~= list);
    lemma_row_observations_read_rows(
        a + b + c,
        PlanarHolesObservationKind::HeldoutPathContrast,
        contrasts(pairs),
        config.base.loop_noise_variance,
        none,
    );
    assert(a + b + c + d + none =~= list);
    lemma_both_paths(
        list,
        (edges.len() + built.matrix.rows.len()) as int,
        PlanarHolesObservationKind::HeldoutPathHomology,
        pairs,
        config.long_path_noise_variance,
    );
    lemma_contrasts(
        list,
        (edges.len() + built.matrix.rows.len() + 2 * pairs.len()) as int,
        PlanarHolesObservationKind::HeldoutPathContrast,
        pairs,
        config.base.loop_noise_variance,
    );
}

} // verus!
