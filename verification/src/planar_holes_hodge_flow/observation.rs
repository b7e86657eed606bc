//! What is observed of a field: single edges, loops, paths and harmonic periods.

use super::hole_cycles::{PlanarHoleCycle, SignedMatrix};
use super::kinds::{PlanarHolesObservationKind, PlanarHolesObservationScenario};
use super::sensors::{listed, SensorRow};
use crate::index_set::{strictly_increasing, IndexSet};
use crate::scalar::Scalar;
use crate::text::{count_text, decimal};
use vstd::prelude::*;

verus! {

/// What an observation reads.
#[derive(Debug)]
pub enum ObservedEntries {
    /// A signed sum of edge values.
    Signed { entries: Vec<(usize, i64)> },
    /// The flow of the harmonic part of the field along a cycle.
    HarmonicPeriod { cycle: usize },
}

/// The cycles that a harmonic period is read along.
#[derive(Debug, Clone, Copy, PartialEq, Eq, Structural)]
pub enum PeriodCycles {
    Train,
    Heldout,
}

/// Finds the cycles that observations of a kind are periods along; only two kinds are periods.
pub fn period_cycles(kind: PlanarHolesObservationKind) -> (family: Option<PeriodCycles>)
    ensures
        match kind {
            PlanarHolesObservationKind::TrainHarmonicPeriod => family == Some(PeriodCycles::Train),
            PlanarHolesObservationKind::HeldoutHarmonicPeriod => family == Some(
                PeriodCycles::Heldout,
            ),
            _ => family is None,
        },
{
    match kind {
        PlanarHolesObservationKind::TrainHarmonicPeriod => Some(PeriodCycles::Train),
        PlanarHolesObservationKind::HeldoutHarmonicPeriod => Some(PeriodCycles::Heldout),
        _ => None,
    }
}

/// One observation.
#[derive(Debug)]
pub struct PlanarHolesObservation {
    pub kind: PlanarHolesObservationKind,
    pub label: String,
    pub entries: ObservedEntries,
    pub noise_variance: Scalar,
}

/// What an observation reads, as a value.
pub enum EntriesModel {
    Signed { entries: Seq<(usize, i64)> },
    HarmonicPeriod { cycle: int },
}

/// An observation as a value.
pub struct ObservationModel {
    pub kind: PlanarHolesObservationKind,
    pub label: Seq<char>,
    pub entries: EntriesModel,
    pub noise_variance: Scalar,
}

impl View for ObservedEntries {
    type V = EntriesModel;

    open spec fn view(&self) -> EntriesModel {
        match self {
            ObservedEntries::Signed { entries } => EntriesModel::Signed { entries: entries@ },
            ObservedEntries::HarmonicPeriod { cycle } => EntriesModel::HarmonicPeriod {
                cycle: *cycle as int,
            },
        }
    }
}

impl View for PlanarHolesObservation {
    type V = ObservationModel;

    open spec fn view(&self) -> ObservationModel {
        ObservationModel {
            kind: self.kind,
            label: self.label@,
            entries: self.entries@,
            noise_variance: self.noise_variance,
        }
    }
}

/// A list of observations as values.
pub open spec fn views(observations: Seq<PlanarHolesObservation>) -> Seq<ObservationModel> {
    observations.map_values(|observation: PlanarHolesObservation| observation@)
}

/// The label of an observed edge.
pub open spec fn edge_label(prefix: Seq<char>, index: nat, edge: nat) -> Seq<char> {
    prefix + "_"@ + decimal(index) + "_edge_"@ + decimal(edge)
}

/// Observations of single edges.
pub open spec fn edge_group(
    kind: PlanarHolesObservationKind,
    prefix: Seq<char>,
    edges: Seq<usize>,
    noise_variance: Scalar,
) -> Seq<ObservationModel> {
    Seq::new(
        edges.len(),
        |i: int|
            ObservationModel {
                kind,
                label: edge_label(prefix, i as nat, edges[i] as nat),
                entries: EntriesModel::Signed { entries: seq![(edges[i], 1i64)] },
                noise_variance,
            },
    )
}

/// Observations of the flow along cycles.
pub open spec fn loop_group(
    kind: PlanarHolesObservationKind,
    prefix: Seq<char>,
    matrix: SignedMatrix,
    cycles: Seq<PlanarHoleCycle>,
    noise_variance: Scalar,
) -> Seq<ObservationModel> {
    Seq::new(
        matrix.rows@.len(),
        |i: int|
            ObservationModel {
                kind,
                label: prefix + "_"@ + cycles[i].name@,
                entries: EntriesModel::Signed { entries: matrix.rows@[i]@ },
                noise_variance,
            },
    )
}

/// Observations of the harmonic flow along cycles.
pub open spec fn period_group(
    kind: PlanarHolesObservationKind,
    prefix: Seq<char>,
    cycles: Seq<PlanarHoleCycle>,
    noise_variance: Scalar,
) -> Seq<ObservationModel> {
    Seq::new(
        cycles.len(),
        |i: int|
            ObservationModel {
                kind,
                label: prefix + "_"@ + cycles[i].name@,
                entries: EntriesModel::HarmonicPeriod { cycle: i },
                noise_variance,
            },
    )
}

/// Observations of sensor rows.
pub open spec fn row_group(
    kind: PlanarHolesObservationKind,
    rows: Seq<SensorRow>,
    noise_variance: Scalar,
) -> Seq<ObservationModel> {
    Seq::new(
        rows.len(),
        |i: int|
            ObservationModel {
                kind,
                label: rows[i].label@,
                entries: EntriesModel::Signed { entries: rows[i].entries@ },
                noise_variance,
            },
    )
}

/// Copies the entries of a row.
pub fn copy_entries(entries: &Vec<(usize, i64)>) -> (copy: Vec<(usize, i64)>)
    ensures
        copy@ == entries@,
{
    let mut copy: Vec<(usize, i64)> = Vec::new();
    let mut index: usize = 0;
    while index < entries.len()
        invariant
            index <= entries.len(),
            copy@ == entries@.take(index as int),
        decreases entries.len() - index,
    {
        copy.push(entries[index]);
        assert(entries@.take(index + 1) =~= entries@.take(index as int).push(
            entries@[index as int],
        ));
        index = index + 1;
    }
    assert(copy@ =~= entries@);
    copy
}

proof fn lemma_views_push(
    observations: Seq<PlanarHolesObservation>,
    start: Seq<ObservationModel>,
    group: Seq<ObservationModel>,
    count: int,
    next: PlanarHolesObservation,
)
    requires
        0 <= count < group.len(),
        views(observations) == start + group.take(count),
        next@ == group[count],
    ensures
        views(observations.push(next)) == start + group.take(count + 1),
{
    assert(group.take(count + 1) =~= group.take(count).push(group[count]));
    assert(views(observations.push(next)) =~= views(observations).push(next@));
    assert(start + group.take(count).push(group[count]) =~= (start + group.take(count)).push(
        group[count],
    ));
}

/// Adds observations of single edges.
pub fn edge_observations(
    observations: &mut Vec<PlanarHolesObservation>,
    kind: PlanarHolesObservationKind,
    prefix: &str,
    edges: &Vec<usize>,
    noise_variance: Scalar,
)
    ensures
        views(final(observations)@) == views(old(observations)@) + edge_group(
            kind,
            prefix@,
            edges@,
            noise_variance,
        ),
{
    let ghost group = edge_group(kind, prefix@, edges@, noise_variance);
    let ghost start = views(observations@);
    let mut index: usize = 0;
    assert(start + group.take(0) =~= start);
    while index < edges.len()
        invariant
            index <= edges.len(),
            group == edge_group(kind, prefix@, edges@, noise_variance),
            views(observations@) == start + group.take(index as int),
        decreases edges.len() - index,
    {
        let edge: usize = edges[index];
        let mut label = String::from_str(prefix);
        label.append("_");
        label.append(count_text(index).as_str());
        label.append("_edge_");
        label.append(count_text(edge).as_str());
        let entries: Vec<(usize, i64)> = vec![(edge, 1)];
        assert(entries@ =~= seq![(edge, 1i64)]);
        let observation = PlanarHolesObservation {
            kind,
            label,
            entries: ObservedEntries::Signed { entries },
            noise_variance,
        };
        proof {
            lemma_views_push(observations@, start, group, index as int, observation);
        }
        observations.push(observation);
        index = index + 1;
    }
    assert(group.take(index as int) =~= group);
}

/// Adds observations of the flow along cycles.
pub fn loop_observations(
    observations: &mut Vec<PlanarHolesObservation>,
    kind: PlanarHolesObservationKind,
    prefix: &str,
    matrix: &SignedMatrix,
    cycles: &Vec<PlanarHoleCycle>,
    noise_variance: Scalar,
)
    requires
        matrix.rows.len() <= cycles.len(),
    ensures
        views(final(observations)@) == views(old(observations)@) + loop_group(
            kind,
            prefix@,
            *matrix,
            cycles@,
            noise_variance,
        ),
{
    let ghost group = loop_group(kind, prefix@, *matrix, cycles@, noise_variance);
    let ghost start = views(observations@);
    let mut index: usize = 0;
    assert(start + group.take(0) =~= start);
    while index < matrix.rows.len()
        invariant
            matrix.rows.len() <= cycles.len(),
            index <= matrix.rows.len(),
            group == loop_group(kind, prefix@, *matrix, cycles@, noise_variance),
            views(observations@) == start + group.take(index as int),
        decreases matrix.rows.len() - index,
    {
        let mut label = String::from_str(prefix);
        label.append("_");
        label.append(cycles[index].name.as_str());
        let observation = PlanarHolesObservation {
            kind,
            label,
            entries: ObservedEntries::Signed { entries: copy_entries(&matrix.rows[index]) },
            noise_variance,
        };
        proof {
            lemma_views_push(observations@, start, group, index as int, observation);
        }
        observations.push(observation);
        index = index + 1;
    }
    assert(group.take(index as int) =~= group);
}

/// Adds observations of the harmonic flow along cycles.
pub fn harmonic_period_observations(
    observations: &mut Vec<PlanarHolesObservation>,
    kind: PlanarHolesObservationKind,
    prefix: &str,
    cycles: &Vec<PlanarHoleCycle>,
    noise_variance: Scalar,
)
    ensures
        views(final(observations)@) == views(old(observations)@) + period_group(
            kind,
            prefix@,
            cycles@,
            noise_variance,
        ),
{
    let ghost group = period_group(kind, prefix@, cycles@, noise_variance);
    let ghost start = views(observations@);
    let mut index: usize = 0;
    assert(start + group.take(0) =~= start);
    while index < cycles.len()
        invariant
            index <= cycles.len(),
            group == period_group(kind, prefix@, cycles@, noise_variance),
            views(observations@) == start + group.take(index as int),
        decreases cycles.len() - index,
    {
        let mut label = String::from_str(prefix);
        label.append("_");
        label.append(cycles[index].name.as_str());
        let observation = PlanarHolesObservation {
            kind,
            label,
            entries: ObservedEntries::HarmonicPeriod { cycle: index },
            noise_variance,
        };
        proof {
            lemma_views_push(observations@, start, group, index as int, observation);
        }
        observations.push(observation);
        index = index + 1;
    }
    assert(group.take(index as int) =~= group);
}

/// Adds observations of the first `count` sensor rows.
pub fn row_observations(
    observations: &mut Vec<PlanarHolesObservation>,
    kind: PlanarHolesObservationKind,
    rows: &Vec<SensorRow>,
    count: usize,
    noise_variance: Scalar,
)
    requires
        count <= rows.len(),
    ensures
        views(final(observations)@) == views(old(observations)@) + row_group(
            kind,
            rows@.take(count as int),
            noise_variance,
        ),
{
    let ghost group = row_group(kind, rows@.take(count as int), noise_variance);
    let ghost start = views(observations@);
    let mut index: usize = 0;
    assert(start + group.take(0) =~= start);
    while index < count
        invariant
            count <= rows.len(),
            index <= count,
            group == row_group(kind, rows@.take(count as int), noise_variance),
            views(observations@) == start + group.take(index as int),
        decreases count - index,
    {
        let row: &SensorRow = &rows[index];
        let observation = PlanarHolesObservation {
            kind,
            label: String::from_str(row.label.as_str()),
            entries: ObservedEntries::Signed { entries: copy_entries(&row.entries) },
            noise_variance,
        };
        proof {
            lemma_views_push(observations@, start, group, index as int, observation);
        }
        observations.push(observation);
        index = index + 1;
    }
    assert(group.take(index as int) =~= group);
}

/// Lists references to the observations of two groups, one after the other.
fn joined<'a, T>(
    first: &'a Vec<T>,
    second: &'a Vec<T>,
) -> (all: Vec<&'a T>)
    ensures
        all.len() == first.len() + second.len(),
        forall|i: int| 0 <= i < first.len() ==> *(#[trigger] all@[i]) == first@[i],
        forall|i: int|
            first.len() <= i < all.len() ==> *(#[trigger] all@[i]) == second@[i - first.len()],
{
    let mut all: Vec<&'a T> = Vec::new();
    let mut index: usize = 0;
    while index < first.len()
        invariant
            index <= first.len(),
            all.len() == index,
            forall|i: int| 0 <= i < index ==> *(#[trigger] all@[i]) == first@[i],
        decreases first.len() - index,
    {
        all.push(&first[index]);
        index = index + 1;
    }
    let mut position: usize = 0;
    while position < second.len()
        invariant
            position <= second.len(),
            all.len() == first.len() + position,
            forall|i: int| 0 <= i < first.len() ==> *(#[trigger] all@[i]) == first@[i],
            forall|i: int|
                first.len() <= i < all.len() ==> *(#[trigger] all@[i]) == second@[i - first.len()],
        decreases second.len() - position,
    {
        all.push(&second[position]);
        position = position + 1;
    }
    all
}

/// The observations behind a list of references.
pub open spec fn referenced<T>(observations: Seq<&T>) -> Seq<T> {
    observations.map_values(|observation: &T| *observation)
}

/// The training observations of a scenario.
pub open spec fn scenario_group<T>(
    scenario: PlanarHolesObservationScenario,
    local: Seq<T>,
    loops: Seq<T>,
    periods: Seq<T>,
) -> Seq<T> {
    match scenario {
        PlanarHolesObservationScenario::LocalOnly => local,
        PlanarHolesObservationScenario::LocalPlusLoops => local + loops,
        PlanarHolesObservationScenario::LocalPlusHarmonicPeriods => local + periods,
    }
}

/// Lists the training observations of a scenario: the local ones, and the loops or the harmonic
/// periods where the scenario has them.
pub fn scenario_training<'a, T>(
    scenario: PlanarHolesObservationScenario,
    local: &'a Vec<T>,
    loops: &'a Vec<T>,
    periods: &'a Vec<T>,
) -> (training: Vec<&'a T>)
    ensures
        referenced(training@) == scenario_group(scenario, local@, loops@, periods@),
{
    match scenario {
        PlanarHolesObservationScenario::LocalOnly => {
            let mut training: Vec<&'a T> = Vec::new();
            let mut index: usize = 0;
            while index < local.len()
                invariant
                    index <= local.len(),
                    training.len() == index,
                    forall|i: int| 0 <= i < index ==> *(#[trigger] training@[i]) == local@[i],
                decreases local.len() - index,
            {
                training.push(&local[index]);
                index = index + 1;
            }
            assert(referenced(training@) =~= local@);
            training
        },
        PlanarHolesObservationScenario::LocalPlusLoops => {
            let training = joined(local, loops);
            assert(referenced(training@) =~= local@ + loops@);
            training
        },
        PlanarHolesObservationScenario::LocalPlusHarmonicPeriods => {
            let training = joined(local, periods);
            assert(referenced(training@) =~= local@ + periods@);
            training
        },
    }
}

/// Lists the training and the validation observations, one after the other, for the final
/// conditioning of a selected model.
pub fn final_training<'a, T>(
    train: &'a Vec<T>,
    validation: &'a Vec<T>,
) -> (training: Vec<&'a T>)
    ensures
        referenced(training@) == train@ + validation@,
{
    let training = joined(train, validation);
    assert(referenced(training@) =~= train@ + validation@);
    training
}

/// Whether an observation held out for a single edge reads the edge.
pub open spec fn reads_locally(observation: PlanarHolesObservation, edge: usize) -> bool {
    &&& observation.kind == PlanarHolesObservationKind::HeldoutLocal
    &&& observation.entries matches ObservedEntries::Signed { entries }
    &&& listed(edge, entries@)
}

/// Lists the edges that the observations held out for single edges read, in increasing order.
/// Harmonic periods read no single edge.
pub fn heldout_local_edge_indices(heldout: &Vec<PlanarHolesObservation>) -> (edges: Vec<usize>)
    ensures
        strictly_increasing(edges@),
        forall|e: usize| #[trigger]
            edges@.contains(e) <==> exists|i: int|
                0 <= i < heldout.len() && reads_locally(#[trigger] heldout@[i], e),
{
    let mut set = IndexSet::new();
    let mut index: usize = 0;
    while index < heldout.len()
        invariant
            index <= heldout.len(),
            set.wf(),
            forall|e: usize| #[trigger]
                set@.contains(e) <==> exists|i: int|
                    0 <= i < index && reads_locally(#[trigger] heldout@[i], e),
        decreases heldout.len() - index,
    {
        let ghost before = set@;
        let observation: &PlanarHolesObservation = &heldout[index];
        if observation.kind == PlanarHolesObservationKind::HeldoutLocal {
            match &observation.entries {
                ObservedEntries::Signed { entries } => {
                    let mut position: usize = 0;
                    while position < entries.len()
                        invariant
                            position <= entries.len(),
                            set.wf(),
                            forall|e: usize| #[trigger]
                                set@.contains(e) <==> before.contains(e) || exists|k: int|
                                    0 <= k < position && (#[trigger] entries@[k]).0 == e,
                        decreases entries.len() - position,
                    {
                        let entry: (usize, i64) = entries[position];
                        assert(entries@[position as int] == entry);
                        set.insert(entry.0);
                        position = position + 1;
                    }
                    proof {
                        assert forall|e: usize| #[trigger] set@.contains(e) <==> before.contains(e)
                            || reads_locally(heldout@[index as int], e) by {
                            if exists|k: int|
                                0 <= k < entries.len() && (#[trigger] entries@[k]).0 == e {
                                assert(listed(e, entries@));
                            }
                        }
                    }
                },
                ObservedEntries::HarmonicPeriod { cycle } => {},
            }
        }
        proof {
            assert forall|e: usize| #[trigger] set@.contains(e) <==> exists|i: int|
                0 <= i < index + 1 && reads_locally(#[trigger] heldout@[i], e) by {
                assert(set@.contains(e) <==> before.contains(e) || reads_locally(
                    heldout@[index as int],
                    e,
                ));
                if before.contains(e) {
                    let i = choose|i: int|
                        0 <= i < index && reads_locally(#[trigger] heldout@[i], e);
                    assert(reads_locally(heldout@[i], e));
                }
            }
        }
        index = index + 1;
    }
    let mut edges: Vec<usize> = Vec::new();
    let items: &Vec<usize> = set.as_vec();
    let mut position: usize = 0;
    while position < items.len()
        invariant
            position <= items.len(),
            edges@ == items@.take(position as int),
        decreases items.len() - position,
    {
        edges.push(items[position]);
        assert(items@.take(position + 1) =~= items@.take(position as int).push(
            items@[position as int],
        ));
        position = position + 1;
    }
    assert(edges@ =~= items@);
    proof {
        assert forall|e: usize| #[trigger] edges@.contains(e) <==> set@.contains(e) by {
            assert(set@.contains(e) == edges@.to_set().contains(e));
        }
    }
    edges
}

} // verus!
