//! The course of a scenario: the models of a flow one after the other, and what is reported of
//! them.

use crate::hodge::HodgeBranchKind;
use crate::planar_holes_hodge_flow::comparison::continues;
use crate::planar_holes_hodge_flow::config::PlanarHolesFlowConfig;
use crate::planar_holes_hodge_flow::hole_cycles::PlanarHoleCycle;
use crate::planar_holes_hodge_flow::kinds::{
    PlanarHolesFieldCoverageSubset, PlanarHolesModelKind, PlanarHolesObservationScenario,
};
use crate::planar_holes_hodge_flow::models::{
    branch_rank, branches_fit, branches_rise, planned, planned_models,
};
use crate::planar_holes_hodge_flow::observation::PlanarHolesObservation;
use crate::planar_holes_hodge_flow::reports::{
    branch_recovery_summaries, by_branch, field_coverage_summaries, heldout_predictions,
    loop_functional_rows_from_values, loop_functionals, model_metrics, period_summaries,
    reported_functionals, reports_coverage, reports_functional, reports_metrics, reports_period,
    reports_prediction, reports_recovery, BranchRecovery, Estimate, FlowErrors, Predicted,
    SubsetCoverage,
};
use crate::planar_holes_hodge_flow::tables::{
    PlanarHolesBranchRecoverySummary, PlanarHolesFieldCoverageSummary,
    PlanarHolesHeldoutPrediction, PlanarHolesLoopFunctionalSummary, PlanarHolesModelMetrics,
    PlanarHolesPeriodSummary,
};
use crate::scalar::Scalar;
use vstd::prelude::*;

verus! {

/// How a posterior covers the truth, edge by edge.
#[derive(Debug)]
pub struct PlanarHolesFieldCoverageDiagnostics {
    pub posterior_std: Vec<Scalar>,
    pub abs_z_score: Vec<Scalar>,
    pub covered_95: Vec<Scalar>,
    pub posterior_mean_error: Vec<Scalar>,
}

/// The part of a posterior mean that lies in one branch, edge by edge.
#[derive(Debug)]
pub struct BranchMean {
    pub branch: HodgeBranchKind,
    pub mean: Vec<Scalar>,
}

/// What a scenario keeps of the posterior of a model.
#[derive(Debug)]
pub struct PlanarHolesModelPosterior {
    pub scenario: PlanarHolesObservationScenario,
    pub model: PlanarHolesModelKind,
    pub posterior_mean: Vec<Scalar>,
    pub branch_means: Vec<BranchMean>,
    pub field_coverage: PlanarHolesFieldCoverageDiagnostics,
}

/// What a scenario reports.
#[derive(Debug)]
pub struct PlanarHolesScenarioResult {
    pub scenario: PlanarHolesObservationScenario,
    pub observation_count: usize,
    pub metrics: Vec<PlanarHolesModelMetrics>,
    pub period_summaries: Vec<PlanarHolesPeriodSummary>,
    pub loop_functional_summaries: Vec<PlanarHolesLoopFunctionalSummary>,
    pub field_coverage_summaries: Vec<PlanarHolesFieldCoverageSummary>,
    pub branch_recovery_summaries: Vec<PlanarHolesBranchRecoverySummary>,
    pub heldout_predictions: Vec<PlanarHolesHeldoutPrediction>,
    pub posteriors: Vec<PlanarHolesModelPosterior>,
}

/// What conditioning a model in a scenario gave.
#[derive(Debug)]
pub struct ModelOutcome {
    pub errors: FlowErrors,
    /// The estimates of the flows along the held-out cycles.
    pub periods: Vec<Estimate>,
    /// The estimates of the functionals that are reported of the model, for each cycle.
    pub functionals: Vec<Vec<Estimate>>,
    pub predictions: Vec<Predicted>,
    pub all_edges: SubsetCoverage,
    pub heldout_edges: SubsetCoverage,
    pub recoveries: Vec<BranchRecovery>,
    pub posterior_mean: Vec<Scalar>,
    pub branch_means: Vec<BranchMean>,
    pub field_coverage: PlanarHolesFieldCoverageDiagnostics,
}

/// The branches of which a posterior has a part.
pub open spec fn branches_in(means: Seq<BranchMean>) -> Seq<HodgeBranchKind> {
    means.map_values(|mean: BranchMean| mean.branch)
}

/// The branches whose recoveries are listed.
pub open spec fn recovered_branches(recoveries: Seq<BranchRecovery>) -> Seq<HodgeBranchKind> {
    recoveries.map_values(|recovery: BranchRecovery| recovery.branch)
}

/// Recoveries that are listed in the order of the branches stay in place when they are ordered.
proof fn lemma_ordered_recoveries(recoveries: Seq<BranchRecovery>)
    requires
        branches_rise(recovered_branches(recoveries)),
    ensures
        by_branch(recoveries) == recoveries,
{
    let branches = recovered_branches(recoveries);
    if recoveries.len() > 3 {
        assert(branch_rank(branches[0]) < branch_rank(branches[1]));
        assert(branch_rank(branches[1]) < branch_rank(branches[2]));
        assert(branch_rank(branches[2]) < branch_rank(branches[3]));
    }
    if recoveries.len() > 1 {
        assert(branch_rank(branches[0]) < branch_rank(branches[1]));
    }
    if recoveries.len() > 2 {
        assert(branch_rank(branches[1]) < branch_rank(branches[2]));
    }
    reveal(by_branch);
    reveal_with_fuel(Seq::filter, 4);
    assert(by_branch(recoveries) =~= recoveries);
}

/// Lists the branches of which a posterior has a part.
fn list_branches(means: &Vec<BranchMean>) -> (branches: Vec<HodgeBranchKind>)
    ensures
        branches@ == branches_in(means@),
{
    let mut branches: Vec<HodgeBranchKind> = Vec::new();
    while branches.len() < means.len()
        invariant
            branches.len() <= means.len(),
            forall|i: int| 0 <= i < branches.len() ==> #[trigger] branches@[i] == means@[i].branch,
        decreases means.len() - branches.len(),
    {
        let next: usize = branches.len();
        branches.push(means[next].branch);
    }
    assert(branches@ =~= branches_in(means@));
    branches
}

impl ModelOutcome {
    /// Whether there is an estimate for every cycle and functional, a prediction for every held-out
    /// observation, and a part and a recovery for every branch of the model.
    pub open spec fn fits(
        &self,
        model: PlanarHolesModelKind,
        cycle_count: nat,
        heldout_count: nat,
    ) -> bool {
        &&& branches_fit(model, branches_in(self.branch_means@))
        &&& recovered_branches(self.recoveries@) == branches_in(self.branch_means@)
        &&& self.periods.len() == cycle_count
        &&& self.functionals.len() == reported_functionals(branches_in(self.branch_means@)).len()
        &&& forall|f: int|
            0 <= f < self.functionals.len() ==> (#[trigger] self.functionals@[f]).len()
                == cycle_count
        &&& self.predictions.len() == heldout_count
    }
}

/// Whether the rows report the flows along the cycles.
pub open spec fn lists_periods(
    scenario: PlanarHolesObservationScenario,
    model: PlanarHolesModelKind,
    cycles: Seq<PlanarHoleCycle>,
    estimates: Seq<Estimate>,
    rows: Seq<PlanarHolesPeriodSummary>,
) -> bool {
    &&& rows.len() == cycles.len()
    &&& forall|i: int|
        0 <= i < rows.len() ==> reports_period(
            scenario,
            model,
            cycles[i],
            estimates[i],
            #[trigger] rows[i],
        )
}

/// Whether the rows report the functionals one after the other, each for all cycles.
pub open spec fn lists_functionals(
    scenario: PlanarHolesObservationScenario,
    model: PlanarHolesModelKind,
    cycles: Seq<PlanarHoleCycle>,
    branches: Seq<HodgeBranchKind>,
    estimates: Seq<Vec<Estimate>>,
    count: int,
    rows: Seq<PlanarHolesLoopFunctionalSummary>,
) -> bool {
    &&& rows.len() == count * cycles.len()
    &&& forall|f: int, i: int|
        #![trigger estimates[f]@[i]]
        0 <= f < count && 0 <= i < cycles.len() ==> reports_functional(
            scenario,
            model,
            reported_functionals(branches)[f],
            cycles[i],
            estimates[f]@[i],
            rows[f * cycles.len() + i],
        )
}

/// Whether the rows report the predictions of the held-out observations.
pub open spec fn lists_predictions(
    scenario: PlanarHolesObservationScenario,
    model: PlanarHolesModelKind,
    heldout: Seq<PlanarHolesObservation>,
    values: Seq<Predicted>,
    rows: Seq<PlanarHolesHeldoutPrediction>,
) -> bool {
    &&& rows.len() == heldout.len()
    &&& forall|i: int|
        0 <= i < rows.len() ==> reports_prediction(
            scenario,
            model,
            heldout[i],
            values[i],
            #[trigger] rows[i],
        )
}

/// Whether the rows report how the branches were recovered.
pub open spec fn lists_recoveries(
    scenario: PlanarHolesObservationScenario,
    model: PlanarHolesModelKind,
    recoveries: Seq<BranchRecovery>,
    rows: Seq<PlanarHolesBranchRecoverySummary>,
) -> bool {
    &&& rows.len() == recoveries.len()
    &&& forall|i: int|
        0 <= i < rows.len() ==> reports_recovery(
            scenario,
            model,
            recoveries[i],
            #[trigger] rows[i],
        )
}

/// Reports the recoveries of branches that are listed in their order.
fn recovery_rows(
    scenario: PlanarHolesObservationScenario,
    model: PlanarHolesModelKind,
    recoveries: &Vec<BranchRecovery>,
) -> (rows: Vec<PlanarHolesBranchRecoverySummary>)
    requires
        branches_rise(recovered_branches(recoveries@)),
    ensures
        lists_recoveries(scenario, model, recoveries@, rows@),
{
    proof {
        lemma_ordered_recoveries(recoveries@);
    }
    branch_recovery_summaries(scenario, model, recoveries)
}

/// Whether the rows report the coverage of all edges, and of those that were held out.
pub open spec fn lists_coverage(
    scenario: PlanarHolesObservationScenario,
    model: PlanarHolesModelKind,
    all: SubsetCoverage,
    heldout: SubsetCoverage,
    rows: Seq<PlanarHolesFieldCoverageSummary>,
) -> bool {
    &&& rows.len() == 2
    &&& reports_coverage(scenario, model, PlanarHolesFieldCoverageSubset::AllEdges, all, rows[0])
    &&& reports_coverage(
        scenario,
        model,
        PlanarHolesFieldCoverageSubset::HeldoutLocalEdges,
        heldout,
        rows[1],
    )
}

/// Makes the rows of all functionals of the cycles.
fn functional_rows(
    scenario: PlanarHolesObservationScenario,
    model: PlanarHolesModelKind,
    cycles: &Vec<PlanarHoleCycle>,
    branches: &Vec<HodgeBranchKind>,
    estimates: &Vec<Vec<Estimate>>,
) -> (rows: Vec<PlanarHolesLoopFunctionalSummary>)
    requires
        estimates.len() == reported_functionals(branches@).len(),
        forall|f: int|
            0 <= f < estimates.len() ==> (#[trigger] estimates@[f]).len() == cycles.len(),
    ensures
        lists_functionals(
            scenario,
            model,
            cycles@,
            branches@,
            estimates@,
            estimates.len() as int,
            rows@,
        ),
{
    let functionals = loop_functionals(branches);
    let mut rows: Vec<PlanarHolesLoopFunctionalSummary> = Vec::new();
    let mut index: usize = 0;
    while index < functionals.len()
        invariant
            index <= functionals.len(),
            functionals@ == reported_functionals(branches@),
            estimates.len() == functionals.len(),
            forall|f: int|
                0 <= f < estimates.len() ==> (#[trigger] estimates@[f]).len() == cycles.len(),
            lists_functionals(
                scenario,
                model,
                cycles@,
                branches@,
                estimates@,
                index as int,
                rows@,
            ),
        decreases functionals.len() - index,
    {
        let ghost before = rows@;
        let values: &Vec<Estimate> = &estimates[index];
        assert(estimates@[index as int] == *values);
        let mut added = loop_functional_rows_from_values(
            scenario,
            model,
            functionals[index],
            cycles,
            values,
        );
        let ghost of_one = added@;
        rows.append(&mut added);
        proof {
            let n = cycles@.len() as int;
            assert((index + 1) * n == index * n + n) by (nonlinear_arith);
            assert forall|f: int, i: int|
                #![trigger estimates@[f]@[i]]
                0 <= f < index + 1 && 0 <= i < n implies reports_functional(
                scenario,
                model,
                reported_functionals(branches@)[f],
                cycles@[i],
                estimates@[f]@[i],
                rows@[f * n + i],
            ) by {
                if f < index {
                    assert(0 <= f * n + i < index * n) by (nonlinear_arith)
                        requires
                            0 <= f < index,
                            0 <= i < n,
                    ;
                    assert(rows@[f * n + i] == before[f * n + i]);
                } else {
                    assert(rows@[f * n + i] == of_one[i]);
                }
            }
        }
        index = index + 1;
    }
    rows
}

/// A scenario under way: the models that are conditioned, in their order, and what is reported.
#[derive(Debug)]
pub struct ScenarioRun {
    pub models: Vec<PlanarHolesModelKind>,
    pub result: PlanarHolesScenarioResult,
}

impl ScenarioRun {
    /// Whether the models so far are reported in their order, each with a row for every cycle and
    /// for every held-out observation.
    pub open spec fn wf(&self, cycle_count: nat, heldout_count: nat) -> bool {
        let done = self.result.metrics.len() as int;
        &&& done <= self.models.len()
        &&& self.result.posteriors.len() == done
        &&& self.result.period_summaries.len() == done * cycle_count
        &&& self.result.heldout_predictions.len() == done * heldout_count
        &&& self.result.field_coverage_summaries.len() == 2 * done
        &&& forall|i: int|
            0 <= i < done ==> {
                &&& (#[trigger] self.result.metrics@[i]).model == self.models@[i]
                &&& self.result.metrics@[i].scenario == self.result.scenario
                &&& self.result.metrics@[i].observation_count == self.result.observation_count
            }
        &&& forall|i: int|
            0 <= i < done ==> {
                &&& (#[trigger] self.result.posteriors@[i]).model == self.models@[i]
                &&& self.result.posteriors@[i].scenario == self.result.scenario
            }
    }

    /// Sets out on a scenario with all models that a configuration asks for.
    pub fn new(
        config: &PlanarHolesFlowConfig,
        scenario: PlanarHolesObservationScenario,
        observation_count: usize,
    ) -> (run: Self)
        ensures
            forall|cycle_count: nat, heldout_count: nat| #[trigger]
                run.wf(cycle_count, heldout_count),
            run.models@ == planned(*config),
            run.result.scenario == scenario,
            run.result.observation_count == observation_count,
            run.result.metrics.len() == 0,
            run.result.loop_functional_summaries.len() == 0,
            run.result.branch_recovery_summaries.len() == 0,
    {
        ScenarioRun {
            models: planned_models(config),
            result: PlanarHolesScenarioResult {
                scenario,
                observation_count,
                metrics: Vec::new(),
                period_summaries: Vec::new(),
                loop_functional_summaries: Vec::new(),
                field_coverage_summaries: Vec::new(),
                branch_recovery_summaries: Vec::new(),
                heldout_predictions: Vec::new(),
                posteriors: Vec::new(),
            },
        }
    }

    /// The model that is to be conditioned next, where there is one.
    pub fn next_model(&self) -> (model: Option<PlanarHolesModelKind>)
        ensures
            model == (if self.result.metrics.len() < self.models.len() {
                Some(self.models@[self.result.metrics.len() as int])
            } else {
                None
            }),
    {
        if self.result.metrics.len() < self.models.len() {
            Some(self.models[self.result.metrics.len()])
        } else {
            None
        }
    }

    /// Takes in what conditioning the model that was next gave, and reports it.
    pub fn record_model(
        &mut self,
        cycles: &Vec<PlanarHoleCycle>,
        heldout: &Vec<PlanarHolesObservation>,
        outcome: ModelOutcome,
    )
        requires
            old(self).wf(cycles.len() as nat, heldout.len() as nat),
            old(self).result.metrics.len() < old(self).models.len(),
            outcome.fits(
                old(self).models@[old(self).result.metrics.len() as int],
                cycles.len() as nat,
                heldout.len() as nat,
            ),
        ensures
            final(self).wf(cycles.len() as nat, heldout.len() as nat),
            final(self).models@ == old(self).models@,
            final(self).result.scenario == old(self).result.scenario,
            final(self).result.observation_count == old(self).result.observation_count,
            final(self).result.metrics.len() == old(self).result.metrics.len() + 1,
            continues(old(self).result.metrics@, final(self).result.metrics@),
            continues(old(self).result.period_summaries@, final(self).result.period_summaries@),
            continues(
                old(self).result.loop_functional_summaries@,
                final(self).result.loop_functional_summaries@,
            ),
            continues(
                old(self).result.field_coverage_summaries@,
                final(self).result.field_coverage_summaries@,
            ),
            continues(
                old(self).result.branch_recovery_summaries@,
                final(self).result.branch_recovery_summaries@,
            ),
            continues(
                old(self).result.heldout_predictions@,
                final(self).result.heldout_predictions@,
            ),
            continues(old(self).result.posteriors@, final(self).result.posteriors@),
            ({
                let scenario = old(self).result.scenario;
                let model = old(self).models@[old(self).result.metrics.len() as int];
                &&& reports_metrics(
                    scenario,
                    model,
                    old(self).result.observation_count,
                    outcome.errors,
                    final(self).result.metrics@.last(),
                )
                &&& lists_periods(
                    scenario,
                    model,
                    cycles@,
                    outcome.periods@,
                    final(self).result.period_summaries@.skip(
                        old(self).result.period_summaries@.len() as int,
                    ),
                )
                &&& lists_functionals(
                    scenario,
                    model,
                    cycles@,
                    branches_in(outcome.branch_means@),
                    outcome.functionals@,
                    outcome.functionals.len() as int,
                    final(self).result.loop_functional_summaries@.skip(
                        old(self).result.loop_functional_summaries@.len() as int,
                    ),
                )
                &&& lists_coverage(
                    scenario,
                    model,
                    outcome.all_edges,
                    outcome.heldout_edges,
                    final(self).result.field_coverage_summaries@.skip(
                        old(self).result.field_coverage_summaries@.len() as int,
                    ),
                )
                &&& lists_recoveries(
                    scenario,
                    model,
                    outcome.recoveries@,
                    final(self).result.branch_recovery_summaries@.skip(
                        old(self).result.branch_recovery_summaries@.len() as int,
                    ),
                )
                &&& lists_predictions(
                    scenario,
                    model,
                    heldout@,
                    outcome.predictions@,
                    final(self).result.heldout_predictions@.skip(
                        old(self).result.heldout_predictions@.len() as int,
                    ),
                )
                &&& final(self).result.posteriors@.last() == PlanarHolesModelPosterior {
                    scenario,
                    model,
                    posterior_mean: outcome.posterior_mean,
                    branch_means: outcome.branch_means,
                    field_coverage: outcome.field_coverage,
                }
            }),
    {
        let ghost before = *self;
        let scenario = self.result.scenario;
        let model = self.models[self.result.metrics.len()];
        let branches = list_branches(&outcome.branch_means);
        let metrics = model_metrics(
            scenario,
            model,
            self.result.observation_count,
            outcome.errors,
        );
        let mut periods = period_summaries(scenario, model, cycles, &outcome.periods);
        let mut functionals = functional_rows(
            scenario,
            model,
            cycles,
            &branches,
            &outcome.functionals,
        );
        let mut coverage = field_coverage_summaries(
            scenario,
            model,
            outcome.all_edges,
            outcome.heldout_edges,
        );
        let mut recoveries = recovery_rows(scenario, model, &outcome.recoveries);
        let mut predictions = heldout_predictions(scenario, model, heldout, &outcome.predictions);
        let ghost added = (periods@, functionals@, coverage@, recoveries@, predictions@);
        self.result.metrics.push(metrics);
        self.result.period_summaries.append(&mut periods);
        self.result.loop_functional_summaries.append(&mut functionals);
        self.result.field_coverage_summaries.append(&mut coverage);
        self.result.branch_recovery_summaries.append(&mut recoveries);
        self.result.heldout_predictions.append(&mut predictions);
        self.result.posteriors.push(
            PlanarHolesModelPosterior {
                scenario,
                model,
                posterior_mean: outcome.posterior_mean,
                branch_means: outcome.branch_means,
                field_coverage: outcome.field_coverage,
            },
        );
        proof {
            let was = before.result;
            let now = self.result;
            let done = was.metrics@.len() as int;
            assert((done + 1) * cycles.len() == done * cycles.len() + cycles.len())
                by (nonlinear_arith);
            assert((done + 1) * heldout.len() == done * heldout.len() + heldout.len())
                by (nonlinear_arith);
            assert(now.metrics@.take(done) =~= was.metrics@);
            assert(now.posteriors@.take(done) =~= was.posteriors@);
            lemma_appended(was.period_summaries@, added.0);
            lemma_appended(was.loop_functional_summaries@, added.1);
            lemma_appended(was.field_coverage_summaries@, added.2);
            lemma_appended(was.branch_recovery_summaries@, added.3);
            lemma_appended(was.heldout_predictions@, added.4);
        }
    }
}

/// A list with others put behind it starts with the list and ends with the others.
proof fn lemma_appended<T>(list: Seq<T>, others: Seq<T>)
    ensures
        continues(list, list + others),
        (list + others).skip(list.len() as int) == others,
{
    assert((list + others).take(list.len() as int) =~= list);
    assert((list + others).skip(list.len() as int) =~= others);
}

/// At the end of a scenario every model that the configuration asks for is reported once.
pub proof fn lemma_scenario_covers_models(
    run: ScenarioRun,
    config: PlanarHolesFlowConfig,
    cycle_count: nat,
    heldout_count: nat,
)
    requires
        run.wf(cycle_count, heldout_count),
        run.models@ == planned(config),
        run.result.metrics.len() == run.models.len(),
    ensures
        run.result.metrics.len() == planned(config).len(),
        forall|i: int|
            0 <= i < planned(config).len() ==> (#[trigger] run.result.metrics@[i]).model
                == planned(config)[i],
        run.result.period_summaries.len() == planned(config).len() * cycle_count,
        run.result.heldout_predictions.len() == planned(config).len() * heldout_count,
        run.result.field_coverage_summaries.len() == 2 * planned(config).len(),
{
}

} // verus!
