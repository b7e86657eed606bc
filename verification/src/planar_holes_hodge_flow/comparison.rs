//! The course of a comparison of models: which model is tried next and with which parameters, what
//! is chosen, and what is reported.

use crate::planar_holes_hodge_flow::config::{
    comparison_message, PlanarHolesTopologyVsNaiveGpConfig,
};
use crate::planar_holes_hodge_flow::holes::PlanarHolesDomainKind;
use crate::planar_holes_hodge_flow::kinds::PlanarHolesModelKind;
use crate::planar_holes_hodge_flow::models::{
    any_finite, candidate_at, candidate_of, fixed_reference_kappa, is_first_minimum, is_reference,
    is_tuned, Candidate, ComparedModels,
};
use crate::planar_holes_hodge_flow::reports::{
    barrier_summary_row, calibration_rows_for_predictions, group_name, path_homology_summary_row,
    reports_barrier, reports_calibration, reports_candidate, reports_comparison,
    reports_path_homology, topology_vs_naive_metric_row, tuning_rows, undefined, undefined_value,
    BarrierCounts, CalibratedStats, ComparisonErrors, PathPairCounts, SelectedModel,
    SpectralBranchStats,
};
use crate::planar_holes_hodge_flow::studies::{select_tuned_model, tuning_grids};
use crate::planar_holes_hodge_flow::summaries::occurring_kinds;
use crate::planar_holes_hodge_flow::tables::{
    PlanarHolesBarrierSummaryRow, PlanarHolesFieldCoverageSummary, PlanarHolesHeldoutPrediction,
    PlanarHolesPathHomologySummaryRow, PlanarHolesTopologyVsNaiveGpCalibrationRow,
    PlanarHolesTopologyVsNaiveGpMetricRow, PlanarHolesTopologyVsNaiveGpTuningRow,
};
use crate::planar_holes_hodge_flow::topology::PlanarHolesTopologySummary;
use crate::scalar::Scalar;
use vstd::prelude::*;

verus! {

/// What a trial of a model on the validation observations gave.
#[derive(Debug, Clone, Copy, PartialEq, Eq, Structural)]
pub struct Trial {
    /// The mean negative log density.
    pub score: Scalar,
    /// The factor by which the predictive variances fit the residuals.
    pub variance_multiplier: Scalar,
}

/// A model with the parameters that were chosen for it.
#[derive(Debug, Clone, Copy, PartialEq, Eq, Structural)]
pub struct Selection {
    pub model: PlanarHolesModelKind,
    pub selected: Candidate,
    pub validation_nlpd: Scalar,
    pub variance_multiplier: Scalar,
}

/// What is to be done next in a comparison.
#[derive(Debug, Clone, Copy, PartialEq, Eq, Structural)]
pub enum ComparisonAction {
    /// Condition the model on the training observations, and score it on the validation
    /// observations.
    Try { model: PlanarHolesModelKind, candidate: Candidate },
    /// Condition the model on the training and the validation observations, and predict what is
    /// held out.
    Conclude { selection: Selection },
    /// Nothing.
    Done,
}

/// The scale of the observation variances that reference models are tried with.
pub const UNSCALED: u64 = 0x3ff0_0000_0000_0000;

/// The number of trials of a model: one for every candidate of a model that is tuned, and one of
/// any other.
pub open spec fn trial_count(
    config: PlanarHolesTopologyVsNaiveGpConfig,
    model: PlanarHolesModelKind,
) -> nat {
    if is_tuned(model) {
        tuning_grids(model, config).0.len() * tuning_grids(model, config).1.len()
            * config.observation_variance_scales@.len()
    } else {
        1
    }
}

/// Whether every model has trials, and no more than can be counted.
pub open spec fn trials_fit(config: PlanarHolesTopologyVsNaiveGpConfig) -> bool {
    forall|model: PlanarHolesModelKind| 0 < #[trigger] trial_count(config, model) <= usize::MAX
}

/// A configuration that is accepted has a candidate for every model.
pub proof fn lemma_valid_grids_have_candidates(
    config: PlanarHolesTopologyVsNaiveGpConfig,
    model: PlanarHolesModelKind,
)
    requires
        comparison_message(config) is None,
    ensures
        trial_count(config, model) > 0,
{
    let kappas = tuning_grids(model, config).0.len();
    let taus = tuning_grids(model, config).1.len();
    let scales = config.observation_variance_scales@.len();
    assert(kappas > 0 && taus > 0 && scales > 0 ==> kappas * taus * scales > 0)
        by (nonlinear_arith);
}

/// The parameters of a trial of a model: a candidate of a model that is tuned, the configured
/// parameters of a reference, and none of any other model.
pub open spec fn trial_candidate(
    config: PlanarHolesTopologyVsNaiveGpConfig,
    reference_tau: Scalar,
    model: PlanarHolesModelKind,
    number: int,
) -> Candidate {
    if is_tuned(model) {
        candidate_at(
            tuning_grids(model, config).0,
            tuning_grids(model, config).1,
            config.observation_variance_scales@,
            number,
        )
    } else if is_reference(model) {
        Candidate {
            kappa: config.base.coexact_kappa,
            tau: reference_tau,
            observation_variance_scale: Scalar { bits: UNSCALED },
        }
    } else {
        Candidate {
            kappa: undefined(),
            tau: undefined(),
            observation_variance_scale: Scalar { bits: UNSCALED },
        }
    }
}

/// The scores of trials.
pub open spec fn scores_of(trials: Seq<Trial>) -> Seq<Scalar> {
    trials.map_values(|trial: Trial| trial.score)
}

/// Whether the trial of a given number is the one whose parameters are chosen: of a model that is
/// tuned the first with the least finite score.
pub open spec fn is_chosen(model: PlanarHolesModelKind, trials: Seq<Trial>, number: int) -> bool {
    &&& 0 <= number < trials.len()
    &&& is_tuned(model) ==> is_first_minimum(scores_of(trials), number)
}

/// Whether a selection is what the trials of a model lead to.
pub open spec fn is_selection(
    config: PlanarHolesTopologyVsNaiveGpConfig,
    reference_tau: Scalar,
    model: PlanarHolesModelKind,
    trials: Seq<Trial>,
    selection: Selection,
) -> bool {
    &&& selection.model == model
    &&& exists|number: int|
        {
            &&& #[trigger] is_chosen(model, trials, number)
            &&& selection.selected == trial_candidate(config, reference_tau, model, number)
            &&& selection.validation_nlpd == trials[number].score
            &&& selection.variance_multiplier == trials[number].variance_multiplier
        }
}

/// No trial of a tuned model has a smaller score than the selected one.
pub proof fn lemma_selection_is_best(
    config: PlanarHolesTopologyVsNaiveGpConfig,
    reference_tau: Scalar,
    model: PlanarHolesModelKind,
    trials: Seq<Trial>,
    selection: Selection,
)
    requires
        is_tuned(model),
        is_selection(config, reference_tau, model, trials, selection),
    ensures
        selection.validation_nlpd.finite(),
        forall|i: int|
            0 <= i < trials.len() && (#[trigger] trials[i]).score.finite()
                ==> selection.validation_nlpd.le(trials[i].score),
{
    let number = choose|number: int|
        {
            &&& #[trigger] is_chosen(model, trials, number)
            &&& selection.selected == trial_candidate(config, reference_tau, model, number)
            &&& selection.validation_nlpd == trials[number].score
            &&& selection.variance_multiplier == trials[number].variance_multiplier
        };
    let scores = scores_of(trials);
    assert(scores[number] == trials[number].score);
    assert forall|i: int| 0 <= i < trials.len() && (#[trigger] trials[i]).score.finite() implies
        selection.validation_nlpd.le(trials[i].score) by {
        assert(scores[i] == trials[i].score);
    }
}

/// The trials of a model settle what is selected.
pub proof fn lemma_selection_unique(
    config: PlanarHolesTopologyVsNaiveGpConfig,
    reference_tau: Scalar,
    model: PlanarHolesModelKind,
    trials: Seq<Trial>,
    first: Selection,
    second: Selection,
)
    requires
        trials.len() == trial_count(config, model),
        is_selection(config, reference_tau, model, trials, first),
        is_selection(config, reference_tau, model, trials, second),
    ensures
        first == second,
{
    let a = choose|number: int|
        {
            &&& #[trigger] is_chosen(model, trials, number)
            &&& first.selected == trial_candidate(config, reference_tau, model, number)
            &&& first.validation_nlpd == trials[number].score
            &&& first.variance_multiplier == trials[number].variance_multiplier
        };
    let b = choose|number: int|
        {
            &&& #[trigger] is_chosen(model, trials, number)
            &&& second.selected == trial_candidate(config, reference_tau, model, number)
            &&& second.validation_nlpd == trials[number].score
            &&& second.variance_multiplier == trials[number].variance_multiplier
        };
    let scores = scores_of(trials);
    if is_tuned(model) && a != b {
        assert(scores[a].finite() && scores[b].finite());
    }
}

/// How many observations a study has for each use.
#[derive(Debug, Clone, Copy, PartialEq, Eq, Structural)]
pub struct ObservationCounts {
    pub training: usize,
    pub validation: usize,
    pub heldout: usize,
}

/// What a comparison of models reports.
#[derive(Debug)]
pub struct PlanarHolesTopologyVsNaiveGpResult {
    pub topology_summary: PlanarHolesTopologySummary,
    pub train_cycle_harmonic_pairing_rank: usize,
    pub validation_cycle_harmonic_pairing_rank: usize,
    pub heldout_cycle_harmonic_pairing_rank: usize,
    pub rows: Vec<PlanarHolesTopologyVsNaiveGpMetricRow>,
    pub tuning_rows: Vec<PlanarHolesTopologyVsNaiveGpTuningRow>,
    pub calibration_rows: Vec<PlanarHolesTopologyVsNaiveGpCalibrationRow>,
    pub heldout_predictions: Vec<PlanarHolesHeldoutPrediction>,
    pub field_coverage_summaries: Vec<PlanarHolesFieldCoverageSummary>,
}

/// What conditioning a selected model gave.
#[derive(Debug)]
pub struct Conclusion {
    pub coexact_tau_scale: Scalar,
    pub spectral: Vec<SpectralBranchStats>,
    pub errors: ComparisonErrors,
    pub predictions: Vec<PlanarHolesHeldoutPrediction>,
    /// The statistics of all predictions, and of each kind that occurs.
    pub stats: Vec<CalibratedStats>,
    pub coverage: Vec<PlanarHolesFieldCoverageSummary>,
}

/// A comparison of models under way. First every model is tried, then every selected model is
/// concluded, in the order of the models.
#[derive(Debug)]
pub struct Comparison {
    pub models: Vec<PlanarHolesModelKind>,
    pub counts: ObservationCounts,
    /// The precision scale that is reported of reference models.
    pub reference_tau: Scalar,
    /// The trials so far of the model that is tried.
    pub trials: Vec<Trial>,
    pub selections: Vec<Selection>,
    pub report: PlanarHolesTopologyVsNaiveGpResult,
}

/// The number of trials of the models from a given place on.
pub open spec fn trials_from(
    config: PlanarHolesTopologyVsNaiveGpConfig,
    models: Seq<PlanarHolesModelKind>,
    place: int,
) -> nat
    decreases models.len() - place,
{
    if place >= models.len() {
        0
    } else {
        trial_count(config, models[place]) + trials_from(config, models, place + 1)
    }
}

/// Whether a row is about a selection.
pub open spec fn row_of(
    selection: Selection,
    row: PlanarHolesTopologyVsNaiveGpMetricRow,
) -> bool {
    &&& row.model == selection.model
    &&& row.selected_kappa == selection.selected.kappa
    &&& row.selected_tau == selection.selected.tau
    &&& row.selected_observation_variance_scale == selection.selected.observation_variance_scale
    &&& row.validation_nlpd == selection.validation_nlpd
}

/// Whether the rows report the candidates of a tuned model with their scores.
pub open spec fn lists_tuning(
    config: PlanarHolesTopologyVsNaiveGpConfig,
    reference_tau: Scalar,
    model: PlanarHolesModelKind,
    trials: Seq<Trial>,
    rows: Seq<PlanarHolesTopologyVsNaiveGpTuningRow>,
) -> bool {
    &&& rows.len() == trials.len()
    &&& forall|i: int|
        0 <= i < rows.len() ==> reports_candidate(
            model,
            trial_candidate(config, reference_tau, model, i),
            trials[i].score,
            #[trigger] rows[i],
        )
}

/// Whether the rows report how the predictions of a selected model fit.
pub open spec fn lists_calibration(
    selection: Selection,
    conclusion: Conclusion,
    rows: Seq<PlanarHolesTopologyVsNaiveGpCalibrationRow>,
) -> bool {
    &&& rows.len() == conclusion.stats.len()
    &&& forall|g: int|
        0 <= g < rows.len() ==> reports_calibration(
            selection.model,
            group_name(conclusion.predictions@, g),
            selection.variance_multiplier,
            conclusion.stats@[g],
            #[trigger] rows[g],
        )
}

/// Whether `longer` starts with `list`.
pub open spec fn continues<T>(list: Seq<T>, longer: Seq<T>) -> bool {
    list.len() <= longer.len() && longer.take(list.len() as int) == list
}

/// A selected model as it is reported: it is concluded with the training and the validation
/// observations.
pub open spec fn described(
    selection: Selection,
    counts: ObservationCounts,
    coexact_tau_scale: Scalar,
) -> SelectedModel {
    SelectedModel {
        model: selection.model,
        selected: selection.selected,
        coexact_tau_scale,
        validation_nlpd: selection.validation_nlpd,
        training_count: (counts.training + counts.validation) as usize,
        validation_count: counts.validation,
        heldout_count: counts.heldout,
    }
}

/// The message for a tuned model without a finite score.
pub open spec fn no_score_message(model: PlanarHolesModelKind) -> Seq<char> {
    "no finite validation score for topology-vs-naive model "@ + model.name()
}

/// Counts the trials of a model.
fn count_trials(config: &PlanarHolesTopologyVsNaiveGpConfig, model: PlanarHolesModelKind) -> (count:
    usize)
    requires
        trials_fit(*config),
    ensures
        count == trial_count(*config, model),
{
    let grids: (usize, usize) = match model {
        PlanarHolesModelKind::NaiveEuclideanVectorMatern => (
            config.naive_kappas.len(),
            config.naive_taus.len(),
        ),
        PlanarHolesModelKind::NondecomposedFeec => (
            config.hodge_kappas.len(),
            config.hodge_taus.len(),
        ),
        _ => {
            return 1;
        },
    };
    let scales: usize = config.observation_variance_scales.len();
    proof {
        assert(0 < trial_count(*config, model) <= usize::MAX);
        let pairs = grids.0 * grids.1;
        assert(scales > 0 && pairs <= pairs * scales) by (nonlinear_arith)
            requires
                0 < pairs * scales,
                0 <= pairs,
                0 <= scales,
        ;
    }
    grids.0 * grids.1 * scales
}

/// Gives the parameters of a trial of a model.
fn candidate_for(
    config: &PlanarHolesTopologyVsNaiveGpConfig,
    reference_tau: Scalar,
    model: PlanarHolesModelKind,
    number: usize,
) -> (candidate: Candidate)
    requires
        trials_fit(*config),
        number < trial_count(*config, model),
    ensures
        candidate == trial_candidate(*config, reference_tau, model, number as int),
{
    proof {
        assert(trial_count(*config, model) <= usize::MAX);
    }
    match model {
        PlanarHolesModelKind::NaiveEuclideanVectorMatern => candidate_of(
            &config.naive_kappas,
            &config.naive_taus,
            &config.observation_variance_scales,
            number,
        ),
        PlanarHolesModelKind::NondecomposedFeec => candidate_of(
            &config.hodge_kappas,
            &config.hodge_taus,
            &config.observation_variance_scales,
            number,
        ),
        _ => match fixed_reference_kappa(model, &config.base) {
            Some(kappa) => Candidate {
                kappa,
                tau: reference_tau,
                observation_variance_scale: Scalar { bits: UNSCALED },
            },
            None => Candidate {
                kappa: undefined_value(),
                tau: undefined_value(),
                observation_variance_scale: Scalar { bits: UNSCALED },
            },
        },
    }
}

/// Lists the scores of trials.
fn list_scores(trials: &Vec<Trial>) -> (scores: Vec<Scalar>)
    ensures
        scores@ == scores_of(trials@),
{
    let mut scores: Vec<Scalar> = Vec::new();
    while scores.len() < trials.len()
        invariant
            scores.len() <= trials.len(),
            forall|i: int| 0 <= i < scores.len() ==> #[trigger] scores@[i] == trials@[i].score,
        decreases trials.len() - scores.len(),
    {
        let next: usize = scores.len();
        scores.push(trials[next].score);
    }
    assert(scores@ =~= scores_of(trials@));
    scores
}

/// Makes the rows that report the candidates of a tuned model with their scores.
fn tuning_report(
    config: &PlanarHolesTopologyVsNaiveGpConfig,
    model: PlanarHolesModelKind,
    scores: &Vec<Scalar>,
) -> (rows: Vec<PlanarHolesTopologyVsNaiveGpTuningRow>)
    requires
        is_tuned(model),
        scores.len() == trial_count(*config, model),
    ensures
        rows.len() == scores.len(),
        forall|reference_tau: Scalar, i: int|
            #![trigger trial_candidate(*config, reference_tau, model, i)]
            0 <= i < rows.len() ==> reports_candidate(
                model,
                trial_candidate(*config, reference_tau, model, i),
                scores@[i],
                rows@[i],
            ),
{
    if model == PlanarHolesModelKind::NaiveEuclideanVectorMatern {
        tuning_rows(
            model,
            &config.naive_kappas,
            &config.naive_taus,
            &config.observation_variance_scales,
            scores,
        )
    } else {
        tuning_rows(
            model,
            &config.hodge_kappas,
            &config.hodge_taus,
            &config.observation_variance_scales,
            scores,
        )
    }
}

impl Comparison {
    /// The model that is tried.
    pub open spec fn tried(&self) -> PlanarHolesModelKind {
        self.models@[self.selections.len() as int]
    }

    /// Whether every model is tried before one is concluded, and what was selected and reported
    /// belongs to the models in their order.
    pub open spec fn wf(&self, config: PlanarHolesTopologyVsNaiveGpConfig) -> bool {
        &&& self.selections.len() <= self.models.len()
        &&& self.report.rows.len() <= self.models.len()
        &&& self.report.rows.len() > 0 ==> self.selections.len() == self.models.len()
        &&& if self.selections.len() < self.models.len() {
            self.trials.len() < trial_count(config, self.tried())
        } else {
            self.trials.len() == 0
        }
        &&& forall|i: int|
            0 <= i < self.selections.len() ==> (#[trigger] self.selections@[i]).model
                == self.models@[i]
        &&& forall|i: int|
            0 <= i < self.report.rows.len() ==> row_of(
                self.selections@[i],
                #[trigger] self.report.rows@[i],
            )
        &&& self.counts.training + self.counts.validation <= usize::MAX
    }

    /// What is to be done next.
    pub open spec fn due(&self, config: PlanarHolesTopologyVsNaiveGpConfig) -> ComparisonAction {
        if self.selections.len() < self.models.len() {
            ComparisonAction::Try {
                model: self.tried(),
                candidate: trial_candidate(
                    config,
                    self.reference_tau,
                    self.tried(),
                    self.trials.len() as int,
                ),
            }
        } else if self.report.rows.len() < self.models.len() {
            ComparisonAction::Conclude {
                selection: self.selections@[self.report.rows.len() as int],
            }
        } else {
            ComparisonAction::Done
        }
    }

    /// How many actions are still to be done.
    pub open spec fn remaining(&self, config: PlanarHolesTopologyVsNaiveGpConfig) -> int {
        trials_from(config, self.models@, self.selections.len() as int) - self.trials.len()
            + self.models.len() - self.report.rows.len()
    }

    /// Sets out on a comparison. `reference_tau` is the precision scale of the coexact branch.
    pub fn new(
        compared: ComparedModels,
        config: &PlanarHolesTopologyVsNaiveGpConfig,
        reference_tau: Scalar,
        counts: ObservationCounts,
        topology_summary: PlanarHolesTopologySummary,
        ranks: (usize, usize, usize),
    ) -> (comparison: Self)
        requires
            trials_fit(*config),
            counts.training + counts.validation <= usize::MAX,
        ensures
            comparison.wf(*config),
            comparison.models@ == compared.listed(),
            comparison.counts == counts,
            comparison.reference_tau == reference_tau,
            comparison.trials.len() == 0,
            comparison.selections.len() == 0,
            comparison.report.topology_summary == topology_summary,
            comparison.report.train_cycle_harmonic_pairing_rank == ranks.0,
            comparison.report.validation_cycle_harmonic_pairing_rank == ranks.1,
            comparison.report.heldout_cycle_harmonic_pairing_rank == ranks.2,
            comparison.report.rows.len() == 0,
            comparison.report.tuning_rows.len() == 0,
            comparison.report.calibration_rows.len() == 0,
            comparison.report.heldout_predictions.len() == 0,
            comparison.report.field_coverage_summaries.len() == 0,
    {
        let models = compared.models();
        proof {
            assert(trial_count(*config, models@[0]) > 0);
        }
        Comparison {
            models,
            counts,
            reference_tau,
            trials: Vec::new(),
            selections: Vec::new(),
            report: PlanarHolesTopologyVsNaiveGpResult {
                topology_summary,
                train_cycle_harmonic_pairing_rank: ranks.0,
                validation_cycle_harmonic_pairing_rank: ranks.1,
                heldout_cycle_harmonic_pairing_rank: ranks.2,
                rows: Vec::new(),
                tuning_rows: Vec::new(),
                calibration_rows: Vec::new(),
                heldout_predictions: Vec::new(),
                field_coverage_summaries: Vec::new(),
            },
        }
    }

    /// Says what is to be done next.
    pub fn next_action(&self, config: &PlanarHolesTopologyVsNaiveGpConfig) -> (action:
        ComparisonAction)
        requires
            self.wf(*config),
            trials_fit(*config),
        ensures
            action == self.due(*config),
    {
        if self.selections.len() < self.models.len() {
            let model = self.models[self.selections.len()];
            let candidate = candidate_for(config, self.reference_tau, model, self.trials.len());
            ComparisonAction::Try { model, candidate }
        } else if self.report.rows.len() < self.models.len() {
            ComparisonAction::Conclude { selection: self.selections[self.report.rows.len()] }
        } else {
            ComparisonAction::Done
        }
    }

    /// Takes in what the trial that was due gave. After the last trial of a model its parameters
    /// are selected; a tuned model without a finite score ends the comparison.
    pub fn record_trial(&mut self, config: &PlanarHolesTopologyVsNaiveGpConfig, trial: Trial) -> (result:
        Result<(), String>)
        requires
            old(self).wf(*config),
            trials_fit(*config),
            old(self).selections.len() < old(self).models.len(),
        ensures
            final(self).models@ == old(self).models@,
            final(self).counts == old(self).counts,
            final(self).reference_tau == old(self).reference_tau,
            ({
                let model = old(self).tried();
                let trials = old(self).trials@.push(trial);
                let complete = trials.len() == trial_count(*config, model);
                &&& result is Err <==> complete && is_tuned(model) && !any_finite(scores_of(trials))
                &&& result matches Err(message) ==> message@ == no_score_message(model)
                &&& result is Ok ==> {
                    &&& final(self).wf(*config)
                    &&& final(self).remaining(*config) == old(self).remaining(*config) - 1
                    &&& same_but_tuning(old(self).report, final(self).report)
                }
                &&& result is Ok && !complete ==> {
                    &&& final(self).trials@ == trials
                    &&& final(self).selections@ == old(self).selections@
                    &&& final(self).report.tuning_rows@ == old(self).report.tuning_rows@
                }
                &&& result is Ok && complete ==> {
                    &&& final(self).trials.len() == 0
                    &&& final(self).selections.len() == old(self).selections.len() + 1
                    &&& continues(old(self).selections@, final(self).selections@)
                    &&& is_selection(
                        *config,
                        old(self).reference_tau,
                        model,
                        trials,
                        final(self).selections@.last(),
                    )
                    &&& continues(
                        old(self).report.tuning_rows@,
                        final(self).report.tuning_rows@,
                    )
                    &&& if is_tuned(model) {
                        lists_tuning(
                            *config,
                            old(self).reference_tau,
                            model,
                            trials,
                            final(self).report.tuning_rows@.skip(
                                old(self).report.tuning_rows@.len() as int,
                            ),
                        )
                    } else {
                        final(self).report.tuning_rows@ == old(self).report.tuning_rows@
                    }
                }
            }),
    {
        let model = self.models[self.selections.len()];
        let count: usize = count_trials(config, model);
        let ghost trials = self.trials@.push(trial);
        let ghost before = *self;
        self.trials.push(trial);
        if self.trials.len() < count {
            return Ok(());
        }
        let number: usize = if matches!(
            model,
            PlanarHolesModelKind::NondecomposedFeec
                | PlanarHolesModelKind::NaiveEuclideanVectorMatern
        ) {
            let scores = list_scores(&self.trials);
            match select_tuned_model(model, config, &scores) {
                Ok((number, _)) => {
                    let mut rows = tuning_report(config, model, &scores);
                    let ghost added = rows@;
                    self.report.tuning_rows.append(&mut rows);
                    proof {
                        let all = self.report.tuning_rows@;
                        let start = before.report.tuning_rows@.len() as int;
                        assert(all.skip(start) =~= added);
                        assert(all.take(start) =~= before.report.tuning_rows@);
                        assert forall|i: int| 0 <= i < added.len() implies reports_candidate(
                            model,
                            trial_candidate(*config, before.reference_tau, model, i),
                            trials[i].score,
                            #[trigger] added[i],
                        ) by {
                            assert(scores@[i] == trials[i].score);
                        }
                    }
                    number
                },
                Err(message) => {
                    return Err(message);
                },
            }
        } else {
            assert(self.report.tuning_rows@.take(self.report.tuning_rows@.len() as int)
                =~= self.report.tuning_rows@);
            0
        };
        let selection = Selection {
            model,
            selected: candidate_for(config, self.reference_tau, model, number),
            validation_nlpd: self.trials[number].score,
            variance_multiplier: self.trials[number].variance_multiplier,
        };
        assert(is_chosen(model, trials, number as int));
        self.selections.push(selection);
        self.trials = Vec::new();
        proof {
            assert(self.selections@.take(before.selections@.len() as int) =~= before.selections@);
            let place = before.selections@.len() as int;
            assert(trials_from(*config, self.models@, place) == trial_count(*config, model)
                + trials_from(*config, self.models@, place + 1));
            if self.selections.len() < self.models.len() {
                assert(trial_count(*config, self.tried()) > 0);
            }
        }
        Ok(())
    }

    /// Takes in what conditioning the selected model that was due gave, and reports it.
    pub fn record_conclusion(
        &mut self,
        config: &PlanarHolesTopologyVsNaiveGpConfig,
        conclusion: Conclusion,
    )
        requires
            old(self).wf(*config),
            old(self).selections.len() == old(self).models.len(),
            old(self).report.rows.len() < old(self).models.len(),
            conclusion.stats.len() == occurring_kinds(conclusion.predictions@).len() + 1,
        ensures
            final(self).wf(*config),
            final(self).remaining(*config) == old(self).remaining(*config) - 1,
            final(self).models@ == old(self).models@,
            final(self).counts == old(self).counts,
            final(self).reference_tau == old(self).reference_tau,
            final(self).selections@ == old(self).selections@,
            ({
                let selection = old(self).selections@[old(self).report.rows.len() as int];
                &&& same_but_conclusions(old(self).report, final(self).report)
                &&& final(self).report.rows.len() == old(self).report.rows.len() + 1
                &&& continues(old(self).report.rows@, final(self).report.rows@)
                &&& reports_comparison(
                    described(selection, old(self).counts, conclusion.coexact_tau_scale),
                    conclusion.spectral@,
                    conclusion.errors,
                    conclusion.coverage@,
                    final(self).report.rows@.last(),
                )
                &&& continues(
                    old(self).report.calibration_rows@,
                    final(self).report.calibration_rows@,
                )
                &&& lists_calibration(
                    selection,
                    conclusion,
                    final(self).report.calibration_rows@.skip(
                        old(self).report.calibration_rows@.len() as int,
                    ),
                )
                &&& final(self).report.heldout_predictions@ == old(
                    self,
                ).report.heldout_predictions@ + conclusion.predictions@
                &&& final(self).report.field_coverage_summaries@ == old(
                    self,
                ).report.field_coverage_summaries@ + conclusion.coverage@
            }),
    {
        let ghost before = *self;
        let ghost given = conclusion;
        let selection: Selection = self.selections[self.report.rows.len()];
        let selected = SelectedModel {
            model: selection.model,
            selected: selection.selected,
            coexact_tau_scale: conclusion.coexact_tau_scale,
            validation_nlpd: selection.validation_nlpd,
            training_count: self.counts.training + self.counts.validation,
            validation_count: self.counts.validation,
            heldout_count: self.counts.heldout,
        };
        let row = topology_vs_naive_metric_row(
            selected,
            &conclusion.spectral,
            conclusion.errors,
            &conclusion.coverage,
        );
        let mut calibration = calibration_rows_for_predictions(
            selection.model,
            selection.variance_multiplier,
            &conclusion.predictions,
            &conclusion.stats,
        );
        let ghost added = calibration@;
        let mut predictions = conclusion.predictions;
        let mut coverage = conclusion.coverage;
        self.report.rows.push(row);
        self.report.calibration_rows.append(&mut calibration);
        self.report.heldout_predictions.append(&mut predictions);
        self.report.field_coverage_summaries.append(&mut coverage);
        proof {
            let start = before.report.calibration_rows@.len() as int;
            assert(self.report.calibration_rows@.skip(start) =~= added);
            assert(self.report.calibration_rows@.take(start) =~= before.report.calibration_rows@);
            assert(self.report.rows@.take(before.report.rows@.len() as int)
                =~= before.report.rows@);
        }
    }
}

/// Whether only the rows about tuning may differ.
pub open spec fn same_but_tuning(
    left: PlanarHolesTopologyVsNaiveGpResult,
    right: PlanarHolesTopologyVsNaiveGpResult,
) -> bool {
    &&& same_domain(left, right)
    &&& left.rows@ == right.rows@
    &&& left.calibration_rows@ == right.calibration_rows@
    &&& left.heldout_predictions@ == right.heldout_predictions@
    &&& left.field_coverage_summaries@ == right.field_coverage_summaries@
}

/// Whether only what is reported of concluded models may differ.
pub open spec fn same_but_conclusions(
    left: PlanarHolesTopologyVsNaiveGpResult,
    right: PlanarHolesTopologyVsNaiveGpResult,
) -> bool {
    &&& same_domain(left, right)
    &&& left.tuning_rows@ == right.tuning_rows@
}

/// Whether two reports are about the same mesh and the same ranks.
pub open spec fn same_domain(
    left: PlanarHolesTopologyVsNaiveGpResult,
    right: PlanarHolesTopologyVsNaiveGpResult,
) -> bool {
    &&& left.topology_summary == right.topology_summary
    &&& left.train_cycle_harmonic_pairing_rank == right.train_cycle_harmonic_pairing_rank
    &&& left.validation_cycle_harmonic_pairing_rank == right.validation_cycle_harmonic_pairing_rank
    &&& left.heldout_cycle_harmonic_pairing_rank == right.heldout_cycle_harmonic_pairing_rank
}

/// A comparison ends exactly when nothing remains to be done, and then every model has a row, in
/// the order of the models.
pub proof fn lemma_done(comparison: Comparison, config: PlanarHolesTopologyVsNaiveGpConfig)
    requires
        comparison.wf(config),
        trials_fit(config),
    ensures
        comparison.remaining(config) >= 0,
        comparison.due(config) == ComparisonAction::Done <==> comparison.remaining(config) == 0,
        comparison.due(config) == ComparisonAction::Done ==> comparison.report.rows.len()
            == comparison.models.len() && forall|i: int|
            0 <= i < comparison.models.len() ==> (#[trigger] comparison.report.rows@[i]).model
                == comparison.models@[i],
{
    let place = comparison.selections.len() as int;
    if place < comparison.models.len() {
        assert(trials_from(config, comparison.models@, place) == trial_count(
            config,
            comparison.tried(),
        ) + trials_from(config, comparison.models@, place + 1));
    } else {
        assert(trials_from(config, comparison.models@, place) == 0);
    }
}

/// What a study across the barrier reports.
#[derive(Debug)]
pub struct PlanarHolesBarrierTopologyVsNaiveGpResult {
    pub base: PlanarHolesTopologyVsNaiveGpResult,
    pub domain: PlanarHolesDomainKind,
    pub rows: Vec<PlanarHolesBarrierSummaryRow>,
}

/// The statistics of a model across the barrier.
#[derive(Debug, Clone, Copy, PartialEq, Eq, Structural)]
pub struct BarrierStats {
    pub local: CalibratedStats,
    pub path: CalibratedStats,
    pub hole_loop: CalibratedStats,
}

/// Reports a study across the barrier: a row for every model of the comparison.
pub fn barrier_result(
    base: PlanarHolesTopologyVsNaiveGpResult,
    counts: BarrierCounts,
    stats: &Vec<BarrierStats>,
) -> (result: PlanarHolesBarrierTopologyVsNaiveGpResult)
    requires
        stats.len() == base.rows.len(),
    ensures
        result.base == base,
        result.domain == PlanarHolesDomainKind::Barrier,
        result.rows.len() == base.rows.len(),
        forall|i: int|
            0 <= i < result.rows.len() ==> reports_barrier(
                base.rows@[i].model,
                counts,
                stats@[i].local,
                stats@[i].path,
                stats@[i].hole_loop,
                #[trigger] result.rows@[i],
            ),
{
    let mut rows: Vec<PlanarHolesBarrierSummaryRow> = Vec::new();
    while rows.len() < base.rows.len()
        invariant
            rows.len() <= base.rows.len(),
            stats.len() == base.rows.len(),
            forall|i: int|
                0 <= i < rows.len() ==> reports_barrier(
                    base.rows@[i].model,
                    counts,
                    stats@[i].local,
                    stats@[i].path,
                    stats@[i].hole_loop,
                    #[trigger] rows@[i],
                ),
        decreases base.rows.len() - rows.len(),
    {
        let next: usize = rows.len();
        let of_model: BarrierStats = stats[next];
        rows.push(
            barrier_summary_row(
                base.rows[next].model,
                counts,
                of_model.local,
                of_model.path,
                of_model.hole_loop,
            ),
        );
    }
    PlanarHolesBarrierTopologyVsNaiveGpResult { base, domain: PlanarHolesDomainKind::Barrier, rows }
}

/// What a study of pairs of paths reports.
#[derive(Debug)]
pub struct PlanarHolesPathHomologyTopologyVsNaiveGpResult {
    pub base: PlanarHolesTopologyVsNaiveGpResult,
    pub domain: PlanarHolesDomainKind,
    pub path_contrast_harmonic_pairing_rank: usize,
    pub rows: Vec<PlanarHolesPathHomologySummaryRow>,
}

/// The statistics of a model on pairs of paths.
#[derive(Debug, Clone, Copy, PartialEq, Eq, Structural)]
pub struct PathHomologyStats {
    pub path: CalibratedStats,
    pub contrast: CalibratedStats,
    pub hole_loop: CalibratedStats,
}

/// Reports a study of pairs of paths: a row for every model of the comparison.
pub fn path_homology_result(
    base: PlanarHolesTopologyVsNaiveGpResult,
    counts: PathPairCounts,
    stats: &Vec<PathHomologyStats>,
) -> (result: PlanarHolesPathHomologyTopologyVsNaiveGpResult)
    requires
        stats.len() == base.rows.len(),
    ensures
        result.base == base,
        result.domain == PlanarHolesDomainKind::Default,
        result.path_contrast_harmonic_pairing_rank == counts.contrast_rank,
        result.rows.len() == base.rows.len(),
        forall|i: int|
            0 <= i < result.rows.len() ==> reports_path_homology(
                base.rows@[i].model,
                counts,
                stats@[i].path,
                stats@[i].contrast,
                stats@[i].hole_loop,
                #[trigger] result.rows@[i],
            ),
{
    let mut rows: Vec<PlanarHolesPathHomologySummaryRow> = Vec::new();
    while rows.len() < base.rows.len()
        invariant
            rows.len() <= base.rows.len(),
            stats.len() == base.rows.len(),
            forall|i: int|
                0 <= i < rows.len() ==> reports_path_homology(
                    base.rows@[i].model,
                    counts,
                    stats@[i].path,
                    stats@[i].contrast,
                    stats@[i].hole_loop,
                    #[trigger] rows@[i],
                ),
        decreases base.rows.len() - rows.len(),
    {
        let next: usize = rows.len();
        let of_model: PathHomologyStats = stats[next];
        rows.push(
            path_homology_summary_row(
                base.rows[next].model,
                counts,
                of_model.path,
                of_model.contrast,
                of_model.hole_loop,
            ),
        );
    }
    PlanarHolesPathHomologyTopologyVsNaiveGpResult {
        base,
        domain: PlanarHolesDomainKind::Default,
        path_contrast_harmonic_pairing_rank: counts.contrast_rank,
        rows,
    }
}

} // verus!
