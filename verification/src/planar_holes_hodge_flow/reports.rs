//! The rows that report how models fit, from the values that were computed for them.

use super::designs::SensorDesignCounts;
use super::hole_cycles::PlanarHoleCycle;
use super::kinds::{
    PlanarHolesCodifferentialMetricKind, PlanarHolesFieldCoverageSubset,
    PlanarHolesLoopFunctionalKind, PlanarHolesModelKind, PlanarHolesObservationScenario,
    PlanarHolesSensorDesignKind, PlanarHolesSpectralTruthFamily,
};
use super::models::{candidate_at, candidate_of, Candidate};
use super::observation::PlanarHolesObservation;
use super::spectral_plans::{PriorComparison, ProjectionStage};
use super::summaries::{
    calibration_groups, choose_codifferential_metric, coverage_of, field_coverage_value,
    interval_covers, occurring_kinds, within,
};
use super::tables::{
    PlanarHolesBarrierSummaryRow, PlanarHolesBranchRecoverySummary, PlanarHolesFieldCoverageSummary,
    PlanarHolesHeldoutPrediction, PlanarHolesLoopFunctionalSummary, PlanarHolesModelMetrics,
    PlanarHolesPathHomologySummaryRow, PlanarHolesPeriodSummary, PlanarHolesPriorEquivalenceRow,
    PlanarHolesSensorDesignSweepRow, PlanarHolesSpectralBranchDiagnostic,
    PlanarHolesSpectralEnergyDiagnostic, PlanarHolesSpectralTruthCompatibilityRow,
    PlanarHolesTopologyVsNaiveGpCalibrationRow, PlanarHolesTopologyVsNaiveGpMetricRow,
    PlanarHolesTopologyVsNaiveGpTuningRow, PlanarHolesVectorFieldFigureSummaryRow,
};
use crate::hodge::{has_branch, HodgeBranchKind};
use crate::scalar::{Scalar, SIGN_BIT};
use crate::text::{count_text, decimal};
use vstd::prelude::*;

verus! {

/// The encoding of the number that stands for an undefined value.
pub const UNDEFINED_BITS: u64 = 0x7ff8_0000_0000_0000;

/// The double next to the largest denominator that counts as zero.
pub const ZERO_DENOMINATOR_BITS: u64 = 0x3ddb_7cdf_d9d7_bdbb;

/// The double next to 1.96, the half width of a 95 percent interval in deviations.
pub const INTERVAL_WIDTH_BITS: u64 = 0x3fff_5c28_f5c2_8f5c;

/// The number that stands for an undefined value, which is not a number.
pub open spec fn undefined() -> Scalar {
    Scalar { bits: UNDEFINED_BITS }
}

/// Gives the value that stands for nothing.
pub(crate) fn undefined_value() -> (value: Scalar)
    ensures
        value == undefined(),
{
    Scalar { bits: UNDEFINED_BITS }
}

/// Whether a number is finite and not next to zero.
pub open spec fn divides(denominator: Scalar) -> bool {
    denominator.finite() && denominator.magnitude() > ZERO_DENOMINATOR_BITS
}

/// Tests whether quotients with a denominator count.
pub fn is_denominator(denominator: Scalar) -> (yes: bool)
    ensures
        yes == divides(denominator),
{
    let magnitude: u64 = if denominator.bits < SIGN_BIT {
        denominator.bits
    } else {
        denominator.bits - SIGN_BIT
    };
    denominator.is_finite() && magnitude > ZERO_DENOMINATOR_BITS
}

/// A quotient where its denominator is finite and not next to zero, and undefined otherwise.
pub open spec fn relative(quotient: Scalar, denominator: Scalar) -> Scalar {
    if divides(denominator) {
        quotient
    } else {
        undefined()
    }
}

/// Keeps a quotient where its denominator is finite and not next to zero.
pub fn relative_or_nan(quotient: Scalar, denominator: Scalar) -> (value: Scalar)
    ensures
        value == relative(quotient, denominator),
{
    if is_denominator(denominator) {
        quotient
    } else {
        undefined_value()
    }
}

/// A correlation where both norms are above what counts as zero, and undefined otherwise.
pub open spec fn correlation(quotient: Scalar, left: Scalar, right: Scalar) -> Scalar {
    if (Scalar { bits: ZERO_DENOMINATOR_BITS }).lt(left) && (Scalar {
        bits: ZERO_DENOMINATOR_BITS,
    }).lt(right) {
        quotient
    } else {
        undefined()
    }
}

/// Keeps a correlation where both norms are above what counts as zero.
pub fn mass_correlation(quotient: Scalar, left: Scalar, right: Scalar) -> (value: Scalar)
    ensures
        value == correlation(quotient, left, right),
{
    let least = Scalar { bits: ZERO_DENOMINATOR_BITS };
    if least.less_than(left) && least.less_than(right) {
        quotient
    } else {
        undefined_value()
    }
}

/// The root of the ratio of two energies where both are finite and positive, and undefined
/// otherwise.
pub open spec fn matching_scale(root: Scalar, current: Scalar, target: Scalar) -> Scalar {
    if current.positive() && target.positive() {
        root
    } else {
        undefined()
    }
}

/// Keeps the scale that matches two energies where both are finite and positive.
pub fn required_tau_scale(root: Scalar, current: Scalar, target: Scalar) -> (scale: Scalar)
    ensures
        scale == matching_scale(root, current, target),
{
    if current.is_positive() && target.is_positive() {
        root
    } else {
        undefined_value()
    }
}

/// A value that was found, or the undefined one.
pub open spec fn found_or_undefined(value: Option<Scalar>) -> Scalar {
    match value {
        Some(found) => found,
        None => undefined(),
    }
}

fn or_undefined(value: Option<Scalar>) -> (result: Scalar)
    ensures
        result == found_or_undefined(value),
{
    match value {
        Some(found) => found,
        None => undefined_value(),
    }
}

/// What a posterior says of a number whose true value is known.
#[derive(Debug, Clone, Copy, PartialEq, Eq, Structural)]
pub struct Estimate {
    pub truth: Scalar,
    pub mean: Scalar,
    pub deviation: Scalar,
    pub lower: Scalar,
    pub upper: Scalar,
    pub residual: Scalar,
    /// The size of the residual divided by the deviation.
    pub scaled_residual: Scalar,
}

/// Whether a row reports the flow along a cycle.
pub open spec fn reports_period(
    scenario: PlanarHolesObservationScenario,
    model: PlanarHolesModelKind,
    cycle: PlanarHoleCycle,
    estimate: Estimate,
    row: PlanarHolesPeriodSummary,
) -> bool {
    &&& row.scenario == scenario
    &&& row.model == model
    &&& row.hole_index == cycle.hole_index
    &&& row.hole_name@ == cycle.name@
    &&& row.truth_period == estimate.truth
    &&& row.posterior_mean == estimate.mean
    &&& row.posterior_std == estimate.deviation
    &&& row.posterior_lower_95 == estimate.lower
    &&& row.posterior_upper_95 == estimate.upper
    &&& row.residual == estimate.residual
    &&& row.abs_residual_over_std == relative(estimate.scaled_residual, estimate.deviation)
    &&& row.covered_95 == within(estimate.truth, estimate.lower, estimate.upper)
}

/// Makes the rows of the flows along the cycles.
pub fn period_summaries(
    scenario: PlanarHolesObservationScenario,
    model: PlanarHolesModelKind,
    cycles: &Vec<PlanarHoleCycle>,
    estimates: &Vec<Estimate>,
) -> (rows: Vec<PlanarHolesPeriodSummary>)
    requires
        estimates.len() >= cycles.len(),
    ensures
        rows.len() == cycles.len(),
        forall|i: int|
            0 <= i < rows.len() ==> reports_period(
                scenario,
                model,
                cycles@[i],
                estimates@[i],
                #[trigger] rows@[i],
            ),
{
    let mut rows: Vec<PlanarHolesPeriodSummary> = Vec::new();
    let mut index: usize = 0;
    while index < cycles.len()
        invariant
            index <= cycles.len(),
            estimates.len() >= cycles.len(),
            rows.len() == index,
            forall|i: int|
                0 <= i < rows.len() ==> reports_period(
                    scenario,
                    model,
                    cycles@[i],
                    estimates@[i],
                    #[trigger] rows@[i],
                ),
        decreases cycles.len() - index,
    {
        let cycle: &PlanarHoleCycle = &cycles[index];
        let estimate: Estimate = estimates[index];
        rows.push(
            PlanarHolesPeriodSummary {
                scenario,
                model,
                hole_index: cycle.hole_index,
                hole_name: String::from_str(cycle.name.as_str()),
                truth_period: estimate.truth,
                posterior_mean: estimate.mean,
                posterior_std: estimate.deviation,
                posterior_lower_95: estimate.lower,
                posterior_upper_95: estimate.upper,
                residual: estimate.residual,
                abs_residual_over_std: relative_or_nan(estimate.scaled_residual, estimate.deviation),
                covered_95: interval_covers(estimate.truth, estimate.lower, estimate.upper),
            },
        );
        index = index + 1;
    }
    rows
}

/// Whether a row reports a functional of a cycle.
pub open spec fn reports_functional(
    scenario: PlanarHolesObservationScenario,
    model: PlanarHolesModelKind,
    functional: PlanarHolesLoopFunctionalKind,
    cycle: PlanarHoleCycle,
    estimate: Estimate,
    row: PlanarHolesLoopFunctionalSummary,
) -> bool {
    &&& row.scenario == scenario
    &&& row.model == model
    &&& row.functional == functional
    &&& row.hole_index == cycle.hole_index
    &&& row.hole_name@ == cycle.name@
    &&& row.truth_value == estimate.truth
    &&& row.posterior_mean == estimate.mean
    &&& row.posterior_std == estimate.deviation
    &&& row.posterior_lower_95 == estimate.lower
    &&& row.posterior_upper_95 == estimate.upper
    &&& row.residual == estimate.residual
    &&& row.abs_residual_over_std == relative(estimate.scaled_residual, estimate.deviation)
    &&& row.covered_95 == within(estimate.truth, estimate.lower, estimate.upper)
}

/// Makes the rows of a functional of the cycles.
pub fn loop_functional_rows_from_values(
    scenario: PlanarHolesObservationScenario,
    model: PlanarHolesModelKind,
    functional: PlanarHolesLoopFunctionalKind,
    cycles: &Vec<PlanarHoleCycle>,
    estimates: &Vec<Estimate>,
) -> (rows: Vec<PlanarHolesLoopFunctionalSummary>)
    requires
        estimates.len() >= cycles.len(),
    ensures
        rows.len() == cycles.len(),
        forall|i: int|
            0 <= i < rows.len() ==> reports_functional(
                scenario,
                model,
                functional,
                cycles@[i],
                estimates@[i],
                #[trigger] rows@[i],
            ),
{
    let mut rows: Vec<PlanarHolesLoopFunctionalSummary> = Vec::new();
    let mut index: usize = 0;
    while index < cycles.len()
        invariant
            index <= cycles.len(),
            estimates.len() >= cycles.len(),
            rows.len() == index,
            forall|i: int|
                0 <= i < rows.len() ==> reports_functional(
                    scenario,
                    model,
                    functional,
                    cycles@[i],
                    estimates@[i],
                    #[trigger] rows@[i],
                ),
        decreases cycles.len() - index,
    {
        let cycle: &PlanarHoleCycle = &cycles[index];
        let estimate: Estimate = estimates[index];
        rows.push(
            PlanarHolesLoopFunctionalSummary {
                scenario,
                model,
                functional,
                hole_index: cycle.hole_index,
                hole_name: String::from_str(cycle.name.as_str()),
                truth_value: estimate.truth,
                posterior_mean: estimate.mean,
                posterior_std: estimate.deviation,
                posterior_lower_95: estimate.lower,
                posterior_upper_95: estimate.upper,
                residual: estimate.residual,
                abs_residual_over_std: relative_or_nan(estimate.scaled_residual, estimate.deviation),
                covered_95: interval_covers(estimate.truth, estimate.lower, estimate.upper),
            },
        );
        index = index + 1;
    }
    rows
}

/// The functionals of the cycles that are reported of a model with the given branches.
pub open spec fn reported_functionals(branches: Seq<HodgeBranchKind>) -> Seq<
    PlanarHolesLoopFunctionalKind,
> {
    let total = seq![PlanarHolesLoopFunctionalKind::TotalAnnular];
    let harmonic = if branches.contains(HodgeBranchKind::Harmonic) {
        total.push(PlanarHolesLoopFunctionalKind::HarmonicPeriod)
    } else {
        total
    };
    if branches.contains(HodgeBranchKind::Coexact) {
        harmonic.push(PlanarHolesLoopFunctionalKind::CoexactAnnular)
    } else {
        harmonic
    }
}

/// Lists the functionals of the cycles that are reported of a model with the given branches: the
/// flow between the cycles, and those of its harmonic and its coexact part where it has them.
pub fn loop_functionals(branches: &Vec<HodgeBranchKind>) -> (functionals: Vec<
    PlanarHolesLoopFunctionalKind,
>)
    ensures
        functionals@ == reported_functionals(branches@),
{
    let mut functionals: Vec<PlanarHolesLoopFunctionalKind> = vec![
        PlanarHolesLoopFunctionalKind::TotalAnnular,
    ];
    if has_branch(branches, HodgeBranchKind::Harmonic) {
        functionals.push(PlanarHolesLoopFunctionalKind::HarmonicPeriod);
    }
    if has_branch(branches, HodgeBranchKind::Coexact) {
        functionals.push(PlanarHolesLoopFunctionalKind::CoexactAnnular);
    }
    assert(functionals@ =~= reported_functionals(branches@));
    functionals
}

/// The rows that a functional of the cycles is taken along.
#[derive(Debug, Clone, Copy, PartialEq, Eq, Structural)]
pub enum FunctionalRows {
    /// The cycles for training.
    Train,
    /// The held-out cycles without those for training.
    Annular,
}

/// Says of which branch a functional is, none standing for the whole field, and along which rows
/// it is taken.
pub fn functional_subject(functional: PlanarHolesLoopFunctionalKind) -> (subject: (
    Option<HodgeBranchKind>,
    FunctionalRows,
))
    ensures
        match functional {
            PlanarHolesLoopFunctionalKind::TotalAnnular => subject == (
                None::<HodgeBranchKind>,
                FunctionalRows::Annular,
            ),
            PlanarHolesLoopFunctionalKind::HarmonicPeriod => subject == (
                Some(HodgeBranchKind::Harmonic),
                FunctionalRows::Train,
            ),
            PlanarHolesLoopFunctionalKind::CoexactAnnular => subject == (
                Some(HodgeBranchKind::Coexact),
                FunctionalRows::Annular,
            ),
        },
{
    match functional {
        PlanarHolesLoopFunctionalKind::TotalAnnular => (None, FunctionalRows::Annular),
        PlanarHolesLoopFunctionalKind::HarmonicPeriod => (
            Some(HodgeBranchKind::Harmonic),
            FunctionalRows::Train,
        ),
        PlanarHolesLoopFunctionalKind::CoexactAnnular => (
            Some(HodgeBranchKind::Coexact),
            FunctionalRows::Annular,
        ),
    }
}

/// The functional of a single branch is reported of a model if and only if the model has the branch,
/// that of the whole field always.
pub proof fn lemma_functional_branch(
    branches: Seq<HodgeBranchKind>,
    functional: PlanarHolesLoopFunctionalKind,
)
    ensures
        reported_functionals(branches).contains(functional) <==> match functional {
            PlanarHolesLoopFunctionalKind::TotalAnnular => true,
            PlanarHolesLoopFunctionalKind::HarmonicPeriod => branches.contains(
                HodgeBranchKind::Harmonic,
            ),
            PlanarHolesLoopFunctionalKind::CoexactAnnular => branches.contains(
                HodgeBranchKind::Coexact,
            ),
        },
{
    let reported = reported_functionals(branches);
    assert(reported[0] == PlanarHolesLoopFunctionalKind::TotalAnnular);
    if branches.contains(HodgeBranchKind::Harmonic) {
        assert(reported[1] == PlanarHolesLoopFunctionalKind::HarmonicPeriod);
    }
    if branches.contains(HodgeBranchKind::Coexact) {
        assert(reported.last() == PlanarHolesLoopFunctionalKind::CoexactAnnular);
    }
}

/// What a posterior predicts of an observation, and what was observed.
#[derive(Debug, Clone, Copy, PartialEq, Eq, Structural)]
pub struct Predicted {
    pub observed: Scalar,
    pub truth: Scalar,
    pub mean: Scalar,
    pub variance: Scalar,
    pub nlpd: Scalar,
}

/// Whether a row reports the prediction of an observation.
pub open spec fn reports_prediction(
    scenario: PlanarHolesObservationScenario,
    model: PlanarHolesModelKind,
    observation: PlanarHolesObservation,
    value: Predicted,
    row: PlanarHolesHeldoutPrediction,
) -> bool {
    &&& row.scenario == scenario
    &&& row.model == model
    &&& row.kind == observation.kind
    &&& row.label@ == observation.label@
    &&& row.observed_value == value.observed
    &&& row.truth_value == value.truth
    &&& row.predictive_mean == value.mean
    &&& row.predictive_variance == value.variance
    &&& row.nlpd == value.nlpd
}

/// Makes the rows of the predictions of what was held out.
pub fn heldout_predictions(
    scenario: PlanarHolesObservationScenario,
    model: PlanarHolesModelKind,
    heldout: &Vec<PlanarHolesObservation>,
    values: &Vec<Predicted>,
) -> (rows: Vec<PlanarHolesHeldoutPrediction>)
    requires
        values.len() >= heldout.len(),
    ensures
        rows.len() == heldout.len(),
        forall|i: int|
            0 <= i < rows.len() ==> reports_prediction(
                scenario,
                model,
                heldout@[i],
                values@[i],
                #[trigger] rows@[i],
            ),
{
    let mut rows: Vec<PlanarHolesHeldoutPrediction> = Vec::new();
    let mut index: usize = 0;
    while index < heldout.len()
        invariant
            index <= heldout.len(),
            values.len() >= heldout.len(),
            rows.len() == index,
            forall|i: int|
                0 <= i < rows.len() ==> reports_prediction(
                    scenario,
                    model,
                    heldout@[i],
                    values@[i],
                    #[trigger] rows@[i],
                ),
        decreases heldout.len() - index,
    {
        let observation: &PlanarHolesObservation = &heldout[index];
        let value: Predicted = values[index];
        rows.push(
            PlanarHolesHeldoutPrediction {
                scenario,
                model,
                kind: observation.kind,
                label: String::from_str(observation.label.as_str()),
                observed_value: value.observed,
                truth_value: value.truth,
                predictive_mean: value.mean,
                predictive_variance: value.variance,
                nlpd: value.nlpd,
            },
        );
        index = index + 1;
    }
    rows
}

/// How a branch of the truth was recovered.
#[derive(Debug, Clone, Copy, PartialEq, Eq, Structural)]
pub struct BranchRecovery {
    pub branch: HodgeBranchKind,
    pub truth_norm: Scalar,
    pub posterior_norm: Scalar,
    pub error_norm: Scalar,
    /// The norm of the error divided by that of the truth.
    pub error_ratio: Scalar,
    /// The product of truth and posterior divided by their norms.
    pub product_ratio: Scalar,
}

/// Whether a row reports how a branch was recovered.
pub open spec fn reports_recovery(
    scenario: PlanarHolesObservationScenario,
    model: PlanarHolesModelKind,
    recovery: BranchRecovery,
    row: PlanarHolesBranchRecoverySummary,
) -> bool {
    &&& row.scenario == scenario
    &&& row.model == model
    &&& row.branch == recovery.branch
    &&& row.truth_mass_norm == recovery.truth_norm
    &&& row.posterior_mass_norm == recovery.posterior_norm
    &&& row.error_mass_norm == recovery.error_norm
    &&& row.relative_error == relative(recovery.error_ratio, recovery.truth_norm)
    &&& row.mass_correlation == correlation(recovery.product_ratio, recovery.truth_norm, recovery.posterior_norm)
}

/// The recoveries of a branch.
pub open spec fn of_branch(recoveries: Seq<BranchRecovery>, branch: HodgeBranchKind) -> Seq<
    BranchRecovery,
> {
    recoveries.filter(|recovery: BranchRecovery| recovery.branch == branch)
}

/// The recoveries in the order of the branches.
#[verifier::opaque]
pub open spec fn by_branch(recoveries: Seq<BranchRecovery>) -> Seq<BranchRecovery> {
    of_branch(recoveries, HodgeBranchKind::Exact) + of_branch(
        recoveries,
        HodgeBranchKind::Coexact,
    ) + of_branch(recoveries, HodgeBranchKind::Harmonic)
}

fn push_branch(recoveries: &Vec<BranchRecovery>, branch: HodgeBranchKind, ordered: &mut Vec<
    BranchRecovery,
>)
    ensures
        final(ordered)@ == old(ordered)@ + of_branch(recoveries@, branch),
{
    let ghost before = ordered@;
    let ghost wanted = |recovery: BranchRecovery| recovery.branch == branch;
    let mut index: usize = 0;
    proof {
        reveal(Seq::filter);
        assert(recoveries@.take(0).filter(wanted) =~= Seq::empty());
        assert(before + recoveries@.take(0).filter(wanted) =~= before);
    }
    while index < recoveries.len()
        invariant
            index <= recoveries.len(),
            wanted == (|recovery: BranchRecovery| recovery.branch == branch),
            ordered@ == before + recoveries@.take(index as int).filter(wanted),
        decreases recoveries.len() - index,
    {
        proof {
            reveal(Seq::filter);
            assert(recoveries@.take(index + 1).drop_last() =~= recoveries@.take(index as int));
            assert(recoveries@.take(index + 1).last() == recoveries@[index as int]);
        }
        if recoveries[index].branch == branch {
            ordered.push(recoveries[index]);
            assert(ordered@ =~= before + recoveries@.take(index + 1).filter(wanted));
        }
        index = index + 1;
    }
    assert(recoveries@.take(index as int) =~= recoveries@);
}

/// Makes the rows that report how the branches were recovered, in the order of the branches.
pub fn branch_recovery_summaries(
    scenario: PlanarHolesObservationScenario,
    model: PlanarHolesModelKind,
    recoveries: &Vec<BranchRecovery>,
) -> (rows: Vec<PlanarHolesBranchRecoverySummary>)
    ensures
        rows.len() == by_branch(recoveries@).len(),
        forall|i: int|
            0 <= i < rows.len() ==> reports_recovery(
                scenario,
                model,
                by_branch(recoveries@)[i],
                #[trigger] rows@[i],
            ),
{
    let mut ordered: Vec<BranchRecovery> = Vec::new();
    push_branch(recoveries, HodgeBranchKind::Exact, &mut ordered);
    push_branch(recoveries, HodgeBranchKind::Coexact, &mut ordered);
    push_branch(recoveries, HodgeBranchKind::Harmonic, &mut ordered);
    assert(ordered@ =~= by_branch(recoveries@)) by {
        reveal(by_branch);
    }
    let mut rows: Vec<PlanarHolesBranchRecoverySummary> = Vec::new();
    let mut index: usize = 0;
    while index < ordered.len()
        invariant
            index <= ordered.len(),
            rows.len() == index,
            forall|i: int|
                0 <= i < rows.len() ==> reports_recovery(
                    scenario,
                    model,
                    ordered@[i],
                    #[trigger] rows@[i],
                ),
        decreases ordered.len() - index,
    {
        let recovery: BranchRecovery = ordered[index];
        rows.push(
            PlanarHolesBranchRecoverySummary {
                scenario,
                model,
                branch: recovery.branch,
                truth_mass_norm: recovery.truth_norm,
                posterior_mass_norm: recovery.posterior_norm,
                error_mass_norm: recovery.error_norm,
                relative_error: relative_or_nan(recovery.error_ratio, recovery.truth_norm),
                mass_correlation: mass_correlation(recovery.product_ratio, recovery.truth_norm, recovery.posterior_norm),
            },
        );
        index = index + 1;
    }
    rows
}

/// How well intervals cover the edge values of a field.
#[derive(Debug, Clone, Copy, PartialEq, Eq, Structural)]
pub struct CoverageStatistics {
    pub coverage: Scalar,
    pub weighted_coverage: Scalar,
    pub mean_abs_z: Scalar,
    pub rms_z: Scalar,
    pub p95_abs_z: Scalar,
    pub mean_deviation: Scalar,
    pub weighted_mean_deviation: Scalar,
    pub latent_nlpd: Scalar,
}

/// The statistics where none were computed.
pub open spec fn no_statistics() -> CoverageStatistics {
    CoverageStatistics {
        coverage: undefined(),
        weighted_coverage: undefined(),
        mean_abs_z: undefined(),
        rms_z: undefined(),
        p95_abs_z: undefined(),
        mean_deviation: undefined(),
        weighted_mean_deviation: undefined(),
        latent_nlpd: undefined(),
    }
}

/// A set of edges with their weight, and the statistics where they were computed.
#[derive(Debug, Clone, Copy, PartialEq, Eq, Structural)]
pub struct SubsetCoverage {
    pub edge_count: usize,
    pub weight_sum: Scalar,
    pub statistics: Option<CoverageStatistics>,
}

/// Whether a row reports the coverage of a set of edges.
pub open spec fn reports_coverage(
    scenario: PlanarHolesObservationScenario,
    model: PlanarHolesModelKind,
    subset: PlanarHolesFieldCoverageSubset,
    coverage: SubsetCoverage,
    row: PlanarHolesFieldCoverageSummary,
) -> bool {
    let statistics = match coverage.statistics {
        Some(found) => found,
        None => no_statistics(),
    };
    &&& row.scenario == scenario
    &&& row.model == model
    &&& row.subset == subset
    &&& row.edge_count == coverage.edge_count
    &&& row.weight_sum == coverage.weight_sum
    &&& row.coverage_95 == statistics.coverage
    &&& row.mass_weighted_coverage_95 == statistics.weighted_coverage
    &&& row.mean_abs_z == statistics.mean_abs_z
    &&& row.rms_z == statistics.rms_z
    &&& row.p95_abs_z == statistics.p95_abs_z
    &&& row.mean_posterior_std == statistics.mean_deviation
    &&& row.mass_weighted_mean_posterior_std == statistics.weighted_mean_deviation
    &&& row.latent_nlpd == statistics.latent_nlpd
}

fn coverage_row(
    scenario: PlanarHolesObservationScenario,
    model: PlanarHolesModelKind,
    subset: PlanarHolesFieldCoverageSubset,
    coverage: SubsetCoverage,
) -> (row: PlanarHolesFieldCoverageSummary)
    ensures
        reports_coverage(scenario, model, subset, coverage, row),
{
    let nothing: Scalar = undefined_value();
    let statistics: CoverageStatistics = match coverage.statistics {
        Some(found) => found,
        None => CoverageStatistics {
            coverage: nothing,
            weighted_coverage: nothing,
            mean_abs_z: nothing,
            rms_z: nothing,
            p95_abs_z: nothing,
            mean_deviation: nothing,
            weighted_mean_deviation: nothing,
            latent_nlpd: nothing,
        },
    };
    PlanarHolesFieldCoverageSummary {
        scenario,
        model,
        subset,
        edge_count: coverage.edge_count,
        weight_sum: coverage.weight_sum,
        coverage_95: statistics.coverage,
        mass_weighted_coverage_95: statistics.weighted_coverage,
        mean_abs_z: statistics.mean_abs_z,
        rms_z: statistics.rms_z,
        p95_abs_z: statistics.p95_abs_z,
        mean_posterior_std: statistics.mean_deviation,
        mass_weighted_mean_posterior_std: statistics.weighted_mean_deviation,
        latent_nlpd: statistics.latent_nlpd,
    }
}

/// Makes the rows that report the coverage of all edges and of those that were held out.
pub fn field_coverage_summaries(
    scenario: PlanarHolesObservationScenario,
    model: PlanarHolesModelKind,
    all: SubsetCoverage,
    heldout_local: SubsetCoverage,
) -> (rows: Vec<PlanarHolesFieldCoverageSummary>)
    ensures
        rows.len() == 2,
        reports_coverage(
            scenario,
            model,
            PlanarHolesFieldCoverageSubset::AllEdges,
            all,
            rows@[0],
        ),
        reports_coverage(
            scenario,
            model,
            PlanarHolesFieldCoverageSubset::HeldoutLocalEdges,
            heldout_local,
            rows@[1],
        ),
{
    let mut rows: Vec<PlanarHolesFieldCoverageSummary> = Vec::new();
    rows.push(coverage_row(scenario, model, PlanarHolesFieldCoverageSubset::AllEdges, all));
    rows.push(
        coverage_row(
            scenario,
            model,
            PlanarHolesFieldCoverageSubset::HeldoutLocalEdges,
            heldout_local,
        ),
    );
    rows
}

/// The number of the first `count` scores that lie within a 95 percent interval.
pub open spec fn scores_within(scores: Seq<Scalar>, count: int) -> nat
    decreases count,
{
    if count <= 0 {
        0
    } else {
        scores_within(scores, count - 1) + if scores[count - 1].le(
            Scalar { bits: INTERVAL_WIDTH_BITS },
        ) {
            1nat
        } else {
            0
        }
    }
}

/// Counts the scores that lie within a 95 percent interval.
pub fn covered_count(scores: &Vec<Scalar>) -> (covered: usize)
    ensures
        covered == scores_within(scores@, scores.len() as int),
        covered <= scores.len(),
{
    let mut covered: usize = 0;
    let mut index: usize = 0;
    while index < scores.len()
        invariant
            index <= scores.len(),
            covered == scores_within(scores@, index as int),
            covered <= index,
        decreases scores.len() - index,
    {
        if scores[index].at_most(Scalar { bits: INTERVAL_WIDTH_BITS }) {
            covered = covered + 1;
        }
        index = index + 1;
    }
    covered
}

/// How a set of predictions fits.
#[derive(Debug, Clone, Copy, PartialEq, Eq, Structural)]
pub struct PredictionKindStats {
    pub count: usize,
    pub mean_nlpd: Scalar,
    pub relative_error: Scalar,
    pub coverage_95: Scalar,
    pub mean_abs_z: Scalar,
}

/// How a set of predictions fits, with the norm of the truth.
#[derive(Debug, Clone, Copy, PartialEq, Eq, Structural)]
pub struct SubsetValues {
    pub mean_nlpd: Scalar,
    /// The norm of the residuals divided by that of the truth.
    pub error_ratio: Scalar,
    pub truth_norm: Scalar,
    pub coverage: Scalar,
    pub mean_abs_z: Scalar,
}

/// How a set of predictions fits; nothing is defined of an empty set.
pub open spec fn subset_stats(count: usize, values: SubsetValues) -> PredictionKindStats {
    if count == 0 {
        PredictionKindStats {
            count: 0,
            mean_nlpd: undefined(),
            relative_error: undefined(),
            coverage_95: undefined(),
            mean_abs_z: undefined(),
        }
    } else {
        PredictionKindStats {
            count,
            mean_nlpd: values.mean_nlpd,
            relative_error: relative(values.error_ratio, values.truth_norm),
            coverage_95: values.coverage,
            mean_abs_z: values.mean_abs_z,
        }
    }
}

/// Says how a set of predictions fits.
pub fn prediction_subset_stats(count: usize, values: SubsetValues) -> (stats: PredictionKindStats)
    ensures
        stats == subset_stats(count, values),
{
    if count == 0 {
        let nothing: Scalar = undefined_value();
        PredictionKindStats {
            count: 0,
            mean_nlpd: nothing,
            relative_error: nothing,
            coverage_95: nothing,
            mean_abs_z: nothing,
        }
    } else {
        PredictionKindStats {
            count,
            mean_nlpd: values.mean_nlpd,
            relative_error: relative_or_nan(values.error_ratio, values.truth_norm),
            coverage_95: values.coverage,
            mean_abs_z: values.mean_abs_z,
        }
    }
}

/// How a set of predictions fits before and after its variances are calibrated.
#[derive(Debug, Clone, Copy, PartialEq, Eq, Structural)]
pub struct CalibratedStats {
    pub raw: PredictionKindStats,
    pub calibrated: PredictionKindStats,
}

/// The name of a group of predictions.
pub open spec fn group_name(predictions: Seq<PlanarHolesHeldoutPrediction>, group: int) -> Seq<char> {
    if group == 0 {
        "all"@
    } else {
        occurring_kinds(predictions)[group - 1].name()
    }
}

/// Whether a row reports how a group of predictions fits.
pub open spec fn reports_calibration(
    model: PlanarHolesModelKind,
    name: Seq<char>,
    variance_multiplier: Scalar,
    stats: CalibratedStats,
    row: PlanarHolesTopologyVsNaiveGpCalibrationRow,
) -> bool {
    &&& row.model == model
    &&& row.kind@ == name
    &&& row.count == stats.raw.count
    &&& row.variance_multiplier == variance_multiplier
    &&& row.raw_nlpd == stats.raw.mean_nlpd
    &&& row.calibrated_nlpd == stats.calibrated.mean_nlpd
    &&& row.raw_coverage_95 == stats.raw.coverage_95
    &&& row.calibrated_coverage_95 == stats.calibrated.coverage_95
    &&& row.raw_mean_abs_z == stats.raw.mean_abs_z
    &&& row.calibrated_mean_abs_z == stats.calibrated.mean_abs_z
    &&& row.relative_error == stats.raw.relative_error
}

/// Makes the rows that report how predictions fit: all of them, and then those of each kind that
/// occurs, in the order of the kinds.
pub fn calibration_rows_for_predictions(
    model: PlanarHolesModelKind,
    variance_multiplier: Scalar,
    predictions: &Vec<PlanarHolesHeldoutPrediction>,
    stats: &Vec<CalibratedStats>,
) -> (rows: Vec<PlanarHolesTopologyVsNaiveGpCalibrationRow>)
    requires
        stats.len() == occurring_kinds(predictions@).len() + 1,
    ensures
        rows.len() == stats.len(),
        forall|g: int|
            0 <= g < rows.len() ==> reports_calibration(
                model,
                group_name(predictions@, g),
                variance_multiplier,
                stats@[g],
                #[trigger] rows@[g],
            ),
{
    let groups = calibration_groups(predictions);
    let mut rows: Vec<PlanarHolesTopologyVsNaiveGpCalibrationRow> = Vec::new();
    let mut index: usize = 0;
    while index < groups.len()
        invariant
            index <= groups.len(),
            groups.len() == stats.len(),
            forall|g: int|
                0 <= g < groups.len() ==> (#[trigger] groups@[g]).name@ == group_name(
                    predictions@,
                    g,
                ),
            rows.len() == index,
            forall|g: int|
                0 <= g < rows.len() ==> reports_calibration(
                    model,
                    group_name(predictions@, g),
                    variance_multiplier,
                    stats@[g],
                    #[trigger] rows@[g],
                ),
        decreases groups.len() - index,
    {
        let both: CalibratedStats = stats[index];
        assert(groups@[index as int].name@ == group_name(predictions@, index as int));
        rows.push(
            PlanarHolesTopologyVsNaiveGpCalibrationRow {
                model,
                kind: String::from_str(groups[index].name),
                count: both.raw.count,
                variance_multiplier,
                raw_nlpd: both.raw.mean_nlpd,
                calibrated_nlpd: both.calibrated.mean_nlpd,
                raw_coverage_95: both.raw.coverage_95,
                calibrated_coverage_95: both.calibrated.coverage_95,
                raw_mean_abs_z: both.raw.mean_abs_z,
                calibrated_mean_abs_z: both.calibrated.mean_abs_z,
                relative_error: both.raw.relative_error,
            },
        );
        index = index + 1;
    }
    rows
}

/// Whether a row reports the score of a candidate.
pub open spec fn reports_candidate(
    model: PlanarHolesModelKind,
    candidate: Candidate,
    score: Scalar,
    row: PlanarHolesTopologyVsNaiveGpTuningRow,
) -> bool {
    &&& row.model == model
    &&& row.kappa == candidate.kappa
    &&& row.tau == candidate.tau
    &&& row.observation_variance_scale == candidate.observation_variance_scale
    &&& row.validation_nlpd == score
}

/// Makes the rows that report the scores of all candidates, in the order of their numbers.
pub fn tuning_rows(
    model: PlanarHolesModelKind,
    kappas: &Vec<Scalar>,
    taus: &Vec<Scalar>,
    scales: &Vec<Scalar>,
    scores: &Vec<Scalar>,
) -> (rows: Vec<PlanarHolesTopologyVsNaiveGpTuningRow>)
    requires
        scores.len() == kappas.len() * taus.len() * scales.len(),
    ensures
        rows.len() == scores.len(),
        forall|i: int|
            0 <= i < rows.len() ==> reports_candidate(
                model,
                candidate_at(kappas@, taus@, scales@, i),
                scores@[i],
                #[trigger] rows@[i],
            ),
{
    let mut rows: Vec<PlanarHolesTopologyVsNaiveGpTuningRow> = Vec::new();
    let mut index: usize = 0;
    while index < scores.len()
        invariant
            index <= scores.len(),
            scores.len() == kappas.len() * taus.len() * scales.len(),
            rows.len() == index,
            forall|i: int|
                0 <= i < rows.len() ==> reports_candidate(
                    model,
                    candidate_at(kappas@, taus@, scales@, i),
                    scores@[i],
                    #[trigger] rows@[i],
                ),
        decreases scores.len() - index,
    {
        let candidate: Candidate = candidate_of(kappas, taus, scales, index);
        rows.push(
            PlanarHolesTopologyVsNaiveGpTuningRow {
                model,
                kappa: candidate.kappa,
                tau: candidate.tau,
                observation_variance_scale: candidate.observation_variance_scale,
                validation_nlpd: scores[index],
            },
        );
        index = index + 1;
    }
    rows
}

/// The numbers of edges that the sides of a barrier have.
#[derive(Debug, Clone, Copy, PartialEq, Eq, Structural)]
pub struct BarrierCounts {
    pub train_left: usize,
    pub validation_left: usize,
    pub heldout_right: usize,
}

/// Whether a row reports the statistics of a model across the barrier.
pub open spec fn reports_barrier(
    model: PlanarHolesModelKind,
    counts: BarrierCounts,
    local: CalibratedStats,
    path: CalibratedStats,
    hole_loop: CalibratedStats,
    row: PlanarHolesBarrierSummaryRow,
) -> bool {
    &&& row.model == model
    &&& row.train_left_edge_count == counts.train_left
    &&& row.validation_left_edge_count == counts.validation_left
    &&& row.heldout_right_edge_count == counts.heldout_right
    &&& row.heldout_cross_barrier_path_count == path.raw.count
    &&& row.cross_barrier_local_nlpd == local.raw.mean_nlpd
    &&& row.cross_barrier_local_relative_error == local.raw.relative_error
    &&& row.barrier_long_path_nlpd == path.raw.mean_nlpd
    &&& row.barrier_long_path_relative_error == path.raw.relative_error
    &&& row.hole_loop_nlpd == hole_loop.raw.mean_nlpd
    &&& row.hole_loop_relative_error == hole_loop.raw.relative_error
    &&& row.cross_barrier_local_coverage_95 == local.raw.coverage_95
    &&& row.barrier_long_path_coverage_95 == path.raw.coverage_95
    &&& row.hole_loop_coverage_95 == hole_loop.raw.coverage_95
    &&& row.calibrated_cross_barrier_local_nlpd == local.calibrated.mean_nlpd
    &&& row.calibrated_barrier_long_path_nlpd == path.calibrated.mean_nlpd
    &&& row.calibrated_hole_loop_nlpd == hole_loop.calibrated.mean_nlpd
    &&& row.calibrated_cross_barrier_local_coverage_95 == local.calibrated.coverage_95
    &&& row.calibrated_barrier_long_path_coverage_95 == path.calibrated.coverage_95
    &&& row.calibrated_hole_loop_coverage_95 == hole_loop.calibrated.coverage_95
}

/// Makes the row that reports how a model predicts across a barrier: single edges, long paths
/// and loops around holes, before and after calibration.
pub fn barrier_summary_row(
    model: PlanarHolesModelKind,
    counts: BarrierCounts,
    local: CalibratedStats,
    path: CalibratedStats,
    hole_loop: CalibratedStats,
) -> (row: PlanarHolesBarrierSummaryRow)
    ensures
        reports_barrier(model, counts, local, path, hole_loop, row),
{
    PlanarHolesBarrierSummaryRow {
        model,
        train_left_edge_count: counts.train_left,
        validation_left_edge_count: counts.validation_left,
        heldout_right_edge_count: counts.heldout_right,
        heldout_cross_barrier_path_count: path.raw.count,
        cross_barrier_local_nlpd: local.raw.mean_nlpd,
        cross_barrier_local_relative_error: local.raw.relative_error,
        barrier_long_path_nlpd: path.raw.mean_nlpd,
        barrier_long_path_relative_error: path.raw.relative_error,
        hole_loop_nlpd: hole_loop.raw.mean_nlpd,
        hole_loop_relative_error: hole_loop.raw.relative_error,
        cross_barrier_local_coverage_95: local.raw.coverage_95,
        barrier_long_path_coverage_95: path.raw.coverage_95,
        hole_loop_coverage_95: hole_loop.raw.coverage_95,
        calibrated_cross_barrier_local_nlpd: local.calibrated.mean_nlpd,
        calibrated_barrier_long_path_nlpd: path.calibrated.mean_nlpd,
        calibrated_hole_loop_nlpd: hole_loop.calibrated.mean_nlpd,
        calibrated_cross_barrier_local_coverage_95: local.calibrated.coverage_95,
        calibrated_barrier_long_path_coverage_95: path.calibrated.coverage_95,
        calibrated_hole_loop_coverage_95: hole_loop.calibrated.coverage_95,
    }
}

/// The numbers of pairs of paths around holes, and the rank of their contrasts.
#[derive(Debug, Clone, Copy, PartialEq, Eq, Structural)]
pub struct PathPairCounts {
    pub train: usize,
    pub validation: usize,
    pub heldout: usize,
    pub contrast_rank: usize,
}

/// Whether a row reports the statistics of a model on pairs of paths.
pub open spec fn reports_path_homology(
    model: PlanarHolesModelKind,
    counts: PathPairCounts,
    path: CalibratedStats,
    contrast: CalibratedStats,
    hole_loop: CalibratedStats,
    row: PlanarHolesPathHomologySummaryRow,
) -> bool {
    &&& row.model == model
    &&& row.train_path_pair_count == counts.train
    &&& row.validation_path_pair_count == counts.validation
    &&& row.heldout_path_pair_count == counts.heldout
    &&& row.path_integral_nlpd == path.raw.mean_nlpd
    &&& row.path_integral_relative_error == path.raw.relative_error
    &&& row.path_integral_coverage_95 == path.raw.coverage_95
    &&& row.path_contrast_nlpd == contrast.raw.mean_nlpd
    &&& row.path_contrast_relative_error == contrast.raw.relative_error
    &&& row.path_contrast_coverage_95 == contrast.raw.coverage_95
    &&& row.path_contrast_mean_abs_z == contrast.raw.mean_abs_z
    &&& row.hole_loop_nlpd == hole_loop.raw.mean_nlpd
    &&& row.hole_loop_relative_error == hole_loop.raw.relative_error
    &&& row.calibrated_path_integral_nlpd == path.calibrated.mean_nlpd
    &&& row.calibrated_path_integral_coverage_95 == path.calibrated.coverage_95
    &&& row.calibrated_path_contrast_nlpd == contrast.calibrated.mean_nlpd
    &&& row.calibrated_path_contrast_coverage_95 == contrast.calibrated.coverage_95
    &&& row.calibrated_path_contrast_mean_abs_z == contrast.calibrated.mean_abs_z
    &&& row.calibrated_hole_loop_nlpd == hole_loop.calibrated.mean_nlpd
    &&& row.calibrated_hole_loop_coverage_95 == hole_loop.calibrated.coverage_95
    &&& row.path_contrast_harmonic_pairing_rank == counts.contrast_rank
}

/// Makes the row that reports how a model predicts paths that pass holes on different sides: the
/// paths, their contrasts and loops around holes, before and after calibration.
pub fn path_homology_summary_row(
    model: PlanarHolesModelKind,
    counts: PathPairCounts,
    path: CalibratedStats,
    contrast: CalibratedStats,
    hole_loop: CalibratedStats,
) -> (row: PlanarHolesPathHomologySummaryRow)
    ensures
        reports_path_homology(model, counts, path, contrast, hole_loop, row),
{
    PlanarHolesPathHomologySummaryRow {
        model,
        train_path_pair_count: counts.train,
        validation_path_pair_count: counts.validation,
        heldout_path_pair_count: counts.heldout,
        path_integral_nlpd: path.raw.mean_nlpd,
        path_integral_relative_error: path.raw.relative_error,
        path_integral_coverage_95: path.raw.coverage_95,
        path_contrast_nlpd: contrast.raw.mean_nlpd,
        path_contrast_relative_error: contrast.raw.relative_error,
        path_contrast_coverage_95: contrast.raw.coverage_95,
        path_contrast_mean_abs_z: contrast.raw.mean_abs_z,
        hole_loop_nlpd: hole_loop.raw.mean_nlpd,
        hole_loop_relative_error: hole_loop.raw.relative_error,
        calibrated_path_integral_nlpd: path.calibrated.mean_nlpd,
        calibrated_path_integral_coverage_95: path.calibrated.coverage_95,
        calibrated_path_contrast_nlpd: contrast.calibrated.mean_nlpd,
        calibrated_path_contrast_coverage_95: contrast.calibrated.coverage_95,
        calibrated_path_contrast_mean_abs_z: contrast.calibrated.mean_abs_z,
        calibrated_hole_loop_nlpd: hole_loop.calibrated.mean_nlpd,
        calibrated_hole_loop_coverage_95: hole_loop.calibrated.coverage_95,
        path_contrast_harmonic_pairing_rank: counts.contrast_rank,
    }
}

/// The modes of a branch of a spectral model.
#[derive(Debug, Clone, Copy, PartialEq, Eq, Structural)]
pub struct SpectralBranchStats {
    pub branch: HodgeBranchKind,
    pub requested_mode_count: usize,
    pub actual_mode_count: usize,
    pub unnormalized_expected_m1_energy: Scalar,
    pub target_expected_m1_energy: Option<Scalar>,
    pub normalization_scale: Scalar,
    pub expected_m1_energy: Scalar,
}

/// The modes of the first entry of a branch, if it has one.
pub open spec fn branch_stats(stats: Seq<SpectralBranchStats>, branch: HodgeBranchKind) -> Option<
    SpectralBranchStats,
>
    decreases stats.len(),
{
    if stats.len() == 0 {
        None
    } else if stats[0].branch == branch {
        Some(stats[0])
    } else {
        branch_stats(stats.skip(1), branch)
    }
}

/// Finds the modes of a branch.
pub fn find_branch_stats(stats: &Vec<SpectralBranchStats>, branch: HodgeBranchKind) -> (found:
    Option<SpectralBranchStats>)
    ensures
        found == branch_stats(stats@, branch),
{
    let mut index: usize = 0;
    assert(stats@.skip(0) =~= stats@);
    while index < stats.len()
        invariant
            index <= stats.len(),
            branch_stats(stats@, branch) == branch_stats(stats@.skip(index as int), branch),
        decreases stats.len() - index,
    {
        assert(stats@.skip(index as int)[0] == stats@[index as int]);
        if stats[index].branch == branch {
            return Some(stats[index]);
        }
        assert(stats@.skip(index as int).skip(1) =~= stats@.skip(index + 1));
        index = index + 1;
    }
    None
}

/// The numbers of modes of a branch, none where a model has no such branch.
pub open spec fn mode_counts(stats: Option<SpectralBranchStats>) -> (usize, usize, Scalar) {
    match stats {
        Some(found) => (
            found.requested_mode_count,
            found.actual_mode_count,
            found.expected_m1_energy,
        ),
        None => (0, 0, undefined()),
    }
}

fn counts_of(stats: Option<SpectralBranchStats>) -> (counts: (usize, usize, Scalar))
    ensures
        counts == mode_counts(stats),
{
    match stats {
        Some(found) => (
            found.requested_mode_count,
            found.actual_mode_count,
            found.expected_m1_energy,
        ),
        None => (0, 0, undefined_value()),
    }
}

/// A model with the parameters that were selected for it.
#[derive(Debug, Clone, Copy, PartialEq, Eq, Structural)]
pub struct SelectedModel {
    pub model: PlanarHolesModelKind,
    pub selected: Candidate,
    pub coexact_tau_scale: Scalar,
    pub validation_nlpd: Scalar,
    pub training_count: usize,
    pub validation_count: usize,
    pub heldout_count: usize,
}

/// How a field and its derivatives were recovered, and how the predictions of kinds fit.
#[derive(Debug, Clone, Copy, PartialEq, Eq, Structural)]
pub struct ComparisonErrors {
    pub l2_error: Scalar,
    pub exterior_derivative_error: Scalar,
    pub codifferential_leakage: Scalar,
    pub heldout_nlpd: Scalar,
    pub local: PredictionKindStats,
    pub hole_loop: PredictionKindStats,
    pub interior_loop: PredictionKindStats,
    pub long_path: PredictionKindStats,
}

/// Whether a row reports a selected model with its errors and its coverage.
pub open spec fn reports_comparison(
    selection: SelectedModel,
    spectral: Seq<SpectralBranchStats>,
    errors: ComparisonErrors,
    coverage: Seq<PlanarHolesFieldCoverageSummary>,
    row: PlanarHolesTopologyVsNaiveGpMetricRow,
) -> bool {
    &&& row.model == selection.model
    &&& row.selected_kappa == selection.selected.kappa
    &&& row.selected_tau == selection.selected.tau
    &&& row.selected_observation_variance_scale == selection.selected.observation_variance_scale
    &&& row.model_coexact_tau_scale == selection.coexact_tau_scale
    &&& row.spectral_coexact_requested_modes
        == mode_counts(branch_stats(spectral, HodgeBranchKind::Coexact)).0
    &&& row.spectral_coexact_actual_modes
        == mode_counts(branch_stats(spectral, HodgeBranchKind::Coexact)).1
    &&& row.spectral_coexact_expected_m1_energy
        == mode_counts(branch_stats(spectral, HodgeBranchKind::Coexact)).2
    &&& row.spectral_harmonic_requested_modes
        == mode_counts(branch_stats(spectral, HodgeBranchKind::Harmonic)).0
    &&& row.spectral_harmonic_actual_modes
        == mode_counts(branch_stats(spectral, HodgeBranchKind::Harmonic)).1
    &&& row.spectral_harmonic_expected_m1_energy
        == mode_counts(branch_stats(spectral, HodgeBranchKind::Harmonic)).2
    &&& row.validation_nlpd == selection.validation_nlpd
    &&& row.training_observation_count == selection.training_count
    &&& row.validation_observation_count == selection.validation_count
    &&& row.heldout_observation_count == selection.heldout_count
    &&& row.l2_error == errors.l2_error
    &&& row.heldout_nlpd == errors.heldout_nlpd
    &&& row.heldout_local_nlpd == errors.local.mean_nlpd
    &&& row.heldout_loop_nlpd == errors.hole_loop.mean_nlpd
    &&& row.heldout_interior_loop_nlpd == errors.interior_loop.mean_nlpd
    &&& row.heldout_long_path_nlpd == errors.long_path.mean_nlpd
    &&& row.heldout_local_relative_error == errors.local.relative_error
    &&& row.heldout_loop_relative_error == errors.hole_loop.relative_error
    &&& row.heldout_interior_loop_relative_error == errors.interior_loop.relative_error
    &&& row.heldout_long_path_relative_error == errors.long_path.relative_error
    &&& row.exterior_derivative_error == errors.exterior_derivative_error
    &&& row.codifferential_leakage == errors.codifferential_leakage
    &&& row.all_edge_coverage_95 == found_or_undefined(
        coverage_of(coverage, selection.model, PlanarHolesFieldCoverageSubset::AllEdges),
    )
    &&& row.heldout_edge_coverage_95 == found_or_undefined(
        coverage_of(coverage, selection.model, PlanarHolesFieldCoverageSubset::HeldoutLocalEdges),
    )
}

/// Makes the row that reports how a model fits in a comparison of models.
pub fn topology_vs_naive_metric_row(
    selection: SelectedModel,
    spectral: &Vec<SpectralBranchStats>,
    errors: ComparisonErrors,
    coverage: &Vec<PlanarHolesFieldCoverageSummary>,
) -> (row: PlanarHolesTopologyVsNaiveGpMetricRow)
    ensures
        reports_comparison(selection, spectral@, errors, coverage@, row),
{
    let coexact = counts_of(find_branch_stats(spectral, HodgeBranchKind::Coexact));
    let harmonic = counts_of(find_branch_stats(spectral, HodgeBranchKind::Harmonic));
    PlanarHolesTopologyVsNaiveGpMetricRow {
        model: selection.model,
        selected_kappa: selection.selected.kappa,
        selected_tau: selection.selected.tau,
        selected_observation_variance_scale: selection.selected.observation_variance_scale,
        model_coexact_tau_scale: selection.coexact_tau_scale,
        spectral_coexact_requested_modes: coexact.0,
        spectral_coexact_actual_modes: coexact.1,
        spectral_coexact_expected_m1_energy: coexact.2,
        spectral_harmonic_requested_modes: harmonic.0,
        spectral_harmonic_actual_modes: harmonic.1,
        spectral_harmonic_expected_m1_energy: harmonic.2,
        validation_nlpd: selection.validation_nlpd,
        training_observation_count: selection.training_count,
        validation_observation_count: selection.validation_count,
        heldout_observation_count: selection.heldout_count,
        l2_error: errors.l2_error,
        heldout_nlpd: errors.heldout_nlpd,
        heldout_local_nlpd: errors.local.mean_nlpd,
        heldout_loop_nlpd: errors.hole_loop.mean_nlpd,
        heldout_interior_loop_nlpd: errors.interior_loop.mean_nlpd,
        heldout_long_path_nlpd: errors.long_path.mean_nlpd,
        heldout_local_relative_error: errors.local.relative_error,
        heldout_loop_relative_error: errors.hole_loop.relative_error,
        heldout_interior_loop_relative_error: errors.interior_loop.relative_error,
        heldout_long_path_relative_error: errors.long_path.relative_error,
        exterior_derivative_error: errors.exterior_derivative_error,
        codifferential_leakage: errors.codifferential_leakage,
        all_edge_coverage_95: or_undefined(
            field_coverage_value(
                coverage,
                selection.model,
                PlanarHolesFieldCoverageSubset::AllEdges,
            ),
        ),
        heldout_edge_coverage_95: or_undefined(
            field_coverage_value(
                coverage,
                selection.model,
                PlanarHolesFieldCoverageSubset::HeldoutLocalEdges,
            ),
        ),
    }
}

/// Makes the row of a model in the table beside the figure of vector fields.
pub fn vector_field_summary_row(
    metric: &PlanarHolesTopologyVsNaiveGpMetricRow,
    calibrated: PredictionKindStats,
    path: PredictionKindStats,
    contrast: PredictionKindStats,
    hole_loop: PredictionKindStats,
    posterior_vtu_path: String,
) -> (row: PlanarHolesVectorFieldFigureSummaryRow)
    ensures
        row.model == metric.model,
        row.l2_error == metric.l2_error,
        row.heldout_nlpd == metric.heldout_nlpd,
        row.calibrated_heldout_nlpd == calibrated.mean_nlpd,
        row.path_integral_relative_error == path.relative_error,
        row.path_contrast_relative_error == contrast.relative_error,
        row.hole_loop_relative_error == hole_loop.relative_error,
        row.codifferential_leakage == metric.codifferential_leakage,
        row.all_edge_coverage_95 == metric.all_edge_coverage_95,
        row.heldout_edge_coverage_95 == metric.heldout_edge_coverage_95,
        row.posterior_vtu_path@ == posterior_vtu_path@,
{
    PlanarHolesVectorFieldFigureSummaryRow {
        model: metric.model,
        l2_error: metric.l2_error,
        heldout_nlpd: metric.heldout_nlpd,
        calibrated_heldout_nlpd: calibrated.mean_nlpd,
        path_integral_relative_error: path.relative_error,
        path_contrast_relative_error: contrast.relative_error,
        hole_loop_relative_error: hole_loop.relative_error,
        codifferential_leakage: metric.codifferential_leakage,
        all_edge_coverage_95: metric.all_edge_coverage_95,
        heldout_edge_coverage_95: metric.heldout_edge_coverage_95,
        posterior_vtu_path,
    }
}

/// How a field and its branches were recovered under a sensor design, and how the predictions of
/// kinds fit.
#[derive(Debug, Clone, Copy, PartialEq, Eq, Structural)]
pub struct SweepErrors {
    pub l2_error: Scalar,
    pub codifferential_leakage: Scalar,
    pub local: PredictionKindStats,
    pub interior_loop: PredictionKindStats,
    pub long_path: PredictionKindStats,
    pub harmonic_period: PredictionKindStats,
    pub coexact: Option<BranchRecovery>,
    pub harmonic: Option<BranchRecovery>,
}

/// The relative error and the correlation of a branch, undefined where a model does not have it.
pub open spec fn recovery_pair(recovery: Option<BranchRecovery>) -> (Scalar, Scalar) {
    match recovery {
        Some(found) => (
            relative(found.error_ratio, found.truth_norm),
            correlation(found.product_ratio, found.truth_norm, found.posterior_norm),
        ),
        None => (undefined(), undefined()),
    }
}

/// Gives the relative error and the correlation of a branch.
pub fn branch_recovery_pair(recovery: Option<BranchRecovery>) -> (pair: (Scalar, Scalar))
    ensures
        pair == recovery_pair(recovery),
{
    match recovery {
        Some(found) => (
            relative_or_nan(found.error_ratio, found.truth_norm),
            mass_correlation(found.product_ratio, found.truth_norm, found.posterior_norm),
        ),
        None => (undefined_value(), undefined_value()),
    }
}

/// Whether a row reports how a model fits under a sensor design.
pub open spec fn reports_sweep(
    design: PlanarHolesSensorDesignKind,
    model: PlanarHolesModelKind,
    coexact_tau_scale: Scalar,
    counts: SensorDesignCounts,
    observation_count: usize,
    errors: SweepErrors,
    coverage: Seq<PlanarHolesFieldCoverageSummary>,
    row: PlanarHolesSensorDesignSweepRow,
) -> bool {
    &&& row.design == design
    &&& row.model == model
    &&& row.model_coexact_tau_scale == coexact_tau_scale
    &&& row.observation_count == observation_count
    &&& row.edge_observation_count == counts.edge_count
    &&& row.interior_loop_observation_count == counts.interior_loop_count
    &&& row.long_path_observation_count == counts.long_path_count
    &&& row.harmonic_period_observation_count == counts.harmonic_period_count
    &&& row.l2_error == errors.l2_error
    &&& row.heldout_local_nlpd == errors.local.mean_nlpd
    &&& row.heldout_interior_loop_nlpd == errors.interior_loop.mean_nlpd
    &&& row.heldout_long_path_nlpd == errors.long_path.mean_nlpd
    &&& row.heldout_harmonic_period_nlpd == errors.harmonic_period.mean_nlpd
    &&& row.heldout_interior_loop_relative_error == errors.interior_loop.relative_error
    &&& row.heldout_long_path_relative_error == errors.long_path.relative_error
    &&& row.heldout_harmonic_period_relative_error == errors.harmonic_period.relative_error
    &&& row.codifferential_leakage == errors.codifferential_leakage
    &&& row.coexact_relative_error == recovery_pair(errors.coexact).0
    &&& row.coexact_mass_correlation == recovery_pair(errors.coexact).1
    &&& row.harmonic_relative_error == recovery_pair(errors.harmonic).0
    &&& row.harmonic_mass_correlation == recovery_pair(errors.harmonic).1
    &&& row.all_edge_coverage_95 == found_or_undefined(
        coverage_of(coverage, model, PlanarHolesFieldCoverageSubset::AllEdges),
    )
    &&& row.heldout_edge_coverage_95 == found_or_undefined(
        coverage_of(coverage, model, PlanarHolesFieldCoverageSubset::HeldoutLocalEdges),
    )
}

/// Makes the row that reports how a model fits under a sensor design.
pub fn sensor_design_sweep_row(
    design: PlanarHolesSensorDesignKind,
    model: PlanarHolesModelKind,
    coexact_tau_scale: Scalar,
    counts: SensorDesignCounts,
    observation_count: usize,
    errors: SweepErrors,
    coverage: &Vec<PlanarHolesFieldCoverageSummary>,
) -> (row: PlanarHolesSensorDesignSweepRow)
    ensures
        reports_sweep(
            design,
            model,
            coexact_tau_scale,
            counts,
            observation_count,
            errors,
            coverage@,
            row,
        ),
{
    let coexact = branch_recovery_pair(errors.coexact);
    let harmonic = branch_recovery_pair(errors.harmonic);
    PlanarHolesSensorDesignSweepRow {
        design,
        model,
        model_coexact_tau_scale: coexact_tau_scale,
        observation_count,
        edge_observation_count: counts.edge_count,
        interior_loop_observation_count: counts.interior_loop_count,
        long_path_observation_count: counts.long_path_count,
        harmonic_period_observation_count: counts.harmonic_period_count,
        l2_error: errors.l2_error,
        heldout_local_nlpd: errors.local.mean_nlpd,
        heldout_interior_loop_nlpd: errors.interior_loop.mean_nlpd,
        heldout_long_path_nlpd: errors.long_path.mean_nlpd,
        heldout_harmonic_period_nlpd: errors.harmonic_period.mean_nlpd,
        heldout_interior_loop_relative_error: errors.interior_loop.relative_error,
        heldout_long_path_relative_error: errors.long_path.relative_error,
        heldout_harmonic_period_relative_error: errors.harmonic_period.relative_error,
        codifferential_leakage: errors.codifferential_leakage,
        coexact_relative_error: coexact.0,
        coexact_mass_correlation: coexact.1,
        harmonic_relative_error: harmonic.0,
        harmonic_mass_correlation: harmonic.1,
        all_edge_coverage_95: or_undefined(
            field_coverage_value(
                coverage,
                model,
                PlanarHolesFieldCoverageSubset::AllEdges,
            ),
        ),
        heldout_edge_coverage_95: or_undefined(
            field_coverage_value(
                coverage,
                model,
                PlanarHolesFieldCoverageSubset::HeldoutLocalEdges,
            ),
        ),
    }
}

/// A norm of an error with that of the truth and their quotient.
#[derive(Debug, Clone, Copy, PartialEq, Eq, Structural)]
pub struct NormRatio {
    pub error: Scalar,
    pub truth: Scalar,
    pub ratio: Scalar,
}

/// How a field was recovered in a scenario.
#[derive(Debug, Clone, Copy, PartialEq, Eq, Structural)]
pub struct FlowErrors {
    pub l2: NormRatio,
    pub exterior_derivative: NormRatio,
    pub codifferential: NormRatio,
    /// The norm of the codifferential of the posterior divided by that of the truth.
    pub leakage_ratio: Scalar,
    /// What the norm of the codifferential of the truth must exceed to be compared with.
    pub codifferential_threshold: Scalar,
    pub circulation: NormRatio,
    pub total_annular: NormRatio,
    pub harmonic_period: Option<NormRatio>,
    pub coexact_annular: Option<NormRatio>,
    pub mean_abs_circulation_error: Scalar,
    pub max_abs_circulation_error: Scalar,
    pub heldout_nlpd: Scalar,
    pub local: PredictionKindStats,
    pub hole_loop: PredictionKindStats,
    pub heldout_harmonic_period: PredictionKindStats,
}

impl NormRatio {
    /// The quotient where it is defined.
    pub open spec fn value(self) -> Scalar {
        relative(self.ratio, self.truth)
    }

    fn quotient(self) -> (value: Scalar)
        ensures
            value == self.value(),
    {
        relative_or_nan(self.ratio, self.truth)
    }
}

/// The quotient of a branch, undefined where a model does not have it.
pub open spec fn branch_ratio(ratio: Option<NormRatio>) -> Scalar {
    match ratio {
        Some(found) => found.value(),
        None => undefined(),
    }
}

fn ratio_of_branch(ratio: Option<NormRatio>) -> (value: Scalar)
    ensures
        value == branch_ratio(ratio),
{
    match ratio {
        Some(found) => found.quotient(),
        None => undefined_value(),
    }
}

/// Whether a row reports the errors of a model of a flow.
pub open spec fn reports_metrics(
    scenario: PlanarHolesObservationScenario,
    model: PlanarHolesModelKind,
    observation_count: usize,
    errors: FlowErrors,
    row: PlanarHolesModelMetrics,
) -> bool {
    &&& row.scenario == scenario
    &&& row.model == model
    &&& row.observation_count == observation_count
    &&& row.l2_error_absolute == errors.l2.error
    &&& row.l2_error == errors.l2.value()
    &&& row.heldout_nlpd == errors.heldout_nlpd
    &&& row.heldout_local_nlpd == errors.local.mean_nlpd
    &&& row.heldout_loop_nlpd == errors.hole_loop.mean_nlpd
    &&& row.heldout_harmonic_period_nlpd == errors.heldout_harmonic_period.mean_nlpd
    &&& row.exterior_derivative_error_absolute == errors.exterior_derivative.error
    &&& row.exterior_derivative_truth_norm == errors.exterior_derivative.truth
    &&& row.exterior_derivative_error == errors.exterior_derivative.value()
    &&& row.codifferential_error_absolute == errors.codifferential.error
    &&& row.codifferential_truth_norm == errors.codifferential.truth
    &&& row.codifferential_error_relative == errors.codifferential.value()
    &&& row.codifferential_leakage == relative(errors.leakage_ratio, errors.l2.truth)
    &&& row.codifferential_error == (if errors.codifferential_threshold.lt(errors.codifferential.truth) {
        errors.codifferential.value()
    } else {
        relative(errors.leakage_ratio, errors.l2.truth)
    })
    &&& row.codifferential_metric_kind == (if errors.codifferential_threshold.lt(
        errors.codifferential.truth,
    ) {
        PlanarHolesCodifferentialMetricKind::RelativeError
    } else {
        PlanarHolesCodifferentialMetricKind::Leakage
    })
    &&& row.relative_circulation_error == errors.circulation.value()
    &&& row.relative_harmonic_period_error == branch_ratio(errors.harmonic_period)
    &&& row.relative_coexact_annular_error == branch_ratio(errors.coexact_annular)
    &&& row.relative_total_annular_error == errors.total_annular.value()
    &&& row.mean_abs_circulation_error == errors.mean_abs_circulation_error
    &&& row.max_abs_circulation_error == errors.max_abs_circulation_error
}

/// Makes the row that reports how a model fits in a scenario. The codifferential is compared with
/// that of the truth where the latter is large enough, and measured against the field otherwise.
pub fn model_metrics(
    scenario: PlanarHolesObservationScenario,
    model: PlanarHolesModelKind,
    observation_count: usize,
    errors: FlowErrors,
) -> (row: PlanarHolesModelMetrics)
    ensures
        reports_metrics(scenario, model, observation_count, errors, row),
{
    let relative_error: Scalar = errors.codifferential.quotient();
    let leakage: Scalar = relative_or_nan(errors.leakage_ratio, errors.l2.truth);
    let chosen = choose_codifferential_metric(
        errors.codifferential.truth,
        errors.codifferential_threshold,
        relative_error,
        leakage,
    );
    PlanarHolesModelMetrics {
        scenario,
        model,
        observation_count,
        l2_error_absolute: errors.l2.error,
        l2_error: errors.l2.quotient(),
        heldout_nlpd: errors.heldout_nlpd,
        heldout_local_nlpd: errors.local.mean_nlpd,
        heldout_loop_nlpd: errors.hole_loop.mean_nlpd,
        heldout_harmonic_period_nlpd: errors.heldout_harmonic_period.mean_nlpd,
        exterior_derivative_error_absolute: errors.exterior_derivative.error,
        exterior_derivative_truth_norm: errors.exterior_derivative.truth,
        exterior_derivative_error: errors.exterior_derivative.quotient(),
        codifferential_error_absolute: errors.codifferential.error,
        codifferential_truth_norm: errors.codifferential.truth,
        codifferential_error_relative: relative_error,
        codifferential_leakage: leakage,
        codifferential_error: chosen.0,
        codifferential_metric_kind: chosen.1,
        relative_circulation_error: errors.circulation.quotient(),
        relative_harmonic_period_error: ratio_of_branch(errors.harmonic_period),
        relative_coexact_annular_error: ratio_of_branch(errors.coexact_annular),
        relative_total_annular_error: errors.total_annular.quotient(),
        mean_abs_circulation_error: errors.mean_abs_circulation_error,
        max_abs_circulation_error: errors.max_abs_circulation_error,
    }
}

/// A spectral prior and a sparse one by what their comparison reports.
#[derive(Debug, Clone, Copy, PartialEq, Eq, Structural)]
pub struct ComparedPriors {
    pub actual_mode_count: usize,
    pub spectral_energy: Scalar,
    pub spectral_unnormalized_energy: Scalar,
    pub spectral_normalization_scale: Scalar,
    pub gmrf_energy: Scalar,
    pub gmrf_tau_scale: Scalar,
    /// The root of the ratio of the energies, and the distance of the energies divided by the
    /// spectral one.
    pub energy_root: Scalar,
    pub trace_ratio: Scalar,
    pub frobenius_error: Scalar,
    pub diagonal_min: Scalar,
    pub diagonal_mean: Scalar,
    pub diagonal_max: Scalar,
    pub source_eigen_count: usize,
    pub source_eigen_l2_error: Scalar,
    pub source_eigen_max_error: Scalar,
}

/// The eigenvalues of two covariances.
#[derive(Debug, Clone, Copy, PartialEq, Eq, Structural)]
pub struct ComparedEigenvalues {
    pub spectral_count: usize,
    pub spectral_min: Scalar,
    pub spectral_max: Scalar,
    pub gmrf_count: usize,
    pub gmrf_min: Scalar,
    pub gmrf_max: Scalar,
}

/// The eigenvalues as they are reported: those of both covariances with the smaller count, or
/// none where the covariances are too large.
pub open spec fn reported_eigenvalues(eigenvalues: Option<ComparedEigenvalues>) -> (
    usize,
    Scalar,
    Scalar,
    Scalar,
    Scalar,
) {
    match eigenvalues {
        Some(found) => (
            if found.spectral_count <= found.gmrf_count {
                found.spectral_count
            } else {
                found.gmrf_count
            },
            found.spectral_min,
            found.spectral_max,
            found.gmrf_min,
            found.gmrf_max,
        ),
        None => (0, undefined(), undefined(), undefined(), undefined()),
    }
}

/// Tests whether covariances are small enough for their eigenvalues to be compared.
pub fn compares_eigenvalues(dimension: usize, cap: usize) -> (compared: bool)
    ensures
        compared == (dimension <= cap),
{
    dimension <= cap
}

/// Counts the source eigenvalues that are compared: one for each mode, as far as both priors have
/// them.
pub fn compared_eigenvalue_count(mode_count: usize, spectral: usize, gmrf: usize) -> (count: usize)
    ensures
        count <= mode_count && count <= spectral && count <= gmrf,
        count == mode_count || count == spectral || count == gmrf,
{
    let shorter: usize = if spectral <= gmrf {
        spectral
    } else {
        gmrf
    };
    if mode_count <= shorter {
        mode_count
    } else {
        shorter
    }
}

/// Makes the row that compares a sparse prior with a spectral one. The energies are positive where
/// they can be matched.
pub fn prior_equivalence_row(
    comparison: PriorComparison,
    priors: ComparedPriors,
    eigenvalues: Option<ComparedEigenvalues>,
) -> (row: PlanarHolesPriorEquivalenceRow)
    ensures
        row.requested_mode_count == comparison.requested_mode_count,
        row.actual_mode_count == priors.actual_mode_count,
        row.spectral_reference == comparison.reference,
        row.gmrf_variant == comparison.variant,
        row.spectral_expected_m1_energy == priors.spectral_energy,
        row.spectral_unnormalized_expected_m1_energy == priors.spectral_unnormalized_energy,
        row.spectral_normalization_scale == priors.spectral_normalization_scale,
        row.gmrf_expected_m1_energy == priors.gmrf_energy,
        row.gmrf_tau_scale == priors.gmrf_tau_scale,
        row.required_tau_scale_to_match_spectral_trace == matching_scale(
            priors.energy_root,
            priors.gmrf_energy,
            priors.spectral_energy,
        ),
        row.trace_relative_error == relative(priors.trace_ratio, priors.spectral_energy),
        row.m1_frobenius_relative_error == priors.frobenius_error,
        row.diag_variance_ratio_min == priors.diagonal_min,
        row.diag_variance_ratio_mean == priors.diagonal_mean,
        row.diag_variance_ratio_max == priors.diagonal_max,
        row.source_eigen_count == priors.source_eigen_count,
        row.source_eigen_relative_l2_error == priors.source_eigen_l2_error,
        row.source_eigen_max_relative_error == priors.source_eigen_max_error,
        row.covariance_eigen_count == reported_eigenvalues(eigenvalues).0,
        row.spectral_covariance_eigen_min == reported_eigenvalues(eigenvalues).1,
        row.spectral_covariance_eigen_max == reported_eigenvalues(eigenvalues).2,
        row.gmrf_covariance_eigen_min == reported_eigenvalues(eigenvalues).3,
        row.gmrf_covariance_eigen_max == reported_eigenvalues(eigenvalues).4,
{
    let values: (usize, Scalar, Scalar, Scalar, Scalar) = match eigenvalues {
        Some(found) => {
            let count: usize = if found.spectral_count <= found.gmrf_count {
                found.spectral_count
            } else {
                found.gmrf_count
            };
            (count, found.spectral_min, found.spectral_max, found.gmrf_min, found.gmrf_max)
        },
        None => {
            let nothing: Scalar = undefined_value();
            (0, nothing, nothing, nothing, nothing)
        },
    };
    PlanarHolesPriorEquivalenceRow {
        requested_mode_count: comparison.requested_mode_count,
        actual_mode_count: priors.actual_mode_count,
        spectral_reference: comparison.reference,
        gmrf_variant: comparison.variant,
        spectral_expected_m1_energy: priors.spectral_energy,
        spectral_unnormalized_expected_m1_energy: priors.spectral_unnormalized_energy,
        spectral_normalization_scale: priors.spectral_normalization_scale,
        gmrf_expected_m1_energy: priors.gmrf_energy,
        gmrf_tau_scale: priors.gmrf_tau_scale,
        required_tau_scale_to_match_spectral_trace: required_tau_scale(
            priors.energy_root,
            priors.gmrf_energy,
            priors.spectral_energy,
        ),
        trace_relative_error: relative_or_nan(priors.trace_ratio, priors.spectral_energy),
        m1_frobenius_relative_error: priors.frobenius_error,
        diag_variance_ratio_min: priors.diagonal_min,
        diag_variance_ratio_mean: priors.diagonal_mean,
        diag_variance_ratio_max: priors.diagonal_max,
        source_eigen_count: priors.source_eigen_count,
        source_eigen_relative_l2_error: priors.source_eigen_l2_error,
        source_eigen_max_relative_error: priors.source_eigen_max_error,
        covariance_eigen_count: values.0,
        spectral_covariance_eigen_min: values.1,
        spectral_covariance_eigen_max: values.2,
        gmrf_covariance_eigen_min: values.3,
        gmrf_covariance_eigen_max: values.4,
    }
}

/// The branches whose projections are reported: those that have both a transform and modes, in the
/// order of the branches.
pub open spec fn diagnosed_branches(
    transforms: Seq<HodgeBranchKind>,
    stats: Seq<SpectralBranchStats>,
) -> Seq<HodgeBranchKind> {
    HodgeBranchKind::in_order().filter(
        |branch: HodgeBranchKind|
            transforms.contains(branch) && branch_stats(stats, branch) is Some,
    )
}

/// Lists the branches of a model whose projections are reported. A model without modes has none.
pub fn spectral_diagnostic_branches(
    transforms: &Vec<HodgeBranchKind>,
    stats: &Vec<SpectralBranchStats>,
) -> (branches: Vec<HodgeBranchKind>)
    ensures
        branches@ == diagnosed_branches(transforms@, stats@),
{
    let order: Vec<HodgeBranchKind> = vec![
        HodgeBranchKind::Exact,
        HodgeBranchKind::Coexact,
        HodgeBranchKind::Harmonic,
    ];
    assert(order@ =~= HodgeBranchKind::in_order());
    let ghost kept = |branch: HodgeBranchKind|
        transforms@.contains(branch) && branch_stats(stats@, branch) is Some;
    let mut branches: Vec<HodgeBranchKind> = Vec::new();
    let mut index: usize = 0;
    proof {
        reveal(Seq::filter);
        assert(order@.take(0).filter(kept) =~= Seq::empty());
    }
    while index < order.len()
        invariant
            index <= order.len(),
            kept == (|branch: HodgeBranchKind|
                transforms@.contains(branch) && branch_stats(stats@, branch) is Some),
            branches@ == order@.take(index as int).filter(kept),
        decreases order.len() - index,
    {
        let branch: HodgeBranchKind = order[index];
        proof {
            reveal(Seq::filter);
            assert(order@.take(index + 1).drop_last() =~= order@.take(index as int));
            assert(order@.take(index + 1).last() == branch);
        }
        if has_branch(transforms, branch) && find_branch_stats(stats, branch).is_some() {
            branches.push(branch);
        }
        index = index + 1;
    }
    assert(order@.take(index as int) =~= order@);
    branches
}

/// The message for a transform that does not fit a field.
pub open spec fn transform_message(rows: nat, truth: nat) -> Seq<char> {
    "spectral transform rows "@ + decimal(rows) + " do not match truth length "@ + decimal(truth)
}

/// Tests that a transform fits a field.
pub fn check_transform_rows(rows: usize, truth: usize) -> (result: Result<(), String>)
    ensures
        match result {
            Ok(_) => rows == truth,
            Err(message) => rows != truth && message@ == transform_message(
                rows as nat,
                truth as nat,
            ),
        },
{
    if rows == truth {
        return Ok(());
    }
    let mut message = String::from_str("spectral transform rows ");
    message.append(count_text(rows).as_str());
    message.append(" do not match truth length ");
    message.append(count_text(truth).as_str());
    Err(message)
}

/// The energies that the first modes of a branch reach together.
#[derive(Debug, Clone, Copy, PartialEq, Eq, Structural)]
pub struct ModeEnergy {
    pub projected: Scalar,
    pub prior: Scalar,
    /// The energies divided by those of the truth and of the prior.
    pub projected_ratio: Scalar,
    pub prior_ratio: Scalar,
}

/// The projection of a branch of the truth onto its modes.
#[derive(Debug, Clone, Copy, PartialEq, Eq, Structural)]
pub struct Projection {
    pub truth_norm: Scalar,
    pub truth_energy: Scalar,
    pub projected_norm: Scalar,
    /// The norm of what is left divided by that of the truth.
    pub error_ratio: Scalar,
    pub mahalanobis_norm: Scalar,
}

/// Makes the row that reports the projection of a branch of the truth onto its modes.
pub fn spectral_branch_row(
    model: PlanarHolesModelKind,
    stats: SpectralBranchStats,
    projection: Projection,
) -> (row: PlanarHolesSpectralBranchDiagnostic)
    ensures
        row.model == model,
        row.branch == stats.branch,
        row.requested_mode_count == stats.requested_mode_count,
        row.actual_mode_count == stats.actual_mode_count,
        row.unnormalized_expected_m1_energy == stats.unnormalized_expected_m1_energy,
        row.target_expected_m1_energy == found_or_undefined(stats.target_expected_m1_energy),
        row.normalization_scale == stats.normalization_scale,
        row.expected_m1_energy == stats.expected_m1_energy,
        row.truth_mass_norm == projection.truth_norm,
        row.projected_truth_mass_norm == projection.projected_norm,
        row.projection_relative_error == relative(projection.error_ratio, projection.truth_norm),
        row.projected_truth_mahalanobis_norm == projection.mahalanobis_norm,
{
    PlanarHolesSpectralBranchDiagnostic {
        model,
        branch: stats.branch,
        requested_mode_count: stats.requested_mode_count,
        actual_mode_count: stats.actual_mode_count,
        unnormalized_expected_m1_energy: stats.unnormalized_expected_m1_energy,
        target_expected_m1_energy: or_undefined(stats.target_expected_m1_energy),
        normalization_scale: stats.normalization_scale,
        expected_m1_energy: stats.expected_m1_energy,
        truth_mass_norm: projection.truth_norm,
        projected_truth_mass_norm: projection.projected_norm,
        projection_relative_error: relative_or_nan(projection.error_ratio, projection.truth_norm),
        projected_truth_mahalanobis_norm: projection.mahalanobis_norm,
    }
}

/// What is measured of a truth besides its projections.
#[derive(Debug, Clone, Copy, PartialEq, Eq, Structural)]
pub struct TruthMeasures {
    pub mass_norm: Scalar,
    pub energy: Scalar,
    pub codifferential_leakage: Scalar,
    pub boundary_energy_fraction: Scalar,
}

/// Makes the row that reports how far a truth lies in the span of the modes of a stage. The ratio is
/// that of the energies of the projection and of the truth.
pub fn truth_compatibility_row(
    truth_family: PlanarHolesSpectralTruthFamily,
    stage: ProjectionStage,
    truth: TruthMeasures,
    diagnostic: &PlanarHolesSpectralBranchDiagnostic,
    energy_ratio: Scalar,
) -> (row: PlanarHolesSpectralTruthCompatibilityRow)
    ensures
        row.truth_family == truth_family,
        row.boundary_condition == stage.boundary_condition,
        row.requested_mode_count == stage.requested_mode_count,
        row.actual_mode_count == diagnostic.actual_mode_count,
        row.truth_mass_norm == truth.mass_norm,
        row.projected_truth_mass_norm == diagnostic.projected_truth_mass_norm,
        row.projected_energy_fraction == relative(energy_ratio, truth.energy),
        row.projection_relative_error == diagnostic.projection_relative_error,
        row.projected_truth_mahalanobis_norm == diagnostic.projected_truth_mahalanobis_norm,
        row.codifferential_leakage == truth.codifferential_leakage,
        row.boundary_lumped_energy_fraction == truth.boundary_energy_fraction,
        row.unnormalized_expected_m1_energy_sq == diagnostic.unnormalized_expected_m1_energy,
        row.target_expected_m1_energy_sq == diagnostic.target_expected_m1_energy,
        row.expected_m1_energy_sq == diagnostic.expected_m1_energy,
        row.normalization_scale == diagnostic.normalization_scale,
{
    PlanarHolesSpectralTruthCompatibilityRow {
        truth_family,
        boundary_condition: stage.boundary_condition,
        requested_mode_count: stage.requested_mode_count,
        actual_mode_count: diagnostic.actual_mode_count,
        truth_mass_norm: truth.mass_norm,
        projected_truth_mass_norm: diagnostic.projected_truth_mass_norm,
        projected_energy_fraction: relative_or_nan(energy_ratio, truth.energy),
        projection_relative_error: diagnostic.projection_relative_error,
        projected_truth_mahalanobis_norm: diagnostic.projected_truth_mahalanobis_norm,
        codifferential_leakage: truth.codifferential_leakage,
        boundary_lumped_energy_fraction: truth.boundary_energy_fraction,
        unnormalized_expected_m1_energy_sq: diagnostic.unnormalized_expected_m1_energy,
        target_expected_m1_energy_sq: diagnostic.target_expected_m1_energy,
        expected_m1_energy_sq: diagnostic.expected_m1_energy,
        normalization_scale: diagnostic.normalization_scale,
    }
}

/// Whether a row reports the energy that the modes up to a given one reach.
pub open spec fn reports_energy(
    model: PlanarHolesModelKind,
    stats: SpectralBranchStats,
    projection: Projection,
    mode: int,
    energy: ModeEnergy,
    row: PlanarHolesSpectralEnergyDiagnostic,
) -> bool {
    &&& row.model == model
    &&& row.branch == stats.branch
    &&& row.mode_index == mode
    &&& row.cumulative_projected_energy == energy.projected
    &&& row.cumulative_projected_energy_fraction == relative(energy.projected_ratio, projection.truth_energy)
    &&& row.cumulative_prior_energy == energy.prior
    &&& row.cumulative_prior_energy_fraction == relative(energy.prior_ratio, stats.expected_m1_energy)
}

/// Makes the rows that report how the energies grow with the modes.
pub fn spectral_energy_rows(
    model: PlanarHolesModelKind,
    stats: SpectralBranchStats,
    projection: Projection,
    energies: &Vec<ModeEnergy>,
) -> (rows: Vec<PlanarHolesSpectralEnergyDiagnostic>)
    ensures
        rows.len() == energies.len(),
        forall|i: int|
            0 <= i < rows.len() ==> reports_energy(
                model,
                stats,
                projection,
                i,
                energies@[i],
                #[trigger] rows@[i],
            ),
{
    let mut rows: Vec<PlanarHolesSpectralEnergyDiagnostic> = Vec::new();
    let mut index: usize = 0;
    while index < energies.len()
        invariant
            index <= energies.len(),
            rows.len() == index,
            forall|i: int|
                0 <= i < rows.len() ==> reports_energy(
                    model,
                    stats,
                    projection,
                    i,
                    energies@[i],
                    #[trigger] rows@[i],
                ),
        decreases energies.len() - index,
    {
        let energy: ModeEnergy = energies[index];
        rows.push(
            PlanarHolesSpectralEnergyDiagnostic {
                model,
                branch: stats.branch,
                mode_index: index,
                cumulative_projected_energy: energy.projected,
                cumulative_projected_energy_fraction: relative_or_nan(energy.projected_ratio, projection.truth_energy),
                cumulative_prior_energy: energy.prior,
                cumulative_prior_energy_fraction: relative_or_nan(energy.prior_ratio, stats.expected_m1_energy),
            },
        );
        index = index + 1;
    }
    rows
}

/// Nothing that is undefined is a number.
pub proof fn lemma_undefined_is_no_number(other: Scalar)
    ensures
        undefined().nan(),
        !undefined().lt(other),
        !other.lt(undefined()),
{
}

} // verus!
