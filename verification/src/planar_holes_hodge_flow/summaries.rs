//! How predictions are grouped, calibrated and summed up.

use super::kinds::{
    PlanarHolesCodifferentialMetricKind, PlanarHolesFieldCoverageSubset, PlanarHolesModelKind,
    PlanarHolesObservationKind, PlanarHolesObservationScenario,
};
use super::tables::{
    PlanarHolesFieldCoverageSummary, PlanarHolesHeldoutPrediction,
    PlanarHolesTopologyVsNaiveGpCalibrationRow,
};
use crate::scalar::Scalar;
use crate::text::{count_text, decimal};
use vstd::prelude::*;

verus! {

/// The number 1 as a scalar.
pub const UNIT_MULTIPLIER: u64 = 0x3ff0_0000_0000_0000;

/// The double next to 0.001.
pub const LEAST_MULTIPLIER: u64 = 0x3f50_624d_d2f1_a9fc;

/// The number 1000 as a scalar.
pub const GREATEST_MULTIPLIER: u64 = 0x408f_4000_0000_0000;

/// Whether `places` lists the places at which a condition holds, in increasing order.
pub open spec fn lists_places(length: nat, holds: spec_fn(int) -> bool, places: Seq<usize>) -> bool {
    &&& forall|i: int, j: int| 0 <= i < j < places.len() ==> places[i] < places[j]
    &&& forall|p: usize| #[trigger] places.contains(p) <==> p < length && holds(p as int)
}

proof fn lemma_place_added(places: Seq<usize>, place: usize)
    ensures
        forall|p: usize| #[trigger]
            places.push(place).contains(p) <==> places.contains(p) || p == place,
{
    let more = places.push(place);
    assert forall|p: usize| #[trigger] more.contains(p) <==> places.contains(p) || p == place by {
        if places.contains(p) {
            let i = choose|i: int| 0 <= i < places.len() && places[i] == p;
            assert(more[i] == p);
        }
        assert(more[places.len() as int] == place);
        if more.contains(p) {
            let i = choose|i: int| 0 <= i < more.len() && more[i] == p;
            if i < places.len() {
                assert(places[i] == p);
            }
        }
    }
}

/// Lists the predictions of a kind.
pub fn predictions_of_kind(
    predictions: &Vec<PlanarHolesHeldoutPrediction>,
    kind: PlanarHolesObservationKind,
) -> (places: Vec<usize>)
    ensures
        lists_places(
            predictions.len() as nat,
            |i: int| predictions@[i].kind == kind,
            places@,
        ),
{
    let mut places: Vec<usize> = Vec::new();
    let mut index: usize = 0;
    while index < predictions.len()
        invariant
            index <= predictions.len(),
            forall|i: int, j: int| 0 <= i < j < places.len() ==> places@[i] < places@[j],
            forall|i: int| 0 <= i < places.len() ==> #[trigger] places@[i] < index,
            forall|p: usize| #[trigger]
                places@.contains(p) <==> p < index && predictions@[p as int].kind == kind,
        decreases predictions.len() - index,
    {
        if predictions[index].kind == kind {
            proof {
                lemma_place_added(places@, index);
            }
            places.push(index);
        }
        index = index + 1;
    }
    places
}

/// Lists the predictions of a model.
pub fn predictions_of_model(
    predictions: &Vec<PlanarHolesHeldoutPrediction>,
    model: PlanarHolesModelKind,
) -> (places: Vec<usize>)
    ensures
        lists_places(
            predictions.len() as nat,
            |i: int| predictions@[i].model == model,
            places@,
        ),
{
    let mut places: Vec<usize> = Vec::new();
    let mut index: usize = 0;
    while index < predictions.len()
        invariant
            index <= predictions.len(),
            forall|i: int, j: int| 0 <= i < j < places.len() ==> places@[i] < places@[j],
            forall|i: int| 0 <= i < places.len() ==> #[trigger] places@[i] < index,
            forall|p: usize| #[trigger]
                places@.contains(p) <==> p < index && predictions@[p as int].model == model,
        decreases predictions.len() - index,
    {
        if predictions[index].model == model {
            proof {
                lemma_place_added(places@, index);
            }
            places.push(index);
        }
        index = index + 1;
    }
    places
}

/// The kinds of observations in their order.
pub open spec fn kind_order() -> Seq<PlanarHolesObservationKind> {
    seq![
        PlanarHolesObservationKind::Local,
        PlanarHolesObservationKind::TrainLoop,
        PlanarHolesObservationKind::TrainHarmonicPeriod,
        PlanarHolesObservationKind::TrainInteriorLoop,
        PlanarHolesObservationKind::TrainLongPath,
        PlanarHolesObservationKind::TrainPathHomology,
        PlanarHolesObservationKind::HeldoutLocal,
        PlanarHolesObservationKind::HeldoutLoop,
        PlanarHolesObservationKind::HeldoutHarmonicPeriod,
        PlanarHolesObservationKind::HeldoutInteriorLoop,
        PlanarHolesObservationKind::HeldoutLongPath,
        PlanarHolesObservationKind::HeldoutPathHomology,
        PlanarHolesObservationKind::HeldoutPathContrast,
    ]
}

/// Whether a prediction of the kind exists.
pub open spec fn kind_occurs(
    predictions: Seq<PlanarHolesHeldoutPrediction>,
    kind: PlanarHolesObservationKind,
) -> bool {
    exists|i: int| 0 <= i < predictions.len() && (#[trigger] predictions[i]).kind == kind
}

/// A group of predictions that is calibrated together.
#[derive(Debug)]
pub struct CalibrationGroup {
    pub name: &'static str,
    pub places: Vec<usize>,
}

/// Whether a group holds the predictions of a kind.
pub open spec fn is_kind_group(
    predictions: Seq<PlanarHolesHeldoutPrediction>,
    kind: PlanarHolesObservationKind,
    group: CalibrationGroup,
) -> bool {
    &&& group.name@ == kind.name()
    &&& lists_places(
        predictions.len(),
        |i: int| predictions[i].kind == kind,
        group.places@,
    )
}

/// The kinds of which there is a prediction, in their order.
pub open spec fn occurring_kinds(predictions: Seq<PlanarHolesHeldoutPrediction>) -> Seq<
    PlanarHolesObservationKind,
> {
    kind_order().filter(|kind: PlanarHolesObservationKind| kind_occurs(predictions, kind))
}

/// Groups predictions: all of them, and then those of each kind that occurs, in the order of the
/// kinds.
pub fn calibration_groups(predictions: &Vec<PlanarHolesHeldoutPrediction>) -> (groups: Vec<
    CalibrationGroup,
>)
    ensures
        groups.len() == occurring_kinds(predictions@).len() + 1,
        groups@[0].name@ == "all"@,
        groups@[0].places@ == Seq::new(predictions.len() as nat, |i: int| i as usize),
        forall|g: int|
            #![trigger groups@[g]]
            1 <= g < groups.len() ==> is_kind_group(
                predictions@,
                occurring_kinds(predictions@)[g - 1],
                groups@[g],
            ),
{
    let mut all: Vec<usize> = Vec::new();
    while all.len() < predictions.len()
        invariant
            all.len() <= predictions.len(),
            forall|i: int| 0 <= i < all.len() ==> #[trigger] all@[i] == i,
        decreases predictions.len() - all.len(),
    {
        let next: usize = all.len();
        all.push(next);
    }
    assert(all@ =~= Seq::new(predictions.len() as nat, |i: int| i as usize));
    let order: Vec<PlanarHolesObservationKind> = vec![
        PlanarHolesObservationKind::Local,
        PlanarHolesObservationKind::TrainLoop,
        PlanarHolesObservationKind::TrainHarmonicPeriod,
        PlanarHolesObservationKind::TrainInteriorLoop,
        PlanarHolesObservationKind::TrainLongPath,
        PlanarHolesObservationKind::TrainPathHomology,
        PlanarHolesObservationKind::HeldoutLocal,
        PlanarHolesObservationKind::HeldoutLoop,
        PlanarHolesObservationKind::HeldoutHarmonicPeriod,
        PlanarHolesObservationKind::HeldoutInteriorLoop,
        PlanarHolesObservationKind::HeldoutLongPath,
        PlanarHolesObservationKind::HeldoutPathHomology,
        PlanarHolesObservationKind::HeldoutPathContrast,
    ];
    assert(order@ =~= kind_order());
    let ghost occurs = |kind: PlanarHolesObservationKind| kind_occurs(predictions@, kind);
    let mut groups: Vec<CalibrationGroup> = Vec::new();
    groups.push(CalibrationGroup { name: "all", places: all });
    let mut index: usize = 0;
    proof {
        reveal(Seq::filter);
        assert(order@.take(0).filter(occurs) =~= Seq::empty());
    }
    while index < order.len()
        invariant
            index <= order.len(),
            occurs == (|kind: PlanarHolesObservationKind| kind_occurs(predictions@, kind)),
            groups.len() == order@.take(index as int).filter(occurs).len() + 1,
            groups@[0].name@ == "all"@,
            groups@[0].places@ == Seq::new(predictions.len() as nat, |i: int| i as usize),
            forall|g: int|
                #![trigger groups@[g]]
                1 <= g < groups.len() ==> is_kind_group(
                    predictions@,
                    order@.take(index as int).filter(occurs)[g - 1],
                    groups@[g],
                ),
        decreases order.len() - index,
    {
        let kind: PlanarHolesObservationKind = order[index];
        proof {
            reveal(Seq::filter);
            assert(order@.take(index + 1).drop_last() =~= order@.take(index as int));
            assert(order@.take(index + 1).last() == kind);
        }
        let places = predictions_of_kind(predictions, kind);
        if places.len() > 0 {
            proof {
                assert(places@.contains(places@[0]));
                assert(predictions@[places@[0] as int].kind == kind);
            }
            groups.push(CalibrationGroup { name: kind.as_str(), places });
        } else {
            proof {
                if kind_occurs(predictions@, kind) {
                    let i = choose|i: int|
                        0 <= i < predictions.len() && (#[trigger] predictions@[i]).kind == kind;
                    assert(places@.contains(i as usize));
                }
            }
        }
        index = index + 1;
    }
    assert(order@.take(index as int) =~= order@);
    groups
}

/// Whether a row is the overall calibration row of a model.
pub open spec fn is_overall(
    row: PlanarHolesTopologyVsNaiveGpCalibrationRow,
    model: PlanarHolesModelKind,
) -> bool {
    row.model == model && row.kind@ == "all"@
}

/// The variance multiplier of a model: that of the first overall row of the model, if it is
/// finite and positive, and 1 otherwise.
pub open spec fn multiplier_of(
    rows: Seq<PlanarHolesTopologyVsNaiveGpCalibrationRow>,
    model: PlanarHolesModelKind,
) -> Scalar
    decreases rows.len(),
{
    let unit = Scalar { bits: UNIT_MULTIPLIER };
    if rows.len() == 0 {
        unit
    } else if is_overall(rows[0], model) {
        if rows[0].variance_multiplier.finite() && rows[0].variance_multiplier.positive() {
            rows[0].variance_multiplier
        } else {
            unit
        }
    } else {
        multiplier_of(rows.skip(1), model)
    }
}

/// Looks up the variance multiplier of a model.
pub fn calibration_multiplier_for_model(
    rows: &Vec<PlanarHolesTopologyVsNaiveGpCalibrationRow>,
    model: PlanarHolesModelKind,
) -> (multiplier: Scalar)
    ensures
        multiplier == multiplier_of(rows@, model),
{
    let all = String::from_str("all");
    let mut index: usize = 0;
    assert(rows@.skip(0) =~= rows@);
    while index < rows.len()
        invariant
            all@ == "all"@,
            index <= rows.len(),
            multiplier_of(rows@, model) == multiplier_of(rows@.skip(index as int), model),
        decreases rows.len() - index,
    {
        let row: &PlanarHolesTopologyVsNaiveGpCalibrationRow = &rows[index];
        assert(rows@.skip(index as int)[0] == rows@[index as int]);
        if row.model == model && row.kind == all {
            return if row.variance_multiplier.is_finite() && row.variance_multiplier.is_positive() {
                row.variance_multiplier
            } else {
                Scalar { bits: UNIT_MULTIPLIER }
            };
        }
        assert(rows@.skip(index as int).skip(1) =~= rows@.skip(index + 1));
        index = index + 1;
    }
    Scalar { bits: UNIT_MULTIPLIER }
}

/// A multiplier limited to the range from 0.001 to 1000.
pub open spec fn limited(value: Scalar) -> Scalar {
    if value.lt(Scalar { bits: LEAST_MULTIPLIER }) {
        Scalar { bits: LEAST_MULTIPLIER }
    } else if (Scalar { bits: GREATEST_MULTIPLIER }).lt(value) {
        Scalar { bits: GREATEST_MULTIPLIER }
    } else {
        value
    }
}

/// Limits a multiplier to the range from 0.001 to 1000.
pub fn limit_multiplier(value: Scalar) -> (result: Scalar)
    ensures
        result == limited(value),
{
    let least = Scalar { bits: LEAST_MULTIPLIER };
    let greatest = Scalar { bits: GREATEST_MULTIPLIER };
    if value.less_than(least) {
        least
    } else if greatest.less_than(value) {
        greatest
    } else {
        value
    }
}

/// The variance multiplier that validation asks for: the mean squared standardized residual
/// within its limits, and 1 where there is none or it is not finite.
pub fn fit_predictive_variance_multiplier(prediction_count: usize, mean_square: Scalar) -> (multiplier:
    Scalar)
    ensures
        multiplier == (if prediction_count > 0 && mean_square.finite() {
            limited(mean_square)
        } else {
            Scalar { bits: UNIT_MULTIPLIER }
        }),
{
    if prediction_count > 0 && mean_square.is_finite() {
        limit_multiplier(mean_square)
    } else {
        Scalar { bits: UNIT_MULTIPLIER }
    }
}

/// A limited multiplier lies within its limits, and limiting it again changes nothing.
pub proof fn lemma_limited(value: Scalar)
    requires
        !value.nan(),
    ensures
        (Scalar { bits: LEAST_MULTIPLIER }).le(limited(value)),
        limited(value).le(Scalar { bits: GREATEST_MULTIPLIER }),
        limited(limited(value)) == limited(value),
{
}

/// Whether a function grows as the natural logarithm does: between two positive numbers by at most
/// their relative difference to the smaller, and at least that to the larger.
pub open spec fn grows_as_logarithm(log: spec_fn(real) -> real) -> bool {
    forall|a: real, b: real|
        #![trigger log(a), log(b)]
        (0 as real) < a <= b ==> (1 as real) - a / b <= log(b) - log(a) <= b / a - (1 as real)
}

/// Whether a function gives finite numbers values in their order.
pub open spec fn values_in_order(value: spec_fn(Scalar) -> real) -> bool {
    forall|a: Scalar, b: Scalar|
        #![trigger value(a), value(b)]
        a.finite() && b.finite() && a.le(b) ==> value(a) <= value(b)
}

/// A sum of numbers.
pub open spec fn real_sum(numbers: Seq<real>) -> real
    decreases numbers.len(),
{
    if numbers.len() == 0 {
        0 as real
    } else {
        real_sum(numbers.drop_last()) + numbers.last()
    }
}

/// Twice the negative logarithm of the joint density of predictions whose variances are multiplied
/// by `multiplier`. A prediction counts with the logarithm of its own variance times two pi, and
/// with its squared standardized residual.
pub open spec fn predictive_score(
    log: spec_fn(real) -> real,
    log_variances: Seq<real>,
    squares: Seq<real>,
    multiplier: real,
) -> real
    decreases squares.len(),
{
    if squares.len() == 0 {
        0 as real
    } else {
        predictive_score(log, log_variances.drop_last(), squares.drop_last(), multiplier) + (
        log_variances.last() + log(multiplier) + squares.last() / multiplier)
    }
}

proof fn lemma_score_terms(
    log: spec_fn(real) -> real,
    log_variances: Seq<real>,
    squares: Seq<real>,
    multiplier: real,
)
    requires
        log_variances.len() == squares.len(),
        (0 as real) < multiplier,
    ensures
        predictive_score(log, log_variances, squares, multiplier) == real_sum(log_variances) + (
        squares.len() as real) * log(multiplier) + real_sum(squares) / multiplier,
    decreases squares.len(),
{
    if squares.len() > 0 {
        lemma_score_terms(log, log_variances.drop_last(), squares.drop_last(), multiplier);
        let (rest, last) = (real_sum(squares.drop_last()), squares.last());
        let (count, growth) = ((squares.len() - 1) as real, log(multiplier));
        assert(rest / multiplier + last / multiplier == (rest + last) / multiplier)
            by (nonlinear_arith)
            requires
                (0 as real) < multiplier,
        ;
        assert(squares.len() as real == count + (1 as real));
        assert(count * growth + growth == (count + (1 as real)) * growth) by (nonlinear_arith);
    } else {
        assert((0 as real) / multiplier == 0 as real) by (nonlinear_arith)
            requires
                (0 as real) < multiplier,
        ;
        assert((0 as real) * log(multiplier) == 0 as real) by (nonlinear_arith);
    }
}

/// The mean of the squares, moved into a range, is the best number of the range.
proof fn lemma_best_in_range(
    log: spec_fn(real) -> real,
    square: real,
    low: real,
    high: real,
    best: real,
    other: real,
)
    requires
        grows_as_logarithm(log),
        (0 as real) <= square,
        (0 as real) < low <= high,
        best == (if square < low {
            low
        } else if high < square {
            high
        } else {
            square
        }),
        low <= other <= high,
    ensures
        log(best) + square / best <= log(other) + square / other,
{
    if best < other {
        assert((1 as real) - best / other <= log(other) - log(best));
        assert(square / best - square / other <= (1 as real) - best / other) by (nonlinear_arith)
            requires
                (0 as real) < best < other,
                (0 as real) <= square <= best,
        ;
    } else if other < best {
        assert(log(best) - log(other) <= best / other - (1 as real));
        assert(best / other - (1 as real) <= square / other - square / best) by (nonlinear_arith)
            requires
                (0 as real) < other < best,
                best <= square,
        ;
    }
}

/// No multiplier within the limits gives predictions a higher joint density than the one that is
/// fitted to them, in exact arithmetic: where `mean_square` is the mean of the squared standardized
/// residuals.
pub proof fn lemma_fitted_multiplier_is_best(
    log: spec_fn(real) -> real,
    value: spec_fn(Scalar) -> real,
    log_variances: Seq<real>,
    squares: Seq<real>,
    mean_square: Scalar,
    other: Scalar,
)
    requires
        grows_as_logarithm(log),
        values_in_order(value),
        (0 as real) < value(Scalar { bits: LEAST_MULTIPLIER }),
        log_variances.len() == squares.len(),
        squares.len() > 0,
        mean_square.finite(),
        (0 as real) <= value(mean_square),
        value(mean_square) * (squares.len() as real) == real_sum(squares),
        (Scalar { bits: LEAST_MULTIPLIER }).le(other),
        other.le(Scalar { bits: GREATEST_MULTIPLIER }),
    ensures
        predictive_score(log, log_variances, squares, value(limited(mean_square)))
            <= predictive_score(log, log_variances, squares, value(other)),
{
    let (low, high) = (Scalar { bits: LEAST_MULTIPLIER }, Scalar { bits: GREATEST_MULTIPLIER });
    let (square, best, trial) = (value(mean_square), value(limited(mean_square)), value(other));
    assert(low.le(high) && low.finite() && high.finite() && other.finite());
    assert(value(low) <= value(high));
    assert(value(low) <= trial && trial <= value(high));
    let count = squares.len() as real;
    assert(value(low) <= best && best <= value(high));
    lemma_score_terms(log, log_variances, squares, best);
    lemma_score_terms(log, log_variances, squares, trial);
    assert(log(best) + square / best <= log(trial) + square / trial) by {
        if mean_square.lt(low) {
            assert(square <= value(low));
            if square < value(low) {
                lemma_best_in_range(log, square, value(low), value(high), best, trial);
            } else {
                lemma_best_in_range(log, square, square, value(high), best, trial);
            }
        } else if high.lt(mean_square) {
            assert(value(high) <= square);
            lemma_best_in_range(log, square, value(low), value(high), best, trial);
        } else {
            lemma_best_in_range(log, square, value(low), value(high), best, trial);
        }
    }
    let (a, b) = (log(best), log(trial));
    assert(count * a + (square * count) / best <= count * b + (square * count) / trial)
        by (nonlinear_arith)
        requires
            a + square / best <= b + square / trial,
            (0 as real) < count,
            (0 as real) < best,
            (0 as real) < trial,
    ;
}

/// The coverage of a subset of edges: that of the first summary of the model and subset.
pub open spec fn coverage_of(
    summaries: Seq<PlanarHolesFieldCoverageSummary>,
    model: PlanarHolesModelKind,
    subset: PlanarHolesFieldCoverageSubset,
) -> Option<Scalar>
    decreases summaries.len(),
{
    if summaries.len() == 0 {
        None
    } else if summaries[0].model == model && summaries[0].subset == subset {
        Some(summaries[0].coverage_95)
    } else {
        coverage_of(summaries.skip(1), model, subset)
    }
}

/// Looks up the coverage of a subset of edges.
pub fn field_coverage_value(
    summaries: &Vec<PlanarHolesFieldCoverageSummary>,
    model: PlanarHolesModelKind,
    subset: PlanarHolesFieldCoverageSubset,
) -> (coverage: Option<Scalar>)
    ensures
        coverage == coverage_of(summaries@, model, subset),
{
    let mut index: usize = 0;
    assert(summaries@.skip(0) =~= summaries@);
    while index < summaries.len()
        invariant
            index <= summaries.len(),
            coverage_of(summaries@, model, subset) == coverage_of(
                summaries@.skip(index as int),
                model,
                subset,
            ),
        decreases summaries.len() - index,
    {
        assert(summaries@.skip(index as int)[0] == summaries@[index as int]);
        if summaries[index].model == model && summaries[index].subset == subset {
            return Some(summaries[index].coverage_95);
        }
        assert(summaries@.skip(index as int).skip(1) =~= summaries@.skip(index + 1));
        index = index + 1;
    }
    None
}

/// Whether a value lies between two others.
pub open spec fn within(value: Scalar, lower: Scalar, upper: Scalar) -> bool {
    lower.le(value) && value.le(upper)
}

/// Tests whether an interval covers a value.
pub fn interval_covers(value: Scalar, lower: Scalar, upper: Scalar) -> (covered: bool)
    ensures
        covered == within(value, lower, upper),
{
    lower.at_most(value) && value.at_most(upper)
}

/// Chooses how the codifferential of a posterior is measured: relative to that of the truth where
/// the latter is above the threshold, and as leakage otherwise.
pub fn choose_codifferential_metric(
    truth_norm: Scalar,
    threshold: Scalar,
    relative_error: Scalar,
    leakage: Scalar,
) -> (chosen: (Scalar, PlanarHolesCodifferentialMetricKind))
    ensures
        chosen == (if threshold.lt(truth_norm) {
            (relative_error, PlanarHolesCodifferentialMetricKind::RelativeError)
        } else {
            (leakage, PlanarHolesCodifferentialMetricKind::Leakage)
        }),
{
    if threshold.less_than(truth_norm) {
        (relative_error, PlanarHolesCodifferentialMetricKind::RelativeError)
    } else {
        (leakage, PlanarHolesCodifferentialMetricKind::Leakage)
    }
}

/// A diagonal entry as a weight: itself where it is finite and positive, and zero otherwise.
pub fn positive_weight(value: Scalar) -> (weight: Scalar)
    ensures
        weight == (if value.finite() && value.positive() {
            value
        } else {
            Scalar { bits: 0 }
        }),
{
    if value.is_finite() && value.is_positive() {
        value
    } else {
        Scalar { bits: 0 }
    }
}

/// The message for a field of the wrong length.
pub open spec fn length_message(subject: Seq<char>, length: nat, truth: nat) -> Seq<char> {
    subject + " length "@ + decimal(length) + " does not match truth length "@ + decimal(truth)
}

/// Tests that a field is as long as the truth.
pub fn check_field_length(subject: &str, length: usize, truth: usize) -> (result: Result<
    (),
    String,
>)
    ensures
        match result {
            Ok(_) => length == truth,
            Err(message) => length != truth && message@ == length_message(
                subject@,
                length as nat,
                truth as nat,
            ),
        },
{
    if length == truth {
        return Ok(());
    }
    let mut message = String::from_str(subject);
    message.append(" length ");
    message.append(count_text(length).as_str());
    message.append(" does not match truth length ");
    message.append(count_text(truth).as_str());
    Err(message)
}

/// A step of the work on one model that can fail.
#[derive(Debug, Clone, Copy, PartialEq, Eq, Structural)]
pub enum ModelStep {
    Conditioning,
    Metrics,
    PeriodSummaries,
    LoopFunctionalSummaries,
    HeldoutPredictions,
    FieldCoverage,
}

impl ModelStep {
    /// How a message about the step starts.
    pub open spec fn words(self) -> Seq<char> {
        match self {
            ModelStep::Conditioning => "conditioning model "@,
            ModelStep::Metrics => "metrics for model "@,
            ModelStep::PeriodSummaries => "period summaries for model "@,
            ModelStep::LoopFunctionalSummaries => "loop functional summaries for model "@,
            ModelStep::HeldoutPredictions => "heldout predictions for model "@,
            ModelStep::FieldCoverage => "field coverage for model "@,
        }
    }

    /// Says that the step failed for a model, and why.
    pub fn failure(self, model: PlanarHolesModelKind, cause: &str) -> (message: String)
        ensures
            message@ == self.words() + model.name() + " failed: "@ + cause@,
    {
        let words: &str = match self {
            ModelStep::Conditioning => "conditioning model ",
            ModelStep::Metrics => "metrics for model ",
            ModelStep::PeriodSummaries => "period summaries for model ",
            ModelStep::LoopFunctionalSummaries => "loop functional summaries for model ",
            ModelStep::HeldoutPredictions => "heldout predictions for model ",
            ModelStep::FieldCoverage => "field coverage for model ",
        };
        let mut message = String::from_str(words);
        message.append(model.as_str());
        message.append(" failed: ");
        message.append(cause);
        message
    }
}

/// Says that a scenario failed, and why.
pub fn scenario_failure(scenario: PlanarHolesObservationScenario, cause: &str) -> (message: String)
    ensures
        message@ == "scenario "@ + scenario.name() + " failed: "@ + cause@,
{
    let mut message = String::from_str("scenario ");
    message.append(scenario.as_str());
    message.append(" failed: ");
    message.append(cause);
    message
}

} // verus!
