use feg_case_studies::hodge::HodgeBranchKind;
use feg_case_studies::planar_holes_hodge_flow::figure::{arrow_cells, panel_lines, PanelNumbers};
use feg_case_studies::planar_holes_hodge_flow::hole_cycles::PlanarHoleCycle;
use feg_case_studies::planar_holes_hodge_flow::holes::PlanarHolesDomainKind;
use feg_case_studies::planar_holes_hodge_flow::kinds::{
    PlanarHolesCodifferentialMetricKind, PlanarHolesFieldCoverageSubset,
    PlanarHolesLoopFunctionalKind, PlanarHolesModelKind, PlanarHolesObservationKind,
    PlanarHolesObservationScenario, PlanarHolesPriorEquivalenceGmrfVariant,
    PlanarHolesPriorEquivalenceSpectralReference, PlanarHolesSensorDesignKind,
};
use feg_case_studies::planar_holes_hodge_flow::designs::SensorDesignCounts;
use feg_case_studies::planar_holes_hodge_flow::models::Candidate;
use feg_case_studies::planar_holes_hodge_flow::observation::{
    ObservedEntries, PlanarHolesObservation,
};
use feg_case_studies::planar_holes_hodge_flow::reports::{
    barrier_summary_row, branch_recovery_summaries, calibration_rows_for_predictions,
    check_transform_rows, compared_eigenvalue_count, compares_eigenvalues, covered_count,
    field_coverage_summaries, find_branch_stats, functional_subject, heldout_predictions,
    is_denominator, loop_functional_rows_from_values, loop_functionals,
    mass_correlation, model_metrics, path_homology_summary_row, period_summaries,
    prediction_subset_stats, prior_equivalence_row, relative_or_nan, required_tau_scale,
    sensor_design_sweep_row, spectral_branch_row, spectral_diagnostic_branches,
    spectral_energy_rows, topology_vs_naive_metric_row, tuning_rows, vector_field_summary_row,
    BarrierCounts, BranchRecovery, CalibratedStats, ComparedEigenvalues, ComparedPriors,
    ComparisonErrors, CoverageStatistics, Estimate, FlowErrors, FunctionalRows, ModeEnergy,
    NormRatio,
    PathPairCounts, Predicted, PredictionKindStats, Projection, SelectedModel,
    SpectralBranchStats, SubsetCoverage, SubsetValues, SweepErrors,
};
use feg_case_studies::planar_holes_hodge_flow::spectral_plans::PriorComparison;
use feg_case_studies::planar_holes_hodge_flow::summaries::{
    calibration_groups, calibration_multiplier_for_model, check_field_length,
    choose_codifferential_metric, field_coverage_value, fit_predictive_variance_multiplier,
    interval_covers, limit_multiplier, positive_weight, predictions_of_kind,
    predictions_of_model, scenario_failure, ModelStep,
};
use feg_case_studies::planar_holes_hodge_flow::tables::{
    PlanarHolesFieldCoverageSummary, PlanarHolesHeldoutPrediction, PlanarHolesModelMetrics,
    PlanarHolesTopologyVsNaiveGpTuningRow,
};
use feg_case_studies::scalar::Scalar;
use feg_case_studies::table::{csv_header, csv_line, Cell, NumberFormat};

fn scalar(value: f64) -> Scalar {
    Scalar::from_bits(value.to_bits())
}

fn float(value: Scalar) -> f64 {
    f64::from_bits(value.bits)
}

const SCENARIO: PlanarHolesObservationScenario = PlanarHolesObservationScenario::LocalOnly;
const MODEL: PlanarHolesModelKind = PlanarHolesModelKind::HodgeMatern;

fn cycle(hole_index: usize) -> PlanarHoleCycle {
    PlanarHoleCycle {
        family: String::from("train"),
        hole_index,
        name: format!("hole_{hole_index}"),
        radius: scalar(0.1),
        angle_offset: scalar(0.0),
        target_vertices: Vec::new(),
        path_vertices: Vec::new(),
        edge_count: 0,
        closure_residual_l1: 0,
    }
}

fn estimate(truth: f64, deviation: f64) -> Estimate {
    Estimate {
        truth: scalar(truth),
        mean: scalar(1.0),
        deviation: scalar(deviation),
        lower: scalar(1.0 - 1.96 * deviation),
        upper: scalar(1.0 + 1.96 * deviation),
        residual: scalar(1.0 - truth),
        scaled_residual: scalar((1.0 - truth).abs() / deviation),
    }
}

fn stats(count: usize, value: f64) -> PredictionKindStats {
    PredictionKindStats {
        count,
        mean_nlpd: scalar(value),
        relative_error: scalar(value + 1.0),
        coverage_95: scalar(value + 2.0),
        mean_abs_z: scalar(value + 3.0),
    }
}

fn ratio(error: f64, truth: f64) -> NormRatio {
    NormRatio { error: scalar(error), truth: scalar(truth), ratio: scalar(error / truth) }
}

#[test]
fn quotients_by_zero_are_undefined() {
    assert_eq!(float(relative_or_nan(scalar(0.5), scalar(2.0))), 0.5);
    assert_eq!(float(relative_or_nan(scalar(0.5), scalar(-2.0))), 0.5);
    assert!(float(relative_or_nan(scalar(0.5), scalar(0.0))).is_nan());
    assert!(float(relative_or_nan(scalar(0.5), scalar(f64::NAN))).is_nan());
    assert_eq!(float(mass_correlation(scalar(0.25), scalar(1.0), scalar(2.0))), 0.25);
    assert!(float(mass_correlation(scalar(0.25), scalar(0.0), scalar(2.0))).is_nan());
    assert_eq!(float(required_tau_scale(scalar(1.5), scalar(1.0), scalar(2.0))), 1.5);
    assert!(float(required_tau_scale(scalar(1.5), scalar(0.0), scalar(2.0))).is_nan());
}

#[test]
fn periods_are_summed_up() {
    let rows = period_summaries(
        SCENARIO,
        MODEL,
        &vec![cycle(0), cycle(1)],
        &vec![estimate(1.5, 0.5), estimate(4.0, 0.0)],
    );
    assert_eq!(rows.len(), 2);
    assert!(rows[0].covered_95);
    assert_eq!(float(rows[0].abs_residual_over_std), 1.0);
    assert!(!rows[1].covered_95);
    assert!(float(rows[1].abs_residual_over_std).is_nan());
    assert_eq!(rows[1].hole_name, "hole_1");
    let loops = loop_functional_rows_from_values(
        SCENARIO,
        MODEL,
        PlanarHolesLoopFunctionalKind::CoexactAnnular,
        &vec![cycle(0)],
        &vec![estimate(1.0, 0.5)],
    );
    assert_eq!(loops[0].functional.as_str(), "coexact_annular");
    assert_eq!(
        loop_functionals(&vec![HodgeBranchKind::Coexact, HodgeBranchKind::Harmonic]),
        vec![
            PlanarHolesLoopFunctionalKind::TotalAnnular,
            PlanarHolesLoopFunctionalKind::HarmonicPeriod,
            PlanarHolesLoopFunctionalKind::CoexactAnnular
        ]
    );
}

fn observation(kind: PlanarHolesObservationKind, label: &str) -> PlanarHolesObservation {
    PlanarHolesObservation {
        kind,
        label: String::from(label),
        entries: ObservedEntries::Signed { entries: vec![(0, 1)] },
        noise_variance: scalar(1.0),
    }
}

fn predictions() -> Vec<PlanarHolesHeldoutPrediction> {
    let heldout = vec![
        observation(PlanarHolesObservationKind::HeldoutLoop, "a"),
        observation(PlanarHolesObservationKind::HeldoutLocal, "b"),
        observation(PlanarHolesObservationKind::HeldoutLoop, "c"),
    ];
    let value = Predicted {
        observed: scalar(1.0),
        truth: scalar(2.0),
        mean: scalar(3.0),
        variance: scalar(4.0),
        nlpd: scalar(5.0),
    };
    heldout_predictions(SCENARIO, MODEL, &heldout, &vec![value; 3])
}

#[test]
fn predictions_are_grouped_by_kind() {
    let rows = predictions();
    assert_eq!(rows[1].label, "b");
    assert_eq!(float(rows[1].predictive_variance), 4.0);
    assert_eq!(predictions_of_kind(&rows, PlanarHolesObservationKind::HeldoutLoop), vec![0, 2]);
    assert_eq!(predictions_of_model(&rows, MODEL), vec![0, 1, 2]);
    let groups = calibration_groups(&rows);
    let names: Vec<&str> = groups.iter().map(|g| g.name).collect();
    assert_eq!(names, vec!["all", "heldout_local", "heldout_loop"]);
    assert_eq!(groups[2].places, vec![0, 2]);
    let calibrated: Vec<CalibratedStats> = (0..3)
        .map(|i| CalibratedStats { raw: stats(i + 1, 1.0), calibrated: stats(i + 1, 2.0) })
        .collect();
    let table = calibration_rows_for_predictions(MODEL, scalar(1.5), &rows, &calibrated);
    assert_eq!(table.len(), 3);
    assert_eq!(table[0].kind, "all");
    assert_eq!(table[2].count, 3);
    assert_eq!(float(table[2].calibrated_nlpd), 2.0);
    assert_eq!(float(calibration_multiplier_for_model(&table, MODEL)), 1.5);
    assert_eq!(
        float(calibration_multiplier_for_model(
            &table,
            PlanarHolesModelKind::NondecomposedFeec
        )),
        1.0
    );
}

#[test]
fn multipliers_are_limited() {
    assert_eq!(float(limit_multiplier(scalar(2.0))), 2.0);
    let least = float(limit_multiplier(scalar(0.0)));
    let greatest = float(limit_multiplier(scalar(f64::INFINITY)));
    assert!(0.0 < least && least < 1.0 && 1.0 < greatest && greatest.is_finite());
    assert_eq!(float(fit_predictive_variance_multiplier(0, scalar(3.0))), 1.0);
    assert_eq!(float(fit_predictive_variance_multiplier(4, scalar(3.0))), 3.0);
}

#[test]
fn fitted_multipliers_are_best() {
    for squares in [[0.5, 2.0, 6.5], [1e-9, 0.0, 2e-9], [4e3, 1e4, 9e3]] {
        let mean = squares.iter().sum::<f64>() / 3.0;
        let score =
            |q: f64| squares.iter().map(|square| q.ln() + square / q).sum::<f64>();
        let fitted = float(fit_predictive_variance_multiplier(3, scalar(mean)));
        for other in [1e-3, 0.1, 0.5, 1.0, 2.9, 3.1, 20.0, 1e3] {
            assert!(score(fitted) <= score(other));
        }
    }
    assert_eq!(float(fit_predictive_variance_multiplier(3, scalar(1e4))), 1e3);
}

#[test]
fn coverage_is_summed_up() {
    let statistics = CoverageStatistics {
        coverage: scalar(0.5),
        weighted_coverage: scalar(0.5),
        mean_abs_z: scalar(1.0),
        rms_z: scalar(1.0),
        p95_abs_z: scalar(2.0),
        mean_deviation: scalar(0.1),
        weighted_mean_deviation: scalar(0.1),
        latent_nlpd: scalar(-1.0),
    };
    let rows: Vec<PlanarHolesFieldCoverageSummary> = field_coverage_summaries(
        SCENARIO,
        MODEL,
        SubsetCoverage { edge_count: 10, weight_sum: scalar(10.0), statistics: Some(statistics) },
        SubsetCoverage { edge_count: 0, weight_sum: scalar(0.0), statistics: None },
    );
    assert_eq!(rows.len(), 2);
    assert_eq!(rows[1].subset.as_str(), "heldout_local_edges");
    assert!(float(rows[1].coverage_95).is_nan());
    assert_eq!(
        field_coverage_value(&rows, MODEL, PlanarHolesFieldCoverageSubset::AllEdges).map(float),
        Some(0.5)
    );
    assert!(field_coverage_value(
        &rows,
        PlanarHolesModelKind::NondecomposedFeec,
        PlanarHolesFieldCoverageSubset::AllEdges
    )
    .is_none());
    let scores: Vec<Scalar> = [0.5, 1.96, 1.97, f64::NAN].iter().map(|&z| scalar(z)).collect();
    assert_eq!(covered_count(&scores), 2);
    assert!(interval_covers(scalar(1.0), scalar(1.0), scalar(2.0)));
    assert!(!interval_covers(scalar(f64::NAN), scalar(1.0), scalar(2.0)));
    assert_eq!(float(positive_weight(scalar(-1.0))), 0.0);
    assert_eq!(float(positive_weight(scalar(0.5))), 0.5);
}

fn recovery(branch: HodgeBranchKind) -> BranchRecovery {
    BranchRecovery {
        branch,
        truth_norm: scalar(2.0),
        posterior_norm: scalar(1.0),
        error_norm: scalar(1.0),
        error_ratio: scalar(0.5),
        product_ratio: scalar(0.75),
    }
}

#[test]
fn branches_are_recovered_in_order() {
    let rows = branch_recovery_summaries(
        SCENARIO,
        MODEL,
        &vec![recovery(HodgeBranchKind::Harmonic), recovery(HodgeBranchKind::Exact)],
    );
    assert_eq!(rows.len(), 2);
    assert_eq!(rows[0].branch, HodgeBranchKind::Exact);
    assert_eq!(float(rows[1].mass_correlation), 0.75);
}

fn branch_stats(branch: HodgeBranchKind) -> SpectralBranchStats {
    SpectralBranchStats {
        branch,
        requested_mode_count: 12,
        actual_mode_count: 10,
        unnormalized_expected_m1_energy: scalar(2.0),
        target_expected_m1_energy: None,
        normalization_scale: scalar(1.0),
        expected_m1_energy: scalar(2.0),
    }
}

fn selected() -> SelectedModel {
    SelectedModel {
        model: MODEL,
        selected: Candidate {
            kappa: scalar(4.0),
            tau: scalar(1.0),
            observation_variance_scale: scalar(2.0),
        },
        coexact_tau_scale: scalar(1.0),
        validation_nlpd: scalar(-1.0),
        training_count: 18,
        validation_count: 6,
        heldout_count: 9,
    }
}

fn comparison() -> ComparisonErrors {
    ComparisonErrors {
        l2_error: scalar(0.1),
        exterior_derivative_error: scalar(0.2),
        codifferential_leakage: scalar(0.3),
        heldout_nlpd: scalar(0.4),
        local: stats(1, 1.0),
        hole_loop: stats(2, 2.0),
        interior_loop: stats(3, 3.0),
        long_path: stats(4, 4.0),
    }
}

#[test]
fn comparisons_are_tabulated() {
    let row = topology_vs_naive_metric_row(
        selected(),
        &vec![branch_stats(HodgeBranchKind::Coexact)],
        comparison(),
        &Vec::new(),
    );
    assert_eq!(row.spectral_coexact_requested_modes, 12);
    assert_eq!(row.spectral_harmonic_actual_modes, 0);
    assert!(float(row.spectral_harmonic_expected_m1_energy).is_nan());
    assert_eq!(float(row.heldout_long_path_relative_error), 5.0);
    assert!(float(row.all_edge_coverage_95).is_nan());
    let figure = vector_field_summary_row(
        &row,
        stats(9, 7.0),
        stats(1, 1.0),
        stats(2, 2.0),
        stats(3, 3.0),
        String::from("posterior.vtu"),
    );
    assert_eq!(float(figure.calibrated_heldout_nlpd), 7.0);
    assert_eq!(float(figure.path_contrast_relative_error), 3.0);
    assert_eq!(figure.posterior_vtu_path, "posterior.vtu");
    assert!(find_branch_stats(&Vec::new(), HodgeBranchKind::Exact).is_none());
}

#[test]
fn studies_are_summed_up() {
    let pair = |count: usize| CalibratedStats { raw: stats(count, 1.0), calibrated: stats(count, 2.0) };
    let barrier = barrier_summary_row(
        MODEL,
        BarrierCounts { train_left: 4, validation_left: 5, heldout_right: 6 },
        pair(6),
        pair(7),
        pair(3),
    );
    assert_eq!(barrier.heldout_right_edge_count, 6);
    assert_eq!(barrier.heldout_cross_barrier_path_count, 7);
    assert_eq!(float(barrier.calibrated_hole_loop_nlpd), 2.0);
    let cells = barrier.to_cells(PlanarHolesDomainKind::Barrier);
    assert!(matches!(&cells[0], Cell::Text { text } if text == "vertical_barrier_three_holes"));
    let paths = path_homology_summary_row(
        MODEL,
        PathPairCounts { train: 3, validation: 3, heldout: 3, contrast_rank: 3 },
        pair(6),
        pair(3),
        pair(3),
    );
    assert_eq!(paths.path_contrast_harmonic_pairing_rank, 3);
    assert_eq!(float(paths.path_contrast_mean_abs_z), 4.0);
}

#[test]
fn sweeps_are_tabulated() {
    let counts = SensorDesignCounts {
        edge_count: 4,
        interior_loop_count: 3,
        long_path_count: 2,
        harmonic_period_count: 1,
    };
    let errors = SweepErrors {
        l2_error: scalar(0.5),
        codifferential_leakage: scalar(0.25),
        local: stats(1, 1.0),
        interior_loop: stats(1, 2.0),
        long_path: stats(1, 3.0),
        harmonic_period: stats(1, 4.0),
        coexact: Some(recovery(HodgeBranchKind::Coexact)),
        harmonic: None,
    };
    let row = sensor_design_sweep_row(
        PlanarHolesSensorDesignKind::Hybrid,
        MODEL,
        scalar(1.0),
        counts,
        10,
        errors,
        &Vec::new(),
    );
    assert_eq!(row.observation_count, 10);
    assert_eq!(float(row.coexact_relative_error), 0.5);
    assert!(float(row.harmonic_relative_error).is_nan());
    assert_eq!(float(row.heldout_harmonic_period_nlpd), 4.0);
}

fn flow_errors(codifferential_truth: f64) -> FlowErrors {
    FlowErrors {
        l2: ratio(1.0, 2.0),
        exterior_derivative: ratio(1.0, 4.0),
        codifferential: ratio(1.0, codifferential_truth),
        leakage_ratio: scalar(0.125),
        codifferential_threshold: scalar(1e-6),
        circulation: ratio(1.0, 8.0),
        total_annular: ratio(1.0, 8.0),
        harmonic_period: None,
        coexact_annular: Some(ratio(3.0, 4.0)),
        mean_abs_circulation_error: scalar(0.5),
        max_abs_circulation_error: scalar(1.0),
        heldout_nlpd: scalar(-2.0),
        local: stats(1, 1.0),
        hole_loop: stats(1, 2.0),
        heldout_harmonic_period: stats(0, 3.0),
    }
}

#[test]
fn metrics_choose_between_error_and_leakage() {
    let row: PlanarHolesModelMetrics = model_metrics(SCENARIO, MODEL, 12, flow_errors(2.0));
    assert_eq!(float(row.l2_error), 0.5);
    assert_eq!(
        row.codifferential_metric_kind,
        PlanarHolesCodifferentialMetricKind::RelativeError
    );
    assert_eq!(float(row.codifferential_error), 0.5);
    assert!(float(row.relative_harmonic_period_error).is_nan());
    assert_eq!(float(row.relative_coexact_annular_error), 0.75);
    let closed = model_metrics(SCENARIO, MODEL, 12, flow_errors(1e-9));
    assert_eq!(closed.codifferential_metric_kind, PlanarHolesCodifferentialMetricKind::Leakage);
    assert_eq!(float(closed.codifferential_error), 0.125);
    let (value, kind) =
        choose_codifferential_metric(scalar(1.0), scalar(0.5), scalar(2.0), scalar(3.0));
    assert_eq!((float(value), kind), (2.0, PlanarHolesCodifferentialMetricKind::RelativeError));
}

#[test]
fn priors_are_reported() {
    let priors = ComparedPriors {
        actual_mode_count: 10,
        spectral_energy: scalar(1.0),
        spectral_unnormalized_energy: scalar(2.0),
        spectral_normalization_scale: scalar(0.5),
        gmrf_energy: scalar(4.0),
        gmrf_tau_scale: scalar(1.0),
        energy_root: scalar(2.0),
        trace_ratio: scalar(3.0),
        frobenius_error: scalar(0.1),
        diagonal_min: scalar(0.1),
        diagonal_mean: scalar(0.2),
        diagonal_max: scalar(0.3),
        source_eigen_count: 7,
        source_eigen_l2_error: scalar(0.4),
        source_eigen_max_error: scalar(0.5),
    };
    let comparison = PriorComparison {
        requested_mode_count: 16,
        reference: PlanarHolesPriorEquivalenceSpectralReference::Raw,
        variant: PlanarHolesPriorEquivalenceGmrfVariant::ExactLower,
    };
    let row = prior_equivalence_row(comparison, priors, None);
    assert_eq!(row.covariance_eigen_count, 0);
    assert_eq!(float(row.required_tau_scale_to_match_spectral_trace), 2.0);
    assert!(float(row.gmrf_covariance_eigen_max).is_nan());
    let eigenvalues = ComparedEigenvalues {
        spectral_count: 9,
        spectral_min: scalar(1.0),
        spectral_max: scalar(2.0),
        gmrf_count: 8,
        gmrf_min: scalar(3.0),
        gmrf_max: scalar(4.0),
    };
    let row = prior_equivalence_row(comparison, priors, Some(eigenvalues));
    assert_eq!(row.covariance_eigen_count, 8);
    assert_eq!(float(row.gmrf_covariance_eigen_max), 4.0);
    assert!(compares_eigenvalues(600, 600));
    assert!(!compares_eigenvalues(601, 600));
}

#[test]
fn spectral_branches_are_diagnosed() {
    let stats = vec![branch_stats(HodgeBranchKind::Harmonic), branch_stats(HodgeBranchKind::Coexact)];
    assert_eq!(
        spectral_diagnostic_branches(
            &vec![HodgeBranchKind::Exact, HodgeBranchKind::Harmonic, HodgeBranchKind::Coexact],
            &stats
        ),
        vec![HodgeBranchKind::Coexact, HodgeBranchKind::Harmonic]
    );
    let projection = Projection {
        truth_norm: scalar(2.0),
        truth_energy: scalar(4.0),
        projected_norm: scalar(1.0),
        error_ratio: scalar(0.5),
        mahalanobis_norm: scalar(3.0),
    };
    let row = spectral_branch_row(MODEL, stats[1], projection);
    assert_eq!(row.actual_mode_count, 10);
    assert!(float(row.target_expected_m1_energy).is_nan());
    assert_eq!(float(row.projection_relative_error), 0.5);
    let energy = ModeEnergy {
        projected: scalar(1.0),
        prior: scalar(1.0),
        projected_ratio: scalar(0.25),
        prior_ratio: scalar(0.5),
    };
    let energies = spectral_energy_rows(MODEL, stats[1], projection, &vec![energy; 3]);
    assert_eq!(energies.len(), 3);
    let places: Vec<usize> = energies.iter().map(|e| e.mode_index).collect();
    assert!(places.windows(2).all(|pair| pair[1] == pair[0] + 1));
    assert_eq!(float(energies[2].cumulative_projected_energy_fraction), 0.25);
    assert!(check_transform_rows(4, 4).is_ok());
    assert_eq!(
        check_transform_rows(3, 4).unwrap_err(),
        "spectral transform rows 3 do not match truth length 4"
    );
}

#[test]
fn empty_subsets_have_no_statistics() {
    let values = SubsetValues {
        mean_nlpd: scalar(1.0),
        error_ratio: scalar(0.5),
        truth_norm: scalar(0.0),
        coverage: scalar(0.9),
        mean_abs_z: scalar(0.8),
    };
    assert!(float(prediction_subset_stats(0, values).mean_nlpd).is_nan());
    let stats = prediction_subset_stats(2, values);
    assert_eq!(float(stats.coverage_95), 0.9);
    assert!(float(stats.relative_error).is_nan());
}

#[test]
fn tunings_are_tabulated() {
    let kappas = vec![scalar(1.0), scalar(2.0)];
    let rows = tuning_rows(
        MODEL,
        &kappas,
        &vec![scalar(3.0)],
        &vec![scalar(4.0), scalar(5.0)],
        &vec![scalar(0.1), scalar(0.2), scalar(0.3), scalar(0.4)],
    );
    assert_eq!(rows.len(), 4);
    assert_eq!(float(rows[2].kappa), 2.0);
    assert_eq!(float(rows[3].observation_variance_scale), 5.0);
    assert_eq!(float(rows[3].validation_nlpd), 0.4);
    let header = csv_header(&PlanarHolesTopologyVsNaiveGpTuningRow::column_names());
    let cells = rows[0].to_cells();
    assert_eq!(header.split(',').count(), cells.len());
    let numbers: Vec<String> = cells
        .iter()
        .map(|cell| match cell {
            Cell::Number { value, format: NumberFormat::Scientific17 } => {
                format!("{:.17e}", float(*value))
            }
            Cell::Number { value, .. } => format!("{:.12}", float(*value)),
            _ => String::new(),
        })
        .collect();
    assert!(csv_line(&cells, &numbers).starts_with("feec_hodge_matern,"));
}

#[test]
fn failures_name_their_step() {
    assert_eq!(
        ModelStep::Metrics.failure(MODEL, "no mass"),
        "metrics for model feec_hodge_matern failed: no mass"
    );
    assert_eq!(
        scenario_failure(PlanarHolesObservationScenario::LocalPlusLoops, "no mass"),
        "scenario local_plus_loops failed: no mass"
    );
    assert!(check_field_length("posterior mean", 4, 4).is_ok());
    assert_eq!(
        check_field_length("posterior mean", 3, 4).unwrap_err(),
        "posterior mean length 3 does not match truth length 4"
    );
}

#[test]
fn arrows_are_thinned_out() {
    assert_eq!(arrow_cells(3), vec![0, 1, 2]);
    assert_eq!(arrow_cells(400).len(), 400);
    let places = arrow_cells(1000);
    assert_eq!(places[1], 3);
    assert_eq!(places.len(), 334);
    assert!(arrow_cells(0).is_empty());
    assert_eq!(panel_lines("Truth", &None), vec![String::from("Truth")]);
    let numbers = PanelNumbers {
        l2_error: String::from("0.100"),
        path_contrast: String::from("0.200"),
        hole_loop: String::from("0.300"),
        leakage: String::from("1.0e-3"),
    };
    assert_eq!(
        panel_lines("GP", &Some(numbers))[1],
        "E1=0.100  contrast=0.200  loop=0.300  leakage=1.0e-3"
    );
}

#[test]
fn functionals_have_a_branch_and_rows() {
    assert_eq!(
        functional_subject(PlanarHolesLoopFunctionalKind::TotalAnnular),
        (None, FunctionalRows::Annular)
    );
    assert_eq!(
        functional_subject(PlanarHolesLoopFunctionalKind::HarmonicPeriod),
        (Some(HodgeBranchKind::Harmonic), FunctionalRows::Train)
    );
    assert_eq!(
        functional_subject(PlanarHolesLoopFunctionalKind::CoexactAnnular),
        (Some(HodgeBranchKind::Coexact), FunctionalRows::Annular)
    );
    // The functional of a branch is reported only where there is the branch.
    for branches in [vec![], vec![HodgeBranchKind::Coexact], vec![HodgeBranchKind::Harmonic]] {
        for functional in loop_functionals(&branches) {
            let (branch, _) = functional_subject(functional);
            assert!(branch.map_or(true, |branch| branches.contains(&branch)));
        }
        assert_eq!(loop_functionals(&branches).len(), 1 + branches.len());
    }
}

#[test]
fn eigenvalues_are_compared_as_far_as_there_are_any() {
    assert_eq!(compared_eigenvalue_count(3, 5, 7), 3);
    assert_eq!(compared_eigenvalue_count(9, 5, 7), 5);
    assert_eq!(compared_eigenvalue_count(9, 8, 0), 0);
    assert!(is_denominator(scalar(-1e-9)));
    for zero in [0.0, 1e-10, -1e-11, f64::INFINITY, f64::NAN] {
        assert!(!is_denominator(scalar(zero)));
    }
}
