use feg_case_studies::hodge::HodgeBranchKind;
use feg_case_studies::planar_holes_hodge_flow::comparison::{
    barrier_result, path_homology_result, BarrierStats, Comparison, ComparisonAction, Conclusion,
    ObservationCounts, PathHomologyStats, PlanarHolesTopologyVsNaiveGpResult, Trial,
};
use feg_case_studies::planar_holes_hodge_flow::config::{
    PlanarHolesFlowConfig, PlanarHolesSensorDesignSweepConfig, PlanarHolesTopologyVsNaiveGpConfig,
};
use feg_case_studies::planar_holes_hodge_flow::designs::SensorDesignCounts;
use feg_case_studies::planar_holes_hodge_flow::hole_cycles::PlanarHoleCycle;
use feg_case_studies::planar_holes_hodge_flow::holes::PlanarHolesDomainKind;
use feg_case_studies::planar_holes_hodge_flow::kinds::{
    PlanarHolesCoexactTruthSource, PlanarHolesExactTruthSource, PlanarHolesLoopFunctionalKind,
    PlanarHolesModelKind, PlanarHolesObservationKind, PlanarHolesObservationScenario,
    PlanarHolesSensorDesignKind,
};
use feg_case_studies::planar_holes_hodge_flow::models::{
    check_branches, coexact_tau_rule, fixed_reference_kappa, fixed_reference_tau, model_branches,
    planned_models,
    spectral_energy_target, CoexactTauRule, ComparedModels,
};
use feg_case_studies::planar_holes_hodge_flow::observation::{
    ObservedEntries, PlanarHolesObservation,
};
use feg_case_studies::planar_holes_hodge_flow::reports::{
    heldout_predictions, loop_functionals, BarrierCounts, BranchRecovery, CalibratedStats, ComparisonErrors,
    Estimate, FlowErrors, NormRatio, PathPairCounts, Predicted, PredictionKindStats,
    SubsetCoverage, SweepErrors,
};
use feg_case_studies::planar_holes_hodge_flow::scenario::{
    BranchMean, ModelOutcome, PlanarHolesFieldCoverageDiagnostics, ScenarioRun,
};
use feg_case_studies::planar_holes_hodge_flow::spectral_plans::needs_spectral_truth;
use feg_case_studies::planar_holes_hodge_flow::sweep::{SweepCase, SweepOutcome, SweepRun};
use feg_case_studies::planar_holes_hodge_flow::topology::PlanarHolesTopologySummary;
use feg_case_studies::scalar::Scalar;

fn scalar(value: f64) -> Scalar {
    Scalar::from_bits(value.to_bits())
}

fn float(value: Scalar) -> f64 {
    f64::from_bits(value.bits)
}

fn config() -> PlanarHolesTopologyVsNaiveGpConfig {
    let mut config = PlanarHolesTopologyVsNaiveGpConfig::default();
    config.hodge_kappas = vec![scalar(2.0), scalar(3.0)];
    config.hodge_taus = vec![scalar(0.5)];
    config.naive_kappas = vec![scalar(4.0)];
    config.naive_taus = vec![scalar(0.25)];
    config.observation_variance_scales = vec![scalar(10.0), scalar(1.0)];
    config
}

fn summary() -> PlanarHolesTopologySummary {
    PlanarHolesTopologySummary {
        vertex_count: 8,
        edge_count: 16,
        face_count: 8,
        euler_characteristic: 0,
        b0: 1,
        b1: 1,
        b2: 0,
        boundary_edge_count: 8,
    }
}

fn started(compared: ComparedModels) -> Comparison {
    let counts = ObservationCounts { training: 5, validation: 3, heldout: 2 };
    Comparison::new(compared, &config(), scalar(0.125), counts, summary(), (3, 3, 3))
}

fn trial(score: f64) -> Trial {
    Trial { score: scalar(score), variance_multiplier: scalar(score + 1.0) }
}

fn stats(count: usize, value: f64) -> PredictionKindStats {
    PredictionKindStats {
        count,
        mean_nlpd: scalar(value),
        relative_error: scalar(value + 1.0),
        coverage_95: scalar(value + 2.0),
        mean_abs_z: scalar(value + 3.0),
    }
}

fn calibrated(count: usize) -> CalibratedStats {
    CalibratedStats { raw: stats(count, 1.0), calibrated: stats(count, 2.0) }
}

fn observation(label: &str) -> PlanarHolesObservation {
    PlanarHolesObservation {
        kind: PlanarHolesObservationKind::HeldoutLocal,
        label: label.to_string(),
        entries: ObservedEntries::Signed { entries: vec![(0, 1)] },
        noise_variance: scalar(0.1),
    }
}

fn predicted(value: f64) -> Predicted {
    Predicted {
        observed: scalar(value),
        truth: scalar(value),
        mean: scalar(value + 0.5),
        variance: scalar(1.0),
        nlpd: scalar(1.25),
    }
}

fn conclusion(model: PlanarHolesModelKind) -> Conclusion {
    let heldout = vec![observation("a"), observation("b")];
    let predictions = heldout_predictions(
        PlanarHolesObservationScenario::LocalOnly,
        model,
        &heldout,
        &vec![predicted(1.0), predicted(2.0)],
    );
    Conclusion {
        coexact_tau_scale: scalar(0.75),
        spectral: Vec::new(),
        errors: ComparisonErrors {
            l2_error: scalar(0.1),
            exterior_derivative_error: scalar(0.2),
            codifferential_leakage: scalar(0.3),
            heldout_nlpd: scalar(0.4),
            local: stats(2, 1.0),
            hole_loop: stats(0, 2.0),
            interior_loop: stats(0, 3.0),
            long_path: stats(0, 4.0),
        },
        predictions,
        stats: vec![calibrated(2), calibrated(2)],
        coverage: Vec::new(),
    }
}

fn tried(action: ComparisonAction) -> (PlanarHolesModelKind, f64, f64, f64) {
    match action {
        ComparisonAction::Try { model, candidate } => (
            model,
            float(candidate.kappa),
            float(candidate.tau),
            float(candidate.observation_variance_scale),
        ),
        other => panic!("no trial is due: {other:?}"),
    }
}

fn compared() -> PlanarHolesTopologyVsNaiveGpResult {
    let config = config();
    let mut comparison = started(ComparedModels::Tuned);
    let scores = [4.0, f64::NAN, 1.5, 1.5, 7.0, 6.0];
    for score in scores {
        tried(comparison.next_action(&config));
        assert_eq!(comparison.record_trial(&config, trial(score)), Ok(()));
    }
    while let ComparisonAction::Conclude { selection } = comparison.next_action(&config) {
        comparison.record_conclusion(&config, conclusion(selection.model));
    }
    assert_eq!(comparison.next_action(&config), ComparisonAction::Done);
    comparison.report
}

#[test]
fn candidates_are_tried_with_scales_varying_fastest() {
    let config = config();
    let mut comparison = started(ComparedModels::Tuned);
    let mut seen = Vec::new();
    for _ in 0..6 {
        seen.push(tried(comparison.next_action(&config)));
        assert_eq!(comparison.record_trial(&config, trial(1.0)), Ok(()));
    }
    let feec = PlanarHolesModelKind::NondecomposedFeec;
    let naive = PlanarHolesModelKind::NaiveEuclideanVectorMatern;
    assert_eq!(
        seen,
        vec![
            (feec, 2.0, 0.5, 10.0),
            (feec, 2.0, 0.5, 1.0),
            (feec, 3.0, 0.5, 10.0),
            (feec, 3.0, 0.5, 1.0),
            (naive, 4.0, 0.25, 10.0),
            (naive, 4.0, 0.25, 1.0),
        ]
    );
    assert!(matches!(comparison.next_action(&config), ComparisonAction::Conclude { .. }));
}

#[test]
fn the_first_of_the_least_finite_scores_is_selected() {
    let report = compared();
    assert_eq!(report.rows.len(), 2);
    assert_eq!(report.rows[0].model, PlanarHolesModelKind::NondecomposedFeec);
    assert_eq!(float(report.rows[0].selected_kappa), 3.0);
    assert_eq!(float(report.rows[0].selected_observation_variance_scale), 10.0);
    assert_eq!(float(report.rows[0].validation_nlpd), 1.5);
    assert_eq!(report.rows[0].training_observation_count, 8);
    assert_eq!(report.rows[0].validation_observation_count, 3);
    assert_eq!(report.rows[0].heldout_observation_count, 2);
    assert_eq!(float(report.rows[0].model_coexact_tau_scale), 0.75);
    assert_eq!(report.rows[1].model, PlanarHolesModelKind::NaiveEuclideanVectorMatern);
    assert_eq!(float(report.rows[1].validation_nlpd), 6.0);
    assert_eq!(report.tuning_rows.len(), 6);
    assert_eq!(float(report.tuning_rows[2].kappa), 3.0);
    assert_eq!(float(report.tuning_rows[5].validation_nlpd), 6.0);
    assert_eq!(report.calibration_rows.len(), 4);
    assert_eq!(report.calibration_rows[0].kind, "all");
    assert_eq!(float(report.calibration_rows[0].variance_multiplier), 2.5);
    assert_eq!(report.calibration_rows[3].kind, "heldout_local");
    assert_eq!(report.heldout_predictions.len(), 4);
    assert_eq!(report.heldout_predictions[3].label, "b");
    assert_eq!(report.topology_summary.edge_count, 16);
    assert_eq!(report.validation_cycle_harmonic_pairing_rank, 3);
}

#[test]
fn a_tuned_model_without_a_finite_score_ends_the_comparison() {
    let config = config();
    let mut comparison = started(ComparedModels::Tuned);
    for _ in 0..3 {
        assert_eq!(comparison.record_trial(&config, trial(f64::NAN)), Ok(()));
    }
    let message = comparison.record_trial(&config, trial(f64::INFINITY)).unwrap_err();
    assert_eq!(
        message,
        "no finite validation score for topology-vs-naive model nondecomposed_feec_hodge_matern"
    );
}

#[test]
fn references_are_tried_once_with_the_configured_parameters() {
    let config = config();
    let mut comparison = started(ComparedModels::Figure);
    let kappa = float(config.base.coexact_kappa);
    for model in [
        PlanarHolesModelKind::SpectralIncompressibleHodgeGp,
        PlanarHolesModelKind::ExactLowerTraceMatchedIncompressibleHodgeMatern,
        PlanarHolesModelKind::IncompressibleHodgeMatern,
    ] {
        assert_eq!(tried(comparison.next_action(&config)), (model, kappa, 0.125, 1.0));
        assert_eq!(comparison.record_trial(&config, trial(f64::NAN)), Ok(()));
    }
    assert_eq!(
        tried(comparison.next_action(&config)).0,
        PlanarHolesModelKind::NondecomposedFeec
    );
    assert_eq!(comparison.selections.len(), 3);
    assert!(float(comparison.selections[0].validation_nlpd).is_nan());
    assert!(comparison.report.tuning_rows.is_empty());
}

#[test]
fn challenge_reports_have_a_row_for_every_model() {
    let barrier = barrier_result(
        compared(),
        BarrierCounts { train_left: 4, validation_left: 5, heldout_right: 6 },
        &vec![
            BarrierStats { local: calibrated(1), path: calibrated(2), hole_loop: calibrated(3) },
            BarrierStats { local: calibrated(4), path: calibrated(5), hole_loop: calibrated(6) },
        ],
    );
    assert_eq!(barrier.domain, PlanarHolesDomainKind::Barrier);
    assert_eq!(barrier.rows.len(), 2);
    assert_eq!(barrier.rows[1].model, PlanarHolesModelKind::NaiveEuclideanVectorMatern);
    assert_eq!(barrier.rows[1].heldout_cross_barrier_path_count, 5);
    let homology = path_homology_result(
        compared(),
        PathPairCounts { train: 3, validation: 3, heldout: 6, contrast_rank: 3 },
        &vec![
            PathHomologyStats { path: calibrated(1), contrast: calibrated(2), hole_loop: calibrated(3) },
            PathHomologyStats { path: calibrated(4), contrast: calibrated(5), hole_loop: calibrated(6) },
        ],
    );
    assert_eq!(homology.domain, PlanarHolesDomainKind::Default);
    assert_eq!(homology.path_contrast_harmonic_pairing_rank, 3);
    assert_eq!(homology.rows[0].model, PlanarHolesModelKind::NondecomposedFeec);
    assert_eq!(homology.rows[0].heldout_path_pair_count, 6);
    assert_eq!(float(homology.rows[1].calibrated_path_contrast_nlpd), 2.0);
}

fn cycle(hole_index: usize) -> PlanarHoleCycle {
    PlanarHoleCycle {
        family: String::from("heldout"),
        hole_index,
        name: format!("heldout_{hole_index}"),
        radius: scalar(0.1),
        angle_offset: scalar(0.0),
        target_vertices: Vec::new(),
        path_vertices: Vec::new(),
        edge_count: 0,
        closure_residual_l1: 0,
    }
}

fn estimate(truth: f64) -> Estimate {
    Estimate {
        truth: scalar(truth),
        mean: scalar(1.0),
        deviation: scalar(1.0),
        lower: scalar(-0.96),
        upper: scalar(2.96),
        residual: scalar(1.0 - truth),
        scaled_residual: scalar((1.0 - truth).abs()),
    }
}

fn ratio(error: f64) -> NormRatio {
    NormRatio { error: scalar(error), truth: scalar(2.0), ratio: scalar(error / 2.0) }
}

fn outcome(branches: &[HodgeBranchKind]) -> ModelOutcome {
    let functional_count = loop_functionals(&branches.to_vec()).len();
    let uncovered = SubsetCoverage { edge_count: 4, weight_sum: scalar(1.0), statistics: None };
    ModelOutcome {
        errors: FlowErrors {
            l2: ratio(1.0),
            exterior_derivative: ratio(1.0),
            codifferential: ratio(1.0),
            leakage_ratio: scalar(0.5),
            codifferential_threshold: scalar(1e-10),
            circulation: ratio(0.5),
            total_annular: ratio(0.25),
            harmonic_period: None,
            coexact_annular: None,
            mean_abs_circulation_error: scalar(0.1),
            max_abs_circulation_error: scalar(0.2),
            heldout_nlpd: scalar(1.0),
            local: stats(2, 1.0),
            hole_loop: stats(0, 1.0),
            heldout_harmonic_period: stats(0, 1.0),
        },
        periods: vec![estimate(0.5), estimate(5.0)],
        functionals: (0..functional_count)
            .map(|f| vec![estimate(f as f64), estimate(f as f64 + 0.5)])
            .collect(),
        predictions: vec![predicted(1.0), predicted(2.0), predicted(3.0)],
        all_edges: uncovered,
        heldout_edges: uncovered,
        recoveries: branches
            .iter()
            .map(|&branch| BranchRecovery {
                branch,
                truth_norm: scalar(1.0),
                posterior_norm: scalar(1.0),
                error_norm: scalar(0.5),
                error_ratio: scalar(0.5),
                product_ratio: scalar(0.9),
            })
            .collect(),
        posterior_mean: vec![scalar(1.0)],
        branch_means: branches
            .iter()
            .map(|&branch| BranchMean { branch, mean: vec![scalar(2.0)] })
            .collect(),
        field_coverage: PlanarHolesFieldCoverageDiagnostics {
            posterior_std: vec![scalar(3.0)],
            abs_z_score: vec![scalar(4.0)],
            covered_95: vec![scalar(1.0)],
            posterior_mean_error: vec![scalar(5.0)],
        },
    }
}

#[test]
fn a_scenario_reports_every_planned_model_in_order() {
    let mut config = PlanarHolesFlowConfig::default();
    config.include_incompressible_hodge_model = true;
    let planned = planned_models(&config);
    let cycles = vec![cycle(0), cycle(1)];
    let heldout = vec![observation("a"), observation("b"), observation("c")];
    let scenario = PlanarHolesObservationScenario::LocalPlusLoops;
    let mut run = ScenarioRun::new(&config, scenario, 7);
    let mut models = Vec::new();
    while let Some(model) = run.next_model() {
        models.push(model);
        let branches = model_branches(model);
        assert!(check_branches(model, &branches));
        run.record_model(&cycles, &heldout, outcome(&branches));
    }
    assert_eq!(models, planned);
    let result = run.result;
    assert_eq!(result.scenario, scenario);
    assert_eq!(result.observation_count, 7);
    assert_eq!(result.metrics.len(), planned.len());
    assert_eq!(result.metrics[1].model, planned[1]);
    assert_eq!(result.metrics[1].observation_count, 7);
    assert_eq!(float(result.metrics[0].l2_error), 0.5);
    assert_eq!(result.period_summaries.len(), 2 * planned.len());
    assert_eq!(result.period_summaries[1].hole_name, "heldout_1");
    assert!(result.period_summaries[0].covered_95 && !result.period_summaries[1].covered_95);
    let reported: usize =
        planned.iter().map(|&model| loop_functionals(&model_branches(model)).len()).sum();
    assert_eq!(loop_functionals(&model_branches(planned[0])).len(), 3);
    assert_eq!(result.loop_functional_summaries.len(), 2 * reported);
    assert_eq!(
        result.loop_functional_summaries[2].functional,
        PlanarHolesLoopFunctionalKind::HarmonicPeriod
    );
    assert_eq!(float(result.loop_functional_summaries[5].truth_value), 2.5);
    let recovered: Vec<(PlanarHolesModelKind, HodgeBranchKind)> = result
        .branch_recovery_summaries
        .iter()
        .map(|row| (row.model, row.branch))
        .collect();
    let expected: Vec<(PlanarHolesModelKind, HodgeBranchKind)> = planned
        .iter()
        .flat_map(|&model| model_branches(model).into_iter().map(move |branch| (model, branch)))
        .collect();
    assert_eq!(recovered[0], (PlanarHolesModelKind::HodgeMatern, HodgeBranchKind::Exact));
    assert!(recovered.len() > 3);
    assert_eq!(recovered, expected);
    assert_eq!(result.heldout_predictions.len(), 3 * planned.len());
    assert_eq!(result.heldout_predictions[2].label, "c");
    assert_eq!(result.field_coverage_summaries.len(), 2 * planned.len());
    assert_eq!(result.posteriors.len(), planned.len());
    assert_eq!(result.posteriors[0].branch_means.len(), 3);
    assert_eq!(float(result.posteriors[0].field_coverage.posterior_std[0]), 3.0);
}

#[test]
fn only_spectral_models_may_lack_branches() {
    let spectral = PlanarHolesModelKind::SpectralHodgeGp;
    let (exact, coexact) = (HodgeBranchKind::Exact, HodgeBranchKind::Coexact);
    assert!(check_branches(spectral, &vec![exact, HodgeBranchKind::Harmonic]));
    assert!(check_branches(spectral, &Vec::new()));
    assert!(!check_branches(spectral, &vec![coexact, exact]));
    assert!(!check_branches(spectral, &vec![exact, exact]));
    assert!(!check_branches(PlanarHolesModelKind::SpectralExactHodgeGp, &vec![coexact]));
    assert!(!check_branches(PlanarHolesModelKind::HodgeMatern, &vec![exact, coexact]));
    assert!(!check_branches(PlanarHolesModelKind::NondecomposedFeec, &vec![exact]));
}

#[test]
fn reported_parameters_of_models() {
    let mut config = PlanarHolesFlowConfig::default();
    config.coexact_kappa = scalar(6.0);
    config.tau = scalar(0.5);
    config.coexact_tau_scale = scalar(0.25);
    let reference = PlanarHolesModelKind::SpectralIncompressibleHodgeGp;
    assert_eq!(fixed_reference_kappa(reference, &config).map(float), Some(6.0));
    assert_eq!(fixed_reference_tau(reference, &config), Some((scalar(0.5), scalar(0.25))));
    assert_eq!(fixed_reference_kappa(PlanarHolesModelKind::HodgeMatern, &config), None);
    assert_eq!(fixed_reference_tau(PlanarHolesModelKind::HodgeMatern, &config), None);
    assert_eq!(
        coexact_tau_rule(PlanarHolesModelKind::ExactLowerTraceMatchedIncompressibleHodgeMatern),
        CoexactTauRule::TraceMatched
    );
    assert_eq!(coexact_tau_rule(PlanarHolesModelKind::HodgeMatern), CoexactTauRule::Configured);
    assert_eq!(
        coexact_tau_rule(PlanarHolesModelKind::ComponentwiseMatern),
        CoexactTauRule::NotReported
    );
    config.spectral_branch_energy_normalization = true;
    assert_eq!(spectral_energy_target(&config, scalar(4.0)), Some(scalar(4.0)));
    config.spectral_branch_energy_normalization = false;
    assert_eq!(spectral_energy_target(&config, scalar(4.0)), None);
}

#[test]
fn spectral_truth_is_sampled_where_a_part_needs_it() {
    let mut config = PlanarHolesFlowConfig::default();
    config.exact_truth_source = PlanarHolesExactTruthSource::SparseAnchor;
    config.coexact_truth_source = PlanarHolesCoexactTruthSource::SparseAnchor;
    assert!(!needs_spectral_truth(&config));
    config.coexact_truth_source = PlanarHolesCoexactTruthSource::SpectralGp;
    assert!(needs_spectral_truth(&config));
}

fn swept(case: SweepCase, value: f64) -> SweepOutcome {
    let edge_count = if case.design == PlanarHolesSensorDesignKind::SparseEdges { 7 } else { 4 };
    SweepOutcome {
        coexact_tau_scale: scalar(2.0),
        counts: SensorDesignCounts {
            edge_count,
            interior_loop_count: 0,
            long_path_count: 7 - edge_count,
            harmonic_period_count: 0,
        },
        observation_count: 6,
        errors: SweepErrors {
            l2_error: scalar(value),
            codifferential_leakage: scalar(0.25),
            local: stats(1, 1.0),
            interior_loop: stats(1, 2.0),
            long_path: stats(1, 3.0),
            harmonic_period: stats(1, 4.0),
            coexact: None,
            harmonic: None,
        },
        coverage: Vec::new(),
    }
}

#[test]
fn sweeps_take_every_design_with_every_model() {
    let mut config = PlanarHolesSensorDesignSweepConfig::default();
    config.designs =
        vec![PlanarHolesSensorDesignKind::SparseEdges, PlanarHolesSensorDesignKind::EdgesLongPaths];
    let models = planned_models(&config.base);
    let mut run = SweepRun::new(&config);
    let mut seen = Vec::new();
    while let Some(case) = run.next_case() {
        run.record_case(swept(case, seen.len() as f64));
        seen.push(case);
    }
    assert_eq!(seen.len(), 2 * models.len());
    assert_eq!(seen.iter().filter(|case| case.opens_design).count(), 2);
    for (number, (case, row)) in seen.iter().zip(&run.rows).enumerate() {
        assert_eq!(case.design, config.designs[number / models.len()]);
        assert_eq!(case.model, models[number % models.len()]);
        assert_eq!(row.design, case.design);
        assert_eq!(row.model, case.model);
        assert_eq!(float(row.l2_error), number as f64);
        assert_eq!(row.observation_count, 6);
    }
    assert_eq!(run.rows[0].edge_observation_count, 7);
    assert_eq!(run.rows[models.len()].long_path_observation_count, 3);
}

#[test]
fn sweeps_without_designs_end_at_once() {
    let mut config = PlanarHolesSensorDesignSweepConfig::default();
    config.designs.clear();
    let run = SweepRun::new(&config);
    assert!(run.next_case().is_none());
    assert!(run.rows.is_empty());
}
