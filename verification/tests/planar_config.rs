use feg_case_studies::hodge::HodgeBranchKind;
use feg_case_studies::planar_holes_hodge_flow::config::{
    validate_config, validate_positive_grid, validate_sensor_sweep_config,
    validate_topology_vs_naive_config, PlanarHolesExactPriorEquivalenceConfig,
    PlanarHolesFlowConfig, PlanarHolesPriorEquivalenceConfig, PlanarHolesSensorDesignSweepConfig,
    PlanarHolesSpectralTruthCompatibilityConfig, PlanarHolesTopologyVsNaiveGpConfig,
};
use feg_case_studies::planar_holes_hodge_flow::holes::{
    holes_for_domain, planar_holes_geo, PlanarHolesDomainKind,
};
use feg_case_studies::planar_holes_hodge_flow::kinds::{
    PlanarHolesCoexactTruthSource, PlanarHolesExactTruthSource, PlanarHolesModelKind,
    PlanarHolesPriorEquivalenceGmrfVariant, PlanarHolesPriorEquivalenceSpectralReference,
    PlanarHolesSpectralBoundaryCondition, PlanarHolesSpectralTruthFamily, PlanarHolesTruthScaling,
};
use feg_case_studies::planar_holes_hodge_flow::models::{
    candidate_of, check_reference_model, check_tau_scale, check_tuned_model, display_model_name,
    first_minimum, model_branches, model_setup, one_form_mass_inverse_name, planned_models,
    reference_config, select_topology_vs_naive_candidate, spectral_branch_layout, spectral_modes,
    Candidate, ComparedModels, ModelSetup, OneFormMassInverse,
};
use feg_case_studies::planar_holes_hodge_flow::spectral_plans::{
    check_prior_scale, coexact_modes_available, coexact_reference_config, coexact_truth_sample,
    compatibility_projection_stages, exact_modes_available, exact_prior_equivalence_plan,
    exact_reference_config, exact_truth_sample, expand_spectral_rows, gmrf_recipe, mode_schedule,
    prior_equivalence_plan, truth_family_config, GmrfBase, GmrfRecipe, PriorComparison,
};
use feg_case_studies::index_set::IndexSet;
use feg_case_studies::scalar::Scalar;

fn scalar(value: f64) -> Scalar {
    Scalar::from_bits(value.to_bits())
}

fn float(value: Scalar) -> f64 {
    f64::from_bits(value.bits)
}

fn scalars(values: &[f64]) -> Vec<Scalar> {
    values.iter().map(|&v| scalar(v)).collect()
}

#[test]
fn planar_holes_rejects_nonpositive_branch_tau_scales() {
    let mut config = PlanarHolesFlowConfig::default();
    config.exact_tau_scale = scalar(0.0);
    assert!(validate_config(&config).is_err());

    let mut config = PlanarHolesFlowConfig::default();
    config.coexact_tau_scale = scalar(-1.0);
    assert!(validate_config(&config).is_err());
}

#[test]
fn default_configurations_can_be_run() {
    let config = PlanarHolesFlowConfig::default();
    assert!(validate_config(&config).is_ok());
    assert_eq!(float(config.mesh_size), 0.045);
    assert_eq!(float(config.coexact_kappa), 8.0);
    assert_eq!(float(config.local_noise_variance), 1e-4);
    assert_eq!(float(config.heldout_loop_angle_offset), std::f64::consts::PI / 16.0);
    assert_eq!(config.rng_seed, 2026);
    assert!(validate_sensor_sweep_config(&PlanarHolesSensorDesignSweepConfig::default()).is_ok());
    assert!(validate_topology_vs_naive_config(&PlanarHolesTopologyVsNaiveGpConfig::default())
        .is_ok());
    assert_eq!(PlanarHolesPriorEquivalenceConfig::default().mode_counts, vec![64, 160, 512, 1000]);
}

#[test]
fn faulty_values_are_named() {
    let mut config = PlanarHolesFlowConfig::default();
    config.mesh_size = scalar(f64::INFINITY);
    assert_eq!(validate_config(&config).unwrap_err(), "mesh_size must be finite and positive");
    let mut config = PlanarHolesFlowConfig::default();
    config.exact_truth_mass_norm = scalar(-0.5);
    assert_eq!(
        validate_config(&config).unwrap_err(),
        "exact_truth_mass_norm must be finite and nonnegative"
    );
    let mut sweep = PlanarHolesSensorDesignSweepConfig::default();
    sweep.designs.clear();
    assert_eq!(
        validate_sensor_sweep_config(&sweep).unwrap_err(),
        "at least one sensor design is required"
    );
    assert!(validate_positive_grid("naive_kappas", &scalars(&[1.0, 2.0])).is_ok());
    assert!(validate_positive_grid("naive_kappas", &Vec::new())
        .unwrap_err()
        .starts_with("naive_kappas"));
    assert!(validate_positive_grid("naive_kappas", &scalars(&[1.0, 0.0]))
        .unwrap_err()
        .starts_with("naive_kappas"));
}

#[test]
fn domains_are_scripted() {
    let geo = planar_holes_geo("0.045");
    assert!(geo.starts_with("lc = 0.045;\nMesh.Algorithm = 6;\nPoint(1) = {0, 0, 0, lc};\n"));
    assert!(geo.contains("Point(5) = {0.300000000000, 0.340000000000, 0, lc};\n"));
    assert!(geo.contains("Point(6) = {0.385000000000, 0.340000000000, 0, lc};\n"));
    assert!(geo.contains("Circle(9) = {11, 10, 12};\n"));
    assert!(geo.contains("Curve Loop(4) = {13, 14, 15, 16};\n"));
    assert!(geo.ends_with(
        "Plane Surface(1) = {1, 2, 3, 4};\nPhysical Surface(\"domain\") = {1};\n"
    ));
    let barrier = holes_for_domain(PlanarHolesDomainKind::Barrier);
    assert_eq!(barrier[1].name, "middle_barrier_island");
    assert_eq!(barrier[1].center, (500, 500));
    assert_eq!(PlanarHolesDomainKind::Default.as_str(), "default_three_holes");
}

#[test]
fn models_are_planned_in_order() {
    let mut config = PlanarHolesFlowConfig::default();
    assert_eq!(
        planned_models(&config),
        vec![
            PlanarHolesModelKind::HodgeMatern,
            PlanarHolesModelKind::IncompressibleHodgeMatern,
            PlanarHolesModelKind::NondecomposedFeec,
            PlanarHolesModelKind::ComponentwiseMatern,
            PlanarHolesModelKind::PostHocProjectedVectorMatern,
        ]
    );
    config.include_spectral_hodge_model = true;
    config.include_incompressible_hodge_model = false;
    assert_eq!(planned_models(&config)[1], PlanarHolesModelKind::SpectralHodgeGp);
    assert_eq!(
        model_branches(PlanarHolesModelKind::SpectralIncompressibleHodgeGp),
        vec![HodgeBranchKind::Coexact, HodgeBranchKind::Harmonic]
    );
    assert!(model_branches(PlanarHolesModelKind::NondecomposedFeec).is_empty());
    assert_eq!(ComparedModels::Figure.models().len(), 5);
    assert_eq!(ComparedModels::Tuned.models().len(), 2);
}

#[test]
fn kinds_have_their_names() {
    assert_eq!(
        PlanarHolesModelKind::ExactLowerTraceMatchedIncompressibleHodgeMatern.as_str(),
        "feec_exact_lower_trace_matched_coexact_harmonic_matern"
    );
    assert_eq!(
        PlanarHolesModelKind::SpectralIncompressibleHodgeGp.as_str(),
        "spectral_coexact_harmonic_gp"
    );
    assert_eq!(
        PlanarHolesModelKind::NaiveEuclideanVectorMatern.as_str(),
        "naive_euclidean_vector_matern"
    );
    assert_eq!(
        PlanarHolesPriorEquivalenceGmrfVariant::ExactLowerTraceMatched.as_str(),
        "exact_mass_gmrf_exact_lower_trace_matched"
    );
    assert_eq!(
        PlanarHolesPriorEquivalenceGmrfVariant::ExactDenseTraceMatched.as_str(),
        "exact_gmrf_dense_0form_trace_matched"
    );
    assert_eq!(
        PlanarHolesSpectralTruthFamily::StreamfunctionDirichlet.as_str(),
        "streamfunction_dirichlet"
    );
    assert_eq!(
        display_model_name(PlanarHolesModelKind::NondecomposedFeec),
        "Nondecomposed FEEC GMRF"
    );
    assert_eq!(
        one_form_mass_inverse_name(OneFormMassInverse::RowSumLumped),
        "row_sum_lumped"
    );
}

#[test]
fn branches_stand_beside_each_other() {
    let branches =
        vec![HodgeBranchKind::Exact, HodgeBranchKind::Coexact, HodgeBranchKind::Harmonic];
    let layout = spectral_branch_layout(&branches, 4, 0, 3);
    assert_eq!(layout.len(), 2);
    assert_eq!((layout[0].branch, layout[0].offset), (HodgeBranchKind::Exact, 0));
    assert_eq!((layout[1].branch, layout[1].offset), (HodgeBranchKind::Harmonic, 4));
    let config = PlanarHolesFlowConfig::default();
    let modes = spectral_modes(&config, &vec![HodgeBranchKind::Coexact]);
    assert_eq!((modes.exact, modes.coexact, modes.harmonic), (0, 160, 0));
}

#[test]
fn candidates_are_numbered_and_chosen() {
    let (kappas, taus, scales) =
        (scalars(&[1.0, 2.0]), scalars(&[10.0, 20.0, 30.0]), scalars(&[0.5, 1.0]));
    let candidate = candidate_of(&kappas, &taus, &scales, 9);
    assert_eq!(float(candidate.kappa), 2.0);
    assert_eq!(float(candidate.tau), 20.0);
    assert_eq!(float(candidate.observation_variance_scale), 1.0);
    let mut scores = vec![scalar(f64::NAN); 12];
    assert_eq!(
        select_topology_vs_naive_candidate(
            PlanarHolesModelKind::NaiveEuclideanVectorMatern,
            &kappas,
            &taus,
            &scales,
            &scores
        )
        .unwrap_err(),
        "no finite validation score for topology-vs-naive model naive_euclidean_vector_matern"
    );
    scores[4] = scalar(-1.0);
    scores[7] = scalar(-1.0);
    scores[2] = scalar(3.0);
    let (number, chosen) = select_topology_vs_naive_candidate(
        PlanarHolesModelKind::NaiveEuclideanVectorMatern,
        &kappas,
        &taus,
        &scales,
        &scores,
    )
    .unwrap();
    assert_eq!(number, 4);
    assert_eq!(float(chosen.tau), 30.0);
    assert_eq!(first_minimum(&Vec::new()), None);
}

#[test]
fn reference_models_are_fixed() {
    let reference = reference_config(&PlanarHolesFlowConfig::default());
    assert_eq!(reference.spectral_exact_mode_count, 0);
    assert_eq!(reference.spectral_harmonic_mode_count, 3);
    assert!(reference.spectral_branch_energy_normalization);
    assert!(check_tuned_model(PlanarHolesModelKind::NondecomposedFeec).is_ok());
    assert_eq!(
        check_tuned_model(PlanarHolesModelKind::HodgeMatern).unwrap_err(),
        "unsupported topology-vs-naive model feec_hodge_matern"
    );
    assert!(check_reference_model(PlanarHolesModelKind::IncompressibleHodgeMatern).is_ok());
    assert_eq!(
        check_reference_model(PlanarHolesModelKind::NondecomposedFeec).unwrap_err(),
        "unsupported fixed topology reference model nondecomposed_feec_hodge_matern"
    );
    assert!(check_tau_scale("coexact", scalar(2.0), "2").is_ok());
    assert_eq!(
        check_tau_scale("coexact", scalar(0.0), "0").unwrap_err(),
        "invalid coexact tau scale 0"
    );
}

#[test]
fn modes_are_scheduled() {
    assert_eq!(coexact_modes_available(30, 50), 50);
    assert_eq!(exact_modes_available(30), 29);
    assert_eq!(exact_modes_available(0), 0);
    assert_eq!(mode_schedule(&vec![16, 4, 16], true, 8), vec![4, 8, 16]);
    assert_eq!(mode_schedule(&vec![4], false, 8), vec![4]);
    let stages = compatibility_projection_stages(
        &PlanarHolesFlowConfig::default(),
        &vec![
            PlanarHolesSpectralBoundaryCondition::Free,
            PlanarHolesSpectralBoundaryCondition::StrongBoundaryOneForms,
        ],
        &vec![4, 8],
    );
    assert_eq!(stages.len(), 4);
    assert_eq!(stages[1].requested_mode_count, 8);
    assert_eq!(stages[1].boundary_condition, PlanarHolesSpectralBoundaryCondition::Free);
    assert_eq!(stages[2].config.spectral_coexact_mode_count, 4);
    assert_eq!(float(stages[2].config.exact_truth_mass_norm), 0.0);
}

#[test]
fn truth_families_have_their_sources() {
    let config = PlanarHolesSpectralTruthCompatibilityConfig::default();
    let raw = truth_family_config(&config, PlanarHolesSpectralTruthFamily::SpectralCoexact, 20);
    assert_eq!(raw.coexact_truth_source, PlanarHolesCoexactTruthSource::SpectralGp);
    assert_eq!(raw.truth_scaling, PlanarHolesTruthScaling::RawPriorSamples);
    assert_eq!(raw.spectral_coexact_mode_count, 20);
    let exact =
        truth_family_config(&config, PlanarHolesSpectralTruthFamily::ExactMassCoexactKappa2, 9999);
    assert_eq!(float(exact.coexact_kappa), 2.0);
    assert_eq!(exact.coexact_truth_source, PlanarHolesCoexactTruthSource::ExactMassCoexact);
}

#[test]
fn priors_are_compared_in_order() {
    let mut config = PlanarHolesPriorEquivalenceConfig::default();
    config.mode_counts = vec![16];
    config.include_max_available = false;
    let plan = prior_equivalence_plan(&config, 30, 40);
    assert_eq!(plan.len(), 8);
    assert_eq!(plan[0].variant, PlanarHolesPriorEquivalenceGmrfVariant::SparseLower);
    assert_eq!(plan[0].reference, PlanarHolesPriorEquivalenceSpectralReference::Raw);
    assert_eq!(plan[4].reference, PlanarHolesPriorEquivalenceSpectralReference::EnergyNormalized);
    assert_eq!(plan[7].variant, PlanarHolesPriorEquivalenceGmrfVariant::ExactLowerTraceMatched);
    config.include_exact_lower_mass = false;
    assert_eq!(prior_equivalence_plan(&config, 30, 40).len(), 4);
    let mut exact = PlanarHolesExactPriorEquivalenceConfig::default();
    exact.mode_counts = vec![5];
    exact.include_max_available = true;
    let plan = exact_prior_equivalence_plan(&exact, 30);
    assert_eq!(plan.len(), 24);
    assert_eq!(plan[12].requested_mode_count, 29);
}

#[test]
fn boundary_rows_are_filled_in() {
    let mut boundary = IndexSet::new();
    boundary.extend(&vec![0, 2]);
    assert_eq!(
        expand_spectral_rows(
            3,
            5,
            PlanarHolesSpectralBoundaryCondition::StrongBoundaryOneForms,
            &boundary
        )
        .unwrap(),
        vec![1, 3, 4]
    );
    assert_eq!(
        expand_spectral_rows(
            2,
            5,
            PlanarHolesSpectralBoundaryCondition::StrongBoundaryOneForms,
            &boundary
        )
        .unwrap_err(),
        "strong-boundary reduced transform has 2 rows, boundary has 2, full edge count is 5"
    );
    assert_eq!(
        expand_spectral_rows(3, 3, PlanarHolesSpectralBoundaryCondition::Free, &boundary).unwrap(),
        vec![0, 1, 2]
    );
    assert_eq!(
        expand_spectral_rows(2, 3, PlanarHolesSpectralBoundaryCondition::Free, &boundary)
            .unwrap_err(),
        "spectral transform has 2 rows but expected 3"
    );
}

#[test]
fn truth_is_sampled_where_it_has_a_norm() {
    let mut config = PlanarHolesFlowConfig::default();
    assert_eq!(
        exact_truth_sample(&config).unwrap().source,
        PlanarHolesExactTruthSource::SparseAnchor
    );
    config.coexact_truth_mass_norm = scalar(0.0);
    assert!(coexact_truth_sample(&config).is_none());
}

#[test]
fn models_are_set_up_by_kind() {
    let config = PlanarHolesFlowConfig::default();
    let candidate = Candidate {
        kappa: scalar(3.0),
        tau: scalar(0.5),
        observation_variance_scale: scalar(2.0),
    };
    for model in [
        PlanarHolesModelKind::NondecomposedFeec,
        PlanarHolesModelKind::NaiveEuclideanVectorMatern,
    ] {
        match model_setup(model, candidate, &config).unwrap() {
            ModelSetup::Tuned { kappa, tau } => {
                assert_eq!((float(kappa), float(tau)), (3.0, 0.5));
            }
            ModelSetup::Reference { .. } => panic!("a tuned model has parameters of its own"),
        }
    }
    let reference = PlanarHolesModelKind::SpectralIncompressibleHodgeGp;
    match model_setup(reference, candidate, &config).unwrap() {
        ModelSetup::Tuned { .. } => panic!("a reference is not tuned"),
        ModelSetup::Reference { config } => {
            assert_eq!(config.spectral_exact_mode_count, 0);
            assert_eq!(float(config.spectral_harmonic_expected_m1_energy), 4.0);
        }
    }
    assert_eq!(
        model_setup(PlanarHolesModelKind::HodgeMatern, candidate, &config).unwrap_err(),
        format!(
            "unsupported fixed topology reference model {}",
            PlanarHolesModelKind::HodgeMatern.as_str()
        )
    );
}

#[test]
fn compared_priors_are_set_up() {
    let config = PlanarHolesFlowConfig::default();
    let raw = PriorComparison {
        requested_mode_count: 17,
        reference: PlanarHolesPriorEquivalenceSpectralReference::Raw,
        variant: PlanarHolesPriorEquivalenceGmrfVariant::SparseLower,
    };
    let normalized = PriorComparison {
        reference: PlanarHolesPriorEquivalenceSpectralReference::EnergyNormalized,
        ..raw
    };
    let coexact = coexact_reference_config(&config, raw, scalar(2.5));
    assert_eq!(coexact.spectral_exact_mode_count, 0);
    assert_eq!(coexact.spectral_coexact_mode_count, 17);
    assert_eq!(coexact.spectral_harmonic_mode_count, 0);
    assert!(!coexact.spectral_branch_energy_normalization);
    assert_eq!(float(coexact.spectral_coexact_expected_m1_energy), 2.5);
    assert_eq!(coexact.rng_seed, config.rng_seed);
    let exact = exact_reference_config(&config, normalized, scalar(1.5));
    assert_eq!(exact.spectral_exact_mode_count, 17);
    assert_eq!(exact.spectral_coexact_mode_count, 0);
    assert!(exact.spectral_branch_energy_normalization);
    assert_eq!(float(exact.spectral_exact_expected_m1_energy), 1.5);
    assert_eq!(exact.spectral_boundary_condition, PlanarHolesSpectralBoundaryCondition::Free);

    assert_eq!(
        gmrf_recipe(PlanarHolesPriorEquivalenceGmrfVariant::SparseLower),
        GmrfRecipe { base: GmrfBase::SparseLower, trace_matched: false }
    );
    assert_eq!(
        gmrf_recipe(PlanarHolesPriorEquivalenceGmrfVariant::ExactLowerTraceMatched),
        GmrfRecipe { base: GmrfBase::ExactLower, trace_matched: true }
    );
    assert_eq!(
        gmrf_recipe(
            PlanarHolesPriorEquivalenceGmrfVariant::ExactOrdinaryPotentialDenseTraceMatched
        ),
        GmrfRecipe { base: GmrfBase::ExactOrdinaryPotentialDense, trace_matched: true }
    );

    assert!(check_prior_scale(scalar(0.25), "0.25").is_ok());
    for (scale, text) in [(f64::NAN, "NaN"), (f64::INFINITY, "inf"), (0.0, "0"), (-1.0, "-1")] {
        assert_eq!(
            check_prior_scale(scalar(scale), text).unwrap_err(),
            format!("invalid tau scale {text}")
        );
    }
}
