use feg_case_studies::hodge::HodgeBranchKind;
use feg_case_studies::reconstruction::{BarycenterReconstruction, WeightedEntry};
use feg_case_studies::scalar::Scalar;
use feg_case_studies::sphere_branch_pushforward_convergence::tables::SphereBranchCovarianceSummaryRow;
use feg_case_studies::sphere_branch_pushforward_convergence::{
    build_level, check_barycenter_length, check_selected_cells, check_shapes, component_variance_rows,
    covariance_summary_row, evenly_spaced_indices, fit_groups, fit_status, fit_summary_rows,
    measure_level, report_cases, stacked_barycenter_reconstruction_operator, validate_config, ComponentVariance,
    CovarianceErrors, CovarianceSizes, LevelSizes, MatrixShape, PushforwardCase,
    SphereBranchPushforwardComponent, SphereBranchPushforwardConvergenceConfig,
    SphereBranchPushforwardModel,
};

fn scalar(value: f64) -> Scalar {
    Scalar::from_bits(value.to_bits())
}

fn float(value: Scalar) -> f64 {
    f64::from_bits(value.bits)
}

#[test]
fn indices_are_spread_evenly() {
    assert_eq!(evenly_spaced_indices(5, 9), vec![0, 1, 2, 3, 4]);
    assert_eq!(evenly_spaced_indices(5, 5), vec![0, 1, 2, 3, 4]);
    assert_eq!(evenly_spaced_indices(10, 4), vec![0, 2, 5, 7]);
    assert_eq!(evenly_spaced_indices(320, 3), vec![0, 106, 213]);
    assert_eq!(evenly_spaced_indices(0, 3), Vec::<usize>::new());
    let spread = evenly_spaced_indices(1280, 48);
    assert_eq!(spread.len(), 48);
    assert!(spread.windows(2).all(|pair| pair[0] < pair[1]));
}

#[test]
fn levels_choose_cells_of_their_surface() {
    let (surface, selected) = build_level(2, 48);
    assert_eq!(surface.faces.len(), 320);
    assert_eq!(selected, evenly_spaced_indices(320, 48));
    let sizes = measure_level(2, scalar(0.25), &surface, &selected);
    assert_eq!((sizes.vertex_count, sizes.edge_count, sizes.cell_count), (162, 480, 320));
    assert_eq!(sizes.selected_cell_count, 48);
    assert_eq!(build_level(0, 100).1.len(), 20);
}

#[test]
fn pushforward_configurations_are_tested_in_order() {
    let mut config = SphereBranchPushforwardConvergenceConfig::default();
    assert!(validate_config(&config).is_ok());
    config.max_cells = 0;
    assert_eq!(validate_config(&config).unwrap_err(), "max_cells must be positive");
    config.analytic_lmax = 0;
    assert_eq!(validate_config(&config).unwrap_err(), "analytic_lmax must be positive");
    config.tau = scalar(0.0);
    assert_eq!(validate_config(&config).unwrap_err(), "tau must be finite and positive");
    config.kappa = scalar(f64::NAN);
    assert_eq!(validate_config(&config).unwrap_err(), "kappa must be finite and positive");
    config.refinement_levels.clear();
    assert_eq!(
        validate_config(&config).unwrap_err(),
        "at least one sphere refinement level is required"
    );
}

#[test]
fn cases_cover_models_and_components() {
    let cases = report_cases();
    assert_eq!(cases.len(), 6);
    assert_eq!(cases[0].model, SphereBranchPushforwardModel::OrdinaryPotential);
    assert_eq!(cases[0].component, SphereBranchPushforwardComponent::Exact);
    assert_eq!(cases[5].model, SphereBranchPushforwardModel::SpectrallyCorrected);
    assert_eq!(cases[5].component, SphereBranchPushforwardComponent::Joint);
    assert_eq!(
        SphereBranchPushforwardComponent::Joint.branches(),
        vec![HodgeBranchKind::Exact, HodgeBranchKind::Coexact]
    );
    assert_eq!(SphereBranchPushforwardComponent::Coexact.as_str(), "coexact");
    assert_eq!(SphereBranchPushforwardModel::OrdinaryPotential.as_str(), "ordinary_potential");
}

fn reconstruction() -> BarycenterReconstruction {
    BarycenterReconstruction {
        components: (0..3)
            .map(|axis| {
                (0..4)
                    .map(|cell| {
                        vec![WeightedEntry {
                            column: cell,
                            weight: scalar((10 * axis + cell) as f64),
                        }]
                    })
                    .collect()
            })
            .collect(),
    }
}

#[test]
fn components_are_stacked() {
    let rows =
        stacked_barycenter_reconstruction_operator(&reconstruction(), &vec![3, 1]).unwrap();
    assert_eq!(rows.len(), 6);
    let weights: Vec<f64> = rows.iter().map(|row| float(row[0].weight)).collect();
    assert_eq!(weights, vec![3.0, 1.0, 13.0, 11.0, 23.0, 21.0]);
    assert_eq!(
        stacked_barycenter_reconstruction_operator(&reconstruction(), &vec![1, 4]).unwrap_err(),
        "selected cell 4 is out of bounds"
    );
    assert!(check_selected_cells(4, &vec![0, 3]).is_ok());
    assert_eq!(
        check_selected_cells(4, &vec![0, 5, 6]).unwrap_err(),
        "selected cell 5 is out of bounds"
    );
    assert!(check_barycenter_length(scalar(0.5)).is_ok());
    assert_eq!(
        check_barycenter_length(scalar(0.0)).unwrap_err(),
        "cannot normalize zero barycenter"
    );
}

#[test]
fn component_rows_are_named() {
    let variance = ComponentVariance {
        model_variance: scalar(1.0),
        analytic_variance: scalar(2.0),
        absolute_error: scalar(1.0),
        relative_error: scalar(0.5),
    };
    let rows = component_variance_rows(
        2,
        scalar(0.5),
        report_cases()[2],
        &vec![7, 12],
        &vec![variance; 6],
    );
    assert_eq!(rows.len(), 6);
    assert_eq!(rows[0].functional_id, "point_000_cell7_component0");
    assert_eq!(rows[3].functional_id, "point_001_cell12_component1");
    assert_eq!(rows[5].component_index, 2);
    assert_eq!(rows[5].cell_index, 12);
}

fn summary(level: usize, case: PushforwardCase, error: f64) -> SphereBranchCovarianceSummaryRow {
    let shape = MatrixShape { rows: 6, columns: 6 };
    covariance_summary_row(
        LevelSizes {
            refinement_level: level,
            h: scalar(1.0 / level as f64),
            vertex_count: 12,
            edge_count: 30,
            cell_count: 20,
            selected_cell_count: 2,
        },
        case,
        CovarianceSizes { latent_dofs: 12, precision_nnz: 40, model: shape, analytic: shape },
        CovarianceErrors {
            relative_frobenius_error: scalar(error),
            diagonal_relative_l2_error: scalar(error),
            rescaled_relative_frobenius_error: scalar(error),
            best_scalar: scalar(1.0),
            model_trace: scalar(1.0),
            analytic_trace: scalar(1.0),
            trace_ratio: scalar(1.0),
        },
    )
    .unwrap()
}

#[test]
fn covariances_of_other_shapes_are_refused() {
    assert!(check_shapes(MatrixShape { rows: 3, columns: 3 }, MatrixShape { rows: 3, columns: 3 })
        .is_ok());
    assert_eq!(
        check_shapes(MatrixShape { rows: 3, columns: 4 }, MatrixShape { rows: 5, columns: 6 })
            .unwrap_err(),
        "covariance shape mismatch: model 3x4, analytic 5x6"
    );
    let row = summary(2, report_cases()[0], 0.25);
    assert_eq!(row.covariance_dimension, 6);
    assert_eq!(float(row.relative_frobenius_error), 0.25);
}

#[test]
fn covariance_fits_run_from_fine_to_coarse() {
    let cases = report_cases();
    let rows = vec![
        summary(2, cases[4], 0.25),
        summary(1, cases[4], 0.5),
        summary(1, cases[1], 0.5),
        summary(2, cases[1], 0.25),
    ];
    let groups = fit_groups(&rows);
    assert_eq!(groups.len(), 2);
    assert_eq!(groups[0].members, vec![3, 2]);
    assert_eq!(groups[1].members, vec![0, 1]);
    let pair = fit_summary_rows(&rows, &groups[1].members, scalar(1.0), scalar(2.0));
    assert_eq!(pair.len(), 2);
    assert_eq!(pair[0].diagnostic, "loglog_slope_relative_frobenius_vs_h");
    assert_eq!(float(pair[0].value), 1.0);
    assert_eq!(pair[1].expected, "positive under diagonal convergence");
    assert_eq!(float(pair[1].value), 2.0);
    assert_eq!(pair[1].status, "expected_convergent");
    assert_eq!(
        fit_status(SphereBranchPushforwardModel::OrdinaryPotential),
        "diagnostic_baseline"
    );
}
