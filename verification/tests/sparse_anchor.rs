use feg_case_studies::cube_mesh::build_mesh;
use feg_case_studies::hodge::HodgeBranchKind;
use feg_case_studies::reconstruction::{
    vector_to_sparse_row, BarycenterReconstruction, WeightedEntry,
};
use feg_case_studies::scalar::Scalar;
use feg_case_studies::sparse_anchor_branch_functional_convergence::tables::{
    BranchFunctionalFitSummaryRow, BranchFunctionalSummaryRow, BranchFunctionalVarianceRow,
};
use feg_case_studies::sparse_anchor_branch_functional_convergence::{
    check_baseline_columns, components_for_model, fit_groups, fit_summary_row, line_rows,
    nearest_cell_barycenter, point_component_observables, point_component_rows, point_targets,
    point_trace_groups, point_trace_rows, prior_branches, readme_text, report_cases, status_for,
    summary_groups, summary_row, validate_config, BranchFunctionalComponent,
    BranchFunctionalConvergenceConfig, BranchFunctionalModel, BranchObservableKind, FitDiagnostic,
    FitGroup, MeasuredVariance, MeshCase, NamedFunctional, PointComponentObservable, PriorSizes,
    ReportCase, VarianceStatistics,
};
use feg_case_studies::table::{csv_header, csv_line, Cell};

fn scalar(value: f64) -> Scalar {
    Scalar::from_bits(value.to_bits())
}

fn float(value: Scalar) -> f64 {
    f64::from_bits(value.bits)
}

const MODELS: [BranchFunctionalModel; 3] = [
    BranchFunctionalModel::BaselineHodgeMatern,
    BranchFunctionalModel::FormMatern,
    BranchFunctionalModel::PotentialMatern,
];

const KINDS: [BranchObservableKind; 3] = [
    BranchObservableKind::Line,
    BranchObservableKind::PointComponent,
    BranchObservableKind::PointTrace,
];

fn linear_slope(xs: &[f64], ys: &[f64]) -> f64 {
    let x_mean = xs.iter().sum::<f64>() / xs.len() as f64;
    let y_mean = ys.iter().sum::<f64>() / ys.len() as f64;
    let numerator: f64 = xs.iter().zip(ys).map(|(x, y)| (x - x_mean) * (y - y_mean)).sum();
    let denominator: f64 = xs.iter().map(|x| (x - x_mean).powi(2)).sum();
    numerator / denominator.max(1e-12)
}

fn fit_value(rows: &[BranchFunctionalSummaryRow], fit: &FitGroup) -> f64 {
    let xs: Vec<f64> = fit.members.iter().map(|&i| (rows[i].n as f64).ln()).collect();
    let medians: Vec<f64> =
        fit.members.iter().map(|&i| float(rows[i].median_raw_variance)).collect();
    match fit.diagnostic {
        FitDiagnostic::SlopeVsLogLevel => linear_slope(&xs, &medians),
        FitDiagnostic::LogLogSlope => {
            let ys: Vec<f64> = medians.iter().map(|v| v.max(1e-12).ln()).collect();
            linear_slope(&xs, &ys)
        }
        FitDiagnostic::FinestRelativeChange => {
            let last = medians[medians.len() - 1];
            let previous = medians[medians.len() - 2];
            (last - previous).abs() / last.abs().max(1e-12)
        }
    }
}

fn summary(
    n: usize,
    case: ReportCase,
    observable_kind: BranchObservableKind,
    value: f64,
) -> BranchFunctionalSummaryRow {
    BranchFunctionalSummaryRow {
        n,
        model: case.model,
        component: case.component,
        observable_kind,
        count: 3,
        mean_raw_variance: scalar(value),
        median_raw_variance: scalar(value),
        min_raw_variance: scalar(value),
        max_raw_variance: scalar(value),
        stddev_raw_variance: scalar(0.0),
        median_normalized_variance: scalar(value),
    }
}

#[test]
fn sparse_anchor_branch_functional_convergence_fit_summaries_are_finite() {
    let mut summaries = Vec::new();
    for model in MODELS {
        for component in components_for_model(model) {
            for observable_kind in KINDS {
                for (n, scale) in [(4, 1.0), (8, 1.2)] {
                    summaries.push(summary(
                        n,
                        ReportCase { model, component },
                        observable_kind,
                        scale,
                    ));
                }
            }
        }
    }

    let fit: Vec<BranchFunctionalFitSummaryRow> = fit_groups(&summaries)
        .iter()
        .map(|group| fit_summary_row(group, scalar(fit_value(&summaries, group))))
        .collect();
    assert_eq!(fit.len(), 5 * 3);
    assert!(fit.iter().all(|row| float(row.value).is_finite()));
}

#[test]
fn fits_are_ordered_named_and_sorted_by_level() {
    let potential = ReportCase {
        model: BranchFunctionalModel::PotentialMatern,
        component: BranchFunctionalComponent::Exact,
    };
    let form = ReportCase {
        model: BranchFunctionalModel::FormMatern,
        component: BranchFunctionalComponent::Coexact,
    };
    let summaries = vec![
        summary(8, potential, BranchObservableKind::PointTrace, 4.0),
        summary(4, potential, BranchObservableKind::PointTrace, 2.0),
        summary(8, potential, BranchObservableKind::Line, 1.0),
        summary(4, form, BranchObservableKind::Line, 5.0),
        summary(8, form, BranchObservableKind::Line, 4.0),
        summary(4, potential, BranchObservableKind::Line, 1.0),
        summary(4, form, BranchObservableKind::PointTrace, 1.0),
    ];
    let fits = fit_groups(&summaries);
    assert_eq!(fits.len(), 3);
    assert_eq!(fits[0].members, vec![3, 4]);
    assert_eq!(fits[1].members, vec![5, 2]);
    assert_eq!(fits[2].members, vec![1, 0]);
    let row = fit_summary_row(&fits[0], scalar(fit_value(&summaries, &fits[0])));
    assert_eq!(row.diagnostic, "finest_relative_change");
    assert_eq!(float(row.value), 0.25);
    assert_eq!(row.expected, "small under convergence");
    assert_eq!(row.status, "convergence_diagnostic");
    let row = fit_summary_row(&fits[1], scalar(0.0));
    assert_eq!(row.diagnostic, "slope_vs_log_n");
    assert_eq!(row.expected, "positive");
    assert_eq!(row.status, "borderline_log_diagnostic");
    let value = fit_value(&summaries, &fits[2]);
    assert!((value - 1.0).abs() < 1e-12);
    let row = fit_summary_row(&fits[2], scalar(value));
    assert_eq!(row.diagnostic, "loglog_slope_vs_n");
    assert_eq!(row.expected, "positive, near +1 for point trace");
    assert_eq!(row.status, "point_growth_diagnostic");
}

#[test]
fn components_and_their_branches() {
    assert_eq!(
        components_for_model(BranchFunctionalModel::BaselineHodgeMatern),
        vec![BranchFunctionalComponent::Full1Form]
    );
    assert_eq!(
        components_for_model(BranchFunctionalModel::FormMatern),
        vec![BranchFunctionalComponent::Exact, BranchFunctionalComponent::Coexact]
    );
    assert_eq!(report_cases().len(), 5);
    assert_eq!(
        BranchFunctionalComponent::JointTotal.branches().unwrap(),
        vec![HodgeBranchKind::Exact, HodgeBranchKind::Coexact]
    );
    assert_eq!(
        BranchFunctionalComponent::Full1Form.branches().unwrap_err(),
        "full 1-form component is only valid for the baseline Hodge-Matern model"
    );
    assert_eq!(
        prior_branches(
            BranchFunctionalModel::BaselineHodgeMatern,
            BranchFunctionalComponent::Coexact
        )
        .unwrap_err(),
        "baseline Hodge-Matern model requires component full_1form, got coexact"
    );
    assert!(prior_branches(
        BranchFunctionalModel::BaselineHodgeMatern,
        BranchFunctionalComponent::Full1Form
    )
    .unwrap()
    .is_empty());
    assert_eq!(
        prior_branches(
            BranchFunctionalModel::PotentialMatern,
            BranchFunctionalComponent::Exact
        )
        .unwrap(),
        vec![HodgeBranchKind::Exact]
    );
    assert!(check_baseline_columns(7, 7).is_ok());
    assert_eq!(
        check_baseline_columns(6, 7).unwrap_err(),
        "ambient operator has 6 columns but baseline prior has 7 dofs"
    );
}

#[test]
fn names_and_statuses() {
    assert_eq!(BranchFunctionalModel::BaselineHodgeMatern.as_str(), "baseline_hodge_matern");
    assert_eq!(BranchFunctionalModel::FormMatern.as_str(), "form_matern");
    assert_eq!(BranchFunctionalModel::PotentialMatern.as_str(), "potential_matern");
    assert_eq!(BranchFunctionalComponent::Full1Form.as_str(), "full_1form");
    assert_eq!(BranchFunctionalComponent::JointTotal.as_str(), "joint_total");
    assert_eq!(BranchObservableKind::Line.as_str(), "line");
    assert_eq!(BranchObservableKind::PointComponent.as_str(), "point_component");
    assert_eq!(BranchObservableKind::PointTrace.as_str(), "point_trace");
    assert_eq!(
        status_for(BranchFunctionalModel::FormMatern, BranchObservableKind::PointTrace),
        "expected_convergent"
    );
    assert_eq!(
        status_for(BranchFunctionalModel::PotentialMatern, BranchObservableKind::Line),
        "expected_log_borderline_growth"
    );
    assert_eq!(
        status_for(BranchFunctionalModel::PotentialMatern, BranchObservableKind::PointTrace),
        "expected_point_growth"
    );
}

#[test]
fn configurations_are_tested_in_order() {
    let mut config = BranchFunctionalConvergenceConfig::default();
    assert_eq!(config.levels, vec![4, 8, 12, 16, 20, 24]);
    assert_eq!(float(config.kappa), 4.0);
    assert_eq!(float(config.tau), 1.0);
    assert!(validate_config(&config).is_ok());
    config.levels = vec![4, 8, 10, 3];
    assert_eq!(
        validate_config(&config).unwrap_err(),
        "mesh level 10 is invalid; levels must be positive multiples of 4"
    );
    config.levels = vec![0];
    assert_eq!(
        validate_config(&config).unwrap_err(),
        "mesh level 0 is invalid; levels must be positive multiples of 4"
    );
    config.tau = scalar(f64::NAN);
    assert_eq!(validate_config(&config).unwrap_err(), "tau must be finite and positive");
    config.kappa = scalar(0.0);
    assert_eq!(validate_config(&config).unwrap_err(), "kappa must be finite and positive");
    config.levels.clear();
    assert_eq!(validate_config(&config).unwrap_err(), "at least one mesh level is required");
}

#[test]
fn observed_points_are_named_in_order() {
    let targets = point_targets();
    assert_eq!(targets.len(), 27);
    assert_eq!(targets[0].id, "point_000_q111");
    assert_eq!(targets[1].id, "point_001_q112");
    assert_eq!(targets[5].id, "point_005_q123");
    assert_eq!(targets[26].id, "point_026_q333");
    assert_eq!(targets[14].numerators, (2, 2, 3));
    for pair in targets.windows(2) {
        assert!(pair[0].id < pair[1].id);
    }
}

fn distances_to(cell: usize) -> Vec<Scalar> {
    (0..4).map(|c| scalar(if c == cell { 0.25 } else { 1.0 })).collect()
}

fn reconstruction(cells: usize) -> BarycenterReconstruction {
    BarycenterReconstruction {
        components: (0..3)
            .map(|c| {
                (0..cells)
                    .map(|cell| {
                        (0..=c)
                            .map(|e| WeightedEntry {
                                column: 10 * cell + e,
                                weight: scalar(c as f64),
                            })
                            .collect()
                    })
                    .collect()
            })
            .collect(),
    }
}

#[test]
fn components_at_points_are_read_at_nearest_cells() {
    let distances: Vec<Vec<Scalar>> = (0..27).map(|p| distances_to(p % 4)).collect();
    let observables = point_component_observables(&reconstruction(4), &distances).unwrap();
    assert_eq!(observables.len(), 81);
    let observable = &observables[3 * 6 + 2];
    assert_eq!(observable.point_index, 6);
    assert_eq!(observable.point_id, "point_006_q131");
    assert_eq!(observable.component_index, 2);
    assert_eq!(observable.row.len(), 3);
    assert_eq!(observable.row[0].column, 20);
    assert_eq!(
        point_component_observables(&reconstruction(2), &distances).unwrap_err(),
        "nearest cell index 2 is outside reconstruction rows"
    );
    let empty: Vec<Vec<Scalar>> = (0..27).map(|_| Vec::new()).collect();
    assert_eq!(
        point_component_observables(&reconstruction(4), &empty).unwrap_err(),
        "mesh has no top-dimensional cells"
    );
}

#[test]
fn cubes_are_cut_into_tetrahedra() {
    for n in 1..4usize {
        let mesh = build_mesh(n);
        assert_eq!(mesh.positions.len(), (n + 1).pow(3));
        assert_eq!(mesh.edges.len(), 7 * n.pow(3) + 9 * n.pow(2) + 3 * n);
        assert_eq!(mesh.cells.len(), 6 * n.pow(3));
        let at = |v: usize| {
            let p = mesh.positions[v];
            [float(p.x), float(p.y), float(p.z)]
        };
        let mut volume = 0.0;
        for &(a, b, c, d) in &mesh.cells {
            let (o, p, q, r) = (at(a), at(b), at(c), at(d));
            let side = |s: [f64; 3]| [s[0] - o[0], s[1] - o[1], s[2] - o[2]];
            let (u, v, w) = (side(p), side(q), side(r));
            let determinant = u[0] * (v[1] * w[2] - v[2] * w[1])
                - u[1] * (v[0] * w[2] - v[2] * w[0])
                + u[2] * (v[0] * w[1] - v[1] * w[0]);
            volume += determinant.abs() / 6.0;
        }
        assert!((volume - 1.0).abs() < 1e-12);
    }
}

#[test]
fn nearest_cell_is_the_first_of_the_nearest() {
    let distances: Vec<Scalar> = [3.0, 1.0, 2.0, 1.0].iter().map(|&d| scalar(d)).collect();
    assert_eq!(nearest_cell_barycenter(&distances).unwrap(), 1);
    assert_eq!(
        nearest_cell_barycenter(&Vec::new()).unwrap_err(),
        "mesh has no top-dimensional cells"
    );
}

fn mesh_case() -> MeshCase {
    MeshCase {
        n: 4,
        h: scalar(0.25),
        case: ReportCase {
            model: BranchFunctionalModel::PotentialMatern,
            component: BranchFunctionalComponent::Exact,
        },
        prior: PriorSizes { latent_dofs: 11, precision_nnz: 31, latent_to_ambient_nnz: None },
    }
}

fn measured(value: f64) -> MeasuredVariance {
    MeasuredVariance {
        geometric_measure: scalar(0.5),
        raw_variance: scalar(value),
        normalized_variance: scalar(4.0 * value),
    }
}

fn one_level_rows() -> Vec<BranchFunctionalVarianceRow> {
    let distances: Vec<Vec<Scalar>> = (0..27).map(|p| distances_to(p % 4)).collect();
    let points: Vec<PointComponentObservable> =
        point_component_observables(&reconstruction(4), &distances).unwrap();
    let lines: Vec<NamedFunctional> = (0..27)
        .map(|i| NamedFunctional { id: format!("line_{i}"), support_entries: i + 1 })
        .collect();
    let mesh = mesh_case();
    let mut rows = line_rows(&mesh, &lines, &(0..27).map(|i| measured(i as f64)).collect());
    rows.extend(point_component_rows(
        &mesh,
        &points,
        &(0..81).map(|i| measured(i as f64)).collect(),
    ));
    rows.extend(point_trace_rows(&mesh, &points, &(0..27).map(|i| measured(i as f64)).collect()));
    rows
}

#[test]
fn rows_of_a_level_are_complete() {
    let rows = one_level_rows();
    assert_eq!(rows.len(), 27 + 81 + 27);
    assert_eq!(rows[3].functional_id, "line_3");
    assert_eq!(rows[3].support_entries, 4);
    assert_eq!(rows[3].alpha, 2);
    assert_eq!(rows[3].transform_nnz, 11);
    assert_eq!(rows[3].status, "expected_log_borderline_growth");
    assert_eq!(float(rows[3].normalized_variance), 12.0);
    assert_eq!(rows[27 + 4].functional_id, "point_001_q112_component1");
    assert_eq!(rows[27 + 4].support_entries, 2);
    assert_eq!(rows[27 + 81 + 26].functional_id, "point_026_q333");
    assert_eq!(rows[27 + 81 + 26].support_entries, 6);
    assert_eq!(rows[27 + 81 + 26].status, "expected_point_growth");
}

#[test]
fn rows_are_summed_up_by_level_and_kind() {
    let mut rows = one_level_rows();
    rows.reverse();
    let groups = summary_groups(&rows);
    assert_eq!(groups.len(), 3);
    assert_eq!(groups[0].members.len(), 27);
    assert_eq!(groups[1].members.len(), 81);
    assert_eq!(groups[2].members.len(), 27);
    let statistics = VarianceStatistics {
        mean_raw: scalar(1.0),
        median_raw: scalar(2.0),
        deviation_raw: scalar(5.0),
        median_normalized: scalar(6.0),
    };
    let row = summary_row(&rows, &groups[1].members, statistics);
    assert_eq!(row.n, 4);
    assert_eq!(row.count, 81);
    assert_eq!(row.observable_kind, BranchObservableKind::PointComponent);
    assert_eq!(float(row.median_normalized_variance), 6.0);
    assert_eq!(float(row.stddev_raw_variance), 5.0);
    let raw: Vec<f64> = groups[1].members.iter().map(|&i| float(rows[i].raw_variance)).collect();
    assert_eq!(float(row.min_raw_variance), raw.iter().copied().fold(f64::INFINITY, f64::min));
    assert_eq!(float(row.max_raw_variance), raw.iter().copied().fold(f64::NEG_INFINITY, f64::max));
}

#[test]
fn components_are_grouped_at_their_points() {
    let distances: Vec<Vec<Scalar>> = (0..27).map(|p| distances_to(p % 4)).collect();
    let points = point_component_observables(&reconstruction(4), &distances).unwrap();
    let groups = point_trace_groups(&points);
    assert_eq!(groups.len(), 27);
    assert_eq!(groups[5].members, vec![15, 16, 17]);
}

#[test]
fn sparse_rows_keep_what_exceeds_the_tolerance() {
    let values: Vec<Scalar> =
        [0.5, -1e-15, -0.25, f64::NAN, 1e-14, 0.0].iter().map(|&v| scalar(v)).collect();
    let row = vector_to_sparse_row(&values, scalar(1e-14));
    assert_eq!(row.len(), 2);
    assert_eq!((row[0].column, float(row[0].weight)), (0, 0.5));
    assert_eq!((row[1].column, float(row[1].weight)), (2, -0.25));
}

#[test]
fn tables_and_report_are_written() {
    assert_eq!(
        csv_header(&BranchFunctionalFitSummaryRow::column_names()),
        "model,component,observable_kind,diagnostic,value,expected,status"
    );
    let case = report_cases()[0];
    let fits = fit_groups(&vec![
        summary(4, case, BranchObservableKind::Line, 1.0),
        summary(8, case, BranchObservableKind::Line, 1.0),
    ]);
    let cells = fit_summary_row(&fits[0], scalar(0.5)).to_cells();
    let numbers: Vec<String> = cells
        .iter()
        .map(|cell| match cell {
            Cell::Number { value, .. } => format!("{:.17e}", float(*value)),
            _ => String::new(),
        })
        .collect();
    assert_eq!(
        csv_line(&cells, &numbers),
        "baseline_hodge_matern,full_1form,line,finest_relative_change,5.00000000000000000e-1,small under convergence,convergence_diagnostic"
    );
    let text = readme_text(&vec![4, 8], "4.0", "1.0");
    let lines: Vec<&str> = text.lines().collect();
    assert_eq!(lines.len(), 10);
    assert_eq!(lines[0], "# Hodge-Decomposed Cube Mesh-Invariance Report");
    assert_eq!(lines[2], "- levels: [4, 8]");
    assert_eq!(lines[3], "- kappa: 4.0");
    assert_eq!(lines[5], "- alpha: 2");
    assert!(text.ends_with("covariance matrix is formed.\n"));
}
