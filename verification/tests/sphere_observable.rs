use feg_case_studies::hodge::HodgeBranchKind;
use feg_case_studies::reconstruction::{BarycenterReconstruction, WeightedEntry};
use feg_case_studies::scalar::Scalar;
use feg_case_studies::sphere_branch_observable_convergence::harmonics::{
    differentiate, harmonic_constant, harmonic_gradient, harmonic_polynomial, Axis, Monomial,
};
use feg_case_studies::sphere_branch_observable_convergence::pointwise::{
    check_pointwise_counts, component_name, family_groups, family_rows,
    fixed_pointwise_directions, pointwise_fit_groups, pointwise_fit_summary_rows,
    pointwise_operator, pointwise_rows_for_prior, pointwise_summary_row,
    select_nearest_unique_cells, FamilySummary, PointwiseOperator, PointwiseVariance,
    SelectedPointwiseCell,
};
use feg_case_studies::sphere_branch_observable_convergence::tables::{
    SphereObservableSummaryRow, SphereObservableVarianceRow, SpherePointwiseSummaryRow,
    SpherePointwiseVarianceRow,
};
use feg_case_studies::sphere_branch_observable_convergence::{
    analytic_target_variance, fit_groups, fit_summary_rows, lambda_for_ell, measure_surface,
    observables, prior_cases, readme_text, split_variances, summary_groups, summary_row, validate_config,
    variance_rows_for_prior, ErrorStatistics, PriorCase, PriorReport,
    SphereBranchObservableConvergenceConfig, SphereBranchObservableModel, SphereMesh,
    SphereObservable, SmoothVariance,
};
use feg_case_studies::table::csv_header;
use feg_case_studies::sphere_surface::{build_surface, SpacePoint, SphereSurface};
use simplicial::gen::sphere::mesh_sphere_surface;
use std::collections::BTreeSet;

const FOUR_PI: f64 = 4.0 * std::f64::consts::PI;

fn scalar(value: f64) -> Scalar {
    Scalar::from_bits(value.to_bits())
}

fn float(value: Scalar) -> f64 {
    f64::from_bits(value.bits)
}

fn dot3(lhs: [f64; 3], rhs: [f64; 3]) -> f64 {
    lhs[0] * rhs[0] + lhs[1] * rhs[1] + lhs[2] * rhs[2]
}

fn cross3(lhs: [f64; 3], rhs: [f64; 3]) -> [f64; 3] {
    [
        lhs[1] * rhs[2] - lhs[2] * rhs[1],
        lhs[2] * rhs[0] - lhs[0] * rhs[2],
        lhs[0] * rhs[1] - lhs[1] * rhs[0],
    ]
}

fn normalize3(point: [f64; 3]) -> [f64; 3] {
    let norm = dot3(point, point).sqrt();
    [point[0] / norm, point[1] / norm, point[2] / norm]
}

fn evaluate(terms: &[Monomial], at: [f64; 3]) -> f64 {
    terms
        .iter()
        .map(|t| {
            t.coefficient as f64
                * at[0].powi(t.x as i32)
                * at[1].powi(t.y as i32)
                * at[2].powi(t.z as i32)
        })
        .sum()
}

fn vector_proxy(observable: SphereObservable, unit: [f64; 3]) -> [f64; 3] {
    let (numerator, denominator) = harmonic_constant(observable.ell, observable.m);
    let c = (numerator as f64 / denominator as f64 / std::f64::consts::PI).sqrt();
    let value = c * evaluate(&harmonic_polynomial(observable.ell, observable.m), unit);
    let gradient = harmonic_gradient(observable.ell, observable.m);
    let root = (lambda_for_ell(observable.ell) as f64).sqrt();
    let slopes = [
        c * evaluate(&gradient.x, unit),
        c * evaluate(&gradient.y, unit),
        c * evaluate(&gradient.z, unit),
    ];
    let mut exact = [0.0; 3];
    for axis in 0..3 {
        exact[axis] = (slopes[axis] - observable.ell as f64 * value * unit[axis]) / root;
    }
    match observable.branch {
        HodgeBranchKind::Exact => exact,
        HodgeBranchKind::Coexact => cross3(unit, exact),
        HodgeBranchKind::Harmonic => [0.0, 0.0, 0.0],
    }
}

fn fibonacci_sphere_points(count: usize) -> Vec<[f64; 3]> {
    let golden = std::f64::consts::PI * (3.0 - 5.0_f64.sqrt());
    (0..count)
        .map(|index| {
            let z = 1.0 - 2.0 * (index as f64 + 0.5) / count as f64;
            let radius = (1.0 - z * z).sqrt();
            let theta = golden * index as f64;
            [radius * theta.cos(), radius * theta.sin(), z]
        })
        .collect()
}

#[test]
fn exact_and_coexact_vector_proxies_are_tangent() {
    let points = [
        normalize3([0.2, -0.4, 0.8]),
        normalize3([-0.7, 0.1, 0.3]),
        normalize3([0.5, 0.6, -0.2]),
    ];
    for observable in observables(3) {
        for point in points {
            let proxy = vector_proxy(observable, point);
            assert!(
                dot3(point, proxy).abs() <= 1e-12,
                "{} proxy should be tangent",
                observable.id()
            );
            assert!(proxy.iter().all(|value| value.is_finite()));
        }
    }
}

#[test]
fn vector_proxy_modes_have_unit_l2_norm() {
    for observable in observables(3) {
        let integral = fibonacci_sphere_points(4096)
            .into_iter()
            .map(|point| dot3(vector_proxy(observable, point), vector_proxy(observable, point)))
            .sum::<f64>()
            * FOUR_PI
            / 4096.0;
        assert!(
            (integral - 1.0).abs() <= 8e-3,
            "{} approximate L2 norm should be one, got {integral:.6e}",
            observable.id()
        );
    }
}

fn matched_variance(ell: usize, kappa: f64, tau: f64) -> f64 {
    tau.powi(-2) * (kappa * kappa + lambda_for_ell(ell) as f64).powi(-2)
}

#[test]
fn analytic_matched_variance_uses_alpha_two_eigenvalue() {
    let kappa: f64 = 1.5;
    let tau: f64 = 2.0;
    for ell in 1..=3 {
        let observable = SphereObservable { branch: HodgeBranchKind::Exact, ell, m: 0 };
        let lambda = (ell * (ell + 1)) as f64;
        let expected = tau.powi(-2) * (kappa * kappa + lambda).powi(-2);
        let variance = analytic_target_variance(
            HodgeBranchKind::Exact,
            observable,
            scalar(matched_variance(ell, kappa, tau)),
        );
        assert!((float(variance) - expected).abs() <= 1e-14);
    }
}

#[test]
fn analytic_cross_branch_target_is_zero() {
    let exact = SphereObservable { branch: HodgeBranchKind::Exact, ell: 2, m: 1 };
    let coexact = SphereObservable { branch: HodgeBranchKind::Coexact, ell: 2, m: 1 };
    let matched = scalar(matched_variance(2, 1.0, 1.0));
    assert_eq!(float(analytic_target_variance(HodgeBranchKind::Coexact, exact, matched)), 0.0);
    assert_eq!(float(analytic_target_variance(HodgeBranchKind::Exact, coexact, matched)), 0.0);
}

fn directions() -> Vec<[f64; 3]> {
    let root = 3.0_f64.sqrt();
    fixed_pointwise_directions()
        .iter()
        .map(|corner| [corner.x as f64 / root, corner.y as f64 / root, corner.z as f64 / root])
        .collect()
}

#[test]
fn fixed_pointwise_directions_are_unit_vectors() {
    let directions = directions();
    assert_eq!(directions.len(), 8);
    for direction in directions {
        assert!(direction.iter().all(|value| value.is_finite()));
        assert!((dot3(direction, direction) - 1.0).abs() <= 1e-14);
    }
}

fn position(surface: &SphereSurface, vertex: usize) -> [f64; 3] {
    let point = surface.positions[vertex];
    [float(point.x), float(point.y), float(point.z)]
}

fn corners(surface: &SphereSurface, cell: usize) -> [usize; 3] {
    let face = surface.faces[cell];
    [face.0, face.1, face.2]
}

fn barycenter(surface: &SphereSurface, cell: usize) -> [f64; 3] {
    let mut sum = [0.0; 3];
    for vertex in corners(surface, cell) {
        let at = position(surface, vertex);
        for axis in 0..3 {
            sum[axis] += at[axis] / 3.0;
        }
    }
    sum
}

// The Whitney form of an edge takes, at the barycenter, a third of the difference of the gradients
// of its two hat functions.
fn whitney_reconstruction(surface: &SphereSurface) -> BarycenterReconstruction {
    let mut components = vec![Vec::new(), Vec::new(), Vec::new()];
    for cell in 0..surface.faces.len() {
        let vertices = corners(surface, cell);
        let points: Vec<[f64; 3]> = vertices.iter().map(|&v| position(surface, v)).collect();
        let side = |a: usize, b: usize| {
            [
                points[b][0] - points[a][0],
                points[b][1] - points[a][1],
                points[b][2] - points[a][2],
            ]
        };
        let normal = cross3(side(0, 1), side(0, 2));
        let square = dot3(normal, normal);
        let gradients: Vec<[f64; 3]> = (0..3)
            .map(|i| {
                let turned = cross3(normal, side((i + 1) % 3, (i + 2) % 3));
                [turned[0] / square, turned[1] / square, turned[2] / square]
            })
            .collect();
        let mut rows: Vec<Vec<WeightedEntry>> = vec![Vec::new(), Vec::new(), Vec::new()];
        for (a, b) in [(0, 1), (0, 2), (1, 2)] {
            let ends = (vertices[a], vertices[b]);
            let column = surface.edges.iter().position(|&edge| edge == ends).unwrap();
            for axis in 0..3 {
                let weight = (gradients[b][axis] - gradients[a][axis]) / 3.0;
                rows[axis].push(WeightedEntry { column, weight: scalar(weight) });
            }
        }
        for (axis, row) in rows.into_iter().enumerate() {
            components[axis].push(row);
        }
    }
    BarycenterReconstruction { components }
}

fn space_point(at: [f64; 3]) -> SpacePoint {
    SpacePoint { x: scalar(at[0]), y: scalar(at[1]), z: scalar(at[2]) }
}

fn selected_cells(surface: &SphereSurface) -> Vec<SelectedPointwiseCell> {
    let barycenters: Vec<[f64; 3]> = (0..surface.faces.len())
        .map(|cell| normalize3(barycenter(surface, cell)))
        .collect();
    let finite = barycenters.iter().map(|b| b.iter().all(|v| v.is_finite())).collect();
    let distances: Vec<Vec<f64>> = directions()
        .iter()
        .map(|d| {
            barycenters
                .iter()
                .map(|b| {
                    let delta = [b[0] - d[0], b[1] - d[1], b[2] - d[2]];
                    dot3(delta, delta)
                })
                .collect()
        })
        .collect();
    let scalars =
        distances.iter().map(|row| row.iter().map(|&d| scalar(d)).collect()).collect();
    select_nearest_unique_cells(&scalars, &finite)
        .unwrap()
        .iter()
        .enumerate()
        .map(|(point_index, &cell_index)| SelectedPointwiseCell {
            point_index,
            cell_index,
            target: space_point(directions()[point_index]),
            eval_point: space_point(barycenters[cell_index]),
            direction_error: scalar(distances[point_index][cell_index].sqrt()),
        })
        .collect()
}

fn level_one_operator() -> (PointwiseOperator, usize) {
    let surface = build_surface(1);
    let selected = selected_cells(&surface);
    let reconstruction = whitney_reconstruction(&surface);
    (pointwise_operator(&reconstruction, &selected).unwrap(), surface.edges.len())
}

#[test]
fn pointwise_operator_selects_unique_cells_and_has_expected_rows() {
    let (operator, edges) = level_one_operator();
    let point_count = fixed_pointwise_directions().len();
    assert_eq!(operator.rows.len(), 3 * point_count);
    assert!(operator.rows.iter().flatten().all(|entry| entry.column < edges));
    assert_eq!(operator.observations.len(), 3 * point_count);
    assert!(operator.rows.iter().flatten().all(|entry| float(entry.weight).is_finite()));

    let unique_cells = operator
        .observations
        .iter()
        .filter(|observation| observation.component_index == 0)
        .map(|observation| observation.selected.cell_index)
        .collect::<BTreeSet<_>>();
    assert_eq!(unique_cells.len(), point_count);
}

#[test]
fn surfaces_are_split_icosahedra() {
    for level in 0..4u32 {
        let surface = build_surface(level as usize);
        let pieces = 4usize.pow(level);
        assert_eq!(surface.positions.len(), 10 * pieces + 2);
        assert_eq!(surface.edges.len(), 30 * pieces);
        assert_eq!(surface.faces.len(), 20 * pieces);
        for vertex in 0..surface.positions.len() {
            let at = position(&surface, vertex);
            assert!((dot3(at, at) - 1.0).abs() < 1e-14);
        }
        let (complex, coords) = mesh_sphere_surface(level as usize);
        assert_eq!(complex.nsimplices(1), surface.edges.len());
        for (vertex, coord) in coords.coord_iter().enumerate() {
            assert_eq!(position(&surface, vertex), [coord[0], coord[1], coord[2]]);
        }
        for (face, simplex) in surface.faces.iter().zip(complex.skeleton_raw(2).iter()) {
            assert_eq!(vec![face.0, face.1, face.2], simplex.iter().collect::<Vec<usize>>());
        }
        let mesh = measure_surface(level as usize, scalar(0.5), &surface);
        assert_eq!(mesh.vertex_count + mesh.cell_count, mesh.edge_count + 2);
    }
}

#[test]
fn constant_fields_are_read_off_at_the_points() {
    let surface = build_surface(1);
    let (operator, edges) = level_one_operator();
    let direction = [0.3, -0.7, 0.2];
    let mut cochain = vec![0.0; edges];
    for (index, value) in cochain.iter_mut().enumerate() {
        let ends = surface.edges[index];
        let (a, b) = (position(&surface, ends.0), position(&surface, ends.1));
        *value = dot3(direction, [b[0] - a[0], b[1] - a[1], b[2] - a[2]]);
    }
    for (point, observation) in operator.observations[..8].iter().enumerate() {
        let mut field = [0.0; 3];
        for axis in 0..3 {
            let row = &operator.rows[8 * axis + point];
            field[axis] = row.iter().map(|e| float(e.weight) * cochain[e.column]).sum();
        }
        let cell = observation.selected.cell_index;
        let vertices = corners(&surface, cell);
        let origin = position(&surface, vertices[0]);
        for &vertex in &vertices[1..] {
            let at = position(&surface, vertex);
            let side = [at[0] - origin[0], at[1] - origin[1], at[2] - origin[2]];
            assert!((dot3(field, side) - dot3(direction, side)).abs() < 1e-12);
        }
    }
}

#[test]
fn nearest_cells_are_chosen_once() {
    let near = |row: [f64; 4]| row.iter().map(|&d| scalar(d)).collect::<Vec<Scalar>>();
    let distances = vec![near([2.0, 1.0, 1.0, 3.0]), near([2.0, 1.0, 1.0, 3.0])];
    assert_eq!(
        select_nearest_unique_cells(&distances, &vec![true, true, true, true]).unwrap(),
        vec![1, 2]
    );
    assert_eq!(
        select_nearest_unique_cells(&distances, &vec![true, false, true, true]).unwrap(),
        vec![2, 0]
    );
    assert_eq!(
        select_nearest_unique_cells(&distances, &vec![false, false, true, false]).unwrap_err(),
        "failed to select a finite unique cell for pointwise point 1"
    );
    let narrow = vec![vec![scalar(1.0)], vec![scalar(1.0)]];
    assert_eq!(
        select_nearest_unique_cells(&narrow, &vec![true]).unwrap_err(),
        "need at least 2 cells to select unique pointwise barycenters, got 1"
    );
}

#[test]
fn cells_out_of_bounds_are_reported() {
    let selected = vec![SelectedPointwiseCell {
        point_index: 0,
        cell_index: 1,
        target: space_point([1.0, 0.0, 0.0]),
        eval_point: space_point([1.0, 0.0, 0.0]),
        direction_error: scalar(0.0),
    }];
    let one_cell = || BarycenterReconstruction {
        components: vec![vec![Vec::new()], vec![Vec::new()], vec![Vec::new()]],
    };
    assert_eq!(
        pointwise_operator(&one_cell(), &selected).unwrap_err(),
        "selected cell 1 is out of bounds for barycenter reconstruction"
    );
    assert_eq!(component_name(2).unwrap(), "z");
    assert_eq!(component_name(3).unwrap_err(), "unsupported ambient component index 3");
    assert!(check_pointwise_counts(24, 24).is_ok());
    assert_eq!(
        check_pointwise_counts(21, 21).unwrap_err(),
        "expected 24 pointwise observations, got 21"
    );
    assert_eq!(
        check_pointwise_counts(24, 23).unwrap_err(),
        "pointwise variance count 23 does not match observation count 24"
    );
}

#[test]
fn harmonics_solve_the_laplace_equation() {
    let points = [[1.0, 2.0, 3.0], [-2.0, 5.0, 1.0]];
    for ell in 1..=3usize {
        for m in -(ell as i64)..=(ell as i64) {
            let terms = harmonic_polynomial(ell, m);
            let gradient = harmonic_gradient(ell, m);
            for at in points {
                let bend = evaluate(&differentiate(&gradient.x, Axis::X), at)
                    + evaluate(&differentiate(&gradient.y, Axis::Y), at)
                    + evaluate(&differentiate(&gradient.z, Axis::Z), at);
                assert_eq!(bend, 0.0);
                let slopes = [
                    evaluate(&gradient.x, at),
                    evaluate(&gradient.y, at),
                    evaluate(&gradient.z, at),
                ];
                assert_eq!(dot3(at, slopes), ell as f64 * evaluate(&terms, at));
            }
        }
    }
}

#[test]
fn harmonics_have_known_values() {
    assert_eq!(
        harmonic_polynomial(1, -1),
        vec![Monomial { coefficient: 1, x: 0, y: 1, z: 0 }]
    );
    assert_eq!(harmonic_constant(1, 0), (3, 4));
    let twice = evaluate(&harmonic_polynomial(2, 0), [0.0, 0.0, 1.0]);
    let (numerator, denominator) = harmonic_constant(2, 0);
    let value = twice * (numerator as f64 / denominator as f64 / std::f64::consts::PI).sqrt();
    assert!((value - (5.0 / FOUR_PI).sqrt()).abs() < 1e-15);
}

#[test]
fn observables_are_listed_by_degree_order_and_branch() {
    let list = observables(3);
    assert_eq!(list.len(), 30);
    assert_eq!(list[0].id(), "exact_l1_m-1");
    assert_eq!(list[1].id(), "coexact_l1_m-1");
    assert_eq!(list[5].id(), "coexact_l1_m1");
    assert_eq!(list[6].id(), "exact_l2_m-2");
    assert_eq!(list[29].id(), "coexact_l3_m3");
    assert_eq!(observables(0).len(), 0);
    assert_eq!(lambda_for_ell(3), 12);
}

#[test]
fn sphere_configurations_are_tested_in_order() {
    let mut config = SphereBranchObservableConvergenceConfig::default();
    assert_eq!(config.levels, vec![1, 2, 3, 4, 5]);
    assert_eq!(config.pointwise_analytic_lmax, 400);
    assert!(validate_config(&config).is_ok());
    assert!(validate_config(&SphereBranchObservableConvergenceConfig::smoke()).is_ok());
    let thesis = SphereBranchObservableConvergenceConfig::thesis_submitted();
    assert_eq!(thesis.levels, vec![1, 2, 3, 4, 5, 6]);
    config.pointwise_analytic_lmax = 0;
    assert_eq!(
        validate_config(&config).unwrap_err(),
        "pointwise_analytic_lmax must be positive"
    );
    config.lmax = 4;
    assert_eq!(
        validate_config(&config).unwrap_err(),
        "lmax must be in 1..=3 for the built-in real harmonics"
    );
    config.tau = scalar(f64::INFINITY);
    assert_eq!(validate_config(&config).unwrap_err(), "tau must be finite and positive");
    config.kappa = scalar(-1.0);
    assert_eq!(validate_config(&config).unwrap_err(), "kappa must be finite and positive");
    config.levels.clear();
    assert_eq!(
        validate_config(&config).unwrap_err(),
        "at least one sphere refinement level is required"
    );
}

fn mesh(level: usize) -> SphereMesh {
    SphereMesh {
        refinement_level: level,
        h: scalar(1.0 / level as f64),
        vertex_count: 42,
        edge_count: 120,
        cell_count: 80,
    }
}

fn report(prior_branch: HodgeBranchKind) -> PriorReport {
    PriorReport {
        model: SphereBranchObservableModel::SpectrallyCorrected,
        prior_branch,
        latent_dofs: 42,
        precision_nnz: 7,
        factor_nnz: 9,
        build_seconds: scalar(0.5),
        factor_seconds: scalar(0.25),
        variance_seconds: scalar(0.125),
    }
}

fn smooth_rows(level: usize) -> Vec<SphereObservableVarianceRow> {
    let observables = observables(1);
    let variances = vec![
        SmoothVariance {
            model_variance: scalar(2.0),
            matched_variance: scalar(4.0),
            target_scale: scalar(4.0),
            absolute_error: scalar(2.0),
            scaled_error: scalar(0.5),
        };
        6
    ];
    variance_rows_for_prior(
        &mesh(level),
        &report(HodgeBranchKind::Exact),
        &observables,
        &vec![3; 6],
        &variances,
    )
}

fn error_statistics() -> ErrorStatistics {
    ErrorStatistics {
        mean_variance: scalar(1.0),
        median_variance: scalar(2.0),
        rms_error: scalar(3.0),
        median_error: scalar(4.0),
    }
}

#[test]
fn smooth_rows_are_matched_or_leak() {
    let rows = smooth_rows(1);
    assert_eq!(rows.len(), 6);
    assert_eq!(rows[0].kind, "matched");
    assert_eq!(float(rows[0].analytic_variance), 4.0);
    assert_eq!(rows[1].kind, "leakage");
    assert_eq!(float(rows[1].analytic_variance), 0.0);
    assert_eq!(rows[1].observable_id, "coexact_l1_m-1");
    assert_eq!(rows[1].row_nnz, 3);
    let groups = summary_groups(&rows);
    assert_eq!(groups.len(), 2);
    assert_eq!(groups[0].members, vec![0, 2, 4]);
    assert_eq!(groups[1].members, vec![1, 3, 5]);
    let mut rows = rows;
    rows[2].scaled_error = scalar(9.0);
    rows[3].scaled_error = scalar(0.75);
    rows[5].scaled_error = scalar(f64::NAN);
    let summary = summary_row(&rows, &groups[1].members, error_statistics());
    assert_eq!(summary.count, 3);
    assert_eq!(summary.kind, "leakage");
    assert_eq!(float(summary.max_scaled_error), 0.75);
    rows.iter_mut().for_each(|row| row.scaled_error = scalar(f64::NAN));
    let undefined = summary_row(&rows, &groups[1].members, error_statistics());
    assert_eq!(float(undefined.max_scaled_error), f64::NEG_INFINITY);
}

fn smooth_summaries() -> Vec<SphereObservableSummaryRow> {
    let mut summaries = Vec::new();
    for level in [1, 2] {
        let rows = smooth_rows(level);
        for group in summary_groups(&rows) {
            summaries.push(summary_row(&rows, &group.members, error_statistics()));
        }
    }
    summaries
}

#[test]
fn smooth_fits_run_from_fine_to_coarse() {
    let summaries = smooth_summaries();
    let groups = fit_groups(&summaries);
    assert_eq!(groups.len(), 2);
    assert_eq!(groups[0].members, vec![2, 0]);
    let matched = fit_summary_rows(&summaries, &groups[0].members, scalar(1.5));
    assert_eq!(matched.len(), 2);
    assert_eq!(matched[0].diagnostic, "loglog_slope_matched_rms_relative_error_vs_h");
    assert_eq!(float(matched[0].value), 1.5);
    assert_eq!(matched[0].status, "variance_convergence_diagnostic");
    assert_eq!(matched[1].diagnostic, "finest_rms_relative_error");
    assert_eq!(float(matched[1].value), 3.0);
    let leakage = fit_summary_rows(&summaries, &groups[1].members, scalar(0.5));
    assert_eq!(leakage[0].diagnostic, "loglog_slope_leakage_rms_ratio_vs_h");
    assert_eq!(leakage[1].diagnostic, "finest_rms_leakage_ratio");
    assert_eq!(leakage[1].status, "leakage_diagnostic");
}

#[test]
fn variances_are_split() {
    let values: Vec<Scalar> = [1.0, 2.0, 3.0].iter().map(|&v| scalar(v)).collect();
    let (smooth, pointwise) = split_variances(&values, 1, 2).unwrap();
    assert_eq!(smooth.len(), 1);
    assert_eq!(float(pointwise[0]), 2.0);
    assert_eq!(
        split_variances(&values, 1, 1).unwrap_err(),
        "variance solve returned 3 rows for 1 smooth + 1 pointwise rows"
    );
}

fn pointwise_rows(level: usize) -> Vec<SpherePointwiseVarianceRow> {
    let (operator, _) = level_one_operator();
    let variance = PointwiseVariance {
        model_variance: scalar(2.0),
        analytic_variance: scalar(1.0),
        absolute_error: scalar(1.0),
        relative_error: scalar(1.0),
    };
    pointwise_rows_for_prior(
        &mesh(level),
        &report(HodgeBranchKind::Coexact),
        &operator,
        &vec![variance; 24],
        &vec![String::from("1"); 24],
    )
    .unwrap()
}

#[test]
fn components_are_summed_up_alone_and_together() {
    let rows = pointwise_rows(1);
    assert_eq!(rows.len(), 24);
    assert_eq!(rows[8].component_name, "y");
    assert_eq!(rows[8].row_nnz, 3);
    let groups = family_groups(&rows);
    assert_eq!(groups.len(), 4);
    let mut rows = rows;
    rows[20].relative_error = scalar(8.5);
    let summaries: Vec<SpherePointwiseSummaryRow> = groups
        .iter()
        .map(|g| pointwise_summary_row(&rows, &g.members, error_statistics()).row)
        .collect();
    assert_eq!(summaries[0].component_family, "all");
    assert_eq!(summaries[0].count, 24);
    assert_eq!(summaries[3].component_family, "z");
    assert_eq!(summaries[3].count, 8);
    assert_eq!(float(summaries[0].max_relative_error), 8.5);
    assert_eq!(float(summaries[3].max_relative_error), 8.5);
    assert!(float(summaries[1].max_relative_error) < 8.5);
    assert_eq!(family_rows(&groups[1].members), (0..8).collect::<Vec<usize>>());
}

#[test]
fn component_fits_run_from_fine_to_coarse() {
    let mut summaries: Vec<FamilySummary> = Vec::new();
    for level in [1, 2] {
        let rows = pointwise_rows(level);
        for group in family_groups(&rows) {
            summaries.push(pointwise_summary_row(&rows, &group.members, error_statistics()));
        }
    }
    let groups = pointwise_fit_groups(&summaries);
    assert_eq!(groups.len(), 4);
    assert_eq!(groups[0].members, vec![4, 0]);
    let pair = pointwise_fit_summary_rows(&summaries, &groups[2].members, scalar(0.75));
    assert_eq!(pair[0].component_family, "y");
    assert_eq!(pair[0].diagnostic, "loglog_slope_pointwise_rms_relative_error_vs_h");
    assert_eq!(float(pair[0].value), 0.75);
    assert_eq!(pair[1].diagnostic, "finest_pointwise_rms_relative_error");
    assert_eq!(float(pair[1].value), 3.0);
    assert_eq!(pair[1].status, "pointwise_local_field_diagnostic");
}

#[test]
fn negative_analytic_variances_are_reported() {
    let (operator, _) = level_one_operator();
    let good = PointwiseVariance {
        model_variance: scalar(2.0),
        analytic_variance: scalar(1.0),
        absolute_error: scalar(1.0),
        relative_error: scalar(1.0),
    };
    let mut variances = vec![good; 24];
    variances[5].analytic_variance = scalar(-0.5);
    let mut texts = vec![String::from("1"); 24];
    texts[5] = String::from("-0.5");
    let message = pointwise_rows_for_prior(
        &mesh(1),
        &report(HodgeBranchKind::Exact),
        &operator,
        &variances,
        &texts,
    )
    .unwrap_err();
    assert!(message.contains("-0.5"));
}

#[test]
fn sphere_report_is_written() {
    let config = SphereBranchObservableConvergenceConfig::smoke();
    let text = readme_text(&config, "1.0", "1.0");
    let lines: Vec<&str> = text.lines().collect();
    assert_eq!(lines[0], "# Sphere Exact/Coexact Observable Convergence");
    assert_eq!(lines[2], "- levels: [1]");
    assert_eq!(lines[6], "- lmax: 1");
    assert_eq!(lines[7], "- pointwise_analytic_lmax: 8");
    assert_eq!(
        csv_header(&SpherePointwiseSummaryRow::column_names()),
        "refinement_level,h,model,prior_branch,component_family,count,mean_model_variance,median_model_variance,rms_relative_error,median_relative_error,max_relative_error"
    );
}

#[test]
fn priors_are_reported_model_by_model() {
    let cases = prior_cases();
    assert_eq!(cases.len(), 4);
    assert_eq!(
        cases[1],
        PriorCase {
            model: SphereBranchObservableModel::OrdinaryPotential,
            prior_branch: HodgeBranchKind::Coexact,
        }
    );
    assert_eq!(cases[2].model, SphereBranchObservableModel::SpectrallyCorrected);
    assert_eq!(cases[2].prior_branch, HodgeBranchKind::Exact);
}

#[test]
fn harmonics_are_even_or_odd() {
    let (point, opposite) = ([1.0, -2.0, 3.0], [-1.0, 2.0, -3.0]);
    for ell in 1..=3 {
        let sign = if ell % 2 == 0 { 1.0 } else { -1.0 };
        for m in -(ell as i64)..=ell as i64 {
            let terms = harmonic_polynomial(ell, m);
            assert_eq!(evaluate(&terms, opposite), sign * evaluate(&terms, point));
            let gradient = harmonic_gradient(ell, m);
            for slopes in [&gradient.x, &gradient.y, &gradient.z] {
                assert_eq!(evaluate(slopes, opposite), -sign * evaluate(slopes, point));
            }
        }
    }
    assert_eq!(evaluate(&harmonic_polynomial(1, -1), opposite), 2.0);
}
