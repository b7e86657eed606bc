use feg_case_studies::index_set::IndexSet;
use feg_case_studies::planar_holes_hodge_flow::components::{
    component_anchors, component_count, find_vertex_root, union_vertices,
};
use feg_case_studies::planar_holes_hodge_flow::cycles::{build_cycle_row, build_open_path_row};
use feg_case_studies::planar_holes_hodge_flow::fields::{
    check_cycle_pairing, coexact_transform_diagnostics, difference_csr, eigen_extremes,
    positive_eigenvalues, scale_truth_branch, triangle_edges,
    validate_discrete_incompressible_truth, FieldScaling, TransformNorms,
};
use feg_case_studies::planar_holes_hodge_flow::hole_cycles::{
    build_hole_cycle_families, check_cycles_differ, check_difference_shapes, check_pairing_rank,
    identity_csr, observation_edge_set, shifted_branch_columns, CycleFamily, SignedMatrix,
};
use feg_case_studies::planar_holes_hodge_flow::holes::PlanarHoleSpec;
use feg_case_studies::planar_holes_hodge_flow::kinds::PlanarHolesTruthScaling;
use feg_case_studies::planar_holes_hodge_flow::mesh::{
    boundary_edge_indices, boundary_vertex_indices, build_edge_adjacency, cocell_count,
    edge_lookup, MeshTopology,
};
use feg_case_studies::planar_holes_hodge_flow::models::OneFormMassInverse;
use feg_case_studies::planar_holes_hodge_flow::reports::NormRatio;
use feg_case_studies::planar_holes_hodge_flow::rows::{combine_sensor_rows, cycle_closure_residual};
use feg_case_studies::planar_holes_hodge_flow::shortest_path::{shortest_path, EdgeStep};
use feg_case_studies::planar_holes_hodge_flow::topology::{
    anchor_exact_0form_branch, connected_component_count,
    connected_component_vertex_anchors_local, summarize_topology, validate_topology,
    PlanarHolesTopologySummary,
};
use feg_case_studies::scalar::Scalar;

fn scalar(value: f64) -> Scalar {
    Scalar::from_bits(value.to_bits())
}

fn float(value: Scalar) -> f64 {
    f64::from_bits(value.bits)
}

// A square of three by three cells, without the cell in the middle. Vertex `4 y + x` is at (x, y).
fn ring() -> MeshTopology {
    let mut cells: Vec<Vec<usize>> = Vec::new();
    for y in 0..3 {
        for x in 0..3 {
            if (x, y) != (1, 1) {
                let v = 4 * y + x;
                cells.push(vec![v, v + 1, v + 5]);
                cells.push(vec![v, v + 4, v + 5]);
            }
        }
    }
    let mut edges: Vec<(usize, usize)> = cells
        .iter()
        .flat_map(|c| [(c[0], c[1]), (c[0], c[2]), (c[1], c[2])])
        .collect();
    edges.sort();
    edges.dedup();
    MeshTopology { vertex_count: 16, edges, cells }
}

fn at(vertex: usize) -> (f64, f64) {
    ((vertex % 4) as f64, (vertex / 4) as f64)
}

fn lengths(topology: &MeshTopology) -> Vec<u64> {
    topology
        .edges
        .iter()
        .map(|&(a, b)| {
            let (p, q) = (at(a), at(b));
            (1000.0 * (p.0 - q.0).hypot(p.1 - q.1)).round() as u64
        })
        .collect()
}

fn adjacency(topology: &MeshTopology) -> Vec<Vec<EdgeStep>> {
    build_edge_adjacency(topology, &lengths(topology))
}

#[test]
fn unreachable_goal_is_reported() {
    let adjacency: Vec<Vec<EdgeStep>> = vec![Vec::new(), Vec::new()];
    assert_eq!(
        shortest_path(&adjacency, 0, 1, 0).unwrap_err(),
        "no path found from vertex 0 to 1"
    );
}

#[test]
fn shortest_paths_are_shortest() {
    let topology = ring();
    let adjacency = adjacency(&topology);
    let path = shortest_path(&adjacency, 0, 15, 0).unwrap();
    let length: u64 = path
        .edges
        .iter()
        .map(|&(edge, _)| lengths(&topology)[edge])
        .sum();
    // The diagonal runs through the missing cell, so two sides of a cell take its place.
    assert_eq!(length, 1414 + 1000 + 1000 + 1414);
    assert_eq!(path.vertices[0], 0);
    assert_eq!(*path.vertices.last().unwrap(), 15);
    for (step, &(edge, sign)) in path.edges.iter().enumerate() {
        let ends = topology.edges[edge];
        let walked = (path.vertices[step], path.vertices[step + 1]);
        assert!(if sign == 1 { walked == ends } else { walked == (ends.1, ends.0) });
    }
    let nothing = shortest_path(&adjacency, 7, 7, 0).unwrap();
    assert_eq!(nothing.vertices, vec![7]);
    assert!(nothing.edges.is_empty());
}

#[test]
fn equally_short_paths_follow_the_larger_vertex() {
    let step = |to: usize, edge_index: usize| EdgeStep { to, edge_index, sign: 1, length: 4 };
    let adjacency =
        vec![vec![step(2, 0), step(1, 1)], vec![step(3, 2)], vec![step(3, 3)], Vec::new()];
    let path = shortest_path(&adjacency, 0, 3, 0).unwrap();
    assert_eq!(path.vertices, vec![0, 2, 3]);
    assert_eq!(path.edges, vec![(0, 1), (3, 1)]);
    let swapped =
        vec![vec![step(1, 1), step(2, 0)], vec![step(3, 2)], vec![step(3, 3)], Vec::new()];
    assert_eq!(shortest_path(&swapped, 0, 3, 0).unwrap().vertices, vec![0, 2, 3]);
}

#[test]
fn improvements_within_the_tolerance_are_ignored() {
    let step = |to: usize, edge_index: usize, length: u64| EdgeStep { to, edge_index, sign: 1, length };
    let adjacency = vec![
        vec![step(2, 0, 10), step(1, 1, 4)],
        vec![step(2, 2, 5)],
        Vec::new(),
    ];
    assert_eq!(shortest_path(&adjacency, 0, 2, 0).unwrap().vertices, vec![0, 1, 2]);
    assert_eq!(shortest_path(&adjacency, 0, 2, 1).unwrap().vertices, vec![0, 2]);
}

#[test]
fn ring_has_one_hole() {
    let topology = ring();
    assert!(topology.is_well_formed());
    let summary = summarize_topology(&topology);
    assert_eq!(summary.vertex_count, 16);
    assert_eq!(summary.edge_count, 32);
    assert_eq!(summary.face_count, 16);
    assert_eq!(summary.euler_characteristic, 0);
    assert_eq!((summary.b0, summary.b1, summary.b2), (1, 1, 0));
    assert_eq!(summary.boundary_edge_count, 16);
    assert_eq!(
        validate_topology(&summary).unwrap_err(),
        "expected connected planar domain with three holes (b0=1,b1=3,b2=0), got b0=1 b1=1 b2=0"
    );
    let good = PlanarHolesTopologySummary { b1: 3, ..summary };
    assert!(validate_topology(&good).is_ok());
    let closed = PlanarHolesTopologySummary { boundary_edge_count: 0, ..good };
    assert_eq!(
        validate_topology(&closed).unwrap_err(),
        "planar holes domain should have boundary edges"
    );
}

#[test]
fn boundaries_bound_one_face() {
    let topology = ring();
    let edges = boundary_edge_indices(&topology);
    assert_eq!(edges.len(), 16);
    assert!(edges.as_vec().iter().all(|&e| cocell_count(&topology.cells, topology.edges[e]) == 1));
    assert_eq!(boundary_vertex_indices(&topology).len(), 16);
    assert_eq!(edge_lookup(&topology, 5, 0).map(|found| (found.1, found.2)), Some((0, 5)));
    assert!(edge_lookup(&topology, 5, 10).is_none());
    let bad = MeshTopology { vertex_count: 2, edges: vec![(1, 1)], cells: Vec::new() };
    assert!(!bad.is_well_formed());
}

#[test]
fn components_are_found() {
    let edges = vec![(0, 1), (3, 4), (4, 2)];
    assert_eq!(component_count(6, &edges), 3);
    assert_eq!(component_anchors(6, &edges), vec![0, 2, 5]);
    let mut parent: Vec<usize> = (0..4).collect();
    union_vertices(&mut parent, 3, 1);
    union_vertices(&mut parent, 1, 2);
    assert_eq!(find_vertex_root(&mut parent, 3), find_vertex_root(&mut parent, 2));
    assert_ne!(find_vertex_root(&mut parent, 0), find_vertex_root(&mut parent, 2));
    let topology = ring();
    assert_eq!(connected_component_count(&topology), 1);
    assert_eq!(connected_component_vertex_anchors_local(&topology), vec![0]);
}

#[test]
fn anchored_branches_keep_the_other_vertices() {
    assert_eq!(anchor_exact_0form_branch(4, 4, &vec![2]).unwrap(), vec![0, 1, 3]);
    assert_eq!(
        anchor_exact_0form_branch(4, 5, &vec![0]).unwrap_err(),
        "exact branch source precision must be square, got 4x5"
    );
    assert_eq!(
        anchor_exact_0form_branch(4, 4, &Vec::new()).unwrap_err(),
        "exact branch needs at least one vertex anchor"
    );
    assert_eq!(
        anchor_exact_0form_branch(4, 4, &vec![4]).unwrap_err(),
        "exact branch anchor 4 is out of bounds for 4 vertices"
    );
}

#[test]
fn cycles_close() {
    let topology = ring();
    let adjacency = adjacency(&topology);
    let (row, vertices) = build_cycle_row(&topology, &adjacency, &vec![0, 3, 15, 12], 0).unwrap();
    assert_eq!(row.len(), 12);
    assert_eq!(cycle_closure_residual(&topology, &row), 0);
    assert_eq!(vertices[0], *vertices.last().unwrap());
    assert_eq!(
        build_cycle_row(&topology, &adjacency, &vec![3, 3], 0).unwrap_err(),
        "cycle requires at least two distinct target vertices"
    );
    let (open, walked) = build_open_path_row(&topology, &adjacency, &vec![0, 3], 0).unwrap();
    assert_eq!(walked, vec![0, 1, 2, 3]);
    assert_eq!(cycle_closure_residual(&topology, &open), 2);
    assert_eq!(
        build_open_path_row(&topology, &adjacency, &vec![3], 0).unwrap_err(),
        "open path requires at least two distinct target vertices"
    );
}

#[test]
fn rows_are_combined_by_weight() {
    let first = vec![(0, 2), (3, 1)];
    let second = vec![(0, 2), (5, -1)];
    assert_eq!(
        combine_sensor_rows(&vec![(&first, 1), (&second, -1)]),
        vec![(3, 1), (5, 1)]
    );
    assert_eq!(combine_sensor_rows(&vec![(&first, 3)]), vec![(0, 6), (3, 3)]);
}

fn family(name: &str, targets: Vec<usize>) -> CycleFamily {
    CycleFamily {
        name: String::from(name),
        angle_offset: scalar(0.0),
        radii: vec![scalar(0.5)],
        target_vertices: vec![targets],
    }
}

#[test]
fn holes_are_gone_around() {
    let topology = ring();
    let adjacency = adjacency(&topology);
    let holes = vec![PlanarHoleSpec { name: String::from("middle"), center: (500, 500), radius: 100 }];
    let families = vec![family("train", vec![5, 6, 10, 9]), family("heldout", vec![0, 3, 15, 12])];
    let built = build_hole_cycle_families(&topology, &adjacency, 0, &holes, &families).unwrap();
    assert_eq!(built.len(), 2);
    let (matrix, cycles) = &built[0];
    assert_eq!(matrix.rows.len(), 1);
    assert_eq!(matrix.rows[0].len(), 4);
    assert_eq!(matrix.column_count, 32);
    assert_eq!(cycles[0].name, "train_middle");
    assert_eq!(cycles[0].edge_count, 4);
    assert_eq!(cycles[0].closure_residual_l1, 0);
    assert_eq!(observation_edge_set(matrix).len(), 4);
    assert!(check_cycles_differ(&built[0].0, &built[1].0).is_ok());
    assert_eq!(
        check_cycles_differ(matrix, matrix).unwrap_err(),
        "training and held-out loop observation rows should not be identical"
    );
    // The two circles differ by a boundary: the difference is closed as well.
    let difference = difference_csr(&built[1].0, &built[0].0).unwrap();
    assert_eq!(cycle_closure_residual(&topology, &difference.rows[0]), 0);
    assert_eq!(difference.rows[0].len(), 16);
}

#[test]
fn shapes_and_ranks_are_tested() {
    let wide = SignedMatrix { rows: vec![vec![(0, 1)]], column_count: 3 };
    let narrow = SignedMatrix { rows: vec![vec![(0, 1)]], column_count: 2 };
    assert_eq!(
        difference_csr(&wide, &narrow).unwrap_err(),
        "cannot subtract matrices with shapes 1x3 and 1x2"
    );
    assert!(check_difference_shapes((2, 3), (2, 3)).is_ok());
    assert!(check_pairing_rank("training cycle", 3, 3).is_ok());
    assert_eq!(
        check_pairing_rank("training cycle", 2, 3).unwrap_err(),
        "training cycle pairing rank 2 does not match hole count 3"
    );
    let identity = identity_csr(3);
    assert_eq!(identity.rows[2], vec![(2, 1)]);
    assert_eq!(shifted_branch_columns(2, 3, 5).unwrap(), vec![2, 3, 4]);
    assert_eq!(
        shifted_branch_columns(2, 4, 5).unwrap_err(),
        "branch operator with offset 2 and width 4 exceeds latent dimension 5"
    );
    assert!(check_cycle_pairing(3, 3, true).is_ok());
    assert_eq!(
        check_cycle_pairing(2, 3, true).unwrap_err(),
        "cycle-harmonic pairing must be square for canonicalization, got 2x3"
    );
    assert_eq!(
        check_cycle_pairing(3, 3, false).unwrap_err(),
        "cycle-harmonic pairing is singular and cannot define a canonical basis"
    );
}

#[test]
fn truth_branches_are_scaled() {
    let norm_targets = PlanarHolesTruthScaling::MassNormTargets;
    assert_eq!(
        scale_truth_branch(scalar(0.0), norm_targets, scalar(2.0)).unwrap(),
        FieldScaling::Zero
    );
    assert_eq!(
        scale_truth_branch(scalar(1.0), norm_targets, scalar(2.0)).unwrap(),
        FieldScaling::ToNorm
    );
    assert_eq!(
        scale_truth_branch(
            scalar(1.0),
            PlanarHolesTruthScaling::RawPriorSamples,
            scalar(2.0)
        )
        .unwrap(),
        FieldScaling::Keep
    );
    assert_eq!(
        scale_truth_branch(scalar(1.0), norm_targets, scalar(f64::NAN)).unwrap_err(),
        "cannot normalize a zero or non-finite field"
    );
}

#[test]
fn leaking_truths_are_refused() {
    let leakage = |ratio: f64| NormRatio {
        error: scalar(ratio),
        truth: scalar(1.0),
        ratio: scalar(ratio),
    };
    assert!(validate_discrete_incompressible_truth(leakage(1e-9), "1.000e-9").is_ok());
    assert_eq!(
        validate_discrete_incompressible_truth(leakage(1e-3), "1.000e-3").unwrap_err(),
        "exact-mass incompressible truth has codifferential leakage 1.000e-3, tolerance 1.000e-6"
    );
}

#[test]
fn edges_of_triangles_are_found() {
    let topology = ring();
    let edges = triangle_edges(&topology).unwrap();
    assert_eq!(edges.len(), 16);
    for (cell, found) in topology.cells.iter().zip(&edges) {
        assert_eq!(found.len(), 3);
        for &edge in found {
            let (a, b) = topology.edges[edge];
            assert!(cell.contains(&a) && cell.contains(&b));
        }
    }
    let broken =
        MeshTopology { vertex_count: 3, edges: vec![(0, 1), (0, 2)], cells: vec![vec![0, 1, 2]] };
    assert_eq!(triangle_edges(&broken).unwrap_err(), "triangle edge (1,2) is missing");
    assert_eq!(triangle_edges(&two_tetrahedra()).unwrap(), vec![Vec::new(), Vec::new()]);
}

fn two_tetrahedra() -> MeshTopology {
    MeshTopology {
        vertex_count: 5,
        edges: vec![
            (0, 1),
            (0, 2),
            (1, 2),
            (0, 3),
            (1, 3),
            (2, 3),
            (1, 4),
            (2, 4),
            (3, 4),
        ],
        cells: vec![vec![0, 1, 2, 3], vec![1, 2, 3, 4]],
    }
}

#[test]
fn other_cells_have_boundaries_too() {
    let mut solid = two_tetrahedra();
    assert_eq!(boundary_edge_indices(&solid).len(), 9);
    assert_eq!(boundary_vertex_indices(&solid).len(), 5);
    assert_eq!(cocell_count(&solid.cells, (1, 2)), 2);
    let summary = summarize_topology(&solid);
    assert_eq!((summary.b0, summary.b1, summary.face_count), (1, 3, 2));
    assert!(validate_topology(&summary).is_ok());
    solid.cells.push(vec![1, 2, 3]);
    assert_eq!(boundary_edge_indices(&solid).len(), 9);
    let lines = MeshTopology {
        vertex_count: 3,
        edges: vec![(0, 1), (1, 2)],
        cells: vec![vec![0, 1], vec![1, 2]],
    };
    assert!(boundary_edge_indices(&lines).is_empty());
    assert_eq!(boundary_vertex_indices(&lines).as_vec(), &vec![0, 2]);
    assert_eq!(summarize_topology(&lines).b1, 0);
}

#[test]
fn eigenvalues_are_summed_up() {
    let values: Vec<Scalar> =
        [0.0, 1e-15, 2.0, f64::NAN, 5.0].iter().map(|&v| scalar(v)).collect();
    let kept = positive_eigenvalues(&values, scalar(1e-12));
    assert_eq!(kept.len(), 2);
    let (count, least, greatest) = eigen_extremes(&kept);
    assert_eq!((count, float(least), float(greatest)), (2, 2.0, 5.0));
    assert!(float(eigen_extremes(&Vec::new()).1).is_nan());
}

#[test]
fn transforms_are_diagnosed() {
    let norms = TransformNorms {
        sparse_norm: scalar(2.0),
        exact_norm: scalar(4.0),
        sparse_leakage_ratio: scalar(0.5),
        exact_leakage_ratio: scalar(0.25),
        sparse_orthogonality: scalar(0.1),
        exact_orthogonality: scalar(0.2),
        difference_ratio: scalar(0.3),
        sparse_rank: 7,
        exact_rank: 8,
        cosine_min: scalar(0.9),
        cosine_mean: scalar(0.95),
        angle_max_degrees: scalar(25.0),
    };
    let report = coexact_transform_diagnostics(
        &ring(),
        OneFormMassInverse::Nc1ProjectedSparseInverse,
        norms,
    );
    assert_eq!(report.sparse_inverse, "nc1_projected_sparse_inverse");
    assert_eq!((report.vertex_count, report.edge_count, report.face_count), (16, 32, 16));
    assert_eq!(report.exact_mass_coexact_rank, 8);
    assert_eq!(float(report.exact_mass_coexact_codifferential_leakage), 0.25);
}

#[test]
fn index_sets_hold_each_index_once() {
    let mut set = IndexSet::new();
    assert!(set.is_empty());
    set.insert(5);
    set.extend(&vec![3, 5, 9, 3]);
    assert_eq!(set.as_vec(), &vec![3, 5, 9]);
    assert!(set.contains(9) && !set.contains(4));
    assert_eq!(set.len(), 3);
}
