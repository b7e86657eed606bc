use feg_case_studies::planar_holes_hodge_flow::config::{
    PlanarHolesFlowConfig, PlanarHolesSensorDesignSweepConfig,
};
use feg_case_studies::planar_holes_hodge_flow::designs::{
    available_counts, sensor_design_counts, SensorDesignCounts,
};
use feg_case_studies::planar_holes_hodge_flow::edge_plans::{
    reserve_pair_edges, reserved_edges, ComparisonStudy, FlowEdges,
};
use feg_case_studies::planar_holes_hodge_flow::grid::{
    contractible_loop_candidates, loop_label_text, path_endpoints, path_label_text, path_pairs,
    three_places_text, valid_contractible_loop_center, valid_long_path_endpoint, GridPoint,
    LoopCandidate, PathFamily,
};
use feg_case_studies::planar_holes_hodge_flow::hole_cycles::{PlanarHoleCycle, SignedMatrix};
use feg_case_studies::planar_holes_hodge_flow::holes::{
    default_holes, holes_for_domain, PlanarHoleSpec, PlanarHolesDomainKind,
};
use feg_case_studies::planar_holes_hodge_flow::kinds::{
    PlanarHolesObservationKind, PlanarHolesObservationScenario, PlanarHolesSensorDesignKind,
};
use feg_case_studies::planar_holes_hodge_flow::mesh::{build_edge_adjacency, MeshTopology};
use feg_case_studies::planar_holes_hodge_flow::observation::{
    final_training, heldout_local_edge_indices, period_cycles, scenario_training, ObservedEntries,
    PeriodCycles,
};
use feg_case_studies::planar_holes_hodge_flow::observation_plans::{
    contrast_observations, flow_observations, path_observations, sweep_training, BuiltCycles,
};
use feg_case_studies::planar_holes_hodge_flow::sensor_plans::{
    flow_circles, study_circles, sweep_loop_pools, sweep_path_pools,
};
use feg_case_studies::planar_holes_hodge_flow::sensors::{
    build_contractible_loop_rows, build_long_path_rows, build_path_homology_pairs,
    edge_set_from_sensor_rows, path_pair_rows, same_signature, PathHomologyPair, SensorRow,
};
use feg_case_studies::planar_holes_hodge_flow::shortest_path::EdgeStep;
use feg_case_studies::index_set::IndexSet;
use feg_case_studies::scalar::Scalar;

fn scalar(value: f64) -> Scalar {
    Scalar::from_bits(value.to_bits())
}

fn float(value: Scalar) -> f64 {
    f64::from_bits(value.bits)
}

// A grid of `n` by `n` cells, each cut along its rising diagonal; vertex `(n + 1) y + x` is at
// (x, y).
fn grid(n: usize) -> (MeshTopology, Vec<Vec<EdgeStep>>) {
    let mut cells: Vec<Vec<usize>> = Vec::new();
    for y in 0..n {
        for x in 0..n {
            let v = (n + 1) * y + x;
            cells.push(vec![v, v + 1, v + n + 2]);
            cells.push(vec![v, v + n + 1, v + n + 2]);
        }
    }
    let mut edges: Vec<(usize, usize)> =
        cells.iter().flat_map(|c| [(c[0], c[1]), (c[0], c[2]), (c[1], c[2])]).collect();
    edges.sort();
    edges.dedup();
    let lengths = edges.iter().map(|&(a, b)| if b == a + n + 2 { 1414 } else { 1000 }).collect();
    let topology = MeshTopology { vertex_count: (n + 1) * (n + 1), edges, cells };
    let adjacency = build_edge_adjacency(&topology, &lengths);
    (topology, adjacency)
}

#[test]
fn budgets_are_shared_out() {
    let counts = sensor_design_counts(PlanarHolesSensorDesignKind::Hybrid, 40, 3);
    assert_eq!(
        counts,
        SensorDesignCounts {
            edge_count: 24,
            interior_loop_count: 8,
            long_path_count: 5,
            harmonic_period_count: 3
        }
    );
    let counts = sensor_design_counts(PlanarHolesSensorDesignKind::EdgesSmallInteriorLoops, 18, 3);
    assert_eq!((counts.edge_count, counts.interior_loop_count), (15, 3));
    let counts = sensor_design_counts(PlanarHolesSensorDesignKind::EdgesLongPaths, 2, 3);
    assert_eq!((counts.edge_count, counts.long_path_count), (1, 1));
    let counts = sensor_design_counts(PlanarHolesSensorDesignKind::SparseEdges, 18, 3);
    assert_eq!(counts.edge_count, 18);
    let counts = sensor_design_counts(PlanarHolesSensorDesignKind::EdgesHolePeriods, 2, 3);
    assert_eq!((counts.edge_count, counts.harmonic_period_count), (0, 2));
    let limited = available_counts(
        sensor_design_counts(PlanarHolesSensorDesignKind::Hybrid, 40, 3),
        10,
        20,
        1,
        3,
    );
    assert_eq!(limited.edge_count, 10);
    assert_eq!(limited.interior_loop_count, 8);
    assert_eq!(limited.long_path_count, 1);
}

#[test]
fn loops_keep_clear_of_holes() {
    let holes = default_holes();
    let near = GridPoint { ix: 6, iy: 6 };
    assert!(!valid_contractible_loop_center(near, 55, &holes));
    let candidates = contractible_loop_candidates(&vec![55, 95], &holes);
    assert!(!candidates.is_empty());
    for candidate in &candidates {
        let x = candidate.center.ix as f64 / 19.0;
        let y = candidate.center.iy as f64 / 19.0;
        let radius = candidate.radius as f64 / 1000.0;
        for hole in &holes {
            let (cx, cy) = (hole.center.0 as f64 / 1000.0, hole.center.1 as f64 / 1000.0);
            let distance = (x - cx).hypot(y - cy);
            assert!(distance > hole.radius as f64 / 1000.0 + radius + 0.045 - 1e-12);
        }
        assert!(x >= radius + 0.045 - 1e-12 && x <= 1.0 - radius - 0.045 + 1e-12);
    }
    assert!(valid_long_path_endpoint(GridPoint { ix: 2, iy: 2 }, 19, &holes));
    assert!(!valid_long_path_endpoint(GridPoint { ix: 1, iy: 2 }, 19, &holes));
}

#[test]
fn paths_cross_the_barrier() {
    let holes = holes_for_domain(PlanarHolesDomainKind::Barrier);
    let pairs = path_pairs(PathFamily::CrossBarrier, &path_endpoints(PathFamily::CrossBarrier, &holes));
    assert!(!pairs.is_empty());
    for (start, end) in pairs {
        assert!((start.ix as f64 / 25.0 - 0.5) * (end.ix as f64 / 25.0 - 0.5) < 0.0);
    }
    let side = PathFamily::SameSide { low: 120, high: 430 };
    for point in path_endpoints(side, &holes) {
        let x = point.ix as f64 / 25.0;
        assert!((0.12..=0.43).contains(&x));
    }
}

#[test]
fn labels_are_rounded_to_three_places() {
    assert_eq!(three_places_text(2, 19), "0.105");
    assert_eq!(three_places_text(1, 2), "0.500");
    assert_eq!(three_places_text(19, 19), "1.000");
    let candidate = LoopCandidate { center: GridPoint { ix: 2, iy: 17 }, radius: 55 };
    assert_eq!(loop_label_text("small_loop", 4, candidate), "small_loop_4_r0.055_x0.105_y0.895");
    assert_eq!(
        path_label_text("p", 0, 25, GridPoint { ix: 3, iy: 4 }, GridPoint { ix: 22, iy: 5 }),
        "p_0_x0.120_y0.160_to_x0.880_y0.200"
    );
}

#[test]
fn loops_around_the_same_edges_are_taken_once() {
    let (topology, adjacency) = grid(4);
    let candidate = LoopCandidate { center: GridPoint { ix: 5, iy: 5 }, radius: 55 };
    let candidates = vec![candidate; 4];
    let targets = vec![vec![0, 1, 6, 5], vec![1, 6, 5, 0], vec![7], vec![12, 13, 18, 17]];
    let rows =
        build_contractible_loop_rows(&topology, &adjacency, 0, &candidates, &targets, 9, "loop");
    assert_eq!(rows.len(), 2);
    assert!(rows[0].label.starts_with("loop_0_"));
    assert!(rows[1].label.starts_with("loop_1_"));
    assert_eq!(rows[0].entries.len(), 4);
    let first =
        build_contractible_loop_rows(&topology, &adjacency, 0, &candidates, &targets, 1, "loop");
    assert_eq!(first.len(), 1);
    assert!(same_signature(&first[0].entries, &rows[0].entries));
    assert!(!same_signature(&rows[1].entries, &rows[0].entries));
    assert_eq!(edge_set_from_sensor_rows(&rows).len(), 8);
}

#[test]
fn short_paths_are_passed_over() {
    let (_, adjacency) = grid(9);
    let point = GridPoint { ix: 2, iy: 2 };
    let pairs = vec![(point, point); 3];
    let ends = vec![(0, 1), (0, 9), (0, 9)];
    let rows = build_long_path_rows(&adjacency, 0, 19, &pairs, &ends, 9, "path");
    assert_eq!(rows.len(), 1);
    assert_eq!(rows[0].entries.len(), 9);
}

fn hole() -> PlanarHoleSpec {
    PlanarHoleSpec { name: String::from("island"), center: (500, 500), radius: 100 }
}

fn homology_pairs() -> Vec<PathHomologyPair> {
    let (topology, adjacency) = grid(4);
    build_path_homology_pairs(
        &topology,
        &adjacency,
        0,
        &vec![hole()],
        &vec![vec![10, 22, 14]],
        &vec![vec![10, 2, 14]],
        "train",
    )
    .unwrap()
}

#[test]
fn paths_on_both_sides_close_up() {
    let pairs = homology_pairs();
    assert_eq!(pairs.len(), 1);
    assert_eq!(pairs[0].upper.label, "train_island_upper");
    assert_eq!((pairs[0].shared_start_vertex, pairs[0].shared_end_vertex), (10, 14));
    assert_eq!(pairs[0].closure_residual_l1, 0);
    assert_eq!(path_pair_rows(&pairs).len(), 2);
    let (topology, adjacency) = grid(4);
    let message = build_path_homology_pairs(
        &topology,
        &adjacency,
        0,
        &vec![hole()],
        &vec![vec![10, 22, 14]],
        &vec![vec![10, 2, 13]],
        "train",
    )
    .unwrap_err();
    assert_eq!(message, "path homology pair for island does not share endpoints");
    let mut reserved = IndexSet::new();
    reserve_pair_edges(&mut reserved, &pairs);
    assert!(pairs[0].upper.entries.iter().all(|&(edge, _)| reserved.contains(edge)));
    assert!(pairs[0].lower.entries.iter().all(|&(edge, _)| reserved.contains(edge)));
    let mut observations = Vec::new();
    path_observations(
        &mut observations,
        PlanarHolesObservationKind::TrainPathHomology,
        &pairs,
        scalar(0.5),
    );
    contrast_observations(
        &mut observations,
        PlanarHolesObservationKind::HeldoutPathContrast,
        &pairs,
        scalar(0.5),
    );
    assert_eq!(observations.len(), 3);
    assert_eq!(observations[1].label, "train_island_lower");
    assert_eq!(observations[2].label, "train_island_contrast");
}

fn built(name: &str, row: Vec<(usize, i64)>) -> BuiltCycles {
    BuiltCycles {
        matrix: SignedMatrix { rows: vec![row], column_count: 10 },
        cycles: vec![PlanarHoleCycle {
            family: String::from(name),
            hole_index: 0,
            name: String::from("island"),
            radius: scalar(0.1),
            angle_offset: scalar(0.0),
            target_vertices: vec![0, 1],
            path_vertices: vec![0, 1, 0],
            edge_count: 2,
            closure_residual_l1: 0,
        }],
    }
}

#[test]
fn flows_are_observed() {
    let config = PlanarHolesFlowConfig::default();
    let edges = FlowEdges { local: vec![3, 7], heldout: vec![5] };
    let (train, heldout) = (built("train", vec![(0, 1)]), built("heldout", vec![(1, -1)]));
    let observed = flow_observations(&config, &edges, &train, &heldout);
    assert_eq!((observed.local.len(), observed.loops.len(), observed.periods.len()), (2, 1, 1));
    assert_eq!(observed.local[1].kind, PlanarHolesObservationKind::Local);
    assert!(observed.local[1].label.ends_with("_1_edge_7"));
    assert_eq!(float(observed.local[0].noise_variance), 1e-4);
    assert!(observed.loops[0].label.ends_with("_island"));
    assert!(matches!(observed.periods[0].entries, ObservedEntries::HarmonicPeriod { cycle: 0 }));
    assert_eq!(heldout_local_edge_indices(&observed.heldout), vec![5]);
    let sizes: Vec<usize> = [
        PlanarHolesObservationScenario::LocalOnly,
        PlanarHolesObservationScenario::LocalPlusLoops,
        PlanarHolesObservationScenario::LocalPlusHarmonicPeriods,
    ]
    .iter()
    .map(|&s| scenario_training(s, &observed.local, &observed.loops, &observed.periods).len())
    .collect();
    assert_eq!(sizes, vec![2, 3, 3]);
    assert_eq!(final_training(&observed.local, &observed.heldout).len(), 2 + observed.heldout.len());
    let reserved = reserved_edges(&vec![&train.matrix, &heldout.matrix]);
    assert_eq!(reserved.as_vec(), &vec![0, 1]);
}

fn rows(count: usize) -> Vec<SensorRow> {
    (0..count).map(|i| SensorRow { label: format!("row_{i}"), entries: vec![(i, 1)] }).collect()
}

#[test]
fn designs_take_what_is_there() {
    let mut config = PlanarHolesSensorDesignSweepConfig::default();
    config.total_observation_budget = 40;
    let training = sweep_training(
        &config,
        PlanarHolesSensorDesignKind::Hybrid,
        3,
        &(0..40).collect(),
        &rows(2),
        &rows(6),
        &rows(9),
        3,
    );
    assert_eq!(training.counts.edge_count, 24);
    assert_eq!(training.counts.interior_loop_count, 8);
    assert_eq!(training.counts.long_path_count, 5);
    assert_eq!(training.period_count, 3);
    assert_eq!(training.observations.len(), 24 + 6 + 5);
}

#[test]
fn pools_have_their_own_seeds() {
    let config = PlanarHolesSensorDesignSweepConfig::default();
    let loops = sweep_loop_pools(&config);
    assert_eq!(loops[0].seed, config.base.rng_seed + 910);
    assert_eq!(loops[1].radii, vec![55, 95, 135]);
    assert_eq!(loops[2].prefix, "heldout_interior_loop");
    let paths = sweep_path_pools(&config);
    let mut seeds: Vec<u64> =
        loops.iter().map(|p| p.seed).chain(paths.iter().map(|p| p.seed)).collect();
    seeds.dedup();
    assert_eq!(seeds.len(), loops.len() + paths.len());
    let circles = flow_circles(&PlanarHolesFlowConfig::default());
    assert_eq!(circles.len(), 2);
    assert_ne!(circles[0].angle_offset, circles[1].angle_offset);
    let barrier = study_circles(ComparisonStudy::Barrier, &PlanarHolesFlowConfig::default());
    assert_eq!(float(barrier.last().unwrap().radius_offset), 0.015);
}

#[test]
fn periods_are_read_along_their_own_cycles() {
    assert_eq!(
        period_cycles(PlanarHolesObservationKind::TrainHarmonicPeriod),
        Some(PeriodCycles::Train)
    );
    assert_eq!(
        period_cycles(PlanarHolesObservationKind::HeldoutHarmonicPeriod),
        Some(PeriodCycles::Heldout)
    );
    assert_eq!(period_cycles(PlanarHolesObservationKind::TrainLoop), None);
    assert_eq!(period_cycles(PlanarHolesObservationKind::HeldoutLoop), None);
}

#[test]
fn seeds_are_offset_by_study() {
    assert_eq!(ComparisonStudy::Topology.last_seed_offset(), 208);
    assert_eq!(ComparisonStudy::Barrier.last_seed_offset(), 504);
    assert_eq!(ComparisonStudy::PathHomology.last_seed_offset(), 602);
}
