use feg_case_studies::planar_holes_hodge_flow::config::{
    PlanarHolesFlowConfig, PlanarHolesSensorDesignSweepConfig, PlanarHolesTopologyVsNaiveGpConfig,
};
use feg_case_studies::planar_holes_hodge_flow::hole_cycles::{PlanarHoleCycle, SignedMatrix};
use feg_case_studies::planar_holes_hodge_flow::kinds::{
    PlanarHolesModelKind, PlanarHolesObservationKind,
};
use feg_case_studies::planar_holes_hodge_flow::mesh::MeshTopology;
use feg_case_studies::planar_holes_hodge_flow::observation::PlanarHolesObservation;
use feg_case_studies::planar_holes_hodge_flow::observation_plans::BuiltCycles;
use feg_case_studies::planar_holes_hodge_flow::sensors::{PathHomologyPair, SensorRow};
use feg_case_studies::planar_holes_hodge_flow::studies::{
    barrier_study, check_study_ranks, flow_study, path_homology_study, select_tuned_model,
    sweep_study, topology_study, StudyCycles, StudyPairs, StudyRows,
};
use feg_case_studies::scalar::Scalar;

fn scalar(value: f64) -> Scalar {
    Scalar::from_bits(value.to_bits())
}

// A square of eight by eight cells over the unit square.
fn square() -> (MeshTopology, Vec<(Scalar, Scalar)>) {
    let mut cells: Vec<Vec<usize>> = Vec::new();
    for y in 0..8 {
        for x in 0..8 {
            let v = 9 * y + x;
            cells.push(vec![v, v + 1, v + 10]);
            cells.push(vec![v, v + 9, v + 10]);
        }
    }
    let mut edges: Vec<(usize, usize)> =
        cells.iter().flat_map(|c| [(c[0], c[1]), (c[0], c[2]), (c[1], c[2])]).collect();
    edges.sort();
    edges.dedup();
    let at = |v: usize| ((v % 9) as f64 / 8.0, (v / 9) as f64 / 8.0);
    let midpoints = edges
        .iter()
        .map(|&(a, b)| {
            let (p, q) = (at(a), at(b));
            (scalar((p.0 + q.0) / 2.0), scalar((p.1 + q.1) / 2.0))
        })
        .collect();
    (MeshTopology { vertex_count: 81, edges, cells }, midpoints)
}

fn cycles(name: &str, columns: [usize; 2]) -> BuiltCycles {
    BuiltCycles {
        matrix: SignedMatrix {
            rows: vec![vec![(columns[0], 1), (columns[1], -1)]],
            column_count: 208,
        },
        cycles: vec![PlanarHoleCycle {
            family: String::from(name),
            hole_index: 0,
            name: format!("{name}_island"),
            radius: scalar(0.1),
            angle_offset: scalar(0.0),
            target_vertices: Vec::new(),
            path_vertices: Vec::new(),
            edge_count: 2,
            closure_residual_l1: 0,
        }],
    }
}

fn study_cycles() -> StudyCycles {
    StudyCycles {
        train: cycles("train", [60, 61]),
        validation: cycles("validation", [62, 63]),
        heldout: cycles("heldout", [64, 65]),
    }
}

fn config() -> PlanarHolesTopologyVsNaiveGpConfig {
    let mut config = PlanarHolesTopologyVsNaiveGpConfig::default();
    config.total_observation_budget = 16;
    config.validation_local_count = 4;
    config.heldout_local_count = 5;
    config
}

fn rows(prefix: &str, count: usize) -> Vec<SensorRow> {
    (0..count)
        .map(|i| SensorRow { label: format!("{prefix}_{i}"), entries: vec![(i, 1)] })
        .collect()
}

fn count(observations: &[PlanarHolesObservation], kind: PlanarHolesObservationKind) -> usize {
    observations.iter().filter(|o| o.kind == kind).count()
}

fn assert_apart(edges: &[Vec<usize>], reserved: &[usize]) {
    let mut all: Vec<usize> = edges.iter().flatten().copied().collect();
    assert!(all.iter().all(|e| !reserved.contains(e)));
    let total = all.len();
    all.sort();
    all.dedup();
    assert_eq!(all.len(), total);
}

#[test]
fn topology_studies_keep_their_cycles_apart() {
    let (topology, midpoints) = square();
    let loops =
        StudyRows { train: rows("a", 3), validation: rows("b", 2), heldout: rows("c", 1) };
    let paths =
        StudyRows { train: rows("d", 2), validation: rows("e", 1), heldout: rows("f", 4) };
    let study = topology_study(
        &config(),
        3,
        &topology,
        &midpoints,
        &study_cycles(),
        &vec![cycles("validation_inner", [66, 67])],
        &vec![cycles("heldout_inner", [68, 69]), cycles("heldout_middle", [70, 71])],
        &loops,
        &paths,
    );
    assert_apart(&study.edges, &(60..72).collect::<Vec<usize>>());
    // Of sixteen sensors three are loops, two are paths and three are kept for periods.
    assert_eq!(study.edges[0].len(), 8);
    assert_eq!((study.edges[1].len(), study.edges[2].len()), (4, 5));
    assert_eq!(study.training.len(), 8 + 3 + 2 + 1);
    assert_eq!(study.validation.len(), 4 + 2 + 1 + 1 + 1);
    assert_eq!(study.heldout.len(), 5 + 1 + 4 + 1 + 2);
    assert_eq!(study.heldout.last().unwrap().label, "heldout_loop_family_1_heldout_middle_island");
    assert_eq!(count(&study.training, PlanarHolesObservationKind::TrainInteriorLoop), 3);
}

#[test]
fn barrier_studies_hold_out_the_right() {
    let (topology, midpoints) = square();
    let study = barrier_study(
        &config(),
        3,
        &topology,
        &midpoints,
        &study_cycles(),
        &rows("left", 2),
        &rows("cross", 3),
    );
    assert_apart(&study.edges, &[60, 61, 62, 63, 64, 65]);
    assert_eq!(count(&study.heldout, PlanarHolesObservationKind::HeldoutLongPath), 3);
    assert!(study.training[0].label.starts_with("train_left_local_0_edge_"));
    assert!(study.heldout[0].label.starts_with("heldout_right_local_0_edge_"));
    let x = |edge: usize| f64::from_bits(midpoints[edge].0.bits);
    assert!(study.edges[0].iter().all(|&e| x(e) <= 0.43));
    assert!(study.edges[2].iter().all(|&e| x(e) >= 0.57));
}

fn pair(edge: usize) -> PathHomologyPair {
    let row = |side: &str, e: usize| SensorRow {
        label: format!("train_island_{side}"),
        entries: vec![(e, 1)],
    };
    PathHomologyPair {
        family: String::from("train"),
        hole_index: 0,
        hole_name: String::from("island"),
        upper: row("upper", edge),
        lower: row("lower", edge + 1),
        contrast: SensorRow {
            label: String::from("train_island_contrast"),
            entries: vec![(edge, 1), (edge + 1, -1)],
        },
        shared_start_vertex: 0,
        shared_end_vertex: 1,
        closure_residual_l1: 0,
    }
}

#[test]
fn path_studies_keep_their_paths_apart() {
    let (topology, midpoints) = square();
    let pairs = StudyPairs {
        train: vec![pair(80)],
        validation: vec![pair(90)],
        heldout: vec![pair(100), pair(110)],
    };
    let study =
        path_homology_study(&config(), 3, &topology, &midpoints, &study_cycles(), &pairs);
    assert_apart(&study.edges, &[60, 61, 62, 63, 64, 65, 80, 81, 90, 91, 100, 101, 110, 111]);
    assert_eq!(study.edges[0].len(), 16);
    assert_eq!(count(&study.training, PlanarHolesObservationKind::TrainPathHomology), 2);
    assert_eq!(count(&study.heldout, PlanarHolesObservationKind::HeldoutPathHomology), 4);
    assert_eq!(count(&study.heldout, PlanarHolesObservationKind::HeldoutPathContrast), 2);
}

#[test]
fn flows_with_poor_cycles_are_refused() {
    let (topology, midpoints) = square();
    let mut config = PlanarHolesFlowConfig::default();
    config.local_observation_count = 7;
    config.heldout_local_count = 3;
    let (train, heldout) = (cycles("train", [60, 61]), cycles("heldout", [64, 65]));
    let study = |ranks: (usize, usize), second: &BuiltCycles| {
        flow_study(&config, 1, ranks, &topology, &midpoints, &train, second)
            .map(|(edges, observations, _)| (edges, observations))
    };
    let (edges, observations) = study((1, 1), &heldout).unwrap();
    assert_apart(&[edges.local, edges.heldout], &[60, 61, 64, 65]);
    assert_eq!((observations.local.len(), observations.heldout.len()), (7, 3 + 1 + 1));
    assert_eq!(
        study((0, 1), &heldout).unwrap_err(),
        "cycle-harmonic pairing rank 0 does not match hole count 1"
    );
    assert_eq!(
        study((1, 0), &heldout).unwrap_err(),
        "held-out cycle-harmonic pairing rank 0 does not match hole count 1"
    );
    assert_eq!(
        study((1, 1), &train).unwrap_err(),
        "training and held-out loop observation rows should not be identical"
    );
}

#[test]
fn ranks_of_studies_are_tested_in_order() {
    assert!(check_study_ranks((3, 3, 3), 3).is_ok());
    assert_eq!(
        check_study_ranks((2, 1, 0), 3).unwrap_err(),
        "train cycle-harmonic pairing rank 2 does not match hole count 3"
    );
    assert_eq!(
        check_study_ranks((3, 1, 0), 3).unwrap_err(),
        "validation cycle-harmonic pairing rank 1 does not match hole count 3"
    );
    assert_eq!(
        check_study_ranks((3, 3, 0), 3).unwrap_err(),
        "heldout cycle-harmonic pairing rank 0 does not match hole count 3"
    );
}

#[test]
fn sweeps_draw_two_sets_of_edges() {
    let (topology, midpoints) = square();
    let mut config = PlanarHolesSensorDesignSweepConfig::default();
    config.total_observation_budget = 18;
    config.heldout_local_count = 6;
    let cycles = study_cycles();
    let study = sweep_study(
        &config,
        &topology,
        &midpoints,
        &cycles.train.matrix,
        &cycles.heldout.matrix,
        &rows("loop", 2),
        &rows("path", 3),
    );
    assert_apart(&study.edges, &[60, 61, 64, 65]);
    assert_eq!((study.edges[0].len(), study.edges[1].len()), (18, 6));
    assert_eq!(study.heldout.len(), 6 + 2 + 3);
}

#[test]
fn tuned_models_have_their_own_grids() {
    let mut config = config();
    config.hodge_kappas = vec![scalar(1.0)];
    config.hodge_taus = vec![scalar(2.0)];
    config.naive_kappas = vec![scalar(3.0), scalar(4.0)];
    config.naive_taus = vec![scalar(5.0)];
    config.observation_variance_scales = vec![scalar(6.0)];
    let (number, candidate) =
        select_tuned_model(PlanarHolesModelKind::NondecomposedFeec, &config, &vec![scalar(0.5)])
            .unwrap();
    assert_eq!((number, candidate.kappa), (0, scalar(1.0)));
    let (number, candidate) = select_tuned_model(
        PlanarHolesModelKind::NaiveEuclideanVectorMatern,
        &config,
        &vec![scalar(0.5), scalar(0.25)],
    )
    .unwrap();
    assert_eq!((number, candidate.kappa, candidate.tau), (1, scalar(4.0), scalar(5.0)));
    assert_eq!(
        select_tuned_model(PlanarHolesModelKind::HodgeMatern, &config, &vec![scalar(0.5)])
            .unwrap_err(),
        "unsupported topology-vs-naive model feec_hodge_matern"
    );
    assert_eq!(
        select_tuned_model(
            PlanarHolesModelKind::NondecomposedFeec,
            &config,
            &vec![scalar(f64::INFINITY)]
        )
        .unwrap_err(),
        "no finite validation score for topology-vs-naive model nondecomposed_feec_hodge_matern"
    );
}
