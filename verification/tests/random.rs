use feg_case_studies::index_set::IndexSet;
use feg_case_studies::planar_holes_hodge_flow::config::{
    PlanarHolesFlowConfig, PlanarHolesTopologyVsNaiveGpConfig,
};
use feg_case_studies::planar_holes_hodge_flow::edge_plans::{
    select_disjoint_edges, select_flow_edges, select_study_edges, ComparisonStudy, EdgeRequest,
};
use feg_case_studies::planar_holes_hodge_flow::grid::{
    contractible_loop_candidates, path_endpoints, path_pairs, shuffled_loop_candidates,
    shuffled_path_candidates, LoopCandidate, PathFamily,
};
use feg_case_studies::planar_holes_hodge_flow::hole_cycles::SignedMatrix;
use feg_case_studies::planar_holes_hodge_flow::holes::{
    holes_for_domain, PlanarHolesDomainKind,
};
use feg_case_studies::planar_holes_hodge_flow::kinds::PlanarHolesLocalObservationDesign;
use feg_case_studies::planar_holes_hodge_flow::mesh::MeshTopology;
use feg_case_studies::planar_holes_hodge_flow::selection::{
    observation_candidates, select_fraction_observation_edges, select_observation_edges,
    select_observation_edges_by_barycenter, take_selection,
};
use feg_case_studies::random::shuffled_order;
use feg_case_studies::scalar::Scalar;
use rand::rngs::StdRng;
use rand::seq::SliceRandom;
use rand::{RngCore, SeedableRng};

fn scalar(value: f64) -> Scalar {
    Scalar::from_bits(value.to_bits())
}

#[test]
fn orders_are_shuffled_as_the_generator_says() {
    let mut generator = StdRng::seed_from_u64(7);
    let order = shuffled_order(50, &mut generator);
    let mut reference = StdRng::seed_from_u64(7);
    let mut expected: Vec<usize> = (0..50).collect();
    expected.shuffle(&mut reference);
    assert_eq!(order, expected);
    assert_ne!(order, (0..50).collect::<Vec<usize>>());
    assert_eq!(generator.next_u64(), reference.next_u64());
    let mut sorted = order;
    sorted.sort();
    assert_eq!(sorted, (0..50).collect::<Vec<usize>>());
}

#[test]
fn loops_are_shuffled_from_their_seed() {
    let holes = holes_for_domain(PlanarHolesDomainKind::Default);
    let radii = vec![55, 95];
    let (candidates, mut generator) = shuffled_loop_candidates(&radii, &holes, 2936);
    let mut expected: Vec<LoopCandidate> = contractible_loop_candidates(&radii, &holes);
    let plain = expected.clone();
    let mut reference = StdRng::seed_from_u64(2936);
    expected.shuffle(&mut reference);
    assert_eq!(candidates, expected);
    assert_ne!(candidates, plain);
    assert_eq!(generator.next_u64(), reference.next_u64());
}

#[test]
fn paths_are_shuffled_from_their_seed() {
    let holes = holes_for_domain(PlanarHolesDomainKind::Barrier);
    for family in [PathFamily::SameSide { low: 120, high: 430 }, PathFamily::CrossBarrier] {
        let pairs = shuffled_path_candidates(family, &holes, 11);
        let mut reference = StdRng::seed_from_u64(11);
        let mut points = path_endpoints(family, &holes);
        points.shuffle(&mut reference);
        let mut expected = path_pairs(family, &points);
        let plain = expected.clone();
        expected.shuffle(&mut reference);
        assert!(!pairs.is_empty());
        assert_eq!(pairs, expected);
        assert_ne!(pairs, plain);
    }
}

// A square of six by six cells over the unit square.
fn square() -> (MeshTopology, Vec<(Scalar, Scalar)>) {
    let mut cells: Vec<Vec<usize>> = Vec::new();
    for y in 0..6 {
        for x in 0..6 {
            let v = 7 * y + x;
            cells.push(vec![v, v + 1, v + 8]);
            cells.push(vec![v, v + 7, v + 8]);
        }
    }
    let mut edges: Vec<(usize, usize)> =
        cells.iter().flat_map(|c| [(c[0], c[1]), (c[0], c[2]), (c[1], c[2])]).collect();
    edges.sort();
    edges.dedup();
    let at = |v: usize| ((v % 7) as f64 / 6.0, (v / 7) as f64 / 6.0);
    let midpoints = edges
        .iter()
        .map(|&(a, b)| {
            let (p, q) = (at(a), at(b));
            (scalar((p.0 + q.0) / 2.0), scalar((p.1 + q.1) / 2.0))
        })
        .collect();
    (MeshTopology { vertex_count: 49, edges, cells }, midpoints)
}

#[test]
fn edges_are_taken_from_the_shuffled_candidates() {
    let (topology, midpoints) = square();
    let mut cycle_edges = IndexSet::new();
    cycle_edges.extend(&vec![20, 21]);
    let mut excluded = IndexSet::new();
    excluded.extend(&vec![30, 31]);
    let candidates =
        observation_candidates(&topology, &midpoints, &cycle_edges, &excluded, None);
    assert!(candidates.len() > 20);
    assert!(!candidates.contains(&20) && !candidates.contains(&31));
    let mut generator = StdRng::seed_from_u64(3);
    let selected =
        select_observation_edges(&topology, &midpoints, &cycle_edges, &excluded, 9, &mut generator);
    let mut expected = candidates.clone();
    expected.shuffle(&mut StdRng::seed_from_u64(3));
    expected.truncate(9);
    expected.sort();
    assert_eq!(selected, expected);
    let strip = (scalar(0.5), scalar(0.75));
    let right = select_observation_edges_by_barycenter(
        &topology, &midpoints, &cycle_edges, &excluded, 1000, &mut generator, strip,
    );
    assert!(!right.is_empty() && right.len() < candidates.len());
    for edge in right {
        let x = f64::from_bits(midpoints[edge].0.bits);
        assert!(0.5 <= x && x <= 0.75);
    }
}

#[test]
fn fractions_take_at_least_one_edge() {
    let candidates = vec![2, 4, 8, 16];
    let mut generator = StdRng::seed_from_u64(5);
    assert_eq!(select_fraction_observation_edges(&candidates, 0, &mut generator).len(), 1);
    assert_eq!(select_fraction_observation_edges(&candidates, 9, &mut generator), candidates);
    assert_eq!(take_selection(&candidates, &vec![3, 0, 2, 1], 2), vec![2, 16]);
}

#[test]
fn later_draws_leave_out_earlier_ones() {
    let (topology, midpoints) = square();
    let reserved = IndexSet::new();
    let requests = vec![
        EdgeRequest { count: 10, strip: None },
        EdgeRequest { count: 10, strip: None },
        EdgeRequest { count: 10000, strip: None },
    ];
    let mut generator = StdRng::seed_from_u64(1);
    let drawn =
        select_disjoint_edges(&topology, &midpoints, &reserved, &requests, &mut generator);
    let mut all: Vec<usize> = drawn.iter().flatten().copied().collect();
    let count = all.len();
    all.sort();
    all.dedup();
    assert_eq!(all.len(), count);
    assert_eq!(
        all,
        observation_candidates(&topology, &midpoints, &reserved, &IndexSet::new(), None)
    );
}

#[test]
fn flows_observe_disjoint_edges() {
    let (topology, midpoints) = square();
    let mut config = PlanarHolesFlowConfig::default();
    config.local_observation_count = 12;
    config.heldout_local_count = 5;
    let cycles = SignedMatrix { rows: vec![vec![(25, 1), (26, -1)]], column_count: topology.edges.len() };
    let none = SignedMatrix { rows: Vec::new(), column_count: topology.edges.len() };
    let (edges, _) = select_flow_edges(&config, &topology, &midpoints, &cycles, &none);
    assert_eq!((edges.local.len(), edges.heldout.len()), (12, 5));
    assert!(edges.local.iter().all(|e| !edges.heldout.contains(e) && *e != 25 && *e != 26));
    config.local_observation_design = PlanarHolesLocalObservationDesign::AllEdges;
    let (edges, _) = select_flow_edges(&config, &topology, &midpoints, &cycles, &none);
    assert_eq!(edges.local.len(), topology.edges.len());
    assert!(edges.heldout.is_empty());
    config.local_observation_design = PlanarHolesLocalObservationDesign::HalfInteriorEdges;
    let (edges, _) = select_flow_edges(&config, &topology, &midpoints, &cycles, &none);
    let mut reserved = IndexSet::new();
    reserved.extend(&vec![25, 26]);
    let interior =
        observation_candidates(&topology, &midpoints, &reserved, &IndexSet::new(), None);
    assert_eq!(edges.local.len(), (interior.len() + 1) / 2);
}

#[test]
fn barrier_studies_train_on_the_left() {
    let (topology, midpoints) = square();
    let mut config = PlanarHolesTopologyVsNaiveGpConfig::default();
    config.total_observation_budget = 6;
    let (drawn, _) = select_study_edges(
        ComparisonStudy::Barrier,
        &config,
        3,
        &topology,
        &midpoints,
        &IndexSet::new(),
    );
    assert_eq!(drawn.len(), 3);
    let x = |edge: usize| f64::from_bits(midpoints[edge].0.bits);
    assert!(!drawn[0].is_empty() && drawn[0].iter().all(|&e| x(e) < 0.5));
    assert!(!drawn[2].is_empty() && drawn[2].iter().all(|&e| x(e) > 0.5));
}
