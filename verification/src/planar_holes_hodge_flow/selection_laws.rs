//! What holds of the edges that are observed, and of the groups of predictions.

use super::kinds::PlanarHolesObservationKind;
use super::mesh::{cells_around, ends_of, lemma_triangle_boundary, on_boundary, MeshTopology};
use super::selection::{lists_candidates, may_observe, selects};
use super::summaries::{kind_occurs, kind_order, occurring_kinds};
use super::tables::PlanarHolesHeldoutPrediction;
use crate::order::lemma_filter_keeps_places;
use crate::scalar::Scalar;
use vstd::prelude::*;

verus! {

/// Whether a number lies strictly between the doubles next to 0.08 and 0.92.
pub open spec fn well_inside(value: Scalar) -> bool {
    !value.nan() && 0x3fb4_7ae1_47ae_147b < value.rank() < 0x3fed_70a3_d70a_3d71
}

/// Whether an edge can be observed: no cycle runs through it and it is not taken, two cells meet
/// in it, and its midpoint lies well inside the square and within the band, if there is one.
pub open spec fn can_be_observed(
    topology: MeshTopology,
    midpoints: Seq<(Scalar, Scalar)>,
    cycle_edges: Set<usize>,
    taken: Set<usize>,
    band: Option<(Scalar, Scalar)>,
    e: usize,
) -> bool {
    let (x, y) = midpoints[e as int];
    &&& !cycle_edges.contains(e)
    &&& !taken.contains(e)
    &&& cells_around(topology.cells@, ends_of(topology.edges@[e as int])) == 2
    &&& well_inside(x)
    &&& well_inside(y)
    &&& match band {
        Some((low, high)) => low.le(x) && x.le(high),
        None => true,
    }
}

/// The selected edges can be observed, no edge is selected twice, and no more are selected than are
/// asked for. Where fewer are selected, every edge that can be observed is.
pub proof fn lemma_selected_edges(
    topology: MeshTopology,
    midpoints: Seq<(Scalar, Scalar)>,
    cycle_edges: Set<usize>,
    taken: Set<usize>,
    band: Option<(Scalar, Scalar)>,
    count: nat,
    selected: Seq<usize>,
)
    requires
        selects(topology, midpoints, cycle_edges, taken, band, count, selected),
    ensures
        selected.len() <= count,
        selected.no_duplicates(),
        forall|e: usize| #[trigger]
            selected.contains(e) ==> e < topology.edges.len() && can_be_observed(
                topology,
                midpoints,
                cycle_edges,
                taken,
                band,
                e,
            ),
        selected.len() < count ==> forall|e: usize|
            e < topology.edges.len() && can_be_observed(
                topology,
                midpoints,
                cycle_edges,
                taken,
                band,
                e,
            ) ==> #[trigger] selected.contains(e),
{
    let candidates = choose|candidates: Seq<usize>| #[trigger]
        lists_candidates(topology, midpoints, cycle_edges, taken, band, candidates)
            && selected.len() == (if count < candidates.len() {
            count as int
        } else {
            candidates.len() as int
        });
    assert forall|i: int, j: int| 0 <= i < selected.len() && 0 <= j < selected.len() && i
        != j implies selected[i] != selected[j] by {
        assert(i < j ==> selected[i] < selected[j]);
        assert(j < i ==> selected[j] < selected[i]);
    }
    assert forall|i: int, j: int| 0 <= i < candidates.len() && 0 <= j < candidates.len() && i
        != j implies candidates[i] != candidates[j] by {
        assert(i < j ==> candidates[i] < candidates[j]);
        assert(j < i ==> candidates[j] < candidates[i]);
    }
    if selected.len() < count {
        selected.unique_seq_to_set();
        candidates.unique_seq_to_set();
        assert forall|e: usize| #[trigger] selected.to_set().contains(
            e,
        ) implies candidates.to_set().contains(e) by {
            assert(selected.contains(e));
            assert(candidates.contains(e));
        }
        vstd::set_lib::lemma_subset_equality(selected.to_set(), candidates.to_set());
        assert forall|e: usize|
            e < topology.edges.len() && can_be_observed(
                topology,
                midpoints,
                cycle_edges,
                taken,
                band,
                e,
            ) implies #[trigger] selected.contains(e) by {
            assert(may_observe(topology, midpoints, cycle_edges, taken, band, e));
            assert(candidates.contains(e));
            assert(candidates.to_set().contains(e));
            assert(selected.to_set().contains(e));
        }
    }
}

/// On a mesh of triangles no selected edge lies on the boundary.
pub proof fn lemma_selected_edges_off_boundary(
    topology: MeshTopology,
    midpoints: Seq<(Scalar, Scalar)>,
    cycle_edges: Set<usize>,
    taken: Set<usize>,
    band: Option<(Scalar, Scalar)>,
    count: nat,
    selected: Seq<usize>,
    e: usize,
)
    requires
        topology.wf(),
        forall|c: int|
            0 <= c < topology.cells.len() ==> (#[trigger] topology.cells@[c]).len() == 3,
        selects(topology, midpoints, cycle_edges, taken, band, count, selected),
        selected.contains(e),
    ensures
        !on_boundary(topology, e as int),
{
    lemma_selected_edges(topology, midpoints, cycle_edges, taken, band, count, selected);
    lemma_triangle_boundary(topology, e as int);
}

/// Predictions are grouped by the kinds that occur among them, each kind once.
pub proof fn lemma_kinds_that_occur(predictions: Seq<PlanarHolesHeldoutPrediction>)
    ensures
        forall|kind: PlanarHolesObservationKind| #[trigger]
            occurring_kinds(predictions).contains(kind) <==> exists|i: int|
                0 <= i < predictions.len() && (#[trigger] predictions[i]).kind == kind,
        occurring_kinds(predictions).no_duplicates(),
{
    let order = kind_order();
    let occurs = |kind: PlanarHolesObservationKind| kind_occurs(predictions, kind);
    let kept = occurring_kinds(predictions);
    let places = lemma_filter_keeps_places(order, occurs);
    assert(order.no_duplicates());
    assert forall|kind: PlanarHolesObservationKind| #[trigger] kept.contains(kind) <==> exists|
        i: int,
    |
        0 <= i < predictions.len() && (#[trigger] predictions[i]).kind == kind by {
        if kept.contains(kind) {
            let k = choose|k: int| 0 <= k < kept.len() && kept[k] == kind;
            assert(places.contains(places[k]));
        }
        if occurs(kind) {
            let p = lemma_kind_is_listed(kind);
            assert(places.contains(p));
            let k = choose|k: int| 0 <= k < places.len() && places[k] == p;
            assert(kept[k] == kind);
        }
    }
    assert forall|i: int, j: int| 0 <= i < kept.len() && 0 <= j < kept.len() && i
        != j implies kept[i] != kept[j] by {
        assert(kept[i] == order[places[i]] && kept[j] == order[places[j]]);
        assert(i < j ==> places[i] < places[j]);
        assert(j < i ==> places[j] < places[i]);
    }
}

proof fn lemma_kind_is_listed(kind: PlanarHolesObservationKind) -> (place: int)
    ensures
        0 <= place < kind_order().len(),
        kind_order()[place] == kind,
{
    let place: int = match kind {
        PlanarHolesObservationKind::Local => 0,
        PlanarHolesObservationKind::TrainLoop => 1,
        PlanarHolesObservationKind::TrainHarmonicPeriod => 2,
        PlanarHolesObservationKind::TrainInteriorLoop => 3,
        PlanarHolesObservationKind::TrainLongPath => 4,
        PlanarHolesObservationKind::TrainPathHomology => 5,
        PlanarHolesObservationKind::HeldoutLocal => 6,
        PlanarHolesObservationKind::HeldoutLoop => 7,
        PlanarHolesObservationKind::HeldoutHarmonicPeriod => 8,
        PlanarHolesObservationKind::HeldoutInteriorLoop => 9,
        PlanarHolesObservationKind::HeldoutLongPath => 10,
        PlanarHolesObservationKind::HeldoutPathHomology => 11,
        PlanarHolesObservationKind::HeldoutPathContrast => 12,
    };
    assert(kind_order()[place] == kind);
    place
}

} // verus!
