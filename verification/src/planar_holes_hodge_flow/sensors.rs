//! Line sensors: rows along loops, long paths and pairs of paths around a hole.

use super::cycles::{
    add_path_edges, build_cycle_row, build_open_path_row, cycle_stops, describes_path, end_balance,
    first_gap, lemma_path_bounds, lemma_path_row_mass, lemma_without_repeats, stops_reachable,
    without_repeats,
};
use super::grid::{
    loop_label, loop_label_text, path_label, path_label_text, GridPoint, LoopCandidate,
};
use super::holes::PlanarHoleSpec;
use super::mesh::{steps_match, unit_signs, MeshTopology};
use super::rows::{
    balance_at, canonical, closure_residual, combine_sensor_rows, combined_has_edge, combined_mass,
    combined_pairing, cycle_closure_residual, entries_in_range, incidence, lemma_closed_row,
    nonzero_entries, pairing, row_mass, weights_within,
};
use super::shortest_path::{
    adjacency_in_range, is_search_route, is_shortest_path, path_follows, reachable, route_between,
    shortest_path, EdgeStep, ShortestPath,
};
use crate::index_set::IndexSet;
use vstd::prelude::*;

verus! {

/// A sensor that reads a signed sum of edge values.
#[derive(Debug)]
pub struct SensorRow {
    pub label: String,
    pub entries: Vec<(usize, i64)>,
}

/// The sign of a weight.
pub open spec fn sign_of(weight: i64) -> int {
    if weight < 0 {
        -1
    } else if weight > 0 {
        1
    } else {
        0
    }
}

/// The edges of a row with the signs of their weights.
pub open spec fn signature(entries: Seq<(usize, i64)>) -> Seq<(usize, int)> {
    entries.map_values(|entry: (usize, i64)| (entry.0, sign_of(entry.1)))
}

/// Tests whether two rows run along the same edges in the same directions.
pub fn same_signature(left: &Vec<(usize, i64)>, right: &Vec<(usize, i64)>) -> (same: bool)
    ensures
        same == (signature(left@) == signature(right@)),
{
    if left.len() != right.len() {
        assert(signature(left@).len() != signature(right@).len());
        return false;
    }
    let mut index: usize = 0;
    while index < left.len()
        invariant
            left.len() == right.len(),
            index <= left.len(),
            forall|i: int|
                0 <= i < index ==> #[trigger] signature(left@)[i] == signature(right@)[i],
        decreases left.len() - index,
    {
        let a: (usize, i64) = left[index];
        let b: (usize, i64) = right[index];
        let same_sign: bool = (a.1 < 0) == (b.1 < 0) && (a.1 > 0) == (b.1 > 0);
        if a.0 != b.0 || !same_sign {
            assert(signature(left@)[index as int] != signature(right@)[index as int]);
            return false;
        }
        assert(signature(left@)[index as int] == signature(right@)[index as int]);
        index = index + 1;
    }
    assert(signature(left@) =~= signature(right@));
    true
}

/// Whether one of the rows has the signature.
pub open spec fn has_signature(rows: Seq<SensorRow>, wanted: Seq<(usize, int)>) -> bool {
    exists|i: int| 0 <= i < rows.len() && signature(#[trigger] rows[i].entries@) == wanted
}

/// Whether a row that comes from a candidate before candidate `k` has the signature.
pub open spec fn ran_earlier(
    rows: Seq<SensorRow>,
    origins: Seq<int>,
    k: int,
    wanted: Seq<(usize, int)>,
) -> bool {
    exists|i: int|
        0 <= i < rows.len() && origins[i] < k && signature(#[trigger] rows[i].entries@) == wanted
}

/// Tests whether one of the rows runs as the entries do.
fn known_signature(rows: &Vec<SensorRow>, entries: &Vec<(usize, i64)>) -> (known: bool)
    ensures
        known == has_signature(rows@, signature(entries@)),
{
    let mut index: usize = 0;
    while index < rows.len()
        invariant
            index <= rows.len(),
            forall|i: int|
                0 <= i < index ==> signature(#[trigger] rows@[i].entries@) != signature(entries@),
        decreases rows.len() - index,
    {
        if same_signature(&rows[index].entries, entries) {
            assert(signature(rows@[index as int].entries@) == signature(entries@));
            return true;
        }
        index = index + 1;
    }
    false
}

/// How rows come from a list of candidates: `origins` gives the candidate of each row, in
/// increasing order, among the first `considered`; the later candidates are not looked at only
/// where `count` rows have been found. No two rows have the same signature.
pub open spec fn rows_from_candidates(
    rows: Seq<SensorRow>,
    origins: Seq<int>,
    considered: int,
    candidate_count: int,
    count: int,
) -> bool {
    &&& origins.len() == rows.len()
    &&& rows.len() <= count
    &&& 0 <= considered <= candidate_count
    &&& considered < candidate_count ==> rows.len() == count
    &&& forall|i: int, j: int|
        0 <= i < j < origins.len() ==> #[trigger] origins[i] < #[trigger] origins[j]
    &&& forall|i: int| 0 <= i < origins.len() ==> 0 <= #[trigger] origins[i] < considered
    &&& forall|i: int, j: int|
        0 <= i < j < rows.len() ==> signature(#[trigger] rows[i].entries@) != signature(
            #[trigger] rows[j].entries@,
        )
}

proof fn lemma_row_added(
    rows: Seq<SensorRow>,
    origins: Seq<int>,
    considered: int,
    candidate_count: int,
    count: int,
    row: SensorRow,
)
    requires
        rows_from_candidates(rows, origins, considered, considered, count),
        considered < candidate_count,
        rows.len() < count,
        !has_signature(rows, signature(row.entries@)),
    ensures
        rows_from_candidates(
            rows.push(row),
            origins.push(considered),
            considered + 1,
            considered + 1,
            count,
        ),
{
    let longer = rows.push(row);
    let more = origins.push(considered);
    assert forall|i: int, j: int| 0 <= i < j < more.len() implies #[trigger] more[i]
        < #[trigger] more[j] by {
        assert(more[i] == origins[i]);
        if j < origins.len() {
            assert(more[j] == origins[j]);
        }
    }
    assert forall|i: int| 0 <= i < more.len() implies 0 <= #[trigger] more[i] < considered + 1 by {
        if i < origins.len() {
            assert(more[i] == origins[i]);
        }
    }
    assert forall|i: int, j: int| 0 <= i < j < longer.len() implies signature(
        #[trigger] longer[i].entries@,
    ) != signature(#[trigger] longer[j].entries@) by {
        assert(longer[i] == rows[i]);
        if j < rows.len() {
            assert(longer[j] == rows[j]);
            assert(signature(rows[i].entries@) != signature(rows[j].entries@));
        } else {
            assert(signature(rows[i].entries@) != signature(row.entries@));
        }
    }
}

/// Whether `row` is the row of the given number along a loop through the target vertices.
pub open spec fn is_loop_row(
    adjacency: Seq<Vec<EdgeStep>>,
    tolerance: int,
    prefix: Seq<char>,
    candidate: LoopCandidate,
    targets: Seq<usize>,
    number: int,
    row: SensorRow,
) -> bool {
    &&& row.label@ == loop_label(prefix, number, candidate)
    &&& row.entries.len() > 0
    &&& without_repeats(targets).len() >= 2
    &&& exists|vertices: Seq<usize>| #[trigger]
        describes_path(adjacency, cycle_stops(targets), tolerance, row.entries@, vertices)
}

/// Whether the loop of candidate `k` gives no row: its target vertices cannot be joined, or a path
/// through them is empty or runs as the row of an earlier candidate.
pub open spec fn loop_passed_over(
    adjacency: Seq<Vec<EdgeStep>>,
    tolerance: int,
    targets: Seq<usize>,
    rows: Seq<SensorRow>,
    origins: Seq<int>,
    k: int,
) -> bool {
    ||| without_repeats(targets).len() < 2
    ||| !stops_reachable(adjacency, cycle_stops(targets), cycle_stops(targets).len() - 1)
    ||| exists|entries: Seq<(usize, i64)>, vertices: Seq<usize>| #[trigger]
        describes_path(adjacency, cycle_stops(targets), tolerance, entries, vertices) && (
        entries.len() == 0 || ran_earlier(rows, origins, k, signature(entries)))
}

/// Whether the rows are those of the loops through the target vertices of the candidates.
pub open spec fn are_loop_rows(
    adjacency: Seq<Vec<EdgeStep>>,
    tolerance: int,
    prefix: Seq<char>,
    candidates: Seq<LoopCandidate>,
    targets: Seq<Vec<usize>>,
    rows: Seq<SensorRow>,
    origins: Seq<int>,
    considered: int,
) -> bool {
    &&& forall|i: int|
        #![trigger rows[i]]
        0 <= i < rows.len() ==> is_loop_row(
            adjacency,
            tolerance,
            prefix,
            candidates[origins[i]],
            targets[origins[i]]@,
            i,
            rows[i],
        )
    &&& forall|k: int|
        #![trigger targets[k]]
        0 <= k < considered && !origins.contains(k) ==> loop_passed_over(
            adjacency,
            tolerance,
            targets[k]@,
            rows,
            origins,
            k,
        )
}

/// A further row leaves the earlier ones where they are.
proof fn lemma_ran_earlier_push(
    rows: Seq<SensorRow>,
    origins: Seq<int>,
    row: SensorRow,
    origin: int,
    k: int,
    wanted: Seq<(usize, int)>,
)
    requires
        origins.len() == rows.len(),
        ran_earlier(rows, origins, k, wanted),
    ensures
        ran_earlier(rows.push(row), origins.push(origin), k, wanted),
{
    let i = choose|i: int|
        0 <= i < rows.len() && origins[i] < k && signature(#[trigger] rows[i].entries@) == wanted;
    assert(rows.push(row)[i] == rows[i]);
    assert(origins.push(origin)[i] == origins[i]);
}

/// A row among those of the candidates considered so far is an earlier one.
proof fn lemma_ran_earlier(
    rows: Seq<SensorRow>,
    origins: Seq<int>,
    considered: int,
    count: int,
    wanted: Seq<(usize, int)>,
)
    requires
        rows_from_candidates(rows, origins, considered, considered, count),
        has_signature(rows, wanted),
    ensures
        ran_earlier(rows, origins, considered, wanted),
{
    let i = choose|i: int| 0 <= i < rows.len() && signature(#[trigger] rows[i].entries@) == wanted;
    assert(origins[i] < considered);
}

proof fn lemma_loop_row_added(
    adjacency: Seq<Vec<EdgeStep>>,
    tolerance: int,
    prefix: Seq<char>,
    candidates: Seq<LoopCandidate>,
    targets: Seq<Vec<usize>>,
    rows: Seq<SensorRow>,
    origins: Seq<int>,
    considered: int,
    row: SensorRow,
)
    requires
        origins.len() == rows.len(),
        are_loop_rows(
            adjacency,
            tolerance,
            prefix,
            candidates,
            targets,
            rows,
            origins,
            considered,
        ),
        is_loop_row(
            adjacency,
            tolerance,
            prefix,
            candidates[considered],
            targets[considered]@,
            rows.len() as int,
            row,
        ),
    ensures
        are_loop_rows(
            adjacency,
            tolerance,
            prefix,
            candidates,
            targets,
            rows.push(row),
            origins.push(considered),
            considered + 1,
        ),
{
    let longer = rows.push(row);
    let more = origins.push(considered);
    assert forall|i: int| 0 <= i < longer.len() implies is_loop_row(
        adjacency,
        tolerance,
        prefix,
        candidates[more[i]],
        targets[more[i]]@,
        i,
        #[trigger] longer[i],
    ) by {
        if i < rows.len() {
            assert(longer[i] == rows[i]);
            assert(more[i] == origins[i]);
        }
    }
    assert forall|k: int|
        #![trigger targets[k]]
        0 <= k < considered + 1 && !more.contains(k) implies loop_passed_over(
        adjacency,
        tolerance,
        targets[k]@,
        longer,
        more,
        k,
    ) by {
        if k == considered {
            assert(more[origins.len() as int] == k);
        }
        if origins.contains(k) {
            let i = choose|i: int| 0 <= i < origins.len() && origins[i] == k;
            assert(more[i] == k);
        }
        assert(loop_passed_over(adjacency, tolerance, targets[k]@, rows, origins, k));
        let stops = cycle_stops(targets[k]@);
        if exists|entries: Seq<(usize, i64)>, vertices: Seq<usize>| #[trigger]
            describes_path(adjacency, stops, tolerance, entries, vertices) && (entries.len() == 0
                || ran_earlier(rows, origins, k, signature(entries))) {
            let (entries, vertices) = choose|entries: Seq<(usize, i64)>, vertices: Seq<usize>|
                #[trigger]
                describes_path(adjacency, stops, tolerance, entries, vertices) && (entries.len()
                    == 0 || ran_earlier(rows, origins, k, signature(entries)));
            if entries.len() != 0 {
                lemma_ran_earlier_push(rows, origins, row, considered, k, signature(entries));
            }
            assert(describes_path(adjacency, stops, tolerance, entries, vertices));
        }
    }
}

/// Builds rows along loops through the target vertices of the candidates, in their order, until
/// there are `count` of them. A loop that cannot be closed, is empty, or runs as an earlier one is
/// passed over.
pub fn build_contractible_loop_rows(
    topology: &MeshTopology,
    adjacency: &Vec<Vec<EdgeStep>>,
    tolerance: u64,
    candidates: &Vec<LoopCandidate>,
    targets: &Vec<Vec<usize>>,
    count: usize,
    prefix: &str,
) -> (rows: Vec<SensorRow>)
    requires
        topology.wf(),
        adjacency_in_range(adjacency@),
        steps_match(*topology, adjacency@),
        unit_signs(adjacency@),
        targets.len() == candidates.len(),
        forall|k: int, i: int|
            0 <= k < targets.len() && 0 <= i < targets@[k].len() ==> #[trigger] targets@[k]@[i]
                < adjacency.len(),
        forall|k: int|
            0 <= k < targets.len() ==> ((#[trigger] targets@[k]).len() + 1) * adjacency.len()
                <= i64::MAX,
    ensures
        exists|origins: Seq<int>, considered: int|
            #![trigger rows_from_candidates(
                rows@,
                origins,
                considered,
                candidates.len() as int,
                count as int,
            )]
            rows_from_candidates(
                rows@,
                origins,
                considered,
                candidates.len() as int,
                count as int,
            ) && are_loop_rows(
                adjacency@,
                tolerance as int,
                prefix@,
                candidates@,
                targets@,
                rows@,
                origins,
                considered,
            ),
        forall|i: int|
            #![trigger rows@[i]]
            0 <= i < rows.len() ==> entries_in_range(
                rows@[i].entries@,
                topology.edges.len() as nat,
            ) && closure_residual(*topology, rows@[i].entries@) == 0,
{
    let mut rows: Vec<SensorRow> = Vec::new();
    let mut index: usize = 0;
    let ghost mut origins: Seq<int> = Seq::empty();
    while index < candidates.len() && rows.len() < count
        invariant
            topology.wf(),
            adjacency_in_range(adjacency@),
            steps_match(*topology, adjacency@),
            unit_signs(adjacency@),
            targets.len() == candidates.len(),
            forall|k: int, i: int|
                0 <= k < targets.len() && 0 <= i < targets@[k].len() ==> #[trigger] targets@[k]@[i]
                    < adjacency.len(),
            forall|k: int|
                0 <= k < targets.len() ==> ((#[trigger] targets@[k]).len() + 1) * adjacency.len()
                    <= i64::MAX,
            index <= candidates.len(),
            rows_from_candidates(rows@, origins, index as int, index as int, count as int),
            are_loop_rows(
                adjacency@,
                tolerance as int,
                prefix@,
                candidates@,
                targets@,
                rows@,
                origins,
                index as int,
            ),
            forall|i: int|
                #![trigger rows@[i]]
                0 <= i < rows.len() ==> entries_in_range(
                    rows@[i].entries@,
                    topology.edges.len() as nat,
                ) && closure_residual(*topology, rows@[i].entries@) == 0,
        decreases candidates.len() - index,
    {
        let vertices: &Vec<usize> = &targets[index];
        assert(targets@[index as int] == *vertices);
        let ghost before = rows@;
        match build_cycle_row(topology, adjacency, vertices, tolerance) {
            Err(_) => {
                assert(loop_passed_over(
                    adjacency@,
                    tolerance as int,
                    targets@[index as int]@,
                    rows@,
                    origins,
                    index as int,
                ));
            },
            Ok((entries, path)) => {
                if entries.len() == 0 || known_signature(&rows, &entries) {
                    assert(describes_path(
                        adjacency@,
                        cycle_stops(vertices@),
                        tolerance as int,
                        entries@,
                        path@,
                    ));
                    proof {
                        if entries.len() != 0 {
                            lemma_ran_earlier(
                                rows@,
                                origins,
                                index as int,
                                count as int,
                                signature(entries@),
                            );
                        }
                    }
                    assert(loop_passed_over(
                        adjacency@,
                        tolerance as int,
                        targets@[index as int]@,
                        rows@,
                        origins,
                        index as int,
                    ));
                } else {
                    let label = loop_label_text(prefix, rows.len(), candidates[index]);
                    let row = SensorRow { label, entries };
                    proof {
                        assert(describes_path(
                            adjacency@,
                            cycle_stops(vertices@),
                            tolerance as int,
                            row.entries@,
                            path@,
                        ));
                        lemma_row_added(
                            rows@,
                            origins,
                            index as int,
                            candidates.len() as int,
                            count as int,
                            row,
                        );
                        lemma_loop_row_added(
                            adjacency@,
                            tolerance as int,
                            prefix@,
                            candidates@,
                            targets@,
                            rows@,
                            origins,
                            index as int,
                            row,
                        );
                        origins = origins.push(index as int);
                    }
                    rows.push(row);
                }
            },
        }
        index = index + 1;
    }
    assert(rows_from_candidates(
        rows@,
        origins,
        index as int,
        candidates.len() as int,
        count as int,
    ));
    rows
}

/// The fewest edges that a long path may have.
pub const LONG_PATH_EDGES: usize = 8;

/// Whether `entries` is the canonical row of the path.
pub open spec fn is_row_of_path(path: ShortestPath, entries: Seq<(usize, i64)>) -> bool {
    &&& canonical(entries)
    &&& forall|field: spec_fn(int) -> int| #[trigger]
        pairing(entries, field) == pairing(path.edges@, field)
}

/// Adds up the signed edges of a path.
fn path_entries(path: &ShortestPath) -> (entries: Vec<(usize, i64)>)
    requires
        weights_within(path.edges@, 1),
        path.edges.len() <= i64::MAX,
    ensures
        is_row_of_path(*path, entries@),
{
    let mut row: Vec<(usize, i64)> = Vec::new();
    add_path_edges(&mut row, &path.edges, Ghost(0));
    nonzero_entries(&row)
}

/// Whether `row` is the row of the given number along a shortest path between the two vertices.
pub open spec fn is_path_row(
    adjacency: Seq<Vec<EdgeStep>>,
    tolerance: int,
    prefix: Seq<char>,
    cells: u32,
    pair: (GridPoint, GridPoint),
    ends: (usize, usize),
    number: int,
    row: SensorRow,
) -> bool {
    &&& row.label@ == path_label(prefix, number, cells, pair.0, pair.1)
    &&& row.entries.len() > 0
    &&& exists|path: ShortestPath| #[trigger]
        is_shortest_path(adjacency, ends.0 as int, ends.1 as int, tolerance, path)
            && path.edges.len() >= LONG_PATH_EDGES && is_row_of_path(path, row.entries@)
}

/// Whether pair `k` gives no row: its vertices cannot be joined, or a shortest path between them
/// is too short, or runs as the row of an earlier pair.
pub open spec fn path_passed_over(
    adjacency: Seq<Vec<EdgeStep>>,
    tolerance: int,
    ends: (usize, usize),
    rows: Seq<SensorRow>,
    origins: Seq<int>,
    k: int,
) -> bool {
    ||| !reachable(adjacency, ends.0 as int, ends.1 as int)
    ||| exists|path: ShortestPath| #[trigger]
        is_shortest_path(adjacency, ends.0 as int, ends.1 as int, tolerance, path)
            && path_repeats(path, rows, origins, k)
}

/// Whether a path is too short, or its row is empty or runs as the row of a pair before pair `k`.
pub open spec fn path_repeats(
    path: ShortestPath,
    rows: Seq<SensorRow>,
    origins: Seq<int>,
    k: int,
) -> bool {
    ||| path.edges.len() < LONG_PATH_EDGES
    ||| exists|entries: Seq<(usize, i64)>| #[trigger]
        is_row_of_path(path, entries) && (entries.len() == 0 || ran_earlier(
            rows,
            origins,
            k,
            signature(entries),
        ))
}

/// Whether the rows are those of the paths between the vertices of the pairs.
pub open spec fn are_path_rows(
    adjacency: Seq<Vec<EdgeStep>>,
    tolerance: int,
    prefix: Seq<char>,
    cells: u32,
    pairs: Seq<(GridPoint, GridPoint)>,
    ends: Seq<(usize, usize)>,
    rows: Seq<SensorRow>,
    origins: Seq<int>,
    considered: int,
) -> bool {
    &&& forall|i: int|
        #![trigger rows[i]]
        0 <= i < rows.len() ==> is_path_row(
            adjacency,
            tolerance,
            prefix,
            cells,
            pairs[origins[i]],
            ends[origins[i]],
            i,
            rows[i],
        )
    &&& forall|k: int|
        #![trigger ends[k]]
        0 <= k < considered && !origins.contains(k) ==> path_passed_over(
            adjacency,
            tolerance,
            ends[k],
            rows,
            origins,
            k,
        )
}

proof fn lemma_path_row_added(
    adjacency: Seq<Vec<EdgeStep>>,
    tolerance: int,
    prefix: Seq<char>,
    cells: u32,
    pairs: Seq<(GridPoint, GridPoint)>,
    ends: Seq<(usize, usize)>,
    rows: Seq<SensorRow>,
    origins: Seq<int>,
    considered: int,
    row: SensorRow,
)
    requires
        origins.len() == rows.len(),
        are_path_rows(
            adjacency,
            tolerance,
            prefix,
            cells,
            pairs,
            ends,
            rows,
            origins,
            considered,
        ),
        is_path_row(
            adjacency,
            tolerance,
            prefix,
            cells,
            pairs[considered],
            ends[considered],
            rows.len() as int,
            row,
        ),
    ensures
        are_path_rows(
            adjacency,
            tolerance,
            prefix,
            cells,
            pairs,
            ends,
            rows.push(row),
            origins.push(considered),
            considered + 1,
        ),
{
    let longer = rows.push(row);
    let more = origins.push(considered);
    assert forall|i: int| 0 <= i < longer.len() implies is_path_row(
        adjacency,
        tolerance,
        prefix,
        cells,
        pairs[more[i]],
        ends[more[i]],
        i,
        #[trigger] longer[i],
    ) by {
        if i < rows.len() {
            assert(longer[i] == rows[i]);
            assert(more[i] == origins[i]);
        }
    }
    assert forall|k: int|
        #![trigger ends[k]]
        0 <= k < considered + 1 && !more.contains(k) implies path_passed_over(
        adjacency,
        tolerance,
        ends[k],
        longer,
        more,
        k,
    ) by {
        if k == considered {
            assert(more[origins.len() as int] == k);
        }
        if origins.contains(k) {
            let i = choose|i: int| 0 <= i < origins.len() && origins[i] == k;
            assert(more[i] == k);
        }
        assert(path_passed_over(adjacency, tolerance, ends[k], rows, origins, k));
        if reachable(adjacency, ends[k].0 as int, ends[k].1 as int) {
            let path = choose|path: ShortestPath| #[trigger]
                is_shortest_path(adjacency, ends[k].0 as int, ends[k].1 as int, tolerance, path)
                    && path_repeats(path, rows, origins, k);
            if path.edges.len() >= LONG_PATH_EDGES {
                let entries = choose|entries: Seq<(usize, i64)>| #[trigger]
                    is_row_of_path(path, entries) && (entries.len() == 0 || ran_earlier(
                        rows,
                        origins,
                        k,
                        signature(entries),
                    ));
                if entries.len() != 0 {
                    lemma_ran_earlier_push(rows, origins, row, considered, k, signature(entries));
                }
                assert(is_row_of_path(path, entries));
            }
            assert(path_repeats(path, longer, more, k));
        }
    }
}

/// Builds rows along shortest paths between the vertices that stand for the pairs, in their
/// order, until there are `count` of them. A pair that cannot be joined, whose path has fewer
/// than eight edges, or whose path runs as an earlier one is passed over.
pub fn build_long_path_rows(
    adjacency: &Vec<Vec<EdgeStep>>,
    tolerance: u64,
    cells: u32,
    pairs: &Vec<(GridPoint, GridPoint)>,
    ends: &Vec<(usize, usize)>,
    count: usize,
    prefix: &str,
) -> (rows: Vec<SensorRow>)
    requires
        adjacency_in_range(adjacency@),
        unit_signs(adjacency@),
        adjacency.len() <= i64::MAX,
        0 < cells <= 1000,
        ends.len() == pairs.len(),
        forall|k: int|
            0 <= k < ends.len() ==> (#[trigger] ends@[k]).0 < adjacency.len() && ends@[k].1
                < adjacency.len(),
    ensures
        exists|origins: Seq<int>, considered: int|
            #![trigger rows_from_candidates(
                rows@,
                origins,
                considered,
                pairs.len() as int,
                count as int,
            )]
            rows_from_candidates(rows@, origins, considered, pairs.len() as int, count as int)
                && are_path_rows(
                adjacency@,
                tolerance as int,
                prefix@,
                cells,
                pairs@,
                ends@,
                rows@,
                origins,
                considered,
            ),
{
    let mut rows: Vec<SensorRow> = Vec::new();
    let mut index: usize = 0;
    let ghost mut origins: Seq<int> = Seq::empty();
    while index < pairs.len() && rows.len() < count
        invariant
            adjacency_in_range(adjacency@),
            unit_signs(adjacency@),
            adjacency.len() <= i64::MAX,
            0 < cells <= 1000,
            ends.len() == pairs.len(),
            forall|k: int|
                0 <= k < ends.len() ==> (#[trigger] ends@[k]).0 < adjacency.len() && ends@[k].1
                    < adjacency.len(),
            index <= pairs.len(),
            rows_from_candidates(rows@, origins, index as int, index as int, count as int),
            are_path_rows(
                adjacency@,
                tolerance as int,
                prefix@,
                cells,
                pairs@,
                ends@,
                rows@,
                origins,
                index as int,
            ),
        decreases pairs.len() - index,
    {
        let pair_ends: (usize, usize) = ends[index];
        assert(ends@[index as int] == pair_ends);
        match shortest_path(adjacency, pair_ends.0, pair_ends.1, tolerance) {
            Err(_) => {
                assert(path_passed_over(
                    adjacency@,
                    tolerance as int,
                    ends@[index as int],
                    rows@,
                    origins,
                    index as int,
                ));
            },
            Ok(path) => {
                if path.edges.len() < LONG_PATH_EDGES {
                    assert(path_repeats(path, rows@, origins, index as int));
                    assert(path_passed_over(
                        adjacency@,
                        tolerance as int,
                        ends@[index as int],
                        rows@,
                        origins,
                        index as int,
                    ));
                } else {
                    proof {
                        let steps = choose|steps: Seq<EdgeStep>|
                            {
                                &&& #[trigger] route_between(
                                    adjacency@,
                                    pair_ends.0 as int,
                                    pair_ends.1 as int,
                                    steps,
                                )
                                &&& path_follows(path, pair_ends.0 as int, steps)
                                &&& is_search_route(
                                    adjacency@,
                                    pair_ends.0 as int,
                                    pair_ends.1 as int,
                                    tolerance as int,
                                    steps,
                                )
                            };
                        lemma_path_bounds(
                            adjacency@,
                            pair_ends.0 as int,
                            pair_ends.1 as int,
                            path,
                            steps,
                        );
                    }
                    let entries = path_entries(&path);
                    if entries.len() == 0 || known_signature(&rows, &entries) {
                        proof {
                            if entries.len() != 0 {
                                lemma_ran_earlier(
                                    rows@,
                                    origins,
                                    index as int,
                                    count as int,
                                    signature(entries@),
                                );
                            }
                        }
                        assert(is_row_of_path(path, entries@));
                        assert(path_repeats(path, rows@, origins, index as int));
                        assert(path_passed_over(
                            adjacency@,
                            tolerance as int,
                            ends@[index as int],
                            rows@,
                            origins,
                            index as int,
                        ));
                    } else {
                        let pair: (GridPoint, GridPoint) = pairs[index];
                        let label = path_label_text(prefix, rows.len(), cells, pair.0, pair.1);
                        let row = SensorRow { label, entries };
                        proof {
                            assert(is_row_of_path(path, row.entries@));
                            lemma_row_added(
                                rows@,
                                origins,
                                index as int,
                                pairs.len() as int,
                                count as int,
                                row,
                            );
                            lemma_path_row_added(
                                adjacency@,
                                tolerance as int,
                                prefix@,
                                cells,
                                pairs@,
                                ends@,
                                rows@,
                                origins,
                                index as int,
                                row,
                            );
                            origins = origins.push(index as int);
                        }
                        rows.push(row);
                    }
                }
            },
        }
        index = index + 1;
    }
    assert(rows_from_candidates(
        rows@,
        origins,
        index as int,
        pairs.len() as int,
        count as int,
    ));
    rows
}

/// Two paths around a hole, one on each side of it, from one common vertex to another, and the
/// difference of the two.
#[derive(Debug)]
pub struct PathHomologyPair {
    pub family: String,
    pub hole_index: usize,
    pub hole_name: String,
    pub upper: SensorRow,
    pub lower: SensorRow,
    pub contrast: SensorRow,
    pub shared_start_vertex: usize,
    pub shared_end_vertex: usize,
    pub closure_residual_l1: u128,
}

/// Whether `contrast` is the first row less the second.
pub open spec fn is_difference(
    upper: Seq<(usize, i64)>,
    lower: Seq<(usize, i64)>,
    contrast: Seq<(usize, i64)>,
) -> bool {
    &&& canonical(contrast)
    &&& forall|field: spec_fn(int) -> int| #[trigger]
        pairing(contrast, field) == pairing(upper, field) - pairing(lower, field)
}

/// The label of one of the three rows of a pair.
pub open spec fn pair_label(family: Seq<char>, hole: Seq<char>, side: Seq<char>) -> Seq<char> {
    family + "_"@ + hole + "_"@ + side
}

fn pair_label_text(family: &str, hole: &str, side: &str) -> (text: String)
    ensures
        text@ == pair_label(family@, hole@, side@),
{
    let mut text = String::from_str(family);
    text.append("_");
    text.append(hole);
    text.append("_");
    text.append(side);
    text
}

/// Whether `pair` is the pair of paths through the target vertices on the two sides of a hole.
#[verifier::opaque]
pub open spec fn is_homology_pair(
    topology: MeshTopology,
    adjacency: Seq<Vec<EdgeStep>>,
    tolerance: int,
    family: Seq<char>,
    hole_index: int,
    hole: PlanarHoleSpec,
    upper_targets: Seq<usize>,
    lower_targets: Seq<usize>,
    pair: PathHomologyPair,
) -> bool {
    &&& pair.family@ == family
    &&& pair.hole_index == hole_index
    &&& pair.hole_name@ == hole.name@
    &&& pair.upper.label@ == pair_label(family, hole.name@, "upper"@)
    &&& pair.lower.label@ == pair_label(family, hole.name@, "lower"@)
    &&& pair.contrast.label@ == pair_label(family, hole.name@, "contrast"@)
    &&& exists|vertices: Seq<usize>| #[trigger]
        describes_path(
            adjacency,
            without_repeats(upper_targets),
            tolerance,
            pair.upper.entries@,
            vertices,
        )
    &&& exists|vertices: Seq<usize>| #[trigger]
        describes_path(
            adjacency,
            without_repeats(lower_targets),
            tolerance,
            pair.lower.entries@,
            vertices,
        )
    &&& is_difference(pair.upper.entries@, pair.lower.entries@, pair.contrast.entries@)
    &&& pair.shared_start_vertex == upper_targets.first()
    &&& pair.shared_end_vertex == upper_targets.last()
    &&& pair.shared_start_vertex == lower_targets.first()
    &&& pair.shared_end_vertex == lower_targets.last()
    &&& pair.closure_residual_l1 == 0
    &&& closure_residual(topology, pair.contrast.entries@) == 0
}

/// The difference of two rows of paths with common ends is closed.
pub proof fn lemma_contrast_closed(
    topology: MeshTopology,
    start: int,
    end: int,
    upper: Seq<(usize, i64)>,
    lower: Seq<(usize, i64)>,
    contrast: Seq<(usize, i64)>,
)
    requires
        forall|v: int| #[trigger]
            balance_at(topology.edges@, upper, v) == end_balance(start, end, v),
        forall|v: int| #[trigger]
            balance_at(topology.edges@, lower, v) == end_balance(start, end, v),
        is_difference(upper, lower, contrast),
    ensures
        closure_residual(topology, contrast) == 0,
{
    assert forall|v: int| 0 <= v < topology.vertex_count implies #[trigger] balance_at(
        topology.edges@,
        contrast,
        v,
    ) == 0 by {
        assert(balance_at(topology.edges@, upper, v) == end_balance(start, end, v));
        assert(balance_at(topology.edges@, lower, v) == end_balance(start, end, v));
        let field = |e: int| incidence(topology.edges@, v, e);
        assert(pairing(contrast, field) == pairing(upper, field) - pairing(lower, field));
    }
    lemma_closed_row(topology, contrast);
}

/// Subtracts the second row from the first.
fn contrast_entries(upper: &Vec<(usize, i64)>, lower: &Vec<(usize, i64)>) -> (contrast: Vec<
    (usize, i64),
>)
    requires
        row_mass(upper@, upper.len() as int) + row_mass(lower@, lower.len() as int) <= i64::MAX,
    ensures
        is_difference(upper@, lower@, contrast@),
        forall|i: int|
            0 <= i < contrast.len() ==> listed((#[trigger] contrast@[i]).0, upper@) || listed(
                contrast@[i].0,
                lower@,
            ),
{
    let weighted: Vec<(&Vec<(usize, i64)>, i64)> = vec![(upper, 1), (lower, -1)];
    proof {
        reveal_with_fuel(combined_mass, 3);
        assert(1 * row_mass(upper@, upper.len() as int) == row_mass(upper@, upper.len() as int))
            by (nonlinear_arith);
        assert(1 * row_mass(lower@, lower.len() as int) == row_mass(lower@, lower.len() as int))
            by (nonlinear_arith);
    }
    let contrast = combine_sensor_rows(&weighted);
    proof {
        assert forall|field: spec_fn(int) -> int| #[trigger]
            pairing(contrast@, field) == pairing(upper@, field) - pairing(lower@, field) by {
            reveal_with_fuel(combined_pairing, 3);
            assert(1 * pairing(upper@, field) == pairing(upper@, field)) by (nonlinear_arith);
            assert(-1 * pairing(lower@, field) == -pairing(lower@, field)) by (nonlinear_arith);
        }
        assert forall|i: int| 0 <= i < contrast.len() implies listed(
            (#[trigger] contrast@[i]).0,
            upper@,
        ) || listed(contrast@[i].0, lower@) by {
            let edge = contrast@[i].0;
            assert(combined_has_edge(weighted@, edge));
            let (r, k) = choose|r: int, k: int|
                #![trigger weighted@[r].0@[k]]
                0 <= r < weighted.len() && 0 <= k < weighted@[r].0.len()
                    && weighted@[r].0@[k].0 == edge;
            if r == 0 {
                assert(upper@[k].0 == edge);
            } else {
                assert(lower@[k].0 == edge);
            }
        }
    }
    contrast
}

/// Whether a row has an entry for the edge.
pub open spec fn listed(edge: usize, entries: Seq<(usize, i64)>) -> bool {
    exists|k: int| 0 <= k < entries.len() && (#[trigger] entries[k]).0 == edge
}

/// Whether two lists of vertices have the same first and the same last vertex.
pub open spec fn shares_ends(upper: Seq<usize>, lower: Seq<usize>) -> bool {
    ||| upper.len() == 0 && lower.len() == 0
    ||| upper.len() > 0 && lower.len() > 0 && upper.first() == lower.first() && upper.last()
        == lower.last()
}

/// Whether an open path through the target vertices exists.
pub open spec fn open_path_exists(adjacency: Seq<Vec<EdgeStep>>, targets: Seq<usize>) -> bool {
    without_repeats(targets).len() >= 2 && stops_reachable(
        adjacency,
        without_repeats(targets),
        without_repeats(targets).len() - 1,
    )
}

/// Whether the message says why no open path through the target vertices exists.
pub open spec fn open_path_message(
    adjacency: Seq<Vec<EdgeStep>>,
    targets: Seq<usize>,
    message: Seq<char>,
) -> bool {
    if without_repeats(targets).len() < 2 {
        message == "open path requires at least two distinct target vertices"@
    } else {
        first_gap(adjacency, without_repeats(targets), message)
    }
}

/// Whether a pair of paths with common ends exists.
pub open spec fn pair_exists(
    adjacency: Seq<Vec<EdgeStep>>,
    upper: Seq<usize>,
    lower: Seq<usize>,
) -> bool {
    shares_ends(upper, lower) && open_path_exists(adjacency, upper) && open_path_exists(
        adjacency,
        lower,
    )
}

/// The message for a pair without common ends.
pub open spec fn ends_message(hole: Seq<char>) -> Seq<char> {
    "path homology pair for "@ + hole + " does not share endpoints"@
}

/// Whether the message says why no pair of paths around the hole exists.
pub open spec fn pair_message(
    adjacency: Seq<Vec<EdgeStep>>,
    hole: PlanarHoleSpec,
    upper: Seq<usize>,
    lower: Seq<usize>,
    message: Seq<char>,
) -> bool {
    if !shares_ends(upper, lower) {
        message == ends_message(hole.name@)
    } else if !open_path_exists(adjacency, upper) {
        open_path_message(adjacency, upper, message)
    } else {
        open_path_message(adjacency, lower, message)
    }
}

fn ends_shared(upper: &Vec<usize>, lower: &Vec<usize>) -> (shared: bool)
    ensures
        shared == shares_ends(upper@, lower@),
{
    if upper.len() == 0 || lower.len() == 0 {
        upper.len() == lower.len()
    } else {
        upper[0] == lower[0] && upper[upper.len() - 1] == lower[lower.len() - 1]
    }
}

/// Builds the pair of paths on the two sides of one hole.
fn build_homology_pair(
    topology: &MeshTopology,
    adjacency: &Vec<Vec<EdgeStep>>,
    tolerance: u64,
    hole_index: usize,
    hole: &PlanarHoleSpec,
    upper_targets: &Vec<usize>,
    lower_targets: &Vec<usize>,
    family: &str,
) -> (result: Result<PathHomologyPair, String>)
    requires
        topology.wf(),
        adjacency_in_range(adjacency@),
        steps_match(*topology, adjacency@),
        unit_signs(adjacency@),
        forall|i: int|
            0 <= i < upper_targets.len() ==> #[trigger] upper_targets@[i] < adjacency.len(),
        forall|i: int|
            0 <= i < lower_targets.len() ==> #[trigger] lower_targets@[i] < adjacency.len(),
        (upper_targets.len() + lower_targets.len()) * adjacency.len() <= i64::MAX,
    ensures
        result is Ok <==> pair_exists(adjacency@, upper_targets@, lower_targets@),
        match result {
            Ok(pair) => is_homology_pair(
                *topology,
                adjacency@,
                tolerance as int,
                family@,
                hole_index as int,
                *hole,
                upper_targets@,
                lower_targets@,
                pair,
            ),
            Err(message) => pair_message(
                adjacency@,
                *hole,
                upper_targets@,
                lower_targets@,
                message@,
            ),
        },
{
    if !ends_shared(upper_targets, lower_targets) {
        let mut message = String::from_str("path homology pair for ");
        message.append(hole.name.as_str());
        message.append(" does not share endpoints");
        return Err(message);
    }
    proof {
        let (a, b) = (upper_targets.len() as int, lower_targets.len() as int);
        let n = adjacency.len() as int;
        assert((a + b) * n == a * n + b * n) by (nonlinear_arith);
        assert(0 <= a * n && 0 <= b * n) by (nonlinear_arith)
            requires
                0 <= a,
                0 <= b,
                0 <= n,
        ;
    }
    let upper = match build_open_path_row(topology, adjacency, upper_targets, tolerance) {
        Ok(upper) => upper,
        Err(message) => {
            return Err(message);
        },
    };
    let lower = match build_open_path_row(topology, adjacency, lower_targets, tolerance) {
        Ok(lower) => lower,
        Err(message) => {
            return Err(message);
        },
    };
    let ghost upper_vertices = upper.1@;
    let ghost lower_vertices = lower.1@;
    proof {
        lemma_without_repeats(upper_targets@);
        lemma_without_repeats(lower_targets@);
        assert(upper_targets@[0] < adjacency.len() && lower_targets@[0] < adjacency.len());
        lemma_path_row_mass(
            adjacency@,
            without_repeats(upper_targets@),
            tolerance as int,
            upper.0@,
            upper_vertices,
        );
        lemma_path_row_mass(
            adjacency@,
            without_repeats(lower_targets@),
            tolerance as int,
            lower.0@,
            lower_vertices,
        );
    }
    let contrast = contrast_entries(&upper.0, &lower.0);
    proof {
        lemma_contrast_closed(
            *topology,
            upper_targets@.first() as int,
            upper_targets@.last() as int,
            upper.0@,
            lower.0@,
            contrast@,
        );
        assert forall|i: int| 0 <= i < contrast.len() implies (#[trigger] contrast@[i]).0
            < topology.edges.len() by {
            let edge = contrast@[i].0;
            if listed(edge, upper.0@) {
                let k = choose|k: int| 0 <= k < upper.0@.len() && (#[trigger] upper.0@[k]).0 == edge;
                assert(upper.0@[k].0 < topology.edges.len());
            } else {
                let k = choose|k: int| 0 <= k < lower.0@.len() && (#[trigger] lower.0@[k]).0 == edge;
                assert(lower.0@[k].0 < topology.edges.len());
            }
        }
    }
    let closure_residual_l1: u128 = cycle_closure_residual(topology, &contrast);
    let name: &str = hole.name.as_str();
    let pair = PathHomologyPair {
        family: String::from_str(family),
        hole_index,
        hole_name: String::from_str(name),
        upper: SensorRow { label: pair_label_text(family, name, "upper"), entries: upper.0 },
        lower: SensorRow { label: pair_label_text(family, name, "lower"), entries: lower.0 },
        contrast: SensorRow {
            label: pair_label_text(family, name, "contrast"),
            entries: contrast,
        },
        shared_start_vertex: upper_targets[0],
        shared_end_vertex: upper_targets[upper_targets.len() - 1],
        closure_residual_l1,
    };
    proof {
        reveal(is_homology_pair);
        assert(describes_path(
            adjacency@,
            without_repeats(upper_targets@),
            tolerance as int,
            pair.upper.entries@,
            upper_vertices,
        ));
        assert(describes_path(
            adjacency@,
            without_repeats(lower_targets@),
            tolerance as int,
            pair.lower.entries@,
            lower_vertices,
        ));
    }
    Ok(pair)
}

/// Whether the target vertices are vertices of the mesh, and few enough for the weights to be
/// added up.
pub open spec fn pair_targets_in_range(
    vertex_count: nat,
    upper: Seq<usize>,
    lower: Seq<usize>,
) -> bool {
    &&& forall|i: int| 0 <= i < upper.len() ==> #[trigger] upper[i] < vertex_count
    &&& forall|i: int| 0 <= i < lower.len() ==> #[trigger] lower[i] < vertex_count
    &&& (upper.len() + lower.len()) * vertex_count <= i64::MAX
}

/// Builds, for every hole, a pair of paths on its two sides through the given target vertices,
/// and the closed difference of the two.
pub fn build_path_homology_pairs(
    topology: &MeshTopology,
    adjacency: &Vec<Vec<EdgeStep>>,
    tolerance: u64,
    holes: &Vec<PlanarHoleSpec>,
    upper_targets: &Vec<Vec<usize>>,
    lower_targets: &Vec<Vec<usize>>,
    family: &str,
) -> (result: Result<Vec<PathHomologyPair>, String>)
    requires
        topology.wf(),
        adjacency_in_range(adjacency@),
        steps_match(*topology, adjacency@),
        unit_signs(adjacency@),
        upper_targets.len() == holes.len(),
        lower_targets.len() == holes.len(),
        forall|h: int|
            #![trigger upper_targets@[h]]
            #![trigger lower_targets@[h]]
            0 <= h < holes.len() ==> pair_targets_in_range(
                adjacency.len() as nat,
                upper_targets@[h]@,
                lower_targets@[h]@,
            ),
    ensures
        result is Ok <==> forall|h: int|
            #![trigger upper_targets@[h]]
            0 <= h < holes.len() ==> pair_exists(
                adjacency@,
                upper_targets@[h]@,
                lower_targets@[h]@,
            ),
        match result {
            Ok(pairs) => {
                &&& pairs.len() == holes.len()
                &&& forall|h: int|
                    #![trigger pairs@[h]]
                    0 <= h < holes.len() ==> is_homology_pair(
                        *topology,
                        adjacency@,
                        tolerance as int,
                        family@,
                        h,
                        holes@[h],
                        upper_targets@[h]@,
                        lower_targets@[h]@,
                        pairs@[h],
                    )
            },
            Err(message) => exists|h: int|
                #![trigger holes@[h]]
                {
                    &&& 0 <= h < holes.len()
                    &&& forall|k: int|
                        #![trigger upper_targets@[k]]
                        0 <= k < h ==> pair_exists(
                            adjacency@,
                            upper_targets@[k]@,
                            lower_targets@[k]@,
                        )
                    &&& !pair_exists(adjacency@, upper_targets@[h]@, lower_targets@[h]@)
                    &&& pair_message(
                        adjacency@,
                        holes@[h],
                        upper_targets@[h]@,
                        lower_targets@[h]@,
                        message@,
                    )
                },
        },
{
    let mut pairs: Vec<PathHomologyPair> = Vec::new();
    let mut index: usize = 0;
    while index < holes.len()
        invariant
            topology.wf(),
            adjacency_in_range(adjacency@),
            steps_match(*topology, adjacency@),
            unit_signs(adjacency@),
            upper_targets.len() == holes.len(),
            lower_targets.len() == holes.len(),
            forall|h: int|
                #![trigger upper_targets@[h]]
                #![trigger lower_targets@[h]]
                0 <= h < holes.len() ==> pair_targets_in_range(
                    adjacency.len() as nat,
                    upper_targets@[h]@,
                    lower_targets@[h]@,
                ),
            index <= holes.len(),
            pairs.len() == index,
            forall|h: int|
                #![trigger upper_targets@[h]]
                0 <= h < index ==> pair_exists(
                    adjacency@,
                    upper_targets@[h]@,
                    lower_targets@[h]@,
                ),
            forall|h: int|
                #![trigger pairs@[h]]
                0 <= h < index ==> is_homology_pair(
                    *topology,
                    adjacency@,
                    tolerance as int,
                    family@,
                    h,
                    holes@[h],
                    upper_targets@[h]@,
                    lower_targets@[h]@,
                    pairs@[h],
                ),
        decreases holes.len() - index,
    {
        let upper: &Vec<usize> = &upper_targets[index];
        let lower: &Vec<usize> = &lower_targets[index];
        assert(upper_targets@[index as int] == *upper);
        match build_homology_pair(
            topology,
            adjacency,
            tolerance,
            index,
            &holes[index],
            upper,
            lower,
            family,
        ) {
            Ok(pair) => {
                pairs.push(pair);
            },
            Err(message) => {
                assert(holes@[index as int] == holes@[index as int]);
                return Err(message);
            },
        }
        index = index + 1;
    }
    Ok(pairs)
}

/// Lists the upper and the lower row of every pair.
pub fn path_pair_rows<'a>(pairs: &'a Vec<PathHomologyPair>) -> (rows: Vec<&'a SensorRow>)
    requires
        2 * pairs.len() <= usize::MAX,
    ensures
        rows.len() == 2 * pairs.len(),
        forall|i: int|
            #![trigger pairs@[i]]
            0 <= i < pairs.len() ==> *rows@[2 * i] == pairs@[i].upper && *rows@[2 * i + 1]
                == pairs@[i].lower,
{
    let mut rows: Vec<&'a SensorRow> = Vec::new();
    let mut index: usize = 0;
    while index < pairs.len()
        invariant
            index <= pairs.len(),
            rows.len() == 2 * index,
            forall|i: int|
                #![trigger pairs@[i]]
                0 <= i < index ==> *rows@[2 * i] == pairs@[i].upper && *rows@[2 * i + 1]
                    == pairs@[i].lower,
        decreases pairs.len() - index,
    {
        rows.push(&pairs[index].upper);
        rows.push(&pairs[index].lower);
        index = index + 1;
    }
    rows
}

/// Whether one of the rows has an entry for the edge.
pub open spec fn rows_list(rows: Seq<SensorRow>, edge: usize) -> bool {
    exists|r: int| 0 <= r < rows.len() && listed(edge, #[trigger] rows[r].entries@)
}

/// Collects the edges of all rows.
pub fn edge_set_from_sensor_rows(rows: &Vec<SensorRow>) -> (edges: IndexSet)
    ensures
        edges.wf(),
        forall|e: usize| #[trigger] edges@.contains(e) <==> rows_list(rows@, e),
{
    let mut edges = IndexSet::new();
    let mut index: usize = 0;
    while index < rows.len()
        invariant
            index <= rows.len(),
            edges.wf(),
            forall|e: usize| #[trigger]
                edges@.contains(e) <==> exists|r: int|
                    0 <= r < index && listed(e, #[trigger] rows@[r].entries@),
        decreases rows.len() - index,
    {
        let entries: &Vec<(usize, i64)> = &rows[index].entries;
        let ghost before = edges@;
        let mut position: usize = 0;
        while position < entries.len()
            invariant
                position <= entries.len(),
                index < rows.len(),
                *entries == rows@[index as int].entries,
                edges.wf(),
                forall|e: usize| #[trigger]
                    edges@.contains(e) <==> before.contains(e) || exists|k: int|
                        0 <= k < position && (#[trigger] entries@[k]).0 == e,
            decreases entries.len() - position,
        {
            let ghost old_edges = edges@;
            let entry: (usize, i64) = entries[position];
            assert(entries@[position as int] == entry);
            edges.insert(entry.0);
            position = position + 1;
        }
        proof {
            assert forall|e: usize| #[trigger] edges@.contains(e) <==> exists|r: int|
                0 <= r < index + 1 && listed(e, #[trigger] rows@[r].entries@) by {
                if before.contains(e) {
                    let r = choose|r: int|
                        0 <= r < index && listed(e, #[trigger] rows@[r].entries@);
                    assert(listed(e, rows@[r].entries@));
                }
                if exists|k: int| 0 <= k < entries.len() && (#[trigger] entries@[k]).0 == e {
                    assert(listed(e, rows@[index as int].entries@));
                }
            }
        }
        index = index + 1;
    }
    edges
}

} // verus!
