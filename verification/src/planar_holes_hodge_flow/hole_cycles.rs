//! Closed sensors around the holes, and the matrices that they form.

use super::cycles::{
    build_cycle_row, cycle_stops, describes_path, first_gap, stops_reachable, without_repeats,
};
use super::holes::PlanarHoleSpec;
use super::mesh::{steps_match, unit_signs, MeshTopology};
use super::rows::{closure_residual, cycle_closure_residual, entries_in_range};
use super::sensors::listed;
use super::shortest_path::{adjacency_in_range, EdgeStep};
use crate::index_set::IndexSet;
use crate::scalar::Scalar;
use crate::text::{count_text, decimal};
use vstd::prelude::*;

verus! {

/// A sparse matrix of whole numbers, row by row.
#[derive(Debug)]
pub struct SignedMatrix {
    pub rows: Vec<Vec<(usize, i64)>>,
    pub column_count: usize,
}

/// A closed path around a hole.
#[derive(Debug)]
pub struct PlanarHoleCycle {
    pub family: String,
    pub hole_index: usize,
    pub name: String,
    pub radius: Scalar,
    pub angle_offset: Scalar,
    pub target_vertices: Vec<usize>,
    pub path_vertices: Vec<usize>,
    pub edge_count: usize,
    pub closure_residual_l1: u128,
}

/// The circles that a family of cycles follows: for each hole a radius and the vertices next to
/// the points on the circle, and the angle at which all circles start.
#[derive(Debug)]
pub struct CycleFamily {
    pub name: String,
    pub angle_offset: Scalar,
    pub radii: Vec<Scalar>,
    pub target_vertices: Vec<Vec<usize>>,
}

/// Whether a closed path through the target vertices exists.
pub open spec fn cycle_exists(adjacency: Seq<Vec<EdgeStep>>, targets: Seq<usize>) -> bool {
    without_repeats(targets).len() >= 2 && stops_reachable(
        adjacency,
        cycle_stops(targets),
        cycle_stops(targets).len() - 1,
    )
}

/// Whether the message says why no closed path through the target vertices exists.
pub open spec fn cycle_message(
    adjacency: Seq<Vec<EdgeStep>>,
    targets: Seq<usize>,
    message: Seq<char>,
) -> bool {
    if without_repeats(targets).len() < 2 {
        message == "cycle requires at least two distinct target vertices"@
    } else {
        first_gap(adjacency, cycle_stops(targets), message)
    }
}

/// Whether `row` and `cycle` describe a closed path around a hole through the target vertices of
/// the family.
#[verifier::opaque]
pub open spec fn is_hole_cycle(
    topology: MeshTopology,
    adjacency: Seq<Vec<EdgeStep>>,
    tolerance: int,
    hole_index: int,
    hole: PlanarHoleSpec,
    family: CycleFamily,
    row: Seq<(usize, i64)>,
    cycle: PlanarHoleCycle,
) -> bool {
    &&& cycle.family@ == family.name@
    &&& cycle.hole_index == hole_index
    &&& cycle.name@ == family.name@ + "_"@ + hole.name@
    &&& cycle.radius == family.radii@[hole_index]
    &&& cycle.angle_offset == family.angle_offset
    &&& cycle.target_vertices@ == family.target_vertices@[hole_index]@
    &&& describes_path(
        adjacency,
        cycle_stops(cycle.target_vertices@),
        tolerance,
        row,
        cycle.path_vertices@,
    )
    &&& entries_in_range(row, topology.edges.len() as nat)
    &&& cycle.edge_count == row.len()
    &&& cycle.closure_residual_l1 == 0
    &&& closure_residual(topology, row) == 0
}

fn copy_indices(items: &Vec<usize>) -> (copy: Vec<usize>)
    ensures
        copy@ == items@,
{
    let mut copy: Vec<usize> = Vec::new();
    let mut index: usize = 0;
    while index < items.len()
        invariant
            index <= items.len(),
            copy@ == items@.take(index as int),
        decreases items.len() - index,
    {
        copy.push(items[index]);
        assert(items@.take(index + 1) =~= items@.take(index as int).push(items@[index as int]));
        index = index + 1;
    }
    assert(copy@ =~= items@);
    copy
}

/// Whether the family has a circle for every hole, through vertices of the mesh, with few enough
/// of them for the weights to be added up.
pub open spec fn family_in_range(family: CycleFamily, hole_count: nat, vertex_count: nat) -> bool {
    &&& family.radii.len() == hole_count
    &&& family.target_vertices.len() == hole_count
    &&& forall|h: int|
        #![trigger family.target_vertices@[h]]
        0 <= h < hole_count ==> targets_in_range(family.target_vertices@[h]@, vertex_count)
}

/// Whether the target vertices are vertices of the mesh, and few enough for the weights to be
/// added up.
pub open spec fn targets_in_range(targets: Seq<usize>, vertex_count: nat) -> bool {
    &&& forall|i: int| 0 <= i < targets.len() ==> #[trigger] targets[i] < vertex_count
    &&& (targets.len() + 1) * vertex_count <= i64::MAX
}

/// Builds the closed path around one hole.
fn build_hole_cycle(
    topology: &MeshTopology,
    adjacency: &Vec<Vec<EdgeStep>>,
    tolerance: u64,
    hole_index: usize,
    hole: &PlanarHoleSpec,
    family: &CycleFamily,
) -> (result: Result<(Vec<(usize, i64)>, PlanarHoleCycle), String>)
    requires
        topology.wf(),
        adjacency_in_range(adjacency@),
        steps_match(*topology, adjacency@),
        unit_signs(adjacency@),
        hole_index < family.radii.len(),
        hole_index < family.target_vertices.len(),
        targets_in_range(family.target_vertices@[hole_index as int]@, adjacency.len() as nat),
    ensures
        result is Ok <==> cycle_exists(
            adjacency@,
            family.target_vertices@[hole_index as int]@,
        ),
        match result {
            Ok((row, cycle)) => is_hole_cycle(
                *topology,
                adjacency@,
                tolerance as int,
                hole_index as int,
                *hole,
                *family,
                row@,
                cycle,
            ),
            Err(message) => cycle_message(
                adjacency@,
                family.target_vertices@[hole_index as int]@,
                message@,
            ),
        },
{
    let targets: &Vec<usize> = &family.target_vertices[hole_index];
    match build_cycle_row(topology, adjacency, targets, tolerance) {
        Err(message) => Err(message),
        Ok((row, path_vertices)) => {
            let mut name = String::from_str(family.name.as_str());
            name.append("_");
            name.append(hole.name.as_str());
            let closure_residual_l1: u128 = cycle_closure_residual(topology, &row);
            let cycle = PlanarHoleCycle {
                family: String::from_str(family.name.as_str()),
                hole_index,
                name,
                radius: family.radii[hole_index],
                angle_offset: family.angle_offset,
                target_vertices: copy_indices(targets),
                path_vertices,
                edge_count: row.len(),
                closure_residual_l1,
            };
            proof {
                reveal(is_hole_cycle);
            }
            Ok((row, cycle))
        },
    }
}

/// Whether the rows of `matrix` and `cycles` describe the closed paths of a family.
pub open spec fn are_hole_cycles(
    topology: MeshTopology,
    adjacency: Seq<Vec<EdgeStep>>,
    tolerance: int,
    holes: Seq<PlanarHoleSpec>,
    family: CycleFamily,
    matrix: SignedMatrix,
    cycles: Seq<PlanarHoleCycle>,
) -> bool {
    &&& matrix.column_count == topology.edges.len()
    &&& matrix.rows.len() == holes.len()
    &&& cycles.len() == holes.len()
    &&& forall|h: int|
        #![trigger cycles[h]]
        0 <= h < holes.len() ==> is_hole_cycle(
            topology,
            adjacency,
            tolerance,
            h,
            holes[h],
            family,
            matrix.rows@[h]@,
            cycles[h],
        )
}

/// Whether the family has a closed path around every hole.
pub open spec fn family_exists(
    adjacency: Seq<Vec<EdgeStep>>,
    hole_count: nat,
    family: CycleFamily,
) -> bool {
    forall|h: int|
        #![trigger family.target_vertices@[h]]
        0 <= h < hole_count ==> cycle_exists(adjacency, family.target_vertices@[h]@)
}

/// Whether the message says why the first missing closed path of the family does not exist.
pub open spec fn family_message(
    adjacency: Seq<Vec<EdgeStep>>,
    hole_count: nat,
    family: CycleFamily,
    message: Seq<char>,
) -> bool {
    exists|h: int|
        #![trigger family.target_vertices@[h]]
        {
            &&& 0 <= h < hole_count
            &&& forall|k: int|
                #![trigger family.target_vertices@[k]]
                0 <= k < h ==> cycle_exists(adjacency, family.target_vertices@[k]@)
            &&& !cycle_exists(adjacency, family.target_vertices@[h]@)
            &&& cycle_message(adjacency, family.target_vertices@[h]@, message)
        }
}

/// Builds a closed path around every hole, and the matrix that reads the flow along each.
pub fn build_hole_cycle_observation_matrix(
    topology: &MeshTopology,
    adjacency: &Vec<Vec<EdgeStep>>,
    tolerance: u64,
    holes: &Vec<PlanarHoleSpec>,
    family: &CycleFamily,
) -> (result: Result<(SignedMatrix, Vec<PlanarHoleCycle>), String>)
    requires
        topology.wf(),
        adjacency_in_range(adjacency@),
        steps_match(*topology, adjacency@),
        unit_signs(adjacency@),
        family_in_range(*family, holes.len() as nat, adjacency.len() as nat),
    ensures
        result is Ok <==> family_exists(adjacency@, holes.len() as nat, *family),
        match result {
            Ok((matrix, cycles)) => are_hole_cycles(
                *topology,
                adjacency@,
                tolerance as int,
                holes@,
                *family,
                matrix,
                cycles@,
            ),
            Err(message) => family_message(adjacency@, holes.len() as nat, *family, message@),
        },
{
    let mut rows: Vec<Vec<(usize, i64)>> = Vec::new();
    let mut cycles: Vec<PlanarHoleCycle> = Vec::new();
    let mut index: usize = 0;
    while index < holes.len()
        invariant
            topology.wf(),
            adjacency_in_range(adjacency@),
            steps_match(*topology, adjacency@),
            unit_signs(adjacency@),
            family_in_range(*family, holes.len() as nat, adjacency.len() as nat),
            index <= holes.len(),
            rows.len() == index,
            cycles.len() == index,
            forall|h: int|
                #![trigger family.target_vertices@[h]]
                0 <= h < index ==> cycle_exists(adjacency@, family.target_vertices@[h]@),
            forall|h: int|
                #![trigger cycles@[h]]
                0 <= h < index ==> is_hole_cycle(
                    *topology,
                    adjacency@,
                    tolerance as int,
                    h,
                    holes@[h],
                    *family,
                    rows@[h]@,
                    cycles@[h],
                ),
        decreases holes.len() - index,
    {
        assert(targets_in_range(
            family.target_vertices@[index as int]@,
            adjacency.len() as nat,
        ));
        match build_hole_cycle(topology, adjacency, tolerance, index, &holes[index], family) {
            Ok((row, cycle)) => {
                rows.push(row);
                cycles.push(cycle);
            },
            Err(message) => {
                assert(!cycle_exists(adjacency@, family.target_vertices@[index as int]@));
                return Err(message);
            },
        }
        index = index + 1;
    }
    Ok((SignedMatrix { rows, column_count: topology.edges.len() }, cycles))
}

/// Builds the closed paths of several families.
pub fn build_hole_cycle_families(
    topology: &MeshTopology,
    adjacency: &Vec<Vec<EdgeStep>>,
    tolerance: u64,
    holes: &Vec<PlanarHoleSpec>,
    families: &Vec<CycleFamily>,
) -> (result: Result<Vec<(SignedMatrix, Vec<PlanarHoleCycle>)>, String>)
    requires
        topology.wf(),
        adjacency_in_range(adjacency@),
        steps_match(*topology, adjacency@),
        unit_signs(adjacency@),
        forall|f: int|
            0 <= f < families.len() ==> family_in_range(
                #[trigger] families@[f],
                holes.len() as nat,
                adjacency.len() as nat,
            ),
    ensures
        result is Ok <==> forall|f: int|
            0 <= f < families.len() ==> family_exists(
                adjacency@,
                holes.len() as nat,
                #[trigger] families@[f],
            ),
        match result {
            Ok(built) => {
                &&& built.len() == families.len()
                &&& forall|f: int|
                    0 <= f < families.len() ==> are_hole_cycles(
                        *topology,
                        adjacency@,
                        tolerance as int,
                        holes@,
                        families@[f],
                        (#[trigger] built@[f]).0,
                        built@[f].1@,
                    )
            },
            Err(message) => exists|f: int|
                {
                    &&& 0 <= f < families.len()
                    &&& forall|k: int|
                        0 <= k < f ==> family_exists(
                            adjacency@,
                            holes.len() as nat,
                            #[trigger] families@[k],
                        )
                    &&& family_message(
                        adjacency@,
                        holes.len() as nat,
                        #[trigger] families@[f],
                        message@,
                    )
                },
        },
{
    let mut built: Vec<(SignedMatrix, Vec<PlanarHoleCycle>)> = Vec::new();
    let mut index: usize = 0;
    while index < families.len()
        invariant
            topology.wf(),
            adjacency_in_range(adjacency@),
            steps_match(*topology, adjacency@),
            unit_signs(adjacency@),
            forall|f: int|
                0 <= f < families.len() ==> family_in_range(
                    #[trigger] families@[f],
                    holes.len() as nat,
                    adjacency.len() as nat,
                ),
            index <= families.len(),
            built.len() == index,
            forall|f: int|
                0 <= f < index ==> family_exists(
                    adjacency@,
                    holes.len() as nat,
                    #[trigger] families@[f],
                ),
            forall|f: int|
                0 <= f < index ==> are_hole_cycles(
                    *topology,
                    adjacency@,
                    tolerance as int,
                    holes@,
                    families@[f],
                    (#[trigger] built@[f]).0,
                    built@[f].1@,
                ),
        decreases families.len() - index,
    {
        match build_hole_cycle_observation_matrix(
            topology,
            adjacency,
            tolerance,
            holes,
            &families[index],
        ) {
            Ok(pair) => {
                built.push(pair);
            },
            Err(message) => {
                assert(!family_exists(adjacency@, holes.len() as nat, families@[index as int]));
                return Err(message);
            },
        }
        index = index + 1;
    }
    Ok(built)
}

/// The shape and the rows of a matrix.
pub open spec fn contents(matrix: SignedMatrix) -> (nat, Seq<Seq<(usize, i64)>>) {
    (matrix.column_count as nat, matrix.rows@.map_values(|row: Vec<(usize, i64)>| row@))
}

fn rows_equal(left: &Vec<(usize, i64)>, right: &Vec<(usize, i64)>) -> (equal: bool)
    ensures
        equal == (left@ == right@),
{
    if left.len() != right.len() {
        return false;
    }
    let mut index: usize = 0;
    while index < left.len()
        invariant
            left.len() == right.len(),
            index <= left.len(),
            forall|i: int| 0 <= i < index ==> left@[i] == right@[i],
        decreases left.len() - index,
    {
        if left[index].0 != right[index].0 || left[index].1 != right[index].1 {
            assert(left@[index as int] != right@[index as int]);
            return false;
        }
        index = index + 1;
    }
    assert(left@ =~= right@);
    true
}

/// Tests whether two matrices have the same shape and the same rows.
pub fn matching_cycle_rows_identical(train: &SignedMatrix, heldout: &SignedMatrix) -> (identical:
    bool)
    ensures
        identical == (contents(*train) == contents(*heldout)),
{
    if train.rows.len() != heldout.rows.len() || train.column_count != heldout.column_count {
        assert(contents(*train).1.len() == train.rows.len());
        assert(contents(*heldout).1.len() == heldout.rows.len());
        return false;
    }
    let mut index: usize = 0;
    while index < train.rows.len()
        invariant
            train.rows.len() == heldout.rows.len(),
            index <= train.rows.len(),
            forall|i: int| 0 <= i < index ==> train.rows@[i]@ == heldout.rows@[i]@,
        decreases train.rows.len() - index,
    {
        if !rows_equal(&train.rows[index], &heldout.rows[index]) {
            assert(contents(*train).1[index as int] == train.rows@[index as int]@);
            assert(contents(*heldout).1[index as int] == heldout.rows@[index as int]@);
            return false;
        }
        index = index + 1;
    }
    assert(contents(*train).1 =~= contents(*heldout).1);
    true
}

/// Whether some row of the matrix has an entry in the column.
pub open spec fn column_used(matrix: SignedMatrix, column: usize) -> bool {
    exists|r: int| 0 <= r < matrix.rows.len() && listed(column, #[trigger] matrix.rows@[r]@)
}

/// Collects the columns in which the matrix has an entry.
pub fn observation_edge_set(matrix: &SignedMatrix) -> (edges: IndexSet)
    ensures
        edges.wf(),
        forall|e: usize| #[trigger] edges@.contains(e) <==> column_used(*matrix, e),
{
    let mut edges = IndexSet::new();
    let mut index: usize = 0;
    while index < matrix.rows.len()
        invariant
            index <= matrix.rows.len(),
            edges.wf(),
            forall|e: usize| #[trigger]
                edges@.contains(e) <==> exists|r: int|
                    0 <= r < index && listed(e, #[trigger] matrix.rows@[r]@),
        decreases matrix.rows.len() - index,
    {
        let entries: &Vec<(usize, i64)> = &matrix.rows[index];
        let ghost before = edges@;
        let mut position: usize = 0;
        while position < entries.len()
            invariant
                position <= entries.len(),
                edges.wf(),
                forall|e: usize| #[trigger]
                    edges@.contains(e) <==> before.contains(e) || exists|k: int|
                        0 <= k < position && (#[trigger] entries@[k]).0 == e,
            decreases entries.len() - position,
        {
            let entry: (usize, i64) = entries[position];
            assert(entries@[position as int] == entry);
            edges.insert(entry.0);
            position = position + 1;
        }
        proof {
            assert forall|e: usize| #[trigger] edges@.contains(e) <==> exists|r: int|
                0 <= r < index + 1 && listed(e, #[trigger] matrix.rows@[r]@) by {
                if before.contains(e) {
                    let r = choose|r: int|
                        0 <= r < index && listed(e, #[trigger] matrix.rows@[r]@);
                    assert(listed(e, matrix.rows@[r]@));
                }
                if exists|k: int| 0 <= k < entries.len() && (#[trigger] entries@[k]).0 == e {
                    assert(listed(e, matrix.rows@[index as int]@));
                }
            }
        }
        index = index + 1;
    }
    edges
}

/// The matrix that reads every value as it is.
pub fn identity_csr(dimension: usize) -> (matrix: SignedMatrix)
    ensures
        matrix.column_count == dimension,
        contents(matrix).1 == Seq::new(dimension as nat, |i: int| seq![(i as usize, 1i64)]),
{
    let mut rows: Vec<Vec<(usize, i64)>> = Vec::new();
    while rows.len() < dimension
        invariant
            rows.len() <= dimension,
            forall|i: int| 0 <= i < rows.len() ==> #[trigger] rows@[i]@ == seq![(i as usize, 1i64)],
        decreases dimension - rows.len(),
    {
        let row: Vec<(usize, i64)> = vec![(rows.len(), 1)];
        assert(row@ =~= seq![(rows.len(), 1i64)]);
        rows.push(row);
    }
    let matrix = SignedMatrix { rows, column_count: dimension };
    assert(contents(matrix).1 =~= Seq::new(dimension as nat, |i: int| seq![(i as usize, 1i64)]));
    matrix
}

/// The message for sensors that do not tell the holes apart.
pub open spec fn rank_message(subject: Seq<char>, rank: nat, hole_count: nat) -> Seq<char> {
    subject + " pairing rank "@ + decimal(rank) + " does not match hole count "@ + decimal(
        hole_count,
    )
}

/// Tests that the sensors tell the holes apart: the rank of their pairing with the harmonic
/// fields is the number of holes.
pub fn check_pairing_rank(subject: &str, rank: usize, hole_count: usize) -> (result: Result<
    (),
    String,
>)
    ensures
        match result {
            Ok(_) => rank == hole_count,
            Err(message) => rank != hole_count && message@ == rank_message(
                subject@,
                rank as nat,
                hole_count as nat,
            ),
        },
{
    if rank == hole_count {
        return Ok(());
    }
    let mut message = String::from_str(subject);
    message.append(" pairing rank ");
    message.append(count_text(rank).as_str());
    message.append(" does not match hole count ");
    message.append(count_text(hole_count).as_str());
    Err(message)
}

/// Tests that the held-out cycles are not the training cycles over again.
pub fn check_cycles_differ(train: &SignedMatrix, heldout: &SignedMatrix) -> (result: Result<
    (),
    String,
>)
    ensures
        match result {
            Ok(_) => contents(*train) != contents(*heldout),
            Err(message) => contents(*train) == contents(*heldout) && message@
                == "training and held-out loop observation rows should not be identical"@,
        },
{
    if matching_cycle_rows_identical(train, heldout) {
        Err(
            String::from_str("training and held-out loop observation rows should not be identical"),
        )
    } else {
        Ok(())
    }
}

/// The message for matrices of different shapes.
pub open spec fn shape_message(lhs: (usize, usize), rhs: (usize, usize)) -> Seq<char> {
    "cannot subtract matrices with shapes "@ + decimal(lhs.0 as nat) + "x"@ + decimal(lhs.1 as nat)
        + " and "@ + decimal(rhs.0 as nat) + "x"@ + decimal(rhs.1 as nat)
}

/// Tests that two matrices, given by their numbers of rows and columns, can be subtracted.
pub fn check_difference_shapes(lhs: (usize, usize), rhs: (usize, usize)) -> (result: Result<
    (),
    String,
>)
    ensures
        match result {
            Ok(_) => lhs == rhs,
            Err(message) => lhs != rhs && message@ == shape_message(lhs, rhs),
        },
{
    if lhs.0 == rhs.0 && lhs.1 == rhs.1 {
        return Ok(());
    }
    let mut message = String::from_str("cannot subtract matrices with shapes ");
    message.append(count_text(lhs.0).as_str());
    message.append("x");
    message.append(count_text(lhs.1).as_str());
    message.append(" and ");
    message.append(count_text(rhs.0).as_str());
    message.append("x");
    message.append(count_text(rhs.1).as_str());
    Err(message)
}

/// The message for a branch that does not fit into the latent vector.
pub open spec fn branch_message(offset: nat, width: nat, latent_dim: nat) -> Seq<char> {
    "branch operator with offset "@ + decimal(offset) + " and width "@ + decimal(width)
        + " exceeds latent dimension "@ + decimal(latent_dim)
}

/// Finds the latent columns of a branch: column `c` of the branch is column `offset + c` of the
/// latent vector.
pub fn shifted_branch_columns(offset: usize, width: usize, latent_dim: usize) -> (result: Result<
    Vec<usize>,
    String,
>)
    requires
        offset + width <= usize::MAX,
    ensures
        match result {
            Ok(columns) => offset + width <= latent_dim && columns@ == Seq::new(
                width as nat,
                |c: int| (offset + c) as usize,
            ),
            Err(message) => offset + width > latent_dim && message@ == branch_message(
                offset as nat,
                width as nat,
                latent_dim as nat,
            ),
        },
{
    if offset + width > latent_dim {
        let mut message = String::from_str("branch operator with offset ");
        message.append(count_text(offset).as_str());
        message.append(" and width ");
        message.append(count_text(width).as_str());
        message.append(" exceeds latent dimension ");
        message.append(count_text(latent_dim).as_str());
        return Err(message);
    }
    let mut columns: Vec<usize> = Vec::new();
    while columns.len() < width
        invariant
            offset + width <= usize::MAX,
            columns.len() <= width,
            columns@ == Seq::new(columns@.len(), |c: int| (offset + c) as usize),
        decreases width - columns.len(),
    {
        let ghost before = columns@;
        let column: usize = offset + columns.len();
        columns.push(column);
        assert(columns@ =~= Seq::new(columns@.len(), |c: int| (offset + c) as usize)) by {
            assert forall|c: int| 0 <= c < columns@.len() implies columns@[c] == (offset
                + c) as usize by {
                if c < before.len() {
                    assert(before[c] == (offset + c) as usize);
                }
            }
        }
    }
    Ok(columns)
}

} // verus!
