//! Components of the field at fixed points of the sphere.

use super::tables::{
    SpherePointwiseFitSummaryRow, SpherePointwiseSummaryRow, SpherePointwiseVarianceRow,
};
use super::{
    branch_place, place_of_branch, place_of_model, ErrorStatistics, PriorReport,
    SphereBranchObservableModel, SphereMesh,
};
use crate::grouping::{are_ordered_groups, group_by_key, is_grouping, ordered_groups, IndexGroup};
use crate::hodge::HodgeBranchKind;
use crate::order::{comparable, extreme_or_infinity, find_extreme};
use crate::reconstruction::{copy_row, BarycenterReconstruction, WeightedEntry};
use crate::scalar::Scalar;
use crate::sphere_surface::SpacePoint;
use crate::text::{count_text, decimal};
use vstd::prelude::*;

verus! {

/// A corner of the cube around the origin.
#[derive(Debug, Clone, Copy, PartialEq, Eq, Structural)]
pub struct CubeCorner {
    pub x: i64,
    pub y: i64,
    pub z: i64,
}

/// The sign that a bit stands for.
pub open spec fn corner_sign(bit: int) -> int {
    if bit == 0 {
        -1
    } else {
        1
    }
}

/// The corner with the given number: its last coordinate changes fastest.
pub open spec fn corner(index: int) -> CubeCorner {
    CubeCorner {
        x: corner_sign(index / 4) as i64,
        y: corner_sign((index / 2) % 2) as i64,
        z: corner_sign(index % 2) as i64,
    }
}

fn sign_of(bit: usize) -> (sign: i64)
    ensures
        sign == corner_sign(bit as int),
{
    if bit == 0 {
        -1
    } else {
        1
    }
}

/// Lists the directions in which the field is observed: those of the corners of a cube. A
/// direction is a corner divided by the root of three.
pub fn fixed_pointwise_directions() -> (corners: Vec<CubeCorner>)
    ensures
        corners@ == Seq::new(8, |i: int| corner(i)),
{
    let mut corners: Vec<CubeCorner> = Vec::new();
    let mut index: usize = 0;
    while index < 8
        invariant
            index <= 8,
            corners.len() == index,
            forall|i: int| 0 <= i < index ==> #[trigger] corners@[i] == corner(i),
        decreases 8 - index,
    {
        corners.push(
            CubeCorner {
                x: sign_of(index / 4),
                y: sign_of((index / 2) % 2),
                z: sign_of(index % 2),
            },
        );
        index = index + 1;
    }
    assert(corners@ =~= Seq::new(8, |i: int| corner(i)));
    corners
}

/// The directions have unit length, because the squared length of a corner is three, and no two
/// of them are the same.
pub proof fn lemma_directions(left: int, right: int)
    requires
        0 <= left < 8,
        0 <= right < 8,
    ensures
        corner(left).x * corner(left).x + corner(left).y * corner(left).y + corner(left).z * corner(
            left,
        ).z == 3,
        corner(left) == corner(right) ==> left == right,
{
    let (x, y, z) = (corner(left).x as int, corner(left).y as int, corner(left).z as int);
    assert(x * x + y * y + z * z == 3) by (nonlinear_arith)
        requires
            x == 1 || x == -1,
            y == 1 || y == -1,
            z == 1 || z == -1,
    ;
}

/// Whether a cell can still be chosen: it has a finite barycenter and was not chosen before.
pub open spec fn is_free(finite: Seq<bool>, chosen: Seq<usize>, cell: int) -> bool {
    finite[cell] && !chosen.contains(cell as usize)
}

/// The nearest of the first `count` cells among those that can be chosen; of equally near ones
/// the first.
pub open spec fn nearest_free(
    distances: Seq<Scalar>,
    finite: Seq<bool>,
    chosen: Seq<usize>,
    count: int,
) -> Option<int>
    decreases count,
{
    if count <= 0 {
        None
    } else {
        let before = nearest_free(distances, finite, chosen, count - 1);
        if !is_free(finite, chosen, count - 1) {
            before
        } else {
            match before {
                None => Some(count - 1),
                Some(best) => if distances[count - 1].lt(distances[best]) {
                    Some(count - 1)
                } else {
                    before
                },
            }
        }
    }
}

/// Where no distance is NaN, the chosen cell is free and no free cell is nearer; there is none
/// exactly where no cell is free.
pub proof fn lemma_nearest_free(
    distances: Seq<Scalar>,
    finite: Seq<bool>,
    chosen: Seq<usize>,
    count: int,
)
    requires
        comparable(distances),
        0 <= count <= distances.len(),
    ensures
        match nearest_free(distances, finite, chosen, count) {
            Some(best) => {
                &&& 0 <= best < count
                &&& is_free(finite, chosen, best)
                &&& forall|c: int|
                    #![trigger distances[c]]
                    0 <= c < count && is_free(finite, chosen, c) ==> distances[best].rank()
                        <= distances[c].rank()
                &&& forall|c: int|
                    #![trigger distances[c]]
                    0 <= c < best && is_free(finite, chosen, c) ==> distances[best].rank()
                        < distances[c].rank()
            },
            None => forall|c: int| 0 <= c < count ==> !#[trigger] is_free(finite, chosen, c),
        },
    decreases count,
{
    if count > 0 {
        lemma_nearest_free(distances, finite, chosen, count - 1);
        assert(!distances[count - 1].nan());
        match nearest_free(distances, finite, chosen, count - 1) {
            Some(best) => {
                assert(!distances[best].nan());
            },
            None => {},
        }
    }
}

proof fn lemma_nearest_in_range(
    distances: Seq<Scalar>,
    finite: Seq<bool>,
    chosen: Seq<usize>,
    count: int,
)
    ensures
        nearest_free(distances, finite, chosen, count) matches Some(best) ==> 0 <= best < count
            && is_free(finite, chosen, best),
    decreases count,
{
    if count > 0 {
        lemma_nearest_in_range(distances, finite, chosen, count - 1);
    }
}

/// The message for a mesh with too few cells.
pub open spec fn few_cells_message(points: nat, cells: nat) -> Seq<char> {
    "need at least "@ + decimal(points) + " cells to select unique pointwise barycenters, got "@
        + decimal(cells)
}

/// The message for a point for which no cell is left.
pub open spec fn no_cell_message(point: nat) -> Seq<char> {
    "failed to select a finite unique cell for pointwise point "@ + decimal(point)
}

/// Whether the first `count` points are given the nearest cells that were left.
pub open spec fn takes_nearest(
    distances: Seq<Vec<Scalar>>,
    finite: Seq<bool>,
    cells: Seq<usize>,
    count: int,
) -> bool {
    &&& cells.len() == count
    &&& forall|p: int|
        0 <= p < count ==> nearest_free(
            distances[p]@,
            finite,
            cells.take(p),
            finite.len() as int,
        ) == Some(#[trigger] cells[p] as int)
}

/// Gives every point the nearest cell that no earlier point was given. The distances are those
/// from the points to the barycenters of all cells, and `finite` tells which barycenters are
/// finite.
pub fn select_nearest_unique_cells(distances: &Vec<Vec<Scalar>>, finite: &Vec<bool>) -> (result:
    Result<Vec<usize>, String>)
    requires
        forall|p: int| 0 <= p < distances.len() ==> (#[trigger] distances@[p]).len() == finite.len(),
    ensures
        match result {
            Ok(cells) => finite.len() >= distances.len() && takes_nearest(
                distances@,
                finite@,
                cells@,
                distances.len() as int,
            ),
            Err(message) => if finite.len() < distances.len() {
                message@ == few_cells_message(distances@.len(), finite@.len())
            } else {
                exists|cells: Seq<usize>|
                    {
                        &&& cells.len() < distances.len()
                        &&& #[trigger] takes_nearest(
                            distances@,
                            finite@,
                            cells,
                            cells.len() as int,
                        )
                        &&& nearest_free(
                            distances@[cells.len() as int]@,
                            finite@,
                            cells,
                            finite.len() as int,
                        ) is None
                        &&& message@ == no_cell_message(cells.len())
                    }
            },
        },
{
    let count: usize = finite.len();
    if count < distances.len() {
        let mut message = String::from_str("need at least ");
        message.append(count_text(distances.len()).as_str());
        message.append(" cells to select unique pointwise barycenters, got ");
        message.append(count_text(count).as_str());
        return Err(message);
    }
    let mut used: Vec<bool> = Vec::new();
    while used.len() < count
        invariant
            used.len() <= count,
            forall|c: int| 0 <= c < used.len() ==> !#[trigger] used@[c],
        decreases count - used.len(),
    {
        used.push(false);
    }
    let mut cells: Vec<usize> = Vec::new();
    let mut point: usize = 0;
    while point < distances.len()
        invariant
            point <= distances.len(),
            count == finite.len(),
            distances.len() <= count,
            forall|p: int|
                0 <= p < distances.len() ==> (#[trigger] distances@[p]).len() == finite.len(),
            used.len() == count,
            forall|c: int| 0 <= c < count ==> #[trigger] used@[c] == cells@.contains(c as usize),
            takes_nearest(distances@, finite@, cells@, point as int),
        decreases distances.len() - point,
    {
        let row: &Vec<Scalar> = &distances[point];
        let mut best: Option<usize> = None;
        let mut cell: usize = 0;
        while cell < count
            invariant
                cell <= count,
                count == finite.len(),
                row.len() == count,
                used.len() == count,
                forall|c: int|
                    0 <= c < count ==> #[trigger] used@[c] == cells@.contains(c as usize),
                best matches Some(b) ==> b < cell,
                nearest_free(row@, finite@, cells@, cell as int) == match best {
                    Some(b) => Some(b as int),
                    None => None,
                },
            decreases count - cell,
        {
            assert(used@[cell as int] == cells@.contains(cell));
            if finite[cell] && !used[cell] {
                match best {
                    None => {
                        best = Some(cell);
                    },
                    Some(b) => {
                        if row[cell].less_than(row[b]) {
                            best = Some(cell);
                        }
                    },
                }
            }
            cell = cell + 1;
        }
        match best {
            None => {
                let mut message = String::from_str(
                    "failed to select a finite unique cell for pointwise point ",
                );
                message.append(count_text(point).as_str());
                assert(takes_nearest(distances@, finite@, cells@, cells@.len() as int));
                return Err(message);
            },
            Some(b) => {
                let ghost before = cells@;
                cells.push(b);
                used.set(b, true);
                proof {
                    assert(cells@.take(point as int) =~= before);
                    assert forall|p: int| 0 <= p < point + 1 implies nearest_free(
                        distances@[p]@,
                        finite@,
                        cells@.take(p),
                        finite@.len() as int,
                    ) == Some(#[trigger] cells@[p] as int) by {
                        if p < point {
                            assert(cells@[p] == before[p]);
                            assert(cells@.take(p) =~= before.take(p));
                        }
                    }
                    assert forall|c: int| 0 <= c < count implies #[trigger] used@[c]
                        == cells@.contains(c as usize) by {
                        if c == b {
                            assert(cells@[point as int] == b);
                        } else {
                            if before.contains(c as usize) {
                                let i = choose|i: int|
                                    0 <= i < before.len() && before[i] == c as usize;
                                assert(cells@[i] == c as usize);
                            }
                            if cells@.contains(c as usize) {
                                let i = choose|i: int|
                                    0 <= i < cells@.len() && cells@[i] == c as usize;
                                assert(before[i] == c as usize);
                            }
                        }
                    }
                }
            },
        }
        point = point + 1;
    }
    Ok(cells)
}

/// No two points are given the same cell, and every chosen cell has a finite barycenter.
pub proof fn lemma_chosen_cells_are_unique(
    distances: Seq<Vec<Scalar>>,
    finite: Seq<bool>,
    cells: Seq<usize>,
    left: int,
    right: int,
)
    requires
        takes_nearest(distances, finite, cells, cells.len() as int),
        0 <= left < right < cells.len(),
    ensures
        cells[left] != cells[right],
        cells[right] < finite.len(),
        finite[cells[right] as int],
{
    lemma_nearest_in_range(
        distances[right]@,
        finite,
        cells.take(right),
        finite.len() as int,
    );
    assert(is_free(finite, cells.take(right), cells[right] as int));
    assert(cells.take(right)[left] == cells[left]);
}

/// Names a coordinate of space.
pub fn component_name(component_index: usize) -> (result: Result<&'static str, String>)
    ensures
        match result {
            Ok(name) => component_index < 3 && name@ == coordinate_name(component_index as int),
            Err(message) => component_index >= 3 && message@
                == "unsupported ambient component index "@ + decimal(component_index as nat),
        },
{
    match component_index {
        0 => Ok("x"),
        1 => Ok("y"),
        2 => Ok("z"),
        _ => {
            let mut message = String::from_str("unsupported ambient component index ");
            message.append(count_text(component_index).as_str());
            Err(message)
        },
    }
}

/// The name of a coordinate of space.
pub open spec fn coordinate_name(component: int) -> Seq<char> {
    if component == 0 {
        "x"@
    } else if component == 1 {
        "y"@
    } else {
        "z"@
    }
}

/// A point with the cell that it was given: the direction asked for, the barycenter of the cell on
/// the sphere, and how far they are apart.
#[derive(Debug, Clone, Copy, PartialEq, Eq, Structural)]
pub struct SelectedPointwiseCell {
    pub point_index: usize,
    pub cell_index: usize,
    pub target: SpacePoint,
    pub eval_point: SpacePoint,
    pub direction_error: Scalar,
}

/// A component of the field at a point.
#[derive(Debug, Clone, Copy, PartialEq, Eq, Structural)]
pub struct PointwiseObservation {
    pub selected: SelectedPointwiseCell,
    pub component_index: usize,
}

/// The rows that read the components of the field at points, with what they read.
#[derive(Debug)]
pub struct PointwiseOperator {
    pub rows: Vec<Vec<WeightedEntry>>,
    pub observations: Vec<PointwiseObservation>,
}

/// Whether the component with number `k` is laid out: the components come one after the other,
/// each at all points.
pub open spec fn lays_out(
    reconstruction: BarycenterReconstruction,
    selected: Seq<SelectedPointwiseCell>,
    k: int,
    row: Seq<WeightedEntry>,
    observation: PointwiseObservation,
) -> bool {
    let component = k / selected.len() as int;
    let point = k % selected.len() as int;
    &&& observation.component_index == component
    &&& observation.selected == selected[point]
    &&& row == reconstruction.row_at(component, selected[point].cell_index as int)
}

/// Whether a component at a point cannot be read.
pub open spec fn is_missing(
    reconstruction: BarycenterReconstruction,
    selected: Seq<SelectedPointwiseCell>,
    component: int,
    point: int,
) -> bool {
    selected[point].cell_index >= reconstruction.components@[component].len()
}

/// Whether the first component that cannot be read is at the given place.
pub open spec fn first_missing(
    reconstruction: BarycenterReconstruction,
    selected: Seq<SelectedPointwiseCell>,
    component: int,
    point: int,
) -> bool {
    &&& 0 <= component < 3
    &&& 0 <= point < selected.len()
    &&& is_missing(reconstruction, selected, component, point)
    &&& forall|c: int, p: int|
        0 <= c < 3 && 0 <= p < selected.len() && (c < component || (c == component && p < point))
            ==> !#[trigger] is_missing(reconstruction, selected, c, p)
}

/// The message for a field with another number of components.
pub open spec fn dimension_message(components: nat) -> Seq<char> {
    "expected 3 ambient reconstruction components, got "@ + decimal(components)
}

/// The message for a cell without a row.
pub open spec fn missing_message(cell: nat) -> Seq<char> {
    "selected cell "@ + decimal(cell) + " is out of bounds for barycenter reconstruction"@
}

/// Reads the three components of the field at the points that were given cells.
pub fn pointwise_operator(
    reconstruction: &BarycenterReconstruction,
    selected: &Vec<SelectedPointwiseCell>,
) -> (result: Result<PointwiseOperator, String>)
    requires
        3 * selected.len() <= usize::MAX,
    ensures
        match result {
            Ok(operator) => {
                &&& reconstruction.components.len() == 3
                &&& operator.rows.len() == 3 * selected.len()
                &&& operator.observations.len() == 3 * selected.len()
                &&& forall|c: int, p: int|
                    0 <= c < 3 && 0 <= p < selected.len() ==> !#[trigger] is_missing(
                        *reconstruction,
                        selected@,
                        c,
                        p,
                    )
                &&& forall|k: int|
                    0 <= k < operator.rows.len() ==> lays_out(
                        *reconstruction,
                        selected@,
                        k,
                        #[trigger] operator.rows@[k]@,
                        operator.observations@[k],
                    )
            },
            Err(message) => if reconstruction.components.len() != 3 {
                message@ == dimension_message(reconstruction.components@.len())
            } else {
                exists|c: int, p: int| #[trigger]
                    first_missing(*reconstruction, selected@, c, p) && message@ == missing_message(
                        selected@[p].cell_index as nat,
                    )
            },
        },
{
    if reconstruction.components.len() != 3 {
        let mut message = String::from_str("expected 3 ambient reconstruction components, got ");
        message.append(count_text(reconstruction.components.len()).as_str());
        return Err(message);
    }
    let count: usize = selected.len();
    let mut rows: Vec<Vec<WeightedEntry>> = Vec::new();
    let mut observations: Vec<PointwiseObservation> = Vec::new();
    let mut component: usize = 0;
    while component < 3
        invariant
            component <= 3,
            count == selected.len(),
            3 * count <= usize::MAX,
            reconstruction.components.len() == 3,
            rows.len() == component * count,
            observations.len() == rows.len(),
            forall|c: int, p: int|
                0 <= c < component && 0 <= p < count ==> !#[trigger] is_missing(
                    *reconstruction,
                    selected@,
                    c,
                    p,
                ),
            forall|k: int|
                0 <= k < rows.len() ==> lays_out(
                    *reconstruction,
                    selected@,
                    k,
                    #[trigger] rows@[k]@,
                    observations@[k],
                ),
        decreases 3 - component,
    {
        let component_rows: &Vec<Vec<WeightedEntry>> = &reconstruction.components[component];
        let mut point: usize = 0;
        while point < count
            invariant
                point <= count,
                component < 3,
                count == selected.len(),
                3 * count <= usize::MAX,
                reconstruction.components.len() == 3,
                *component_rows == reconstruction.components@[component as int],
                rows.len() == component * count + point,
                observations.len() == rows.len(),
                forall|c: int, p: int|
                    0 <= c < 3 && 0 <= p < count && (c < component || (c == component && p < point))
                        ==> !#[trigger] is_missing(*reconstruction, selected@, c, p),
                forall|k: int|
                    0 <= k < rows.len() ==> lays_out(
                        *reconstruction,
                        selected@,
                        k,
                        #[trigger] rows@[k]@,
                        observations@[k],
                    ),
            decreases count - point,
        {
            let chosen: SelectedPointwiseCell = selected[point];
            if chosen.cell_index >= component_rows.len() {
                let mut message = String::from_str("selected cell ");
                message.append(count_text(chosen.cell_index).as_str());
                message.append(" is out of bounds for barycenter reconstruction");
                assert(is_missing(*reconstruction, selected@, component as int, point as int));
                assert(first_missing(
                    *reconstruction,
                    selected@,
                    component as int,
                    point as int,
                ));
                return Err(message);
            }
            let row = copy_row(&component_rows[chosen.cell_index]);
            let observation = PointwiseObservation {
                selected: chosen,
                component_index: component,
            };
            proof {
                let k = rows.len() as int;
                assert(component * count + point == k);
                vstd::arithmetic::div_mod::lemma_fundamental_div_mod_converse(
                    k,
                    count as int,
                    component as int,
                    point as int,
                );
                assert(lays_out(*reconstruction, selected@, k, row@, observation));
            }
            rows.push(row);
            observations.push(observation);
            point = point + 1;
        }
        proof {
            assert((component + 1) * count == component * count + count) by (nonlinear_arith);
        }
        component = component + 1;
    }
    Ok(PointwiseOperator { rows, observations })
}

/// The message for a number of components that does not fit the directions.
pub open spec fn observation_count_message(expected: nat, given: nat) -> Seq<char> {
    "expected "@ + decimal(expected) + " pointwise observations, got "@ + decimal(given)
}

/// The message for a number of variances that does not fit the components.
pub open spec fn variance_count_message(variances: nat, observations: nat) -> Seq<char> {
    "pointwise variance count "@ + decimal(variances) + " does not match observation count "@
        + decimal(observations)
}

/// Tests that there are three components for each of the eight directions, and a variance for
/// every component.
pub fn check_pointwise_counts(observations: usize, variances: usize) -> (result: Result<
    (),
    String,
>)
    ensures
        match result {
            Ok(_) => observations == 24 && variances == 24,
            Err(message) => if observations != 24 {
                message@ == observation_count_message(24, observations as nat)
            } else {
                variances != observations && message@ == variance_count_message(
                    variances as nat,
                    observations as nat,
                )
            },
        },
{
    let expected: usize = 3 * fixed_pointwise_directions().len();
    if observations != expected {
        let mut message = String::from_str("expected ");
        message.append(count_text(expected).as_str());
        message.append(" pointwise observations, got ");
        message.append(count_text(observations).as_str());
        return Err(message);
    }
    if variances != observations {
        let mut message = String::from_str("pointwise variance count ");
        message.append(count_text(variances).as_str());
        message.append(" does not match observation count ");
        message.append(count_text(observations).as_str());
        return Err(message);
    }
    Ok(())
}

/// The variance of a component at a point with its errors.
#[derive(Debug, Clone, Copy, PartialEq, Eq, Structural)]
pub struct PointwiseVariance {
    pub model_variance: Scalar,
    pub analytic_variance: Scalar,
    pub absolute_error: Scalar,
    pub relative_error: Scalar,
}

/// The encoding of the largest number that counts as a negative variance.
pub const NEGATIVE_VARIANCE_BITS: u64 = 0xbd06_849b_86a1_2b9b;

/// Whether an analytic variance can be reported: it is finite, and not negative but for rounding.
pub open spec fn is_variance(value: Scalar) -> bool {
    value.finite() && !value.lt(Scalar { bits: NEGATIVE_VARIANCE_BITS })
}

/// The message for an analytic variance that cannot be reported.
pub open spec fn variance_message(row: nat, value: Seq<char>) -> Seq<char> {
    "non-finite or negative analytic pointwise variance at row "@ + decimal(row) + ": "@ + value
}

/// Whether a row reports the variance of a component at a point.
pub open spec fn reports_component(
    mesh: SphereMesh,
    report: PriorReport,
    observation: PointwiseObservation,
    row_nnz: int,
    variance: PointwiseVariance,
    row: SpherePointwiseVarianceRow,
) -> bool {
    &&& row.refinement_level == mesh.refinement_level
    &&& row.h == mesh.h
    &&& row.vertex_count == mesh.vertex_count
    &&& row.edge_count == mesh.edge_count
    &&& row.cell_count == mesh.cell_count
    &&& row.model == report.model
    &&& row.prior_branch == report.prior_branch
    &&& row.point_index == observation.selected.point_index
    &&& row.cell_index == observation.selected.cell_index
    &&& row.component_index == observation.component_index
    &&& row.component_name@ == coordinate_name(observation.component_index as int)
    &&& row.target_x == observation.selected.target.x
    &&& row.target_y == observation.selected.target.y
    &&& row.target_z == observation.selected.target.z
    &&& row.eval_x == observation.selected.eval_point.x
    &&& row.eval_y == observation.selected.eval_point.y
    &&& row.eval_z == observation.selected.eval_point.z
    &&& row.direction_error == observation.selected.direction_error
    &&& row.latent_dofs == report.latent_dofs
    &&& row.precision_nnz == report.precision_nnz
    &&& row.factor_nnz == report.factor_nnz
    &&& row.row_nnz == row_nnz
    &&& row.model_variance == variance.model_variance
    &&& row.analytic_variance == variance.analytic_variance
    &&& row.absolute_error == variance.absolute_error
    &&& row.relative_error == variance.relative_error
    &&& row.build_seconds == report.build_seconds
    &&& row.factor_seconds == report.factor_seconds
    &&& row.variance_seconds == report.variance_seconds
}

/// Whether an operator reads the three components of space, a row for every component.
pub open spec fn well_laid(operator: PointwiseOperator) -> bool {
    &&& operator.rows.len() == operator.observations.len()
    &&& forall|k: int|
        0 <= k < operator.observations.len() ==> (
        #[trigger] operator.observations@[k]).component_index < 3
}

/// Whether the first analytic variance that cannot be reported is at the given place.
pub open spec fn first_bad_variance(variances: Seq<PointwiseVariance>, place: int) -> bool {
    &&& 0 <= place < variances.len()
    &&& !is_variance(variances[place].analytic_variance)
    &&& forall|i: int|
        0 <= i < place ==> is_variance((#[trigger] variances[i]).analytic_variance)
}

/// Makes the rows of the components at the points under a prior. The texts are those of the
/// analytic variances.
pub fn pointwise_rows_for_prior(
    mesh: &SphereMesh,
    report: &PriorReport,
    operator: &PointwiseOperator,
    variances: &Vec<PointwiseVariance>,
    texts: &Vec<String>,
) -> (result: Result<Vec<SpherePointwiseVarianceRow>, String>)
    requires
        well_laid(*operator),
        variances.len() == operator.observations.len(),
        texts.len() == operator.observations.len(),
    ensures
        match result {
            Ok(rows) => {
                &&& rows.len() == operator.observations.len()
                &&& forall|i: int|
                    0 <= i < variances.len() ==> is_variance(
                        (#[trigger] variances@[i]).analytic_variance,
                    )
                &&& forall|i: int|
                    0 <= i < rows.len() ==> reports_component(
                        *mesh,
                        *report,
                        operator.observations@[i],
                        operator.rows@[i].len() as int,
                        variances@[i],
                        #[trigger] rows@[i],
                    )
            },
            Err(message) => exists|i: int| #[trigger]
                first_bad_variance(variances@, i) && message@ == variance_message(
                    i as nat,
                    texts@[i]@,
                ),
        },
{
    let mut rows: Vec<SpherePointwiseVarianceRow> = Vec::new();
    let mut index: usize = 0;
    while index < operator.observations.len()
        invariant
            index <= operator.observations.len(),
            well_laid(*operator),
            variances.len() == operator.observations.len(),
            texts.len() == operator.observations.len(),
            rows.len() == index,
            forall|i: int|
                0 <= i < index ==> is_variance((#[trigger] variances@[i]).analytic_variance),
            forall|i: int|
                0 <= i < rows.len() ==> reports_component(
                    *mesh,
                    *report,
                    operator.observations@[i],
                    operator.rows@[i].len() as int,
                    variances@[i],
                    #[trigger] rows@[i],
                ),
        decreases operator.observations.len() - index,
    {
        let observation: PointwiseObservation = operator.observations[index];
        let variance: PointwiseVariance = variances[index];
        if !variance.analytic_variance.is_finite() || variance.analytic_variance.less_than(
            Scalar { bits: NEGATIVE_VARIANCE_BITS },
        ) {
            let mut message = String::from_str(
                "non-finite or negative analytic pointwise variance at row ",
            );
            message.append(count_text(index).as_str());
            message.append(": ");
            message.append(texts[index].as_str());
            assert(first_bad_variance(variances@, index as int));
            return Err(message);
        }
        let name: &'static str = match component_name(observation.component_index) {
            Ok(name) => name,
            Err(message) => {
                assert(operator.observations@[index as int].component_index < 3);
                return Err(message);
            },
        };
        rows.push(
            SpherePointwiseVarianceRow {
                refinement_level: mesh.refinement_level,
                h: mesh.h,
                vertex_count: mesh.vertex_count,
                edge_count: mesh.edge_count,
                cell_count: mesh.cell_count,
                model: report.model,
                prior_branch: report.prior_branch,
                point_index: observation.selected.point_index,
                cell_index: observation.selected.cell_index,
                component_index: observation.component_index,
                component_name: name,
                target_x: observation.selected.target.x,
                target_y: observation.selected.target.y,
                target_z: observation.selected.target.z,
                eval_x: observation.selected.eval_point.x,
                eval_y: observation.selected.eval_point.y,
                eval_z: observation.selected.eval_point.z,
                direction_error: observation.selected.direction_error,
                latent_dofs: report.latent_dofs,
                precision_nnz: report.precision_nnz,
                factor_nnz: report.factor_nnz,
                row_nnz: operator.rows[index].len(),
                model_variance: variance.model_variance,
                analytic_variance: variance.analytic_variance,
                absolute_error: variance.absolute_error,
                relative_error: variance.relative_error,
                build_seconds: report.build_seconds,
                factor_seconds: report.factor_seconds,
                variance_seconds: report.variance_seconds,
            },
        );
        index = index + 1;
    }
    Ok(rows)
}

/// A number that orders models, branches and families of components: by model, then by the branch
/// of the prior, then by family. The family of all components has number zero and comes before the
/// single components.
pub open spec fn family_code(
    model: SphereBranchObservableModel,
    prior_branch: HodgeBranchKind,
    family: int,
) -> usize {
    ((model.place() * 3 + branch_place(prior_branch)) * 4 + family) as usize
}

/// The code tells models, branches and families apart.
pub proof fn lemma_family_code(
    left: (SphereBranchObservableModel, HodgeBranchKind, int),
    right: (SphereBranchObservableModel, HodgeBranchKind, int),
)
    requires
        0 <= left.2 < 4,
        0 <= right.2 < 4,
    ensures
        family_code(left.0, left.1, left.2) == family_code(right.0, right.1, right.2) <==> left
            == right,
{
}

fn code_of(model: SphereBranchObservableModel, prior_branch: HodgeBranchKind, family: usize) -> (code:
    usize)
    requires
        family < 4,
    ensures
        code == family_code(model, prior_branch, family as int),
{
    (place_of_model(model) * 3 + place_of_branch(prior_branch)) * 4 + family
}

/// The name of a family of components.
pub open spec fn family_name(family: int) -> Seq<char> {
    if family == 0 {
        "all"@
    } else {
        coordinate_name(family - 1)
    }
}

fn name_of_family(family: usize) -> (name: &'static str)
    requires
        family < 4,
    ensures
        name@ == family_name(family as int),
{
    match family {
        0 => "all",
        1 => "x",
        2 => "y",
        _ => "z",
    }
}

/// The keys by which rows are summed up. Every row stands in two places: with its component, and
/// with all components.
pub open spec fn family_keys(rows: Seq<SpherePointwiseVarianceRow>) -> Seq<(usize, usize)> {
    Seq::new(
        2 * rows.len(),
        |k: int|
            (
                rows[k / 2].refinement_level,
                family_code(
                    rows[k / 2].model,
                    rows[k / 2].prior_branch,
                    if k % 2 == 0 {
                        rows[k / 2].component_index + 1
                    } else {
                        0
                    },
                ),
            ),
    )
}

/// Whether every row is one of the three components of space.
pub open spec fn are_components(rows: Seq<SpherePointwiseVarianceRow>) -> bool {
    forall|i: int| 0 <= i < rows.len() ==> (#[trigger] rows[i]).component_index < 3
}

/// Groups the rows that are summed up together, in the order of level, model, branch and family.
/// A member `k` of a group stands for the row `k / 2`.
pub fn family_groups(rows: &Vec<SpherePointwiseVarianceRow>) -> (groups: Vec<IndexGroup>)
    requires
        are_components(rows@),
        2 * rows.len() <= usize::MAX,
    ensures
        is_grouping(family_keys(rows@), groups@),
{
    let mut keys: Vec<(usize, usize)> = Vec::new();
    let mut index: usize = 0;
    while index < rows.len()
        invariant
            index <= rows.len(),
            are_components(rows@),
            keys@ == family_keys(rows@).take(2 * index),
        decreases rows.len() - index,
    {
        let row: &SpherePointwiseVarianceRow = &rows[index];
        assert(rows@[index as int].component_index < 3);
        let single: usize = code_of(row.model, row.prior_branch, row.component_index + 1);
        let all: usize = code_of(row.model, row.prior_branch, 0);
        keys.push((row.refinement_level, single));
        keys.push((row.refinement_level, all));
        proof {
            let full = family_keys(rows@);
            let k = 2 * index as int;
            assert(k / 2 == index && k % 2 == 0 && (k + 1) / 2 == index && (k + 1) % 2 == 1);
            assert(full.take(k + 2) =~= full.take(k).push(full[k]).push(full[k + 1]));
        }
        index = index + 1;
    }
    assert(keys@ =~= family_keys(rows@));
    group_by_key(&keys)
}

/// The rows of a group of families.
pub open spec fn rows_of(members: Seq<usize>) -> Seq<usize> {
    members.map_values(|k: usize| (k / 2) as usize)
}

/// Lists the rows of a group of families.
pub fn family_rows(members: &Vec<usize>) -> (rows: Vec<usize>)
    ensures
        rows@ == rows_of(members@),
{
    let mut rows: Vec<usize> = Vec::new();
    let mut index: usize = 0;
    while index < members.len()
        invariant
            index <= members.len(),
            rows@ == rows_of(members@).take(index as int),
        decreases members.len() - index,
    {
        rows.push(members[index] / 2);
        assert(rows_of(members@).take(index + 1) =~= rows_of(members@).take(index as int).push(
            rows_of(members@)[index as int],
        ));
        index = index + 1;
    }
    assert(rows@ =~= rows_of(members@));
    rows
}

/// The number of the family of a group.
pub open spec fn family_of(rows: Seq<SpherePointwiseVarianceRow>, member: usize) -> int {
    if member % 2 == 0 {
        rows[member as int / 2].component_index + 1
    } else {
        0
    }
}

/// A summary with the number of its family.
#[derive(Debug)]
pub struct FamilySummary {
    pub family: usize,
    pub row: SpherePointwiseSummaryRow,
}

/// Whether every summary carries the number of its family.
pub open spec fn are_families(summaries: Seq<FamilySummary>) -> bool {
    forall|i: int|
        0 <= i < summaries.len() ==> (#[trigger] summaries[i]).family < 4
            && summaries[i].row.component_family@ == family_name(summaries[i].family as int)
}

/// The relative errors of a group of families.
pub open spec fn relative_errors(rows: Seq<SpherePointwiseVarianceRow>, members: Seq<usize>) -> Seq<
    Scalar,
> {
    members.map_values(|member: usize| rows[member as int / 2].relative_error)
}

/// Lists the values whose extremes a group reports.
fn list_relative_errors(rows: &Vec<SpherePointwiseVarianceRow>, members: &Vec<usize>) -> (values: Vec<
    Scalar,
>)
    requires
        forall|i: int| 0 <= i < members.len() ==> #[trigger] members@[i] < 2 * rows.len(),
    ensures
        values@ == relative_errors(rows@, members@),
{
    let mut values: Vec<Scalar> = Vec::new();
    while values.len() < members.len()
        invariant
            values.len() <= members.len(),
            forall|i: int| 0 <= i < members.len() ==> #[trigger] members@[i] < 2 * rows.len(),
            forall|i: int|
                0 <= i < values.len() ==> #[trigger] values@[i] == relative_errors(
                    rows@,
                    members@,
                )[i],
        decreases members.len() - values.len(),
    {
        let member: usize = members[values.len()];
        values.push(rows[member / 2].relative_error);
    }
    assert(values@ =~= relative_errors(rows@, members@));
    values
}

/// Makes the row that sums up a group of families.
pub fn pointwise_summary_row(
    rows: &Vec<SpherePointwiseVarianceRow>,
    members: &Vec<usize>,
    statistics: ErrorStatistics,
) -> (summary: FamilySummary)
    requires
        are_components(rows@),
        members.len() > 0,
        forall|i: int| 0 <= i < members.len() ==> #[trigger] members@[i] < 2 * rows.len(),
    ensures
        summary.family == family_of(rows@, members@[0]),
        summary.family < 4,
        summary.row.refinement_level == rows@[members@[0] as int / 2].refinement_level,
        summary.row.h == rows@[members@[0] as int / 2].h,
        summary.row.model == rows@[members@[0] as int / 2].model,
        summary.row.prior_branch == rows@[members@[0] as int / 2].prior_branch,
        summary.row.component_family@ == family_name(summary.family as int),
        summary.row.count == members.len(),
        summary.row.mean_model_variance == statistics.mean_variance,
        summary.row.median_model_variance == statistics.median_variance,
        summary.row.rms_relative_error == statistics.rms_error,
        summary.row.median_relative_error == statistics.median_error,
        summary.row.max_relative_error == extreme_or_infinity(
            relative_errors(rows@, members@),
            false,
        ),
{
    let errors = list_relative_errors(rows, members);
    let member: usize = members[0];
    assert(rows@[member as int / 2].component_index < 3);
    let first: &SpherePointwiseVarianceRow = &rows[member / 2];
    let family: usize = if member % 2 == 0 {
        first.component_index + 1
    } else {
        0
    };
    FamilySummary {
        family,
        row: SpherePointwiseSummaryRow {
            refinement_level: first.refinement_level,
            h: first.h,
            model: first.model,
            prior_branch: first.prior_branch,
            component_family: name_of_family(family),
            count: members.len(),
            mean_model_variance: statistics.mean_variance,
            median_model_variance: statistics.median_variance,
            rms_relative_error: statistics.rms_error,
            median_relative_error: statistics.median_error,
            max_relative_error: find_extreme(&errors, false),
        },
    }
}

/// The keys by which summaries are fitted: by model, branch and family.
pub open spec fn family_fit_keys(summaries: Seq<FamilySummary>) -> Seq<(usize, usize)> {
    summaries.map_values(
        |summary: FamilySummary|
            (
                0usize,
                family_code(summary.row.model, summary.row.prior_branch, summary.family as int),
            ),
    )
}

/// The mesh widths of summaries.
pub open spec fn family_widths(summaries: Seq<FamilySummary>) -> Seq<Scalar> {
    summaries.map_values(|summary: FamilySummary| summary.row.h)
}

/// Groups the summaries that are fitted together, in the order of model, branch and family, each
/// group by mesh width, finest first. One summary alone is not fitted.
pub fn pointwise_fit_groups(summaries: &Vec<FamilySummary>) -> (groups: Vec<IndexGroup>)
    requires
        are_families(summaries@),
        comparable(family_widths(summaries@)),
    ensures
        are_ordered_groups(
            family_fit_keys(summaries@),
            family_widths(summaries@).map_values(|width: Scalar| width.rank()),
            groups@,
        ),
{
    let mut keys: Vec<(usize, usize)> = Vec::new();
    let mut widths: Vec<Scalar> = Vec::new();
    let mut index: usize = 0;
    while index < summaries.len()
        invariant
            index <= summaries.len(),
            are_families(summaries@),
            keys@ == family_fit_keys(summaries@).take(index as int),
            widths@ == family_widths(summaries@).take(index as int),
        decreases summaries.len() - index,
    {
        let summary: &FamilySummary = &summaries[index];
        assert(summaries@[index as int].family < 4);
        keys.push((0, code_of(summary.row.model, summary.row.prior_branch, summary.family)));
        widths.push(summary.row.h);
        proof {
            let full = family_fit_keys(summaries@);
            let wide = family_widths(summaries@);
            assert(full.take(index + 1) =~= full.take(index as int).push(full[index as int]));
            assert(wide.take(index + 1) =~= wide.take(index as int).push(wide[index as int]));
        }
        index = index + 1;
    }
    assert(keys@ =~= family_fit_keys(summaries@));
    assert(widths@ =~= family_widths(summaries@));
    ordered_groups(&keys, &widths)
}

/// The names and expectations of the two rows of a fit.
pub open spec fn pointwise_fit_texts(slope: bool) -> (Seq<char>, Seq<char>) {
    if slope {
        (
            "loglog_slope_pointwise_rms_relative_error_vs_h"@,
            "positive if local ambient branch variance converges; may be slower than smooth observables"@,
        )
    } else {
        (
            "finest_pointwise_rms_relative_error"@,
            "small on the finest mesh, subject to local-field and analytic-truncation error"@,
        )
    }
}

/// Whether a row reports a value of a fit.
pub open spec fn reports_pointwise_fit(
    summary: FamilySummary,
    slope: bool,
    value: Scalar,
    row: SpherePointwiseFitSummaryRow,
) -> bool {
    &&& row.model == summary.row.model
    &&& row.prior_branch == summary.row.prior_branch
    &&& row.component_family@ == summary.row.component_family@
    &&& row.diagnostic@ == pointwise_fit_texts(slope).0
    &&& row.value == value
    &&& row.expected@ == pointwise_fit_texts(slope).1
    &&& row.status@ == "pointwise_local_field_diagnostic"@
}

fn pointwise_fit_row(summary: &FamilySummary, slope: bool, value: Scalar) -> (row:
    SpherePointwiseFitSummaryRow)
    ensures
        reports_pointwise_fit(*summary, slope, value, row),
{
    let (diagnostic, expected): (&str, &str) = if slope {
        (
            "loglog_slope_pointwise_rms_relative_error_vs_h",
            "positive if local ambient branch variance converges; may be slower than smooth observables",
        )
    } else {
        (
            "finest_pointwise_rms_relative_error",
            "small on the finest mesh, subject to local-field and analytic-truncation error",
        )
    };
    SpherePointwiseFitSummaryRow {
        model: summary.row.model,
        prior_branch: summary.row.prior_branch,
        component_family: summary.row.component_family,
        diagnostic: String::from_str(diagnostic),
        value,
        expected: String::from_str(expected),
        status: String::from_str("pointwise_local_field_diagnostic"),
    }
}

/// Makes the two rows of a fit: the slope of the errors over the mesh width, and the error on the
/// finest mesh, which is the first of the group.
pub fn pointwise_fit_summary_rows(
    summaries: &Vec<FamilySummary>,
    members: &Vec<usize>,
    slope: Scalar,
) -> (pair: Vec<SpherePointwiseFitSummaryRow>)
    requires
        members.len() > 0,
        members@[0] < summaries.len(),
    ensures
        pair.len() == 2,
        reports_pointwise_fit(summaries@[members@[0] as int], true, slope, pair@[0]),
        reports_pointwise_fit(
            summaries@[members@[0] as int],
            false,
            summaries@[members@[0] as int].row.rms_relative_error,
            pair@[1],
        ),
{
    let finest: &FamilySummary = &summaries[members[0]];
    let mut pair: Vec<SpherePointwiseFitSummaryRow> = Vec::new();
    pair.push(pointwise_fit_row(finest, true, slope));
    pair.push(pointwise_fit_row(finest, false, finest.row.rms_relative_error));
    pair
}

} // verus!
