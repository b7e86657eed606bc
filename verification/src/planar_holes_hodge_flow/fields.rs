//! How fields are scaled, tested and compared.

use super::hole_cycles::{check_difference_shapes, shape_message, SignedMatrix};
use super::kinds::PlanarHolesTruthScaling;
use super::mesh::{edge_lookup, is_edge_between, MeshTopology};
use super::models::{one_form_mass_inverse_name, OneFormMassInverse};
use super::reports::{relative, relative_or_nan, undefined, NormRatio, UNDEFINED_BITS};
use super::rows::{
    canonical, combine_sensor_rows, combined_mass, combined_pairing, pairing, row_mass,
};
use crate::order::{comparable, is_sorted_copy, sorted_scalars};
use crate::scalar::Scalar;
use crate::text::{count_text, decimal};
use vstd::prelude::*;

verus! {

/// Whether a row is the difference of two rows: it reads of every field what the first reads less
/// what the second reads.
pub open spec fn is_row_difference(
    lhs: Seq<(usize, i64)>,
    rhs: Seq<(usize, i64)>,
    row: Seq<(usize, i64)>,
) -> bool {
    &&& canonical(row)
    &&& forall|field: spec_fn(int) -> int| #[trigger]
        pairing(row, field) == pairing(lhs, field) - pairing(rhs, field)
}

/// The sum of the absolute weights of a row.
pub open spec fn total_mass(row: Seq<(usize, i64)>) -> int {
    row_mass(row, row.len() as int)
}

/// Whether the differences of the rows of two matrices are numbers of the machine.
pub open spec fn differences_fit(lhs: SignedMatrix, rhs: SignedMatrix) -> bool {
    forall|r: int|
        0 <= r < lhs.rows.len() && r < rhs.rows.len() ==> total_mass((#[trigger] lhs.rows@[r])@)
            + total_mass(rhs.rows@[r]@) <= i64::MAX
}

/// Subtracts a matrix from another of the same shape, row by row.
pub fn difference_csr(lhs: &SignedMatrix, rhs: &SignedMatrix) -> (result: Result<
    SignedMatrix,
    String,
>)
    requires
        differences_fit(*lhs, *rhs),
    ensures
        match result {
            Ok(matrix) => {
                &&& lhs.rows.len() == rhs.rows.len()
                &&& lhs.column_count == rhs.column_count
                &&& matrix.rows.len() == lhs.rows.len()
                &&& matrix.column_count == lhs.column_count
                &&& forall|r: int|
                    0 <= r < matrix.rows.len() ==> is_row_difference(
                        lhs.rows@[r]@,
                        rhs.rows@[r]@,
                        (#[trigger] matrix.rows@[r])@,
                    )
            },
            Err(message) => {
                &&& lhs.rows.len() != rhs.rows.len() || lhs.column_count != rhs.column_count
                &&& message@ == shape_message(
                    (lhs.rows.len(), lhs.column_count),
                    (rhs.rows.len(), rhs.column_count),
                )
            },
        },
{
    match check_difference_shapes(
        (lhs.rows.len(), lhs.column_count),
        (rhs.rows.len(), rhs.column_count),
    ) {
        Err(message) => {
            return Err(message);
        },
        Ok(_) => {},
    }
    let mut rows: Vec<Vec<(usize, i64)>> = Vec::new();
    let mut index: usize = 0;
    while index < lhs.rows.len()
        invariant
            index <= lhs.rows.len(),
            lhs.rows.len() == rhs.rows.len(),
            differences_fit(*lhs, *rhs),
            rows.len() == index,
            forall|r: int|
                0 <= r < rows.len() ==> is_row_difference(
                    lhs.rows@[r]@,
                    rhs.rows@[r]@,
                    (#[trigger] rows@[r])@,
                ),
        decreases lhs.rows.len() - index,
    {
        let mut weighted: Vec<(&Vec<(usize, i64)>, i64)> = Vec::new();
        weighted.push((&lhs.rows[index], 1));
        weighted.push((&rhs.rows[index], -1));
        proof {
            reveal_with_fuel(combined_mass, 3);
            let (a, b) = (total_mass(lhs.rows@[index as int]@), total_mass(rhs.rows@[index as int]@));
            assert(1 * a == a && 1 * b == b);
            assert(combined_mass(weighted@, 2) == a + b);
        }
        let row = combine_sensor_rows(&weighted);
        proof {
            assert forall|field: spec_fn(int) -> int| #[trigger]
                pairing(row@, field) == pairing(lhs.rows@[index as int]@, field) - pairing(
                    rhs.rows@[index as int]@,
                    field,
                ) by {
                reveal_with_fuel(combined_pairing, 3);
                let (a, b) = (
                    pairing(lhs.rows@[index as int]@, field),
                    pairing(rhs.rows@[index as int]@, field),
                );
                assert(1 * a == a && (-1) * b == -b) by (nonlinear_arith);
                assert(combined_pairing(weighted@, 2, field) == a - b);
            }
        }
        rows.push(row);
        index = index + 1;
    }
    Ok(SignedMatrix { rows, column_count: lhs.column_count })
}

/// The double next to 0.000001, the largest leakage of a field without sources.
pub const LARGEST_LEAKAGE_BITS: u64 = 0x3eb0_c6f7_a0b5_ed8d;

/// Whether the leakage of a field is that of a field without sources.
pub open spec fn leaks_little(leakage: Scalar) -> bool {
    leakage.finite() && leakage.le(Scalar { bits: LARGEST_LEAKAGE_BITS })
}

/// The message for a field that leaks too much, where its leakage is given as a text.
pub open spec fn leakage_message(leakage: Seq<char>) -> Seq<char> {
    "exact-mass incompressible truth has codifferential leakage "@ + leakage
        + ", tolerance 1.000e-6"@
}

/// Tests that a field has no sources, given the norms of its codifferential and of itself.
pub fn validate_discrete_incompressible_truth(leakage: NormRatio, leakage_text: &str) -> (result:
    Result<(), String>)
    ensures
        match result {
            Ok(_) => leaks_little(leakage.value()),
            Err(message) => !leaks_little(leakage.value()) && message@ == leakage_message(
                leakage_text@,
            ),
        },
{
    let value: Scalar = relative_or_nan(leakage.ratio, leakage.truth);
    if value.is_finite() && value.at_most(Scalar { bits: LARGEST_LEAKAGE_BITS }) {
        return Ok(());
    }
    let mut message = String::from_str(
        "exact-mass incompressible truth has codifferential leakage ",
    );
    message.append(leakage_text);
    message.append(", tolerance 1.000e-6");
    Err(message)
}

/// What is done to a sampled field.
#[derive(Debug, Clone, Copy, PartialEq, Eq, Structural)]
pub enum FieldScaling {
    /// It is replaced by zero.
    Zero,
    /// It is scaled to a norm.
    ToNorm,
    /// It is kept.
    Keep,
}

/// Chooses what is done to a sampled branch of the truth, given the norm that it should have, or
/// says why it cannot be scaled.
pub fn scale_truth_branch(target_norm: Scalar, scaling: PlanarHolesTruthScaling, norm: Scalar) -> (result:
    Result<FieldScaling, String>)
    ensures
        match result {
            Ok(FieldScaling::Zero) => target_norm.rank() == 0,
            Ok(FieldScaling::ToNorm) => {
                &&& target_norm.rank() != 0
                &&& scaling == PlanarHolesTruthScaling::MassNormTargets
                &&& norm.positive()
            },
            Ok(FieldScaling::Keep) => {
                &&& target_norm.rank() != 0
                &&& scaling == PlanarHolesTruthScaling::RawPriorSamples
            },
            Err(message) => {
                &&& target_norm.rank() != 0
                &&& scaling == PlanarHolesTruthScaling::MassNormTargets
                &&& !norm.positive()
                &&& message@ == "cannot normalize a zero or non-finite field"@
            },
        },
{
    if target_norm.is_zero() {
        return Ok(FieldScaling::Zero);
    }
    match scaling {
        PlanarHolesTruthScaling::RawPriorSamples => Ok(FieldScaling::Keep),
        PlanarHolesTruthScaling::MassNormTargets => {
            if norm.is_positive() {
                Ok(FieldScaling::ToNorm)
            } else {
                Err(String::from_str("cannot normalize a zero or non-finite field"))
            }
        },
    }
}

/// The message for a pairing of cycles and harmonic fields that is not square.
pub open spec fn pairing_message(rows: nat, columns: nat) -> Seq<char> {
    "cycle-harmonic pairing must be square for canonicalization, got "@ + decimal(rows) + "x"@
        + decimal(columns)
}

/// Tests that a pairing of cycles and harmonic fields defines a basis: that it is square, and that
/// it has an inverse.
pub fn check_cycle_pairing(rows: usize, columns: usize, invertible: bool) -> (result: Result<
    (),
    String,
>)
    ensures
        match result {
            Ok(_) => rows == columns && invertible,
            Err(message) => if rows != columns {
                message@ == pairing_message(rows as nat, columns as nat)
            } else {
                !invertible && message@
                    == "cycle-harmonic pairing is singular and cannot define a canonical basis"@
            },
        },
{
    if rows != columns {
        let mut message = String::from_str(
            "cycle-harmonic pairing must be square for canonicalization, got ",
        );
        message.append(count_text(rows).as_str());
        message.append("x");
        message.append(count_text(columns).as_str());
        return Err(message);
    }
    if !invertible {
        return Err(
            String::from_str(
                "cycle-harmonic pairing is singular and cannot define a canonical basis",
            ),
        );
    }
    Ok(())
}

/// The sides of a triangle, in the order in which its corners are listed.
pub open spec fn side(cell: Seq<usize>, number: int) -> (usize, usize) {
    if number == 0 {
        (cell[0], cell[1])
    } else if number == 1 {
        (cell[1], cell[2])
    } else {
        (cell[2], cell[0])
    }
}

/// The number of sides whose edges are looked up: three of a triangle, none of another cell.
pub open spec fn side_count(topology: MeshTopology, cell: int) -> int {
    if topology.cells@[cell].len() == 3 {
        3
    } else {
        0
    }
}

/// Whether a side of a triangle is an edge of the mesh.
pub open spec fn has_side(topology: MeshTopology, cell: int, number: int) -> bool {
    exists|e: int|
        0 <= e < topology.edges.len() && #[trigger] is_edge_between(
            topology.edges@,
            e,
            side(topology.cells@[cell]@, number).0,
            side(topology.cells@[cell]@, number).1,
        )
}

/// Whether `edge` is the last edge along a side of a triangle.
pub open spec fn is_side_edge(topology: MeshTopology, cell: int, number: int, edge: int) -> bool {
    &&& 0 <= edge < topology.edges.len()
    &&& is_edge_between(
        topology.edges@,
        edge,
        side(topology.cells@[cell]@, number).0,
        side(topology.cells@[cell]@, number).1,
    )
    &&& forall|later: int|
        edge < later < topology.edges.len() ==> !#[trigger] is_edge_between(
            topology.edges@,
            later,
            side(topology.cells@[cell]@, number).0,
            side(topology.cells@[cell]@, number).1,
        )
}

/// The message for a side of a triangle that is no edge.
pub open spec fn side_message(a: nat, b: nat) -> Seq<char> {
    "triangle edge ("@ + decimal(a) + ","@ + decimal(b) + ") is missing"@
}

/// Whether the first side that is no edge is at the given place.
pub open spec fn first_missing_side(topology: MeshTopology, cell: int, number: int) -> bool {
    &&& 0 <= cell < topology.cells.len()
    &&& 0 <= number < side_count(topology, cell)
    &&& !has_side(topology, cell, number)
    &&& forall|c: int, n: int|
        0 <= c <= cell && 0 <= n < side_count(topology, c) && (c < cell || n < number)
            ==> #[trigger] has_side(topology, c, n)
}

/// Finds the edges along the sides of every triangle; other cells have none listed.
pub fn triangle_edges(topology: &MeshTopology) -> (result: Result<Vec<Vec<usize>>, String>)
    ensures
        match result {
            Ok(edges) => {
                &&& edges.len() == topology.cells.len()
                &&& forall|c: int|
                    #![trigger edges@[c]]
                    0 <= c < edges.len() ==> edges@[c].len() == side_count(*topology, c)
                &&& forall|c: int, n: int|
                    #![trigger edges@[c]@[n]]
                    0 <= c < edges.len() && 0 <= n < edges@[c].len() ==> is_side_edge(
                        *topology,
                        c,
                        n,
                        edges@[c]@[n] as int,
                    )
            },
            Err(message) => exists|c: int, n: int| #[trigger]
                first_missing_side(*topology, c, n) && message@ == side_message(
                    side(topology.cells@[c]@, n).0 as nat,
                    side(topology.cells@[c]@, n).1 as nat,
                ),
        },
{
    let mut edges: Vec<Vec<usize>> = Vec::new();
    let mut cell: usize = 0;
    while cell < topology.cells.len()
        invariant
            cell <= topology.cells.len(),
            edges.len() == cell,
            forall|c: int|
                #![trigger edges@[c]]
                0 <= c < cell ==> edges@[c].len() == side_count(*topology, c),
            forall|c: int, n: int|
                #![trigger edges@[c]@[n]]
                0 <= c < cell && 0 <= n < edges@[c].len() ==> is_side_edge(
                    *topology,
                    c,
                    n,
                    edges@[c]@[n] as int,
                ),
            forall|c: int, n: int|
                0 <= c < cell && 0 <= n < side_count(*topology, c) ==> #[trigger] has_side(
                    *topology,
                    c,
                    n,
                ),
        decreases topology.cells.len() - cell,
    {
        let corners: &Vec<usize> = &topology.cells[cell];
        let count: usize = if corners.len() == 3 {
            3
        } else {
            0
        };
        let mut sides: Vec<usize> = Vec::new();
        let mut number: usize = 0;
        while number < count
            invariant
                number <= count,
                count == side_count(*topology, cell as int),
                cell < topology.cells.len(),
                corners@ == topology.cells@[cell as int]@,
                corners.len() == topology.cells@[cell as int].len(),
                sides.len() == number,
                forall|n: int|
                    0 <= n < number ==> is_side_edge(
                        *topology,
                        cell as int,
                        n,
                        #[trigger] sides@[n] as int,
                    ),
                forall|n: int|
                    0 <= n < number ==> #[trigger] has_side(*topology, cell as int, n),
                forall|c: int, n: int|
                    0 <= c < cell && 0 <= n < side_count(*topology, c) ==> #[trigger] has_side(
                        *topology,
                        c,
                        n,
                    ),
            decreases count - number,
        {
            let ends: (usize, usize) = if number == 0 {
                (corners[0], corners[1])
            } else if number == 1 {
                (corners[1], corners[2])
            } else {
                (corners[2], corners[0])
            };
            match edge_lookup(topology, ends.0, ends.1) {
                Some(found) => {
                    proof {
                        let wanted = side(topology.cells@[cell as int]@, number as int);
                        assert(ends == wanted);
                        assert(is_edge_between(
                            topology.edges@,
                            found.0 as int,
                            wanted.0,
                            wanted.1,
                        ));
                        assert(has_side(*topology, cell as int, number as int));
                        assert(is_side_edge(
                            *topology,
                            cell as int,
                            number as int,
                            found.0 as int,
                        ));
                    }
                    sides.push(found.0);
                },
                None => {
                    let mut message = String::from_str("triangle edge (");
                    message.append(count_text(ends.0).as_str());
                    message.append(",");
                    message.append(count_text(ends.1).as_str());
                    message.append(") is missing");
                    assert(!has_side(*topology, cell as int, number as int));
                    assert(first_missing_side(*topology, cell as int, number as int));
                    return Err(message);
                },
            }
            number = number + 1;
        }
        edges.push(sides);
        cell = cell + 1;
    }
    Ok(edges)
}

/// The numbers that are finite and above a threshold.
pub open spec fn above_part(values: Seq<Scalar>, least: Scalar) -> Seq<Scalar> {
    values.filter(|value: Scalar| value.finite() && least.lt(value))
}

/// Lists the eigenvalues above a threshold, in increasing order.
pub fn positive_eigenvalues(values: &Vec<Scalar>, least: Scalar) -> (kept: Vec<Scalar>)
    ensures
        is_sorted_copy(above_part(values@, least), kept@),
{
    let ghost above = |value: Scalar| value.finite() && least.lt(value);
    let mut part: Vec<Scalar> = Vec::new();
    let mut index: usize = 0;
    proof {
        reveal(Seq::filter);
        assert(values@.take(0).filter(above) =~= Seq::empty());
    }
    while index < values.len()
        invariant
            index <= values.len(),
            above == (|value: Scalar| value.finite() && least.lt(value)),
            comparable(part@),
            part@ == values@.take(index as int).filter(above),
        decreases values.len() - index,
    {
        let value: Scalar = values[index];
        proof {
            reveal(Seq::filter);
            assert(values@.take(index + 1).drop_last() =~= values@.take(index as int));
            assert(values@.take(index + 1).last() == value);
        }
        if value.is_finite() && least.less_than(value) {
            part.push(value);
        }
        index = index + 1;
    }
    assert(values@.take(index as int) =~= values@);
    sorted_scalars(&part)
}

/// The double next to 0.000000000001, the largest eigenvalue of a covariance that counts as zero.
pub const ZERO_EIGENVALUE_BITS: u64 = 0x3d71_9799_812d_ea11;

/// Whether the number, the least and the greatest of the positive eigenvalues are given; there is
/// no least and no greatest where there is none.
pub open spec fn are_extremes(values: Seq<Scalar>, extremes: (usize, Scalar, Scalar)) -> bool {
    let part = above_part(values, Scalar { bits: ZERO_EIGENVALUE_BITS });
    &&& extremes.0 == part.len()
    &&& if part.len() == 0 {
        extremes.1 == undefined() && extremes.2 == undefined()
    } else {
        exists|sorted: Seq<Scalar>| #[trigger]
            is_sorted_copy(part, sorted) && extremes.1 == sorted[0] && extremes.2
                == sorted[sorted.len() - 1]
    }
}

/// Counts the positive eigenvalues of a covariance, and finds the least and the greatest.
pub fn eigen_extremes(values: &Vec<Scalar>) -> (extremes: (usize, Scalar, Scalar))
    ensures
        are_extremes(values@, extremes),
{
    let sorted = positive_eigenvalues(values, Scalar { bits: ZERO_EIGENVALUE_BITS });
    proof {
        let part = above_part(values@, Scalar { bits: ZERO_EIGENVALUE_BITS });
        part.to_multiset_ensures();
        sorted@.to_multiset_ensures();
        assert(sorted.len() == part.len());
    }
    if sorted.len() == 0 {
        return (0, Scalar { bits: UNDEFINED_BITS }, Scalar { bits: UNDEFINED_BITS });
    }
    (sorted.len(), sorted[0], sorted[sorted.len() - 1])
}

/// How a sparse transform of the coexact branch compares with the exact one.
#[derive(Debug)]
pub struct PlanarHolesCoexactTransformDiagnostics {
    pub sparse_inverse: String,
    pub vertex_count: usize,
    pub edge_count: usize,
    pub face_count: usize,
    pub sparse_coexact_m1_operator_norm: Scalar,
    pub exact_mass_coexact_m1_operator_norm: Scalar,
    pub sparse_coexact_codifferential_leakage: Scalar,
    pub exact_mass_coexact_codifferential_leakage: Scalar,
    pub sparse_exact_branch_mass_orthogonality: Scalar,
    pub exact_mass_exact_branch_mass_orthogonality: Scalar,
    pub sparse_vs_exact_mass_transform_relative_m1_error: Scalar,
    pub sparse_coexact_rank: usize,
    pub exact_mass_coexact_rank: usize,
    pub principal_cosine_min: Scalar,
    pub principal_cosine_mean: Scalar,
    pub principal_angle_max_degrees: Scalar,
}

/// The norms of two transforms, and what is measured of them.
#[derive(Debug, Clone, Copy, PartialEq, Eq, Structural)]
pub struct TransformNorms {
    pub sparse_norm: Scalar,
    pub exact_norm: Scalar,
    /// The norms of the codifferentials divided by those of the transforms.
    pub sparse_leakage_ratio: Scalar,
    pub exact_leakage_ratio: Scalar,
    pub sparse_orthogonality: Scalar,
    pub exact_orthogonality: Scalar,
    /// The norm of the difference divided by that of the exact transform.
    pub difference_ratio: Scalar,
    pub sparse_rank: usize,
    pub exact_rank: usize,
    pub cosine_min: Scalar,
    pub cosine_mean: Scalar,
    pub angle_max_degrees: Scalar,
}

/// Reports how a sparse transform of the coexact branch compares with the exact one.
pub fn coexact_transform_diagnostics(
    topology: &MeshTopology,
    strategy: OneFormMassInverse,
    norms: TransformNorms,
) -> (report: PlanarHolesCoexactTransformDiagnostics)
    ensures
        report.sparse_inverse@ == strategy.name(),
        report.vertex_count == topology.vertex_count,
        report.edge_count == topology.edges.len(),
        report.face_count == topology.cells.len(),
        report.sparse_coexact_m1_operator_norm == norms.sparse_norm,
        report.exact_mass_coexact_m1_operator_norm == norms.exact_norm,
        report.sparse_coexact_codifferential_leakage == relative(
            norms.sparse_leakage_ratio,
            norms.sparse_norm,
        ),
        report.exact_mass_coexact_codifferential_leakage == relative(
            norms.exact_leakage_ratio,
            norms.exact_norm,
        ),
        report.sparse_exact_branch_mass_orthogonality == norms.sparse_orthogonality,
        report.exact_mass_exact_branch_mass_orthogonality == norms.exact_orthogonality,
        report.sparse_vs_exact_mass_transform_relative_m1_error == relative(
            norms.difference_ratio,
            norms.exact_norm,
        ),
        report.sparse_coexact_rank == norms.sparse_rank,
        report.exact_mass_coexact_rank == norms.exact_rank,
        report.principal_cosine_min == norms.cosine_min,
        report.principal_cosine_mean == norms.cosine_mean,
        report.principal_angle_max_degrees == norms.angle_max_degrees,
{
    PlanarHolesCoexactTransformDiagnostics {
        sparse_inverse: String::from_str(one_form_mass_inverse_name(strategy)),
        vertex_count: topology.vertex_count,
        edge_count: topology.edges.len(),
        face_count: topology.cells.len(),
        sparse_coexact_m1_operator_norm: norms.sparse_norm,
        exact_mass_coexact_m1_operator_norm: norms.exact_norm,
        sparse_coexact_codifferential_leakage: relative_or_nan(
            norms.sparse_leakage_ratio,
            norms.sparse_norm,
        ),
        exact_mass_coexact_codifferential_leakage: relative_or_nan(
            norms.exact_leakage_ratio,
            norms.exact_norm,
        ),
        sparse_exact_branch_mass_orthogonality: norms.sparse_orthogonality,
        exact_mass_exact_branch_mass_orthogonality: norms.exact_orthogonality,
        sparse_vs_exact_mass_transform_relative_m1_error: relative_or_nan(
            norms.difference_ratio,
            norms.exact_norm,
        ),
        sparse_coexact_rank: norms.sparse_rank,
        exact_mass_coexact_rank: norms.exact_rank,
        principal_cosine_min: norms.cosine_min,
        principal_cosine_mean: norms.cosine_mean,
        principal_angle_max_degrees: norms.angle_max_degrees,
    }
}

} // verus!
