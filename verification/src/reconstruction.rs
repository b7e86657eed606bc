//! Rows that read a field off the edges of a mesh.

use crate::scalar::{Scalar, SIGN_BIT};
use vstd::prelude::*;

verus! {

/// An edge with the weight of its value.
#[derive(Debug, Clone, Copy, PartialEq, Eq, Structural)]
pub struct WeightedEntry {
    pub column: usize,
    pub weight: Scalar,
}

/// How the components of a field at the barycenters of the cells are read off the edges: a row
/// for every component and every cell.
#[derive(Debug)]
pub struct BarycenterReconstruction {
    pub components: Vec<Vec<Vec<WeightedEntry>>>,
}

impl BarycenterReconstruction {
    /// Whether every component has a row for the cell.
    pub open spec fn covers(self, cell: int) -> bool {
        forall|c: int|
            0 <= c < self.components.len() ==> cell < (#[trigger] self.components@[c]).len()
    }

    /// The row of a component at a cell.
    pub open spec fn row_at(self, component: int, cell: int) -> Seq<WeightedEntry> {
        self.components@[component]@[cell]@
    }
}

/// Copies a row.
pub fn copy_row(row: &Vec<WeightedEntry>) -> (copy: Vec<WeightedEntry>)
    ensures
        copy@ == row@,
{
    let mut copy: Vec<WeightedEntry> = Vec::new();
    let mut index: usize = 0;
    while index < row.len()
        invariant
            index <= row.len(),
            copy@ == row@.take(index as int),
        decreases row.len() - index,
    {
        copy.push(row[index]);
        assert(row@.take(index + 1) =~= row@.take(index as int).push(row@[index as int]));
        index = index + 1;
    }
    assert(row@.take(index as int) =~= row@);
    copy
}

/// Whether a number is farther from zero than a tolerance.
pub open spec fn exceeds(value: Scalar, tolerance: Scalar) -> bool {
    !value.nan() && !tolerance.nan() && value.magnitude() > tolerance.rank()
}

fn is_beyond(value: Scalar, tolerance: Scalar) -> (yes: bool)
    ensures
        yes == exceeds(value, tolerance),
{
    let bits: u64 = if value.bits < SIGN_BIT {
        value.bits
    } else {
        value.bits - SIGN_BIT
    };
    tolerance.less_than(Scalar { bits })
}

/// The entries of the first `count` numbers that are farther from zero than a tolerance.
pub open spec fn kept_entries(values: Seq<Scalar>, tolerance: Scalar, count: int) -> Seq<
    WeightedEntry,
>
    decreases count,
{
    if count <= 0 {
        Seq::empty()
    } else {
        let before = kept_entries(values, tolerance, count - 1);
        if exceeds(values[count - 1], tolerance) {
            before.push(
                WeightedEntry { column: (count - 1) as usize, weight: values[count - 1] },
            )
        } else {
            before
        }
    }
}

/// Makes a row of the numbers that are farther from zero than a tolerance.
pub fn vector_to_sparse_row(values: &Vec<Scalar>, tolerance: Scalar) -> (row: Vec<WeightedEntry>)
    ensures
        row@ == kept_entries(values@, tolerance, values.len() as int),
{
    let mut row: Vec<WeightedEntry> = Vec::new();
    let mut index: usize = 0;
    while index < values.len()
        invariant
            index <= values.len(),
            row@ == kept_entries(values@, tolerance, index as int),
        decreases values.len() - index,
    {
        if is_beyond(values[index], tolerance) {
            row.push(WeightedEntry { column: index, weight: values[index] });
        }
        index = index + 1;
    }
    row
}

/// A row keeps exactly the numbers that are farther from zero than the tolerance, each in its
/// column, in the order of the columns.
pub proof fn lemma_kept_entries(values: Seq<Scalar>, tolerance: Scalar, count: int)
    requires
        0 <= count <= values.len() <= usize::MAX,
    ensures
        forall|e: int|
            0 <= e < kept_entries(values, tolerance, count).len() ==> {
                let entry = #[trigger] kept_entries(values, tolerance, count)[e];
                &&& entry.column < count
                &&& entry.weight == values[entry.column as int]
                &&& exceeds(entry.weight, tolerance)
            },
        forall|i: int|
            0 <= i < count && exceeds(#[trigger] values[i], tolerance) ==> kept_entries(
                values,
                tolerance,
                count,
            ).contains(WeightedEntry { column: i as usize, weight: values[i] }),
        forall|a: int, b: int|
            0 <= a < b < kept_entries(values, tolerance, count).len() ==> (
            #[trigger] kept_entries(values, tolerance, count)[a]).column < (
            #[trigger] kept_entries(values, tolerance, count)[b]).column,
    decreases count,
{
    if count > 0 {
        lemma_kept_entries(values, tolerance, count - 1);
        let before = kept_entries(values, tolerance, count - 1);
        let after = kept_entries(values, tolerance, count);
        assert forall|i: int|
            0 <= i < count && exceeds(#[trigger] values[i], tolerance) implies after.contains(
            WeightedEntry { column: i as usize, weight: values[i] },
        ) by {
            let entry = WeightedEntry { column: i as usize, weight: values[i] };
            if i < count - 1 {
                assert(before.contains(entry));
                let e = choose|e: int| 0 <= e < before.len() && before[e] == entry;
                assert(after[e] == entry);
            } else {
                assert(after.last() == entry);
            }
        }
    }
}

} // verus!
