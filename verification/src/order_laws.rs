//! What holds of the numbers that are picked out of lists: the percentile, the middle, the
//! extremes.

use crate::order::{
    extreme_or_infinity, finite_part, is_percentile, is_sorted_copy, lemma_filter_keeps_places,
    middle_places, percentile_place, running_extreme,
};
use crate::scalar::Scalar;
use vstd::prelude::*;

verus! {

/// The place of the percentile is the first that leaves 95 hundredths of the way from the first to
/// the last place behind it.
pub proof fn lemma_percentile_place(count: nat)
    requires
        count > 0,
    ensures
        percentile_place(count) < count,
        100 * percentile_place(count) >= 95 * (count - 1),
        100 * (percentile_place(count) - 1) < 95 * (count - 1),
{
}

/// As many places lie before the first of the middle places as behind the second, and the two are
/// the same or next to each other.
pub proof fn lemma_middle_places(count: nat)
    requires
        count > 0,
    ensures
        middle_places(count).0 == count - 1 - middle_places(count).1,
        middle_places(count).0 <= middle_places(count).1 <= middle_places(count).0 + 1,
{
}

/// The percentile is one of the finite values.
pub proof fn lemma_percentile_is_a_value(values: Seq<Scalar>, value: Scalar)
    requires
        is_percentile(values, value),
        finite_part(values).len() > 0,
    ensures
        values.contains(value),
        value.finite(),
{
    let finite = finite_part(values);
    let sorted = choose|sorted: Seq<Scalar>| #[trigger]
        is_sorted_copy(finite, sorted) && sorted.len() == finite.len() && value
            == sorted[percentile_place(finite.len()) as int];
    lemma_percentile_place(finite.len());
    broadcast use vstd::seq_lib::group_to_multiset_ensures;

    assert(sorted.contains(value));
    assert(sorted.to_multiset().count(value) > 0);
    assert(finite.to_multiset().count(value) > 0);
    assert(finite.contains(value));
    let keeps = |value: Scalar| value.finite();
    let places = lemma_filter_keeps_places(values, keeps);
    let i = choose|i: int| 0 <= i < finite.len() && finite[i] == value;
    assert(places.contains(places[i]));
    assert(values[places[i]] == value);
}

/// The extreme of the first numbers is one of them that is not NaN, and none of the others that
/// are not NaN lies beyond it; there is none if and only if all are NaN.
pub proof fn lemma_running_extreme(values: Seq<Scalar>, least: bool, count: int)
    requires
        0 <= count <= values.len(),
    ensures
        running_extreme(values, least, count) is None <==> forall|i: int|
            0 <= i < count ==> (#[trigger] values[i]).nan(),
        forall|extreme: Scalar|
            running_extreme(values, least, count) == Some(extreme) ==> !extreme.nan() && (exists|
                i: int,
            |
                0 <= i < count && #[trigger] values[i] == extreme) && forall|i: int|
                0 <= i < count && !(#[trigger] values[i]).nan() ==> if least {
                    extreme.le(values[i])
                } else {
                    values[i].le(extreme)
                },
    decreases count,
{
    if count > 0 {
        lemma_running_extreme(values, least, count - 1);
        let before = running_extreme(values, least, count - 1);
        let next = values[count - 1];
        if before is Some {
            let i = choose|i: int| 0 <= i < count - 1 && #[trigger] values[i] == before->0;
            assert(values[i] == before->0);
        } else {
            assert forall|i: int| 0 <= i < count - 1 implies (#[trigger] values[i]).nan() by {}
        }
        assert(values[count - 1] == next);
    }
}

/// The extreme of a list bounds all its numbers, and the least is not above the greatest. Of a list
/// without numbers the least is above the greatest.
pub proof fn lemma_extremes_bound(values: Seq<Scalar>)
    ensures
        forall|i: int|
            0 <= i < values.len() && !(#[trigger] values[i]).nan() ==> extreme_or_infinity(
                values,
                true,
            ).le(values[i]) && values[i].le(extreme_or_infinity(values, false)),
        (forall|i: int| 0 <= i < values.len() ==> (#[trigger] values[i]).nan())
            ==> extreme_or_infinity(values, false).lt(extreme_or_infinity(values, true)),
        (exists|i: int| 0 <= i < values.len() && !(#[trigger] values[i]).nan())
            ==> values.contains(extreme_or_infinity(values, true)) && values.contains(
            extreme_or_infinity(values, false),
        ),
{
    lemma_running_extreme(values, true, values.len() as int);
    lemma_running_extreme(values, false, values.len() as int);
}

} // verus!
