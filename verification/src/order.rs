//! Sorting scalars, and what is read off the sorted list.

use crate::scalar::Scalar;
use vstd::multiset::Multiset;
use vstd::prelude::*;

verus! {

/// Whether the numbers never fall.
pub open spec fn nondecreasing(values: Seq<Scalar>) -> bool {
    forall|i: int, j: int|
        0 <= i < j < values.len() ==> (#[trigger] values[i]).rank() <= (#[trigger] values[j]).rank()
}

/// Whether none of the numbers is NaN.
pub open spec fn comparable(values: Seq<Scalar>) -> bool {
    forall|i: int| 0 <= i < values.len() ==> !(#[trigger] values[i]).nan()
}

/// Whether `sorted` holds the values in nondecreasing order.
pub open spec fn is_sorted_copy(values: Seq<Scalar>, sorted: Seq<Scalar>) -> bool {
    nondecreasing(sorted) && sorted.to_multiset() == values.to_multiset()
}

fn insert_sorted(sorted: &mut Vec<Scalar>, value: Scalar)
    requires
        nondecreasing(old(sorted)@),
        comparable(old(sorted)@),
        !value.nan(),
    ensures
        nondecreasing(final(sorted)@),
        comparable(final(sorted)@),
        final(sorted)@.len() == old(sorted)@.len() + 1,
        final(sorted)@.to_multiset() == old(sorted)@.to_multiset().insert(value),
{
    let mut place: usize = sorted.len();
    while place > 0 && value.less_than(sorted[place - 1])
        invariant
            place <= sorted.len(),
            nondecreasing(sorted@),
            comparable(sorted@),
            !value.nan(),
            forall|i: int|
                place <= i < sorted.len() ==> value.rank() < (#[trigger] sorted@[i]).rank(),
        decreases place,
    {
        place = place - 1;
    }
    let ghost before = sorted@;
    sorted.insert(place, value);
    proof {
        let after = sorted@;
        assert(after == before.insert(place as int, value));
        before.insert_ensures(place as int, value);
        before.to_multiset_ensures();
        vstd::seq_lib::to_multiset_insert(before, place as int, value);
        assert forall|i: int, j: int| 0 <= i < j < after.len() implies (#[trigger] after[i]).rank()
            <= (#[trigger] after[j]).rank() by {
            if j < place {
                assert(after[i] == before[i] && after[j] == before[j]);
            } else if j == place {
                assert(after[i] == before[i]);
                if i < place - 1 {
                    assert(before[i].rank() <= before[place - 1].rank());
                }
            } else {
                assert(after[j] == before[j - 1]);
                if i < place {
                    assert(after[i] == before[i]);
                } else if i > place {
                    assert(after[i] == before[i - 1]);
                }
            }
        }
        assert forall|i: int| 0 <= i < after.len() implies !(#[trigger] after[i]).nan() by {
            if i < place {
                assert(after[i] == before[i]);
            } else if i > place {
                assert(after[i] == before[i - 1]);
            }
        }
    }
}

/// Sorts numbers, none of which is NaN.
pub fn sorted_scalars(values: &Vec<Scalar>) -> (sorted: Vec<Scalar>)
    requires
        comparable(values@),
    ensures
        is_sorted_copy(values@, sorted@),
        comparable(sorted@),
        sorted.len() == values.len(),
{
    let mut sorted: Vec<Scalar> = Vec::new();
    let mut index: usize = 0;
    assert(values@.take(0) =~= sorted@);
    while index < values.len()
        invariant
            comparable(values@),
            index <= values.len(),
            nondecreasing(sorted@),
            comparable(sorted@),
            sorted.len() == index,
            sorted@.to_multiset() == values@.take(index as int).to_multiset(),
        decreases values.len() - index,
    {
        let value: Scalar = values[index];
        insert_sorted(&mut sorted, value);
        proof {
            assert(values@.take(index + 1) =~= values@.take(index as int).push(value));
            values@.take(index as int).to_multiset_ensures();
        }
        index = index + 1;
    }
    assert(values@.take(index as int) =~= values@);
    sorted
}

/// Two sorted copies of the same numbers agree in every place, up to the sign of zero.
pub proof fn lemma_sorted_copy_unique(values: Seq<Scalar>, left: Seq<Scalar>, right: Seq<Scalar>)
    requires
        is_sorted_copy(values, left),
        is_sorted_copy(values, right),
    ensures
        left.len() == right.len(),
        forall|i: int| 0 <= i < left.len() ==> (#[trigger] left[i]).rank() == right[i].rank(),
{
    lemma_same_ranks(left, right);
}

proof fn lemma_same_ranks(left: Seq<Scalar>, right: Seq<Scalar>)
    requires
        nondecreasing(left),
        nondecreasing(right),
        left.to_multiset() == right.to_multiset(),
    ensures
        left.len() == right.len(),
        forall|i: int| 0 <= i < left.len() ==> (#[trigger] left[i]).rank() == right[i].rank(),
{
    left.to_multiset_ensures();
    right.to_multiset_ensures();
    assert forall|i: int| 0 <= i < left.len() implies (#[trigger] left[i]).rank()
        == right[i].rank() by {
        lemma_rank_bound(left, right, i);
        lemma_rank_bound(right, left, i);
    }
}

/// The items of a sequence that are ranked at most `bound`.
spec fn low(values: Seq<Scalar>, bound: int) -> Multiset<Scalar> {
    values.to_multiset().filter(|value: Scalar| value.rank() <= bound)
}

/// In a sorted copy, a place does not hold more than the same place of another one.
proof fn lemma_rank_bound(left: Seq<Scalar>, right: Seq<Scalar>, place: int)
    requires
        nondecreasing(left),
        nondecreasing(right),
        left.to_multiset() == right.to_multiset(),
        left.len() == right.len(),
        0 <= place < left.len(),
    ensures
        left[place].rank() <= right[place].rank(),
{
    if left[place].rank() > right[place].rank() {
        let bound = right[place].rank();
        lemma_low_count(right, bound);
        lemma_low_count(left, bound);
        lemma_low_prefix(right, bound, place);
        lemma_low_suffix(left, bound, place);
    }
}

/// The number of items that are ranked at most `bound`.
spec fn low_count(values: Seq<Scalar>, bound: int) -> nat
    decreases values.len(),
{
    if values.len() == 0 {
        0
    } else {
        low_count(values.drop_last(), bound) + if values.last().rank() <= bound {
            1nat
        } else {
            0nat
        }
    }
}

proof fn lemma_low_count(values: Seq<Scalar>, bound: int)
    ensures
        low_count(values, bound) == low(values, bound).len(),
    decreases values.len(),
{
    let keeps = |value: Scalar| value.rank() <= bound;
    values.to_multiset_ensures();
    if values.len() == 0 {
        assert(values =~= Seq::empty());
        assert(low(values, bound) =~= Multiset::empty());
    } else {
        let rest = values.drop_last();
        let last = values.last();
        lemma_low_count(rest, bound);
        assert(values =~= rest.push(last));
        rest.to_multiset_ensures();
        assert(values.to_multiset() =~= rest.to_multiset().insert(last));
        if last.rank() <= bound {
            assert(low(values, bound) =~= low(rest, bound).insert(last));
        } else {
            assert(low(values, bound) =~= low(rest, bound));
        }
    }
}

proof fn lemma_low_prefix(values: Seq<Scalar>, bound: int, place: int)
    requires
        nondecreasing(values),
        0 <= place < values.len(),
        values[place].rank() <= bound,
    ensures
        low_count(values, bound) >= place + 1,
    decreases values.len(),
{
    let rest = values.drop_last();
    if place < rest.len() {
        assert(rest[place] == values[place]);
        assert(nondecreasing(rest)) by {
            assert forall|i: int, j: int| 0 <= i < j < rest.len() implies (
            #[trigger] rest[i]).rank() <= (#[trigger] rest[j]).rank() by {
                assert(values[i].rank() <= values[j].rank());
            }
        }
        lemma_low_prefix(rest, bound, place);
    } else if place > 0 {
        assert(nondecreasing(rest)) by {
            assert forall|i: int, j: int| 0 <= i < j < rest.len() implies (
            #[trigger] rest[i]).rank() <= (#[trigger] rest[j]).rank() by {
                assert(values[i].rank() <= values[j].rank());
            }
        }
        assert(values[place - 1].rank() <= values[place].rank());
        assert(rest[place - 1] == values[place - 1]);
        lemma_low_prefix(rest, bound, place - 1);
    }
}

proof fn lemma_low_suffix(values: Seq<Scalar>, bound: int, place: int)
    requires
        nondecreasing(values),
        0 <= place < values.len(),
        values[place].rank() > bound,
    ensures
        low_count(values, bound) <= place,
    decreases values.len(),
{
    let rest = values.drop_last();
    assert(nondecreasing(rest)) by {
        assert forall|i: int, j: int| 0 <= i < j < rest.len() implies (#[trigger] rest[i]).rank()
            <= (#[trigger] rest[j]).rank() by {
            assert(values[i].rank() <= values[j].rank());
        }
    }
    if place < rest.len() {
        assert(rest[place] == values[place]);
        lemma_low_suffix(rest, bound, place);
        assert(values[place].rank() <= values[values.len() - 1].rank());
    } else {
        lemma_low_at_most(rest, bound);
    }
}

proof fn lemma_low_at_most(values: Seq<Scalar>, bound: int)
    ensures
        low_count(values, bound) <= values.len(),
    decreases values.len(),
{
    if values.len() > 0 {
        lemma_low_at_most(values.drop_last(), bound);
    }
}

/// The finite numbers of a list, in their order.
pub open spec fn finite_part(values: Seq<Scalar>) -> Seq<Scalar> {
    values.filter(|value: Scalar| value.finite())
}

/// Lists the finite numbers of a list, in their order.
pub fn finite_scalars(values: &Vec<Scalar>) -> (kept: Vec<Scalar>)
    ensures
        kept@ == finite_part(values@),
        forall|i: int| 0 <= i < kept.len() ==> (#[trigger] kept@[i]).finite(),
{
    let mut kept: Vec<Scalar> = Vec::new();
    let mut index: usize = 0;
    let ghost keeps = |value: Scalar| value.finite();
    proof {
        reveal(Seq::filter);
        assert(values@.take(0).filter(keeps) =~= Seq::empty());
    }
    while index < values.len()
        invariant
            index <= values.len(),
            keeps == (|value: Scalar| value.finite()),
            kept@ == values@.take(index as int).filter(keeps),
            forall|i: int| 0 <= i < kept.len() ==> (#[trigger] kept@[i]).finite(),
        decreases values.len() - index,
    {
        proof {
            reveal(Seq::filter);
            assert(values@.take(index + 1).drop_last() =~= values@.take(index as int));
        }
        if values[index].is_finite() {
            kept.push(values[index]);
        }
        index = index + 1;
    }
    assert(values@.take(index as int) =~= values@);
    kept
}

/// The place of the 95th percentile in a sorted list: 95 hundredths of the way from the first to
/// the last place, rounded up.
pub open spec fn percentile_place(count: nat) -> nat
    recommends
        count > 0,
{
    ((95 * (count - 1) + 99) / 100) as nat
}

/// Whether `value` stands at the 95th percentile of the finite values.
pub open spec fn is_percentile(values: Seq<Scalar>, value: Scalar) -> bool {
    let finite = finite_part(values);
    exists|sorted: Seq<Scalar>| #[trigger]
        is_sorted_copy(finite, sorted) && sorted.len() == finite.len() && value
            == sorted[percentile_place(finite.len()) as int]
}

/// Finds the 95th percentile of the finite values.
pub fn percentile_95(values: &Vec<Scalar>) -> (value: Option<Scalar>)
    ensures
        value is None <==> finite_part(values@).len() == 0,
        value is Some ==> is_percentile(values@, value->Some_0),
{
    let finite = finite_scalars(values);
    if finite.len() == 0 {
        return None;
    }
    assert(comparable(finite@)) by {
        assert forall|i: int| 0 <= i < finite.len() implies !(#[trigger] finite@[i]).nan() by {
            assert(finite@[i].finite());
        }
    }
    let sorted = sorted_scalars(&finite);
    let gaps: u128 = (sorted.len() - 1) as u128;
    let place: usize = ((95 * gaps + 99) / 100) as usize;
    assert(place < sorted.len());
    Some(sorted[place])
}

/// The two middle places of a sorted list; they are the same where the length is odd.
pub open spec fn middle_places(count: nat) -> (nat, nat)
    recommends
        count > 0,
{
    if count % 2 == 1 {
        (count / 2, count / 2)
    } else {
        ((count / 2 - 1) as nat, count / 2)
    }
}

/// Whether the pair holds the middle numbers of the values.
pub open spec fn are_middle(values: Seq<Scalar>, pair: (Scalar, Scalar)) -> bool {
    exists|sorted: Seq<Scalar>| #[trigger]
        is_sorted_copy(values, sorted) && sorted.len() == values.len() && pair.0
            == sorted[middle_places(values.len()).0 as int] && pair.1 == sorted[middle_places(
            values.len(),
        ).1 as int]
}

/// Finds the two middle numbers of a list; the median is the mean of the two.
pub fn middle_values(values: &Vec<Scalar>) -> (pair: Option<(Scalar, Scalar)>)
    requires
        comparable(values@),
    ensures
        pair is None <==> values.len() == 0,
        pair is Some ==> are_middle(values@, pair->Some_0),
{
    if values.len() == 0 {
        return None;
    }
    let sorted = sorted_scalars(values);
    let middle: usize = sorted.len() / 2;
    if sorted.len() % 2 == 1 {
        Some((sorted[middle], sorted[middle]))
    } else {
        Some((sorted[middle - 1], sorted[middle]))
    }
}

/// The place that a search for the least of the first `count` numbers ends up with: it moves on
/// to a number unless the one that it holds is at most as large.
pub open spec fn running_least(values: Seq<Scalar>, count: int) -> Option<int>
    decreases count,
{
    if count <= 0 {
        None
    } else {
        match running_least(values, count - 1) {
            Some(held) => if values[held].le(values[count - 1]) {
                Some(held)
            } else {
                Some(count - 1)
            },
            None => Some(count - 1),
        }
    }
}

/// Searches for the least number of a list.
pub fn least_place(values: &Vec<Scalar>) -> (place: Option<usize>)
    ensures
        place is None <==> values.len() == 0,
        match place {
            Some(found) => running_least(values@, values.len() as int) == Some(found as int)
                && found < values.len(),
            None => true,
        },
        comparable(values@) && place is Some ==> is_first_least(
            values@,
            place->Some_0 as int,
        ),
{
    let mut held: Option<usize> = None;
    let mut index: usize = 0;
    while index < values.len()
        invariant
            index <= values.len(),
            held is None <==> index == 0,
            match held {
                Some(found) => running_least(values@, index as int) == Some(found as int) && found
                    < index,
                None => running_least(values@, index as int) is None,
            },
        decreases values.len() - index,
    {
        match held {
            Some(found) => {
                if !values[found].at_most(values[index]) {
                    held = Some(index);
                }
            },
            None => {
                held = Some(index);
            },
        }
        index = index + 1;
    }
    proof {
        if comparable(values@) && values.len() > 0 {
            lemma_running_least(values@, values.len() as int);
        }
    }
    held
}

/// Whether the number at a place is below all before it and not above any after it.
pub open spec fn is_first_least(values: Seq<Scalar>, place: int) -> bool {
    &&& 0 <= place < values.len()
    &&& forall|i: int| 0 <= i < place ==> values[place].rank() < (#[trigger] values[i]).rank()
    &&& forall|i: int|
        place <= i < values.len() ==> values[place].rank() <= (#[trigger] values[i]).rank()
}

/// Among numbers that are not NaN the search finds the first of the least.
proof fn lemma_running_least(values: Seq<Scalar>, count: int)
    requires
        comparable(values),
        1 <= count <= values.len(),
    ensures
        running_least(values, count) is Some,
        is_first_least(values.take(count), running_least(values, count)->Some_0),
        count == values.len() ==> is_first_least(values, running_least(values, count)->Some_0),
    decreases count,
{
    let longer = values.take(count);
    assert(!values[count - 1].nan());
    if count > 1 {
        lemma_running_least(values, count - 1);
        let shorter = values.take(count - 1);
        let held = running_least(values, count - 1)->Some_0;
        assert(shorter[held] == values[held]);
        assert(!values[held].nan());
        assert forall|i: int| 0 <= i < count - 1 implies shorter[i] == #[trigger] longer[i] by {}
        assert forall|i: int| 0 <= i < count - 1 implies values[held].rank()
            <= (#[trigger] longer[i]).rank() by {
            assert(shorter[i] == longer[i]);
            if i < held {
                assert(shorter[held].rank() < shorter[i].rank());
            }
        }
        assert(longer[count - 1] == values[count - 1]);
        assert(longer[held] == values[held]);
        if values[held].le(values[count - 1]) {
            assert forall|i: int| 0 <= i < held implies longer[held].rank() < (
            #[trigger] longer[i]).rank() by {
                assert(shorter[i] == longer[i]);
            }
        }
    } else {
        assert(longer.len() == 1);
    }
    assert(count == values.len() ==> longer =~= values);
}

/// The least or the greatest of numbers, found by going through them; NaN is passed over.
pub open spec fn running_extreme(values: Seq<Scalar>, least: bool, count: int) -> Option<Scalar>
    decreases count,
{
    if count <= 0 {
        None
    } else {
        let next = values[count - 1];
        match running_extreme(values, least, count - 1) {
            Some(held) => if next.nan() || (least && held.le(next)) || (!least && next.le(held)) {
                Some(held)
            } else {
                Some(next)
            },
            None => if next.nan() {
                None
            } else {
                Some(next)
            },
        }
    }
}

/// Finds the least or the greatest number that is not NaN.
pub fn extreme_value(values: &Vec<Scalar>, least: bool) -> (extreme: Option<Scalar>)
    ensures
        extreme == running_extreme(values@, least, values.len() as int),
        extreme is Some ==> !extreme->Some_0.nan() && values@.contains(extreme->Some_0),
        forall|i: int|
            0 <= i < values.len() && !(#[trigger] values@[i]).nan() ==> extreme is Some && (if least {
                extreme->Some_0.rank() <= values@[i].rank()
            } else {
                values@[i].rank() <= extreme->Some_0.rank()
            }),
{
    let mut held: Option<Scalar> = None;
    let mut index: usize = 0;
    while index < values.len()
        invariant
            index <= values.len(),
            held == running_extreme(values@, least, index as int),
            held is Some ==> !held->Some_0.nan() && values@.contains(held->Some_0),
            forall|i: int|
                0 <= i < index && !(#[trigger] values@[i]).nan() ==> held is Some && (if least {
                    held->Some_0.rank() <= values@[i].rank()
                } else {
                    values@[i].rank() <= held->Some_0.rank()
                }),
        decreases values.len() - index,
    {
        let next: Scalar = values[index];
        assert(values@.contains(next));
        if !next.is_nan() {
            match held {
                Some(best) => {
                    if (least && !best.at_most(next)) || (!least && !next.at_most(best)) {
                        held = Some(next);
                    }
                },
                None => {
                    held = Some(next);
                },
            }
        }
        index = index + 1;
    }
    held
}

/// The least or the greatest number that is not NaN; where there is none, the infinity that every
/// number would replace.
pub open spec fn extreme_or_infinity(values: Seq<Scalar>, least: bool) -> Scalar {
    match running_extreme(values, least, values.len() as int) {
        Some(extreme) => extreme,
        None => Scalar {
            bits: if least {
                0x7FF0_0000_0000_0000
            } else {
                0xFFF0_0000_0000_0000
            },
        },
    }
}

/// Finds the least or the greatest number that is not NaN, or an infinity where there is none.
pub fn find_extreme(values: &Vec<Scalar>, least: bool) -> (extreme: Scalar)
    ensures
        extreme == extreme_or_infinity(values@, least),
{
    match extreme_value(values, least) {
        Some(extreme) => extreme,
        None => Scalar::from_bits(
            if least {
                0x7FF0_0000_0000_0000
            } else {
                0xFFF0_0000_0000_0000
            },
        ),
    }
}

/// A filter keeps the items that meet a condition, each at its own place, in their order: `places`
/// are the places of the items that are kept.
pub proof fn lemma_filter_keeps_places<T>(items: Seq<T>, keeps: spec_fn(T) -> bool) -> (places: Seq<
    int,
>)
    ensures
        places.len() == items.filter(keeps).len(),
        forall|i: int, j: int|
            0 <= i < j < places.len() ==> #[trigger] places[i] < #[trigger] places[j],
        forall|i: int|
            #![trigger places[i]]
            0 <= i < places.len() ==> 0 <= places[i] < items.len() && items.filter(keeps)[i]
                == items[places[i]],
        forall|p: int| #[trigger]
            places.contains(p) <==> 0 <= p < items.len() && keeps(items[p]),
    decreases items.len(),
{
    reveal(Seq::filter);
    if items.len() == 0 {
        Seq::empty()
    } else {
        let shorter = items.drop_last();
        let before = lemma_filter_keeps_places(shorter, keeps);
        let last = items.len() - 1;
        let places = if keeps(items.last()) {
            before.push(last)
        } else {
            before
        };
        assert forall|i: int, j: int| 0 <= i < j < places.len() implies #[trigger] places[i]
            < #[trigger] places[j] by {
            assert(places[i] == before[i]);
            if j < before.len() {
                assert(places[j] == before[j]);
            }
        }
        assert forall|i: int| #![trigger places[i]] 0 <= i < places.len() implies 0 <= places[i]
            < items.len() && items.filter(keeps)[i] == items[places[i]] by {
            if i < before.len() {
                assert(places[i] == before[i]);
                assert(shorter.filter(keeps)[i] == shorter[before[i]]);
            }
        }
        assert forall|p: int| #[trigger]
            places.contains(p) <==> 0 <= p < items.len() && keeps(items[p]) by {
            if before.contains(p) {
                let i = choose|i: int| 0 <= i < before.len() && before[i] == p;
                assert(places[i] == p);
                assert(shorter[p] == items[p]);
            }
            if p == last && keeps(items[p]) {
                assert(places[before.len() as int] == p);
            }
            if 0 <= p < last && keeps(items[p]) {
                assert(shorter[p] == items[p]);
                assert(before.contains(p));
            }
            if places.contains(p) {
                let i = choose|i: int| 0 <= i < places.len() && places[i] == p;
                if i < before.len() {
                    assert(before[i] == p);
                    assert(before.contains(p));
                }
            }
        }
        places
    }
}

} // verus!
