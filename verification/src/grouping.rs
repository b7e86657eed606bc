//! Rows grouped by a key, and groups in the order of a second key.

use crate::index_set::strictly_increasing;
use crate::order::lemma_filter_keeps_places;
use crate::scalar::Scalar;
use vstd::prelude::*;

verus! {

/// Whether a key comes before another: by its first number, and by its second where the first
/// are equal.
pub open spec fn key_before(left: (usize, usize), right: (usize, usize)) -> bool {
    left.0 < right.0 || (left.0 == right.0 && left.1 < right.1)
}

/// The rows that have a key.
#[derive(Debug)]
pub struct IndexGroup {
    pub key: (usize, usize),
    pub members: Vec<usize>,
}

/// Whether `members` lists the rows with the given key, in increasing order.
pub open spec fn lists_members(
    keys: Seq<(usize, usize)>,
    key: (usize, usize),
    members: Seq<usize>,
) -> bool {
    &&& strictly_increasing(members)
    &&& forall|p: usize| #[trigger]
        members.contains(p) <==> p < keys.len() && keys[p as int] == key
}

/// Whether the groups are those of the keys: one for every key that occurs, in the order of the
/// keys, each with all rows that have its key.
pub open spec fn is_grouping(keys: Seq<(usize, usize)>, groups: Seq<IndexGroup>) -> bool {
    &&& forall|i: int, j: int|
        0 <= i < j < groups.len() ==> key_before(
            (#[trigger] groups[i]).key,
            (#[trigger] groups[j]).key,
        )
    &&& forall|g: int|
        0 <= g < groups.len() ==> (#[trigger] groups[g]).members.len() > 0 && lists_members(
            keys,
            groups[g].key,
            groups[g].members@,
        )
    &&& forall|p: int|
        0 <= p < keys.len() ==> has_group(groups, #[trigger] keys[p])
}

/// Whether one of the groups has the key.
pub open spec fn has_group(groups: Seq<IndexGroup>, key: (usize, usize)) -> bool {
    exists|g: int| 0 <= g < groups.len() && (#[trigger] groups[g]).key == key
}

/// Whether the keys rise.
pub open spec fn rising_keys(keys: Seq<(usize, usize)>) -> bool {
    forall|i: int, j: int|
        0 <= i < j < keys.len() ==> key_before(#[trigger] keys[i], #[trigger] keys[j])
}

fn insert_key(found: &mut Vec<(usize, usize)>, key: (usize, usize))
    requires
        rising_keys(old(found)@),
    ensures
        rising_keys(final(found)@),
        forall|k: (usize, usize)| #[trigger]
            final(found)@.contains(k) <==> old(found)@.contains(k) || k == key,
{
    let mut place: usize = 0;
    while place < found.len() && (found[place].0 < key.0 || (found[place].0 == key.0
        && found[place].1 < key.1))
        invariant
            place <= found.len(),
            rising_keys(found@),
            forall|i: int| 0 <= i < place ==> key_before(#[trigger] found@[i], key),
        decreases found.len() - place,
    {
        place = place + 1;
    }
    let ghost before = found@;
    if place < found.len() && found[place].0 == key.0 && found[place].1 == key.1 {
        assert(before[place as int] == key);
        return ;
    }
    found.insert(place, key);
    proof {
        let after = found@;
        assert(after == before.insert(place as int, key));
        assert forall|i: int, j: int| 0 <= i < j < after.len() implies key_before(
            #[trigger] after[i],
            #[trigger] after[j],
        ) by {
            if j < place {
                assert(after[i] == before[i] && after[j] == before[j]);
            } else if j == place {
                assert(after[i] == before[i]);
            } else {
                assert(after[j] == before[j - 1]);
                if i < place {
                    assert(after[i] == before[i]);
                } else if i == place {
                    assert(key_before(key, before[place as int]));
                    if j - 1 > place {
                        assert(key_before(before[place as int], before[j - 1]));
                    }
                } else {
                    assert(after[i] == before[i - 1]);
                }
            }
        }
        assert forall|k: (usize, usize)| #[trigger] after.contains(k) <==> before.contains(k) || k
            == key by {
            if before.contains(k) {
                let i = choose|i: int| 0 <= i < before.len() && before[i] == k;
                if i < place {
                    assert(after[i] == k);
                } else {
                    assert(after[i + 1] == k);
                }
            }
            assert(after[place as int] == key);
            if after.contains(k) {
                let i = choose|i: int| 0 <= i < after.len() && after[i] == k;
                if i < place {
                    assert(before[i] == k);
                } else if i > place {
                    assert(before[i - 1] == k);
                }
            }
        }
    }
}

fn members_of(keys: &Vec<(usize, usize)>, key: (usize, usize)) -> (members: Vec<usize>)
    ensures
        lists_members(keys@, key, members@),
{
    let mut members: Vec<usize> = Vec::new();
    let mut index: usize = 0;
    while index < keys.len()
        invariant
            index <= keys.len(),
            strictly_increasing(members@),
            forall|i: int| 0 <= i < members.len() ==> #[trigger] members@[i] < index,
            forall|p: usize| #[trigger]
                members@.contains(p) <==> p < index && keys@[p as int] == key,
        decreases keys.len() - index,
    {
        if keys[index].0 == key.0 && keys[index].1 == key.1 {
            let ghost before = members@;
            members.push(index);
            proof {
                let after = members@;
                assert forall|p: usize| #[trigger] after.contains(p) <==> before.contains(p) || p
                    == index by {
                    if before.contains(p) {
                        let i = choose|i: int| 0 <= i < before.len() && before[i] == p;
                        assert(after[i] == p);
                    }
                    assert(after[before.len() as int] == index);
                    if after.contains(p) {
                        let i = choose|i: int| 0 <= i < after.len() && after[i] == p;
                        if i < before.len() {
                            assert(before[i] == p);
                        }
                    }
                }
            }
        }
        index = index + 1;
    }
    members
}

/// Groups rows by their keys.
pub fn group_by_key(keys: &Vec<(usize, usize)>) -> (groups: Vec<IndexGroup>)
    ensures
        is_grouping(keys@, groups@),
{
    let mut found: Vec<(usize, usize)> = Vec::new();
    let mut index: usize = 0;
    while index < keys.len()
        invariant
            index <= keys.len(),
            rising_keys(found@),
            forall|k: (usize, usize)| #[trigger]
                found@.contains(k) <==> exists|p: int| 0 <= p < index && #[trigger] keys@[p] == k,
        decreases keys.len() - index,
    {
        let ghost before = found@;
        insert_key(&mut found, keys[index]);
        proof {
            assert forall|k: (usize, usize)| #[trigger] found@.contains(k) <==> exists|p: int|
                0 <= p < index + 1 && #[trigger] keys@[p] == k by {
                if before.contains(k) {
                    let p = choose|p: int| 0 <= p < index && #[trigger] keys@[p] == k;
                    assert(keys@[p] == k);
                }
                if k == keys@[index as int] {
                    assert(keys@[index as int] == k);
                }
            }
        }
        index = index + 1;
    }
    let mut groups: Vec<IndexGroup> = Vec::new();
    let mut place: usize = 0;
    while place < found.len()
        invariant
            place <= found.len(),
            rising_keys(found@),
            forall|k: (usize, usize)| #[trigger]
                found@.contains(k) <==> exists|p: int|
                    0 <= p < keys.len() && #[trigger] keys@[p] == k,
            groups.len() == place,
            forall|g: int| 0 <= g < place ==> (#[trigger] groups@[g]).key == found@[g],
            forall|g: int|
                0 <= g < place ==> (#[trigger] groups@[g]).members.len() > 0 && lists_members(
                    keys@,
                    groups@[g].key,
                    groups@[g].members@,
                ),
        decreases found.len() - place,
    {
        let key: (usize, usize) = found[place];
        let members = members_of(keys, key);
        proof {
            assert(found@.contains(key));
            let p = choose|p: int| 0 <= p < keys.len() && #[trigger] keys@[p] == key;
            assert(members@.contains(p as usize));
        }
        groups.push(IndexGroup { key, members });
        place = place + 1;
    }
    proof {
        assert forall|p: int| 0 <= p < keys.len() implies has_group(
            groups@,
            #[trigger] keys@[p],
        ) by {
            assert(found@.contains(keys@[p]));
            let g = choose|g: int| 0 <= g < found.len() && found@[g] == keys@[p];
            assert(groups@[g].key == keys@[p]);
        }
        assert forall|i: int, j: int| 0 <= i < j < groups.len() implies key_before(
            (#[trigger] groups@[i]).key,
            (#[trigger] groups@[j]).key,
        ) by {
            assert(key_before(found@[i], found@[j]));
        }
    }
    groups
}

/// Keys have one grouping.
pub proof fn lemma_grouping_unique(
    keys: Seq<(usize, usize)>,
    left: Seq<IndexGroup>,
    right: Seq<IndexGroup>,
)
    requires
        is_grouping(keys, left),
        is_grouping(keys, right),
    ensures
        left.len() == right.len(),
        forall|g: int|
            0 <= g < left.len() ==> (#[trigger] left[g]).key == right[g].key && left[g].members@
                == right[g].members@,
{
    let left_keys = left.map_values(|group: IndexGroup| group.key);
    let right_keys = right.map_values(|group: IndexGroup| group.key);
    assert forall|k: (usize, usize)| left_keys.contains(k) implies right_keys.contains(k) by {
        let g = choose|g: int| 0 <= g < left_keys.len() && left_keys[g] == k;
        lemma_group_key_occurs(keys, left, g);
        let p = left[g].members@[0] as int;
        assert(has_group(right, keys[p]));
        let h = choose|h: int| 0 <= h < right.len() && (#[trigger] right[h]).key == keys[p];
        assert(right_keys[h] == k);
    }
    assert forall|k: (usize, usize)| right_keys.contains(k) implies left_keys.contains(k) by {
        let g = choose|g: int| 0 <= g < right_keys.len() && right_keys[g] == k;
        lemma_group_key_occurs(keys, right, g);
        let p = right[g].members@[0] as int;
        assert(has_group(left, keys[p]));
        let h = choose|h: int| 0 <= h < left.len() && (#[trigger] left[h]).key == keys[p];
        assert(left_keys[h] == k);
    }
    assert(rising_keys(left_keys));
    assert(rising_keys(right_keys));
    lemma_rising_keys_unique(left_keys, right_keys);
    assert forall|g: int| 0 <= g < left.len() implies (#[trigger] left[g]).key == right[g].key
        && left[g].members@ == right[g].members@ by {
        assert(left_keys[g] == right_keys[g]);
        let (a, b) = (left[g].members@, right[g].members@);
        assert forall|p: usize| a.to_set().contains(p) == b.to_set().contains(p) by {
            assert(a.contains(p) == b.contains(p));
        }
        assert(a.to_set() =~= b.to_set());
        crate::index_set::lemma_increasing_sequence_unique(a, b);
    }
}

proof fn lemma_group_key_occurs(keys: Seq<(usize, usize)>, groups: Seq<IndexGroup>, g: int)
    requires
        is_grouping(keys, groups),
        0 <= g < groups.len(),
    ensures
        groups[g].members.len() > 0,
        groups[g].members@[0] < keys.len(),
        keys[groups[g].members@[0] as int] == groups[g].key,
{
    assert(groups[g].members@.contains(groups[g].members@[0]));
}

proof fn lemma_rising_keys_unique(left: Seq<(usize, usize)>, right: Seq<(usize, usize)>)
    requires
        rising_keys(left),
        rising_keys(right),
        forall|k: (usize, usize)| left.contains(k) == right.contains(k),
    ensures
        left == right,
    decreases left.len(),
{
    if left.len() == 0 {
        if right.len() > 0 {
            assert(right.contains(right[0]));
        }
        assert(left =~= right);
    } else {
        assert(left.contains(left.last()));
        assert(right.len() > 0) by {
            assert(right.contains(left.last()));
        }
        assert(right.contains(right.last()));
        assert(left.last() == right.last()) by {
            let i = choose|i: int| 0 <= i < right.len() && right[i] == left.last();
            let j = choose|j: int| 0 <= j < left.len() && left[j] == right.last();
            assert(right.contains(left.last()) && left.contains(right.last()));
            if i < right.len() - 1 {
                assert(key_before(right[i], right[right.len() - 1]));
                if j < left.len() - 1 {
                    assert(key_before(left[j], left[left.len() - 1]));
                }
            }
        }
        let (a, b) = (left.drop_last(), right.drop_last());
        assert forall|k: (usize, usize)| a.contains(k) == b.contains(k) by {
            if a.contains(k) {
                let i = choose|i: int| 0 <= i < a.len() && a[i] == k;
                assert(left[i] == k);
                assert(key_before(left[i], left[left.len() - 1]));
                assert(left.contains(k));
                let j = choose|j: int| 0 <= j < right.len() && right[j] == k;
                assert(b[j] == k);
            }
            if b.contains(k) {
                let i = choose|i: int| 0 <= i < b.len() && b[i] == k;
                assert(right[i] == k);
                assert(key_before(right[i], right[right.len() - 1]));
                assert(right.contains(k));
                let j = choose|j: int| 0 <= j < left.len() && left[j] == k;
                assert(a[j] == k);
            }
        }
        assert(rising_keys(a)) by {
            assert forall|i: int, j: int| 0 <= i < j < a.len() implies key_before(
                #[trigger] a[i],
                #[trigger] a[j],
            ) by {
                assert(key_before(left[i], left[j]));
            }
        }
        assert(rising_keys(b)) by {
            assert forall|i: int, j: int| 0 <= i < j < b.len() implies key_before(
                #[trigger] b[i],
                #[trigger] b[j],
            ) by {
                assert(key_before(right[i], right[j]));
            }
        }
        lemma_rising_keys_unique(a, b);
        assert(left =~= a.push(left.last()));
        assert(right =~= b.push(right.last()));
    }
}

/// Whether row `left` comes before row `right` in the order of the ranks, where rows of the same
/// rank keep their order.
pub open spec fn ranked_before(ranks: Seq<int>, left: usize, right: usize) -> bool {
    ranks[left as int] < ranks[right as int] || (ranks[left as int] == ranks[right as int] && left
        < right)
}

/// Whether `ordered` lists the members in the order of their ranks.
pub open spec fn is_ranked(ranks: Seq<int>, members: Seq<usize>, ordered: Seq<usize>) -> bool {
    &&& ordered.len() == members.len()
    &&& forall|p: usize| #[trigger] ordered.contains(p) <==> members.contains(p)
    &&& forall|i: int, j: int|
        0 <= i < j < ordered.len() ==> ranked_before(
            ranks,
            #[trigger] ordered[i],
            #[trigger] ordered[j],
        )
}

proof fn lemma_ranked_insert(
    ranks: Seq<int>,
    members: Seq<usize>,
    ordered: Seq<usize>,
    place: int,
    next: usize,
)
    requires
        is_ranked(ranks, members, ordered),
        0 <= place <= ordered.len(),
        forall|i: int| 0 <= i < members.len() ==> #[trigger] members[i] < next,
        forall|i: int|
            0 <= i < place ==> ranks[#[trigger] ordered[i] as int] <= ranks[next as int],
        forall|i: int|
            place <= i < ordered.len() ==> ranks[#[trigger] ordered[i] as int]
                > ranks[next as int],
    ensures
        is_ranked(ranks, members.push(next), ordered.insert(place, next)),
{
    let after = ordered.insert(place, next);
    let more = members.push(next);
    assert forall|p: usize| #[trigger] after.contains(p) <==> more.contains(p) by {
        assert(ordered.contains(p) <==> members.contains(p));
        if ordered.contains(p) {
            let i = choose|i: int| 0 <= i < ordered.len() && ordered[i] == p;
            if i < place {
                assert(after[i] == p);
            } else {
                assert(after[i + 1] == p);
            }
        }
        if members.contains(p) {
            let i = choose|i: int| 0 <= i < members.len() && members[i] == p;
            assert(more[i] == p);
        }
        assert(after[place] == next);
        assert(more[members.len() as int] == next);
        if after.contains(p) {
            let i = choose|i: int| 0 <= i < after.len() && after[i] == p;
            if i < place {
                assert(ordered[i] == p);
            } else if i > place {
                assert(ordered[i - 1] == p);
            }
        }
        if more.contains(p) {
            let i = choose|i: int| 0 <= i < more.len() && more[i] == p;
            if i < members.len() {
                assert(members[i] == p);
            }
        }
    }
    assert forall|i: int, j: int| 0 <= i < j < after.len() implies ranked_before(
        ranks,
        #[trigger] after[i],
        #[trigger] after[j],
    ) by {
        if j < place {
            assert(after[i] == ordered[i] && after[j] == ordered[j]);
        } else if j == place {
            assert(after[i] == ordered[i]);
            assert(ordered.contains(ordered[i]));
            let m = choose|m: int| 0 <= m < members.len() && members[m] == ordered[i];
            assert(members[m] < next);
        } else {
            assert(after[j] == ordered[j - 1]);
            if i < place {
                assert(after[i] == ordered[i]);
            } else if i > place {
                assert(after[i] == ordered[i - 1]);
            }
        }
    }
}

/// Lists the members of a group by level, lowest first.
pub fn order_by_level(levels: &Vec<usize>, members: &Vec<usize>) -> (ordered: Vec<usize>)
    requires
        strictly_increasing(members@),
        forall|i: int| 0 <= i < members.len() ==> #[trigger] members@[i] < levels.len(),
    ensures
        is_ranked(levels@.map_values(|level: usize| level as int), members@, ordered@),
{
    let ghost ranks = levels@.map_values(|level: usize| level as int);
    let mut ordered: Vec<usize> = Vec::new();
    let mut index: usize = 0;
    assert(members@.take(0) =~= ordered@);
    while index < members.len()
        invariant
            strictly_increasing(members@),
            forall|i: int| 0 <= i < members.len() ==> #[trigger] members@[i] < levels.len(),
            ranks == levels@.map_values(|level: usize| level as int),
            index <= members.len(),
            is_ranked(ranks, members@.take(index as int), ordered@),
            forall|i: int| 0 <= i < ordered.len() ==> #[trigger] ordered@[i] < levels.len(),
        decreases members.len() - index,
    {
        let next: usize = members[index];
        let mut place: usize = ordered.len();
        while place > 0 && levels[next] < levels[ordered[place - 1]]
            invariant
                next < levels.len(),
                ranks == levels@.map_values(|level: usize| level as int),
                place <= ordered.len(),
                forall|i: int| 0 <= i < ordered.len() ==> #[trigger] ordered@[i] < levels.len(),
                forall|i: int|
                    place <= i < ordered.len() ==> ranks[#[trigger] ordered@[i] as int]
                        > ranks[next as int],
            decreases place,
        {
            place = place - 1;
            assert(ordered@[place as int] < levels.len());
        }
        proof {
            assert forall|i: int| 0 <= i < place implies ranks[#[trigger] ordered@[i] as int]
                <= ranks[next as int] by {
                if i < place - 1 {
                    assert(ranked_before(ranks, ordered@[i], ordered@[place - 1]));
                }
                assert(ordered@[place - 1] < levels.len());
            }
            lemma_ranked_insert(ranks, members@.take(index as int), ordered@, place as int, next);
            assert(members@.take(index + 1) =~= members@.take(index as int).push(next));
        }
        let ghost before = ordered@;
        ordered.insert(place, next);
        proof {
            assert forall|i: int| 0 <= i < ordered.len() implies #[trigger] ordered@[i]
                < levels.len() by {
                if i < place {
                    assert(ordered@[i] == before[i]);
                } else if i > place {
                    assert(ordered@[i] == before[i - 1]);
                }
            }
        }
        index = index + 1;
    }
    assert(members@.take(index as int) =~= members@);
    ordered
}

/// Lists the members of a group by mesh width, finest first. None of the widths is NaN.
pub fn order_by_width(widths: &Vec<Scalar>, members: &Vec<usize>) -> (ordered: Vec<usize>)
    requires
        strictly_increasing(members@),
        forall|i: int| 0 <= i < members.len() ==> #[trigger] members@[i] < widths.len(),
        crate::order::comparable(widths@),
    ensures
        is_ranked(widths@.map_values(|width: Scalar| width.rank()), members@, ordered@),
{
    let ghost ranks = widths@.map_values(|width: Scalar| width.rank());
    let mut ordered: Vec<usize> = Vec::new();
    let mut index: usize = 0;
    assert(members@.take(0) =~= ordered@);
    while index < members.len()
        invariant
            strictly_increasing(members@),
            forall|i: int| 0 <= i < members.len() ==> #[trigger] members@[i] < widths.len(),
            crate::order::comparable(widths@),
            ranks == widths@.map_values(|width: Scalar| width.rank()),
            index <= members.len(),
            is_ranked(ranks, members@.take(index as int), ordered@),
            forall|i: int| 0 <= i < ordered.len() ==> #[trigger] ordered@[i] < widths.len(),
        decreases members.len() - index,
    {
        let next: usize = members[index];
        let mut place: usize = ordered.len();
        while place > 0 && widths[next].less_than(widths[ordered[place - 1]])
            invariant
                next < widths.len(),
                crate::order::comparable(widths@),
                ranks == widths@.map_values(|width: Scalar| width.rank()),
                place <= ordered.len(),
                forall|i: int| 0 <= i < ordered.len() ==> #[trigger] ordered@[i] < widths.len(),
                forall|i: int|
                    place <= i < ordered.len() ==> ranks[#[trigger] ordered@[i] as int]
                        > ranks[next as int],
            decreases place,
        {
            place = place - 1;
            assert(ordered@[place as int] < widths.len());
        }
        proof {
            assert(!widths@[next as int].nan());
            assert forall|i: int| 0 <= i < place implies ranks[#[trigger] ordered@[i] as int]
                <= ranks[next as int] by {
                if i < place - 1 {
                    assert(ranked_before(ranks, ordered@[i], ordered@[place - 1]));
                }
                assert(ordered@[place - 1] < widths.len());
                assert(!widths@[ordered@[place - 1] as int].nan());
            }
            lemma_ranked_insert(ranks, members@.take(index as int), ordered@, place as int, next);
            assert(members@.take(index + 1) =~= members@.take(index as int).push(next));
        }
        let ghost before = ordered@;
        ordered.insert(place, next);
        proof {
            assert forall|i: int| 0 <= i < ordered.len() implies #[trigger] ordered@[i]
                < widths.len() by {
                if i < place {
                    assert(ordered@[i] == before[i]);
                } else if i > place {
                    assert(ordered@[i] == before[i - 1]);
                }
            }
        }
        index = index + 1;
    }
    assert(members@.take(index as int) =~= members@);
    ordered
}

/// The groups with at least two rows.
pub open spec fn paired(groups: Seq<IndexGroup>) -> Seq<IndexGroup> {
    groups.filter(|group: IndexGroup| group.members.len() >= 2)
}

/// Whether `ordered` holds the groups with at least two rows, each in the order of the ranks.
pub open spec fn orders_groups(
    ranks: Seq<int>,
    groups: Seq<IndexGroup>,
    ordered: Seq<IndexGroup>,
) -> bool {
    &&& ordered.len() == paired(groups).len()
    &&& forall|g: int|
        #![trigger ordered[g]]
        0 <= g < ordered.len() ==> ordered[g].key == paired(groups)[g].key && is_ranked(
            ranks,
            paired(groups)[g].members@,
            ordered[g].members@,
        )
}

/// Whether the groups are those of the keys with at least two rows, in the order of the keys, each
/// in the order of the ranks.
pub open spec fn are_ordered_groups(
    keys: Seq<(usize, usize)>,
    ranks: Seq<int>,
    ordered: Seq<IndexGroup>,
) -> bool {
    exists|groups: Seq<IndexGroup>| #[trigger]
        is_grouping(keys, groups) && orders_groups(ranks, groups, ordered)
}

/// Groups rows by key, leaves out the groups with a single row, and lists every group by mesh
/// width, finest first. None of the widths is NaN.
pub fn ordered_groups(keys: &Vec<(usize, usize)>, widths: &Vec<Scalar>) -> (ordered: Vec<
    IndexGroup,
>)
    requires
        keys.len() == widths.len(),
        crate::order::comparable(widths@),
    ensures
        are_ordered_groups(
            keys@,
            widths@.map_values(|width: Scalar| width.rank()),
            ordered@,
        ),
{
    let ghost ranks = widths@.map_values(|width: Scalar| width.rank());
    let groups = group_by_key(keys);
    let ghost enough = |group: IndexGroup| group.members.len() >= 2;
    let mut ordered: Vec<IndexGroup> = Vec::new();
    let mut place: usize = 0;
    proof {
        reveal(Seq::filter);
        assert(groups@.take(0).filter(enough) =~= Seq::empty());
    }
    while place < groups.len()
        invariant
            place <= groups.len(),
            is_grouping(keys@, groups@),
            keys.len() == widths.len(),
            crate::order::comparable(widths@),
            ranks == widths@.map_values(|width: Scalar| width.rank()),
            enough == (|group: IndexGroup| group.members.len() >= 2),
            ordered.len() == groups@.take(place as int).filter(enough).len(),
            forall|g: int|
                #![trigger ordered@[g]]
                0 <= g < ordered.len() ==> ordered@[g].key == groups@.take(place as int).filter(
                    enough,
                )[g].key && is_ranked(
                    ranks,
                    groups@.take(place as int).filter(enough)[g].members@,
                    ordered@[g].members@,
                ),
        decreases groups.len() - place,
    {
        let group: &IndexGroup = &groups[place];
        proof {
            reveal(Seq::filter);
            assert(groups@.take(place + 1).drop_last() =~= groups@.take(place as int));
            assert(groups@.take(place + 1).last() == *group);
        }
        if group.members.len() >= 2 {
            proof {
                assert(lists_members(keys@, group.key, group.members@));
                assert forall|i: int| 0 <= i < group.members.len() implies #[trigger] group.members@[i]
                    < widths.len() by {
                    assert(group.members@.contains(group.members@[i]));
                }
            }
            let members = order_by_width(widths, &group.members);
            ordered.push(IndexGroup { key: group.key, members });
        }
        place = place + 1;
    }
    assert(groups@.take(place as int) =~= groups@);
    assert(orders_groups(ranks, groups@, ordered@));
    ordered
}

/// Every row of an ordered group is a row with its key, and every ordered group has at least two
/// rows.
pub proof fn lemma_ordered_group(
    keys: Seq<(usize, usize)>,
    ranks: Seq<int>,
    ordered: Seq<IndexGroup>,
    place: int,
)
    requires
        are_ordered_groups(keys, ranks, ordered),
        0 <= place < ordered.len(),
    ensures
        ordered[place].members.len() >= 2,
        forall|i: int|
            0 <= i < ordered[place].members.len() ==> (#[trigger] ordered[place].members@[i])
                < keys.len() && keys[ordered[place].members@[i] as int] == ordered[place].key,
{
    let groups = choose|groups: Seq<IndexGroup>| #[trigger]
        is_grouping(keys, groups) && orders_groups(ranks, groups, ordered);
    let enough = |group: IndexGroup| group.members.len() >= 2;
    let kept = groups.filter(enough);
    assert(paired(groups) == kept);
    lemma_filtered(groups, enough, place);
    let group = kept[place];
    assert(ordered[place].key == group.key);
    assert(is_ranked(ranks, group.members@, ordered[place].members@));
    let g = choose|g: int| 0 <= g < groups.len() && #[trigger] groups[g] == group;
    assert(lists_members(keys, groups[g].key, groups[g].members@));
    assert forall|i: int| 0 <= i < ordered[place].members.len() implies (
    #[trigger] ordered[place].members@[i]) < keys.len()
        && keys[ordered[place].members@[i] as int] == ordered[place].key by {
        let p = ordered[place].members@[i];
        assert(ordered[place].members@.contains(p));
        assert(group.members@.contains(p));
    }
}

proof fn lemma_filtered(groups: Seq<IndexGroup>, keeps: spec_fn(IndexGroup) -> bool, place: int)
    requires
        0 <= place < groups.filter(keeps).len(),
    ensures
        keeps(groups.filter(keeps)[place]),
        exists|g: int| 0 <= g < groups.len() && #[trigger] groups[g] == groups.filter(keeps)[place],
    decreases groups.len(),
{
    reveal(Seq::filter);
    if groups.len() > 0 {
        let before = groups.drop_last();
        if place < before.filter(keeps).len() {
            lemma_filtered(before, keeps, place);
            let g = choose|g: int|
                0 <= g < before.len() && #[trigger] before[g] == before.filter(keeps)[place];
            assert(groups[g] == before[g]);
            assert(groups.filter(keeps)[place] == before.filter(keeps)[place]);
        } else {
            assert(groups.filter(keeps)[place] == groups.last());
            assert(groups[groups.len() - 1] == groups.last());
        }
    }
}

/// Whether two rows stand in the same group.
pub open spec fn together(groups: Seq<IndexGroup>, left: usize, right: usize) -> bool {
    exists|g: int|
        #![trigger groups[g]]
        0 <= g < groups.len() && groups[g].members@.contains(left) && groups[g].members@.contains(
            right,
        )
}

/// Two rows stand in the same group if and only if they have the same key. In particular, every
/// row stands in a group, and in no other.
pub proof fn lemma_grouped_together(
    keys: Seq<(usize, usize)>,
    groups: Seq<IndexGroup>,
    left: usize,
    right: usize,
)
    requires
        is_grouping(keys, groups),
        left < keys.len(),
        right < keys.len(),
    ensures
        together(groups, left, right) <==> keys[left as int] == keys[right as int],
        forall|g: int, h: int|
            #![trigger groups[g], groups[h]]
            0 <= g < groups.len() && 0 <= h < groups.len() && groups[g].members@.contains(left)
                && groups[h].members@.contains(left) ==> g == h,
{
    if together(groups, left, right) {
        let g = choose|g: int|
            #![trigger groups[g]]
            0 <= g < groups.len() && groups[g].members@.contains(left)
                && groups[g].members@.contains(right);
        assert(lists_members(keys, groups[g].key, groups[g].members@));
    }
    if keys[left as int] == keys[right as int] {
        assert(has_group(groups, keys[left as int]));
        let g = choose|g: int|
            0 <= g < groups.len() && (#[trigger] groups[g]).key == keys[left as int];
        assert(lists_members(keys, groups[g].key, groups[g].members@));
        assert(groups[g].members@.contains(left) && groups[g].members@.contains(right));
    }
    assert forall|g: int, h: int|
        #![trigger groups[g], groups[h]]
        0 <= g < groups.len() && 0 <= h < groups.len() && groups[g].members@.contains(left)
            && groups[h].members@.contains(left) implies g == h by {
        assert(lists_members(keys, groups[g].key, groups[g].members@));
        assert(lists_members(keys, groups[h].key, groups[h].members@));
        if g < h {
            assert(key_before(groups[g].key, groups[h].key));
        } else if h < g {
            assert(key_before(groups[h].key, groups[g].key));
        }
    }
}

/// Two different rows stand in the same ordered group if and only if they have the same key, and
/// the ranks do not fall along a group.
pub proof fn lemma_ordered_together(
    keys: Seq<(usize, usize)>,
    ranks: Seq<int>,
    ordered: Seq<IndexGroup>,
    left: usize,
    right: usize,
)
    requires
        are_ordered_groups(keys, ranks, ordered),
        left < keys.len(),
        right < keys.len(),
        left != right,
    ensures
        together(ordered, left, right) <==> keys[left as int] == keys[right as int],
        forall|g: int, i: int, j: int|
            #![trigger ordered[g].members@[i], ordered[g].members@[j]]
            0 <= g < ordered.len() && 0 <= i <= j < ordered[g].members.len()
                ==> ranks[ordered[g].members@[i] as int] <= ranks[ordered[g].members@[j] as int],
{
    let groups = choose|groups: Seq<IndexGroup>| #[trigger]
        is_grouping(keys, groups) && orders_groups(ranks, groups, ordered);
    let enough = |group: IndexGroup| group.members.len() >= 2;
    let kept = groups.filter(enough);
    assert(paired(groups) == kept);
    lemma_grouped_together(keys, groups, left, right);
    let places = lemma_filter_keeps_places(groups, enough);
    if together(ordered, left, right) {
        let g = choose|g: int|
            #![trigger ordered[g]]
            0 <= g < ordered.len() && ordered[g].members@.contains(left)
                && ordered[g].members@.contains(right);
        assert(is_ranked(ranks, kept[g].members@, ordered[g].members@));
        assert(kept[g] == groups[places[g]]);
        assert(together(groups, left, right));
    }
    if keys[left as int] == keys[right as int] {
        let h = choose|h: int|
            #![trigger groups[h]]
            0 <= h < groups.len() && groups[h].members@.contains(left)
                && groups[h].members@.contains(right);
        let members = groups[h].members@;
        let i = choose|i: int| 0 <= i < members.len() && members[i] == left;
        let j = choose|j: int| 0 <= j < members.len() && members[j] == right;
        assert(i != j);
        assert(enough(groups[h]));
        assert(places.contains(h));
        let g = choose|g: int| 0 <= g < places.len() && places[g] == h;
        assert(kept[g] == groups[h]);
        assert(is_ranked(ranks, kept[g].members@, ordered[g].members@));
        assert(ordered[g].members@.contains(left) && ordered[g].members@.contains(right));
    }
    assert forall|g: int, i: int, j: int|
        #![trigger ordered[g].members@[i], ordered[g].members@[j]]
        0 <= g < ordered.len() && 0 <= i <= j
            < ordered[g].members.len() implies ranks[ordered[g].members@[i] as int]
        <= ranks[ordered[g].members@[j] as int] by {
        assert(is_ranked(ranks, kept[g].members@, ordered[g].members@));
        if i < j {
            assert(ranked_before(ranks, ordered[g].members@[i], ordered[g].members@[j]));
        }
    }
}

} // verus!
