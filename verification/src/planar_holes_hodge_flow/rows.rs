//! Sparse integer rows: signed sums of mesh edges.

use super::mesh::MeshTopology;
use vstd::prelude::*;

verus! {

/// The row applied to a function on the edges: the sum of each entry's weight times the value at
/// its edge.
pub open spec fn pairing(entries: Seq<(usize, i64)>, field: spec_fn(int) -> int) -> int
    decreases entries.len(),
{
    if entries.len() == 0 {
        0
    } else {
        pairing(entries.drop_last(), field) + entries.last().1 * field(entries.last().0 as int)
    }
}

/// The total weight of one edge in a row.
pub open spec fn weight_at(entries: Seq<(usize, i64)>, edge: int) -> int {
    pairing(
        entries,
        |e: int|
            if e == edge {
                1int
            } else {
                0int
            },
    )
}

/// Whether the edges of the entries increase.
pub open spec fn sorted_entries(entries: Seq<(usize, i64)>) -> bool {
    forall|i: int, j: int|
        0 <= i < j < entries.len() ==> (#[trigger] entries[i]).0 < (#[trigger] entries[j]).0
}

/// Whether the edges of the entries increase and no weight is zero.
pub open spec fn canonical(entries: Seq<(usize, i64)>) -> bool {
    &&& sorted_entries(entries)
    &&& forall|i: int| 0 <= i < entries.len() ==> (#[trigger] entries[i]).1 != 0
}

/// Whether no weight is larger than `bound` in absolute value.
pub open spec fn weights_within(entries: Seq<(usize, i64)>, bound: int) -> bool {
    forall|i: int| 0 <= i < entries.len() ==> -bound <= (#[trigger] entries[i]).1 <= bound
}

/// Whether every entry stands for one of the first `edge_count` edges.
pub open spec fn entries_in_range(entries: Seq<(usize, i64)>, edge_count: nat) -> bool {
    forall|i: int| 0 <= i < entries.len() ==> (#[trigger] entries[i]).0 < edge_count
}

/// A further entry adds its weight times the value at its edge.
pub proof fn lemma_pairing_push(
    entries: Seq<(usize, i64)>,
    entry: (usize, i64),
    field: spec_fn(int) -> int,
)
    ensures
        pairing(entries.push(entry), field) == pairing(entries, field) + entry.1 * field(
            entry.0 as int,
        ),
{
    assert(entries.push(entry).drop_last() =~= entries);
}

/// The pairing of two rows put together is the sum of their pairings.
pub proof fn lemma_pairing_concat(
    left: Seq<(usize, i64)>,
    right: Seq<(usize, i64)>,
    field: spec_fn(int) -> int,
)
    ensures
        pairing(left + right, field) == pairing(left, field) + pairing(right, field),
    decreases right.len(),
{
    if right.len() == 0 {
        assert(left + right =~= left);
    } else {
        lemma_pairing_concat(left, right.drop_last(), field);
        assert((left + right).drop_last() =~= left + right.drop_last());
        assert((left + right).last() == right.last());
    }
}

proof fn lemma_pairing_update(
    entries: Seq<(usize, i64)>,
    position: int,
    weight: i64,
    field: spec_fn(int) -> int,
)
    requires
        0 <= position < entries.len(),
    ensures
        pairing(entries.update(position, (entries[position].0, weight)), field) == pairing(
            entries,
            field,
        ) + (weight - entries[position].1) * field(entries[position].0 as int),
    decreases entries.len(),
{
    let after = entries.update(position, (entries[position].0, weight));
    if position == entries.len() - 1 {
        assert(after.drop_last() =~= entries.drop_last());
        let value = field(entries[position].0 as int);
        assert(weight * value == entries[position].1 * value + (weight - entries[position].1)
            * value) by (nonlinear_arith);
    } else {
        lemma_pairing_update(entries.drop_last(), position, weight, field);
        assert(after.drop_last() =~= entries.drop_last().update(
            position,
            (entries[position].0, weight),
        ));
    }
}

proof fn lemma_pairing_insert(
    entries: Seq<(usize, i64)>,
    position: int,
    entry: (usize, i64),
    field: spec_fn(int) -> int,
)
    requires
        0 <= position <= entries.len(),
    ensures
        pairing(entries.insert(position, entry), field) == pairing(entries, field) + entry.1
            * field(entry.0 as int),
    decreases entries.len(),
{
    let after = entries.insert(position, entry);
    if position == entries.len() {
        assert(after.drop_last() =~= entries);
    } else {
        lemma_pairing_insert(entries.drop_last(), position, entry, field);
        assert(after.drop_last() =~= entries.drop_last().insert(position, entry));
        assert(after.last() == entries.last());
    }
}

/// Adds `weight` to the weight of `edge` in a sorted row.
pub(crate) fn add_entry(
    row: &mut Vec<(usize, i64)>,
    edge: usize,
    weight: i64,
    Ghost(bound): Ghost<int>,
    Ghost(step): Ghost<int>,
)
    requires
        sorted_entries(old(row)@),
        weights_within(old(row)@, bound),
        -step <= weight <= step,
        0 <= bound,
        0 <= step,
        bound + step <= i64::MAX,
    ensures
        sorted_entries(final(row)@),
        weights_within(final(row)@, bound + step),
        forall|field: spec_fn(int) -> int|
            #![trigger pairing(final(row)@, field)]
            pairing(final(row)@, field) == pairing(old(row)@, field) + weight * field(edge as int),
        forall|i: int|
            #![trigger final(row)@[i]]
            0 <= i < final(row).len() ==> final(row)@[i].0 == edge || exists|j: int|
                0 <= j < old(row).len() && (#[trigger] old(row)@[j]).0 == final(row)@[i].0,
{
    let mut position: usize = 0;
    while position < row.len() && row[position].0 < edge
        invariant
            position <= row.len(),
            row@ == old(row)@,
            forall|i: int| 0 <= i < position ==> (#[trigger] row@[i]).0 < edge,
        decreases row.len() - position,
    {
        position = position + 1;
    }
    if position < row.len() && row[position].0 == edge {
        let entry: (usize, i64) = row[position];
        let ghost before = row@;
        assert(before[position as int] == entry);
        row.set(position, (edge, entry.1 + weight));
        proof {
            assert forall|field: spec_fn(int) -> int| #[trigger]
                pairing(row@, field) == pairing(before, field) + weight * field(edge as int) by {
                lemma_pairing_update(before, position as int, (entry.1 + weight) as i64, field);
            }
            assert forall|i: int| 0 <= i < row@.len() implies (#[trigger] row@[i]).0
                == before[i].0 by {}
            assert forall|i: int, j: int| 0 <= i < j < row@.len() implies (#[trigger] row@[i]).0 < (
            #[trigger] row@[j]).0 by {
                assert(before[i].0 < before[j].0);
            }
            assert forall|i: int| 0 <= i < row@.len() implies -(bound + step) <= (#[trigger] row@[i]).1
                <= bound + step by {
                assert(-bound <= before[i].1 <= bound);
            }
        }
    } else {
        let ghost before = row@;
        row.insert(position, (edge, weight));
        proof {
            let after = row@;
            assert(after == before.insert(position as int, (edge, weight)));
            assert forall|field: spec_fn(int) -> int| #[trigger]
                pairing(after, field) == pairing(before, field) + weight * field(edge as int) by {
                lemma_pairing_insert(before, position as int, (edge, weight), field);
            }
            assert forall|i: int| 0 <= i < after.len() && i != position implies #[trigger] after[i]
                == before[if i < position {
                i
            } else {
                i - 1
            }] by {}
            assert forall|i: int, j: int| 0 <= i < j < after.len() implies (#[trigger] after[i]).0 < (
            #[trigger] after[j]).0 by {
                let k = if i < position {
                    i
                } else {
                    i - 1
                };
                let l = if j < position {
                    j
                } else {
                    j - 1
                };
                if i != position && j != position {
                    assert(before[k].0 < before[l].0);
                } else if i == position {
                    assert(before[position as int].0 > edge);
                    if l > position {
                        assert(before[position as int].0 < before[l].0);
                    }
                } else {
                    assert(before[k].0 < edge);
                }
            }
            assert forall|i: int| 0 <= i < after.len() implies -(bound + step) <= (#[trigger] after[i]).1
                <= bound + step by {
                if i != position {
                    let k = if i < position {
                        i
                    } else {
                        i - 1
                    };
                    assert(-bound <= before[k].1 <= bound);
                }
            }
        }
    }
}

/// Leaves out the entries of weight zero.
pub(crate) fn nonzero_entries(row: &Vec<(usize, i64)>) -> (kept: Vec<(usize, i64)>)
    requires
        sorted_entries(row@),
    ensures
        canonical(kept@),
        forall|field: spec_fn(int) -> int| #[trigger]
            pairing(kept@, field) == pairing(row@, field),
        forall|i: int| 0 <= i < kept.len() ==> row@.contains(#[trigger] kept@[i]),
{
    let mut kept: Vec<(usize, i64)> = Vec::new();
    let mut index: usize = 0;
    while index < row.len()
        invariant
            index <= row.len(),
            sorted_entries(row@),
            canonical(kept@),
            forall|i: int| 0 <= i < kept.len() ==> row@.contains(#[trigger] kept@[i]),
            forall|i: int, j: int|
                0 <= i < kept.len() && index <= j < row.len() ==> (#[trigger] kept@[i]).0 < (
                #[trigger] row@[j]).0,
            forall|field: spec_fn(int) -> int| #[trigger]
                pairing(kept@, field) == pairing(row@.take(index as int), field),
        decreases row.len() - index,
    {
        let entry: (usize, i64) = row[index];
        let ghost before = kept@;
        assert(row@[index as int] == entry);
        if entry.1 != 0 {
            kept.push(entry);
        }
        proof {
            assert forall|field: spec_fn(int) -> int| #[trigger]
                pairing(kept@, field) == pairing(row@.take(index + 1), field) by {
                assert(row@.take(index + 1) =~= row@.take(index as int).push(entry));
                lemma_pairing_push(row@.take(index as int), entry, field);
                assert(pairing(before, field) == pairing(row@.take(index as int), field));
                if entry.1 != 0 {
                    lemma_pairing_push(before, entry, field);
                }
            }
            assert forall|i: int| 0 <= i < kept.len() implies row@.contains(#[trigger] kept@[i]) by {
                if i == before.len() {
                    assert(row@[index as int] == kept@[i]);
                } else {
                    assert(before[i] == kept@[i]);
                }
            }
            assert forall|i: int, j: int|
                0 <= i < kept.len() && index + 1 <= j < row.len() implies (#[trigger] kept@[i]).0 < (
            #[trigger] row@[j]).0 by {
                assert(row@[index as int].0 < row@[j].0);
                if i < before.len() {
                    assert(kept@[i] == before[i]);
                    assert(before[i].0 < row@[index as int].0);
                }
            }
        }
        index = index + 1;
    }
    assert(row@.take(index as int) =~= row@);
    kept
}

/// A sum of rows, each times a factor.
pub open spec fn combined_pairing(
    weighted_rows: Seq<(&Vec<(usize, i64)>, i64)>,
    count: int,
    field: spec_fn(int) -> int,
) -> int
    decreases count,
{
    if count <= 0 {
        0
    } else {
        combined_pairing(weighted_rows, count - 1, field) + weighted_rows[count - 1].1 * pairing(
            weighted_rows[count - 1].0@,
            field,
        )
    }
}

proof fn lemma_scaled_pairing(entries: Seq<(usize, i64)>, scale: int, field: spec_fn(int) -> int)
    ensures
        scale * pairing(entries, field) == scaled_pairing(entries, scale, field),
    decreases entries.len(),
{
    if entries.len() > 0 {
        lemma_scaled_pairing(entries.drop_last(), scale, field);
        let rest = pairing(entries.drop_last(), field);
        let weight = entries.last().1 as int;
        let value = field(entries.last().0 as int);
        assert(scale * (rest + weight * value) == scale * rest + (scale * weight) * value)
            by (nonlinear_arith);
    } else {
        assert(scale * 0 == 0);
    }
}

spec fn scaled_pairing(entries: Seq<(usize, i64)>, scale: int, field: spec_fn(int) -> int) -> int
    decreases entries.len(),
{
    if entries.len() == 0 {
        0
    } else {
        scaled_pairing(entries.drop_last(), scale, field) + (scale * entries.last().1) * field(
            entries.last().0 as int,
        )
    }
}

/// The absolute value.
pub open spec fn magnitude(value: int) -> int {
    if value < 0 {
        -value
    } else {
        value
    }
}

/// The sum of the absolute weights of the first `count` entries.
pub open spec fn row_mass(entries: Seq<(usize, i64)>, count: int) -> int
    decreases count,
{
    if count <= 0 {
        0
    } else {
        row_mass(entries, count - 1) + magnitude(entries[count - 1].1 as int)
    }
}

/// The sum of the absolute weights of the first `count` rows, each times its factor.
pub open spec fn combined_mass(
    weighted_rows: Seq<(&Vec<(usize, i64)>, i64)>,
    count: int,
) -> int
    decreases count,
{
    if count <= 0 {
        0
    } else {
        combined_mass(weighted_rows, count - 1) + magnitude(weighted_rows[count - 1].1 as int)
            * row_mass(weighted_rows[count - 1].0@, weighted_rows[count - 1].0.len() as int)
    }
}

proof fn lemma_row_mass_monotone(entries: Seq<(usize, i64)>, low: int, high: int)
    requires
        0 <= low <= high,
    ensures
        0 <= row_mass(entries, low) <= row_mass(entries, high),
    decreases high,
{
    if low < high {
        lemma_row_mass_monotone(entries, low, high - 1);
    } else if low > 0 {
        lemma_row_mass_monotone(entries, low - 1, high - 1);
    }
}

proof fn lemma_combined_mass_monotone(
    weighted_rows: Seq<(&Vec<(usize, i64)>, i64)>,
    low: int,
    high: int,
)
    requires
        0 <= low <= high,
    ensures
        0 <= combined_mass(weighted_rows, low) <= combined_mass(weighted_rows, high),
    decreases high,
{
    if high > 0 {
        let row = weighted_rows[high - 1];
        lemma_row_mass_monotone(row.0@, 0, row.0.len() as int);
        assert(0 <= magnitude(row.1 as int) * row_mass(row.0@, row.0.len() as int))
            by (nonlinear_arith)
            requires
                0 <= magnitude(row.1 as int),
                0 <= row_mass(row.0@, row.0.len() as int),
        ;
        if low < high {
            lemma_combined_mass_monotone(weighted_rows, low, high - 1);
        } else {
            lemma_combined_mass_monotone(weighted_rows, low - 1, high - 1);
        }
    }
}

/// Adds up rows, each times its factor, and leaves out the entries of weight zero.
pub fn combine_sensor_rows(weighted_rows: &Vec<(&Vec<(usize, i64)>, i64)>) -> (row: Vec<
    (usize, i64),
>)
    requires
        combined_mass(weighted_rows@, weighted_rows.len() as int) <= i64::MAX,
    ensures
        canonical(row@),
        forall|field: spec_fn(int) -> int| #[trigger]
            pairing(row@, field) == combined_pairing(
                weighted_rows@,
                weighted_rows.len() as int,
                field,
            ),
        forall|i: int|
            0 <= i < row.len() ==> combined_has_edge(weighted_rows@, (#[trigger] row@[i]).0),
{
    let mut row: Vec<(usize, i64)> = Vec::new();
    let mut index: usize = 0;
    while index < weighted_rows.len()
        invariant
            index <= weighted_rows.len(),
            combined_mass(weighted_rows@, weighted_rows.len() as int) <= i64::MAX,
            sorted_entries(row@),
            weights_within(row@, combined_mass(weighted_rows@, index as int)),
            forall|field: spec_fn(int) -> int| #[trigger]
                pairing(row@, field) == combined_pairing(weighted_rows@, index as int, field),
            forall|i: int|
                0 <= i < row.len() ==> combined_has_edge(weighted_rows@, (#[trigger] row@[i]).0),
        decreases weighted_rows.len() - index,
    {
        let entries: &Vec<(usize, i64)> = weighted_rows[index].0;
        let scale: i64 = weighted_rows[index].1;
        let ghost start = row@;
        let ghost base = combined_mass(weighted_rows@, index as int);
        let ghost size = magnitude(scale as int);
        proof {
            lemma_combined_mass_monotone(weighted_rows@, 0, index as int);
            lemma_combined_mass_monotone(weighted_rows@, index + 1, weighted_rows.len() as int);
            assert(size * 0 == 0) by (nonlinear_arith);
            assert forall|field: spec_fn(int) -> int| #[trigger]
                pairing(row@, field) == pairing(start, field) + scaled_pairing(
                    entries@.take(0),
                    scale as int,
                    field,
                ) by {}
        }
        let mut position: usize = 0;
        while position < entries.len()
            invariant
                index < weighted_rows.len(),
                entries == weighted_rows@[index as int].0,
                position <= entries.len(),
                sorted_entries(row@),
                base >= 0,
                size == magnitude(scale as int),
                base + size * row_mass(entries@, entries.len() as int) <= i64::MAX,
                weights_within(row@, base + size * row_mass(entries@, position as int)),
                forall|field: spec_fn(int) -> int| #[trigger]
                    pairing(row@, field) == pairing(start, field) + scaled_pairing(
                        entries@.take(position as int),
                        scale as int,
                        field,
                    ),
                forall|i: int|
                    0 <= i < row.len() ==> combined_has_edge(weighted_rows@, (#[trigger] row@[i]).0),
            decreases entries.len() - position,
        {
            let entry: (usize, i64) = entries[position];
            let ghost done = row_mass(entries@, position as int);
            let ghost part = magnitude(entry.1 as int);
            let ghost before = row@;
            proof {
                lemma_row_mass_monotone(entries@, 0, position as int);
                lemma_row_mass_monotone(entries@, position + 1, entries.len() as int);
                assert(size * done + size * part == size * (done + part)) by (nonlinear_arith);
                assert(size * (done + part) <= size * row_mass(entries@, entries.len() as int))
                    by (nonlinear_arith)
                    requires
                        0 <= size,
                        done + part <= row_mass(entries@, entries.len() as int),
                ;
                assert(0 <= size * done) by (nonlinear_arith)
                    requires
                        0 <= size,
                        0 <= done,
                ;
                assert(-(size * part) <= scale * entry.1 <= size * part) by (nonlinear_arith)
                    requires
                        size == magnitude(scale as int),
                        part == magnitude(entry.1 as int),
                ;
                assert(0 <= size * part) by (nonlinear_arith)
                    requires
                        0 <= size,
                        0 <= part,
                ;
            }
            let weight: i64 = scale * entry.1;
            add_entry(&mut row, entry.0, weight, Ghost(base + size * done), Ghost(size * part));
            proof {
                assert forall|field: spec_fn(int) -> int| #[trigger]
                    pairing(row@, field) == pairing(start, field) + scaled_pairing(
                        entries@.take(position + 1),
                        scale as int,
                        field,
                    ) by {
                    assert(entries@.take(position + 1).drop_last() =~= entries@.take(
                        position as int,
                    ));
                    assert(entries@.take(position + 1).last() == entry);
                    assert(pairing(before, field) == pairing(start, field) + scaled_pairing(
                        entries@.take(position as int),
                        scale as int,
                        field,
                    ));
                }
                assert forall|i: int| 0 <= i < row.len() implies combined_has_edge(
                    weighted_rows@,
                    (#[trigger] row@[i]).0,
                ) by {
                    if row@[i].0 == entry.0 {
                        assert(weighted_rows@[index as int].0@[position as int].0 == entry.0);
                    } else {
                        let j = choose|j: int|
                            0 <= j < before.len() && (#[trigger] before[j]).0 == row@[i].0;
                        assert(combined_has_edge(weighted_rows@, before[j].0));
                    }
                }
            }
            position = position + 1;
        }
        proof {
            assert(entries@.take(position as int) =~= entries@);
            assert forall|field: spec_fn(int) -> int| #[trigger]
                pairing(row@, field) == combined_pairing(weighted_rows@, index + 1, field) by {
                lemma_scaled_pairing(entries@, scale as int, field);
                assert(pairing(start, field) == combined_pairing(
                    weighted_rows@,
                    index as int,
                    field,
                ));
            }
        }
        index = index + 1;
    }
    let kept = nonzero_entries(&row);
    proof {
        assert forall|i: int| 0 <= i < kept.len() implies combined_has_edge(
            weighted_rows@,
            (#[trigger] kept@[i]).0,
        ) by {
            let j = choose|j: int| 0 <= j < row@.len() && row@[j] == kept@[i];
            assert(combined_has_edge(weighted_rows@, row@[j].0));
        }
    }
    kept
}

/// Whether one of the rows has an entry for the edge.
pub open spec fn combined_has_edge(
    weighted_rows: Seq<(&Vec<(usize, i64)>, i64)>,
    edge: usize,
) -> bool {
    exists|r: int, k: int|
        #![trigger weighted_rows[r].0@[k]]
        0 <= r < weighted_rows.len() && 0 <= k < weighted_rows[r].0.len()
            && weighted_rows[r].0@[k].0 == edge
}

/// `1` where edge `e` ends at `v`, `-1` where it starts there, `0` elsewhere.
pub open spec fn incidence(edges: Seq<(usize, usize)>, v: int, e: int) -> int {
    (if edges[e].1 == v {
        1int
    } else {
        0int
    }) - (if edges[e].0 == v {
        1int
    } else {
        0int
    })
}

/// What flows into vertex `v` along a row, less what flows out.
pub open spec fn balance_at(
    edges: Seq<(usize, usize)>,
    entries: Seq<(usize, i64)>,
    v: int,
) -> int {
    pairing(entries, |e: int| incidence(edges, v, e))
}

/// The sum of the absolute values of the first `count` numbers.
pub open spec fn absolute_sum(values: spec_fn(int) -> int, count: int) -> int
    decreases count,
{
    if count <= 0 {
        0
    } else {
        absolute_sum(values, count - 1) + magnitude(values(count - 1))
    }
}

/// How far a row is from being closed: the sum of the absolute balances of all vertices.
pub open spec fn closure_residual(topology: MeshTopology, entries: Seq<(usize, i64)>) -> int {
    absolute_sum(
        |v: int| balance_at(topology.edges@, entries, v),
        topology.vertex_count as int,
    )
}

proof fn lemma_absolute_sum_equal(
    left: spec_fn(int) -> int,
    right: spec_fn(int) -> int,
    count: int,
)
    requires
        forall|v: int| 0 <= v < count ==> #[trigger] left(v) == right(v),
    ensures
        absolute_sum(left, count) == absolute_sum(right, count),
    decreases count,
{
    if count > 0 {
        lemma_absolute_sum_equal(left, right, count - 1);
        assert(left(count - 1) == right(count - 1));
    }
}

/// Changing one of the numbers changes the sum by no more than the change.
proof fn lemma_absolute_sum_change(
    left: spec_fn(int) -> int,
    right: spec_fn(int) -> int,
    count: int,
    at: int,
    change: int,
)
    requires
        forall|v: int| 0 <= v < count && v != at ==> #[trigger] left(v) == right(v),
        magnitude(right(at) - left(at)) <= change,
    ensures
        absolute_sum(right, count) <= absolute_sum(left, count) + change,
    decreases count,
{
    if count > 0 {
        if at == count - 1 {
            lemma_absolute_sum_equal(left, right, count - 1);
        } else {
            lemma_absolute_sum_change(left, right, count - 1, at, change);
            assert(left(count - 1) == right(count - 1));
        }
    }
}

proof fn lemma_absolute_sum_monotone(values: spec_fn(int) -> int, low: int, high: int)
    requires
        0 <= low <= high,
    ensures
        0 <= absolute_sum(values, low) <= absolute_sum(values, high),
    decreases high,
{
    if low < high {
        lemma_absolute_sum_monotone(values, low, high - 1);
    } else if low > 0 {
        lemma_absolute_sum_monotone(values, low - 1, high - 1);
    }
}

proof fn lemma_balance_push(
    edges: Seq<(usize, usize)>,
    entries: Seq<(usize, i64)>,
    entry: (usize, i64),
    v: int,
)
    requires
        edges[entry.0 as int].0 != edges[entry.0 as int].1,
    ensures
        balance_at(edges, entries.push(entry), v) == balance_at(edges, entries, v) + (
        if edges[entry.0 as int].1 == v {
            entry.1 as int
        } else if edges[entry.0 as int].0 == v {
            -entry.1
        } else {
            0
        }),
{
    let field = |e: int| incidence(edges, v, e);
    lemma_pairing_push(entries, entry, field);
    let value = incidence(edges, v, entry.0 as int);
    assert(entry.1 * 1 == entry.1 && entry.1 * -1 == -entry.1 && entry.1 * 0 == 0)
        by (nonlinear_arith);
    assert(entry.1 * field(entry.0 as int) == entry.1 * value);
}

/// Measures how far a row is from being closed.
pub fn cycle_closure_residual(topology: &MeshTopology, row: &Vec<(usize, i64)>) -> (residual: u128)
    requires
        topology.wf(),
        entries_in_range(row@, topology.edges.len() as nat),
    ensures
        residual == closure_residual(*topology, row@),
{
    let mut balance: Vec<i128> = Vec::new();
    while balance.len() < topology.vertex_count
        invariant
            balance.len() <= topology.vertex_count,
            forall|v: int| 0 <= v < balance.len() ==> #[trigger] balance@[v] == 0,
        decreases topology.vertex_count - balance.len(),
    {
        balance.push(0);
    }
    let ghost values = |v: int| balance@[v] as int;
    proof {
        lemma_absolute_sum_zero(values, topology.vertex_count as int);
    }
    let mut index: usize = 0;
    while index < row.len()
        invariant
            topology.wf(),
            entries_in_range(row@, topology.edges.len() as nat),
            index <= row.len(),
            balance.len() == topology.vertex_count,
            values == (|v: int| balance@[v] as int),
            forall|v: int|
                #![trigger balance@[v]]
                0 <= v < balance.len() ==> balance@[v] == balance_at(
                    topology.edges@,
                    row@.take(index as int),
                    v,
                ) && -(index * 0x8000_0000_0000_0000) <= balance@[v] <= index
                    * 0x8000_0000_0000_0000,
            absolute_sum(values, topology.vertex_count as int) <= index * 0x1_0000_0000_0000_0000,
        decreases row.len() - index,
    {
        let entry: (usize, i64) = row[index];
        assert(row@[index as int] == entry);
        let edge: (usize, usize) = topology.edges[entry.0];
        assert(topology.edges@[entry.0 as int] == edge);
        assert(edge.0 < topology.vertex_count && edge.1 < topology.vertex_count && edge.0
            != edge.1);
        let weight: i128 = entry.1 as i128;
        let ghost before = balance@;
        let ghost old_values = values;
        assert(-(index * 0x8000_0000_0000_0000) <= balance@[edge.0 as int] <= index
            * 0x8000_0000_0000_0000);
        assert(-(index * 0x8000_0000_0000_0000) <= balance@[edge.1 as int] <= index
            * 0x8000_0000_0000_0000);
        let tail: i128 = balance[edge.0] - weight;
        let head: i128 = balance[edge.1] + weight;
        balance.set(edge.0, tail);
        let ghost between = balance@;
        let ghost mid_values = |v: int| between[v] as int;
        balance.set(edge.1, head);
        proof {
            values = |v: int| balance@[v] as int;
            assert forall|v: int| 0 <= v < balance.len() implies #[trigger] balance@[v] == balance_at(
                topology.edges@,
                row@.take(index + 1),
                v,
            ) && -((index + 1) * 0x8000_0000_0000_0000) <= balance@[v] <= (index + 1)
                * 0x8000_0000_0000_0000 by {
                assert(before[v] == balance_at(topology.edges@, row@.take(index as int), v));
                assert(row@.take(index + 1) =~= row@.take(index as int).push(entry));
                lemma_balance_push(topology.edges@, row@.take(index as int), entry, v);
            }
            lemma_absolute_sum_change(
                old_values,
                mid_values,
                topology.vertex_count as int,
                edge.0 as int,
                0x8000_0000_0000_0000,
            );
            lemma_absolute_sum_change(
                mid_values,
                values,
                topology.vertex_count as int,
                edge.1 as int,
                0x8000_0000_0000_0000,
            );
        }
        index = index + 1;
    }
    assert(row@.take(index as int) =~= row@);
    let ghost total = absolute_sum(values, topology.vertex_count as int);
    let ghost exact = |v: int| balance_at(topology.edges@, row@, v);
    proof {
        assert forall|v: int| 0 <= v < topology.vertex_count implies #[trigger] values(v) == exact(
            v,
        ) by {
            assert(balance@[v] == balance_at(topology.edges@, row@, v));
        }
        lemma_absolute_sum_equal(values, exact, topology.vertex_count as int);
        assert(total <= 0xffff_ffff_ffff_ffff * 0x1_0000_0000_0000_0000);
    }
    let mut residual: u128 = 0;
    let mut vertex: usize = 0;
    while vertex < topology.vertex_count
        invariant
            vertex <= topology.vertex_count,
            balance.len() == topology.vertex_count,
            values == (|v: int| balance@[v] as int),
            total == absolute_sum(values, topology.vertex_count as int),
            total <= 0xffff_ffff_ffff_ffff * 0x1_0000_0000_0000_0000,
            residual == absolute_sum(values, vertex as int),
            forall|v: int|
                0 <= v < balance.len() ==> -0x7fff_ffff_ffff_ffff_ffff_ffff_ffff_ffff
                    <= #[trigger] balance@[v],
        decreases topology.vertex_count - vertex,
    {
        let value: i128 = balance[vertex];
        proof {
            lemma_absolute_sum_monotone(values, vertex + 1, topology.vertex_count as int);
        }
        let size: u128 = if value < 0 {
            (-value) as u128
        } else {
            value as u128
        };
        residual = residual + size;
        vertex = vertex + 1;
    }
    residual
}

proof fn lemma_absolute_sum_zero(values: spec_fn(int) -> int, count: int)
    requires
        forall|v: int| 0 <= v < count ==> #[trigger] values(v) == 0,
    ensures
        absolute_sum(values, count) == 0,
    decreases count,
{
    if count > 0 {
        lemma_absolute_sum_zero(values, count - 1);
        assert(values(count - 1) == 0);
    }
}

/// A row is closed exactly where the balance of every vertex is zero.
pub proof fn lemma_closed_row(topology: MeshTopology, entries: Seq<(usize, i64)>)
    ensures
        closure_residual(topology, entries) == 0 <==> forall|v: int|
            0 <= v < topology.vertex_count ==> #[trigger] balance_at(topology.edges@, entries, v)
                == 0,
{
    let values = |v: int| balance_at(topology.edges@, entries, v);
    let count = topology.vertex_count as int;
    if closure_residual(topology, entries) == 0 {
        assert forall|v: int| 0 <= v < count implies #[trigger] balance_at(
            topology.edges@,
            entries,
            v,
        ) == 0 by {
            lemma_absolute_sum_monotone(values, 0, v);
            lemma_absolute_sum_monotone(values, v + 1, count);
            assert(values(v) == balance_at(topology.edges@, entries, v));
        }
    }
    if forall|v: int|
        0 <= v < count ==> #[trigger] balance_at(topology.edges@, entries, v) == 0 {
        assert forall|v: int| 0 <= v < count implies #[trigger] values(v) == 0 by {
            assert(balance_at(topology.edges@, entries, v) == 0);
        }
        lemma_absolute_sum_zero(values, count);
    }
}

proof fn lemma_weight_absent(entries: Seq<(usize, i64)>, edge: int)
    requires
        forall|i: int| 0 <= i < entries.len() ==> (#[trigger] entries[i]).0 != edge,
    ensures
        weight_at(entries, edge) == 0,
    decreases entries.len(),
{
    if entries.len() > 0 {
        lemma_weight_absent(entries.drop_last(), edge);
        assert(entries[entries.len() - 1].0 != edge);
        assert(entries.last().1 * 0 == 0);
    }
}

/// In a sorted row, each entry holds the whole weight of its edge.
pub proof fn lemma_weight_of_entry(entries: Seq<(usize, i64)>, at: int)
    requires
        sorted_entries(entries),
        0 <= at < entries.len(),
    ensures
        weight_at(entries, entries[at].0 as int) == entries[at].1,
    decreases entries.len(),
{
    let edge = entries[at].0 as int;
    let shorter = entries.drop_last();
    if at == entries.len() - 1 {
        assert forall|i: int| 0 <= i < shorter.len() implies (#[trigger] shorter[i]).0 != edge by {
            assert(entries[i].0 < entries[at].0);
        }
        lemma_weight_absent(shorter, edge);
        assert(entries.last().1 * 1 == entries.last().1);
    } else {
        lemma_weight_of_entry(shorter, at);
        assert(entries[at].0 < entries[entries.len() - 1].0);
        assert(entries.last().1 * 0 == 0);
    }
}

/// A canonical row lists exactly the edges whose total weight is not zero, so two canonical rows
/// that weigh every edge the same are equal.
pub proof fn lemma_canonical_row_unique(left: Seq<(usize, i64)>, right: Seq<(usize, i64)>)
    requires
        canonical(left),
        canonical(right),
        forall|edge: int| #[trigger] weight_at(left, edge) == weight_at(right, edge),
    ensures
        left == right,
    decreases left.len(),
{
    if left.len() == 0 || right.len() == 0 {
        if left.len() > 0 {
            lemma_weight_of_entry(left, 0);
            lemma_weight_absent(right, left[0].0 as int);
        }
        if right.len() > 0 {
            lemma_weight_of_entry(right, 0);
            lemma_weight_absent(left, right[0].0 as int);
        }
        assert(left =~= right);
    } else {
        let l = left.last();
        let r = right.last();
        let left_end = left.len() - 1;
        let right_end = right.len() - 1;
        lemma_weight_of_entry(left, left_end);
        lemma_weight_of_entry(right, right_end);
        assert(l.0 == r.0) by {
            if l.0 < r.0 {
                assert forall|i: int| 0 <= i < left.len() implies (#[trigger] left[i]).0 != r.0 by {
                    if i < left_end {
                        assert(left[i].0 < left[left_end].0);
                    }
                }
                lemma_weight_absent(left, r.0 as int);
                assert(weight_at(left, r.0 as int) == weight_at(right, r.0 as int));
            }
            if r.0 < l.0 {
                assert forall|i: int| 0 <= i < right.len() implies (#[trigger] right[i]).0 != l.0 by {
                    if i < right_end {
                        assert(right[i].0 < right[right_end].0);
                    }
                }
                lemma_weight_absent(right, l.0 as int);
                assert(weight_at(left, l.0 as int) == weight_at(right, l.0 as int));
            }
        }
        assert(weight_at(left, l.0 as int) == weight_at(right, l.0 as int));
        assert(l == r);
        let shorter_left = left.drop_last();
        let shorter_right = right.drop_last();
        assert(canonical(shorter_left));
        assert(canonical(shorter_right));
        assert forall|edge: int| #[trigger] weight_at(shorter_left, edge) == weight_at(
            shorter_right,
            edge,
        ) by {
            assert(weight_at(left, edge) == weight_at(right, edge));
        }
        lemma_canonical_row_unique(shorter_left, shorter_right);
        assert(left =~= shorter_left.push(l));
        assert(right =~= shorter_right.push(r));
    }
}

/// Where a row that lists only edges of the mesh weighs every edge as a canonical row does, the
/// canonical row lists only edges of the mesh too.
pub proof fn lemma_canonical_in_range(
    entries: Seq<(usize, i64)>,
    listed: Seq<(usize, i64)>,
    edge_count: nat,
)
    requires
        canonical(entries),
        entries_in_range(listed, edge_count),
        forall|field: spec_fn(int) -> int| #[trigger]
            pairing(entries, field) == pairing(listed, field),
    ensures
        entries_in_range(entries, edge_count),
{
    assert forall|i: int| 0 <= i < entries.len() implies (#[trigger] entries[i]).0 < edge_count by {
        if entries[i].0 >= edge_count {
            let edge = entries[i].0 as int;
            lemma_weight_of_entry(entries, i);
            lemma_weight_absent(listed, edge);
            let field = |e: int|
                if e == edge {
                    1int
                } else {
                    0int
                };
            assert(pairing(entries, field) == pairing(listed, field));
            assert(weight_at(entries, edge) == pairing(entries, field));
            assert(weight_at(listed, edge) == pairing(listed, field));
        }
    }
}

} // verus!
