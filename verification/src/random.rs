//! Seeded random generators and shuffles.

use rand::rngs::StdRng;
use rand::seq::SliceRandom;
use rand::SeedableRng;
use vstd::prelude::*;

verus! {

/// The standard generator of the `rand` crate, carried as an opaque value.
#[verifier::external_type_specification]
#[verifier::external_body]
pub struct ExStdRng(StdRng);

/// The generator that `StdRng::seed_from_u64` makes of a seed.
pub uninterp spec fn seeded(seed: u64) -> StdRng;

/// Calls `StdRng::seed_from_u64`, which expands the seed into the key of a stream cipher: one seed
/// gives one generator.
#[verifier::external_body]
pub(crate) fn seeded_generator(seed: u64) -> (generator: StdRng)
    ensures
        generator == seeded(seed),
{
    StdRng::seed_from_u64(seed)
}

/// What `SliceRandom::shuffle` makes of a slice and of the generator that it draws from.
pub uninterp spec fn shuffle(generator: StdRng, items: Seq<usize>) -> (Seq<usize>, StdRng);

/// Calls `SliceRandom::shuffle`, which swaps places that it draws from the generator: the outcome
/// depends on the generator and the slice alone, and no item is lost or doubled.
#[verifier::external_body]
pub(crate) fn shuffle_indices(items: &mut Vec<usize>, generator: &mut StdRng)
    ensures
        final(items)@ == shuffle(*old(generator), old(items)@).0,
        *final(generator) == shuffle(*old(generator), old(items)@).1,
        final(items)@.to_multiset() == old(items)@.to_multiset(),
{
    items.shuffle(generator);
}

/// Whether `order` lists each number below `count` once.
pub open spec fn is_permutation(order: Seq<usize>, count: nat) -> bool {
    &&& order.len() == count
    &&& order.no_duplicates()
    &&& forall|i: int| 0 <= i < order.len() ==> #[trigger] order[i] < count
}

/// The numbers below `count` in order.
pub open spec fn numbers(count: nat) -> Seq<usize> {
    Seq::new(count, |i: int| i as usize)
}

/// The numbers below `count` as a shuffle leaves them.
pub open spec fn shuffled(generator: StdRng, count: nat) -> Seq<usize> {
    shuffle(generator, numbers(count)).0
}

/// The generator after it has shuffled the numbers below `count`.
pub open spec fn after_shuffle(generator: StdRng, count: nat) -> StdRng {
    shuffle(generator, numbers(count)).1
}

/// The numbers below `count` in a random order.
pub fn shuffled_order(count: usize, generator: &mut StdRng) -> (order: Vec<usize>)
    ensures
        is_permutation(order@, count as nat),
        order@ == shuffled(*old(generator), count as nat),
        *final(generator) == after_shuffle(*old(generator), count as nat),
{
    let mut order: Vec<usize> = Vec::new();
    while order.len() < count
        invariant
            order.len() <= count,
            forall|i: int| 0 <= i < order.len() ==> #[trigger] order@[i] == i,
        decreases count - order.len(),
    {
        let next: usize = order.len();
        order.push(next);
    }
    let ghost before = order@;
    assert(before =~= numbers(count as nat));
    shuffle_indices(&mut order, generator);
    proof {
        let after = order@;
        before.to_multiset_ensures();
        after.to_multiset_ensures();
        assert(before.no_duplicates());
        before.lemma_multiset_has_no_duplicates();
        after.lemma_multiset_has_no_duplicates_conv();
        assert forall|i: int| 0 <= i < after.len() implies #[trigger] after[i] < count by {
            assert(after.contains(after[i]));
            assert(after.to_multiset().count(after[i]) > 0);
            assert(before.contains(after[i]));
        }
    }
    order
}

} // verus!
