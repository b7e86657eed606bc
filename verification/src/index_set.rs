//! Sets of indices, held in increasing order.

use vstd::prelude::*;

verus! {

/// Whether each item is larger than the ones before it.
pub open spec fn strictly_increasing(items: Seq<usize>) -> bool {
    forall|i: int, j: int| 0 <= i < j < items.len() ==> #[trigger] items[i] < #[trigger] items[j]
}

/// A set of indices. Its items are kept in increasing order.
#[derive(Debug)]
pub struct IndexSet {
    items: Vec<usize>,
}

impl View for IndexSet {
    type V = Set<usize>;

    closed spec fn view(&self) -> Set<usize> {
        self.items@.to_set()
    }
}

impl IndexSet {
    /// The items in increasing order.
    pub closed spec fn sequence(&self) -> Seq<usize> {
        self.items@
    }

    pub open spec fn wf(&self) -> bool {
        &&& strictly_increasing(self.sequence())
        &&& self@ == self.sequence().to_set()
    }

    /// The empty set.
    pub fn new() -> (set: Self)
        ensures
            set.wf(),
            set@ == Set::<usize>::empty(),
            set.sequence() == Seq::<usize>::empty(),
    {
        let set = IndexSet { items: Vec::new() };
        assert(set.items@.to_set() =~= Set::<usize>::empty());
        set
    }

    /// The number of items.
    pub fn len(&self) -> (count: usize)
        ensures
            count == self.sequence().len(),
    {
        self.items.len()
    }

    /// Whether the set holds nothing.
    pub fn is_empty(&self) -> (empty: bool)
        ensures
            empty == (self.sequence().len() == 0),
    {
        self.items.len() == 0
    }

    /// The items in increasing order.
    pub fn as_vec(&self) -> (items: &Vec<usize>)
        ensures
            items@ == self.sequence(),
    {
        &self.items
    }

    /// Whether the set holds `index`.
    pub fn contains(&self, index: usize) -> (found: bool)
        requires
            self.wf(),
        ensures
            found == self@.contains(index),
    {
        let mut low: usize = 0;
        let mut high: usize = self.items.len();
        while low < high
            invariant
                low <= high <= self.items.len(),
                strictly_increasing(self.items@),
                forall|i: int| 0 <= i < low ==> #[trigger] self.items@[i] < index,
                forall|i: int| high <= i < self.items.len() ==> index < #[trigger] self.items@[i],
            decreases high - low,
        {
            let middle: usize = low + (high - low) / 2;
            let item: usize = self.items[middle];
            if item == index {
                assert(self.items@.contains(index));
                return true;
            }
            if item < index {
                low = middle + 1;
            } else {
                high = middle;
            }
        }
        assert(!self.items@.contains(index)) by {
            if self.items@.contains(index) {
                let i = choose|i: int| 0 <= i < self.items@.len() && self.items@[i] == index;
                assert(i < low || high <= i);
            }
        }
        false
    }

    /// Adds `index`.
    pub fn insert(&mut self, index: usize)
        requires
            old(self).wf(),
        ensures
            final(self).wf(),
            final(self)@ == old(self)@.insert(index),
    {
        let mut position: usize = 0;
        while position < self.items.len() && self.items[position] < index
            invariant
                position <= self.items.len(),
                self.items@ == old(self).items@,
                forall|i: int| 0 <= i < position ==> #[trigger] self.items@[i] < index,
            decreases self.items.len() - position,
        {
            position = position + 1;
        }
        if position < self.items.len() && self.items[position] == index {
            assert(self.items@[position as int] == index);
            assert(self@ =~= old(self)@.insert(index));
        } else {
            let ghost before = self.items@;
            self.items.insert(position, index);
            proof {
                let after = self.items@;
                assert(after == before.insert(position as int, index));
                assert forall|i: int, j: int| 0 <= i < j < after.len() implies #[trigger] after[i]
                    < #[trigger] after[j] by {
                    let k = if i < position {
                        i
                    } else {
                        i - 1
                    };
                    let l = if j < position {
                        j
                    } else {
                        j - 1
                    };
                    if i != position {
                        assert(after[i] == before[k]);
                    }
                    if j != position {
                        assert(after[j] == before[l]);
                    }
                    if position < before.len() {
                        assert(before[position as int] > index);
                        if l > position {
                            assert(before[position as int] < before[l]);
                        }
                    }
                }
                assert forall|x: usize| after.to_set().contains(x) == (before.to_set().contains(x) || x
                    == index) by {
                    if before.contains(x) {
                        let i = choose|i: int| 0 <= i < before.len() && before[i] == x;
                        if i < position {
                            assert(after[i] == x);
                        } else {
                            assert(after[i + 1] == x);
                        }
                    }
                    if x == index {
                        assert(after[position as int] == x);
                    }
                    if after.contains(x) {
                        let i = choose|i: int| 0 <= i < after.len() && after[i] == x;
                        if i < position {
                            assert(before[i] == x);
                        } else if i > position {
                            assert(before[i - 1] == x);
                        }
                    }
                }
                assert(self@ =~= old(self)@.insert(index));
            }
        }
    }

    /// Adds every index of the list.
    pub fn extend(&mut self, indices: &Vec<usize>)
        requires
            old(self).wf(),
        ensures
            final(self).wf(),
            final(self)@ == old(self)@.union(indices@.to_set()),
    {
        let mut position: usize = 0;
        proof {
            assert(self@ =~= old(self)@.union(indices@.take(0).to_set()));
        }
        while position < indices.len()
            invariant
                position <= indices.len(),
                self.wf(),
                self@ == old(self)@.union(indices@.take(position as int).to_set()),
            decreases indices.len() - position,
        {
            let ghost before = indices@.take(position as int);
            let ghost after = indices@.take(position + 1);
            self.insert(indices[position]);
            proof {
                assert(after =~= before.push(indices@[position as int]));
                assert forall|x: usize| after.to_set().contains(x) == (before.to_set().contains(x) || x
                    == indices@[position as int]) by {
                    if before.contains(x) {
                        let i = choose|i: int| 0 <= i < before.len() && before[i] == x;
                        assert(after[i] == x);
                    }
                    if x == indices@[position as int] {
                        assert(after[position as int] == x);
                    }
                    if after.contains(x) {
                        let i = choose|i: int| 0 <= i < after.len() && after[i] == x;
                        if i < position {
                            assert(before[i] == x);
                        }
                    }
                }
                assert(self@ =~= old(self)@.union(after.to_set()));
            }
            position = position + 1;
        }
        assert(indices@.take(position as int) =~= indices@);
    }
}

/// A set of indices has one increasing sequence.
pub proof fn lemma_increasing_sequence_unique(left: Seq<usize>, right: Seq<usize>)
    requires
        strictly_increasing(left),
        strictly_increasing(right),
        left.to_set() == right.to_set(),
    ensures
        left == right,
    decreases left.len(),
{
    if left.len() == 0 {
        if right.len() > 0 {
            assert(right.to_set().contains(right[0]));
            assert(left.contains(right[0]));
        }
        assert(left =~= right);
    } else {
        assert(left.to_set().contains(left.last()));
        assert(right.contains(left.last()));
        assert(right.to_set().contains(right.last()));
        assert(left.contains(right.last()));
        let i = choose|i: int| 0 <= i < right.len() && right[i] == left.last();
        let j = choose|j: int| 0 <= j < left.len() && left[j] == right.last();
        assert(left.last() == right.last()) by {
            if i < right.len() - 1 {
                assert(right[i] < right[right.len() - 1]);
            }
            if j < left.len() - 1 {
                assert(left[j] < left[left.len() - 1]);
            }
        }
        let shorter_left = left.drop_last();
        let shorter_right = right.drop_last();
        assert forall|x: usize| shorter_left.to_set().contains(x) == shorter_right.to_set().contains(
            x,
        ) by {
            assert(left.to_set().contains(x) == right.to_set().contains(x));
            if shorter_left.contains(x) {
                let k = choose|k: int| 0 <= k < shorter_left.len() && shorter_left[k] == x;
                assert(left[k] == x);
                assert(left[k] < left[left.len() - 1]);
                assert(left.contains(x));
                assert(left.to_set().contains(x));
                assert(right.contains(x));
                let l = choose|l: int| 0 <= l < right.len() && right[l] == x;
                assert(l < right.len() - 1);
                assert(shorter_right[l] == x);
            }
            if shorter_right.contains(x) {
                let k = choose|k: int| 0 <= k < shorter_right.len() && shorter_right[k] == x;
                assert(right[k] == x);
                assert(right[k] < right[right.len() - 1]);
                assert(right.contains(x));
                assert(right.to_set().contains(x));
                assert(left.contains(x));
                let l = choose|l: int| 0 <= l < left.len() && left[l] == x;
                assert(l < left.len() - 1);
                assert(shorter_left[l] == x);
            }
        }
        assert(shorter_left.to_set() =~= shorter_right.to_set());
        lemma_increasing_sequence_unique(shorter_left, shorter_right);
        assert(left =~= shorter_left.push(left.last()));
        assert(right =~= shorter_right.push(right.last()));
    }
}

} // verus!
