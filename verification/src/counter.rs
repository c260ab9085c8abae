//! The shared in-memory counter, and the linearizability argument for it:
//! every `add` is fully applied, so the final value is the starting value
//! plus the sum of all deltas, whatever order concurrent callers ran in.

use vstd::prelude::*;

verus! {

/// Atomic counter: the single source of truth read and written by request
/// handlers. Its value never decreases — it is mutated only by `add` with a
/// non-negative delta, or by a single startup `set` that seeds it from
/// persisted state.
pub struct Count {
    value: u64,
}

impl View for Count {
    type V = u64;

    closed spec fn view(&self) -> u64 {
        self.value
    }
}

impl Default for Count {
    /// A fresh counter holds zero.
    fn default() -> (result: Self)
        ensures
            result@ == 0,
    {
        Count { value: 0 }
    }
}

impl Count {
    /// Returns the current value.
    pub fn get(&self) -> (value: u64)
        ensures
            value == self@,
    {
        self.value
    }

    /// Adds `value` to `self`, returning the value before the addition.
    /// This is the only mutation after installation, so the counter never
    /// decreases once seeded.
    pub fn add(&mut self, value: u64) -> (previous: u64)
        requires
            old(self)@ + value <= u64::MAX,
        ensures
            previous == old(self)@,
            final(self)@ == old(self)@ + value,
            final(self)@ >= old(self)@,
    {
        let previous = self.value;
        self.value = self.value + value;
        previous
    }

    /// Replaces the value, returning the previous one. Used exactly once, at
    /// backend installation, to seed the counter from persisted state.
    pub fn set(&mut self, value: u64) -> (previous: u64)
        ensures
            previous == old(self)@,
            final(self)@ == value,
    {
        let previous = self.value;
        self.value = value;
        previous
    }
}

/// The sum of a sequence of deltas.
pub open spec fn sum_of(deltas: Seq<u64>) -> int
    decreases deltas.len(),
{
    if deltas.len() == 0 {
        0
    } else {
        sum_of(deltas.drop_last()) + deltas.last()
    }
}

/// The counter value after a sequence of `add` calls, applied in order.
pub open spec fn after_adds(start: int, deltas: Seq<u64>) -> int
    decreases deltas.len(),
{
    if deltas.len() == 0 {
        start
    } else {
        after_adds(start, deltas.drop_last()) + deltas.last()
    }
}

/// Removing one delta from a sequence removes exactly its contribution from
/// the sum.
proof fn lemma_sum_of_remove(deltas: Seq<u64>, i: int)
    requires
        0 <= i < deltas.len(),
    ensures
        sum_of(deltas.remove(i)) == sum_of(deltas) - deltas[i],
    decreases deltas.len(),
{
    if i == deltas.len() - 1 {
        assert(deltas.remove(i) =~= deltas.drop_last());
    } else {
        let shorter = deltas.drop_last();
        lemma_sum_of_remove(shorter, i);
        assert(deltas.remove(i).drop_last() =~= shorter.remove(i));
        assert(deltas.remove(i).last() == deltas.last());
    }
}

/// Two sequences holding the same deltas (as a multiset, so in any order)
/// have the same sum.
pub proof fn lemma_sum_of_permutation(a: Seq<u64>, b: Seq<u64>)
    requires
        a.to_multiset() == b.to_multiset(),
    ensures
        sum_of(a) == sum_of(b),
    decreases a.len(),
{
    broadcast use vstd::seq_lib::group_to_multiset_ensures;

    if a.len() == 0 {
        assert(b.to_multiset().len() == 0);
    } else {
        let x = a.last();
        let a1 = a.drop_last();
        assert(a =~= a1.push(x));
        assert(a.to_multiset().count(x) > 0) by {
            assert(a.contains(x));
        }
        assert(b.contains(x));
        let i = choose|i: int| 0 <= i < b.len() && b[i] == x;
        let b1 = b.remove(i);
        assert(a1.to_multiset() =~= b1.to_multiset()) by {
            assert(a1.push(x).to_multiset() =~= a1.to_multiset().insert(x));
            assert(b1.to_multiset() =~= b.to_multiset().remove(x));
        }
        lemma_sum_of_permutation(a1, b1);
        lemma_sum_of_remove(b, i);
    }
}

/// Applying a sequence of `add` calls in order yields the starting value
/// plus the sum of the deltas.
pub proof fn lemma_after_adds_is_sum(start: int, deltas: Seq<u64>)
    ensures
        after_adds(start, deltas) == start + sum_of(deltas),
    decreases deltas.len(),
{
    if deltas.len() > 0 {
        lemma_after_adds_is_sum(start, deltas.drop_last());
    }
}

/// Linearizability of the counter: for any two interleavings of the same
/// `add` calls — any two orders holding the same deltas — the final value is
/// the same, namely the starting value plus the sum of all deltas. No
/// increment is lost or double-counted.
pub proof fn lemma_adds_linearizable(start: int, order_a: Seq<u64>, order_b: Seq<u64>)
    requires
        order_a.to_multiset() == order_b.to_multiset(),
    ensures
        after_adds(start, order_a) == after_adds(start, order_b),
        after_adds(start, order_a) == start + sum_of(order_a),
{
    lemma_after_adds_is_sum(start, order_a);
    lemma_after_adds_is_sum(start, order_b);
    lemma_sum_of_permutation(order_a, order_b);
}

} // verus!
