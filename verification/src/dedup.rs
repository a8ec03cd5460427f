//! Bounded set of recently seen gossip delivery ids.
//!
//! The coordinator keeps the ids of recent deliveries so that a message
//! relayed by several mesh peers is surfaced only once. The set has a
//! fixed capacity; once full, the oldest entry (by insertion order) makes
//! room for a new one, so memory stays bounded under adversarial load.

use vstd::prelude::*;

verus! {

/// A fixed-capacity set of delivery ids with insertion-order eviction.
pub struct DedupCache {
    pub entries: Vec<u64>,
    pub capacity: usize,
}

impl DedupCache {
    /// True when `id` was seen recently enough to still be held.
    pub open spec fn holds(&self, id: u64) -> bool {
        self.entries@.contains(id)
    }

    /// The entries are pairwise distinct, never more than the capacity,
    /// and the capacity is positive.
    pub open spec fn wf(&self) -> bool {
        &&& self.capacity >= 1
        &&& self.entries@.len() <= self.capacity
        &&& forall|i: int, j: int|
            0 <= i < j < self.entries@.len() ==> self.entries@[i] != self.entries@[j]
    }

    pub fn new(capacity: usize) -> (r: Self)
        requires
            capacity >= 1,
        ensures
            r.wf(),
            r.capacity == capacity,
            r.entries@.len() == 0,
    {
        DedupCache { entries: Vec::new(), capacity }
    }

    /// Whether `id` is currently held.
    pub fn contains(&self, id: u64) -> (r: bool)
        ensures
            r == self.holds(id),
    {
        let mut i: usize = 0;
        while i < self.entries.len()
            invariant
                i <= self.entries@.len(),
                forall|j: int| 0 <= j < i ==> self.entries@[j] != id,
            decreases self.entries@.len() - i,
        {
            if self.entries[i] == id {
                return true;
            }
            i += 1;
        }
        proof {
            if self.entries@.contains(id) {
                let j = choose|j: int| 0 <= j < self.entries@.len() && self.entries@[j] == id;
                assert(false);
            }
        }
        false
    }

    /// Records `id`; returns whether it is a first sighting. When the set
    /// is full, the oldest entry is dropped to make room.
    pub fn insert(&mut self, id: u64) -> (fresh: bool)
        requires
            old(self).wf(),
        ensures
            final(self).wf(),
            final(self).capacity == old(self).capacity,
            fresh == !old(self).holds(id),
            final(self).holds(id),
            !fresh ==> final(self).entries@ == old(self).entries@,
            fresh && old(self).entries@.len() < old(self).capacity ==> final(self).entries@ == old(
                self,
            ).entries@.push(id),
            fresh && old(self).entries@.len() == old(self).capacity ==> final(self).entries@ == old(
                self,
            ).entries@.subrange(1, old(self).entries@.len() as int).push(id),
            forall|x: u64| x != id ==> (final(self).holds(x) ==> old(self).holds(x)),
    {
        if self.contains(id) {
            return false;
        }
        if self.entries.len() == self.capacity {
            let _ = self.entries.remove(0);
            proof {
                assert(self.entries@ =~= old(self).entries@.subrange(
                    1,
                    old(self).entries@.len() as int,
                ));
            }
        }
        self.entries.push(id);
        proof {
            assert(self.entries@.last() == id);
            assert(self.holds(id));
            assert forall|x: u64| x != id && final(self).holds(x) implies old(self).holds(x) by {
                let j = choose|j: int|
                    0 <= j < self.entries@.len() && self.entries@[j] == x;
                if old(self).entries@.len() == old(self).capacity {
                    assert(old(self).entries@[j + 1] == x);
                } else {
                    assert(old(self).entries@[j] == x);
                }
            }
            assert forall|i: int, j: int|
                0 <= i < j < self.entries@.len() implies self.entries@[i] != self.entries@[j] by {
                if j == self.entries@.len() - 1 {
                    assert(self.entries@[i] != id) by {
                        if old(self).entries@.len() == old(self).capacity {
                            assert(old(self).entries@[i + 1] == self.entries@[i]);
                            assert(old(self).entries@.contains(self.entries@[i]));
                        } else {
                            assert(old(self).entries@[i] == self.entries@[i]);
                            assert(old(self).entries@.contains(self.entries@[i]));
                        }
                    }
                }
            }
        }
        true
    }
}

} // verus!
