//! Epoch-bounded cache of observed attesting validators.
//!
//! The cache answers "has validator index V already been observed attesting
//! in epoch E?" while retaining at most [`MAX_RETAINED_EPOCHS`] epochs of
//! history. Older epochs are evicted by a sliding window that follows the
//! highest epoch presented, and queries below the window's floor are
//! rejected rather than silently accepted.

use vstd::prelude::*;

verus! {

/// Upper bound on acceptable validator indices; requests beyond it are
/// rejected so that a hostile message cannot force an unbounded allocation.
pub const VALIDATOR_REGISTRY_LIMIT: u64 = 1099511627776;

/// Number of epochs the cache retains: the current epoch and the one before
/// it. Gossip clock disparity is bounded below one slot, so a legitimate
/// attestation can only target these two epochs.
pub const MAX_RETAINED_EPOCHS: u64 = 2;

/// Initial bit capacity used for a new epoch's bitfield when no earlier
/// epoch is available to estimate the validator-set size from.
pub const DEFAULT_BITFIELD_CAPACITY: usize = 128;

#[derive(Debug, Clone, Copy, PartialEq, Eq, Structural)]
pub enum Error {
    /// The requested epoch is below the lowest epoch the cache still
    /// retains knowledge of; the caller presented a stale epoch.
    EpochTooLow { epoch: u64, lowest_permissible_epoch: u64 },
    /// An internally computed bucket index was out of range. This signals a
    /// broken invariant and never occurs in correct operation.
    InvalidBitfieldIndex(usize),
    /// Reserved: a cap on distinct observations per slot. No operation
    /// currently enforces it, and no code path produces this variant.
    ReachedMaxObservationsPerSlot(usize),
    /// The validator index exceeds [`VALIDATOR_REGISTRY_LIMIT`].
    ValidatorIndexTooHigh(usize),
}

/// A growable bitfield recording which validator indices have been observed
/// in one particular epoch: bit `i` set means validator `i` was observed.
pub struct EpochBitfield {
    pub epoch: u64,
    pub bitfield: Vec<bool>,
}

impl EpochBitfield {
    /// True when validator index `i` is recorded as observed.
    pub open spec fn has(&self, i: usize) -> bool {
        i < self.bitfield@.len() && self.bitfield@[i as int]
    }

    /// All bits the field can ever hold stay within the registry limit
    /// plus one (indices are checked before the field is grown).
    pub open spec fn wf(&self) -> bool {
        self.bitfield@.len() <= VALIDATOR_REGISTRY_LIMIT + 1
    }

    pub fn new(epoch: u64, initial_capacity: usize) -> (r: Self)
        ensures
            r.epoch == epoch,
            r.bitfield@.len() == 0,
            r.wf(),
    {
        EpochBitfield { epoch, bitfield: Vec::with_capacity(initial_capacity) }
    }

    /// Records validator `validator_index` as observed, growing the bitfield
    /// if needed; returns whether it had been observed before.
    pub fn observe_attesting_validator(&mut self, validator_index: usize) -> (r: Result<
        bool,
        Error,
    >)
        requires
            old(self).wf(),
        ensures
            final(self).wf(),
            final(self).epoch == old(self).epoch,
            validator_index as u64 > VALIDATOR_REGISTRY_LIMIT ==> {
                &&& r == Err::<bool, Error>(Error::ValidatorIndexTooHigh(validator_index))
                &&& final(self).bitfield@ == old(self).bitfield@
            },
            validator_index as u64 <= VALIDATOR_REGISTRY_LIMIT ==> {
                &&& r == Ok::<bool, Error>(old(self).has(validator_index))
                &&& forall|j: usize| final(self).has(j) <==> (old(self).has(j) || j
                    == validator_index)
                &&& final(self).bitfield@.len() == if validator_index < old(
                    self,
                ).bitfield@.len() {
                    old(self).bitfield@.len() as int
                } else {
                    validator_index + 1
                }
            },
    {
        if validator_index as u64 > VALIDATOR_REGISTRY_LIMIT {
            return Err(Error::ValidatorIndexTooHigh(validator_index));
        }
        if validator_index < self.bitfield.len() {
            let already = self.bitfield[validator_index];
            if !already {
                self.bitfield[validator_index] = true;
            }
            assert(forall|j: usize|
                final(self).has(j) <==> (old(self).has(j) || j == validator_index));
            Ok(already)
        } else {
            while self.bitfield.len() < validator_index
                invariant
                    old(self).bitfield@.len() <= self.bitfield@.len() <= validator_index,
                    validator_index as u64 <= VALIDATOR_REGISTRY_LIMIT,
                    self.epoch == old(self).epoch,
                    self.bitfield@.subrange(0, old(self).bitfield@.len() as int) == old(
                        self,
                    ).bitfield@,
                    forall|j: int|
                        old(self).bitfield@.len() <= j < self.bitfield@.len()
                            ==> !self.bitfield@[j],
                decreases validator_index - self.bitfield@.len(),
            {
                self.bitfield.push(false);
            }
            self.bitfield.push(true);
            assert(forall|j: usize|
                final(self).has(j) <==> (old(self).has(j) || j == validator_index)) by {
                assert(forall|j: usize|
                    j < old(self).bitfield@.len() ==> self.bitfield@[j as int] == old(
                        self,
                    ).bitfield@[j as int]);
            }
            Ok(false)
        }
    }

    /// Pure query: has validator `validator_index` been observed?
    pub fn has_attested(&self, validator_index: usize) -> (r: Result<bool, Error>)
        ensures
            validator_index as u64 > VALIDATOR_REGISTRY_LIMIT ==> r == Err::<bool, Error>(
                Error::ValidatorIndexTooHigh(validator_index),
            ),
            validator_index as u64 <= VALIDATOR_REGISTRY_LIMIT ==> r == Ok::<bool, Error>(
                self.has(validator_index),
            ),
    {
        if validator_index as u64 > VALIDATOR_REGISTRY_LIMIT {
            return Err(Error::ValidatorIndexTooHigh(validator_index));
        }
        if validator_index < self.bitfield.len() {
            Ok(self.bitfield[validator_index])
        } else {
            Ok(false)
        }
    }

    /// Number of bits currently stored.
    pub fn len(&self) -> (r: usize)
        ensures
            r == self.bitfield@.len(),
    {
        self.bitfield.len()
    }
}

/// Sliding-window store of per-epoch observation bitfields.
///
/// At most [`MAX_RETAINED_EPOCHS`] bitfields are retained, their epochs are
/// pairwise distinct and never below `lowest_permissible_epoch`, and the
/// floor only ever moves upward.
pub struct ObservedAttesters {
    pub lowest_permissible_epoch: u64,
    pub bitfields: Vec<EpochBitfield>,
}

/// Number of entries of `s` whose epoch is at least `floor`.
pub open spec fn count_ge(s: Seq<EpochBitfield>, floor: u64) -> int
    decreases s.len(),
{
    if s.len() == 0 {
        0
    } else {
        count_ge(s.drop_last(), floor) + if s.last().epoch >= floor {
            1int
        } else {
            0int
        }
    }
}

proof fn lemma_count_ge_small(s: Seq<EpochBitfield>, floor: u64)
    requires
        s.len() <= 2,
    ensures
        s.len() == 0 ==> count_ge(s, floor) == 0,
        s.len() == 1 ==> count_ge(s, floor) == (if s[0].epoch >= floor {
            1int
        } else {
            0int
        }),
        s.len() == 2 ==> count_ge(s, floor) == (if s[0].epoch >= floor {
            1int
        } else {
            0int
        }) + (if s[1].epoch >= floor {
            1int
        } else {
            0int
        }),
{
    if s.len() == 1 {
        assert(s.drop_last().len() == 0);
        assert(count_ge(s.drop_last(), floor) == 0);
        assert(s.last() == s[0]);
    } else if s.len() == 2 {
        assert(s.drop_last().len() == 1);
        assert(s.drop_last().drop_last().len() == 0);
        assert(count_ge(s.drop_last().drop_last(), floor) == 0);
        assert(s.drop_last().last() == s[0]);
        assert(count_ge(s.drop_last(), floor) == (if s[0].epoch >= floor {
            1int
        } else {
            0int
        }));
        assert(s.last() == s[1]);
    }
}

/// `posts` holds exactly the entries of `pres` whose epoch is at least
/// `target`: the counts match, and membership and recorded bits carry over.
pub open spec fn window_kept(
    pres: Seq<EpochBitfield>,
    posts: Seq<EpochBitfield>,
    target: u64,
) -> bool {
    &&& posts.len() == count_ge(pres, target)
    &&& forall|e: u64| #[trigger] seq_retains(posts, e) <==> (seq_retains(pres, e) && e >= target)
    &&& forall|e: u64, v: usize| #[trigger]
        seq_observed(posts, e, v) <==> (seq_observed(pres, e, v) && e >= target)
}

proof fn lemma_window_kept_all(pres: Seq<EpochBitfield>, target: u64)
    requires
        pres.len() <= 2,
        forall|i: int| 0 <= i < pres.len() ==> (#[trigger] pres[i]).epoch >= target,
    ensures
        window_kept(pres, pres, target),
{
    lemma_count_ge_small(pres, target);
    assert forall|e: u64| #[trigger]
        seq_retains(pres, e) <==> (seq_retains(pres, e) && e >= target) by {
        if seq_retains(pres, e) {
            let i = choose|i: int| 0 <= i < pres.len() && (#[trigger] pres[i]).epoch == e;
            assert(pres[i].epoch >= target);
        }
    }
    assert forall|e: u64, v: usize| #[trigger]
        seq_observed(pres, e, v) <==> (seq_observed(pres, e, v) && e >= target) by {
        if seq_observed(pres, e, v) {
            let i = choose|i: int|
                0 <= i < pres.len() && (#[trigger] pres[i]).epoch == e && pres[i].has(v);
            assert(pres[i].epoch >= target);
        }
    }
}

proof fn lemma_window_kept_none(pres: Seq<EpochBitfield>, target: u64)
    requires
        pres.len() <= 2,
        forall|i: int| 0 <= i < pres.len() ==> (#[trigger] pres[i]).epoch < target,
    ensures
        window_kept(pres, Seq::<EpochBitfield>::empty(), target),
{
    lemma_count_ge_small(pres, target);
    let posts = Seq::<EpochBitfield>::empty();
    assert forall|e: u64| #[trigger]
        seq_retains(posts, e) <==> (seq_retains(pres, e) && e >= target) by {
        if seq_retains(pres, e) && e >= target {
            let i = choose|i: int| 0 <= i < pres.len() && (#[trigger] pres[i]).epoch == e;
            assert(pres[i].epoch < target);
        }
    }
    assert forall|e: u64, v: usize| #[trigger]
        seq_observed(posts, e, v) <==> (seq_observed(pres, e, v) && e >= target) by {
        if seq_observed(pres, e, v) && e >= target {
            let i = choose|i: int|
                0 <= i < pres.len() && (#[trigger] pres[i]).epoch == e && pres[i].has(v);
            assert(pres[i].epoch < target);
        }
    }
}

proof fn lemma_window_kept_one(pres: Seq<EpochBitfield>, target: u64, k: int)
    requires
        pres.len() == 2,
        0 <= k < 2,
        pres[k].epoch >= target,
        pres[1 - k].epoch < target,
    ensures
        window_kept(pres, seq![pres[k]], target),
{
    lemma_count_ge_small(pres, target);
    let posts = seq![pres[k]];
    assert forall|e: u64| #[trigger]
        seq_retains(posts, e) <==> (seq_retains(pres, e) && e >= target) by {
        if seq_retains(posts, e) {
            let j = choose|j: int| 0 <= j < posts.len() && (#[trigger] posts[j]).epoch == e;
            assert(posts[0].epoch == e);
            assert(pres[k].epoch == e);
        }
        if seq_retains(pres, e) && e >= target {
            let i = choose|i: int| 0 <= i < pres.len() && (#[trigger] pres[i]).epoch == e;
            assert(i == k || i == 1 - k);
            assert(posts[0].epoch == e);
        }
    }
    assert forall|e: u64, v: usize| #[trigger]
        seq_observed(posts, e, v) <==> (seq_observed(pres, e, v) && e >= target) by {
        if seq_observed(posts, e, v) {
            let j = choose|j: int|
                0 <= j < posts.len() && (#[trigger] posts[j]).epoch == e && posts[j].has(v);
            assert(posts[0].epoch == e && posts[0].has(v));
            assert(pres[k].epoch == e && pres[k].has(v));
        }
        if seq_observed(pres, e, v) && e >= target {
            let i = choose|i: int|
                0 <= i < pres.len() && (#[trigger] pres[i]).epoch == e && pres[i].has(v);
            assert(i == k || i == 1 - k);
            assert(posts[0].epoch == e && posts[0].has(v));
        }
    }
}

/// Some entry of `s` is for epoch `e`.
pub open spec fn seq_retains(s: Seq<EpochBitfield>, e: u64) -> bool {
    exists|i: int| 0 <= i < s.len() && (#[trigger] s[i]).epoch == e
}

/// Some entry of `s` is for epoch `e` and has validator `v`'s bit set.
pub open spec fn seq_observed(s: Seq<EpochBitfield>, e: u64, v: usize) -> bool {
    exists|i: int| 0 <= i < s.len() && (#[trigger] s[i]).epoch == e && s[i].has(v)
}

impl ObservedAttesters {
    /// Epoch `e` currently has a bitfield in the store.
    pub open spec fn retains(&self, e: u64) -> bool {
        seq_retains(self.bitfields@, e)
    }

    /// Validator `v` is recorded as observed in epoch `e`.
    pub open spec fn observed(&self, e: u64, v: usize) -> bool {
        seq_observed(self.bitfields@, e, v)
    }

    pub open spec fn wf(&self) -> bool {
        &&& self.bitfields@.len() <= MAX_RETAINED_EPOCHS
        &&& forall|i: int, j: int|
            0 <= i < j < self.bitfields@.len() ==> (#[trigger] self.bitfields@[i]).epoch != (
            #[trigger] self.bitfields@[j]).epoch
        &&& forall|i: int|
            0 <= i < self.bitfields@.len() ==> (#[trigger] self.bitfields@[i]).epoch
                >= self.lowest_permissible_epoch
        &&& forall|i: int| 0 <= i < self.bitfields@.len() ==> (#[trigger] self.bitfields@[i]).wf()
    }

    /// The floor that pruning on `current_epoch` moves to: one epoch below
    /// `current_epoch` (saturating at zero), but never backwards.
    pub open spec fn prune_target(lowest: u64, current_epoch: u64) -> u64 {
        let floor: u64 = if current_epoch >= 1 {
            (current_epoch - 1) as u64
        } else {
            0u64
        };
        if floor >= lowest {
            floor
        } else {
            lowest
        }
    }

    /// Window state after pruning on `current_epoch`: the floor has moved to
    /// the prune target and exactly the bitfields at or above it survive,
    /// with their bits intact.
    pub open spec fn prune_post(pre: Self, post: Self, current_epoch: u64) -> bool {
        let target = Self::prune_target(pre.lowest_permissible_epoch, current_epoch);
        &&& post.lowest_permissible_epoch == target
        &&& window_kept(pre.bitfields@, post.bitfields@, target)
    }

    /// Forcibly advances the retention window so that only epochs at or
    /// above `current_epoch - 1` remain; the floor never moves backwards.
    #[verifier::rlimit(50)]
    pub fn prune(&mut self, current_epoch: u64)
        requires
            old(self).wf(),
        ensures
            final(self).wf(),
            Self::prune_post(*old(self), *final(self), current_epoch),
            old(self).lowest_permissible_epoch <= final(self).lowest_permissible_epoch,
    {
        let floor: u64 = if current_epoch >= 1 {
            current_epoch - 1
        } else {
            0
        };
        let target: u64 = if floor >= self.lowest_permissible_epoch {
            floor
        } else {
            self.lowest_permissible_epoch
        };
        let ghost pres = self.bitfields@;
        let second = self.bitfields.pop();
        let first = self.bitfields.pop();
        match (first, second) {
            (None, None) => {
                proof {
                    assert(pres.len() == 0);
                    assert(self.bitfields@ =~= pres);
                    lemma_window_kept_all(pres, target);
                }
            },
            (None, Some(b)) => {
                proof {
                    assert(pres.len() == 1 && b == pres[0]);
                }
                if b.epoch >= target {
                    self.bitfields.push(b);
                    proof {
                        assert(self.bitfields@ =~= pres);
                        lemma_window_kept_all(pres, target);
                    }
                } else {
                    proof {
                        assert(self.bitfields@ =~= Seq::<EpochBitfield>::empty());
                        lemma_window_kept_none(pres, target);
                    }
                }
            },
            (Some(a), Some(b)) => {
                proof {
                    assert(pres.len() == 2 && a == pres[0] && b == pres[1]);
                }
                let keep_a = a.epoch >= target;
                let keep_b = b.epoch >= target;
                if keep_a {
                    self.bitfields.push(a);
                }
                if keep_b {
                    self.bitfields.push(b);
                }
                proof {
                    if keep_a && keep_b {
                        assert(self.bitfields@ =~= pres);
                        lemma_window_kept_all(pres, target);
                    } else if keep_a {
                        assert(self.bitfields@ =~= seq![pres[0]]);
                        lemma_window_kept_one(pres, target, 0);
                    } else if keep_b {
                        assert(self.bitfields@ =~= seq![pres[1]]);
                        lemma_window_kept_one(pres, target, 1);
                    } else {
                        assert(self.bitfields@ =~= Seq::<EpochBitfield>::empty());
                        lemma_window_kept_none(pres, target);
                    }
                    assert(window_kept(pres, self.bitfields@, target));
                }
            },
            (Some(_), None) => {
                // `pop` yields entries from the back, so the second pop
                // cannot produce one when the first did not.
                proof {
                    assert(false);
                }
            },
        }
        self.lowest_permissible_epoch = target;
    }
}

proof fn lemma_seq_observed_implies_retains(s: Seq<EpochBitfield>, e: u64, v: usize)
    ensures
        seq_observed(s, e, v) ==> seq_retains(s, e),
{
    if seq_observed(s, e, v) {
        let i = choose|i: int| 0 <= i < s.len() && (#[trigger] s[i]).epoch == e && s[i].has(v);
        assert(0 <= i < s.len() && s[i].epoch == e);
    }
}

/// A pruned-but-unchanged-membership state `mid` already holding a bucket
/// for `epoch` satisfies the selection contract as it stands.
proof fn lemma_select_existing(pre: ObservedAttesters, mid: ObservedAttesters, epoch: u64, floor: u64)
    requires
        pre.wf(),
        mid.wf(),
        epoch >= pre.lowest_permissible_epoch,
        floor == ObservedAttesters::lookup_lowest(pre, epoch),
        mid.lowest_permissible_epoch == floor,
        window_kept(pre.bitfields@, mid.bitfields@, floor),
        mid.retains(epoch),
    ensures
        ObservedAttesters::select_post(pre, mid, epoch),
        forall|v: usize| #[trigger] mid.observed(epoch, v) <==> pre.observed(epoch, v),
{
    assert(floor <= epoch);
    assert(pre.retains(epoch));
    assert(!ObservedAttesters::lookup_evicts(pre, epoch));
    assert forall|e: u64, v: usize|
        e != epoch implies ((#[trigger] mid.observed(e, v)) <==> (pre.observed(e, v)
            && mid.retains(e))) by {
        lemma_seq_observed_implies_retains(pre.bitfields@, e, v);
        if pre.observed(e, v) && mid.retains(e) {
            let i = choose|i: int|
                0 <= i < mid.bitfields@.len() && (#[trigger] mid.bitfields@[i]).epoch == e;
            assert(mid.bitfields@[i].epoch >= floor);
        }
    }
    assert forall|v: usize| #[trigger] mid.observed(epoch, v) <==> pre.observed(epoch, v) by {
        assert(mid.observed(epoch, v) <==> (pre.observed(epoch, v) && epoch >= floor));
    }
}

/// Appending a fresh empty bucket for `epoch` to a pruned state with room
/// satisfies the selection contract.
proof fn lemma_select_pushed(
    pre: ObservedAttesters,
    mid: ObservedAttesters,
    post: ObservedAttesters,
    epoch: u64,
    floor: u64,
)
    requires
        pre.wf(),
        mid.wf(),
        epoch >= pre.lowest_permissible_epoch,
        floor == ObservedAttesters::lookup_lowest(pre, epoch),
        mid.lowest_permissible_epoch == floor,
        window_kept(pre.bitfields@, mid.bitfields@, floor),
        !mid.retains(epoch),
        mid.bitfields@.len() < MAX_RETAINED_EPOCHS,
        post.lowest_permissible_epoch == floor,
        post.bitfields@.len() == mid.bitfields@.len() + 1,
        post.bitfields@ == mid.bitfields@.push(post.bitfields@.last()),
        post.bitfields@.last().epoch == epoch,
        post.bitfields@.last().bitfield@.len() == 0,
        post.bitfields@.last().wf(),
    ensures
        post.wf(),
        ObservedAttesters::select_post(pre, post, epoch),
        forall|v: usize| #[trigger] post.observed(epoch, v) <==> pre.observed(epoch, v),
{
    let ms = mid.bitfields@;
    let ps = post.bitfields@;
    let n = ms.len() as int;
    assert(floor <= epoch);
    assert(!pre.retains(epoch));
    assert(!ObservedAttesters::lookup_evicts(pre, epoch));
    assert(forall|i: int| 0 <= i < n ==> ps[i] == ms[i]);
    assert(forall|i: int| 0 <= i < n ==> (#[trigger] ms[i]).epoch != epoch);
    assert(post.wf());
    assert(post.retains(epoch)) by {
        assert(ps[n].epoch == epoch);
    }
    assert forall|e: u64|
        e != epoch implies ((#[trigger] post.retains(e)) <==> (pre.retains(e) && e >= floor && !(
        ObservedAttesters::lookup_evicts(pre, epoch) && ObservedAttesters::min_survivor(
            pre,
            floor,
            e,
        )))) by {
        assert(post.retains(e) <==> mid.retains(e)) by {
            if post.retains(e) {
                let i = choose|i: int| 0 <= i < ps.len() && (#[trigger] ps[i]).epoch == e;
                assert(i < n && ms[i].epoch == e);
            }
            if mid.retains(e) {
                let i = choose|i: int| 0 <= i < ms.len() && (#[trigger] ms[i]).epoch == e;
                assert(ps[i].epoch == e);
            }
        }
    }
    assert forall|e: u64, v: usize|
        e != epoch implies ((#[trigger] post.observed(e, v)) <==> (pre.observed(e, v)
            && post.retains(e))) by {
        assert(post.observed(e, v) <==> mid.observed(e, v)) by {
            if post.observed(e, v) {
                let i = choose|i: int|
                    0 <= i < ps.len() && (#[trigger] ps[i]).epoch == e && ps[i].has(v);
                assert(i < n && ms[i].epoch == e && ms[i].has(v));
            }
            if mid.observed(e, v) {
                let i = choose|i: int|
                    0 <= i < ms.len() && (#[trigger] ms[i]).epoch == e && ms[i].has(v);
                assert(ps[i].epoch == e && ps[i].has(v));
            }
        }
        lemma_seq_observed_implies_retains(pre.bitfields@, e, v);
        if pre.observed(e, v) && post.retains(e) {
            let i = choose|i: int| 0 <= i < ms.len() && (#[trigger] ms[i]).epoch == e;
            assert(ms[i].epoch >= floor);
        }
    }
    assert forall|v: usize| #[trigger] post.observed(epoch, v) <==> pre.observed(epoch, v) by {
        lemma_seq_observed_implies_retains(pre.bitfields@, epoch, v);
        if post.observed(epoch, v) {
            let i = choose|i: int|
                0 <= i < ps.len() && (#[trigger] ps[i]).epoch == epoch && ps[i].has(v);
            assert(i == n);
            assert(!ps[i].has(v));
        }
    }
}

/// Replacing the bucket of the smallest retained epoch with a fresh empty
/// bucket for `epoch` satisfies the selection contract when the window is
/// full.
proof fn lemma_select_evicted(
    pre: ObservedAttesters,
    mid: ObservedAttesters,
    post: ObservedAttesters,
    epoch: u64,
    floor: u64,
    k: int,
)
    requires
        pre.wf(),
        mid.wf(),
        epoch >= pre.lowest_permissible_epoch,
        floor == ObservedAttesters::lookup_lowest(pre, epoch),
        mid.lowest_permissible_epoch == floor,
        window_kept(pre.bitfields@, mid.bitfields@, floor),
        !mid.retains(epoch),
        mid.bitfields@.len() == MAX_RETAINED_EPOCHS,
        0 <= k < mid.bitfields@.len(),
        mid.bitfields@[k].epoch <= mid.bitfields@[1 - k].epoch,
        post.lowest_permissible_epoch == floor,
        post.bitfields@ == mid.bitfields@.update(k, post.bitfields@[k]),
        post.bitfields@[k].epoch == epoch,
        post.bitfields@[k].bitfield@.len() == 0,
        post.bitfields@[k].wf(),
    ensures
        post.wf(),
        ObservedAttesters::select_post(pre, post, epoch),
        forall|v: usize| #[trigger] post.observed(epoch, v) <==> pre.observed(epoch, v),
{
    let ms = mid.bitfields@;
    let ps = post.bitfields@;
    let me = ms[k].epoch;
    assert(floor <= epoch);
    assert(forall|i: int| 0 <= i < ms.len() ==> (#[trigger] ms[i]).epoch != epoch);
    assert(!pre.retains(epoch));
    assert(ObservedAttesters::lookup_evicts(pre, epoch));
    assert(forall|i: int| 0 <= i < ps.len() && i != k ==> ps[i] == ms[i]);
    assert(post.wf());
    assert(post.retains(epoch)) by {
        assert(ps[k].epoch == epoch);
    }
    // the evicted epoch is the unique minimal survivor
    assert(ObservedAttesters::min_survivor(pre, floor, me)) by {
        assert(mid.retains(me)) by {
            assert(ms[k].epoch == me);
        }
        assert forall|e2: u64| (#[trigger] pre.retains(e2)) && e2 >= floor implies me <= e2 by {
            assert(mid.retains(e2));
            let j = choose|j: int| 0 <= j < ms.len() && (#[trigger] ms[j]).epoch == e2;
            assert(j == k || j == 1 - k);
            assert(ms[j].epoch >= ms[k].epoch);
        }
    }
    assert forall|e: u64|
        pre.retains(e) && e >= floor && ObservedAttesters::min_survivor(pre, floor, e) implies e
        == me by {
        assert(me <= e);
        assert(e <= me);
    }
    assert forall|e: u64|
        e != epoch implies ((#[trigger] post.retains(e)) <==> (pre.retains(e) && e >= floor && !(
        ObservedAttesters::lookup_evicts(pre, epoch) && ObservedAttesters::min_survivor(
            pre,
            floor,
            e,
        )))) by {
        if post.retains(e) {
            let i = choose|i: int| 0 <= i < ps.len() && (#[trigger] ps[i]).epoch == e;
            assert(i != k);
            assert(ms[i].epoch == e);
            assert(mid.retains(e));
            assert(e != me) by {
                assert(ms[i].epoch != ms[k].epoch);
            }
            assert(!ObservedAttesters::min_survivor(pre, floor, e));
        }
        if pre.retains(e) && e >= floor && !ObservedAttesters::min_survivor(pre, floor, e) {
            assert(mid.retains(e));
            let j = choose|j: int| 0 <= j < ms.len() && (#[trigger] ms[j]).epoch == e;
            assert(e != me);
            assert(j != k);
            assert(ps[j].epoch == e);
        }
    }
    assert forall|e: u64, v: usize|
        e != epoch implies ((#[trigger] post.observed(e, v)) <==> (pre.observed(e, v)
            && post.retains(e))) by {
        if post.observed(e, v) {
            let i = choose|i: int|
                0 <= i < ps.len() && (#[trigger] ps[i]).epoch == e && ps[i].has(v);
            assert(i != k);
            assert(ms[i].epoch == e && ms[i].has(v));
            assert(mid.observed(e, v));
            assert(pre.observed(e, v));
            assert(ps[i].epoch == e);
            assert(post.retains(e));
        }
        if pre.observed(e, v) && post.retains(e) {
            let i = choose|i: int| 0 <= i < ps.len() && (#[trigger] ps[i]).epoch == e;
            assert(i != k);
            assert(ms[i].epoch == e);
            assert(e != me) by {
                assert(ms[i].epoch != ms[k].epoch);
            }
            lemma_seq_observed_implies_retains(pre.bitfields@, e, v);
            assert(e >= floor) by {
                assert(ms[i].epoch >= floor);
            }
            assert(mid.observed(e, v));
            let j = choose|j: int|
                0 <= j < ms.len() && (#[trigger] ms[j]).epoch == e && ms[j].has(v);
            assert(j != k);
            assert(ps[j].epoch == e && ps[j].has(v));
        }
    }
    assert forall|v: usize| #[trigger] post.observed(epoch, v) <==> pre.observed(epoch, v) by {
        lemma_seq_observed_implies_retains(pre.bitfields@, epoch, v);
        if post.observed(epoch, v) {
            let i = choose|i: int|
                0 <= i < ps.len() && (#[trigger] ps[i]).epoch == epoch && ps[i].has(v);
            assert(i == k) by {
                if i != k {
                    assert(ms[i].epoch == epoch);
                }
            }
            assert(!ps[k].has(v));
        }
    }
}

impl ObservedAttesters {
    /// The floor after a lookup of `epoch` has (possibly) advanced the
    /// window: one below `epoch` when `epoch` lies beyond the window,
    /// otherwise unchanged.
    pub open spec fn lookup_lowest(pre: Self, epoch: u64) -> u64 {
        if epoch >= pre.lowest_permissible_epoch + MAX_RETAINED_EPOCHS {
            Self::prune_target(pre.lowest_permissible_epoch, epoch)
        } else {
            pre.lowest_permissible_epoch
        }
    }

    /// A lookup of `epoch` must evict: the epoch has no bucket yet and the
    /// window is still full after pruning.
    pub open spec fn lookup_evicts(pre: Self, epoch: u64) -> bool {
        &&& !pre.retains(epoch)
        &&& count_ge(pre.bitfields@, Self::lookup_lowest(pre, epoch)) == MAX_RETAINED_EPOCHS
    }

    /// `e` is the smallest retained epoch at or above `floor`.
    pub open spec fn min_survivor(pre: Self, floor: u64, e: u64) -> bool {
        &&& pre.retains(e) && e >= floor
        &&& forall|e2: u64| (#[trigger] pre.retains(e2)) && e2 >= floor ==> e <= e2
    }

    /// Shape of the cache after a bucket was selected for `epoch`: the
    /// floor advanced, `epoch` has a bucket, every other epoch keeps its
    /// bucket exactly when it lies above the floor and was not evicted to
    /// make room, and surviving buckets keep their bits.
    pub open spec fn select_post(pre: Self, post: Self, epoch: u64) -> bool {
        let floor = Self::lookup_lowest(pre, epoch);
        &&& post.lowest_permissible_epoch == floor
        &&& post.retains(epoch)
        &&& forall|e: u64|
            e != epoch ==> ((#[trigger] post.retains(e)) <==> (pre.retains(e) && e >= floor && !(
            Self::lookup_evicts(pre, epoch) && Self::min_survivor(pre, floor, e))))
        &&& forall|e: u64, v: usize|
            e != epoch ==> ((#[trigger] post.observed(e, v)) <==> (pre.observed(e, v)
                && post.retains(e)))
    }

    /// Finds (pruning and allocating or evicting as needed) the position of
    /// the bucket for `epoch`.
    #[verifier::loop_isolation(false)]
    #[verifier::rlimit(100)]
    fn get_bitfield_index(&mut self, epoch: u64) -> (r: Result<usize, Error>)
        requires
            old(self).wf(),
        ensures
            final(self).wf(),
            old(self).lowest_permissible_epoch <= final(self).lowest_permissible_epoch,
            epoch < old(self).lowest_permissible_epoch ==> {
                &&& r == Err::<usize, Error>(
                    Error::EpochTooLow {
                        epoch,
                        lowest_permissible_epoch: old(self).lowest_permissible_epoch,
                    },
                )
                &&& *final(self) == *old(self)
            },
            epoch >= old(self).lowest_permissible_epoch ==> {
                &&& Self::select_post(*old(self), *final(self), epoch)
                &&& forall|v: usize| #[trigger]
                    final(self).observed(epoch, v) <==> old(self).observed(epoch, v)
                &&& r matches Ok(i) && i < final(self).bitfields@.len() && final(self).bitfields@[i as int].epoch == epoch
            },
    {
        if epoch < self.lowest_permissible_epoch {
            return Err(
                Error::EpochTooLow {
                    epoch,
                    lowest_permissible_epoch: self.lowest_permissible_epoch,
                },
            );
        }
        let ghost floor = Self::lookup_lowest(*old(self), epoch);
        // advance the window when the epoch lies beyond it
        if epoch - self.lowest_permissible_epoch >= MAX_RETAINED_EPOCHS {
            self.prune(epoch);
        } else {
            proof {
                lemma_window_kept_all(self.bitfields@, floor);
            }
        }
        proof {
            assert(self.lowest_permissible_epoch == floor);
            assert(window_kept(old(self).bitfields@, self.bitfields@, floor));
        }
        let ghost mid = *self;
        // an existing bucket for this epoch wins
        let mut i: usize = 0;
        while i < self.bitfields.len()
            invariant
                i <= self.bitfields@.len(),
                forall|j: int| 0 <= j < i ==> (#[trigger] self.bitfields@[j]).epoch != epoch,
            decreases self.bitfields@.len() - i,
        {
            if self.bitfields[i].epoch == epoch {
                proof {
                    lemma_select_existing(*old(self), mid, epoch, floor);
                }
                return Ok(i);
            }
            i += 1;
        }
        proof {
            assert(!mid.retains(epoch));
            assert(!old(self).retains(epoch));
        }
        // estimate the new bucket's capacity from the mean size of buckets
        // for strictly lower epochs
        let mut count: u64 = 0;
        let mut sum: u64 = 0;
        let mut j: usize = 0;
        while j < self.bitfields.len()
            invariant
                j <= self.bitfields@.len(),
                count <= j,
                sum <= count * (VALIDATOR_REGISTRY_LIMIT + 1),
            decreases self.bitfields@.len() - j,
        {
            if self.bitfields[j].epoch < epoch {
                proof {
                    assert(self.bitfields@[j as int].wf());
                    assert(sum + self.bitfields@[j as int].bitfield@.len() <= (count + 1) * (
                    VALIDATOR_REGISTRY_LIMIT + 1)) by (nonlinear_arith)
                        requires
                            sum <= count * (VALIDATOR_REGISTRY_LIMIT + 1),
                            self.bitfields@[j as int].bitfield@.len() <= VALIDATOR_REGISTRY_LIMIT
                                + 1,
                    ;
                    assert((count + 1) * (VALIDATOR_REGISTRY_LIMIT + 1) <= 3 * (
                    VALIDATOR_REGISTRY_LIMIT + 1)) by (nonlinear_arith)
                        requires
                            count <= 2,
                    ;
                }
                count = count + 1;
                sum = sum + self.bitfields[j].len() as u64;
            }
            j += 1;
        }
        let initial_capacity: usize = if count == 0 {
            DEFAULT_BITFIELD_CAPACITY
        } else {
            let mean: u64 = sum / count;
            proof {
                assert(mean <= VALIDATOR_REGISTRY_LIMIT + 1) by (nonlinear_arith)
                    requires
                        sum <= count * (VALIDATOR_REGISTRY_LIMIT + 1),
                        count >= 1,
                        mean == sum / count,
                ;
            }
            if mean <= usize::MAX as u64 {
                mean as usize
            } else {
                DEFAULT_BITFIELD_CAPACITY
            }
        };
        // room left in the window: append a fresh bucket
        if self.bitfields.len() < MAX_RETAINED_EPOCHS as usize {
            let index = self.bitfields.len();
            self.bitfields.push(EpochBitfield::new(epoch, initial_capacity));
            proof {
                lemma_select_pushed(*old(self), mid, *self, epoch, floor);
            }
            return Ok(index);
        }
        // window full: the bucket of the smallest retained epoch is replaced
        let min_index: usize = if self.bitfields[0].epoch <= self.bitfields[1].epoch {
            0
        } else {
            1
        };
        let ghost evicted = self.bitfields@[min_index as int];
        let _ = self.bitfields.remove(min_index);
        self.bitfields.insert(min_index, EpochBitfield::new(epoch, initial_capacity));
        proof {
            assert(self.bitfields@ =~= mid.bitfields@.update(
                min_index as int,
                self.bitfields@[min_index as int],
            ));
            lemma_select_evicted(*old(self), mid, *self, epoch, floor, min_index as int);
        }
        Ok(min_index)
    }
}

impl ObservedAttesters {
    /// Full functional contract of [`Self::observe_attesting_validator`]:
    /// a stale epoch is rejected untouched, an oversized validator index is
    /// rejected after the bucket selection ran, and otherwise the call
    /// reports whether the pair was already observed and records it.
    pub open spec fn observe_post(
        pre: Self,
        post: Self,
        epoch: u64,
        v: usize,
        r: Result<bool, Error>,
    ) -> bool {
        if epoch < pre.lowest_permissible_epoch {
            &&& r == Err::<bool, Error>(
                Error::EpochTooLow {
                    epoch,
                    lowest_permissible_epoch: pre.lowest_permissible_epoch,
                },
            )
            &&& post == pre
        } else if v as u64 > VALIDATOR_REGISTRY_LIMIT {
            &&& r == Err::<bool, Error>(Error::ValidatorIndexTooHigh(v))
            &&& Self::select_post(pre, post, epoch)
            &&& forall|v2: usize| #[trigger] post.observed(epoch, v2) <==> pre.observed(epoch, v2)
        } else {
            &&& r == Ok::<bool, Error>(pre.observed(epoch, v))
            &&& Self::select_post(pre, post, epoch)
            &&& forall|v2: usize| #[trigger]
                post.observed(epoch, v2) <==> (pre.observed(epoch, v2) || v2 == v)
        }
    }

    /// Records that `validator_index` attested in `epoch`, advancing the
    /// retention window as needed; returns whether the pair was already
    /// known.
    #[verifier::rlimit(100)]
    pub fn observe_attesting_validator(&mut self, epoch: u64, validator_index: usize) -> (r:
        Result<bool, Error>)
        requires
            old(self).wf(),
        ensures
            final(self).wf(),
            old(self).lowest_permissible_epoch <= final(self).lowest_permissible_epoch,
            Self::observe_post(*old(self), *final(self), epoch, validator_index, r),
    {
        let index = match self.get_bitfield_index(epoch) {
            Ok(i) => i,
            Err(e) => {
                return Err(e);
            },
        };
        let ghost mid = *self;
        let mut b = self.bitfields.remove(index);
        let res = b.observe_attesting_validator(validator_index);
        let ghost bpost = b;
        self.bitfields.insert(index, b);
        proof {
            assert(self.bitfields@ =~= mid.bitfields@.update(index as int, bpost));
            lemma_observe_bits(mid, *self, epoch, validator_index, index as int, bpost);
            let pre = *old(self);
            let floor = Self::lookup_lowest(pre, epoch);
            assert forall|e: u64|
                e != epoch implies ((#[trigger] self.retains(e)) <==> (pre.retains(e) && e
                >= floor && !(Self::lookup_evicts(pre, epoch) && Self::min_survivor(
                pre,
                floor,
                e,
            )))) by {
                assert(self.retains(e) <==> mid.retains(e));
            }
            assert forall|e: u64, v2: usize|
                e != epoch implies ((#[trigger] self.observed(e, v2)) <==> (pre.observed(e, v2)
                && self.retains(e))) by {
                assert(self.observed(e, v2) <==> mid.observed(e, v2));
                assert(mid.observed(e, v2) <==> (pre.observed(e, v2) && mid.retains(e)));
                assert(self.retains(e) <==> mid.retains(e));
            }
            assert(self.retains(epoch));
            assert(Self::select_post(pre, *self, epoch));
            if validator_index as u64 <= VALIDATOR_REGISTRY_LIMIT {
                assert forall|v2: usize| #[trigger]
                    self.observed(epoch, v2) <==> (pre.observed(epoch, v2) || v2
                    == validator_index) by {
                    assert(self.observed(epoch, v2) <==> bpost.has(v2));
                    assert(bpost.has(v2) <==> (mid.bitfields@[index as int].has(v2) || v2
                        == validator_index));
                    assert(mid.observed(epoch, v2) <==> mid.bitfields@[index as int].has(v2));
                    assert(mid.observed(epoch, v2) <==> pre.observed(epoch, v2));
                }
                assert(mid.bitfields@[index as int].has(validator_index) <==> pre.observed(
                    epoch,
                    validator_index,
                )) by {
                    assert(mid.observed(epoch, validator_index) <==> mid.bitfields@[index as int].has(
                        validator_index,
                    ));
                    assert(mid.observed(epoch, validator_index) <==> pre.observed(
                        epoch,
                        validator_index,
                    ));
                }
            } else {
                assert forall|v2: usize| #[trigger]
                    self.observed(epoch, v2) <==> pre.observed(epoch, v2) by {
                    assert(self.observed(epoch, v2) <==> bpost.has(v2));
                    assert(bpost.has(v2) <==> mid.bitfields@[index as int].has(v2));
                    assert(mid.observed(epoch, v2) <==> mid.bitfields@[index as int].has(v2));
                    assert(mid.observed(epoch, v2) <==> pre.observed(epoch, v2));
                }
            }
        }
        res
    }

    /// Full functional contract of [`Self::has_attested`]: the pure query
    /// applies the same rejection rules as `observe_attesting_validator`
    /// but never touches the cache.
    pub open spec fn has_post(s: Self, epoch: u64, v: usize, r: Result<bool, Error>) -> bool {
        if epoch < s.lowest_permissible_epoch {
            r == Err::<bool, Error>(
                Error::EpochTooLow {
                    epoch,
                    lowest_permissible_epoch: s.lowest_permissible_epoch,
                },
            )
        } else if v as u64 > VALIDATOR_REGISTRY_LIMIT {
            r == Err::<bool, Error>(Error::ValidatorIndexTooHigh(v))
        } else {
            r == Ok::<bool, Error>(s.observed(epoch, v))
        }
    }

    /// Pure query: was `validator_index` observed attesting in `epoch`?
    #[verifier::loop_isolation(false)]
    pub fn has_attested(&self, epoch: u64, validator_index: usize) -> (r: Result<bool, Error>)
        requires
            self.wf(),
        ensures
            Self::has_post(*self, epoch, validator_index, r),
    {
        if epoch < self.lowest_permissible_epoch {
            return Err(
                Error::EpochTooLow {
                    epoch,
                    lowest_permissible_epoch: self.lowest_permissible_epoch,
                },
            );
        }
        if validator_index as u64 > VALIDATOR_REGISTRY_LIMIT {
            return Err(Error::ValidatorIndexTooHigh(validator_index));
        }
        let mut i: usize = 0;
        while i < self.bitfields.len()
            invariant
                i <= self.bitfields@.len(),
                forall|j: int| 0 <= j < i ==> (#[trigger] self.bitfields@[j]).epoch != epoch,
            decreases self.bitfields@.len() - i,
        {
            if self.bitfields[i].epoch == epoch {
                let r = self.bitfields[i].has_attested(validator_index);
                proof {
                    if self.bitfields@[i as int].has(validator_index) {
                        assert(self.observed(epoch, validator_index));
                    }
                    if self.observed(epoch, validator_index) {
                        let j = choose|j: int|
                            0 <= j < self.bitfields@.len() && (#[trigger] self.bitfields@[j]).epoch
                                == epoch && self.bitfields@[j].has(validator_index);
                        assert(j == i);
                    }
                }
                return r;
            }
            i += 1;
        }
        proof {
            if self.observed(epoch, validator_index) {
                let j = choose|j: int|
                    0 <= j < self.bitfields@.len() && (#[trigger] self.bitfields@[j]).epoch
                        == epoch && self.bitfields@[j].has(validator_index);
                assert(false);
            }
        }
        Ok(false)
    }
}

/// After selection placed the bucket for `epoch` at `k`, updating that
/// bucket's bits carries the selection contract over to the final state.
proof fn lemma_observe_bits(
    mid: ObservedAttesters,
    post: ObservedAttesters,
    epoch: u64,
    v: usize,
    k: int,
    nb: EpochBitfield,
)
    requires
        mid.wf(),
        nb.wf(),
        0 <= k < mid.bitfields@.len(),
        mid.bitfields@[k].epoch == epoch,
        nb.epoch == epoch,
        post.lowest_permissible_epoch == mid.lowest_permissible_epoch,
        post.bitfields@ == mid.bitfields@.update(k, nb),
    ensures
        post.wf(),
        forall|e: u64| #[trigger] post.retains(e) <==> mid.retains(e),
        forall|e: u64, v2: usize|
            e != epoch ==> ((#[trigger] post.observed(e, v2)) <==> mid.observed(e, v2)),
        forall|v2: usize| #[trigger] post.observed(epoch, v2) <==> nb.has(v2),
        forall|v2: usize| #[trigger] mid.observed(epoch, v2) <==> mid.bitfields@[k].has(v2),
{
    let ms = mid.bitfields@;
    let ps = post.bitfields@;
    assert(forall|i: int| 0 <= i < ps.len() && i != k ==> ps[i] == ms[i]);
    assert(forall|i: int| 0 <= i < ms.len() && i != k ==> (#[trigger] ms[i]).epoch != epoch);
    assert(post.wf());
    assert forall|e: u64| #[trigger] post.retains(e) <==> mid.retains(e) by {
        if post.retains(e) {
            let i = choose|i: int| 0 <= i < ps.len() && (#[trigger] ps[i]).epoch == e;
            assert(ms[i].epoch == e);
        }
        if mid.retains(e) {
            let i = choose|i: int| 0 <= i < ms.len() && (#[trigger] ms[i]).epoch == e;
            assert(ps[i].epoch == e);
        }
    }
    assert forall|e: u64, v2: usize|
        e != epoch implies ((#[trigger] post.observed(e, v2)) <==> mid.observed(e, v2)) by {
        if post.observed(e, v2) {
            let i = choose|i: int|
                0 <= i < ps.len() && (#[trigger] ps[i]).epoch == e && ps[i].has(v2);
            assert(i != k);
            assert(ms[i].epoch == e && ms[i].has(v2));
        }
        if mid.observed(e, v2) {
            let i = choose|i: int|
                0 <= i < ms.len() && (#[trigger] ms[i]).epoch == e && ms[i].has(v2);
            assert(i != k);
            assert(ps[i].epoch == e && ps[i].has(v2));
        }
    }
    assert forall|v2: usize| #[trigger] post.observed(epoch, v2) <==> nb.has(v2) by {
        if post.observed(epoch, v2) {
            let i = choose|i: int|
                0 <= i < ps.len() && (#[trigger] ps[i]).epoch == epoch && ps[i].has(v2);
            assert(i == k);
        }
        if nb.has(v2) {
            assert(ps[k].epoch == epoch && ps[k].has(v2));
        }
    }
    assert forall|v2: usize| #[trigger] mid.observed(epoch, v2) <==> mid.bitfields@[k].has(v2) by {
        if mid.observed(epoch, v2) {
            let i = choose|i: int|
                0 <= i < ms.len() && (#[trigger] ms[i]).epoch == epoch && ms[i].has(v2);
            assert(i == k);
        }
        if ms[k].has(v2) {
            assert(ms[k].epoch == epoch);
        }
    }
}

impl Default for ObservedAttesters {
    /// An empty store whose floor starts at epoch zero.
    fn default() -> (r: Self)
        ensures
            r.lowest_permissible_epoch == 0,
            r.bitfields@.len() == 0,
            r.wf(),
    {
        ObservedAttesters { lowest_permissible_epoch: 0, bitfields: Vec::new() }
    }
}

/// Idempotence: when a pair (epoch, validator) that was never observed is
/// observed on a well-formed cache, the call reports `false`; any second
/// observation or query of the same pair afterwards reports `true`.
pub proof fn lemma_observe_idempotent(
    pre: ObservedAttesters,
    mid: ObservedAttesters,
    post: ObservedAttesters,
    epoch: u64,
    v: usize,
    r1: Result<bool, Error>,
    r2: Result<bool, Error>,
    r3: Result<bool, Error>,
)
    requires
        pre.wf(),
        epoch >= pre.lowest_permissible_epoch,
        v as u64 <= VALIDATOR_REGISTRY_LIMIT,
        !pre.observed(epoch, v),
        ObservedAttesters::observe_post(pre, mid, epoch, v, r1),
        ObservedAttesters::observe_post(mid, post, epoch, v, r2),
        ObservedAttesters::has_post(mid, epoch, v, r3),
    ensures
        r1 == Ok::<bool, Error>(false),
        r2 == Ok::<bool, Error>(true),
        r3 == Ok::<bool, Error>(true),
{
    assert(ObservedAttesters::lookup_lowest(pre, epoch) <= epoch);
    assert(mid.observed(epoch, v));
    assert(epoch >= mid.lowest_permissible_epoch);
}

/// A cache that holds no bitfields has observed nothing; together with
/// the two lemmas below, no pair is ever reported observed unless that
/// very pair was observed before.
pub proof fn lemma_empty_observes_nothing(s: ObservedAttesters, epoch: u64, v: usize)
    requires
        s.bitfields@.len() == 0,
    ensures
        !s.observed(epoch, v),
{
    if s.observed(epoch, v) {
        let i = choose|i: int|
            0 <= i < s.bitfields@.len() && (#[trigger] s.bitfields@[i]).epoch == epoch
                && s.bitfields@[i].has(v);
        assert(false);
    }
}

/// Pruning never adds an observation.
pub proof fn lemma_prune_adds_no_observation(
    pre: ObservedAttesters,
    post: ObservedAttesters,
    current_epoch: u64,
)
    requires
        ObservedAttesters::prune_post(pre, post, current_epoch),
    ensures
        forall|e: u64, v: usize| #[trigger] post.observed(e, v) ==> pre.observed(e, v),
{
}

/// Observing one pair adds no observation of any other pair.
pub proof fn lemma_observe_adds_only_its_pair(
    pre: ObservedAttesters,
    post: ObservedAttesters,
    epoch: u64,
    v: usize,
    r: Result<bool, Error>,
    e2: u64,
    v2: usize,
)
    requires
        pre.wf(),
        ObservedAttesters::observe_post(pre, post, epoch, v, r),
        !(e2 == epoch && v2 == v),
    ensures
        post.observed(e2, v2) ==> pre.observed(e2, v2),
{
}

/// Sliding-window bound: after epochs were observed in increasing order up
/// to `n - 1`, observing epoch `n` leaves exactly the window
/// `{max(0, n - 1), n}` retained, with the floor at `max(0, n - 1)`; the
/// cache never holds more than [`MAX_RETAINED_EPOCHS`] bitfields in any
/// case, as its well-formedness invariant states.
pub proof fn lemma_sliding_window_step(
    pre: ObservedAttesters,
    post: ObservedAttesters,
    n: u64,
    v: usize,
    r: Result<bool, Error>,
)
    requires
        pre.wf(),
        v as u64 <= VALIDATOR_REGISTRY_LIMIT,
        pre.lowest_permissible_epoch == if n >= 2 {
            (n - 2) as u64
        } else {
            0u64
        },
        forall|e: u64| #[trigger]
            pre.retains(e) <==> ((n >= 1 && e == (n - 1) as u64) || (n >= 2 && e == (
            n - 2) as u64)),
        ObservedAttesters::observe_post(pre, post, n, v, r),
    ensures
        r == Ok::<bool, Error>(pre.observed(n, v)),
        post.lowest_permissible_epoch == if n >= 1 {
            (n - 1) as u64
        } else {
            0u64
        },
        forall|e: u64| #[trigger]
            post.retains(e) <==> (e == n || (n >= 1 && e == (n - 1) as u64)),
{
    let s = pre.bitfields@;
    let floor = ObservedAttesters::lookup_lowest(pre, n);
    assert(floor == if n >= 1 {
        (n - 1) as u64
    } else {
        0u64
    });
    assert(!pre.retains(n));
    // pin the entries of the cache from the retained-epoch set
    if n == 0 {
        assert(s.len() == 0) by {
            if s.len() > 0 {
                assert(s[0].epoch == s[0].epoch);
                assert(pre.retains(s[0].epoch));
            }
        }
        lemma_count_ge_small(s, floor);
    } else if n == 1 {
        assert(pre.retains(0));
        let i = choose|i: int| 0 <= i < s.len() && (#[trigger] s[i]).epoch == 0;
        assert(s.len() == 1) by {
            if s.len() == 2 {
                assert(pre.retains(s[0].epoch));
                assert(pre.retains(s[1].epoch));
                assert(s[0].epoch == 0 && s[1].epoch == 0);
            }
        }
        lemma_count_ge_small(s, floor);
        assert(count_ge(s, floor) == 1);
    } else {
        assert(pre.retains((n - 1) as u64));
        assert(pre.retains((n - 2) as u64));
        let i = choose|i: int| 0 <= i < s.len() && (#[trigger] s[i]).epoch == (n - 1) as u64;
        let j = choose|j: int| 0 <= j < s.len() && (#[trigger] s[j]).epoch == (n - 2) as u64;
        assert(i != j);
        assert(s.len() == 2);
        assert(pre.retains(s[0].epoch));
        assert(pre.retains(s[1].epoch));
        lemma_count_ge_small(s, floor);
        assert(count_ge(s, floor) == 1);
    }
    assert(!ObservedAttesters::lookup_evicts(pre, n));
    assert forall|e: u64| #[trigger]
        post.retains(e) <==> (e == n || (n >= 1 && e == (n - 1) as u64)) by {
        if e != n {
            assert(post.retains(e) <==> (pre.retains(e) && e >= floor && !(
            ObservedAttesters::lookup_evicts(pre, n) && ObservedAttesters::min_survivor(
                pre,
                floor,
                e,
            ))));
        }
    }
}

/// Stale rejection: once the floor has advanced past an epoch, both
/// `observe_attesting_validator` and `has_attested` reject that epoch with
/// the stale-epoch error and leave the cache untouched, even if the epoch
/// had been observed before.
pub proof fn lemma_stale_rejection(
    s: ObservedAttesters,
    post: ObservedAttesters,
    epoch: u64,
    v: usize,
    r1: Result<bool, Error>,
    r2: Result<bool, Error>,
)
    requires
        epoch < s.lowest_permissible_epoch,
        ObservedAttesters::observe_post(s, post, epoch, v, r1),
        ObservedAttesters::has_post(s, epoch, v, r2),
    ensures
        r1 == Err::<bool, Error>(
            Error::EpochTooLow { epoch, lowest_permissible_epoch: s.lowest_permissible_epoch },
        ),
        post == s,
        r2 == Err::<bool, Error>(
            Error::EpochTooLow { epoch, lowest_permissible_epoch: s.lowest_permissible_epoch },
        ),
{
}

} // verus!
