//! The remote-store backend's logic: the reconciler that merges a possibly
//! stale remote value with local progress into a new, monotonic remote
//! value, and the reconnect policy for transient remote failures. The
//! network round trips themselves (reading the remote key, the
//! compare-and-swap write, reconnecting) happen outside this crate; each
//! sync cycle hands the values it read to these functions and writes back
//! what they return.

use vstd::prelude::*;

use crate::counter::Count;
use crate::duration::SyncDuration;

verus! {

/// The remote value used for a merge: a remote value that regressed below
/// the last agreed baseline (possible only through external intervention) is
/// clamped to that baseline, so the tracked value never decreases.
pub open spec fn clamped_remote(remote_count: int, previous_remote_count: int) -> int {
    if remote_count < previous_remote_count {
        previous_remote_count
    } else {
        remote_count
    }
}

/// The value a merge writes back to the store: the local counter after the
/// remote's own progress (relative to the baseline) has been folded in.
pub open spec fn merged_count(previous_remote_count: int, remote_count: int, local_count: int) -> int {
    local_count + clamped_remote(remote_count, previous_remote_count) - previous_remote_count
}

/// One piece of a sync cycle run against a live, concurrently growing
/// counter: how much the remote value (clamped) has advanced over the
/// baseline. The caller folds this contribution into the counter and adds
/// it to the value the counter held just before the fold — that sum is the
/// merge result to write back, and the new baseline.
pub fn remote_contribution(remote_count: u64, previous_remote_count: u64) -> (contribution: u64)
    ensures
        contribution == clamped_remote(remote_count as int, previous_remote_count as int)
            - previous_remote_count,
{
    if remote_count < previous_remote_count {
        0
    } else {
        remote_count - previous_remote_count
    }
}

/// Reconciliation state of the remote backend's sync loop: the shared
/// counter and the remote value last confirmed written by this process.
pub struct CountTracker {
    pub local_count: Count,
    pub previous_remote_count: u64,
}

impl CountTracker {
    /// The baseline never leads the local counter: every merge folds the
    /// remote's progress into the counter before agreeing on a new baseline.
    pub open spec fn wf(&self) -> bool {
        self.previous_remote_count <= self.local_count@
    }

    /// One merge cycle: clamp the remote value, fold the remote's progress
    /// since the last cycle into the local counter, and return the new
    /// remote value — the local total — to be written back. The returned
    /// value becomes the new baseline; it never decreases below the old one,
    /// and no local increment is lost.
    pub fn get_new_count(&mut self, remote_count: u64) -> (new_remote: u64)
        requires
            old(self).wf(),
            merged_count(
                old(self).previous_remote_count as int,
                remote_count as int,
                old(self).local_count@ as int,
            ) <= u64::MAX,
        ensures
            new_remote == merged_count(
                old(self).previous_remote_count as int,
                remote_count as int,
                old(self).local_count@ as int,
            ),
            final(self).previous_remote_count == new_remote,
            final(self).local_count@ == new_remote,
            final(self).local_count@ - old(self).local_count@ == clamped_remote(
                remote_count as int,
                old(self).previous_remote_count as int,
            ) - old(self).previous_remote_count,
            new_remote >= old(self).previous_remote_count,
            new_remote >= old(self).local_count@,
            final(self).wf(),
    {
        let remote_count = if remote_count < self.previous_remote_count {
            self.previous_remote_count
        } else {
            remote_count
        };
        let remote_contribution = remote_count - self.previous_remote_count;
        let local_count = self.local_count.add(remote_contribution);
        let local_contribution = local_count - self.previous_remote_count;
        let new_remote = remote_count + local_contribution;
        self.previous_remote_count = new_remote;
        new_remote
    }
}

/// Idempotence of the merge: in the settled state after a cycle — baseline,
/// local counter and remote value all equal to `r`, with no change in
/// between — a merge returns `r` again and folds nothing into the counter.
/// By `get_new_count`'s contract the state after such a merge is that same
/// settled state, so a second merge with the same remote value returns `r`
/// once more.
pub proof fn lemma_merge_idempotent(r: u64)
    ensures
        merged_count(r as int, r as int, r as int) == r,
        clamped_remote(r as int, r as int) - r == 0,
{
}

/// Monotonicity of the merge: whatever remote value a cycle reads — even
/// one below the baseline — the value written back is at least the
/// baseline, and at least the local counter.
pub proof fn lemma_merge_monotonic(previous_remote_count: u64, remote_count: u64, local_count: u64)
    requires
        previous_remote_count <= local_count,
    ensures
        merged_count(previous_remote_count as int, remote_count as int, local_count as int)
            >= previous_remote_count,
        merged_count(previous_remote_count as int, remote_count as int, local_count as int)
            >= local_count,
{
}

/// Conservation under the merge: the growth of the agreed value over the
/// baseline is exactly the local growth plus the (clamped) remote growth —
/// nothing is lost, nothing is counted twice.
pub proof fn lemma_merge_conserves(previous_remote_count: u64, remote_count: u64, local_count: u64)
    requires
        previous_remote_count <= local_count,
    ensures
        merged_count(previous_remote_count as int, remote_count as int, local_count as int)
            - previous_remote_count == (local_count - previous_remote_count) + (clamped_remote(
            remote_count as int,
            previous_remote_count as int,
        ) - previous_remote_count),
{
}

/// Reconnect state of the remote backend: a consecutive-error counter and
/// the threshold at which a reconnect is attempted.
pub struct ReconnectPolicy {
    pub threshold: u64,
    pub consecutive_errors: u64,
}

impl ReconnectPolicy {
    pub open spec fn wf(&self) -> bool {
        self.threshold >= 1
    }

    pub fn new(threshold: u64) -> (policy: Self)
        requires
            threshold >= 1,
        ensures
            policy.threshold == threshold,
            policy.consecutive_errors == 0,
            policy.wf(),
    {
        ReconnectPolicy { threshold, consecutive_errors: 0 }
    }

    /// A sync cycle succeeded: the error streak is over.
    pub fn record_success(&mut self)
        ensures
            final(self).consecutive_errors == 0,
            final(self).threshold == old(self).threshold,
    {
        self.consecutive_errors = 0;
    }

    /// A sync cycle failed: count it, and say whether a reconnect should be
    /// attempted now — which is the case on every `threshold`-th consecutive
    /// failure.
    pub fn record_failure(&mut self) -> (attempt_reconnect: bool)
        requires
            old(self).wf(),
            old(self).consecutive_errors < u64::MAX,
        ensures
            final(self).consecutive_errors == old(self).consecutive_errors + 1,
            final(self).threshold == old(self).threshold,
            attempt_reconnect == ((old(self).consecutive_errors + 1) % old(self).threshold as int
                == 0),
    {
        self.consecutive_errors = self.consecutive_errors + 1;
        self.consecutive_errors % self.threshold == 0
    }

    /// The outcome of a reconnect attempt: success resets the error streak,
    /// failure leaves it to keep accumulating.
    pub fn record_reconnect(&mut self, success: bool)
        ensures
            final(self).consecutive_errors == if success {
                0
            } else {
                old(self).consecutive_errors
            },
            final(self).threshold == old(self).threshold,
    {
        if success {
            self.consecutive_errors = 0;
        }
    }
}

/// The remote value a merge works from: the value just read, or — when the
/// key was absent from the store — the last agreed baseline.
pub open spec fn effective_remote(remote_read: Option<u64>, previous_remote_count: u64) -> int {
    match remote_read {
        Some(v) => v as int,
        None => previous_remote_count as int,
    }
}

/// The remote-store backend: the configured sync interval together with the
/// state its background loop carries from cycle to cycle — the shared
/// counter with its reconciliation baseline, and the reconnect state. The
/// store connection itself lives with the loop outside this crate; each
/// cycle hands the value it read to `plan_write`, writes the result back
/// under a compare-and-swap, and reports the outcome to
/// `record_sync_result`.
pub struct RedisStorage {
    pub sync_frequency: SyncDuration,
    pub tracker: CountTracker,
    pub reconnect: ReconnectPolicy,
}

impl RedisStorage {
    pub open spec fn wf(&self) -> bool {
        self.tracker.wf() && self.reconnect.wf()
    }

    /// A backend ready to install: counter at zero, no agreed baseline, no
    /// error streak.
    pub fn new(sync_frequency: SyncDuration, reconnect_threshold: u64) -> (backend: Self)
        requires
            reconnect_threshold >= 1,
        ensures
            backend.sync_frequency == sync_frequency,
            backend.tracker.local_count@ == 0,
            backend.tracker.previous_remote_count == 0,
            backend.reconnect.threshold == reconnect_threshold,
            backend.reconnect.consecutive_errors == 0,
            backend.wf(),
    {
        RedisStorage {
            sync_frequency,
            tracker: CountTracker { local_count: Count::default(), previous_remote_count: 0 },
            reconnect: ReconnectPolicy::new(reconnect_threshold),
        }
    }

    /// The initial load's outcome: the remote key's value (0 when the key
    /// was absent) is added into the counter — not blindly set, so a
    /// counter already partly seeded keeps its progress — and becomes the
    /// agreed baseline.
    pub fn seed(&mut self, initial_remote: u64)
        requires
            old(self).wf(),
            old(self).tracker.local_count@ + initial_remote <= u64::MAX,
        ensures
            final(self).tracker.local_count@ == old(self).tracker.local_count@ + initial_remote,
            final(self).tracker.previous_remote_count == initial_remote,
            final(self).sync_frequency == old(self).sync_frequency,
            final(self).reconnect == old(self).reconnect,
            final(self).wf(),
    {
        self.tracker.local_count.add(initial_remote);
        self.tracker.previous_remote_count = initial_remote;
    }

    /// One sync cycle's transaction body: merge the remote value just read
    /// (absent key meaning the baseline) with local progress into the value
    /// to write back.
    pub fn plan_write(&mut self, remote_read: Option<u64>) -> (new_remote: u64)
        requires
            old(self).wf(),
            merged_count(
                old(self).tracker.previous_remote_count as int,
                effective_remote(remote_read, old(self).tracker.previous_remote_count),
                old(self).tracker.local_count@ as int,
            ) <= u64::MAX,
        ensures
            new_remote == merged_count(
                old(self).tracker.previous_remote_count as int,
                effective_remote(remote_read, old(self).tracker.previous_remote_count),
                old(self).tracker.local_count@ as int,
            ),
            final(self).tracker.previous_remote_count == new_remote,
            final(self).tracker.local_count@ == new_remote,
            new_remote >= old(self).tracker.previous_remote_count,
            new_remote >= old(self).tracker.local_count@,
            final(self).sync_frequency == old(self).sync_frequency,
            final(self).reconnect == old(self).reconnect,
            final(self).wf(),
    {
        let remote_count = match remote_read {
            Some(v) => v,
            None => self.tracker.previous_remote_count,
        };
        self.tracker.get_new_count(remote_count)
    }

    /// The cycle's outcome: success ends the error streak; failure counts
    /// it, and asks for a reconnect attempt on every `threshold`-th
    /// consecutive failure. Remote failures are transient by design — they
    /// never terminate the loop.
    pub fn record_sync_result(&mut self, success: bool) -> (attempt_reconnect: bool)
        requires
            old(self).wf(),
            old(self).reconnect.consecutive_errors < u64::MAX,
        ensures
            final(self).tracker == old(self).tracker,
            final(self).sync_frequency == old(self).sync_frequency,
            final(self).reconnect.threshold == old(self).reconnect.threshold,
            success ==> final(self).reconnect.consecutive_errors == 0 && !attempt_reconnect,
            !success ==> final(self).reconnect.consecutive_errors == old(
                self,
            ).reconnect.consecutive_errors + 1 && attempt_reconnect == ((old(
                self,
            ).reconnect.consecutive_errors + 1) % old(self).reconnect.threshold as int == 0),
            final(self).wf(),
    {
        if success {
            self.reconnect.record_success();
            false
        } else {
            self.reconnect.record_failure()
        }
    }

    /// The outcome of a reconnect attempt: success resets the error streak,
    /// failure leaves it to keep accumulating.
    pub fn record_reconnect(&mut self, success: bool)
        ensures
            final(self).tracker == old(self).tracker,
            final(self).sync_frequency == old(self).sync_frequency,
            final(self).reconnect.threshold == old(self).reconnect.threshold,
            final(self).reconnect.consecutive_errors == if success {
                0
            } else {
                old(self).reconnect.consecutive_errors
            },
    {
        self.reconnect.record_reconnect(success);
    }
}

/// Reconnect timing: counting consecutive failures from a fresh streak, the
/// `k`-th failure triggers a reconnect attempt exactly when `k` reaches the
/// threshold — never earlier. With `record_failure` reporting an attempt on
/// the `k`-th failure iff `k % threshold == 0`, this means exactly one
/// attempt is made in the first `threshold` consecutive failures.
pub proof fn lemma_reconnect_after_threshold(threshold: u64, k: u64)
    requires
        threshold >= 1,
        1 <= k <= threshold,
    ensures
        (k as int % threshold as int == 0) <==> (k == threshold),
{
    if k < threshold {
        vstd::arithmetic::div_mod::lemma_small_mod(k as nat, threshold as nat);
    } else {
        vstd::arithmetic::div_mod::lemma_mod_self_0(threshold as int);
    }
}

} // verus!
