//! The daemon's heartbeat lease over manually driven fans.
//!
//! Time is measured in milliseconds on a monotonic clock chosen by the caller.
use std::collections::BTreeSet;
use vstd::prelude::*;

verus! {

broadcast use vstd::std_specs::btree::group_btree_axioms;

/// Tracks which fans are under manual control and when the client last proved
/// that it is alive.
pub struct ActuationLease {
    timeout_ms: u64,
    last_heartbeat_ms: u64,
    manual_fans: BTreeSet<usize>,
}

impl ActuationLease {
    /// The lease timeout in milliseconds.
    pub closed spec fn timeout(&self) -> nat {
        self.timeout_ms as nat
    }

    /// The time of the most recent heartbeat.
    pub closed spec fn last_heartbeat(&self) -> nat {
        self.last_heartbeat_ms as nat
    }

    /// The fans currently under manual control.
    pub closed spec fn manual_fans(&self) -> Set<usize> {
        self.manual_fans@
    }

    /// Time elapsed since the last heartbeat; a clock reading before the
    /// heartbeat counts as no time at all.
    pub open spec fn elapsed_since_heartbeat(&self, now_ms: u64) -> nat {
        if now_ms >= self.last_heartbeat() {
            (now_ms - self.last_heartbeat()) as nat
        } else {
            0
        }
    }

    /// Whether the lease has lapsed at `now_ms`: some fan is manual and no
    /// heartbeat arrived for at least the timeout.
    pub open spec fn expired_at(&self, now_ms: u64) -> bool {
        &&& !self.manual_fans().is_empty()
        &&& self.elapsed_since_heartbeat(now_ms) >= self.timeout()
    }

    pub fn new(timeout_ms: u64, now_ms: u64) -> (lease: Self)
        ensures
            lease.timeout() == timeout_ms,
            lease.last_heartbeat() == now_ms,
            lease.manual_fans() == Set::<usize>::empty(),
    {
        ActuationLease { timeout_ms, last_heartbeat_ms: now_ms, manual_fans: BTreeSet::new() }
    }

    pub fn heartbeat(&mut self, now_ms: u64)
        ensures
            final(self).timeout() == old(self).timeout(),
            final(self).last_heartbeat() == now_ms,
            final(self).manual_fans() == old(self).manual_fans(),
    {
        self.last_heartbeat_ms = now_ms;
    }

    pub fn set_manual(&mut self, fan_id: usize, now_ms: u64)
        ensures
            final(self).timeout() == old(self).timeout(),
            final(self).last_heartbeat() == now_ms,
            final(self).manual_fans() == old(self).manual_fans().insert(fan_id),
    {
        self.manual_fans.insert(fan_id);
        self.heartbeat(now_ms);
    }

    pub fn set_system_auto(&mut self, fan_id: usize, now_ms: u64)
        ensures
            final(self).timeout() == old(self).timeout(),
            final(self).last_heartbeat() == now_ms,
            final(self).manual_fans() == old(self).manual_fans().remove(fan_id),
    {
        self.manual_fans.remove(&fan_id);
        self.heartbeat(now_ms);
    }

    pub fn restored_all(&mut self, now_ms: u64)
        ensures
            final(self).timeout() == old(self).timeout(),
            final(self).last_heartbeat() == now_ms,
            final(self).manual_fans() == Set::<usize>::empty(),
    {
        self.manual_fans.clear();
        self.heartbeat(now_ms);
    }

    pub fn should_restore(&self, now_ms: u64) -> (restore: bool)
        ensures
            restore == self.expired_at(now_ms),
    {
        let elapsed = now_ms.saturating_sub(self.last_heartbeat_ms);
        !self.manual_fans.is_empty() && elapsed >= self.timeout_ms
    }
}

/// A fan put under manual control is restored once the timeout passes
/// without a heartbeat, and not before.
pub proof fn law_manual_control_expires_without_heartbeat(
    before: ActuationLease,
    after: ActuationLease,
    fan_id: usize,
    set_at_ms: u64,
    now_ms: u64,
)
    requires
        after.timeout() == before.timeout(),
        after.last_heartbeat() == set_at_ms,
        after.manual_fans() == before.manual_fans().insert(fan_id),
        now_ms >= set_at_ms,
    ensures
        after.expired_at(now_ms) <==> now_ms - set_at_ms >= before.timeout(),
{
    assert(after.manual_fans().contains(fan_id));
}

/// A heartbeat keeps manual control for a full timeout from the moment it
/// arrives, whatever happened before it.
pub proof fn law_heartbeat_keeps_manual_control(
    before: ActuationLease,
    after: ActuationLease,
    beat_at_ms: u64,
    now_ms: u64,
)
    requires
        after.timeout() == before.timeout(),
        after.last_heartbeat() == beat_at_ms,
        after.manual_fans() == before.manual_fans(),
        beat_at_ms <= now_ms < beat_at_ms + before.timeout(),
    ensures
        !after.expired_at(now_ms),
{
}

/// Once every fan is back in System Auto, the lease never asks for a
/// restore, however long no heartbeat arrives.
pub proof fn law_system_auto_clears_the_lease(after: ActuationLease, now_ms: u64)
    requires
        after.manual_fans() == Set::<usize>::empty(),
    ensures
        !after.expired_at(now_ms),
{
}

/// One call on the lease, with the clock reading it was made at.
pub enum LeaseCall {
    Heartbeat { now_ms: u64 },
    SetManual { fan_id: usize, now_ms: u64 },
    SetSystemAuto { fan_id: usize, now_ms: u64 },
    RestoredAll { now_ms: u64 },
}

/// The clock reading a call was made at.
pub open spec fn call_time(call: LeaseCall) -> u64 {
    match call {
        LeaseCall::Heartbeat { now_ms } => now_ms,
        LeaseCall::SetManual { now_ms, .. } => now_ms,
        LeaseCall::SetSystemAuto { now_ms, .. } => now_ms,
        LeaseCall::RestoredAll { now_ms } => now_ms,
    }
}

/// The fans under manual control after a history of calls on a new lease:
/// those set manual and not since returned to System Auto or restored.
pub open spec fn manual_after(calls: Seq<LeaseCall>) -> Set<usize>
    decreases calls.len(),
{
    if calls.len() == 0 {
        Set::empty()
    } else {
        let earlier = manual_after(calls.drop_last());
        match calls.last() {
            LeaseCall::Heartbeat { .. } => earlier,
            LeaseCall::SetManual { fan_id, .. } => earlier.insert(fan_id),
            LeaseCall::SetSystemAuto { fan_id, .. } => earlier.remove(fan_id),
            LeaseCall::RestoredAll { .. } => Set::empty(),
        }
    }
}

/// The clock reading of the latest call, or of the lease's creation when
/// there was none.
pub open spec fn last_call_at(created_ms: u64, calls: Seq<LeaseCall>) -> u64 {
    if calls.len() == 0 {
        created_ms
    } else {
        call_time(calls.last())
    }
}

/// Whether `after` is what the call makes of `before`, as the lease
/// methods' contracts state.
pub open spec fn lease_call(before: ActuationLease, after: ActuationLease, call: LeaseCall) -> bool {
    &&& after.timeout() == before.timeout()
    &&& after.last_heartbeat() == call_time(call)
    &&& after.manual_fans() == match call {
        LeaseCall::Heartbeat { .. } => before.manual_fans(),
        LeaseCall::SetManual { fan_id, .. } => before.manual_fans().insert(fan_id),
        LeaseCall::SetSystemAuto { fan_id, .. } => before.manual_fans().remove(fan_id),
        LeaseCall::RestoredAll { .. } => Set::<usize>::empty(),
    }
}

/// After any history of heartbeats, manual sets, System Auto requests and
/// restores on a new lease, the lease asks for a restore exactly when some
/// fan set manual has not since been returned to System Auto or restored,
/// and at least the timeout has passed since the latest call (a clock
/// reading before that call counts as no time).
pub proof fn law_lease_expiry_over_any_history(
    timeout_ms: u64,
    created_ms: u64,
    calls: Seq<LeaseCall>,
    leases: Seq<ActuationLease>,
    now_ms: u64,
)
    requires
        leases.len() == calls.len() + 1,
        leases[0].timeout() == timeout_ms,
        leases[0].last_heartbeat() == created_ms,
        leases[0].manual_fans() == Set::<usize>::empty(),
        forall|i: int| #![trigger calls[i]] 0 <= i < calls.len() ==> lease_call(leases[i], leases[i + 1], calls[i]),
    ensures
        leases.last().expired_at(now_ms) <==> ({
            let since = last_call_at(created_ms, calls);
            &&& !manual_after(calls).is_empty()
            &&& (if now_ms >= since { now_ms - since } else { 0 }) >= timeout_ms
        }),
{
    lemma_lease_after_calls(timeout_ms, created_ms, calls, leases, calls.len() as int);
    assert(calls.take(calls.len() as int) =~= calls);
}

/// The lease after the first `k` calls of a history.
proof fn lemma_lease_after_calls(
    timeout_ms: u64,
    created_ms: u64,
    calls: Seq<LeaseCall>,
    leases: Seq<ActuationLease>,
    k: int,
)
    requires
        0 <= k <= calls.len(),
        leases.len() == calls.len() + 1,
        leases[0].timeout() == timeout_ms,
        leases[0].last_heartbeat() == created_ms,
        leases[0].manual_fans() == Set::<usize>::empty(),
        forall|i: int| #![trigger calls[i]] 0 <= i < calls.len() ==> lease_call(leases[i], leases[i + 1], calls[i]),
    ensures
        leases[k].timeout() == timeout_ms,
        leases[k].last_heartbeat() == last_call_at(created_ms, calls.take(k)),
        leases[k].manual_fans() == manual_after(calls.take(k)),
    decreases k,
{
    if k > 0 {
        lemma_lease_after_calls(timeout_ms, created_ms, calls, leases, k - 1);
        assert(calls.take(k).drop_last() =~= calls.take(k - 1));
        assert(calls.take(k).last() == calls[k - 1]);
        assert(lease_call(leases[k - 1], leases[k], calls[k - 1]));
    } else {
        assert(calls.take(0) =~= Seq::<LeaseCall>::empty());
    }
}

/// One step of the lease that puts no fan under manual control: a heartbeat
/// (the fans are kept), one fan returned to System Auto, or every fan
/// restored.
pub open spec fn releasing_step(before: ActuationLease, after: ActuationLease) -> bool {
    ||| after.manual_fans() == before.manual_fans()
    ||| exists|fan_id: usize| after.manual_fans() == #[trigger] before.manual_fans().remove(fan_id)
    ||| after.manual_fans() == Set::<usize>::empty()
}

/// After every fan was restored, heartbeats, System Auto requests and
/// further restores, in any number and order, never make the lease ask for a
/// restore, however much time passes, until a fan is put under manual
/// control again.
pub proof fn law_restored_lease_stays_clear(history: Seq<ActuationLease>, now_ms: u64)
    requires
        history.len() > 0,
        history[0].manual_fans() == Set::<usize>::empty(),
        forall|i: int| 0 <= i < history.len() - 1 ==> releasing_step(#[trigger] history[i], history[i + 1]),
    ensures
        forall|i: int| 0 <= i < history.len() ==> !(#[trigger] history[i]).expired_at(now_ms),
{
    assert forall|i: int| 0 <= i < history.len() implies !(#[trigger] history[i]).expired_at(now_ms) by {
        lemma_no_manual_fans(history, i);
    }
}

/// Along such a history no fan is ever under manual control.
proof fn lemma_no_manual_fans(history: Seq<ActuationLease>, k: int)
    requires
        0 <= k < history.len(),
        history[0].manual_fans() == Set::<usize>::empty(),
        forall|i: int| 0 <= i < history.len() - 1 ==> releasing_step(#[trigger] history[i], history[i + 1]),
    ensures
        history[k].manual_fans() == Set::<usize>::empty(),
    decreases k,
{
    if k > 0 {
        lemma_no_manual_fans(history, k - 1);
        assert(releasing_step(history[k - 1], history[k]));
        if exists|fan_id: usize| history[k].manual_fans() == #[trigger] history[k - 1].manual_fans().remove(fan_id) {
            let fan_id = choose|fan_id: usize|
                history[k].manual_fans() == #[trigger] history[k - 1].manual_fans().remove(fan_id);
            assert(Set::<usize>::empty().remove(fan_id) =~= Set::<usize>::empty());
        }
    }
}

/// Returning the last manual fan to System Auto clears the lease.
pub proof fn law_last_manual_fan_released(
    before: ActuationLease,
    after: ActuationLease,
    fan_id: usize,
    now_ms: u64,
)
    requires
        before.manual_fans().subset_of(set![fan_id]),
        after.manual_fans() == before.manual_fans().remove(fan_id),
    ensures
        !after.expired_at(now_ms),
{
    assert(after.manual_fans() =~= Set::<usize>::empty());
}

} // verus!
