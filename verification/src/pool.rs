//! The bounded worker pool of the disk-mode download pipeline.
//!
//! At most `limit` fetches are in flight at once, where `limit` is the
//! caller's request capped at a hard ceiling of 10. `WorkerPool` is the book
//! of record: the driver may start a task only when `can_start` says so, and
//! reports every completion back. The bound is a law proved over every valid
//! schedule, not just an intention.

use vstd::prelude::*;

verus! {

/// The hard ceiling on concurrent fetches, whatever the caller requests.
pub const MAX_CONCURRENCY: usize = 10;

/// A requested concurrency, capped at the hard ceiling.
pub open spec fn spec_effective_concurrency(requested: nat) -> nat {
    if requested > MAX_CONCURRENCY {
        MAX_CONCURRENCY as nat
    } else {
        requested
    }
}

/// Caps the caller's concurrency request at the hard ceiling.
pub fn effective_concurrency(requested: u8) -> (r: usize)
    ensures
        r == spec_effective_concurrency(requested as nat),
{
    if requested as usize > MAX_CONCURRENCY {
        MAX_CONCURRENCY
    } else {
        requested as usize
    }
}

/// The pool's state: its limit, the tasks in flight, the tasks not yet begun.
pub struct WorkerPool {
    limit: usize,
    in_flight: usize,
    pending: usize,
}

impl WorkerPool {
    /// The concurrency bound.
    pub closed spec fn spec_limit(self) -> nat {
        self.limit as nat
    }

    /// Tasks started and not yet finished.
    pub closed spec fn spec_in_flight(self) -> nat {
        self.in_flight as nat
    }

    /// Tasks not yet started.
    pub closed spec fn spec_pending(self) -> nat {
        self.pending as nat
    }

    /// The bound holds: never more tasks in flight than the limit.
    pub open spec fn wf(self) -> bool {
        self.spec_in_flight() <= self.spec_limit()
    }

    /// An idle pool over `pending` tasks.
    pub fn new(limit: usize, pending: usize) -> (p: WorkerPool)
        ensures
            p.wf(),
            p.spec_limit() == limit,
            p.spec_in_flight() == 0,
            p.spec_pending() == pending,
    {
        WorkerPool { limit, in_flight: 0, pending }
    }

    /// Whether one more task may start: a free slot and work left.
    pub fn can_start(&self) -> (b: bool)
        ensures
            b == (self.spec_in_flight() < self.spec_limit() && self.spec_pending() > 0),
    {
        self.in_flight < self.limit && self.pending > 0
    }

    /// Starts one task: it leaves the pending set and joins the in-flight set.
    pub fn start(&mut self)
        requires
            old(self).spec_in_flight() < old(self).spec_limit(),
            old(self).spec_pending() > 0,
        ensures
            final(self).spec_limit() == old(self).spec_limit(),
            final(self).spec_in_flight() == old(self).spec_in_flight() + 1,
            final(self).spec_pending() == old(self).spec_pending() - 1,
            final(self).wf(),
    {
        self.in_flight = self.in_flight + 1;
        self.pending = self.pending - 1;
    }

    /// Finishes one task: it leaves the in-flight set.
    pub fn finish(&mut self)
        requires
            old(self).spec_in_flight() > 0,
        ensures
            final(self).spec_limit() == old(self).spec_limit(),
            final(self).spec_in_flight() == old(self).spec_in_flight() - 1,
            final(self).spec_pending() == old(self).spec_pending(),
            old(self).wf() ==> final(self).wf(),
    {
        self.in_flight = self.in_flight - 1;
    }
}

/// One scheduling event: a task starts, or a task finishes.
pub enum PoolEvent {
    Start,
    Finish,
}

/// Whether an event is allowed in a state.
pub open spec fn pool_event_enabled(in_flight: nat, pending: nat, limit: nat, e: PoolEvent) -> bool {
    match e {
        PoolEvent::Start => in_flight < limit && pending > 0,
        PoolEvent::Finish => in_flight > 0,
    }
}

/// The state one event leads to.
pub open spec fn pool_apply(in_flight: nat, pending: nat, e: PoolEvent) -> (nat, nat) {
    match e {
        PoolEvent::Start => (in_flight + 1, (pending - 1) as nat),
        PoolEvent::Finish => ((in_flight - 1) as nat, pending),
    }
}

/// The state a schedule of events leads to.
pub open spec fn pool_run(in_flight: nat, pending: nat, evs: Seq<PoolEvent>) -> (nat, nat)
    decreases evs.len(),
{
    if evs.len() == 0 {
        (in_flight, pending)
    } else {
        let next = pool_apply(in_flight, pending, evs[0]);
        pool_run(next.0, next.1, evs.skip(1))
    }
}

/// Whether every event of a schedule is allowed when its turn comes.
pub open spec fn pool_trace_valid(
    in_flight: nat,
    pending: nat,
    limit: nat,
    evs: Seq<PoolEvent>,
) -> bool
    decreases evs.len(),
{
    evs.len() == 0 || {
        &&& pool_event_enabled(in_flight, pending, limit, evs[0])
        &&& {
            let next = pool_apply(in_flight, pending, evs[0]);
            pool_trace_valid(next.0, next.1, limit, evs.skip(1))
        }
    }
}

proof fn lemma_pool_bounded_from(
    in_flight: nat,
    pending: nat,
    limit: nat,
    evs: Seq<PoolEvent>,
    k: int,
)
    requires
        in_flight <= limit,
        pool_trace_valid(in_flight, pending, limit, evs),
        0 <= k <= evs.len(),
    ensures
        pool_run(in_flight, pending, evs.subrange(0, k)).0 <= limit,
    decreases k,
{
    if k == 0 {
        assert(evs.subrange(0, 0) =~= Seq::<PoolEvent>::empty());
    } else {
        let next = pool_apply(in_flight, pending, evs[0]);
        assert(evs.subrange(0, k)[0] == evs[0]);
        assert(evs.subrange(0, k).skip(1) =~= evs.skip(1).subrange(0, k - 1));
        lemma_pool_bounded_from(next.0, next.1, limit, evs.skip(1), k - 1);
    }
}

/// Law: along any valid schedule from an idle pool, the number of in-flight
/// tasks never exceeds the limit — after every prefix of the schedule, that
/// is, at every instant.
pub proof fn lemma_pool_bounded(pending: nat, limit: nat, evs: Seq<PoolEvent>, k: int)
    requires
        pool_trace_valid(0, pending, limit, evs),
        0 <= k <= evs.len(),
    ensures
        pool_run(0, pending, evs.subrange(0, k)).0 <= limit,
{
    lemma_pool_bounded_from(0, pending, limit, evs, k);
}

} // verus!
