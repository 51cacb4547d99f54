//! The per-entry fetch protocol: bounded retry with linear backoff.
//!
//! One file entry is fetched with at most three attempts in total. A failed
//! attempt that still has budget is retried after a backoff of 100 ms times
//! the number of attempts already made; once the budget is spent the entry is
//! marked failed with the last error. The surrounding binary performs the
//! HTTP attempt and the sleep; `RetryState::on_attempt` decides everything.

use vstd::prelude::*;

verus! {

/// The attempt ceiling: an entry is fetched at most this many times.
pub const MAX_ATTEMPTS: u8 = 3;

/// The linear backoff unit: the k-th failed attempt waits k times this.
pub const BACKOFF_UNIT_MS: u64 = 100;

/// Why one fetch attempt (or the whole entry) failed.
#[derive(Debug)]
pub enum FetchErrorKind {
    RemoteStatus { status: u16 },
    TransientNetwork { detail: String },
    LocalIo { detail: String },
}

/// The terminal result for one manifest entry.
#[derive(Debug)]
pub enum DownloadOutcome {
    Delivered { content: Vec<u8>, attempts: u8 },
    Failed { error: FetchErrorKind, attempts: u8 },
}

impl DownloadOutcome {
    /// Whether this outcome is a failure.
    pub fn is_failed(&self) -> (b: bool)
        ensures
            b == (self matches DownloadOutcome::Failed { .. }),
    {
        match self {
            DownloadOutcome::Failed { .. } => true,
            DownloadOutcome::Delivered { .. } => false,
        }
    }
}

/// What the driver must do next with one entry.
#[derive(Debug)]
pub enum FetchStep {
    Done { outcome: DownloadOutcome },
    RetryAfterMs { delay_ms: u64 },
}

/// The retry state of one entry: how many attempts have been made.
pub struct RetryState {
    attempts: u8,
}

impl RetryState {
    /// Attempts made so far.
    pub closed spec fn spec_attempts(self) -> nat {
        self.attempts as nat
    }

    /// A fresh entry: no attempt made yet.
    pub fn new() -> (r: RetryState)
        ensures
            r.spec_attempts() == 0,
    {
        RetryState { attempts: 0 }
    }

    /// Attempts made so far.
    pub fn attempts(&self) -> (n: u8)
        ensures
            n == self.spec_attempts(),
    {
        self.attempts
    }

    /// Judges one attempt's result. A success delivers at once with the
    /// attempt count; a failure is retried after `BACKOFF_UNIT_MS` times the
    /// attempts now made, unless the ceiling is reached, which fails the
    /// entry with the last error.
    pub fn on_attempt(&mut self, result: Result<Vec<u8>, FetchErrorKind>) -> (step: FetchStep)
        requires
            old(self).spec_attempts() < MAX_ATTEMPTS,
        ensures
            final(self).spec_attempts() == old(self).spec_attempts() + 1,
            result matches Ok(content) ==> step == (FetchStep::Done {
                outcome: DownloadOutcome::Delivered {
                    content,
                    attempts: (old(self).spec_attempts() + 1) as u8,
                },
            }),
            result is Err && old(self).spec_attempts() + 1 < MAX_ATTEMPTS ==> step == (
            FetchStep::RetryAfterMs {
                delay_ms: (BACKOFF_UNIT_MS * (old(self).spec_attempts() + 1)) as u64,
            }),
            result matches Err(e) ==> (old(self).spec_attempts() + 1 == MAX_ATTEMPTS ==> step == (
            FetchStep::Done {
                outcome: DownloadOutcome::Failed { error: e, attempts: MAX_ATTEMPTS },
            })),
    {
        self.attempts = self.attempts + 1;
        match result {
            Ok(content) => FetchStep::Done {
                outcome: DownloadOutcome::Delivered { content, attempts: self.attempts },
            },
            Err(error) => {
                if self.attempts < MAX_ATTEMPTS {
                    FetchStep::RetryAfterMs { delay_ms: BACKOFF_UNIT_MS * (self.attempts as u64) }
                } else {
                    FetchStep::Done {
                        outcome: DownloadOutcome::Failed { error, attempts: MAX_ATTEMPTS },
                    }
                }
            },
        }
    }
}

/// The protocol run against a transport whose k-th attempt succeeds iff
/// `events[k]`, starting with `made` attempts already made: the attempts
/// recorded at the end, and whether the entry was delivered.
pub open spec fn retry_run_from(events: Seq<bool>, made: nat) -> (nat, bool)
    decreases MAX_ATTEMPTS - made,
{
    if made >= MAX_ATTEMPTS {
        (made, false)
    } else if events.len() == 0 {
        (made, false)
    } else if events[0] {
        (made + 1, true)
    } else if made + 1 == MAX_ATTEMPTS {
        (MAX_ATTEMPTS as nat, false)
    } else {
        retry_run_from(events.skip(1), made + 1)
    }
}

/// The protocol run for a fresh entry.
pub open spec fn retry_run(events: Seq<bool>) -> (nat, bool) {
    retry_run_from(events, 0)
}

/// Law: a transport that fails exactly twice and then succeeds yields a
/// delivered entry with exactly three attempts recorded.
pub proof fn lemma_retry_two_failures_then_success(events: Seq<bool>)
    requires
        events.len() >= 3,
        !events[0],
        !events[1],
        events[2],
    ensures
        retry_run(events) == (3nat, true),
{
    reveal_with_fuel(retry_run_from, 4);
    assert(events.skip(1)[0] == events[1]);
    assert(events.skip(1).skip(1)[0] == events[2]);
    assert(events.skip(1).skip(1).len() == events.len() - 2);
}

/// Law: a transport that always fails yields a failed entry after exactly
/// three attempts.
pub proof fn lemma_retry_always_fails(events: Seq<bool>)
    requires
        events.len() >= 3,
        !events[0],
        !events[1],
        !events[2],
    ensures
        retry_run(events) == (3nat, false),
{
    reveal_with_fuel(retry_run_from, 4);
    assert(events.skip(1)[0] == events[1]);
    assert(events.skip(1).skip(1)[0] == events[2]);
    assert(events.skip(1).skip(1).len() == events.len() - 2);
}

/// Law: whenever the first success comes within the attempt budget, the
/// entry is delivered, with one attempt more than the failures before it.
pub proof fn lemma_retry_delivers_at_first_success(events: Seq<bool>, i: int)
    requires
        0 <= i < MAX_ATTEMPTS,
        i < events.len(),
        events[i],
        forall|j: int| 0 <= j < i ==> !events[j],
    ensures
        retry_run(events) == ((i + 1) as nat, true),
    decreases i,
{
    if i > 0 {
        lemma_retry_delivers_at_first_success_from(events, i, 0);
    }
}

proof fn lemma_retry_delivers_at_first_success_from(events: Seq<bool>, i: int, made: nat)
    requires
        made < MAX_ATTEMPTS,
        0 <= i < MAX_ATTEMPTS - made,
        i < events.len(),
        events[i],
        forall|j: int| 0 <= j < i ==> !events[j],
    ensures
        retry_run_from(events, made) == ((made + i + 1) as nat, true),
    decreases i,
{
    if i > 0 {
        assert(!events[0]);
        assert(events.skip(1)[i - 1] == events[i]);
        assert forall|j: int| 0 <= j < i - 1 implies !events.skip(1)[j] by {
            assert(events.skip(1)[j] == events[j + 1]);
        }
        lemma_retry_delivers_at_first_success_from(events.skip(1), i - 1, made + 1);
    }
}

} // verus!
