//! Batch bookkeeping and the two sinks' verdict policies.
//!
//! Disk mode is tolerant: every entry is tried, failures are counted, and the
//! verdict is "completed with N failures". Archive mode is fail-fast: one
//! failed entry means no archive at all.

use vstd::prelude::*;

use crate::archive::{zip_bytes_of, zip_run_ok, ArchiveSink};
use crate::github::GitHubFile;
use crate::retry::{DownloadOutcome, FetchErrorKind};
use crate::tree::Manifest;

verus! {

/// How many of a batch's outcomes are failures.
pub open spec fn count_failures(s: Seq<(String, DownloadOutcome)>) -> nat
    decreases s.len(),
{
    if s.len() == 0 {
        0
    } else if s.last().1 is Failed {
        count_failures(s.drop_last()) + 1
    } else {
        count_failures(s.drop_last())
    }
}

/// Whether any of a batch's outcomes is a failure.
pub open spec fn any_failed(s: Seq<(String, DownloadOutcome)>) -> bool {
    exists|i: int| 0 <= i < s.len() && s[i].1 is Failed
}

pub proof fn lemma_count_failures_zero(s: Seq<(String, DownloadOutcome)>)
    ensures
        (count_failures(s) == 0) <==> !any_failed(s),
    decreases s.len(),
{
    if s.len() > 0 {
        lemma_count_failures_zero(s.drop_last());
        if s.last().1 is Failed {
            assert(s[s.len() - 1].1 is Failed);
        } else if any_failed(s.drop_last()) {
            let i = choose|i: int| 0 <= i < s.drop_last().len() && s.drop_last()[i].1 is Failed;
            assert(s[i].1 is Failed);
        } else if any_failed(s) {
            let i = choose|i: int| 0 <= i < s.len() && s[i].1 is Failed;
            assert(i == s.len() - 1 || s.drop_last()[i].1 is Failed);
        }
    }
}

/// The recorded per-entry outcomes of one batch, keyed by relative path.
pub struct BatchResult {
    outcomes: Vec<(String, DownloadOutcome)>,
}

impl BatchResult {
    /// The recorded (path, outcome) pairs, in completion order.
    pub closed spec fn spec_outcomes(self) -> Seq<(String, DownloadOutcome)> {
        self.outcomes@
    }

    /// An empty record.
    pub fn new() -> (r: BatchResult)
        ensures
            r.spec_outcomes() == Seq::<(String, DownloadOutcome)>::empty(),
    {
        BatchResult { outcomes: Vec::new() }
    }

    /// Records one entry's terminal outcome.
    pub fn record(&mut self, path: String, outcome: DownloadOutcome)
        ensures
            final(self).spec_outcomes() == old(self).spec_outcomes().push((path, outcome)),
    {
        self.outcomes.push((path, outcome));
    }

    /// How many outcomes are recorded.
    pub fn len(&self) -> (n: usize)
        ensures
            n == self.spec_outcomes().len(),
    {
        self.outcomes.len()
    }

    /// The recorded outcomes.
    pub fn outcomes(&self) -> (r: &Vec<(String, DownloadOutcome)>)
        ensures
            r@ == self.spec_outcomes(),
    {
        &self.outcomes
    }

    /// How many entries of the batch failed.
    pub fn failure_count(&self) -> (n: usize)
        ensures
            n == count_failures(self.spec_outcomes()),
    {
        let mut n: usize = 0;
        let mut i: usize = 0;
        while i < self.outcomes.len()
            invariant
                0 <= i <= self.outcomes@.len(),
                n == count_failures(self.outcomes@.subrange(0, i as int)),
                n <= i,
            decreases self.outcomes@.len() - i,
        {
            proof {
                assert(self.outcomes@.subrange(0, i + 1 as int).drop_last() =~= self.outcomes@
                    .subrange(0, i as int));
                assert(self.outcomes@.subrange(0, i + 1 as int).last() == self.outcomes@[i as int]);
            }
            if self.outcomes[i].1.is_failed() {
                n = n + 1;
            }
            i = i + 1;
        }
        proof {
            assert(self.outcomes@.subrange(0, self.outcomes@.len() as int) =~= self.outcomes@);
        }
        n
    }

    /// Whether the whole batch succeeded: true exactly when no entry failed.
    pub fn is_success(&self) -> (b: bool)
        ensures
            b == !any_failed(self.spec_outcomes()),
    {
        proof {
            lemma_count_failures_zero(self.spec_outcomes());
        }
        self.failure_count() == 0
    }
}

/// The (path, bytes) pairs of the delivered outcomes, in order.
pub open spec fn delivered_pairs(s: Seq<(String, DownloadOutcome)>) -> Seq<(Seq<char>, Seq<u8>)>
    decreases s.len(),
{
    if s.len() == 0 {
        Seq::<(Seq<char>, Seq<u8>)>::empty()
    } else {
        let rest = delivered_pairs(s.drop_last());
        match s.last().1 {
            DownloadOutcome::Delivered { content, .. } => rest.push((s.last().0@, content@)),
            DownloadOutcome::Failed { .. } => rest,
        }
    }
}

/// Why archive mode produced no archive.
#[derive(Debug)]
pub enum BatchArchiveError {
    EntryFailed { path: String },
    LocalIo { detail: String },
}

/// The fail-fast archive-mode policy: an archive is assembled only when
/// every entry of the batch was delivered. Any failed entry aborts the whole
/// batch — no archive is produced — and the writer's own refusals surface as
/// `LocalIo`. On success the bytes are the archive of exactly the delivered
/// (path, content) pairs, in batch order.
pub fn archive_from_outcomes(outcomes: &Vec<(String, DownloadOutcome)>) -> (r: Result<
    Vec<u8>,
    BatchArchiveError,
>)
    ensures
        any_failed(outcomes@) ==> (r matches Err(e) && e matches BatchArchiveError::EntryFailed {
            path,
        } && exists|i: int|
            0 <= i < outcomes@.len() && outcomes@[i].1 is Failed && outcomes@[i].0 == path),
        r matches Err(BatchArchiveError::EntryFailed { .. }) ==> any_failed(outcomes@),
        !any_failed(outcomes@) ==> (r is Ok <==> zip_run_ok(delivered_pairs(outcomes@))),
        r matches Ok(bytes) ==> !any_failed(outcomes@) && bytes@ == zip_bytes_of(
            delivered_pairs(outcomes@),
        ) && bytes@.len() >= 22,
{
    let mut sink = ArchiveSink::new();
    let mut i: usize = 0;
    while i < outcomes.len()
        invariant
            0 <= i <= outcomes@.len(),
            forall|j: int| 0 <= j < i ==> !(#[trigger] outcomes@[j].1 is Failed),
            sink.spec_entries() == delivered_pairs(outcomes@.subrange(0, i as int)),
        decreases outcomes@.len() - i,
    {
        proof {
            assert(outcomes@.subrange(0, i + 1 as int).drop_last() =~= outcomes@.subrange(
                0,
                i as int,
            ));
            assert(outcomes@.subrange(0, i + 1 as int).last() == outcomes@[i as int]);
        }
        let entry = &outcomes[i];
        match &entry.1 {
            DownloadOutcome::Failed { .. } => {
                assert(outcomes@[i as int].1 is Failed);
                return Err(BatchArchiveError::EntryFailed { path: entry.0.clone() });
            },
            DownloadOutcome::Delivered { content, .. } => {
                sink.accept(entry.0.clone(), content.clone());
            },
        }
        i = i + 1;
    }
    proof {
        assert(outcomes@.subrange(0, outcomes@.len() as int) =~= outcomes@);
    }
    match sink.finalize() {
        Ok(bytes) => Ok(bytes),
        Err(detail) => Err(BatchArchiveError::LocalIo { detail }),
    }
}

/// The view of a fetch plan's triples.
pub open spec fn plan_view(v: Seq<(String, String, u64)>) -> Seq<(Seq<char>, Seq<char>, u64)> {
    v.map_values(|t: (String, String, u64)| (t.0@, t.1@, t.2))
}

/// The fetch plan of a manifest: one (path, content URL, size) triple per
/// entry that carries a content URL, in manifest order; entries without one
/// hold nothing to fetch and are left out.
pub open spec fn spec_fetch_plan(entries: Seq<GitHubFile>) -> Seq<(Seq<char>, Seq<char>, u64)>
    decreases entries.len(),
{
    if entries.len() == 0 {
        Seq::<(Seq<char>, Seq<char>, u64)>::empty()
    } else {
        let rest = spec_fetch_plan(entries.drop_last());
        match entries.last().download_url {
            Some(u) => rest.push((entries.last().path@, u@, entries.last().size)),
            None => rest,
        }
    }
}

/// Selects what the download stage fetches: the (path, content URL, size)
/// triples of the manifest entries that have a content URL, in order.
pub fn fetch_plan(manifest: &Manifest) -> (r: Vec<(String, String, u64)>)
    ensures
        plan_view(r@) == spec_fetch_plan(manifest.entries@),
{
    let mut r: Vec<(String, String, u64)> = Vec::new();
    let mut i: usize = 0;
    proof {
        assert(plan_view(r@) =~= spec_fetch_plan(manifest.entries@.subrange(0, 0)));
    }
    while i < manifest.entries.len()
        invariant
            0 <= i <= manifest.entries@.len(),
            plan_view(r@) == spec_fetch_plan(manifest.entries@.subrange(0, i as int)),
        decreases manifest.entries@.len() - i,
    {
        proof {
            assert(manifest.entries@.subrange(0, i + 1 as int).drop_last() =~= manifest.entries@
                .subrange(0, i as int));
            assert(manifest.entries@.subrange(0, i + 1 as int).last() == manifest.entries@[
            i as int]);
        }
        let entry = &manifest.entries[i];
        match &entry.download_url {
            Some(url) => {
                r.push((entry.path.clone(), url.clone(), entry.size));
                proof {
                    assert(plan_view(r@) =~= spec_fetch_plan(
                        manifest.entries@.subrange(0, i + 1 as int),
                    ));
                }
            },
            None => {},
        }
        i = i + 1;
    }
    proof {
        assert(manifest.entries@.subrange(0, manifest.entries@.len() as int) =~= manifest.entries@);
    }
    r
}

/// What is recorded for a delivered entry once its disk write has been
/// tried: the delivery stands if the write succeeded, and is demoted to a
/// `LocalIo` failure — keeping the attempt count — if it did not.
pub fn delivered_after_write(content: Vec<u8>, attempts: u8, write_result: Result<(), String>) -> (r:
    DownloadOutcome)
    ensures
        write_result is Ok ==> r == (DownloadOutcome::Delivered { content, attempts }),
        write_result matches Err(detail) ==> r == (DownloadOutcome::Failed {
            error: FetchErrorKind::LocalIo { detail },
            attempts,
        }),
{
    match write_result {
        Ok(_) => DownloadOutcome::Delivered { content, attempts },
        Err(detail) => DownloadOutcome::Failed {
            error: FetchErrorKind::LocalIo { detail },
            attempts,
        },
    }
}

} // verus!
