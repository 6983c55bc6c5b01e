//! Aggregate accounting for a batch of files.
use vstd::prelude::*;

verus! {

/// Workers used when the host's parallelism is unknown.
pub const FALLBACK_WORKERS: usize = 4;

/// Number of `true` entries.
pub open spec fn count_ok(s: Seq<bool>) -> nat
    decreases s.len(),
{
    if s.len() == 0 {
        0
    } else {
        count_ok(s.drop_last()) + if s.last() {
            1nat
        } else {
            0nat
        }
    }
}

/// Number of `false` entries.
pub open spec fn count_failed(s: Seq<bool>) -> nat
    decreases s.len(),
{
    if s.len() == 0 {
        0
    } else {
        count_failed(s.drop_last()) + if s.last() {
            0nat
        } else {
            1nat
        }
    }
}

/// Successes and failures of the files finished so far.
#[derive(Debug, Clone, Copy, PartialEq, Eq, Structural)]
pub struct BatchTally {
    pub processed: usize,
    pub failed: usize,
}

impl BatchTally {
    /// No file finished yet.
    pub fn new() -> (r: BatchTally)
        ensures
            r.processed == 0,
            r.failed == 0,
    {
        BatchTally { processed: 0, failed: 0 }
    }

    /// Counts one finished file, as a success or as a failure.
    pub fn record(&mut self, succeeded: bool)
        requires
            old(self).processed + old(self).failed < usize::MAX,
        ensures
            succeeded ==> final(self).processed == old(self).processed + 1 && final(self).failed
                == old(self).failed,
            !succeeded ==> final(self).failed == old(self).failed + 1 && final(self).processed
                == old(self).processed,
    {
        if succeeded {
            self.processed = self.processed + 1;
        } else {
            self.failed = self.failed + 1;
        }
    }

    /// Total number of files counted.
    pub fn total(&self) -> (r: usize)
        requires
            self.processed + self.failed <= usize::MAX,
        ensures
            r == self.processed + self.failed,
    {
        self.processed + self.failed
    }
}

/// Folds the per-file outcomes of a batch (`true` for success) into its two counters.
pub fn tally(outcomes: &Vec<bool>) -> (r: BatchTally)
    ensures
        r.processed == count_ok(outcomes@),
        r.failed == count_failed(outcomes@),
        r.processed + r.failed == outcomes@.len(),
{
    let mut t = BatchTally::new();
    let mut i: usize = 0;
    while i < outcomes.len()
        invariant
            i <= outcomes@.len(),
            t.processed == count_ok(outcomes@.subrange(0, i as int)),
            t.failed == count_failed(outcomes@.subrange(0, i as int)),
            t.processed + t.failed == i,
        decreases outcomes@.len() - i,
    {
        proof {
            let next = outcomes@.subrange(0, i + 1);
            assert(next.drop_last() =~= outcomes@.subrange(0, i as int));
        }
        t.record(outcomes[i]);
        i = i + 1;
    }
    assert(outcomes@.subrange(0, outcomes@.len() as int) =~= outcomes@);
    t
}

/// Every outcome is counted exactly once: the two counters always sum to the number of
/// files, for an empty batch too.
pub proof fn lemma_counts_cover_batch(s: Seq<bool>)
    ensures
        count_ok(s) + count_failed(s) == s.len(),
    decreases s.len(),
{
    if s.len() > 0 {
        lemma_counts_cover_batch(s.drop_last());
    }
}

/// Worker pool size: the requested count when positive, else the host's available
/// parallelism, else a fallback of four.
pub fn worker_count(requested: usize, available: Option<usize>) -> (r: usize)
    ensures
        requested > 0 ==> r == requested,
        requested == 0 && available is Some && available->0 > 0 ==> r == available->0,
        requested == 0 && (available is None || available->0 == 0) ==> r == FALLBACK_WORKERS,
        r > 0,
{
    if requested > 0 {
        requested
    } else {
        match available {
            Some(n) => if n > 0 {
                n
            } else {
                FALLBACK_WORKERS
            },
            None => FALLBACK_WORKERS,
        }
    }
}

} // verus!
