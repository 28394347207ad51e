//! When a failed batch is replayed again: a bounded number of attempts,
//! with a wait between them that doubles up to a ceiling.

use vstd::prelude::*;
use crate::change::ChangeEvent;
use crate::error::SyncError;

verus! {

/// The limits of replaying one batch.
#[derive(Clone, Copy, Debug, PartialEq, Eq, Structural)]
pub struct RetryPolicy {
    /// The greatest number of attempts for one batch.
    pub max_attempts: u32,
    /// The wait after the first failed attempt, in milliseconds.
    pub base_delay: u64,
    /// The longest wait between two attempts, in milliseconds.
    pub max_delay: u64,
}

/// What to do with a batch after an attempt to replay it.
#[derive(Clone, Copy, Debug, PartialEq, Eq, Structural)]
pub enum ReplayDecision {
    /// The batch was replayed; go on with the next one.
    Completed,
    /// Replay the whole batch again after this many milliseconds.
    Retry { delay: u64 },
}

/// What the monitoring hook learns of a processed batch.
#[derive(Debug)]
pub struct BatchReport {
    /// The collection of the batch's first event; empty for an empty batch.
    pub collection: String,
    /// The number of events in the batch.
    pub size: usize,
    /// Whether the batch was replayed.
    pub succeeded: bool,
}

/// The smaller of two numbers.
pub open spec fn smaller(a: nat, b: nat) -> nat {
    if a <= b {
        a
    } else {
        b
    }
}

/// The wait after the failed attempt number `attempt`: the base wait after
/// the first, twice the previous wait after each later one, and never more
/// than the ceiling.
pub open spec fn backoff_spec(base: nat, ceiling: nat, attempt: nat) -> nat
    decreases attempt,
{
    if attempt <= 1 {
        smaller(base, ceiling)
    } else {
        smaller(2 * backoff_spec(base, ceiling, (attempt - 1) as nat), ceiling)
    }
}

/// What to do after the attempt number `attempt`: nothing more after a
/// success, give up once the permitted attempts are used, otherwise wait
/// and retry.
pub open spec fn decision_spec(policy: RetryPolicy, attempt: nat, succeeded: bool) -> Result<
    ReplayDecision,
    SyncError,
> {
    if succeeded {
        Ok(ReplayDecision::Completed)
    } else if attempt >= policy.max_attempts {
        Err(SyncError::BatchReplayFailed { attempts: policy.max_attempts })
    } else {
        Ok(
            ReplayDecision::Retry {
                delay: backoff_spec(
                    policy.base_delay as nat,
                    policy.max_delay as nat,
                    attempt,
                ) as u64,
            },
        )
    }
}

/// No wait is longer than the ceiling.
pub proof fn lemma_backoff_bounded(base: nat, ceiling: nat, attempt: nat)
    ensures
        backoff_spec(base, ceiling, attempt) <= ceiling,
{
}

/// The wait never shrinks from one attempt to the next.
pub proof fn lemma_backoff_grows(base: nat, ceiling: nat, attempt: nat)
    ensures
        backoff_spec(base, ceiling, attempt) <= backoff_spec(base, ceiling, attempt + 1),
    decreases attempt,
{
    if attempt > 1 {
        lemma_backoff_grows(base, ceiling, (attempt - 1) as nat);
    }
}

/// Once the wait has reached the ceiling, or is zero, it stays there.
pub proof fn lemma_backoff_settled(base: nat, ceiling: nat, from: nat, attempt: nat)
    requires
        1 <= from <= attempt,
        backoff_spec(base, ceiling, from) == ceiling || backoff_spec(base, ceiling, from) == 0,
    ensures
        backoff_spec(base, ceiling, attempt) == backoff_spec(base, ceiling, from),
    decreases attempt,
{
    if from < attempt {
        lemma_backoff_settled(base, ceiling, from, (attempt - 1) as nat);
    }
}

impl RetryPolicy {
    /// The wait after the failed attempt number `attempt`, in milliseconds.
    pub fn backoff_delay(&self, attempt: u32) -> (delay: u64)
        ensures
            delay == backoff_spec(self.base_delay as nat, self.max_delay as nat, attempt as nat),
    {
        let ceiling = self.max_delay;
        let mut delay: u64 = if self.base_delay <= ceiling {
            self.base_delay
        } else {
            ceiling
        };
        let mut k: u32 = 1;
        while k < attempt && delay < ceiling && delay > 0
            invariant
                1 <= k,
                k <= attempt || k == 1,
                ceiling == self.max_delay,
                delay <= ceiling,
                delay == backoff_spec(self.base_delay as nat, ceiling as nat, k as nat),
            decreases attempt - k,
        {
            if delay > ceiling / 2 {
                delay = ceiling;
            } else {
                delay = 2 * delay;
            }
            k = k + 1;
        }
        proof {
            if attempt == 0 {
                assert(backoff_spec(self.base_delay as nat, ceiling as nat, 0) == backoff_spec(
                    self.base_delay as nat,
                    ceiling as nat,
                    1,
                ));
            } else if k < attempt {
                lemma_backoff_settled(
                    self.base_delay as nat,
                    ceiling as nat,
                    k as nat,
                    attempt as nat,
                );
            }
        }
        delay
    }

    /// Decides what to do with a batch after the attempt number `attempt`
    /// to replay it, counted from one.
    pub fn after_attempt(&self, attempt: u32, succeeded: bool) -> (r: Result<
        ReplayDecision,
        SyncError,
    >)
        ensures
            r == decision_spec(*self, attempt as nat, succeeded),
    {
        if succeeded {
            Ok(ReplayDecision::Completed)
        } else if attempt >= self.max_attempts {
            Err(SyncError::BatchReplayFailed { attempts: self.max_attempts })
        } else {
            Ok(ReplayDecision::Retry { delay: self.backoff_delay(attempt) })
        }
    }
}

/// Describes a processed batch for the monitoring hook.
pub fn batch_report(batch: &Vec<ChangeEvent>, succeeded: bool) -> (r: BatchReport)
    ensures
        r.size == batch@.len(),
        r.succeeded == succeeded,
        r.collection@ == if batch@.len() > 0 {
            batch@[0].collection@
        } else {
            Seq::<char>::empty()
        },
{
    let collection = if batch.len() > 0 {
        batch[0].collection.clone()
    } else {
        String::new()
    };
    BatchReport { collection, size: batch.len(), succeeded }
}

} // verus!
