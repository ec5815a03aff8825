use vstd::prelude::*;
use crate::error::Error;

verus! {

/// Attempts a task gets unless configured otherwise.
pub const DEFAULT_MAX_ATTEMPTS: u32 = 3;

/// Pause between two attempts unless configured otherwise.
pub const DEFAULT_RETRY_DELAY_MS: u64 = 1000;

/// How often, and how far apart, a failing attempt is repeated.
#[derive(Clone, Copy, Debug, PartialEq, Eq, Structural)]
pub struct RetryPolicy {
    pub max_attempts: u32,
    pub delay_ms: u64,
}

/// What to do after an attempt: stop with a result, or wait and try again.
#[derive(Debug)]
pub enum RetryStep<T> {
    Done(Result<T, Error>),
    Again { delay_ms: u64 },
}

impl RetryPolicy {
    pub open spec fn wf(&self) -> bool {
        self.max_attempts >= 1
    }

    pub fn new(max_attempts: u32, delay_ms: u64) -> (r: RetryPolicy)
        requires
            max_attempts >= 1,
        ensures
            r.wf(),
            r.max_attempts == max_attempts,
            r.delay_ms == delay_ms,
    {
        RetryPolicy { max_attempts, delay_ms }
    }

    pub fn standard() -> (r: RetryPolicy)
        ensures
            r.wf(),
            r.max_attempts == DEFAULT_MAX_ATTEMPTS,
            r.delay_ms == DEFAULT_RETRY_DELAY_MS,
    {
        RetryPolicy { max_attempts: DEFAULT_MAX_ATTEMPTS, delay_ms: DEFAULT_RETRY_DELAY_MS }
    }

    /// Whether attempt number `made` (counting from one) ends the run when it
    /// came out as `outcome`: it succeeded, failed in a way no retry mends, or
    /// was the last one allowed.
    pub open spec fn stops<T>(&self, made: nat, outcome: Result<T, Error>) -> bool {
        match outcome {
            Ok(_) => true,
            Err(e) => !e.retryable_spec() || made >= self.max_attempts,
        }
    }

    /// Decides after attempt number `made` (counting from one). A success
    /// is returned; a failure is returned as it is when it is not retryable
    /// or the attempts are spent; otherwise the caller waits `delay_ms` and
    /// tries again.
    pub fn after_attempt<T>(&self, made: u32, outcome: Result<T, Error>) -> (r: RetryStep<T>)
        requires
            self.wf(),
            1 <= made <= self.max_attempts,
        ensures
            self.stops(made as nat, outcome) ==> r == RetryStep::Done(outcome),
            !self.stops(made as nat, outcome) ==> (r == (RetryStep::<T>::Again {
                delay_ms: self.delay_ms,
            })),
    {
        match outcome {
            Ok(v) => RetryStep::Done(Ok(v)),
            Err(e) => {
                if !e.is_retryable() || made >= self.max_attempts {
                    RetryStep::Done(Err(e))
                } else {
                    RetryStep::Again { delay_ms: self.delay_ms }
                }
            },
        }
    }

    /// The result and the number of attempts of a run in which attempt
    /// `i + 1` comes out as `outcomes[i]`, starting at attempt `from + 1`.
    pub open spec fn run<T>(&self, outcomes: Seq<Result<T, Error>>, from: nat) -> (Result<T, Error>, nat)
        decreases outcomes.len() - from,
    {
        if from >= outcomes.len() {
            (outcomes.last(), outcomes.len())
        } else if self.stops(from + 1, outcomes[from as int]) || from + 1 >= outcomes.len() {
            (outcomes[from as int], from + 1)
        } else {
            self.run(outcomes, from + 1)
        }
    }
}

/// The attempt failed with an error that another attempt may mend.
pub open spec fn failed_retryably<T>(outcome: Result<T, Error>) -> bool {
    match outcome {
        Ok(_) => false,
        Err(e) => e.retryable_spec(),
    }
}

/// The retry bound is respected: an operation that fails `k` times with
/// retryable errors and then succeeds succeeds after exactly `k + 1`
/// attempts when the bound allows `k + 1`; with a bound of at most `k`, the
/// run fails after exactly `max_attempts` attempts, with the error of the
/// last one.
pub proof fn lemma_retry_bound<T>(policy: RetryPolicy, outcomes: Seq<Result<T, Error>>, k: nat)
    requires
        policy.wf(),
        outcomes.len() == k + 1,
        forall|i: int| 0 <= i < k ==> failed_retryably(#[trigger] outcomes[i]),
        outcomes[k as int] is Ok,
    ensures
        policy.max_attempts >= k + 1 ==> policy.run(outcomes, 0) == (outcomes[k as int], k + 1),
        policy.max_attempts <= k ==> policy.run(outcomes, 0) == (
            outcomes[policy.max_attempts - 1],
            policy.max_attempts as nat,
        ),
        policy.max_attempts <= k ==> policy.run(outcomes, 0).0 is Err,
{
    lemma_run_from(policy, outcomes, k, 0);
}

proof fn lemma_run_from<T>(policy: RetryPolicy, outcomes: Seq<Result<T, Error>>, k: nat, from: nat)
    requires
        policy.wf(),
        outcomes.len() == k + 1,
        forall|i: int| 0 <= i < k ==> failed_retryably(#[trigger] outcomes[i]),
        outcomes[k as int] is Ok,
        from <= k,
        from < policy.max_attempts,
    ensures
        policy.max_attempts >= k + 1 ==> policy.run(outcomes, from) == (outcomes[k as int], k + 1),
        policy.max_attempts <= k ==> policy.run(outcomes, from) == (
            outcomes[policy.max_attempts - 1],
            policy.max_attempts as nat,
        ),
    decreases k - from,
{
    if from < k {
        assert(failed_retryably(outcomes[from as int]));
        if from + 1 < policy.max_attempts {
            lemma_run_from(policy, outcomes, k, from + 1);
        }
    }
}

} // verus!
