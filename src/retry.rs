//! Bounded retry with exponential backoff for calls that fail at the transport level.
//!
//! The caller performs each attempt itself and asks [`after_transport_error`] what to do when
//! one fails; an answer that arrived, whatever its status, ends the retrying.
use vstd::prelude::*;

verus! {

/// Retries after the first attempt: six attempts in all.
pub const MAX_RETRIES: u32 = 5;

/// The wait before the first retry, in seconds.
pub const BASE_DELAY_SECS: u64 = 1;

/// What to do after an attempt failed at the transport level.
#[derive(Debug, Clone, Copy, PartialEq, Eq, Structural)]
pub enum RetryDecision {
    /// Wait this many seconds, then attempt again.
    RetryAfter { delay_secs: u64 },
    /// The budget is spent: surface the error of the attempt that just failed.
    GiveUp,
}

/// `2^k`.
pub open spec fn doubling(k: nat) -> nat
    decreases k,
{
    if k == 0 {
        1
    } else {
        2 * doubling((k - 1) as nat)
    }
}

/// The wait before retry `k + 1`, in seconds: doubled each time from one second, held at
/// the largest `u64`.
pub open spec fn backoff_delay(k: nat) -> u64 {
    if doubling(k) <= u64::MAX {
        doubling(k) as u64
    } else {
        u64::MAX
    }
}

/// The decision after the `failed`-th attempt (counting from 1) failed, under a budget of
/// `max_retries` retries.
pub open spec fn decision_after(failed: nat, max_retries: nat) -> RetryDecision {
    if failed > max_retries {
        RetryDecision::GiveUp
    } else {
        RetryDecision::RetryAfter { delay_secs: backoff_delay((failed - 1) as nat) }
    }
}

/// Decides what follows the failure of attempt number `failed_attempts` (counting from 1).
pub fn after_transport_error(failed_attempts: u32, max_retries: u32) -> (r: RetryDecision)
    requires
        failed_attempts >= 1,
    ensures
        r == decision_after(failed_attempts as nat, max_retries as nat),
{
    if failed_attempts > max_retries {
        RetryDecision::GiveUp
    } else {
        RetryDecision::RetryAfter { delay_secs: backoff_delay_secs(failed_attempts - 1) }
    }
}

/// The wait before retry `k + 1`: one second, doubled `k` times, held at the largest `u64`.
pub fn backoff_delay_secs(k: u32) -> (r: u64)
    ensures
        r == backoff_delay(k as nat),
{
    let mut d: u64 = BASE_DELAY_SECS;
    let mut i: u32 = 0;
    let mut saturated = false;
    while i < k
        invariant
            i <= k,
            !saturated ==> d as nat == doubling(i as nat),
            saturated ==> d == u64::MAX && doubling(i as nat) > u64::MAX,
        decreases k - i,
    {
        if saturated || d > u64::MAX / 2 {
            d = u64::MAX;
            saturated = true;
        } else {
            d = d * 2;
        }
        i = i + 1;
    }
    d
}

/// The result of running an operation under the retry policy, given what each attempt would
/// give (`true` for an answer, `false` for a transport error).
pub ghost struct RetryRun {
    /// How many attempts were made.
    pub attempts: nat,
    /// Whether the last attempt gave an answer.
    pub answered: bool,
}

/// Runs attempts from number `k` (counting from 0) on.
pub open spec fn run_from(outcomes: Seq<bool>, max_retries: nat, k: nat) -> RetryRun
    recommends
        outcomes.len() > max_retries,
    decreases outcomes.len() - k,
{
    if k >= outcomes.len() {
        RetryRun { attempts: k, answered: false }
    } else if outcomes[k as int] {
        RetryRun { attempts: k + 1, answered: true }
    } else {
        match decision_after(k + 1, max_retries) {
            RetryDecision::GiveUp => RetryRun { attempts: k + 1, answered: false },
            RetryDecision::RetryAfter { .. } => run_from(outcomes, max_retries, k + 1),
        }
    }
}

proof fn lemma_all_fail_from(outcomes: Seq<bool>, max_retries: nat, k: nat)
    requires
        outcomes.len() > max_retries,
        k <= max_retries,
        forall|i: int| 0 <= i < outcomes.len() ==> !outcomes[i],
    ensures
        run_from(outcomes, max_retries, k) == (RetryRun { attempts: max_retries + 1, answered: false }),
    decreases max_retries - k,
{
    if k < max_retries {
        lemma_all_fail_from(outcomes, max_retries, k + 1);
    }
}

/// An operation whose every attempt fails at the transport level is attempted exactly
/// `max_retries + 1` times, and the error of the last attempt is surfaced; the waits between
/// attempts are 1, 2, 4, ... seconds.
pub proof fn lemma_always_failing(outcomes: Seq<bool>, max_retries: nat)
    requires
        outcomes.len() > max_retries,
        forall|i: int| 0 <= i < outcomes.len() ==> !outcomes[i],
    ensures
        run_from(outcomes, max_retries, 0) == (RetryRun { attempts: max_retries + 1, answered: false }),
        forall|k: nat|
            k < max_retries ==> #[trigger] decision_after(k + 1, max_retries) == (
            RetryDecision::RetryAfter { delay_secs: backoff_delay(k) }),
        decision_after(max_retries + 1, max_retries) == RetryDecision::GiveUp,
{
    lemma_all_fail_from(outcomes, max_retries, 0);
}

/// An operation that fails once and then answers is answered on its second attempt, after
/// exactly one retry, whenever the budget allows a retry at all.
pub proof fn lemma_fails_once(outcomes: Seq<bool>, max_retries: nat)
    requires
        outcomes.len() >= 2,
        max_retries >= 1,
        !outcomes[0],
        outcomes[1],
    ensures
        run_from(outcomes, max_retries, 0) == (RetryRun { attempts: 2, answered: true }),
{
    assert(decision_after(1, max_retries) == (RetryDecision::RetryAfter { delay_secs: backoff_delay(0) }));
    assert(run_from(outcomes, max_retries, 1) == (RetryRun { attempts: 2, answered: true }));
}

} // verus!
