//! The retry/backoff policy for a flaky source.
//!
//! A source whose failures may be transient is given up to three
//! attempts. Only a transport-level failure is retried, after a sleep of
//! two seconds times the attempt number (attempts are numbered from
//! one); a non-2xx status or a success ends the attempts at once. When
//! all attempts are spent the last error is surfaced. The caller runs
//! the attempts — it performs the request and the sleep — and consults
//! [`retry_decision`] after each one; [`replay_attempts`] is the same
//! policy applied to a pre-recorded sequence of outcomes, which pins the
//! policy down end to end.

use vstd::prelude::*;

use crate::errors::FetchFailure;
use crate::errors::spec_transient;

verus! {

/// How many attempts the policy allows.
pub const MAX_ATTEMPTS: u64 = 3;

/// Seconds to sleep before the attempt after `attempt`.
pub fn backoff_secs(attempt: u64) -> (r: u64)
    requires
        1 <= attempt <= MAX_ATTEMPTS,
    ensures
        r == 2 * attempt,
{
    2 * attempt
}

/// What one attempt at the source came back with.
pub enum AttemptOutcome {
    /// The records the source delivered, still raw.
    Delivered(Vec<String>),
    /// The attempt failed; the failure decides whether to retry.
    Failed(FetchFailure),
}

/// Whether an attempt outcome is worth retrying: only a transient
/// (transport-level) failure is.
pub open spec fn spec_retryable(o: AttemptOutcome) -> bool {
    match o {
        AttemptOutcome::Delivered(_) => false,
        AttemptOutcome::Failed(f) => spec_transient(f),
    }
}

/// Executable retryability test, agreeing with [`spec_retryable`].
pub fn is_retryable(o: &AttemptOutcome) -> (r: bool)
    ensures
        r == spec_retryable(*o),
{
    match o {
        AttemptOutcome::Delivered(_) => false,
        AttemptOutcome::Failed(f) => crate::errors::is_transient(f),
    }
}

/// What to do after one attempt.
#[derive(Clone, Copy, Debug, PartialEq, Eq, Structural)]
pub enum RetryDecision {
    /// The outcome stands, success or terminal failure alike.
    Accept,
    /// Sleep this many seconds, then attempt again.
    RetryAfter(u64),
    /// The attempts are spent: surface the last error.
    GiveUp,
}

/// The policy for one attempt: accept anything non-transient at once,
/// retry a transient failure with linearly growing backoff, and give up
/// after the last allowed attempt.
pub fn retry_decision(attempt: u64, outcome: &AttemptOutcome) -> (r: RetryDecision)
    requires
        1 <= attempt <= MAX_ATTEMPTS,
    ensures
        !spec_retryable(*outcome) ==> r == RetryDecision::Accept,
        spec_retryable(*outcome) && attempt < MAX_ATTEMPTS ==> r == RetryDecision::RetryAfter(
            (2 * attempt) as u64,
        ),
        spec_retryable(*outcome) && attempt == MAX_ATTEMPTS ==> r == RetryDecision::GiveUp,
{
    if !is_retryable(outcome) {
        RetryDecision::Accept
    } else if attempt < MAX_ATTEMPTS {
        RetryDecision::RetryAfter(backoff_secs(attempt))
    } else {
        RetryDecision::GiveUp
    }
}

/// How many attempts the policy makes on this outcome sequence: it stops
/// at the first outcome that is not a transient failure, and never goes
/// past the third.
pub open spec fn spec_attempts_used(outcomes: Seq<AttemptOutcome>) -> int {
    if !spec_retryable(outcomes[0]) {
        1
    } else if !spec_retryable(outcomes[1]) {
        2
    } else {
        3
    }
}

/// Run the retry policy against a pre-recorded outcome per attempt:
/// exactly [`spec_attempts_used`] attempts are consumed, and the outcome
/// of the last attempt made — the first non-transient one, or the third
/// — is returned together with that count.
pub fn replay_attempts(outcomes: Vec<AttemptOutcome>) -> (r: (u64, AttemptOutcome))
    requires
        outcomes@.len() == MAX_ATTEMPTS,
    ensures
        r.0 == spec_attempts_used(outcomes@),
        r.1 == outcomes@[spec_attempts_used(outcomes@) - 1],
        forall|j: int| 0 <= j < spec_attempts_used(outcomes@) - 1 ==> spec_retryable(outcomes@[j]),
{
    let mut outcomes = outcomes;
    if !is_retryable(&outcomes[0]) {
        return (1, outcomes.remove(0));
    }
    if !is_retryable(&outcomes[1]) {
        return (2, outcomes.remove(1));
    }
    (3, outcomes.remove(2))
}

/// Two transient failures followed by a delivery: all three attempts are
/// made, and the third outcome — the delivery — is what comes back.
pub proof fn lemma_retry_third_attempt_returned(outcomes: Seq<AttemptOutcome>)
    requires
        outcomes.len() == MAX_ATTEMPTS,
        spec_retryable(outcomes[0]),
        spec_retryable(outcomes[1]),
        !spec_retryable(outcomes[2]),
    ensures
        spec_attempts_used(outcomes) == 3,
        outcomes[spec_attempts_used(outcomes) - 1] == outcomes[2],
{
}

/// A source that fails every time: all three attempts are made, and the
/// failure surfaced is the last attempt's own.
pub proof fn lemma_retry_exhaustion_surfaces_last_error(outcomes: Seq<AttemptOutcome>)
    requires
        outcomes.len() == MAX_ATTEMPTS,
        forall|j: int| 0 <= j < outcomes.len() ==> spec_retryable(#[trigger] outcomes[j]),
    ensures
        spec_attempts_used(outcomes) == 3,
        outcomes[spec_attempts_used(outcomes) - 1] == outcomes[2],
{
}

} // verus!
