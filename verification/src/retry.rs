//! Retry decisions for YouTube API operations: which failures are retried,
//! and when a run of attempts stops.
//!
//! The sleeping between attempts (jittered exponential backoff, in seconds)
//! is left to the caller; this module decides what happens after each attempt.

use vstd::prelude::*;

verus! {

/// Default maximum retries after the initial attempt.
pub const DEFAULT_MAX_RETRIES: u32 = 10;

/// Default base delay in milliseconds for the exponential backoff.
pub const DEFAULT_BASE_DELAY_MS: u64 = 1000;

/// The HTTP status codes that trigger a retry.
pub open spec fn retriable_status_codes() -> Seq<u16> {
    seq![500u16, 502u16, 503u16, 504u16]
}

/// Whether an HTTP status code is retriable: one of the server errors
/// 500, 502, 503 and 504.
pub open spec fn retriable_status(status: u16) -> bool {
    retriable_status_codes().contains(status)
}

/// Check if an HTTP status code is retriable.
pub fn is_retriable_status(status: u16) -> (r: bool)
    ensures
        r == retriable_status(status),
{
    let r = status == 500 || status == 502 || status == 503 || status == 504;
    proof {
        let codes = retriable_status_codes();
        if r {
            if status == 500 {
                assert(codes[0] == status);
            } else if status == 502 {
                assert(codes[1] == status);
            } else if status == 503 {
                assert(codes[2] == status);
            } else {
                assert(codes[3] == status);
            }
        } else {
            assert forall|i: int| 0 <= i < codes.len() implies codes[i] != status by {}
        }
    }
    r
}

/// What is known of a failed operation.
#[derive(Debug, Clone, Copy, PartialEq, Eq)]
pub enum FailureKind {
    /// An HTTP client error: the response status, if one came back, and
    /// whether the connection failed or timed out.
    Http { status: Option<u16>, connect: bool, timeout: bool },
    /// An I/O error.
    Io,
    /// Anything else.
    Other,
}

/// Whether a failure is worth retrying: an HTTP error by its status when it
/// has one, else when the connection failed or timed out; any I/O error;
/// nothing else.
pub open spec fn retriable_failure(kind: FailureKind) -> bool {
    match kind {
        FailureKind::Http { status, connect, timeout } => match status {
            Some(s) => retriable_status(s),
            None => connect || timeout,
        },
        FailureKind::Io => true,
        FailureKind::Other => false,
    }
}

/// Check if a failure is retriable based on its kind.
pub fn is_retriable_failure(kind: FailureKind) -> (r: bool)
    ensures
        r == retriable_failure(kind),
{
    match kind {
        FailureKind::Http { status, connect, timeout } => match status {
            Some(s) => is_retriable_status(s),
            None => connect || timeout,
        },
        FailureKind::Io => true,
        FailureKind::Other => false,
    }
}

/// The outcome of one attempt of an operation.
#[derive(Debug, Clone, Copy, PartialEq, Eq)]
pub enum AttemptOutcome {
    Succeeded,
    Failed { retriable: bool },
}

/// What to do after an attempt.
#[derive(Debug, Clone, Copy, PartialEq, Eq)]
pub enum RetryStep {
    /// The operation succeeded: return its result.
    Done,
    /// The operation failed for good: return its last error.
    GiveUp,
    /// Sleep, then make attempt `next_attempt` (0-based); the backoff grows
    /// with `next_attempt`.
    Retry { next_attempt: u32 },
}

/// The step after attempt `attempt` (0-based) of at most `max_retries + 1`:
/// a success ends the run; a failure ends it at the last attempt or when it
/// is not retriable; otherwise the next attempt follows.
pub open spec fn next_step(attempt: u32, max_retries: u32, outcome: AttemptOutcome) -> RetryStep {
    match outcome {
        AttemptOutcome::Succeeded => RetryStep::Done,
        AttemptOutcome::Failed { retriable } => {
            if attempt >= max_retries || !retriable {
                RetryStep::GiveUp
            } else {
                RetryStep::Retry { next_attempt: (attempt + 1) as u32 }
            }
        },
    }
}

/// Decide what follows attempt `attempt` of an operation allowed
/// `max_retries` retries after its first attempt.
pub fn retry_step(attempt: u32, max_retries: u32, outcome: AttemptOutcome) -> (r: RetryStep)
    requires
        attempt <= max_retries,
    ensures
        r == next_step(attempt, max_retries, outcome),
{
    match outcome {
        AttemptOutcome::Succeeded => RetryStep::Done,
        AttemptOutcome::Failed { retriable } => {
            if attempt == max_retries || !retriable {
                RetryStep::GiveUp
            } else {
                RetryStep::Retry { next_attempt: attempt + 1 }
            }
        },
    }
}

/// How many attempts a run makes, starting at attempt `attempt`, when the
/// attempts turn out as `outcomes` (as many as are given).
pub open spec fn attempts_made(attempt: u32, max_retries: u32, outcomes: Seq<AttemptOutcome>) -> nat
    decreases outcomes.len(),
{
    if outcomes.len() == 0 {
        0
    } else {
        match next_step(attempt, max_retries, outcomes[0]) {
            RetryStep::Retry { next_attempt } => 1 + attempts_made(next_attempt, max_retries, outcomes.drop_first()),
            _ => 1,
        }
    }
}

/// Whether a run starting at attempt `attempt` ends in success.
pub open spec fn run_succeeds(attempt: u32, max_retries: u32, outcomes: Seq<AttemptOutcome>) -> bool
    decreases outcomes.len(),
{
    if outcomes.len() == 0 {
        false
    } else {
        match next_step(attempt, max_retries, outcomes[0]) {
            RetryStep::Done => true,
            RetryStep::GiveUp => false,
            RetryStep::Retry { next_attempt } => run_succeeds(next_attempt, max_retries, outcomes.drop_first()),
        }
    }
}

/// The operation runs at most `max_retries + 1` times in all, counting from
/// the first attempt.
pub proof fn lemma_attempts_bounded(attempt: u32, max_retries: u32, outcomes: Seq<AttemptOutcome>)
    requires
        attempt <= max_retries,
    ensures
        attempts_made(attempt, max_retries, outcomes) <= max_retries + 1 - attempt,
    decreases outcomes.len(),
{
    if outcomes.len() > 0 {
        match next_step(attempt, max_retries, outcomes[0]) {
            RetryStep::Retry { next_attempt } => {
                lemma_attempts_bounded(next_attempt, max_retries, outcomes.drop_first());
            },
            _ => {},
        }
    }
}

/// A first attempt that succeeds ends the run after one attempt, in success;
/// a failure that is not retriable ends it after one attempt, in failure.
pub proof fn lemma_run_stops(attempt: u32, max_retries: u32, outcomes: Seq<AttemptOutcome>)
    requires
        outcomes.len() > 0,
        outcomes[0] == AttemptOutcome::Succeeded || outcomes[0] == (AttemptOutcome::Failed { retriable: false }),
    ensures
        attempts_made(attempt, max_retries, outcomes) == 1,
        run_succeeds(attempt, max_retries, outcomes) <==> outcomes[0] == AttemptOutcome::Succeeded,
{
}

/// A run in which every attempt fails retriably makes exactly
/// `max_retries + 1` attempts from the first, and fails.
pub proof fn lemma_persistent_failure(attempt: u32, max_retries: u32, outcomes: Seq<AttemptOutcome>)
    requires
        attempt <= max_retries,
        outcomes.len() >= max_retries + 1 - attempt,
        forall|i: int| 0 <= i < outcomes.len() ==> outcomes[i] == (AttemptOutcome::Failed { retriable: true }),
    ensures
        attempts_made(attempt, max_retries, outcomes) == max_retries + 1 - attempt,
        !run_succeeds(attempt, max_retries, outcomes),
    decreases outcomes.len(),
{
    if attempt < max_retries {
        let rest = outcomes.drop_first();
        assert forall|i: int| 0 <= i < rest.len() implies rest[i] == (AttemptOutcome::Failed { retriable: true }) by {
            assert(rest[i] == outcomes[i + 1]);
        }
        lemma_persistent_failure((attempt + 1) as u32, max_retries, rest);
    }
}

} // verus!
