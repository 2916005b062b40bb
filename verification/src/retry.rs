//! The retrieval engine's decision core: failure classification and the
//! retry schedule.
//!
//! The engine performs one HTTP operation with bounded exponential-backoff
//! retries. The network attempt itself is the embedding application's part;
//! everything it must decide — whether an attempt's outcome is transient or
//! permanent, which error it maps to, how long to wait next, and when the
//! retry budget is spent — is computed here, attempt by attempt.

use crate::text;
use crate::types::DaedraError;
use vstd::prelude::*;

verus! {

/// Per-attempt network timeout, in milliseconds.
pub const REQUEST_TIMEOUT_MS: u64 = 30000;

/// Total retry budget, in milliseconds.
pub const MAX_ELAPSED_MS: u64 = 60000;

/// Largest response body accepted, in bytes.
pub const MAX_CONTENT_SIZE: u64 = 10 * 1024 * 1024;

/// First backoff interval, in milliseconds.
pub const INITIAL_INTERVAL_MS: u64 = 500;

/// Largest backoff interval, in milliseconds.
pub const MAX_INTERVAL_MS: u64 = 60000;

/// What one HTTP attempt produced, as plain values.
#[derive(Debug)]
pub enum AttemptOutcome {
    /// The request could not be sent: connection, DNS or timeout failure.
    TransportError(String),
    /// A response arrived with this status and, when the server named one,
    /// this content length; the body has not been read yet.
    StatusReceived {
        /// The HTTP status code.
        status: u16,
        /// The Content-Length header's value, if present.
        content_length: Option<u64>,
    },
    /// Reading the response body failed.
    BodyFailed(String),
    /// The response body, read in full.
    BodyOk(String),
}

/// What the engine does with an attempt's outcome.
#[derive(Debug)]
pub enum AttemptStep {
    /// The attempt succeeded: hand this body to the pipeline.
    Deliver(String),
    /// The status admits the response: read the body next.
    ReadBody,
    /// Transient failure: wait, then try again; give up with this error
    /// once the budget is spent.
    Retry(DaedraError),
    /// Permanent failure: stop at once with this error.
    Fail(DaedraError),
}

/// The HTTP status codes the upstream counts as success.
pub open spec fn is_success_status(status: u16) -> bool {
    200 <= status <= 299
}

/// The error text carried by a non-success status.
pub open spec fn spec_http_error_text(status: u16) -> Seq<char> {
    "HTTP "@ + text::dec_of(status as int)
}

/// Classify one search attempt: transport failures and HTTP 429 are
/// transient; HTTP 403 is read as bot protection and never retried; any
/// other non-success status fails the search permanently, carrying the
/// status; body failures are permanent; a body is delivered.
pub fn classify_search_attempt(outcome: AttemptOutcome) -> (r: AttemptStep)
    ensures
        match outcome {
            AttemptOutcome::TransportError(m) => r == AttemptStep::Retry(DaedraError::HttpError(m)),
            AttemptOutcome::StatusReceived { status, content_length } => if is_success_status(
                status,
            ) {
                r == AttemptStep::ReadBody
            } else if status == 429 {
                r == AttemptStep::Retry(DaedraError::RateLimitExceeded)
            } else if status == 403 {
                r == AttemptStep::Fail(DaedraError::BotProtectionDetected)
            } else {
                r matches AttemptStep::Fail(DaedraError::SearchError(m)) && m@
                    == spec_http_error_text(status)
            },
            AttemptOutcome::BodyFailed(m) => r == AttemptStep::Fail(DaedraError::HttpError(m)),
            AttemptOutcome::BodyOk(b) => r == AttemptStep::Deliver(b),
        },
{
    match outcome {
        AttemptOutcome::TransportError(m) => AttemptStep::Retry(DaedraError::HttpError(m)),
        AttemptOutcome::StatusReceived { status, content_length: _ } => {
            if 200 <= status && status <= 299 {
                AttemptStep::ReadBody
            } else if status == 429 {
                AttemptStep::Retry(DaedraError::RateLimitExceeded)
            } else if status == 403 {
                AttemptStep::Fail(DaedraError::BotProtectionDetected)
            } else {
                AttemptStep::Fail(
                    DaedraError::SearchError(
                        String::from_str("HTTP ").concat(
                            text::u64_to_dec(status as u64).as_str(),
                        ),
                    ),
                )
            }
        },
        AttemptOutcome::BodyFailed(m) => AttemptStep::Fail(DaedraError::HttpError(m)),
        AttemptOutcome::BodyOk(b) => AttemptStep::Deliver(b),
    }
}

/// Classify one page-fetch attempt. As for search, but HTTP 403 is read as
/// bot protection and never retried, and a declared body size over the
/// ceiling fails before the body is read.
pub fn classify_fetch_attempt(outcome: AttemptOutcome) -> (r: AttemptStep)
    ensures
        match outcome {
            AttemptOutcome::TransportError(m) => r == AttemptStep::Retry(DaedraError::HttpError(m)),
            AttemptOutcome::StatusReceived { status, content_length } => if !is_success_status(
                status,
            ) {
                if status == 429 {
                    r == AttemptStep::Retry(DaedraError::RateLimitExceeded)
                } else if status == 403 {
                    r == AttemptStep::Fail(DaedraError::BotProtectionDetected)
                } else {
                    r matches AttemptStep::Fail(DaedraError::FetchError(m)) && m@
                        == spec_http_error_text(status)
                }
            } else if content_length matches Some(n) && n > MAX_CONTENT_SIZE {
                r matches AttemptStep::Fail(DaedraError::FetchError(m)) && m@
                    == "Content too large"@
            } else {
                r == AttemptStep::ReadBody
            },
            AttemptOutcome::BodyFailed(m) => r == AttemptStep::Fail(DaedraError::HttpError(m)),
            AttemptOutcome::BodyOk(b) => r == AttemptStep::Deliver(b),
        },
{
    match outcome {
        AttemptOutcome::TransportError(m) => AttemptStep::Retry(DaedraError::HttpError(m)),
        AttemptOutcome::StatusReceived { status, content_length } => {
            if !(200 <= status && status <= 299) {
                if status == 429 {
                    AttemptStep::Retry(DaedraError::RateLimitExceeded)
                } else if status == 403 {
                    AttemptStep::Fail(DaedraError::BotProtectionDetected)
                } else {
                    AttemptStep::Fail(
                        DaedraError::FetchError(
                            String::from_str("HTTP ").concat(
                                text::u64_to_dec(status as u64).as_str(),
                            ),
                        ),
                    )
                }
            } else {
                match content_length {
                    Some(n) if n > MAX_CONTENT_SIZE => AttemptStep::Fail(
                        DaedraError::FetchError(String::from_str("Content too large")),
                    ),
                    _ => AttemptStep::ReadBody,
                }
            }
        },
        AttemptOutcome::BodyFailed(m) => AttemptStep::Fail(DaedraError::HttpError(m)),
        AttemptOutcome::BodyOk(b) => AttemptStep::Deliver(b),
    }
}

/// The retry schedule's fixed parameters.
#[derive(Debug, Clone, Copy)]
pub struct BackoffPolicy {
    /// First wait, in milliseconds.
    pub initial_interval_ms: u64,
    /// Cap on any single wait, in milliseconds.
    pub max_interval_ms: u64,
    /// Total budget: once this much time was spent waiting, give up.
    pub max_elapsed_ms: u64,
}

impl Default for BackoffPolicy {
    /// Half a second to start, waits capped at a minute, a minute in all.
    fn default() -> (r: BackoffPolicy)
        ensures
            r.initial_interval_ms == INITIAL_INTERVAL_MS,
            r.max_interval_ms == MAX_INTERVAL_MS,
            r.max_elapsed_ms == MAX_ELAPSED_MS,
    {
        BackoffPolicy {
            initial_interval_ms: INITIAL_INTERVAL_MS,
            max_interval_ms: MAX_INTERVAL_MS,
            max_elapsed_ms: MAX_ELAPSED_MS,
        }
    }
}

/// Where the schedule stands after some attempts.
#[derive(Debug, Clone, Copy)]
pub struct BackoffState {
    /// The next wait, in milliseconds.
    pub interval_ms: u64,
    /// Waiting time spent so far, in milliseconds.
    pub elapsed_ms: u64,
}

impl BackoffState {
    /// The schedule's starting state under a policy.
    pub fn start(policy: &BackoffPolicy) -> (r: BackoffState)
        ensures
            r.interval_ms == policy.initial_interval_ms,
            r.elapsed_ms == 0,
    {
        BackoffState { interval_ms: policy.initial_interval_ms, elapsed_ms: 0 }
    }
}

/// What the schedule says to do next.
pub enum BackoffStep {
    /// Wait this many milliseconds, then try again.
    Wait(u64),
    /// The budget is spent: surface the last error.
    GiveUp,
}

/// The next interval: half again as long, capped.
pub open spec fn spec_grow_interval(interval: u64, cap: u64) -> u64 {
    if interval <= 0xffff_ffff {
        if interval * 3 / 2 <= cap {
            (interval * 3 / 2) as u64
        } else {
            cap
        }
    } else if interval <= cap {
        interval
    } else {
        cap
    }
}

/// Advance the schedule one step: within the budget, order the current
/// wait and grow the interval by half, capped; beyond it, give up.
pub fn backoff_next(policy: &BackoffPolicy, state: BackoffState) -> (r: (BackoffState, BackoffStep))
    ensures
        state.elapsed_ms >= policy.max_elapsed_ms ==> r.1 == BackoffStep::GiveUp && r.0 == state,
        state.elapsed_ms < policy.max_elapsed_ms ==> {
            &&& r.1 == BackoffStep::Wait(state.interval_ms)
            &&& r.0.interval_ms == spec_grow_interval(state.interval_ms, policy.max_interval_ms)
            &&& r.0.elapsed_ms == if state.elapsed_ms + state.interval_ms <= u64::MAX {
                state.elapsed_ms + state.interval_ms
            } else {
                u64::MAX as int
            }
        },
{
    if state.elapsed_ms >= policy.max_elapsed_ms {
        return (state, BackoffStep::GiveUp);
    }
    let grown: u64 = if state.interval_ms <= 0xffff_ffff {
        let g = state.interval_ms * 3 / 2;
        if g <= policy.max_interval_ms {
            g
        } else {
            policy.max_interval_ms
        }
    } else if state.interval_ms <= policy.max_interval_ms {
        state.interval_ms
    } else {
        policy.max_interval_ms
    };
    let elapsed: u64 = if state.elapsed_ms <= u64::MAX - state.interval_ms {
        state.elapsed_ms + state.interval_ms
    } else {
        u64::MAX
    };
    (
        BackoffState { interval_ms: grown, elapsed_ms: elapsed },
        BackoffStep::Wait(state.interval_ms),
    )
}

} // verus!
