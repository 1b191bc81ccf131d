//! Decisions of the retry wrapper around remote calls: which failures are
//! throttling, how long to back off, and when to give up.

use vstd::prelude::*;

use crate::text::{contains, seq_contains};

verus! {

/// Attempts made by default before a throttled call fails.
pub const DEFAULT_MAX_ATTEMPTS: u32 = 5;

/// The first backoff delay, in milliseconds.
pub const BASE_BACKOFF_MS: u64 = 500;

/// Error codes the provider uses for throttling.
pub open spec fn throttle_code(code: Seq<char>) -> bool {
    code == "TooManyRequestsException"@ || code == "ThrottlingException"@ || code == "Throttling"@
}

/// Phrases of throttling messages, for errors that carry no code.
pub open spec fn throttle_message(message: Seq<char>) -> bool {
    seq_contains(message, "TooManyRequests"@) || seq_contains(message, "TooManyRequestsException"@)
        || seq_contains(message, "Throttling"@) || seq_contains(message, "Rate exceeded"@)
}

/// Throttling by the error code where there is one, else by the message.
pub open spec fn is_throttle(code: Option<&str>, message: Seq<char>) -> bool {
    match code {
        Some(c) => throttle_code(c@),
        None => throttle_message(message),
    }
}

/// Whether a failure is throttling: a known code, or, for an error without a
/// code, a known phrase in the message.
pub fn is_throttle_error(code: Option<&str>, message: &str) -> (r: bool)
    ensures
        r == is_throttle(code, message@),
{
    match code {
        Some(c) => {
            let c = String::from_str(c);
            c == String::from_str("TooManyRequestsException") || c == String::from_str(
                "ThrottlingException",
            ) || c == String::from_str("Throttling")
        },
        None => contains(message, "TooManyRequests") || contains(message, "TooManyRequestsException")
            || contains(message, "Throttling") || contains(message, "Rate exceeded"),
    }
}

/// `500 * 2^(attempt - 1)` milliseconds, unbounded.
pub open spec fn backoff_of(attempt: nat) -> nat
    decreases attempt,
{
    if attempt <= 1 {
        BASE_BACKOFF_MS as nat
    } else {
        2 * backoff_of((attempt - 1) as nat)
    }
}

/// The delay after failed attempt `attempt`, saturated at `u64::MAX`.
pub open spec fn backoff_delay(attempt: nat) -> u64 {
    if backoff_of(attempt) >= u64::MAX {
        u64::MAX
    } else {
        backoff_of(attempt) as u64
    }
}

/// The delay in milliseconds before the attempt after `attempt`.
pub fn backoff_ms(attempt: u32) -> (r: u64)
    ensures
        r == backoff_delay(attempt as nat),
{
    let mut delay: u64 = BASE_BACKOFF_MS;
    let mut k: u32 = 1;
    while k < attempt
        invariant
            1 <= k,
            k <= attempt || (attempt == 0 && k == 1),
            delay == backoff_delay(k as nat),
        decreases attempt - k,
    {
        if delay > u64::MAX / 2 {
            delay = u64::MAX;
        } else {
            delay = delay * 2;
        }
        k += 1;
    }
    assert(backoff_of(0) == backoff_of(1));
    delay
}

/// What to do after a failed attempt.
#[derive(Debug, Clone, Copy, PartialEq, Eq, Structural)]
pub enum RetryAction {
    /// Sleep this many milliseconds, then make the next attempt.
    Backoff(u64),
    /// Report the failure.
    GiveUp,
}

/// The decision after failed attempt `attempt` (counted from one).
pub open spec fn retry_decision(attempt: nat, max_attempts: nat, throttled: bool) -> RetryAction {
    if attempt < max_attempts && throttled {
        RetryAction::Backoff(backoff_delay(attempt))
    } else {
        RetryAction::GiveUp
    }
}

/// Retry throttled failures while attempts remain; give up on anything else.
pub fn retry_action(attempt: u32, max_attempts: u32, code: Option<&str>, message: &str) -> (r:
    RetryAction)
    ensures
        r == retry_decision(attempt as nat, max_attempts as nat, is_throttle(code, message@)),
{
    if attempt >= max_attempts || !is_throttle_error(code, message) {
        RetryAction::GiveUp
    } else {
        RetryAction::Backoff(backoff_ms(attempt))
    }
}

/// The diagnostic of a failed call: the error's text, then whichever of code,
/// message and request id are known, joined by ` | `.
pub open spec fn sdk_error_text(
    base: Seq<char>,
    code: Option<Seq<char>>,
    message: Option<Seq<char>>,
    request_id: Option<Seq<char>>,
) -> Seq<char> {
    let a = base;
    let b = match code {
        Some(c) => a + " | code="@ + c,
        None => a,
    };
    let c = match message {
        Some(m) => b + " | message="@ + m,
        None => b,
    };
    match request_id {
        Some(id) => c + " | request_id="@ + id,
        None => c,
    }
}

pub open spec fn opt_str(o: Option<&str>) -> Option<Seq<char>> {
    match o {
        Some(s) => Some(s@),
        None => None,
    }
}

pub fn format_sdk_error(
    base: &str,
    code: Option<&str>,
    message: Option<&str>,
    request_id: Option<&str>,
) -> (r: String)
    ensures
        r@ == sdk_error_text(base@, opt_str(code), opt_str(message), opt_str(request_id)),
{
    let mut s = String::from_str(base);
    match code {
        Some(c) => {
            s.append(" | code=");
            s.append(c);
        },
        None => {},
    }
    match message {
        Some(m) => {
            s.append(" | message=");
            s.append(m);
        },
        None => {},
    }
    match request_id {
        Some(id) => {
            s.append(" | request_id=");
            s.append(id);
        },
        None => {},
    }
    s
}

/// A call that is always throttled is retried after each of its first
/// `max_attempts - 1` attempts, with delays doubling from 500 ms, and fails
/// after attempt `max_attempts`; a failure that is not throttling fails at
/// once.
pub proof fn lemma_backoff_schedule(max_attempts: nat, attempt: nat)
    requires
        1 <= attempt,
    ensures
        attempt < max_attempts ==> retry_decision(attempt, max_attempts, true)
            == RetryAction::Backoff(backoff_delay(attempt)),
        attempt >= max_attempts ==> retry_decision(attempt, max_attempts, true)
            == RetryAction::GiveUp,
        retry_decision(attempt, max_attempts, false) == RetryAction::GiveUp,
        attempt > 1 ==> backoff_of(attempt) == 2 * backoff_of((attempt - 1) as nat),
        backoff_of(1) == 500,
{
}

/// With five attempts the delays are 500, 1000, 2000 and 4000 ms.
pub proof fn lemma_default_schedule()
    ensures
        retry_decision(1, 5, true) == RetryAction::Backoff(500),
        retry_decision(2, 5, true) == RetryAction::Backoff(1000),
        retry_decision(3, 5, true) == RetryAction::Backoff(2000),
        retry_decision(4, 5, true) == RetryAction::Backoff(4000),
        retry_decision(5, 5, true) == RetryAction::GiveUp,
        retry_decision(1, 5, false) == RetryAction::GiveUp,
{
    reveal_with_fuel(backoff_of, 4);
}

} // verus!
