//! Decisions of the OAuth device-authorization poll: when to ask for a token,
//! how long to wait between requests, and when the flow has expired.

use vstd::prelude::*;

use crate::error::Error;
use crate::model::{AwsCreateToken, AwsStartDeviceAuthorization, CacheEntry};
use crate::text::{contains, seq_contains};
use crate::timestamps::{format_rfc3339, rfc3339_of};

verus! {

/// `a + b`, saturated at `u64::MAX`.
pub open spec fn add_saturating(a: u64, b: u64) -> u64 {
    if a + b <= u64::MAX {
        (a + b) as u64
    } else {
        u64::MAX
    }
}

/// The poll's fixed parameters, from the device authorization.
#[derive(Debug, Clone, Copy, PartialEq, Eq, Structural)]
pub struct PollState {
    /// Unix seconds after which no token request is made.
    pub deadline: u64,
    /// Seconds to wait after a pending answer; at least one.
    pub wait_secs: u64,
}

/// The next step of the poll.
#[derive(Debug, Clone)]
pub enum PollAction {
    /// Send a token request.
    RequestToken,
    /// Wait this many seconds, then check the deadline again.
    Sleep(u64),
    /// The token was issued; persist this entry and return it.
    Finish(CacheEntry),
    /// Stop with this error.
    Fail(Error),
}

/// The wait between two token requests: the server's interval, at least one
/// second.
pub open spec fn wait_of(interval: u64) -> u64 {
    if interval >= 1 {
        interval
    } else {
        1
    }
}

/// Start the poll at `now` (Unix seconds) for a device authorization.
pub fn start_poll(auth: &AwsStartDeviceAuthorization, now: u64) -> (r: PollState)
    ensures
        r.deadline == add_saturating(now, auth.expires_in),
        r.wait_secs == wait_of(auth.interval),
{
    let deadline = if auth.expires_in <= u64::MAX - now {
        now + auth.expires_in
    } else {
        u64::MAX
    };
    let wait_secs = if auth.interval >= 1 {
        auth.interval
    } else {
        1
    };
    PollState { deadline, wait_secs }
}

/// Before each request: expired once `now` is past the deadline.
pub open spec fn may_request(state: PollState, now: u64) -> bool {
    now <= state.deadline
}

pub fn before_request(state: &PollState, now: u64) -> (r: PollAction)
    ensures
        may_request(*state, now) ==> r is RequestToken,
        !may_request(*state, now) ==> r matches PollAction::Fail(Error::ExpiredCache),
{
    if now > state.deadline {
        PollAction::Fail(Error::ExpiredCache)
    } else {
        PollAction::RequestToken
    }
}

/// Provider errors that mean "not yet": the operator has not approved, or the
/// client polls too fast.
pub open spec fn pending_text(message: Seq<char>) -> bool {
    seq_contains(message, "AuthorizationPendingException"@) || seq_contains(
        message,
        "SlowDownException"@,
    )
}

pub open spec fn pending_error(e: Error) -> bool {
    e matches Error::AwsSdk(m) && pending_text(m@)
}

pub fn is_pending_auth(error: &Error) -> (r: bool)
    ensures
        r == pending_error(*error),
{
    match error {
        Error::AwsSdk(message) => {
            contains(message.as_str(), "AuthorizationPendingException") || contains(
                message.as_str(),
                "SlowDownException",
            )
        },
        _ => false,
    }
}

/// The expiry text of a token issued at `now` for `expires_in` seconds; empty
/// where the instant cannot be formatted.
pub open spec fn token_expiry_text(now: u64, expires_in: u64) -> Seq<char> {
    let at = add_saturating(now, expires_in);
    if at <= i64::MAX {
        match rfc3339_of(at as int) {
            Some(t) => t,
            None => Seq::empty(),
        }
    } else {
        Seq::empty()
    }
}

/// The cache entry for a token issued at `now`.
pub fn issued_entry(token: AwsCreateToken, region: &str, now: u64) -> (r: CacheEntry)
    ensures
        r.access_token@ == token.access_token@,
        r.region@ == region@,
        r.expires_at@ == token_expiry_text(now, token.expires_in),
{
    let at = if token.expires_in <= u64::MAX - now {
        now + token.expires_in
    } else {
        u64::MAX
    };
    let expires_at = if at <= i64::MAX as u64 {
        match format_rfc3339(at as i64) {
            Some(t) => t,
            None => String::new(),
        }
    } else {
        String::new()
    };
    CacheEntry { access_token: token.access_token, expires_at, region: String::from_str(region) }
}

/// After an answer to a token request: finish on a token, wait on a pending
/// answer, and fail at once on any other error.
pub fn after_response(
    state: &PollState,
    response: Result<AwsCreateToken, Error>,
    region: &str,
    now: u64,
) -> (r: PollAction)
    ensures
        match response {
            Ok(token) => r matches PollAction::Finish(e) && e.access_token@ == token.access_token@
                && e.region@ == region@ && e.expires_at@ == token_expiry_text(now, token.expires_in),
            Err(err) => if pending_error(err) {
                r == PollAction::Sleep(state.wait_secs)
            } else {
                r matches PollAction::Fail(e) && e == err
            },
        },
{
    match response {
        Ok(token) => PollAction::Finish(issued_entry(token, region, now)),
        Err(err) => {
            if is_pending_auth(&err) {
                PollAction::Sleep(state.wait_secs)
            } else {
                PollAction::Fail(err)
            }
        },
    }
}

/// Once the deadline has passed the poll only ends in `ExpiredCache`: no
/// request is made at that instant or at any later one.
pub proof fn lemma_deadline_final(state: PollState, now: u64, later: u64)
    requires
        now > state.deadline,
        later >= now,
    ensures
        !may_request(state, now),
        !may_request(state, later),
{
}

/// The poll never waits less than the server's interval, nor less than a
/// second, and never runs past the server's window.
pub proof fn lemma_poll_pacing(auth: AwsStartDeviceAuthorization, now: u64, state: PollState, t: u64)
    requires
        state.deadline == add_saturating(now, auth.expires_in),
        state.wait_secs == wait_of(auth.interval),
        may_request(state, t),
    ensures
        state.wait_secs >= auth.interval,
        state.wait_secs >= 1,
        t <= now + auth.expires_in,
{
}

/// Request times of a poll: each within the window, each at least the wait
/// after the one before.
pub open spec fn paced_requests(state: PollState, start: u64, times: Seq<int>) -> bool {
    &&& forall|i: int| 0 <= i < times.len() ==> start <= #[trigger] times[i] <= state.deadline
    &&& forall|i: int| 0 < i < times.len() ==> #[trigger] times[i] >= times[i - 1] + state.wait_secs
}

proof fn lemma_paced_spread(state: PollState, start: u64, times: Seq<int>, i: int)
    requires
        paced_requests(state, start, times),
        0 <= i < times.len(),
    ensures
        times[i] >= start + i * state.wait_secs,
    decreases i,
{
    if i > 0 {
        lemma_paced_spread(state, start, times, i - 1);
        assert(times[i] >= times[i - 1] + state.wait_secs);
        assert(start + i * state.wait_secs == start + (i - 1) * state.wait_secs + state.wait_secs) by (nonlinear_arith);
    }
}

/// A poll started at `start` that only requests while the deadline has not
/// passed, and waits between requests, makes at most
/// `(deadline - start) / wait + 1` token requests.
pub proof fn lemma_request_count(state: PollState, start: u64, times: Seq<int>)
    requires
        state.wait_secs >= 1,
        start <= state.deadline,
        paced_requests(state, start, times),
    ensures
        times.len() <= (state.deadline - start) / (state.wait_secs as int) + 1,
{
    if times.len() > 0 {
        let n = times.len() - 1;
        lemma_paced_spread(state, start, times, n);
        let w = state.wait_secs as int;
        let d = state.deadline - start;
        assert(n * w <= d);
        assert(n <= d / w) by {
            vstd::arithmetic::div_mod::lemma_div_is_ordered(n * w, d, w);
            vstd::arithmetic::div_mod::lemma_div_multiples_vanish(n, w);
        }
    }
}

} // verus!
