//! Talking to the InnerTube API: request bodies and the policies for retries
//! and request spacing. The HTTP exchange itself belongs to the caller.
use vstd::prelude::*;
use crate::error::YoutubeError;
use crate::json::JsonValue;
use crate::text::{push_str, string_of};

pub mod channel;
pub mod protobuf;
pub mod search;
pub mod transcript;

verus! {

/// The browser identity the client presents.
pub const USER_AGENT: &'static str = "Mozilla/5.0 (Windows NT 10.0; Win64; x64) AppleWebKit/537.36 (KHTML, like Gecko) Chrome/131.0.0.0 Safari/537.36";

/// Seconds after which a request is abandoned.
pub const REQUEST_TIMEOUT_SECS: u64 = 30;

/// Minimum spacing of two requests, in nanoseconds (one request per second).
pub const MIN_REQUEST_INTERVAL_NANOS: u64 = 1_000_000_000;

/// Seconds to wait before a retry.
pub const RETRY_DELAY_SECS: u64 = 2;

/// Retries allowed after "429 Too Many Requests".
pub const MAX_RATE_LIMIT_RETRIES: u32 = 3;

/// Retries allowed after a server error.
pub const MAX_SERVER_ERROR_RETRIES: u32 = 1;

// ---------------------------------------------------------------------------
// Request bodies
// ---------------------------------------------------------------------------

/// `v` is `{"client": {"clientName": name, "clientVersion": version}}`.
pub open spec fn is_client_context(v: JsonValue, name: Seq<char>, version: Seq<char>) -> bool {
    match v {
        JsonValue::Object(m) => {
            &&& m@.len() == 1
            &&& m@[0].0@ == "client"@
            &&& match m@[0].1 {
                JsonValue::Object(c) => {
                    &&& c@.len() == 2
                    &&& c@[0].0@ == "clientName"@
                    &&& c@[0].1.str_value() == Some(name)
                    &&& c@[1].0@ == "clientVersion"@
                    &&& c@[1].1.str_value() == Some(version)
                },
                _ => false,
            }
        },
        _ => false,
    }
}

/// The web client context.
pub open spec fn is_web_context(v: JsonValue) -> bool {
    is_client_context(v, "WEB"@, "2.20240101.00.00"@)
}

/// `{"client": {"clientName": name, "clientVersion": version}}`.
pub fn client_context(name: &str, version: &str) -> (r: JsonValue)
    ensures
        is_client_context(r, name@, version@),
{
    let mut client: Vec<(String, JsonValue)> = Vec::new();
    client.push((string_of("clientName"), JsonValue::Str(string_of(name))));
    client.push((string_of("clientVersion"), JsonValue::Str(string_of(version))));
    let mut ctx: Vec<(String, JsonValue)> = Vec::new();
    ctx.push((string_of("client"), JsonValue::Object(client)));
    JsonValue::Object(ctx)
}

/// The context of the web client, sent with search and browse requests.
pub fn web_context() -> (r: JsonValue)
    ensures
        is_web_context(r),
{
    client_context("WEB", "2.20240101.00.00")
}

// ---------------------------------------------------------------------------
// Retry policy
// ---------------------------------------------------------------------------

/// Retries made so far for one request.
#[derive(Debug)]
pub struct RetryState {
    pub rate_limit_retries: u32,
    pub server_error_retries: u32,
}

/// What to do with the response to an attempt.
#[derive(Debug)]
pub enum RetryAction {
    /// The response succeeded; read its body.
    Success,
    /// Wait this many seconds, then send the request again.
    RetryAfter(u64),
    /// Give up with this error.
    Fail(YoutubeError),
}

pub open spec fn is_success_status(code: u16) -> bool {
    200 <= code <= 299
}

pub open spec fn is_server_error_status(code: u16) -> bool {
    500 <= code <= 599
}

impl RetryState {
    /// The counters stay within the number of retries allowed.
    pub open spec fn wf(self) -> bool {
        self.rate_limit_retries <= MAX_RATE_LIMIT_RETRIES
            && self.server_error_retries <= MAX_SERVER_ERROR_RETRIES
    }

    /// Retries made so far.
    pub open spec fn retries(self) -> nat {
        (self.rate_limit_retries + self.server_error_retries) as nat
    }

    /// No retry made yet.
    pub fn new() -> (r: RetryState)
        ensures
            r.rate_limit_retries == 0,
            r.server_error_retries == 0,
            r.wf(),
    {
        RetryState { rate_limit_retries: 0, server_error_retries: 0 }
    }

    /// Decides what follows a response with status `code`, whose display form
    /// (code and reason) is `status_text`: success is read; "429" is retried
    /// up to three times and a server error once, each after two seconds;
    /// anything else fails.
    pub fn on_status(&mut self, code: u16, status_text: &str) -> (r: RetryAction)
        requires
            old(self).wf(),
        ensures
            final(self).wf(),
            is_success_status(code) ==> r is Success && *final(self) == *old(self),
            !is_success_status(code) && code == 429 && old(self).rate_limit_retries < MAX_RATE_LIMIT_RETRIES
                ==> r == RetryAction::RetryAfter(RETRY_DELAY_SECS)
                && final(self).rate_limit_retries == old(self).rate_limit_retries + 1
                && final(self).server_error_retries == old(self).server_error_retries,
            !is_success_status(code) && !(code == 429 && old(self).rate_limit_retries < MAX_RATE_LIMIT_RETRIES)
                && is_server_error_status(code) && old(self).server_error_retries < MAX_SERVER_ERROR_RETRIES
                ==> r == RetryAction::RetryAfter(RETRY_DELAY_SECS)
                && final(self).server_error_retries == old(self).server_error_retries + 1
                && final(self).rate_limit_retries == old(self).rate_limit_retries,
            !is_success_status(code) && !(code == 429 && old(self).rate_limit_retries < MAX_RATE_LIMIT_RETRIES)
                && !(is_server_error_status(code) && old(self).server_error_retries < MAX_SERVER_ERROR_RETRIES)
                ==> *final(self) == *old(self) && match r {
                    RetryAction::Fail(YoutubeError::RateLimited) => code == 429,
                    RetryAction::Fail(YoutubeError::Api(m)) => code != 429 && m@ == "YouTube returned status "@ + status_text@,
                    _ => false,
                },
    {
        if 200 <= code && code <= 299 {
            return RetryAction::Success;
        }
        if code == 429 && self.rate_limit_retries < MAX_RATE_LIMIT_RETRIES {
            self.rate_limit_retries = self.rate_limit_retries + 1;
            return RetryAction::RetryAfter(RETRY_DELAY_SECS);
        }
        if 500 <= code && code <= 599 && self.server_error_retries < MAX_SERVER_ERROR_RETRIES {
            self.server_error_retries = self.server_error_retries + 1;
            return RetryAction::RetryAfter(RETRY_DELAY_SECS);
        }
        if code == 429 {
            return RetryAction::Fail(YoutubeError::RateLimited);
        }
        let mut m = string_of("YouTube returned status ");
        push_str(&mut m, status_text);
        RetryAction::Fail(YoutubeError::Api(m))
    }
}

/// Every retry uses up one of the allowed retries, so one request is sent at
/// most five times: once, then at most three times after "429" and once after
/// a server error.
pub proof fn lemma_retries_bounded(before: RetryState, after: RetryState, action: RetryAction)
    requires
        before.wf(),
        after.wf(),
        action is RetryAfter ==> after.retries() == before.retries() + 1,
    ensures
        after.retries() <= MAX_RATE_LIMIT_RETRIES + MAX_SERVER_ERROR_RETRIES,
        action is RetryAfter ==> before.retries() < MAX_RATE_LIMIT_RETRIES + MAX_SERVER_ERROR_RETRIES,
{
}

// ---------------------------------------------------------------------------
// Request spacing
// ---------------------------------------------------------------------------

/// The slot booked for the next request and how long to wait for it, given
/// the slot of the previous request (`last`) and the current time, both in
/// nanoseconds since the client started: one interval after the previous
/// slot when that is still ahead, else now.
pub open spec fn spacing(last: Option<u64>, now: u64) -> (u64, Option<u64>) {
    match last {
        None => (now, None),
        Some(t) => {
            if now < t + MIN_REQUEST_INTERVAL_NANOS {
                let slot = if t + MIN_REQUEST_INTERVAL_NANOS > u64::MAX {
                    u64::MAX
                } else {
                    (t + MIN_REQUEST_INTERVAL_NANOS) as u64
                };
                (slot, Some((slot - now) as u64))
            } else {
                (now, None)
            }
        },
    }
}

/// When a request booked by `spacing` leaves: after its wait, if any.
pub open spec fn departure(now: u64, wait: Option<u64>) -> int {
    match wait {
        Some(w) => now + w,
        None => now as int,
    }
}

/// Books the slot of the next request: at least one second after the
/// previous slot, and not before now.
pub fn rate_limit_step(last: Option<u64>, now: u64) -> (r: (u64, Option<u64>))
    ensures
        r == spacing(last, now),
{
    match last {
        None => (now, None),
        Some(t) => {
            if (now as u128) < (t as u128) + (MIN_REQUEST_INTERVAL_NANOS as u128) {
                let slot = t.saturating_add(MIN_REQUEST_INTERVAL_NANOS);
                (slot, Some(slot - now))
            } else {
                (now, None)
            }
        },
    }
}

/// Requests are spaced by at least one second: whatever the current time,
/// before or after the previous slot, the request leaves at its booked slot,
/// which is no earlier than one second after the previous slot and no
/// earlier than now.
pub proof fn lemma_requests_spaced(last: u64, now: u64)
    requires
        last + MIN_REQUEST_INTERVAL_NANOS <= u64::MAX,
    ensures
        ({
            let (slot, wait) = spacing(Some(last), now);
            &&& departure(now, wait) == slot
            &&& slot >= last + MIN_REQUEST_INTERVAL_NANOS
            &&& slot >= now
            &&& (slot == now || slot == last + MIN_REQUEST_INTERVAL_NANOS)
        }),
{
}

/// The bookings of a run of calls made at the times `nows`, in the order
/// the client's lock lets them book: each books against the slot of the one
/// before it (the first against `last`).
pub open spec fn bookings(last: Option<u64>, nows: Seq<u64>) -> Seq<(u64, Option<u64>)>
    decreases nows.len(),
{
    if nows.len() == 0 {
        Seq::empty()
    } else {
        let before = bookings(last, nows.drop_last());
        let prev = if before.len() == 0 {
            last
        } else {
            Some(before.last().0)
        };
        before.push(spacing(prev, nows.last()))
    }
}

proof fn lemma_bookings(last: Option<u64>, nows: Seq<u64>, b: int)
    requires
        b >= 0,
        last matches Some(t) ==> t <= b,
        forall|k: int| 0 <= k < nows.len() ==> nows[k] <= b,
        b + nows.len() * MIN_REQUEST_INTERVAL_NANOS <= u64::MAX,
    ensures
        ({
            let bs = bookings(last, nows);
            &&& bs.len() == nows.len()
            &&& forall|k: int| 0 <= k < bs.len() ==> (#[trigger] bs[k]).0 <= b + (k + 1) * MIN_REQUEST_INTERVAL_NANOS
            &&& forall|k: int| 0 <= k < bs.len() ==> departure(nows[k], (#[trigger] bs[k]).1) == bs[k].0
            &&& (bs.len() > 0 && last is Some) ==> bs[0].0 >= last.unwrap() + MIN_REQUEST_INTERVAL_NANOS
            &&& forall|i: int, j: int| 0 <= i < j < bs.len() ==> (#[trigger] bs[j]).0 >= (#[trigger] bs[i]).0 + MIN_REQUEST_INTERVAL_NANOS
        }),
    decreases nows.len(),
{
    if nows.len() > 0 {
        let d = nows.drop_last();
        assert forall|k: int| 0 <= k < d.len() implies d[k] <= b by {
            assert(d[k] == nows[k]);
        }
        lemma_bookings(last, d, b);
        let before = bookings(last, d);
        let n = nows.len() - 1;
        let now = nows.last();
        assert(now == nows[n]);
        let bs = bookings(last, nows);
        assert(bs == before.push(spacing(if before.len() == 0 { last } else { Some(before.last().0) }, now)));
        if before.len() == 0 {
            match last {
                Some(t) => lemma_requests_spaced(t, now),
                None => {},
            }
        } else {
            let p = before.last().0;
            assert(before.last() == before[n - 1]);
            assert(p <= b + n * MIN_REQUEST_INTERVAL_NANOS);
            lemma_requests_spaced(p, now);
            assert forall|i: int| 0 <= i < n implies bs[n].0 >= (#[trigger] bs[i]).0 + MIN_REQUEST_INTERVAL_NANOS by {
                assert(bs[i] == before[i]);
                if i < n - 1 {
                    assert(before[n - 1].0 >= before[i].0 + MIN_REQUEST_INTERVAL_NANOS);
                }
            }
        }
        assert forall|k: int| 0 <= k < n implies #[trigger] bs[k] == before[k] by {}
    }
}

/// Any two requests of a run leave at least one second apart: for calls made
/// at any times `nows` (in the order they take the client's lock, whether
/// made one after the other or concurrently), each leaves at its booked
/// slot, the first no earlier than one second after `last`, and each later
/// one at least one second after every earlier one. The times stay far
/// enough below the end of the `u64` range for every slot to fit.
pub proof fn requests_in_a_run_are_spaced(last: Option<u64>, nows: Seq<u64>)
    requires
        last matches Some(t) ==> t + nows.len() * MIN_REQUEST_INTERVAL_NANOS <= u64::MAX,
        forall|k: int| 0 <= k < nows.len() ==> nows[k] + nows.len() * MIN_REQUEST_INTERVAL_NANOS <= u64::MAX,
    ensures
        ({
            let bs = bookings(last, nows);
            &&& bs.len() == nows.len()
            &&& forall|k: int| 0 <= k < bs.len() ==> departure(nows[k], (#[trigger] bs[k]).1) == bs[k].0
            &&& (bs.len() > 0 && last is Some) ==> bs[0].0 >= last.unwrap() + MIN_REQUEST_INTERVAL_NANOS
            &&& forall|i: int, j: int| 0 <= i < j < bs.len() ==>
                departure(nows[j], (#[trigger] bs[j]).1) >= departure(nows[i], (#[trigger] bs[i]).1) + MIN_REQUEST_INTERVAL_NANOS
        }),
{
    let b = u64::MAX - nows.len() * MIN_REQUEST_INTERVAL_NANOS;
    if nows.len() > 0 {
        assert(nows[0] + nows.len() * MIN_REQUEST_INTERVAL_NANOS <= u64::MAX);
    }
    lemma_bookings(last, nows, b);
}

} // verus!
