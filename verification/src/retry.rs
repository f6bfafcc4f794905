//! Retries: which outcomes are retried, how long to wait before the next
//! attempt, and when to give up.
//!
//! A request is retried on 429 and 5xx responses and on transport errors,
//! with exponential backoff and full jitter, honouring `Retry-After`
//! (delta-seconds or an HTTP-date), up to the configured number of attempts.
//! Delays are in nanoseconds.
use std::time::UNIX_EPOCH;
use vstd::prelude::*;

use crate::clock::unix_time_nanos;
use crate::error::{
    error_from_response, is_retryable_status, local_error, response_error, retryable_status,
    ApiErrorFields, Error, ErrorView,
};
use crate::text::{char_vec, parse_i64, parse_i64_range, trim, trim_bounds};

verus! {

/// Nanoseconds in a millisecond.
pub const NANOS_PER_MILLI: u128 = 1_000_000;

/// Nanoseconds in a second.
pub const NANOS_PER_SEC: u128 = 1_000_000_000;

/// The longest wait between two attempts: 20 seconds.
pub const MAX_BACKOFF_NANOS: u128 = 20_000_000_000;

/// The longest backoff window, in milliseconds: 20 seconds.
pub const MAX_BACKOFF_MILLIS: u64 = 20_000;

// ---------------------------------------------------------------------------
// Retry-After
// ---------------------------------------------------------------------------

/// The instant an HTTP-date names, in whole seconds since the Unix epoch, or
/// `None` when the text is no HTTP-date.
pub uninterp spec fn http_date_seconds(text: Seq<char>) -> Option<u64>;

/// `httpdate::parse_http_date`, read as whole seconds since the Unix epoch.
/// The crate only accepts dates from 1970 on, so the distance to the epoch is
/// always defined.
#[verifier::external_body]
fn http_date_unix_seconds(text: &str) -> (r: Option<u64>)
    ensures
        r == http_date_seconds(text@),
{
    match httpdate::parse_http_date(text) {
        Ok(t) => match t.duration_since(UNIX_EPOCH) {
            Ok(d) => Some(d.as_secs()),
            Err(_) => None,
        },
        Err(_) => None,
    }
}

/// The wait a `Retry-After` value asks for, read at time `now` (nanoseconds
/// since the Unix epoch): delta-seconds (negative counts as zero), or else an
/// HTTP-date, whose wait is the time left until it (zero once past). The value
/// is trimmed first. `None` when it is neither.
pub open spec fn retry_after_wait(value: Seq<char>, now: int) -> Option<int> {
    let v = trim(value);
    match parse_i64(v) {
        Some(secs) => Some(
            if secs < 0 {
                0
            } else {
                secs * NANOS_PER_SEC
            },
        ),
        None => date_wait(http_date_seconds(v), now),
    }
}

/// The wait until the instant `when` (whole seconds since the Unix epoch),
/// read at time `now` (nanoseconds since the epoch): zero once it is past.
pub open spec fn date_wait(when: Option<u64>, now: int) -> Option<int> {
    match when {
        Some(w) => Some(
            if w * NANOS_PER_SEC > now {
                w * NANOS_PER_SEC - now
            } else {
                0
            },
        ),
        None => None,
    }
}

/// The wait until the instant an HTTP-date named, at time `now_nanos`.
pub fn http_date_wait(when: Option<u64>, now_nanos: u128) -> (r: Option<u128>)
    ensures
        match r {
            Some(d) => date_wait(when, now_nanos as int) == Some(d as int),
            None => date_wait(when, now_nanos as int) is None,
        },
{
    match when {
        Some(w) => {
            let at = w as u128 * NANOS_PER_SEC;
            if at > now_nanos {
                Some(at - now_nanos)
            } else {
                Some(0)
            }
        },
        None => None,
    }
}

/// The wait a `Retry-After` value asks for, at time `now_nanos`.
pub fn retry_after_wait_at(value: &str, now_nanos: u128) -> (r: Option<u128>)
    ensures
        match r {
            Some(d) => retry_after_wait(value@, now_nanos as int) == Some(d as int),
            None => retry_after_wait(value@, now_nanos as int) is None,
        },
{
    let chars = char_vec(value);
    let (a, b) = trim_bounds(&chars, 0, chars.len());
    assert(chars@.subrange(0, chars@.len() as int) =~= value@);
    match parse_i64_range(&chars, a, b) {
        Some(secs) => {
            if secs < 0 {
                Some(0)
            } else {
                Some(secs as u128 * NANOS_PER_SEC)
            }
        },
        None => {
            let trimmed = value.substring_char(a, b);
            http_date_wait(http_date_unix_seconds(trimmed), now_nanos)
        },
    }
}

/// Reads a `Retry-After` value against the system clock. Delta-seconds do not
/// depend on the clock; an HTTP-date's wait is measured from the time read.
pub fn parse_retry_after(value: &str) -> (r: Option<u128>)
    ensures
        exists|now: u128|
            match r {
                Some(d) => retry_after_wait(value@, now as int) == Some(d as int),
                None => retry_after_wait(value@, now as int) is None,
            },
{
    let now = unix_time_nanos();
    retry_after_wait_at(value, now)
}

// ---------------------------------------------------------------------------
// Backoff
// ---------------------------------------------------------------------------

/// `2^n`.
pub open spec fn pow2(n: nat) -> nat
    decreases n,
{
    if n == 0 {
        1
    } else {
        2 * pow2((n - 1) as nat)
    }
}

/// The backoff window for a 1-based attempt, in milliseconds: 250 ms doubled
/// for each earlier attempt (at most 20 doublings), capped at 20 seconds.
pub open spec fn backoff_window_millis(attempt: u32) -> int {
    let shift: nat = if attempt - 1 < 20 {
        (attempt - 1) as nat
    } else {
        20
    };
    let w = 250 * pow2(shift);
    if w < MAX_BACKOFF_MILLIS {
        w as int
    } else {
        MAX_BACKOFF_MILLIS as int
    }
}

/// The backoff window for a 1-based attempt, in milliseconds.
pub fn backoff_window(attempt: u32) -> (r: u64)
    requires
        attempt >= 1,
    ensures
        r == backoff_window_millis(attempt),
        r <= MAX_BACKOFF_MILLIS,
{
    let shift: u32 = if attempt - 1 < 20 {
        attempt - 1
    } else {
        20
    };
    let mut w: u64 = 250;
    let mut i: u32 = 0;
    while i < shift
        invariant
            i <= shift <= 20,
            w == 250 * pow2(i as nat),
            pow2(i as nat) <= 1048576,
        decreases shift - i,
    {
        proof {
            lemma_pow2_bound((i + 1) as nat);
            assert(pow2((i + 1) as nat) == 2 * pow2(i as nat));
        }
        w = w * 2;
        i = i + 1;
    }
    if w < MAX_BACKOFF_MILLIS {
        w
    } else {
        MAX_BACKOFF_MILLIS
    }
}

proof fn lemma_pow2_bound(n: nat)
    requires
        n <= 20,
    ensures
        pow2(n) <= 1048576,
    decreases 20 - n,
{
    if n < 20 {
        lemma_pow2_bound(n + 1);
    } else {
        reveal_with_fuel(pow2, 21);
    }
}

/// A uniformly random number in `0..=hi`, from `fastrand::u64`. The range is
/// never empty, so the call does not panic. Nothing is promised of the value
/// but its range.
#[verifier::external_body]
fn random_at_most(hi: u64) -> (r: u64)
    ensures
        r <= hi,
{
    fastrand::u64(0..=hi)
}

/// The wait before the next attempt after `attempt`, when a `Retry-After`
/// value `retry_after` came, read at time `now`, and the random draw was
/// `jitter_millis`: what `Retry-After` asks for, capped at 20 seconds, or else
/// the drawn number of milliseconds.
pub open spec fn backoff_wait(
    retry_after: Option<Seq<char>>,
    now: int,
    jitter_millis: int,
) -> int {
    match retry_after {
        Some(v) => match retry_after_wait(v, now) {
            Some(d) => if d < MAX_BACKOFF_NANOS {
                d
            } else {
                MAX_BACKOFF_NANOS as int
            },
            None => jitter_millis * NANOS_PER_MILLI,
        },
        None => jitter_millis * NANOS_PER_MILLI,
    }
}

/// Exponential backoff with full jitter, capped at 20 seconds, honouring
/// `Retry-After` (delta-seconds or an HTTP-date) when present. `attempt` is
/// 1-based. The jitter is drawn uniformly from `0..=window` milliseconds.
pub fn backoff_delay(attempt: u32, retry_after: Option<&str>) -> (r: u128)
    requires
        attempt >= 1,
    ensures
        r <= MAX_BACKOFF_NANOS,
        exists|now: u128, jitter: u64|
            jitter <= backoff_window_millis(attempt) && r == backoff_wait(
                crate::signature::opt_view(retry_after),
                now as int,
                jitter as int,
            ),
{
    let window = backoff_window(attempt);
    match retry_after {
        Some(v) => {
            let parsed = parse_retry_after(v);
            let ghost now = choose|now: u128|
                match parsed {
                    Some(d) => retry_after_wait(v@, now as int) == Some(d as int),
                    None => retry_after_wait(v@, now as int) is None,
                };
            match parsed {
                Some(d) => {
                    let r = if d < MAX_BACKOFF_NANOS {
                        d
                    } else {
                        MAX_BACKOFF_NANOS
                    };
                    assert(r == backoff_wait(Some(v@), now as int, 0));
                    r
                },
                None => {
                    let jitter = random_at_most(window);
                    let r = jitter as u128 * NANOS_PER_MILLI;
                    assert(r == backoff_wait(Some(v@), now as int, jitter as int));
                    r
                },
            }
        },
        None => {
            let jitter = random_at_most(window);
            let r = jitter as u128 * NANOS_PER_MILLI;
            assert(r == backoff_wait(None, 0, jitter as int));
            r
        },
    }
}

// ---------------------------------------------------------------------------
// The retry loop
// ---------------------------------------------------------------------------

/// What one attempt of a request came to.
pub enum AttemptResult {
    /// The API could not be reached, or the response could not be read;
    /// `detail` describes the transport failure.
    Unreachable { detail: String },
    /// The API answered.
    Responded {
        /// The HTTP status.
        status: u16,
        /// The `Retry-After` header, when present and readable as text.
        retry_after: Option<String>,
        /// The raw body.
        body: Vec<u8>,
        /// The `error` object of the body, when the body was JSON of that
        /// shape.
        api_error: Option<ApiErrorFields>,
    },
}

/// The methods requests are made with.
#[derive(Debug, Clone, Copy, PartialEq, Eq, Structural)]
pub enum HttpMethod {
    Get,
    Post,
    Delete,
}

/// A request as it is sent on every attempt: the method, the full address,
/// and the JSON body, if any. The client adds its `Authorization` and
/// `User-Agent` headers, and `Content-Type: application/json` when there is
/// a body.
#[derive(Debug, Clone)]
pub struct Request {
    pub method: HttpMethod,
    pub url: String,
    pub body: Option<Vec<u8>>,
}

/// An attempt: its number (the first is 1) and the request it sends.
#[derive(Debug, Clone)]
pub struct Attempt {
    pub number: u32,
    pub request: Request,
}

/// What to do after an attempt.
pub enum NextStep {
    /// Wait `delay_nanos`, then make `attempt`.
    Retry { attempt: Attempt, delay_nanos: u128 },
    /// Give up with this error.
    Fail(Error),
    /// Done: the success body.
    Succeed(Vec<u8>),
}

/// A step after `attempt` keeps to a budget of `max_attempts` attempts and
/// to the request: a retry is the next attempt, never one past the budget,
/// and sends the very same request (the same method, address and body bytes,
/// so a body's idempotency key travels unchanged).
pub open spec fn step_follows(attempt: Attempt, max_attempts: u32, next: NextStep) -> bool {
    next matches NextStep::Retry { attempt: a, .. } ==> {
        &&& a.number == attempt.number + 1
        &&& a.number <= max_attempts
        &&& a.request == attempt.request
    }
}

/// Whether `attempts` and `steps` form a run: the first attempt is number 1,
/// `steps[i]` follows `attempts[i]`, and every step but the last is a retry
/// to the next attempt of the run.
pub open spec fn is_run(max_attempts: u32, attempts: Seq<Attempt>, steps: Seq<NextStep>) -> bool {
    &&& attempts.len() == steps.len()
    &&& attempts.len() > 0 ==> attempts[0].number == 1
    &&& forall|i: int|
        0 <= i < steps.len() ==> step_follows(attempts[i], max_attempts, #[trigger] steps[i])
    &&& forall|i: int|
        0 <= i < steps.len() - 1 ==> (#[trigger] steps[i] matches NextStep::Retry {
            attempt: a,
            ..
        } && attempts[i + 1] == a)
}

proof fn lemma_run_prefix(max_attempts: u32, attempts: Seq<Attempt>, steps: Seq<NextStep>, k: int)
    requires
        is_run(max_attempts, attempts, steps),
        0 <= k < attempts.len(),
    ensures
        attempts[k].number == k + 1,
        attempts[k].request == attempts[0].request,
    decreases k,
{
    if k > 0 {
        lemma_run_prefix(max_attempts, attempts, steps, k - 1);
        assert(step_follows(attempts[k - 1], max_attempts, steps[k - 1]));
        assert(steps[k - 1] matches NextStep::Retry { attempt: a, .. } && attempts[k] == a);
    }
}

/// A request whose steps follow [`after_attempt`] makes at most
/// `max_attempts` attempts (so it waits at most `max_attempts - 1` times),
/// numbered 1, 2, ..., and every attempt sends the same request as the
/// first. (A client's budget is at least one attempt.)
pub proof fn lemma_run_within_budget(max_attempts: u32, attempts: Seq<Attempt>, steps: Seq<NextStep>)
    requires
        max_attempts >= 1,
        is_run(max_attempts, attempts, steps),
    ensures
        attempts.len() <= max_attempts,
        forall|i: int|
            0 <= i < attempts.len() ==> (#[trigger] attempts[i]).number == i + 1
                && attempts[i].request == attempts[0].request,
{
    assert forall|i: int| 0 <= i < attempts.len() implies (#[trigger] attempts[i]).number == i + 1
        && attempts[i].request == attempts[0].request by {
        lemma_run_prefix(max_attempts, attempts, steps, i);
    }
    if attempts.len() > max_attempts {
        let i = max_attempts as int;
        lemma_run_prefix(max_attempts, attempts, steps, i - 1);
        assert(step_follows(attempts[i - 1], max_attempts, steps[i - 1]));
        assert(steps[i - 1] is Retry);
    }
}

/// Decides what follows `attempt`, of at most `max_attempts`.
///
/// A transport failure, or a 429 or 5xx response, is retried while attempts
/// remain, with the same request, after [`backoff_delay`] (which honours the
/// response's `Retry-After`); once none remain it fails, with
/// `request_failed` for a transport failure or the response's typed error.
/// Any other status of 400 or more fails at once with the typed error; a
/// status below 400 succeeds with the body.
pub fn after_attempt(attempt: Attempt, max_attempts: u32, result: AttemptResult) -> (next: NextStep)
    requires
        1 <= attempt.number <= max_attempts,
    ensures
        step_follows(attempt, max_attempts, next),
        match result {
            AttemptResult::Unreachable { detail } => if attempt.number < max_attempts {
                next matches NextStep::Retry { attempt: a, delay_nanos } && a.number
                    == attempt.number + 1 && delay_nanos <= MAX_BACKOFF_NANOS && exists|
                    now: u128,
                    jitter: u64,
                |
                    jitter <= backoff_window_millis(attempt.number) && delay_nanos
                        == backoff_wait(None, now as int, jitter as int)
            } else {
                next matches NextStep::Fail(e) && e@ == local_error(
                    "request_failed"@,
                    "Could not reach the SendByte API: "@ + detail@,
                )
            },
            AttemptResult::Responded { status, retry_after, body, api_error } => if status < 400 {
                next matches NextStep::Succeed(b) && b@ == body@
            } else if retryable_status(status) && attempt.number < max_attempts {
                next matches NextStep::Retry { attempt: a, delay_nanos } && a.number
                    == attempt.number + 1 && delay_nanos <= MAX_BACKOFF_NANOS && exists|
                    now: u128,
                    jitter: u64,
                |
                    jitter <= backoff_window_millis(attempt.number) && delay_nanos
                        == backoff_wait(crate::error::opt_string(retry_after), now as int, jitter as int)
            } else {
                next matches NextStep::Fail(e) && e@ == response_error(api_error, status)
            },
        },
{
    let number = attempt.number;
    match result {
        AttemptResult::Unreachable { detail } => {
            if number < max_attempts {
                let delay = backoff_delay(number, None);
                NextStep::Retry {
                    attempt: Attempt { number: number + 1, request: attempt.request },
                    delay_nanos: delay,
                }
            } else {
                NextStep::Fail(Error::transport(detail.as_str()))
            }
        },
        AttemptResult::Responded { status, retry_after, body, api_error } => {
            if status >= 400 {
                if is_retryable_status(status) && number < max_attempts {
                    let delay = match &retry_after {
                        Some(v) => backoff_delay(number, Some(v.as_str())),
                        None => backoff_delay(number, None),
                    };
                    NextStep::Retry {
                        attempt: Attempt { number: number + 1, request: attempt.request },
                        delay_nanos: delay,
                    }
                } else {
                    NextStep::Fail(error_from_response(api_error, status))
                }
            } else {
                NextStep::Succeed(body)
            }
        },
    }
}

} // verus!
