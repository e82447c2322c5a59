//! The decision core of the rate-limit-aware request layer: which
//! retry-after header value applies, whether to accept a response,
//! sleep and retry, or abort, and the laws that the retry loop issues
//! exactly the requests and sleeps the server asked for.
//!
//! The application performs the actual GET requests and sleeps; it
//! feeds each attempt's status and headers back into these functions.

use vstd::prelude::*;
use crate::endpoints::Endpoint;
use crate::errors::ApiError;
use crate::errors::spec_blank_text;
use crate::errors::spec_new_message;
use crate::errors::spec_status_help;
use crate::json::json_parsable;
use crate::json::json_parse;
use crate::json::json_result_field;
use crate::json::result_field_of;
use crate::text::all_digits;
use crate::text::dec_value;
use crate::text::parse_digits_u32;

verus! {

/// The HTTP status the upstream API uses to signal a rate limit.
pub const STATUS_TOO_MANY_REQUESTS: u16 = 429;

/// Whether an HTTP status code is a success (2xx) status.
pub open spec fn spec_is_success(status: u16) -> bool {
    200 <= status < 300
}

/// Whether an HTTP status code is a success (2xx) status.
pub fn is_success(status: u16) -> (r: bool)
    ensures
        r == spec_is_success(status),
{
    200 <= status && status < 300
}

/// Why no retry-after duration could be read from a 429 response.
#[derive(Debug, Clone, Copy, PartialEq, Eq, Structural)]
pub enum RetryAfterError {
    /// Neither the standard header nor the vendor fallback was present.
    Missing,
    /// The chosen header value is not a number of seconds.
    Malformed,
}

/// The header value the retry-after resolution goes by: the standard
/// header when present, else the vendor fallback.
pub open spec fn chosen_retry_header(primary: Option<Seq<char>>, fallback: Option<Seq<char>>) -> Option<
    Seq<char>,
> {
    if primary is Some {
        primary
    } else {
        fallback
    }
}

/// The view of an optional header value.
pub open spec fn opt_view(o: Option<String>) -> Option<Seq<char>> {
    match o {
        Option::Some(s) => Option::Some(s@),
        Option::None => Option::None,
    }
}

/// Reads the retry-after duration, in whole seconds, from the standard
/// `retry-after` header or the vendor fallback, in that order. Absence
/// of both is a hard failure: no sleep duration is ever guessed.
pub fn resolve_retry_after(primary: &Option<String>, fallback: &Option<String>) -> (r: Result<
    u32,
    RetryAfterError,
>)
    ensures
        ({
            let c = chosen_retry_header(opt_view(*primary), opt_view(*fallback));
            match c {
                Option::None => r == Err::<u32, RetryAfterError>(RetryAfterError::Missing),
                Option::Some(s) => {
                    &&& (r matches Ok(n) <==> s.len() > 0 && all_digits(s) && dec_value(s)
                        <= u32::MAX)
                    &&& (r matches Ok(n) ==> n == dec_value(s))
                    &&& (!(s.len() > 0 && all_digits(s) && dec_value(s) <= u32::MAX) ==> r
                        == Err::<u32, RetryAfterError>(RetryAfterError::Malformed))
                },
            }
        }),
{
    let chosen: &Option<String> = if primary.is_some() {
        primary
    } else {
        fallback
    };
    match chosen {
        Option::None => Err(RetryAfterError::Missing),
        Option::Some(s) => match parse_digits_u32(s.as_str()) {
            Ok(n) => Ok(n),
            Err(_) => Err(RetryAfterError::Malformed),
        },
    }
}

/// What the client does after one attempt of a GET request.
#[derive(Debug, Clone, Copy, PartialEq, Eq, Structural)]
pub enum RetryStep {
    /// Hand this response to the caller (any non-429 status, or the
    /// final 429 when the attempts are used up).
    Accept,
    /// Sleep for this many seconds, then issue the next attempt.
    Sleep(u32),
    /// Fail the whole operation: the server rate-limited the request
    /// but no usable retry-after duration was advertised.
    Abort(RetryAfterError),
}

/// Decides what to do after attempt `attempt` (1-based) came back with
/// `status`, given the resolved retry-after duration. Any non-429
/// status ends the loop at once; the last 429 is returned as-is for
/// the caller to classify.
pub fn retry_decision(
    status: u16,
    attempt: u32,
    max_retries: u32,
    retry_after: &Result<u32, RetryAfterError>,
) -> (r: RetryStep)
    requires
        1 <= attempt <= max_retries,
    ensures
        status != STATUS_TOO_MANY_REQUESTS ==> r == RetryStep::Accept,
        status == STATUS_TOO_MANY_REQUESTS && attempt == max_retries ==> r == RetryStep::Accept,
        status == STATUS_TOO_MANY_REQUESTS && attempt < max_retries ==> match *retry_after {
            Ok(secs) => r == RetryStep::Sleep(secs),
            Err(e) => r == RetryStep::Abort(e),
        },
{
    if status != STATUS_TOO_MANY_REQUESTS {
        RetryStep::Accept
    } else if attempt == max_retries {
        RetryStep::Accept
    } else {
        match retry_after {
            Ok(secs) => RetryStep::Sleep(*secs),
            Err(e) => RetryStep::Abort(*e),
        }
    }
}

/// Decides what to do after one attempt, straight from the response's
/// status and its two candidate retry-after headers.
pub fn next_retry_step(
    status: u16,
    attempt: u32,
    max_retries: u32,
    primary: &Option<String>,
    fallback: &Option<String>,
) -> (r: RetryStep)
    requires
        1 <= attempt <= max_retries,
    ensures
        status != STATUS_TOO_MANY_REQUESTS ==> r == RetryStep::Accept,
        status == STATUS_TOO_MANY_REQUESTS && attempt == max_retries ==> r == RetryStep::Accept,
        status == STATUS_TOO_MANY_REQUESTS && attempt < max_retries ==> ({
            let c = chosen_retry_header(opt_view(*primary), opt_view(*fallback));
            match c {
                Option::None => r == RetryStep::Abort(RetryAfterError::Missing),
                Option::Some(s) => if s.len() > 0 && all_digits(s) && dec_value(s) <= u32::MAX {
                    r == RetryStep::Sleep(dec_value(s) as u32)
                } else {
                    r == RetryStep::Abort(RetryAfterError::Malformed)
                },
            }
        }),
{
    let retry_after = resolve_retry_after(primary, fallback);
    retry_decision(status, attempt, max_retries, &retry_after)
}

/// Whether the transport layer and the payload layer both agree that a
/// call succeeded: a 2xx status, and a `result` field that is present
/// and not `"error"`.
pub open spec fn spec_response_accepted(status: u16, result_field: Option<Seq<char>>) -> bool {
    spec_is_success(status) && match result_field {
        Option::Some(s) => s != "error"@,
        Option::None => false,
    }
}

/// Decides whether a parsed response counts as a success: both the
/// HTTP status and the embedded `result` field must agree (a missing
/// field counts as an error report).
pub fn response_accepted(status: u16, result_field: &Option<String>) -> (r: bool)
    ensures
        r == spec_response_accepted(status, opt_view(*result_field)),
{
    match result_field {
        Option::Some(s) => {
            let e: String = "error".to_owned();
            is_success(status) && !(*s == e)
        },
        Option::None => false,
    }
}

/// Classifies a fetched response body as parsed JSON or an error.
///
/// The call succeeds exactly when the body parses as JSON, the
/// status is a success and the payload's top-level `result` field is
/// a string other than `"error"` (a missing field counts as an error
/// report): both the transport layer and the payload layer must
/// agree. A body that is not JSON yields the blank (parse-failure)
/// error form; a parsed but rejected response yields the error
/// composed from the payload's `errors` list.
pub fn get_ok_json(endpoint: Endpoint, status: u16, body: &str) -> (r: Result<
    serde_json::Value,
    ApiError,
>)
    ensures
        r is Ok <==> json_parsable(body@) && spec_response_accepted(status, result_field_of(body@)),
        r is Ok ==> spec_is_success(status),
        !json_parsable(body@) ==> (r matches Err(e) && e.spec_message() == spec_blank_text(
            endpoint.spec_uri(),
            status,
        )),
        json_parsable(body@) && !spec_response_accepted(status, result_field_of(body@)) ==> (
        r matches Err(e) && e.spec_message() == spec_new_message(
            endpoint.spec_uri(),
            body@,
            status,
        )),
        r matches Err(e) ==> e.spec_help() == spec_status_help(status),
{
    match json_parse(body) {
        Option::None => Err(ApiError::blank(endpoint, status)),
        Option::Some(v) => {
            let field = json_result_field(body);
            if response_accepted(status, &field) {
                Ok(v)
            } else {
                Err(ApiError::new(endpoint, body, status))
            }
        },
    }
}

/// One attempt's outcome, as the retry loop sees it: the HTTP status
/// and the retry-after duration resolved from the headers (`None`
/// when neither header carried a usable value).
#[derive(Debug, Clone, Copy, PartialEq, Eq, Structural)]
pub struct Attempt {
    pub status: u16,
    pub retry_after: Option<u32>,
}

/// How a run of the retry loop ends.
#[derive(Debug, Clone, Copy, PartialEq, Eq, Structural)]
pub enum RetryRunEnd {
    /// The loop returned the response of the last attempt it issued.
    Returned(u16),
    /// The loop failed because a 429 carried no usable retry-after.
    NoRetryAfter,
}

/// The number of requests the retry loop issues against a server that
/// answers the attempts as `trace` says, with `max` attempts allowed.
pub open spec fn run_requests(trace: Seq<Attempt>, max: nat) -> nat
    decreases max,
{
    if max == 0 || trace.len() == 0 {
        0
    } else if trace[0].status != STATUS_TOO_MANY_REQUESTS {
        1
    } else if max == 1 {
        1
    } else if trace[0].retry_after is None {
        1
    } else {
        1 + run_requests(trace.skip(1), (max - 1) as nat)
    }
}

/// The total seconds the retry loop sleeps against such a server.
pub open spec fn run_sleep(trace: Seq<Attempt>, max: nat) -> nat
    decreases max,
{
    if max == 0 || trace.len() == 0 {
        0
    } else if trace[0].status != STATUS_TOO_MANY_REQUESTS {
        0
    } else if max == 1 {
        0
    } else if trace[0].retry_after is None {
        0
    } else {
        (trace[0].retry_after->0 + run_sleep(trace.skip(1), (max - 1) as nat)) as nat
    }
}

/// How the retry loop ends against such a server.
pub open spec fn run_end(trace: Seq<Attempt>, max: nat) -> RetryRunEnd
    decreases max,
{
    if max == 0 || trace.len() == 0 {
        RetryRunEnd::Returned(0)
    } else if trace[0].status != STATUS_TOO_MANY_REQUESTS || max == 1 {
        RetryRunEnd::Returned(trace[0].status)
    } else if trace[0].retry_after is None {
        RetryRunEnd::NoRetryAfter
    } else {
        run_end(trace.skip(1), (max - 1) as nat)
    }
}

/// Runs the retry loop against a server whose answers are given up
/// front. This is the verified shape of the request loop; the
/// application runs the same loop with the network answering each
/// attempt and a real sleep for each `Sleep` step.
pub fn simulate_retries(outcomes: &Vec<Attempt>, max_retries: u32) -> (r: (u32, u64, RetryRunEnd))
    requires
        1 <= max_retries,
        outcomes@.len() >= max_retries,
    ensures
        r.0 == run_requests(outcomes@, max_retries as nat),
        r.1 == run_sleep(outcomes@, max_retries as nat),
        r.2 == run_end(outcomes@, max_retries as nat),
{
    let mut slept: u64 = 0;
    let mut attempt: u32 = 1;
    proof {
        assert(outcomes@.skip(0) =~= outcomes@);
    }
    loop
        invariant
            1 <= attempt <= max_retries,
            outcomes@.len() >= max_retries,
            run_requests(outcomes@, max_retries as nat) == (attempt - 1) + run_requests(
                outcomes@.skip(attempt - 1),
                (max_retries - (attempt - 1)) as nat,
            ),
            run_sleep(outcomes@, max_retries as nat) == slept + run_sleep(
                outcomes@.skip(attempt - 1),
                (max_retries - (attempt - 1)) as nat,
            ),
            run_end(outcomes@, max_retries as nat) == run_end(
                outcomes@.skip(attempt - 1),
                (max_retries - (attempt - 1)) as nat,
            ),
            slept <= (attempt - 1) * (u32::MAX as int),
        decreases max_retries - attempt,
    {
        let o = outcomes[(attempt - 1) as usize];
        let retry_after = match o.retry_after {
            Option::Some(s) => Ok(s),
            Option::None => Err(RetryAfterError::Missing),
        };
        let ghost rest = outcomes@.skip(attempt - 1);
        let ghost m = (max_retries - (attempt - 1)) as nat;
        proof {
            assert(rest.len() >= m >= 1);
            assert(rest[0] == outcomes@[attempt - 1]);
            assert(rest[0] == o);
            assert(rest.skip(1) =~= outcomes@.skip(attempt as int));
        }
        match retry_decision(o.status, attempt, max_retries, &retry_after) {
            RetryStep::Accept => {
                proof {
                    if o.status != STATUS_TOO_MANY_REQUESTS {
                        assert(run_requests(rest, m) == 1);
                        assert(run_sleep(rest, m) == 0);
                        assert(run_end(rest, m) == RetryRunEnd::Returned(o.status));
                    } else {
                        assert(attempt == max_retries);
                        assert(m == 1);
                        assert(run_requests(rest, m) == 1);
                        assert(run_sleep(rest, m) == 0);
                        assert(run_end(rest, m) == RetryRunEnd::Returned(o.status));
                    }
                }
                return (attempt, slept, RetryRunEnd::Returned(o.status));
            },
            RetryStep::Abort(_) => {
                proof {
                    assert(o.status == STATUS_TOO_MANY_REQUESTS);
                    assert(attempt < max_retries);
                    assert(o.retry_after is None);
                    assert(m >= 2);
                    assert(run_requests(rest, m) == 1);
                    assert(run_sleep(rest, m) == 0);
                    assert(run_end(rest, m) == RetryRunEnd::NoRetryAfter);
                }
                return (attempt, slept, RetryRunEnd::NoRetryAfter);
            },
            RetryStep::Sleep(secs) => {
                proof {
                    assert(o.status == STATUS_TOO_MANY_REQUESTS);
                    assert(attempt < max_retries);
                    assert(o.retry_after == Option::Some(secs));
                    assert(m >= 2);
                    assert(run_requests(rest, m) == 1 + run_requests(
                        outcomes@.skip(attempt as int),
                        (m - 1) as nat,
                    ));
                    assert(run_sleep(rest, m) == secs + run_sleep(
                        outcomes@.skip(attempt as int),
                        (m - 1) as nat,
                    ));
                    assert(run_end(rest, m) == run_end(
                        outcomes@.skip(attempt as int),
                        (m - 1) as nat,
                    ));
                    let m32 = u32::MAX as int;
                    assert((attempt - 1) * m32 + m32 == attempt * m32) by (nonlinear_arith);
                    assert(attempt * m32 <= m32 * m32) by (nonlinear_arith)
                        requires
                            1 <= attempt <= m32,
                    ;
                    assert(m32 * m32 <= u64::MAX as int) by (nonlinear_arith)
                        requires
                            m32 == 0xffff_ffffint,
                    ;
                }
                slept = slept + secs as u64;
                attempt += 1;
            },
        }
    }
}

/// The sum of the advertised retry-after durations of the first `k`
/// attempts of a trace.
pub open spec fn sleep_sum(trace: Seq<Attempt>, k: nat) -> nat
    decreases k,
{
    if k == 0 || trace.len() == 0 {
        0
    } else {
        (match trace[0].retry_after {
            Option::Some(s) => s as nat,
            Option::None => 0,
        }) + sleep_sum(trace.skip(1), (k - 1) as nat)
    }
}

/// Retry-after honoured: when the first `k` attempts are rate-limited
/// with advertised durations and attempt `k` succeeds within the
/// allowed attempts, the loop issues exactly `k + 1` requests, sleeps
/// exactly the advertised total, and returns the successful response.
pub proof fn lemma_retry_after_honored(trace: Seq<Attempt>, max: nat, k: nat)
    requires
        k < max,
        k < trace.len(),
        forall|i: int|
            0 <= i < k ==> (#[trigger] trace[i]).status == STATUS_TOO_MANY_REQUESTS
                && trace[i].retry_after is Some,
        trace[k as int].status != STATUS_TOO_MANY_REQUESTS,
    ensures
        run_requests(trace, max) == k + 1,
        run_sleep(trace, max) == sleep_sum(trace, k),
        run_end(trace, max) == RetryRunEnd::Returned(trace[k as int].status),
    decreases k,
{
    if k == 0 {
    } else {
        assert forall|i: int| 0 <= i < k - 1 implies (#[trigger] trace.skip(1)[i]).status
            == STATUS_TOO_MANY_REQUESTS && trace.skip(1)[i].retry_after is Some by {
            assert(trace.skip(1)[i] == trace[i + 1]);
        }
        assert(trace.skip(1)[k - 1] == trace[k as int]);
        lemma_retry_after_honored(trace.skip(1), (max - 1) as nat, (k - 1) as nat);
    }
}

/// Exhausted retries: when every attempt is rate-limited with an
/// advertised duration, the loop issues exactly the allowed number of
/// requests and returns the final 429 — a rate-limit failure, never a
/// success.
pub proof fn lemma_exhausted_retries(trace: Seq<Attempt>, max: nat)
    requires
        1 <= max <= trace.len(),
        forall|i: int|
            0 <= i < max ==> (#[trigger] trace[i]).status == STATUS_TOO_MANY_REQUESTS
                && trace[i].retry_after is Some,
    ensures
        run_requests(trace, max) == max,
        run_end(trace, max) == RetryRunEnd::Returned(STATUS_TOO_MANY_REQUESTS),
        !spec_is_success(STATUS_TOO_MANY_REQUESTS),
    decreases max,
{
    if max == 1 {
    } else {
        assert forall|i: int| 0 <= i < max - 1 implies (#[trigger] trace.skip(1)[i]).status
            == STATUS_TOO_MANY_REQUESTS && trace.skip(1)[i].retry_after is Some by {
            assert(trace.skip(1)[i] == trace[i + 1]);
        }
        lemma_exhausted_retries(trace.skip(1), (max - 1) as nat);
    }
}

} // verus!
