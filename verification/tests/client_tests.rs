use mdex_dl::client::{
    get_ok_json, is_success, next_retry_step, resolve_retry_after, response_accepted,
    retry_decision, simulate_retries, Attempt, RetryAfterError, RetryRunEnd, RetryStep,
};
use mdex_dl::endpoints::Endpoint;

fn attempt(status: u16, retry_after: Option<u32>) -> Attempt {
    Attempt { status, retry_after }
}

#[test]
fn retry_after_honored() {
    // 429 with Retry-After: 2, then 200: one sleep of exactly 2 units.
    let outcomes = vec![attempt(429, Some(2)), attempt(200, None), attempt(200, None)];
    let (requests, slept, end) = simulate_retries(&outcomes, 3);
    assert_eq!(requests, 2);
    assert_eq!(slept, 2);
    assert_eq!(end, RetryRunEnd::Returned(200));
}

#[test]
fn exhausted_retries() {
    // 429 on every attempt with maxRetries = 3: exactly 3 requests, and
    // the outcome is a rate-limit failure, not a success.
    let outcomes = vec![attempt(429, Some(1)), attempt(429, Some(1)), attempt(429, Some(1))];
    let (requests, _slept, end) = simulate_retries(&outcomes, 3);
    assert_eq!(requests, 3);
    assert_eq!(end, RetryRunEnd::Returned(429));
    assert!(!is_success(429));
}

#[test]
fn missing_retry_after_aborts() {
    let outcomes = vec![attempt(429, None), attempt(200, None)];
    let (requests, slept, end) = simulate_retries(&outcomes, 2);
    assert_eq!(requests, 1);
    assert_eq!(slept, 0);
    assert_eq!(end, RetryRunEnd::NoRetryAfter);
}

#[test]
fn retry_decision_cases() {
    assert_eq!(retry_decision(200, 1, 3, &Ok(5)), RetryStep::Accept);
    assert_eq!(retry_decision(429, 3, 3, &Ok(5)), RetryStep::Accept);
    assert_eq!(retry_decision(429, 1, 3, &Ok(5)), RetryStep::Sleep(5));
    assert_eq!(
        retry_decision(429, 1, 3, &Err(RetryAfterError::Missing)),
        RetryStep::Abort(RetryAfterError::Missing)
    );
}

#[test]
fn resolve_retry_after_prefers_standard_header() {
    assert_eq!(resolve_retry_after(&Some("7".to_string()), &Some("9".to_string())), Ok(7));
    assert_eq!(resolve_retry_after(&None, &Some("9".to_string())), Ok(9));
    assert_eq!(resolve_retry_after(&None, &None), Err(RetryAfterError::Missing));
    assert_eq!(
        resolve_retry_after(&Some("soon".to_string()), &None),
        Err(RetryAfterError::Malformed)
    );
    assert_eq!(resolve_retry_after(&Some("".to_string()), &None), Err(RetryAfterError::Malformed));
}

#[test]
fn next_retry_step_reads_headers() {
    assert_eq!(next_retry_step(429, 1, 3, &Some("2".to_string()), &None), RetryStep::Sleep(2));
    assert_eq!(
        next_retry_step(429, 1, 3, &None, &None),
        RetryStep::Abort(RetryAfterError::Missing)
    );
    assert_eq!(next_retry_step(200, 1, 3, &None, &None), RetryStep::Accept);
}

#[test]
fn response_accepted_needs_both_layers() {
    assert!(response_accepted(200, &Some("ok".to_string())));
    assert!(!response_accepted(200, &Some("error".to_string())));
    assert!(!response_accepted(404, &Some("ok".to_string())));
    assert!(!response_accepted(200, &None));
}

#[test]
fn get_ok_json_accepts_ok_payload() {
    let r = get_ok_json(Endpoint::GetManga("abc".to_string()), 200, "{\"result\":\"ok\"}");
    assert!(r.is_ok());
}

#[test]
fn get_ok_json_rejects_error_payload() {
    let r = get_ok_json(Endpoint::GetManga("abc".to_string()), 200, "{\"result\":\"error\"}");
    assert!(r.is_err());
}

#[test]
fn get_ok_json_rejects_unparsable_body() {
    let r = get_ok_json(Endpoint::GetManga("abc".to_string()), 200, "not json at all");
    let e = r.err().unwrap();
    assert_eq!(
        e.message().as_str(),
        "api error\n\nendpoint: /manga/abc\nstatus code: 200\n(missing 'errors' field, couldn't gather more info)\n"
    );
}

#[test]
fn get_ok_json_reports_upstream_error_details() {
    let body = "{\"result\":\"error\",\"errors\":[{\"title\":\"T\",\"detail\":\"D\"}]}";
    let r = get_ok_json(Endpoint::GetManga("abc".to_string()), 400, body);
    let e = r.err().unwrap();
    assert_eq!(
        e.message().as_str(),
        "api error; displaying 1 of 1\n\nendpoint: /manga/abc\nstatus code: 400\ntitle: T\ndetail: D\n"
    );
    assert_eq!(e.help_text().as_str(), "check if this link is actually valid");
}

#[test]
fn get_ok_json_blank_when_errors_list_empty() {
    let body = "{\"result\":\"error\",\"errors\":[]}";
    let r = get_ok_json(Endpoint::GetChapter("x".to_string()), 503, body);
    let e = r.err().unwrap();
    assert_eq!(
        e.message().as_str(),
        "api error\n\nendpoint: /chapter/x\nstatus code: 503\n(missing 'errors' field, couldn't gather more info)\n"
    );
    assert_eq!(e.help_text().as_str(), "try again in a few minutes");
}
