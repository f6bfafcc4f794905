use sendbyte::error::ApiErrorFields;
use sendbyte::retry::{
    after_attempt, parse_retry_after, retry_after_wait_at, Attempt, AttemptResult, HttpMethod,
    NextStep, Request, MAX_BACKOFF_NANOS,
};
use sendbyte::Client;

fn attempt(number: u32) -> Attempt {
    Attempt {
        number,
        request: Request {
            method: HttpMethod::Post,
            url: "https://api.sendbyte.africa/v1/emails".to_string(),
            body: Some(b"{\"idempotency_key\":\"k1\"}".to_vec()),
        },
    }
}

const SEC: u128 = 1_000_000_000;
// 2015-10-21T07:28:00Z
const DATE_SECS: u128 = 1_445_412_480;

fn responded(status: u16, retry_after: Option<&str>, body: &[u8]) -> AttemptResult {
    AttemptResult::Responded {
        status,
        retry_after: retry_after.map(|s| s.to_string()),
        body: body.to_vec(),
        api_error: None,
    }
}

#[test]
fn retry_after_delta_seconds() {
    assert_eq!(retry_after_wait_at("2", 0), Some(2 * SEC));
    assert_eq!(retry_after_wait_at(" 7\t", 123), Some(7 * SEC));
    assert_eq!(retry_after_wait_at("-3", 0), Some(0));
    assert_eq!(retry_after_wait_at("", 0), None);
    assert_eq!(retry_after_wait_at("soon", 0), None);
    assert_eq!(retry_after_wait_at("1.5", 0), None);
}

#[test]
fn retry_after_http_date() {
    let date = "Wed, 21 Oct 2015 07:28:00 GMT";
    assert_eq!(retry_after_wait_at(date, (DATE_SECS - 10) * SEC), Some(10 * SEC));
    assert_eq!(retry_after_wait_at(date, DATE_SECS * SEC + 5), Some(0));
    assert_eq!(retry_after_wait_at("  Wed, 21 Oct 2015 07:28:00 GMT ", (DATE_SECS - 1) * SEC), Some(SEC));
    // Long past by now.
    assert_eq!(parse_retry_after(date), Some(0));
    assert_eq!(parse_retry_after("4"), Some(4 * SEC));
    assert_eq!(parse_retry_after("later"), None);
}

#[test]
fn first_attempt_is_number_one_at_the_full_address() {
    let client = Client::new("sk_test_1").unwrap();
    let first = client.first_attempt(HttpMethod::Get, "/v1/domains/dm_1", None);
    assert_eq!(first.number, 1);
    assert_eq!(first.request.method, HttpMethod::Get);
    assert_eq!(first.request.url, "https://api.sendbyte.africa/v1/domains/dm_1");
    assert_eq!(first.request.body, None);
}

#[test]
fn success_returns_the_body() {
    match after_attempt(attempt(1), 3, responded(200, None, b"{\"id\":\"em_1\"}")) {
        NextStep::Succeed(body) => assert_eq!(body, b"{\"id\":\"em_1\"}".to_vec()),
        _ => panic!("expected success"),
    }
    match after_attempt(attempt(3), 3, responded(204, None, b"")) {
        NextStep::Succeed(body) => assert!(body.is_empty()),
        _ => panic!("expected success"),
    }
}

#[test]
fn server_error_is_retried_while_attempts_remain() {
    match after_attempt(attempt(1), 3, responded(500, None, b"upstream boom")) {
        NextStep::Retry { attempt, delay_nanos } => {
            assert_eq!(attempt.number, 2);
            assert!(delay_nanos <= 250 * 1_000_000);
        }
        _ => panic!("expected a retry"),
    }
    match after_attempt(attempt(3), 3, responded(500, None, b"upstream boom")) {
        NextStep::Fail(err) => {
            assert_eq!(err.code, "request_failed");
            assert_eq!(err.message, "Request failed with status 500");
            assert_eq!(err.status, Some(500));
            assert!(err.is_retryable());
        }
        _ => panic!("expected failure"),
    }
}

#[test]
fn rate_limit_honors_retry_after() {
    match after_attempt(attempt(2), 5, responded(429, Some("3"), b"")) {
        NextStep::Retry { attempt, delay_nanos } => {
            assert_eq!(attempt.number, 3);
            assert_eq!(delay_nanos, 3 * SEC);
        }
        _ => panic!("expected a retry"),
    }
    match after_attempt(attempt(1), 2, responded(503, Some("3600"), b"")) {
        NextStep::Retry { delay_nanos, .. } => assert_eq!(delay_nanos, MAX_BACKOFF_NANOS),
        _ => panic!("expected a retry"),
    }
}

#[test]
fn client_error_fails_at_once_with_the_typed_error() {
    let result = AttemptResult::Responded {
        status: 422,
        retry_after: None,
        body: Vec::new(),
        api_error: Some(ApiErrorFields {
            code: Some("domain_taken".to_string()),
            message: Some("That domain is already registered.".to_string()),
            docs_url: Some("https://docs.sendbyte.africa/errors/domain_taken".to_string()),
        }),
    };
    match after_attempt(attempt(1), 3, result) {
        NextStep::Fail(err) => {
            assert_eq!(err.code, "domain_taken");
            assert_eq!(err.message, "That domain is already registered.");
            assert_eq!(err.status, Some(422));
            assert!(err.docs_url.is_some());
            assert!(!err.is_retryable());
        }
        _ => panic!("expected failure"),
    }
}

#[test]
fn transport_failure_is_retried_then_reported() {
    let unreachable = || AttemptResult::Unreachable { detail: "connection refused".to_string() };
    match after_attempt(attempt(1), 2, unreachable()) {
        NextStep::Retry { attempt, delay_nanos } => {
            assert_eq!(attempt.number, 2);
            assert!(delay_nanos <= 250 * 1_000_000);
        }
        _ => panic!("expected a retry"),
    }
    match after_attempt(attempt(2), 2, unreachable()) {
        NextStep::Fail(err) => {
            assert_eq!(err.code, "request_failed");
            assert_eq!(err.message, "Could not reach the SendByte API: connection refused");
            assert_eq!(err.status, None);
            assert!(!err.is_retryable());
        }
        _ => panic!("expected failure"),
    }
}

#[test]
fn a_single_attempt_budget_never_retries() {
    match after_attempt(attempt(1), 1, responded(502, Some("1"), b"<html>bad gateway</html>")) {
        NextStep::Fail(err) => assert_eq!(err.status, Some(502)),
        _ => panic!("expected failure"),
    }
}

#[test]
fn a_run_of_server_errors_stops_at_the_budget() {
    let max = 4;
    let client = Client::builder("sk_test_1").max_attempts(max).build().unwrap();
    let body = b"{\"idempotency_key\":\"k1\"}".to_vec();
    let mut current = client.first_attempt(HttpMethod::Post, "/v1/emails", Some(body.clone()));
    let mut attempts_made = 0;
    loop {
        attempts_made += 1;
        assert_eq!(current.number, attempts_made);
        assert_eq!(current.request.body.as_deref(), Some(body.as_slice()));
        assert_eq!(current.request.url, "https://api.sendbyte.africa/v1/emails");
        match after_attempt(current, max, responded(503, Some("0"), b"")) {
            NextStep::Retry { attempt: next, delay_nanos } => {
                assert_eq!(delay_nanos, 0);
                current = next;
            }
            NextStep::Fail(err) => {
                assert_eq!(err.status, Some(503));
                break;
            }
            NextStep::Succeed(_) => panic!("no success expected"),
        }
    }
    assert_eq!(attempts_made, max);
}
