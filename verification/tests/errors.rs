use sendbyte::error::{error_from_response, is_retryable_status, ApiErrorFields};
use sendbyte::response::{discard_outcome, discard_response, response_json};
use sendbyte::Error;

fn fields(code: Option<&str>, message: Option<&str>, docs_url: Option<&str>) -> ApiErrorFields {
    ApiErrorFields {
        code: code.map(|s| s.to_string()),
        message: message.map(|s| s.to_string()),
        docs_url: docs_url.map(|s| s.to_string()),
    }
}

#[test]
fn retryable_statuses() {
    assert!(is_retryable_status(429));
    assert!(is_retryable_status(500));
    assert!(is_retryable_status(503));
    assert!(is_retryable_status(599));
    assert!(!is_retryable_status(600));
    assert!(!is_retryable_status(499));
    assert!(!is_retryable_status(404));
    assert!(!is_retryable_status(200));
}

#[test]
fn api_error_object_is_kept() {
    let err = error_from_response(
        Some(fields(
            Some("domain_taken"),
            Some("That domain is already registered."),
            Some("https://docs.sendbyte.africa/errors/domain_taken"),
        )),
        422,
    );
    assert_eq!(err.code, "domain_taken");
    assert_eq!(err.message, "That domain is already registered.");
    assert_eq!(err.docs_url.as_deref(), Some("https://docs.sendbyte.africa/errors/domain_taken"));
    assert_eq!(err.status, Some(422));
    assert!(!err.is_retryable());
}

#[test]
fn partial_error_object_is_filled_in() {
    let err = error_from_response(Some(fields(Some("rate_limited"), None, None)), 429);
    assert_eq!(err.code, "rate_limited");
    assert_eq!(err.message, "Request failed with status 429");
    assert!(err.is_retryable());

    let err = error_from_response(Some(fields(None, Some("Slow down."), Some("https://d"))), 429);
    assert_eq!(err.code, "request_failed");
    assert_eq!(err.message, "Slow down.");
    assert_eq!(err.docs_url.as_deref(), Some("https://d"));
}

#[test]
fn non_json_or_empty_error_bodies_give_the_status_line() {
    let err = error_from_response(None, 502);
    assert_eq!(err.code, "request_failed");
    assert_eq!(err.message, "Request failed with status 502");
    assert_eq!(err.docs_url, None);
    assert_eq!(err.status, Some(502));
    assert!(err.is_retryable());

    // An object with only a documentation link does not count.
    let err = error_from_response(Some(fields(None, None, Some("https://d"))), 400);
    assert_eq!(err.code, "request_failed");
    assert_eq!(err.message, "Request failed with status 400");
    assert_eq!(err.docs_url, None);
}

#[test]
fn local_errors_and_their_text() {
    let err = Error::new("invalid_request", "bad input");
    assert_eq!(err.status, None);
    assert!(!err.is_retryable());
    assert_eq!(err.describe(), "sendbyte: bad input (invalid_request)");

    let err = Error::insecure_base_url();
    assert_eq!(err.code, "insecure_base_url");
    assert_eq!(
        err.message,
        "Refusing to send a live API key (sk_live_) over an insecure base URL. Use https, or a test key for local http."
    );
    let err = Error::transport("timed out");
    assert_eq!(err.describe(), "sendbyte: Could not reach the SendByte API: timed out (request_failed)");
    let err = Error::undecodable_response("EOF");
    assert_eq!(err.code, "invalid_response");
    assert_eq!(err.message, "The API returned a response that could not be decoded: EOF");
    assert_eq!(Error::invalid_api_key().code, "invalid_api_key");
    assert_eq!(Error::invalid_live_key().code, "invalid_api_key");
    assert_eq!(Error::invalid_sandbox_key().code, "invalid_api_key");
}

#[test]
fn empty_success_body_reads_as_null() {
    assert_eq!(response_json(Vec::new()), b"null".to_vec());
    assert_eq!(response_json(b"{}".to_vec()), b"{}".to_vec());
}

#[test]
fn discarded_bodies_must_be_json() {
    assert!(discard_response(b"").is_ok());
    assert!(discard_response(b"{\"ok\":true}").is_ok());
    assert!(discard_response(b"null").is_ok());
    let err = discard_response(b"<html>").unwrap_err();
    assert_eq!(err.code, "invalid_response");
    assert!(!err.message.is_empty());
    assert!(discard_outcome(None).is_ok());
    let err = discard_outcome(Some("expected value".to_string())).unwrap_err();
    assert_eq!(err.code, "invalid_response");
    assert_eq!(err.message, "expected value");
}
