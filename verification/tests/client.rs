use std::time::Duration;

use sendbyte::client::{is_secure_base_url, DEFAULT_BASE_URL, DEFAULT_MAX_ATTEMPTS};
use sendbyte::retry::{backoff_delay, backoff_window, MAX_BACKOFF_NANOS};
use sendbyte::Client;

#[test]
fn secure_base_url_rules() {
    assert!(is_secure_base_url("https://api.sendbyte.africa"));
    assert!(is_secure_base_url("http://localhost:8080"));
    assert!(is_secure_base_url("http://127.0.0.1:3000"));
    assert!(!is_secure_base_url("http://api.sendbyte.africa"));
    assert!(!is_secure_base_url("not a url"));
}

#[test]
fn backoff_is_capped_and_honors_retry_after() {
    assert_eq!(backoff_delay(1, Some("2")), Duration::from_secs(2).as_nanos());
    assert_eq!(backoff_delay(1, Some("999")), Duration::from_secs(20).as_nanos());
    assert_eq!(backoff_delay(1, Some("999")), MAX_BACKOFF_NANOS);
    for attempt in 1..=10 {
        assert!(backoff_delay(attempt, None) <= MAX_BACKOFF_NANOS);
    }
}

#[test]
fn live_key_requires_https() {
    let err = Client::builder("sk_live_abc")
        .base_url("http://api.sendbyte.africa")
        .build()
        .unwrap_err();
    assert_eq!(err.code, "insecure_base_url");
}

#[test]
fn rejects_bad_key_prefix() {
    let err = Client::new("bogus").unwrap_err();
    assert_eq!(err.code, "invalid_api_key");
}

#[test]
fn loopback_hosts_and_bad_urls() {
    assert!(is_secure_base_url("http://[::1]:8080"));
    assert!(is_secure_base_url("https://example.com"));
    assert!(!is_secure_base_url("ftp://example.com"));
    assert!(!is_secure_base_url("ftp://localhost"));
    assert!(!is_secure_base_url("ws://127.0.0.1:9000"));
    assert!(!is_secure_base_url("http://example.com"));
    assert!(!is_secure_base_url(""));
}

#[test]
fn test_key_builds_with_defaults() {
    let client = Client::new("sk_test_123").unwrap();
    assert_eq!(client.base_url(), DEFAULT_BASE_URL);
    assert_eq!(client.max_attempts(), DEFAULT_MAX_ATTEMPTS);
    assert_eq!(client.timeout(), Duration::from_secs(30));
    assert_eq!(client.url_for("/v1/emails"), "https://api.sendbyte.africa/v1/emails");
    assert_eq!(client.user_agent().to_str().unwrap(), "sendbyte-rust/0.2.0");
    assert_eq!(client.authorization().as_bytes(), b"Bearer sk_test_123");
    assert!(client.authorization().is_sensitive());
}

#[test]
fn debug_output_hides_the_key() {
    let client = Client::new("sk_test_secret_value").unwrap();
    let shown = format!("{client:?}");
    assert!(!shown.contains("sk_test_secret_value"));
}

#[test]
fn live_key_over_https_builds() {
    let client = Client::builder("sk_live_abc")
        .base_url("https://api.example.com///")
        .max_attempts(5)
        .timeout(Duration::from_secs(15))
        .build()
        .unwrap();
    assert_eq!(client.base_url(), "https://api.example.com");
    assert_eq!(client.max_attempts(), 5);
    assert_eq!(client.timeout(), Duration::from_secs(15));
}

#[test]
fn test_key_may_use_plain_http_anywhere() {
    let client = Client::builder("sk_test_abc")
        .base_url("http://api.sendbyte.africa/")
        .build()
        .unwrap();
    assert_eq!(client.base_url(), "http://api.sendbyte.africa");
}

#[test]
fn live_key_over_localhost_http_builds() {
    let client = Client::builder("sk_live_abc")
        .base_url("http://localhost:8080")
        .build()
        .unwrap();
    assert_eq!(client.url_for("/v1/domains"), "http://localhost:8080/v1/domains");
}

#[test]
fn zero_attempts_reads_as_one() {
    let client = Client::builder("sk_test_abc").max_attempts(0).build().unwrap();
    assert_eq!(client.max_attempts(), 1);
}

#[test]
fn key_with_a_newline_is_refused() {
    let err = Client::new("sk_test_a\nb").unwrap_err();
    assert_eq!(err.code, "invalid_api_key");
    assert_eq!(err.status, None);
}

#[test]
fn sandbox_and_live_constructors_check_the_prefix() {
    let err = Client::new_sandbox("sk_live_abc").unwrap_err();
    assert_eq!(err.code, "invalid_api_key");
    assert!(err.message.contains("sk_test_"));
    let err = Client::new_live("sk_test_abc").unwrap_err();
    assert_eq!(err.code, "invalid_api_key");
    assert!(err.message.contains("sk_live_"));
    assert!(Client::new_sandbox("sk_test_abc").is_ok());
    assert!(Client::new_live("sk_live_abc").is_ok());
}

#[test]
fn backoff_window_doubles_up_to_the_cap() {
    assert_eq!(backoff_window(1), 250);
    assert_eq!(backoff_window(2), 500);
    assert_eq!(backoff_window(3), 1000);
    assert_eq!(backoff_window(7), 16000);
    assert_eq!(backoff_window(8), 20000);
    assert_eq!(backoff_window(40), 20000);
    assert_eq!(backoff_window(u32::MAX), 20000);
}

#[test]
fn backoff_without_retry_after_stays_in_its_window() {
    for _ in 0..50 {
        let d = backoff_delay(1, None);
        assert!(d <= 250 * 1_000_000);
        assert_eq!(d % 1_000_000, 0);
    }
    for _ in 0..50 {
        assert!(backoff_delay(3, Some("soon")) <= 1000 * 1_000_000);
    }
}

#[test]
fn backoff_retry_after_negative_and_padded() {
    assert_eq!(backoff_delay(4, Some("-5")), 0);
    assert_eq!(backoff_delay(4, Some("  3 ")), Duration::from_secs(3).as_nanos());
    assert_eq!(backoff_delay(4, Some("+1")), Duration::from_secs(1).as_nanos());
}

#[test]
fn live_key_refused_over_other_schemes_to_localhost() {
    let err = Client::builder("sk_live_abc").base_url("ftp://localhost").build().unwrap_err();
    assert_eq!(err.code, "insecure_base_url");
    assert!(Client::builder("sk_test_abc").base_url("ftp://localhost").build().is_ok());
}

#[test]
fn debug_text_redacts_the_key() {
    let client = Client::new("sk_test_secret_value").unwrap();
    assert_eq!(
        client.debug_text(),
        "Client { base_url: \"https://api.sendbyte.africa\", max_attempts: 3, timeout: 30s, api_key: \"[redacted]\" }"
    );
    let client = Client::builder("sk_test_x")
        .base_url("http://localhost:8080/")
        .max_attempts(5)
        .timeout(Duration::from_millis(1500))
        .build()
        .unwrap();
    assert_eq!(
        client.debug_text(),
        "Client { base_url: \"http://localhost:8080\", max_attempts: 5, timeout: 1.5s, api_key: \"[redacted]\" }"
    );
}
