use hmac::{Hmac, Mac};
use sha2::Sha256;

use sendbyte::signature::verify_at;
use sendbyte::{verify_webhook_signature, verify_webhook_signature_with_tolerance, SIGNATURE_HEADER};

fn sign(secret: &str, timestamp: i64, body: &[u8]) -> String {
    let mut mac = Hmac::<Sha256>::new_from_slice(secret.as_bytes()).unwrap();
    mac.update(format!("{timestamp}.").as_bytes());
    mac.update(body);
    let sig = hex::encode(mac.finalize().into_bytes());
    format!("t={timestamp},v1={sig}")
}

#[test]
fn accepts_a_valid_signature() {
    let secret = "whsec_test";
    let body = br#"{"type":"email.delivered"}"#;
    let header = sign(secret, 1000, body);
    assert!(verify_at(secret, Some(&header), body, 300, 1000));
}

#[test]
fn rejects_tampered_body() {
    let secret = "whsec_test";
    let header = sign(secret, 1000, b"original");
    assert!(!verify_at(secret, Some(&header), b"tampered", 300, 1000));
}

#[test]
fn rejects_stale_and_missing_and_malformed() {
    let secret = "whsec_test";
    let body = b"payload";
    let header = sign(secret, 1000, body);
    assert!(!verify_at(secret, Some(&header), body, 300, 2000));
    assert!(!verify_at(secret, None, body, 300, 1000));
    assert!(!verify_at(secret, Some("garbage"), body, 300, 1000));
    assert!(!verify_at(secret, Some("t=1000"), body, 300, 1000));
}

#[test]
fn tolerance_is_inclusive_on_both_sides() {
    let secret = "whsec_test";
    let body = b"payload";
    let header = sign(secret, 1000, body);
    assert!(verify_at(secret, Some(&header), body, 300, 1300));
    assert!(verify_at(secret, Some(&header), body, 300, 700));
    assert!(!verify_at(secret, Some(&header), body, 300, 1301));
    assert!(!verify_at(secret, Some(&header), body, 300, 699));
    assert!(!verify_at(secret, Some(&header), body, 300, i64::MIN));
    assert!(!verify_at(secret, Some(&header), body, -1, 1000));
}

#[test]
fn wrong_secret_is_rejected() {
    let header = sign("whsec_a", 1000, b"x");
    assert!(!verify_at("whsec_b", Some(&header), b"x", 300, 1000));
}

#[test]
fn header_parts_may_come_in_any_order_with_spaces() {
    let secret = "whsec_test";
    let body = b"payload";
    let header = sign(secret, 1000, body);
    let sig = header.split(",v1=").nth(1).unwrap().to_string();
    let reordered = format!("v1= {sig} ,t= 1000 ,x=y,junk");
    assert!(verify_at(secret, Some(&reordered), body, 300, 1000));
    let upper = format!("t=1000,v1={}", sig.to_uppercase());
    assert!(verify_at(secret, Some(&upper), body, 300, 1000));
}

#[test]
fn last_repeated_part_wins() {
    let secret = "whsec_test";
    let body = b"payload";
    let good = sign(secret, 1000, body);
    let sig = good.split(",v1=").nth(1).unwrap().to_string();
    let header = format!("t=5,v1=00,t=1000,v1={sig}");
    assert!(verify_at(secret, Some(&header), body, 300, 1000));
    let header = format!("t=1000,v1={sig},v1=00");
    assert!(!verify_at(secret, Some(&header), body, 300, 1000));
}

#[test]
fn non_hex_or_odd_signatures_are_rejected() {
    assert!(!verify_at("s", Some("t=1,v1=zz"), b"", 300, 1));
    assert!(!verify_at("s", Some("t=1,v1=abc"), b"", 300, 1));
    assert!(!verify_at("s", Some("t=1,v1="), b"", 300, 1));
    assert!(!verify_at("s", Some("t=x,v1=00"), b"", 300, 1));
}

#[test]
fn the_documented_example_is_rejected() {
    let ok = verify_webhook_signature("whsec_secret", Some("t=1,v1=deadbeef"), b"{}");
    assert!(!ok);
    assert_eq!(SIGNATURE_HEADER, "sendbyte-signature");
}

#[test]
fn a_fresh_signature_passes_against_the_clock() {
    let now = std::time::SystemTime::now()
        .duration_since(std::time::UNIX_EPOCH)
        .unwrap()
        .as_secs() as i64;
    let header = sign("whsec_live", now, b"{\"id\":1}");
    assert!(verify_webhook_signature("whsec_live", Some(&header), b"{\"id\":1}"));
    assert!(verify_webhook_signature_with_tolerance("whsec_live", Some(&header), b"{\"id\":1}", 60));
    let old = sign("whsec_live", now - 3600, b"{}");
    assert!(!verify_webhook_signature("whsec_live", Some(&old), b"{}"));
    assert!(verify_webhook_signature_with_tolerance("whsec_live", Some(&old), b"{}", 7200));
}
