use sendbyte::emails::{email_path, list_path, urlencode};
use sendbyte::{Attachment, ListEmailsParams, ListUnsubscribe, SendEmailRequest};

#[test]
fn list_path_builds_query_string() {
    let params = ListEmailsParams::new().limit(20).status("delivered");
    assert_eq!(list_path(&params), "/v1/emails?limit=20&status=delivered");
}

#[test]
fn list_path_without_filters() {
    assert_eq!(list_path(&ListEmailsParams::new()), "/v1/emails");
    assert_eq!(list_path(&ListEmailsParams::default()), "/v1/emails");
}

#[test]
fn list_path_with_every_filter_in_order() {
    let params = ListEmailsParams::new()
        .status("bounced")
        .after("em_9 x")
        .limit(0);
    assert_eq!(list_path(&params), "/v1/emails?limit=0&after=em_9%20x&status=bounced");
    let params = ListEmailsParams::new().after("em_1");
    assert_eq!(list_path(&params), "/v1/emails?after=em_1");
    let params = ListEmailsParams::new().limit(u32::MAX);
    assert_eq!(list_path(&params), "/v1/emails?limit=4294967295");
}

#[test]
fn urlencode_keeps_unreserved_and_escapes_the_rest() {
    assert_eq!(urlencode("AZaz09-_.~"), "AZaz09-_.~");
    assert_eq!(urlencode("a b&c=d/e"), "a%20b%26c%3Dd%2Fe");
    assert_eq!(urlencode(""), "");
    assert_eq!(urlencode("é"), "%C3%A9");
    assert_eq!(urlencode("€"), "%E2%82%AC");
    assert_eq!(urlencode("%"), "%25");
}

#[test]
fn email_path_appends_the_id() {
    assert_eq!(email_path("em_123"), "/v1/emails/em_123");
}

#[test]
fn builders_set_each_field() {
    let req = SendEmailRequest::new("PayLink <receipts@paylink.ng>", vec!["amaka@halo.ng".to_string()])
        .subject("Receipt for your payment")
        .html("<p>Thank you.</p>")
        .text("Thank you.")
        .cc(vec!["cc@halo.ng".to_string()])
        .bcc(vec!["bcc@halo.ng".to_string()])
        .reply_to(vec!["help@paylink.ng".to_string()])
        .tags(vec!["receipt".to_string()])
        .scheduled_at("2026-07-01T00:00:00Z")
        .list_unsubscribe(ListUnsubscribe { url: Some("https://paylink.ng/u".to_string()), mailto: None })
        .attachment(Attachment {
            filename: "r.pdf".to_string(),
            content: "aGk=".to_string(),
            content_type: "application/pdf".to_string(),
        })
        .idempotency_key("key-1");
    assert_eq!(req.from, "PayLink <receipts@paylink.ng>");
    assert_eq!(req.to, vec!["amaka@halo.ng".to_string()]);
    assert_eq!(req.subject.as_deref(), Some("Receipt for your payment"));
    assert_eq!(req.html.as_deref(), Some("<p>Thank you.</p>"));
    assert_eq!(req.text.as_deref(), Some("Thank you."));
    assert_eq!(req.cc, vec!["cc@halo.ng".to_string()]);
    assert_eq!(req.bcc, vec!["bcc@halo.ng".to_string()]);
    assert_eq!(req.reply_to, vec!["help@paylink.ng".to_string()]);
    assert_eq!(req.tags, vec!["receipt".to_string()]);
    assert_eq!(req.scheduled_at.as_deref(), Some("2026-07-01T00:00:00Z"));
    assert_eq!(req.list_unsubscribe.as_ref().unwrap().url.as_deref(), Some("https://paylink.ng/u"));
    assert_eq!(req.attachments.len(), 1);
    assert_eq!(req.attachments[0].filename, "r.pdf");
    assert_eq!(req.idempotency_key.as_deref(), Some("key-1"));
    assert!(req.headers.is_empty());
}

#[test]
fn template_sets_id_and_variables() {
    let vars = serde_json::Value::Bool(true);
    let req = SendEmailRequest::new("a@b.ng", vec!["c@d.ng".to_string()]).template("tpl_1", vars.clone());
    assert_eq!(req.template_id.as_deref(), Some("tpl_1"));
    assert_eq!(req.variables, Some(vars));
}

#[test]
fn header_replaces_a_name_already_set() {
    let req = SendEmailRequest::new("a@b.ng", vec!["c@d.ng".to_string()])
        .header("X-Campaign", "spring")
        .header("X-Entity-Ref", "42")
        .header("X-Campaign", "summer");
    assert_eq!(
        req.headers,
        vec![
            ("X-Campaign".to_string(), "summer".to_string()),
            ("X-Entity-Ref".to_string(), "42".to_string()),
        ]
    );
}

#[test]
fn missing_idempotency_key_is_generated() {
    let req = SendEmailRequest::new("a@b.ng", vec!["c@d.ng".to_string()]).subject("Hi");
    assert!(req.idempotency_key.is_none());
    let sent = req.with_idempotency_key();
    let key = sent.idempotency_key.clone().unwrap();
    assert_eq!(key.len(), 36);
    assert_eq!(key.chars().nth(14), Some('4'));
    assert_eq!(key.matches('-').count(), 4);
    assert_eq!(sent.subject.as_deref(), Some("Hi"));
    // Each send gets its own key.
    let other = SendEmailRequest::new("a@b.ng", vec![]).with_idempotency_key();
    assert_ne!(other.idempotency_key.unwrap(), key);
}

#[test]
fn explicit_idempotency_key_is_kept() {
    let sent = SendEmailRequest::new("a@b.ng", vec![])
        .idempotency_key("mine")
        .with_idempotency_key();
    assert_eq!(sent.idempotency_key.as_deref(), Some("mine"));
}

#[test]
fn list_params_builders() {
    let p = ListEmailsParams::new();
    assert_eq!(p.limit, None);
    assert_eq!(p.after, None);
    assert_eq!(p.status, None);
    let p = p.limit(5).after("em_2").status("sent");
    assert_eq!(p.limit, Some(5));
    assert_eq!(p.after.as_deref(), Some("em_2"));
    assert_eq!(p.status.as_deref(), Some("sent"));
}

fn percent_decode(s: &str) -> Vec<u8> {
    let b = s.as_bytes();
    let mut out = Vec::new();
    let mut i = 0;
    while i < b.len() {
        if b[i] == b'%' {
            out.push(u8::from_str_radix(&s[i + 1..i + 3], 16).unwrap());
            i += 3;
        } else {
            out.push(b[i]);
            i += 1;
        }
    }
    out
}

#[test]
fn urlencode_round_trips_and_has_the_stated_length() {
    for value in ["a b", "naïve café", "100%", "~ok-._", "x&y=z#w", ""] {
        let enc = urlencode(value);
        assert_eq!(percent_decode(&enc), value.as_bytes());
        let escaped = value
            .bytes()
            .filter(|b| !(b.is_ascii_alphanumeric() || b"-_.~".contains(b)))
            .count();
        assert_eq!(enc.len(), value.len() + 2 * escaped);
    }
}
