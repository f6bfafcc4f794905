use sendbyte::domains::{domain_path, domain_verify_path};
use sendbyte::webhooks::{webhook_path, webhook_replay_path, WireEvents};
use sendbyte::WebhookEvents;

#[test]
fn sentinel_all_means_every_event() {
    let events = WebhookEvents::from_wire(WireEvents::Sentinel("all".to_string()));
    assert_eq!(events, WebhookEvents::All);
    assert!(events.is_all());
    assert!(events.names().is_empty());
}

#[test]
fn a_list_names_its_events() {
    let events = WebhookEvents::from_wire(WireEvents::List(vec![
        "email.delivered".to_string(),
        "email.bounced".to_string(),
    ]));
    assert!(!events.is_all());
    assert_eq!(events.names(), ["email.delivered", "email.bounced"]);
}

#[test]
fn another_single_string_is_one_event() {
    let events = WebhookEvents::from_wire(WireEvents::Sentinel("email.sent".to_string()));
    assert_eq!(events, WebhookEvents::Only(vec!["email.sent".to_string()]));
    assert_eq!(events.names(), ["email.sent"]);
    let events = WebhookEvents::from_wire(WireEvents::Sentinel("ALL".to_string()));
    assert!(!events.is_all());
}

#[test]
fn an_empty_list_is_not_all() {
    let events = WebhookEvents::from_wire(WireEvents::List(Vec::new()));
    assert_eq!(events, WebhookEvents::Only(Vec::new()));
    assert!(!events.is_all());
    assert!(events.names().is_empty());
}

#[test]
fn endpoint_paths() {
    assert_eq!(webhook_path("wh_1"), "/v1/webhooks/wh_1");
    assert_eq!(webhook_replay_path("evt_123"), "/v1/webhooks/deliveries/evt_123/replay");
    assert_eq!(domain_path("dm_1"), "/v1/domains/dm_1");
    assert_eq!(domain_verify_path("dm_1"), "/v1/domains/dm_1/verify");
}
