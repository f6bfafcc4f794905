//! The `/v1/webhooks` endpoints: the subscription set of an endpoint and the
//! records the API returns.
use vstd::prelude::*;

use crate::text::{push_str, str_is};

verus! {

/// The set of events an endpoint subscribes to.
///
/// The API sends either the sentinel string `"all"` or a JSON array of event
/// names; this enum normalizes both (see [`WebhookEvents::from_wire`]).
#[derive(Debug, Clone, PartialEq, Eq)]
pub enum WebhookEvents {
    /// The endpoint receives every event.
    All,
    /// The endpoint receives only these named events.
    Only(Vec<String>),
}

/// The `events` field as the API sends it: a single string or a list of
/// strings.
#[derive(Debug, Clone)]
pub enum WireEvents {
    Sentinel(String),
    List(Vec<String>),
}

/// The subscribed event names: none for every event.
pub open spec fn event_names(e: WebhookEvents) -> Seq<String> {
    match e {
        WebhookEvents::All => Seq::empty(),
        WebhookEvents::Only(names) => names@,
    }
}

impl WebhookEvents {
    /// Whether the endpoint subscribes to every event.
    pub fn is_all(&self) -> (r: bool)
        ensures
            r == (*self is All),
    {
        match self {
            WebhookEvents::All => true,
            WebhookEvents::Only(_) => false,
        }
    }

    /// The subscribed event names, or an empty slice when subscribed to all.
    pub fn names(&self) -> (r: &[String])
        ensures
            r@ == event_names(*self),
    {
        match self {
            WebhookEvents::All => &[],
            WebhookEvents::Only(names) => names.as_slice(),
        }
    }

    /// Reads the wire form: the sentinel `"all"` is every event, any other
    /// single string is that one event, and a list is those events.
    pub fn from_wire(raw: WireEvents) -> (r: WebhookEvents)
        ensures
            match raw {
                WireEvents::Sentinel(s) => if s@ == "all"@ {
                    r is All
                } else {
                    r matches WebhookEvents::Only(v) && v@.len() == 1 && v@[0] == s
                },
                WireEvents::List(list) => r == WebhookEvents::Only(list),
            },
    {
        match raw {
            WireEvents::Sentinel(s) => {
                if str_is(s.as_str(), "all") {
                    WebhookEvents::All
                } else {
                    let mut v: Vec<String> = Vec::new();
                    v.push(s);
                    WebhookEvents::Only(v)
                }
            },
            WireEvents::List(list) => WebhookEvents::Only(list),
        }
    }
}

/// A registered webhook destination.
#[derive(Debug, Clone)]
pub struct WebhookEndpoint {
    pub id: String,
    pub url: String,
    pub events: WebhookEvents,
    pub disabled: bool,
    /// When the endpoint was auto-disabled after chronic delivery failures, else
    /// `None`.
    pub disabled_at: Option<String>,
    /// Consecutive failed deliveries; resets to 0 on a success. Watch it to warn
    /// before auto-disable.
    pub consecutive_failures: i64,
    pub created_at: String,
    /// Present only on creation. Store it; it is never shown again.
    pub secret: Option<String>,
}

/// The result of replaying a past delivery.
#[derive(Debug, Clone)]
pub struct WebhookReplay {
    pub id: String,
    pub replay_of: String,
    pub status: String,
}

/// The path of one endpoint, used to disable it.
pub fn webhook_path(id: &str) -> (r: String)
    ensures
        r@ == "/v1/webhooks/"@ + id@,
{
    let mut s = String::new();
    push_str(&mut s, "/v1/webhooks/");
    push_str(&mut s, id);
    s
}

/// The path that replays a past delivery.
pub fn webhook_replay_path(delivery_id: &str) -> (r: String)
    ensures
        r@ == "/v1/webhooks/deliveries/"@ + delivery_id@ + "/replay"@,
{
    let mut s = String::new();
    push_str(&mut s, "/v1/webhooks/deliveries/");
    push_str(&mut s, delivery_id);
    push_str(&mut s, "/replay");
    s
}

} // verus!
