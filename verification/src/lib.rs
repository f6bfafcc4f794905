//! A verified core for a client of [SendByte](https://sendbyte.africa), the
//! email API for Africa.
//!
//! The library holds what a client decides and computes: which API keys and
//! base URLs are accepted, the request paths and query strings, the send
//! payload and its idempotency key, the retry policy (which outcomes are
//! retried, after how long, and what error a failure becomes), and the
//! verification of webhook signatures. Sending requests and decoding JSON
//! into these types is left to the caller.
pub mod client;
pub mod clock;
pub mod domains;
pub mod emails;
pub mod error;
pub mod response;
pub mod retry;
pub mod signature;
pub mod text;
pub mod webhooks;

pub use client::{Client, ClientBuilder};
pub use domains::{DnsRecord, Domain, DomainCheck, DomainVerification};
pub use emails::{
    Attachment, Email, EmailDetail, EmailEvent, EmailList, ListEmailsParams, ListUnsubscribe,
    SendEmailRequest,
};
pub use error::{Error, Result};
pub use signature::{verify_webhook_signature, verify_webhook_signature_with_tolerance, SIGNATURE_HEADER};
pub use webhooks::{WebhookEndpoint, WebhookEvents, WebhookReplay};
