//! The `/v1/domains` endpoints: sending domains, the DNS records to publish
//! for them, and the result of a verification check.
use vstd::prelude::*;

use crate::text::push_str;

verus! {

/// One record to publish for domain verification.
#[derive(Debug, Clone)]
pub struct DnsRecord {
    pub record_type: String,
    pub host: String,
    /// The relative name for the DNS provider's Name/Host field (apex = `@`).
    pub name: String,
    pub value: String,
    /// One of `spf`, `dkim`, `dmarc`, `mailfrom_mx`, or `mailfrom_spf`.
    pub purpose: String,
    pub required: bool,
}

/// A sending domain.
#[derive(Debug, Clone)]
pub struct Domain {
    pub id: String,
    pub domain: String,
    /// One of `pending`, `verified`, or `degraded`.
    pub status: String,
    pub dkim_selector: Option<String>,
    pub dns_records: Vec<DnsRecord>,
    pub verified_at: Option<String>,
    /// Whether the recommended SPF/DMARC/MAIL FROM records are also published.
    /// Distinct from `status`: a `verified` domain (DKIM only) still
    /// underperforms at Yahoo/Microsoft until this is true.
    pub deliverability_ready: bool,
    pub created_at: String,
}

/// One row of a domain verification check.
#[derive(Debug, Clone)]
pub struct DomainCheck {
    pub purpose: String,
    pub host: String,
    pub required: bool,
    pub pass: bool,
}

/// The result of a verification check.
#[derive(Debug, Clone)]
pub struct DomainVerification {
    pub id: String,
    pub domain: String,
    pub status: String,
    /// Whether SES has confirmed the identity. Lets callers tell "DNS passed but
    /// SES not yet confirmed" (`Some(false)`) from fully verified (`Some(true)`);
    /// `None` when the API does not report it.
    pub ses_verified: Option<bool>,
    pub deliverability_ready: bool,
    pub checks: Vec<DomainCheck>,
}

/// The path of one domain.
pub fn domain_path(id: &str) -> (r: String)
    ensures
        r@ == "/v1/domains/"@ + id@,
{
    let mut s = String::new();
    push_str(&mut s, "/v1/domains/");
    push_str(&mut s, id);
    s
}

/// The path that checks a domain's published DNS records.
pub fn domain_verify_path(id: &str) -> (r: String)
    ensures
        r@ == "/v1/domains/"@ + id@ + "/verify"@,
{
    let mut s = String::new();
    push_str(&mut s, "/v1/domains/");
    push_str(&mut s, id);
    push_str(&mut s, "/verify");
    s
}

} // verus!
