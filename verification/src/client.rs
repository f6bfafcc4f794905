//! The client configuration: key and base URL validation, and the settings
//! every request is made with.
use std::sync::Arc;
use std::time::Duration;

use reqwest::header::HeaderValue;
use reqwest::Client as HttpClient;
use vstd::prelude::*;
use vstd::utf8::encode_utf8;

use crate::error::{
    insecure_base_url_error, invalid_api_key_error, invalid_live_key_error,
    invalid_sandbox_key_error, local_error, Error, ErrorView,
};
use crate::retry::{Attempt, HttpMethod, Request};
use crate::text::{
    ascii_chars, char_vec, decimal_digits, push_decimal_chars, push_str, starts_with, str_is,
    trim_end_char, without_trailing,
};

verus! {

#[verifier::external_type_specification]
#[verifier::external_body]
pub struct ExHttpClient(HttpClient);

#[verifier::external_type_specification]
#[verifier::external_body]
pub struct ExHeaderValue(HeaderValue);

/// The API host requests go to unless overridden.
pub const DEFAULT_BASE_URL: &'static str = "https://api.sendbyte.africa";

/// The version this client reports in its `User-Agent`.
pub const VERSION: &'static str = "0.2.0";

/// Attempts per request, the first included, unless overridden.
pub const DEFAULT_MAX_ATTEMPTS: u32 = 3;

/// The per-attempt timeout, in seconds, unless overridden.
pub const DEFAULT_TIMEOUT_SECS: u64 = 30;

// ---------------------------------------------------------------------------
// Keys
// ---------------------------------------------------------------------------

/// Whether a key is a live key.
pub open spec fn is_live_key(key: Seq<char>) -> bool {
    "sk_live_"@.len() <= key.len() && key.take("sk_live_"@.len() as int) == "sk_live_"@
}

/// Whether a key is a sandbox key.
pub open spec fn is_test_key(key: Seq<char>) -> bool {
    "sk_test_"@.len() <= key.len() && key.take("sk_test_"@.len() as int) == "sk_test_"@
}

// ---------------------------------------------------------------------------
// Base URLs
// ---------------------------------------------------------------------------

/// The scheme and host of a URL as `url::Url::parse` reads them (the scheme
/// lower-cased, the host normalised), or `None` when the text is no URL.
pub uninterp spec fn parsed_url(text: Seq<char>) -> Option<(Seq<char>, Option<Seq<char>>)>;

/// The view of a scheme and an optional host.
pub open spec fn url_parts(parts: Option<(String, Option<String>)>) -> Option<
    (Seq<char>, Option<Seq<char>>),
> {
    match parts {
        Some((scheme, host)) => Some((scheme@, crate::error::opt_string(host))),
        None => None,
    }
}

/// Parses a URL with `reqwest::Url::parse` (the `url` crate) and returns its
/// scheme and host.
#[verifier::external_body]
fn url_scheme_and_host(text: &str) -> (r: Option<(String, Option<String>)>)
    ensures
        url_parts(r) == parsed_url(text@),
{
    match reqwest::Url::parse(text) {
        Ok(url) => Some((url.scheme().to_string(), url.host_str().map(|h| h.to_string()))),
        Err(_) => None,
    }
}

/// The development hosts on which plain http is tolerated: localhost and the
/// loopback addresses.
pub open spec fn is_loopback_host(host: Option<Seq<char>>) -> bool {
    ||| host == Some("localhost"@)
    ||| host == Some("127.0.0.1"@)
    ||| host == Some("::1"@)
    ||| host == Some("[::1]"@)
}

/// https is required; http is tolerated only for localhost and loopback
/// development hosts. Any other scheme is refused.
pub open spec fn secure_url(parts: Option<(Seq<char>, Option<Seq<char>>)>) -> bool {
    match parts {
        None => false,
        Some((scheme, host)) => {
            ||| scheme == "https"@
            ||| scheme == "http"@ && is_loopback_host(host)
        },
    }
}

/// Whether a parsed URL is secure enough to carry a live key.
pub fn is_secure_url_parts(parts: &Option<(String, Option<String>)>) -> (r: bool)
    ensures
        r == secure_url(url_parts(*parts)),
{
    match parts {
        None => false,
        Some((scheme, host)) => {
            if str_is(scheme.as_str(), "https") {
                return true;
            }
            if !str_is(scheme.as_str(), "http") {
                return false;
            }
            match host {
                None => false,
                Some(h) => {
                    let h = h.as_str();
                    str_is(h, "localhost") || str_is(h, "127.0.0.1") || str_is(h, "::1") || str_is(
                        h,
                        "[::1]",
                    )
                },
            }
        },
    }
}

/// Whether a base URL is secure enough to carry a live key: https, or http
/// to a localhost or loopback host.
pub fn is_secure_base_url(base_url: &str) -> (r: bool)
    ensures
        r == secure_url(parsed_url(base_url@)),
{
    let parts = url_scheme_and_host(base_url);
    is_secure_url_parts(&parts)
}

// ---------------------------------------------------------------------------
// Header values
// ---------------------------------------------------------------------------

/// The bytes an HTTP header value may hold: visible ASCII, space, tab and any
/// byte from 0x80 on.
pub open spec fn header_byte_ok(b: u8) -> bool {
    (b >= 32 && b != 127) || b == 9
}

/// Whether text can be an HTTP header value.
pub open spec fn header_text_ok(text: Seq<char>) -> bool {
    forall|i: int|
        0 <= i < encode_utf8(text).len() ==> header_byte_ok(#[trigger] encode_utf8(text)[i])
}

/// The bytes a header value holds.
pub uninterp spec fn header_bytes(value: HeaderValue) -> Seq<u8>;

/// Whether a header value is marked sensitive, which makes its `Debug` form
/// read `Sensitive`.
pub uninterp spec fn header_sensitive(value: HeaderValue) -> bool;

/// `HeaderValue::from_str`, which accepts exactly the texts whose every byte
/// is visible ASCII, a space, a tab, or from 0x80 on. The value it makes holds
/// a copy of the text's UTF-8 bytes and is not marked sensitive.
#[verifier::external_body]
fn header_value(text: &str) -> (r: Option<HeaderValue>)
    ensures
        r is Some <==> header_text_ok(text@),
        r matches Some(h) ==> header_bytes(h) == encode_utf8(text@) && !header_sensitive(h),
{
    HeaderValue::from_str(text).ok()
}

proof fn lemma_visible_char(c: char)
    requires
        32 <= (c as u32) <= 126,
    ensures
        '\0' <= c <= '\u{7f}',
        32 <= (c as u8) && (c as u8) <= 126,
{
}

/// Text of visible ASCII characters is a valid header value.
proof fn lemma_visible_ascii_header_ok(text: Seq<char>)
    requires
        forall|i: int| 0 <= i < text.len() ==> 32 <= (#[trigger] text[i]) as u32 <= 126,
    ensures
        header_text_ok(text),
{
    assert(vstd::utf8::is_ascii_chars(text)) by {
        assert forall|i: int| 0 <= i < text.len() implies '\0' <= #[trigger] text[i] <= '\u{7f}' by {
            lemma_visible_char(text[i]);
        }
    }
    vstd::utf8::is_ascii_chars_encode_utf8(text);
    assert forall|i: int| 0 <= i < encode_utf8(text).len() implies header_byte_ok(
        #[trigger] encode_utf8(text)[i],
    ) by {
        assert(text[i] as u8 == encode_utf8(text)[i]);
        lemma_visible_char(text[i]);
    }
}

/// `sendbyte-rust/<version>` is a valid header value.
proof fn lemma_user_agent_ok(text: Seq<char>)
    requires
        text == Seq::<char>::empty() + "sendbyte-rust/"@ + VERSION@,
    ensures
        header_text_ok(text),
{
    reveal_strlit("sendbyte-rust/");
    reveal_strlit("0.2.0");
    assert(text =~= seq![
        's', 'e', 'n', 'd', 'b', 'y', 't', 'e', '-', 'r', 'u', 's', 't', '/', '0', '.', '2', '.', '0',
    ]);
    lemma_visible_ascii_header_ok(text);
}

/// `HeaderValue::set_sensitive(true)`: marks the value sensitive, which keeps
/// it out of debug output; the bytes stay as they were.
#[verifier::external_body]
fn mark_sensitive(value: &mut HeaderValue)
    ensures
        header_bytes(*final(value)) == header_bytes(*old(value)),
        header_sensitive(*final(value)),
{
    value.set_sensitive(true);
}

/// The length of a duration in nanoseconds, as `Duration::as_nanos` gives it.
pub uninterp spec fn duration_nanos(d: Duration) -> nat;

/// `Duration::from_secs`: a duration of `n` whole seconds. It cannot fail.
#[verifier::external_body]
fn seconds(n: u64) -> (r: Duration)
    ensures
        duration_nanos(r) == n * 1_000_000_000,
{
    Duration::from_secs(n)
}

/// How `Debug` writes a string: quoted, with quotes, backslashes and
/// control characters escaped.
pub uninterp spec fn str_debug_text(text: Seq<char>) -> Seq<char>;

/// How `Debug` writes a duration of this many nanoseconds, such as `30s`.
pub uninterp spec fn duration_debug_text(nanos: nat) -> Seq<char>;

/// The `Debug` form of a string slice, through `format!("{:?}")`.
#[verifier::external_body]
fn debug_str(text: &str) -> (r: String)
    ensures
        r@ == str_debug_text(text@),
{
    format!("{text:?}")
}

/// The `Debug` form of a duration, through `format!("{:?}")`; it depends on
/// the length of the duration alone.
#[verifier::external_body]
fn debug_duration(d: Duration) -> (r: String)
    ensures
        r@ == duration_debug_text(duration_nanos(d)),
{
    format!("{d:?}")
}

/// The one-line description of a client: its base URL, retry budget and
/// timeout, with the key shown only as `[redacted]`.
pub open spec fn client_debug_text(base_url: Seq<char>, attempts: u32, timeout: Duration) -> Seq<char> {
    "Client { base_url: "@ + str_debug_text(base_url) + ", max_attempts: "@ + ascii_chars(
        decimal_digits(attempts as nat),
    ) + ", timeout: "@ + duration_debug_text(duration_nanos(timeout))
        + ", api_key: \"[redacted]\" }"@
}

/// A `reqwest::Client` with default settings, from `reqwest::Client::builder`;
/// `None` when no TLS backend or resolver could be set up.
#[verifier::external_body]
fn default_http_client() -> Option<HttpClient> {
    HttpClient::builder().build().ok()
}

/// The error when no HTTP client could be set up.
pub open spec fn http_client_error() -> ErrorView {
    local_error("request_failed"@, "Could not set up the HTTP client."@)
}

// ---------------------------------------------------------------------------
// The client
// ---------------------------------------------------------------------------

/// What building a client with this key, base URL, retry budget and
/// (injected or default) HTTP client gives. A key that is neither live nor a
/// sandbox key is refused; a live key needs a secure base URL; `Bearer <key>`
/// must be a valid header value. Otherwise the client carries the base URL and
/// the budget, unless no default HTTP client could be set up (which depends on
/// the machine, not on the arguments).
pub open spec fn build_outcome(
    key: Seq<char>,
    url: Seq<char>,
    attempts: u32,
    timeout: Duration,
    injected_http: Option<HttpClient>,
    r: Result<Client, Error>,
) -> bool {
    if !is_live_key(key) && !is_test_key(key) {
        r matches Err(e) && e@ == invalid_api_key_error()
    } else if is_live_key(key) && !secure_url(parsed_url(url)) {
        r matches Err(e) && e@ == insecure_base_url_error()
    } else if !header_text_ok("Bearer "@ + key) {
        r matches Err(e) && e@ == invalid_api_key_error()
    } else {
        match r {
            Ok(c) => {
                &&& c.base_url_view() == url
                &&& c.attempts() == attempts
                &&& c.attempts() >= 1
                &&& c.timeout_setting() == timeout
                &&& header_bytes(c.authorization_header()) == encode_utf8("Bearer "@ + key)
                &&& header_sensitive(c.authorization_header())
                &&& header_bytes(c.user_agent_header()) == encode_utf8("sendbyte-rust/"@ + VERSION@)
                &&& !header_sensitive(c.user_agent_header())
                &&& injected_http matches Some(h) ==> c.http_client_value() == h
            },
            Err(e) => injected_http is None && e@ == http_client_error(),
        }
    }
}

/// The key itself is not kept: only the `Authorization` header made from it,
/// which is marked sensitive and so prints as `Sensitive` in debug output.
#[derive(Debug)]
struct ClientInner {
    base_url: String,
    http: HttpClient,
    max_attempts: u32,
    timeout: Duration,
    auth: HeaderValue,
    user_agent: HeaderValue,
}

/// The SendByte API client: the settings every request is made with.
///
/// A `Client` is cheap to clone (it is a handle around a shared, connection
/// pooled `reqwest::Client`), so pass clones around freely rather than
/// building a new one per request.
#[derive(Clone, Debug)]
pub struct Client {
    inner: Arc<ClientInner>,
}

/// Builder for a [`Client`]. Obtain one from [`Client::builder`].
pub struct ClientBuilder {
    api_key: String,
    base_url: String,
    http: Option<HttpClient>,
    max_attempts: u32,
    timeout: Duration,
}

impl ClientInner {
    /// A client allows at least one attempt per request.
    #[verifier::type_invariant]
    spec fn well_formed(&self) -> bool {
        self.max_attempts >= 1
    }
}

impl Client {
    /// The API host requests go to.
    pub closed spec fn base_url_view(&self) -> Seq<char> {
        self.inner.base_url@
    }

    /// The attempts each request may take.
    pub closed spec fn attempts(&self) -> u32 {
        self.inner.max_attempts
    }

    /// The per-attempt timeout.
    pub closed spec fn timeout_setting(&self) -> Duration {
        self.inner.timeout
    }

    /// The HTTP client requests are sent with.
    pub closed spec fn http_client_value(&self) -> HttpClient {
        self.inner.http
    }

    /// The `Authorization` header requests carry.
    pub closed spec fn authorization_header(&self) -> HeaderValue {
        self.inner.auth
    }

    /// The `User-Agent` header requests carry.
    pub closed spec fn user_agent_header(&self) -> HeaderValue {
        self.inner.user_agent
    }

    /// Creates a client. The key must start with `sk_live_` or `sk_test_`.
    ///
    /// Keys that start with `sk_test_` run in the sandbox: every endpoint
    /// behaves the same, but nothing is actually delivered.
    pub fn new(api_key: &str) -> (r: Result<Client, Error>)
        ensures
            exists|timeout: Duration|
                duration_nanos(timeout) == DEFAULT_TIMEOUT_SECS * 1_000_000_000 && build_outcome(
                    api_key@,
                    DEFAULT_BASE_URL@,
                    DEFAULT_MAX_ATTEMPTS,
                    timeout,
                    None,
                    r,
                ),
    {
        let b = Self::builder(api_key);
        let ghost timeout = b.timeout_setting();
        let r = b.build();
        assert(build_outcome(api_key@, DEFAULT_BASE_URL@, DEFAULT_MAX_ATTEMPTS, timeout, None, r));
        r
    }

    /// Creates a sandbox client. The key must start with `sk_test_`.
    pub fn new_sandbox(api_key: &str) -> (r: Result<Client, Error>)
        ensures
            !is_test_key(api_key@) ==> (r matches Err(e) && e@ == invalid_sandbox_key_error()),
            is_test_key(api_key@) ==> exists|timeout: Duration|
                duration_nanos(timeout) == DEFAULT_TIMEOUT_SECS * 1_000_000_000 && build_outcome(
                api_key@,
                DEFAULT_BASE_URL@,
                DEFAULT_MAX_ATTEMPTS,
                timeout,
                None,
                r,
            ),
    {
        let key = char_vec(api_key);
        if !starts_with(&key, "sk_test_") {
            return Err(Error::invalid_sandbox_key());
        }
        let b = Self::builder(api_key);
        let ghost timeout = b.timeout_setting();
        let r = b.build();
        assert(build_outcome(api_key@, DEFAULT_BASE_URL@, DEFAULT_MAX_ATTEMPTS, timeout, None, r));
        r
    }

    /// Creates a live client. The key must start with `sk_live_`.
    pub fn new_live(api_key: &str) -> (r: Result<Client, Error>)
        ensures
            !is_live_key(api_key@) ==> (r matches Err(e) && e@ == invalid_live_key_error()),
            is_live_key(api_key@) ==> exists|timeout: Duration|
                duration_nanos(timeout) == DEFAULT_TIMEOUT_SECS * 1_000_000_000 && build_outcome(
                api_key@,
                DEFAULT_BASE_URL@,
                DEFAULT_MAX_ATTEMPTS,
                timeout,
                None,
                r,
            ),
    {
        let key = char_vec(api_key);
        if !starts_with(&key, "sk_live_") {
            return Err(Error::invalid_live_key());
        }
        let b = Self::builder(api_key);
        let ghost timeout = b.timeout_setting();
        let r = b.build();
        assert(build_outcome(api_key@, DEFAULT_BASE_URL@, DEFAULT_MAX_ATTEMPTS, timeout, None, r));
        r
    }

    /// Starts a [`ClientBuilder`] to override the base URL, HTTP client,
    /// retry budget, or timeout.
    pub fn builder(api_key: &str) -> (b: ClientBuilder)
        ensures
            b.key() == api_key@,
            b.url() == DEFAULT_BASE_URL@,
            b.attempts() == DEFAULT_MAX_ATTEMPTS,
            b.injected_http() is None,
            duration_nanos(b.timeout_setting()) == DEFAULT_TIMEOUT_SECS * 1_000_000_000,
    {
        ClientBuilder {
            api_key: api_key.to_owned(),
            base_url: DEFAULT_BASE_URL.to_owned(),
            http: None,
            max_attempts: DEFAULT_MAX_ATTEMPTS,
            timeout: seconds(DEFAULT_TIMEOUT_SECS),
        }
    }

    /// The API host requests go to, without a trailing slash.
    pub fn base_url(&self) -> (r: &str)
        ensures
            r@ == self.base_url_view(),
    {
        self.inner.base_url.as_str()
    }

    /// The address of `path` on the API host: the base URL followed by the
    /// path.
    pub fn url_for(&self, path: &str) -> (r: String)
        ensures
            r@ == self.base_url_view() + path@,
    {
        let mut s = String::new();
        push_str(&mut s, self.inner.base_url.as_str());
        push_str(&mut s, path);
        s
    }

    /// The first attempt of a request: number 1, sending `method` to the
    /// address of `path` with `body`. Every retry sends this same request.
    pub fn first_attempt(&self, method: HttpMethod, path: &str, body: Option<Vec<u8>>) -> (a:
        Attempt)
        ensures
            a.number == 1,
            a.number <= self.attempts(),
            a.request.method == method,
            a.request.url@ == self.base_url_view() + path@,
            a.request.body == body,
    {
        let inner: &ClientInner = &self.inner;
        proof {
            use_type_invariant(inner);
        }
        Attempt { number: 1, request: Request { method, url: self.url_for(path), body } }
    }

    /// Describes the client for logs and debugging: its base URL, retry
    /// budget and timeout, with the key never shown, as
    /// `Client { base_url: "...", max_attempts: 3, timeout: 30s, api_key: "[redacted]" }`.
    pub fn debug_text(&self) -> (r: String)
        ensures
            r@ == client_debug_text(self.base_url_view(), self.attempts(), self.timeout_setting()),
    {
        let mut s = String::new();
        push_str(&mut s, "Client { base_url: ");
        let url = debug_str(self.inner.base_url.as_str());
        push_str(&mut s, url.as_str());
        push_str(&mut s, ", max_attempts: ");
        push_decimal_chars(&mut s, self.inner.max_attempts as u64);
        push_str(&mut s, ", timeout: ");
        let timeout = debug_duration(self.inner.timeout);
        push_str(&mut s, timeout.as_str());
        push_str(&mut s, ", api_key: \"[redacted]\" }");
        assert(s@ =~= client_debug_text(
            self.base_url_view(),
            self.attempts(),
            self.timeout_setting(),
        ));
        s
    }

    /// The attempts each request may take, the first included.
    pub fn max_attempts(&self) -> (r: u32)
        ensures
            r == self.attempts(),
            r >= 1,
    {
        let inner: &ClientInner = &self.inner;
        proof {
            use_type_invariant(inner);
        }
        inner.max_attempts
    }

    /// The HTTP client requests are sent with.
    pub fn http(&self) -> (r: &HttpClient)
        ensures
            *r == self.http_client_value(),
    {
        &self.inner.http
    }

    /// The per-attempt timeout.
    pub fn timeout(&self) -> (r: Duration)
        ensures
            r == self.timeout_setting(),
    {
        self.inner.timeout
    }

    /// The `Authorization` header: `Bearer <key>`, marked sensitive.
    pub fn authorization(&self) -> (r: &HeaderValue)
        ensures
            *r == self.authorization_header(),
    {
        &self.inner.auth
    }

    /// The `User-Agent` header: `sendbyte-rust/<version>`.
    pub fn user_agent(&self) -> (r: &HeaderValue)
        ensures
            *r == self.user_agent_header(),
    {
        &self.inner.user_agent
    }
}

impl ClientBuilder {
    /// A builder always allows at least one attempt per request.
    #[verifier::type_invariant]
    spec fn well_formed(&self) -> bool {
        self.max_attempts >= 1
    }

    /// The key the client will use.
    pub closed spec fn key(&self) -> Seq<char> {
        self.api_key@
    }

    /// The API host the client will use.
    pub closed spec fn url(&self) -> Seq<char> {
        self.base_url@
    }

    /// The attempts per request the client will allow.
    pub closed spec fn attempts(&self) -> u32 {
        self.max_attempts
    }

    /// The per-attempt timeout the client will use.
    pub closed spec fn timeout_setting(&self) -> Duration {
        self.timeout
    }

    /// The HTTP client injected, if any.
    pub closed spec fn injected_http(&self) -> Option<HttpClient> {
        self.http
    }

    /// Overrides the API host (staging, self-hosted, or local development).
    /// Trailing slashes are dropped, so the host never ends with `/` and
    /// request paths join it cleanly.
    pub fn base_url(self, url: &str) -> (b: Self)
        ensures
            b.url() == trim_end_char(url@, '/'),
            b.url().len() > 0 ==> b.url().last() != '/',
            b.key() == self.key(),
            b.attempts() == self.attempts(),
            b.injected_http() == self.injected_http(),
            b.timeout_setting() == self.timeout_setting(),
    {
        proof {
            use_type_invariant(&self);
            crate::text::lemma_trim_end_char(url@, '/');
        }
        ClientBuilder { base_url: without_trailing(url, '/'), ..self }
    }

    /// Injects a custom `reqwest::Client`, e.g. to share a connection pool or
    /// configure a proxy.
    pub fn http_client(self, http: HttpClient) -> (b: Self)
        ensures
            b.url() == self.url(),
            b.key() == self.key(),
            b.attempts() == self.attempts(),
            b.injected_http() == Some(http),
            b.timeout_setting() == self.timeout_setting(),
    {
        proof {
            use_type_invariant(&self);
        }
        ClientBuilder { http: Some(http), ..self }
    }

    /// Caps the total attempts per request, including the first (so `3`
    /// means up to 2 retries). Values below 1 are treated as 1.
    pub fn max_attempts(self, n: u32) -> (b: Self)
        ensures
            b.attempts() == (if n >= 1 {
                n
            } else {
                1
            }),
            b.url() == self.url(),
            b.key() == self.key(),
            b.injected_http() == self.injected_http(),
            b.timeout_setting() == self.timeout_setting(),
    {
        let n = if n >= 1 {
            n
        } else {
            1
        };
        ClientBuilder { max_attempts: n, ..self }
    }

    /// Sets the per-attempt timeout. Defaults to 30 seconds.
    pub fn timeout(self, timeout: Duration) -> (b: Self)
        ensures
            b.url() == self.url(),
            b.key() == self.key(),
            b.attempts() == self.attempts(),
            b.injected_http() == self.injected_http(),
            b.timeout_setting() == timeout,
    {
        proof {
            use_type_invariant(&self);
        }
        ClientBuilder { timeout, ..self }
    }

    /// Validates the key and base URL and builds the [`Client`].
    ///
    /// The key must start with `sk_live_` or `sk_test_`; a live key needs a
    /// secure base URL (a live key over plain http would travel in cleartext);
    /// and `Bearer <key>` must be a valid header value.
    pub fn build(self) -> (r: Result<Client, Error>)
        ensures
            build_outcome(
                self.key(),
                self.url(),
                self.attempts(),
                self.timeout_setting(),
                self.injected_http(),
                r,
            ),
    {
        proof {
            use_type_invariant(&self);
        }
        let key = char_vec(self.api_key.as_str());
        let live = starts_with(&key, "sk_live_");
        let test = starts_with(&key, "sk_test_");
        if !live && !test {
            return Err(Error::invalid_api_key());
        }
        if live && !is_secure_base_url(self.base_url.as_str()) {
            return Err(Error::insecure_base_url());
        }
        let mut bearer = String::new();
        push_str(&mut bearer, "Bearer ");
        push_str(&mut bearer, self.api_key.as_str());
        assert(bearer@ =~= "Bearer "@ + self.api_key@);
        let mut auth = match header_value(bearer.as_str()) {
            Some(v) => v,
            None => return Err(Error::invalid_api_key()),
        };
        mark_sensitive(&mut auth);
        let mut agent = String::new();
        push_str(&mut agent, "sendbyte-rust/");
        push_str(&mut agent, VERSION);
        proof {
            lemma_user_agent_ok(agent@);
            assert(agent@ =~= "sendbyte-rust/"@ + VERSION@);
        }
        let user_agent = match header_value(agent.as_str()) {
            Some(v) => v,
            None => return Err(Error::invalid_api_key()),
        };
        let http = match self.http {
            Some(h) => h,
            None => match default_http_client() {
                Some(h) => h,
                None => return Err(Error::new("request_failed", "Could not set up the HTTP client.")),
            },
        };
        Ok(
            Client {
                inner: Arc::new(
                    ClientInner {
                        base_url: self.base_url,
                        http,
                        max_attempts: self.max_attempts,
                        timeout: self.timeout,
                        auth,
                        user_agent,
                    },
                ),
            },
        )
    }
}

} // verus!
