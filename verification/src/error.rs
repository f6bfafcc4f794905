//! The error every failure carries: the API's error shape.
use vstd::prelude::*;

use crate::text::{ascii_chars, decimal_digits, push_decimal_chars, push_str};

verus! {

/// A SendByte error.
///
/// Every failure the SDK surfaces carries the API's error shape: a machine
/// readable `code`, a human readable `message`, an optional `docs_url`, and,
/// for failures that reached the API, the HTTP `status`.
#[derive(Debug, Clone)]
pub struct Error {
    /// Machine readable error code, e.g. `invalid_api_key` or `rate_limited`.
    pub code: String,
    /// Human readable explanation.
    pub message: String,
    /// Link to the relevant documentation, when the API provides one.
    pub docs_url: Option<String>,
    /// HTTP status code, when the failure reached the API. `None` for local
    /// validation and transport errors.
    pub status: Option<u16>,
}

/// A `Result` whose error is [`Error`].
pub type Result<T> = std::result::Result<T, Error>;

/// What an [`Error`] holds, as plain values.
pub struct ErrorView {
    pub code: Seq<char>,
    pub message: Seq<char>,
    pub docs_url: Option<Seq<char>>,
    pub status: Option<u16>,
}

/// The view of an optional `String`.
pub open spec fn opt_string(s: Option<String>) -> Option<Seq<char>> {
    match s {
        Some(v) => Some(v@),
        None => None,
    }
}

impl View for Error {
    type V = ErrorView;

    open spec fn view(&self) -> ErrorView {
        ErrorView {
            code: self.code@,
            message: self.message@,
            docs_url: opt_string(self.docs_url),
            status: self.status,
        }
    }
}

/// An error raised before any request reached the API.
pub open spec fn local_error(code: Seq<char>, message: Seq<char>) -> ErrorView {
    ErrorView { code, message, docs_url: None, status: None }
}

/// The error [`Error::invalid_api_key`] returns.
pub open spec fn invalid_api_key_error() -> ErrorView {
    local_error(
        "invalid_api_key"@,
        "API key must start with sk_live_ or sk_test_. Create one in the dashboard under API keys."@,
    )
}

/// The error [`Error::invalid_live_key`] returns.
pub open spec fn invalid_live_key_error() -> ErrorView {
    local_error(
        "invalid_api_key"@,
        "API key must start with sk_live_ to use the live client. Create one in the dashboard."@,
    )
}

/// The error [`Error::invalid_sandbox_key`] returns.
pub open spec fn invalid_sandbox_key_error() -> ErrorView {
    local_error(
        "invalid_api_key"@,
        "API key must start with sk_test_ to use the sandbox client. Create one in the dashboard."@,
    )
}

/// The error [`Error::insecure_base_url`] returns.
pub open spec fn insecure_base_url_error() -> ErrorView {
    local_error(
        "insecure_base_url"@,
        "Refusing to send a live API key (sk_live_) over an insecure base URL. Use https, or a test key for local http."@,
    )
}

/// Whether an HTTP status is worth retrying: 429 or any 5xx.
pub open spec fn retryable_status(status: u16) -> bool {
    status == 429 || (500 <= status && status < 600)
}

/// Reports whether an HTTP status is retryable (429 or 5xx).
pub fn is_retryable_status(status: u16) -> (r: bool)
    ensures
        r == retryable_status(status),
{
    status == 429 || (500 <= status && status < 600)
}

/// The text `prefix` followed by `detail`.
fn concat(prefix: &str, detail: &str) -> (r: String)
    ensures
        r@ == prefix@ + detail@,
{
    let mut s = String::new();
    push_str(&mut s, prefix);
    push_str(&mut s, detail);
    assert(s@ =~= prefix@ + detail@);
    s
}

impl Error {
    /// An error raised locally, with no status and no documentation link.
    pub fn new(code: &str, message: &str) -> (e: Error)
        ensures
            e@ == local_error(code@, message@),
    {
        Error { code: code.to_owned(), message: message.to_owned(), docs_url: None, status: None }
    }

    /// Wraps a transport failure (timeout, DNS, connection refused) as a
    /// `request_failed` error; `detail` describes the failure.
    pub fn transport(detail: &str) -> (e: Error)
        ensures
            e@ == local_error(
                "request_failed"@,
                "Could not reach the SendByte API: "@ + detail@,
            ),
    {
        let message = concat("Could not reach the SendByte API: ", detail);
        Error { code: "request_failed".to_owned(), message, docs_url: None, status: None }
    }

    /// A response body that is not the JSON the endpoint promises; `detail`
    /// describes the decoding failure.
    pub fn undecodable_response(detail: &str) -> (e: Error)
        ensures
            e@ == local_error(
                "invalid_response"@,
                "The API returned a response that could not be decoded: "@ + detail@,
            ),
    {
        let message = concat("The API returned a response that could not be decoded: ", detail);
        Error { code: "invalid_response".to_owned(), message, docs_url: None, status: None }
    }

    /// The key does not start with `sk_live_` or `sk_test_`.
    pub fn invalid_api_key() -> (e: Error)
        ensures
            e@ == invalid_api_key_error(),
    {
        Error::new(
            "invalid_api_key",
            "API key must start with sk_live_ or sk_test_. Create one in the dashboard under API keys.",
        )
    }

    /// The live client was given a key that does not start with `sk_live_`.
    pub fn invalid_live_key() -> (e: Error)
        ensures
            e@ == invalid_live_key_error(),
    {
        Error::new(
            "invalid_api_key",
            "API key must start with sk_live_ to use the live client. Create one in the dashboard.",
        )
    }

    /// The sandbox client was given a key that does not start with `sk_test_`.
    pub fn invalid_sandbox_key() -> (e: Error)
        ensures
            e@ == invalid_sandbox_key_error(),
    {
        Error::new(
            "invalid_api_key",
            "API key must start with sk_test_ to use the sandbox client. Create one in the dashboard.",
        )
    }

    /// A live key was about to travel over an insecure base URL.
    pub fn insecure_base_url() -> (e: Error)
        ensures
            e@ == insecure_base_url_error(),
    {
        Error::new(
            "insecure_base_url",
            "Refusing to send a live API key (sk_live_) over an insecure base URL. Use https, or a test key for local http.",
        )
    }

    /// Reports whether this error is a retryable HTTP status (429 or 5xx).
    pub fn is_retryable(&self) -> (r: bool)
        ensures
            r == (self.status matches Some(s) && retryable_status(s)),
    {
        match self.status {
            Some(s) => is_retryable_status(s),
            None => false,
        }
    }

    /// The error as one line of text: `sendbyte: <message> (<code>)`.
    pub fn describe(&self) -> (s: String)
        ensures
            s@ == "sendbyte: "@ + self.message@ + " ("@ + self.code@ + ")"@,
    {
        let mut s = String::new();
        push_str(&mut s, "sendbyte: ");
        push_str(&mut s, self.message.as_str());
        push_str(&mut s, " (");
        push_str(&mut s, self.code.as_str());
        push_str(&mut s, ")");
        assert(s@ =~= "sendbyte: "@ + self.message@ + " ("@ + self.code@ + ")"@);
        s
    }
}

/// The `error` object of a non-2xx JSON response body, as far as it could be
/// read: each field is present only when the body held it as a string.
#[derive(Debug, Clone)]
pub struct ApiErrorFields {
    pub code: Option<String>,
    pub message: Option<String>,
    pub docs_url: Option<String>,
}

/// `Request failed with status <status>`.
pub open spec fn status_message(status: u16) -> Seq<char> {
    "Request failed with status "@ + ascii_chars(decimal_digits(status as nat))
}

/// The error for a non-2xx response with the given status, from the `error`
/// object the body held, if any. An object with a code or a message gives
/// those (a missing code reads `request_failed`, a missing message the status
/// line) and its documentation link; anything else, such as an HTML page from
/// a gateway, gives `request_failed` with the status line.
pub open spec fn response_error(fields: Option<ApiErrorFields>, status: u16) -> ErrorView {
    match fields {
        Some(f) => if f.code is Some || f.message is Some {
            ErrorView {
                code: match f.code {
                    Some(c) => c@,
                    None => "request_failed"@,
                },
                message: match f.message {
                    Some(m) => m@,
                    None => status_message(status),
                },
                docs_url: opt_string(f.docs_url),
                status: Some(status),
            }
        } else {
            ErrorView {
                code: "request_failed"@,
                message: status_message(status),
                docs_url: None,
                status: Some(status),
            }
        },
        None => ErrorView {
            code: "request_failed"@,
            message: status_message(status),
            docs_url: None,
            status: Some(status),
        },
    }
}

/// The statuses that are retried are exactly 429 and the whole 5xx range,
/// 500 to 599.
pub proof fn lemma_retried_statuses(status: u16)
    ensures
        retryable_status(status) <==> (status == 429 || (500 <= status && status <= 599)),
        status == 429 ==> retryable_status(status),
        500 <= status <= 599 ==> retryable_status(status),
        status < 429 || (429 < status && status < 500) || status >= 600 ==> !retryable_status(status),
{
}

/// The API's own error object is kept, whatever the status (4xx or 5xx): a
/// code it gives becomes the error's code, a message its message, and its
/// documentation link is carried over; the status is recorded. None of this
/// depends on the status, but the status itself.
pub proof fn lemma_api_error_object_kept(fields: ApiErrorFields, status: u16, other_status: u16)
    requires
        fields.code is Some || fields.message is Some,
    ensures
        fields.code matches Some(c) ==> response_error(Some(fields), status).code == c@,
        fields.message matches Some(m) ==> response_error(Some(fields), status).message == m@,
        fields.docs_url matches Some(d) ==> response_error(Some(fields), status).docs_url == Some(
            d@,
        ),
        fields.docs_url is None ==> response_error(Some(fields), status).docs_url is None,
        response_error(Some(fields), status).status == Some(status),
        response_error(Some(fields), status).code == response_error(
            Some(fields),
            other_status,
        ).code,
        response_error(Some(fields), status).docs_url == response_error(
            Some(fields),
            other_status,
        ).docs_url,
        fields.message is Some ==> response_error(Some(fields), status).message == response_error(
            Some(fields),
            other_status,
        ).message,
{
}

/// Every failure that reached the API carries its HTTP status, whatever the
/// body held; an error raised locally carries none.
pub proof fn lemma_error_status(
    fields: Option<ApiErrorFields>,
    status: u16,
    code: Seq<char>,
    message: Seq<char>,
)
    ensures
        response_error(fields, status).status == Some(status),
        local_error(code, message).status is None,
{
}

/// Builds `Request failed with status <status>`.
fn status_line(status: u16) -> (s: String)
    ensures
        s@ == status_message(status),
{
    let mut s = String::new();
    push_str(&mut s, "Request failed with status ");
    push_decimal_chars(&mut s, status as u64);
    s
}

/// Turns a non-2xx response into a typed [`Error`]. `fields` is the `error`
/// object of the JSON body, or `None` when the body was not JSON of that
/// shape; this never fails, since a gateway or proxy 502/504 may answer with
/// HTML or plain text.
pub fn error_from_response(fields: Option<ApiErrorFields>, status: u16) -> (e: Error)
    ensures
        e@ == response_error(fields, status),
{
    match fields {
        Some(f) => {
            if f.code.is_some() || f.message.is_some() {
                let code = match f.code {
                    Some(c) => c,
                    None => "request_failed".to_owned(),
                };
                let message = match f.message {
                    Some(m) => m,
                    None => status_line(status),
                };
                Error { code, message, docs_url: f.docs_url, status: Some(status) }
            } else {
                Error {
                    code: "request_failed".to_owned(),
                    message: status_line(status),
                    docs_url: None,
                    status: Some(status),
                }
            }
        },
        None => Error {
            code: "request_failed".to_owned(),
            message: status_line(status),
            docs_url: None,
            status: Some(status),
        },
    }
}

} // verus!
