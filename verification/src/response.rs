//! What is done with the body of a successful response before it is turned
//! into a value: an empty body reads as JSON `null`, and a body whose content
//! is not wanted must still be well-formed JSON.
use vstd::prelude::*;

use crate::error::{local_error, Error};

verus! {

/// The JSON text that a successful response's body stands for: the body
/// itself, or `null` when the body is empty.
pub fn response_json(body: Vec<u8>) -> (r: Vec<u8>)
    ensures
        body@.len() == 0 ==> r@ == seq![110u8, 117u8, 108u8, 108u8],
        body@.len() > 0 ==> r@ == body@,
{
    if body.len() == 0 {
        let mut v: Vec<u8> = Vec::new();
        v.push(110u8);
        v.push(117u8);
        v.push(108u8);
        v.push(108u8);
        v
    } else {
        body
    }
}

/// What `serde_json` says of `bytes` read as one JSON value whose content is
/// ignored: `None` when they are well-formed JSON, else the text of the
/// error it reports.
pub uninterp spec fn json_syntax_error(bytes: Seq<u8>) -> Option<Seq<char>>;

/// `serde_json::from_slice::<serde::de::IgnoredAny>`: reads `bytes` as one
/// JSON value and throws the value away. The contract claims only that the
/// outcome, and the error's text, depend on the bytes alone.
#[verifier::external_body]
fn check_json_syntax(bytes: &[u8]) -> (r: Option<String>)
    ensures
        match r {
            Some(m) => json_syntax_error(bytes@) == Some(m@),
            None => json_syntax_error(bytes@) is None,
        },
{
    match serde_json::from_slice::<serde::de::IgnoredAny>(bytes) {
        Ok(_) => None,
        Err(e) => Some(e.to_string()),
    }
}

/// The outcome of a response whose content is not wanted, given what the
/// JSON check of its body reported: success when the body was well-formed,
/// else an `invalid_response` error with the check's message.
pub fn discard_outcome(check: Option<String>) -> (r: Result<(), Error>)
    ensures
        match check {
            None => r is Ok,
            Some(m) => r matches Err(e) && e@ == local_error("invalid_response"@, m@),
        },
{
    match check {
        None => Ok(()),
        Some(m) => Err(Error::new("invalid_response", m.as_str())),
    }
}

/// Accepts the body of a response whose content is not wanted: an empty
/// body, or any well-formed JSON. Anything else is an `invalid_response`
/// error carrying the JSON reader's message.
pub fn discard_response(body: &[u8]) -> (r: Result<(), Error>)
    ensures
        body@.len() == 0 ==> r is Ok,
        body@.len() > 0 ==> match json_syntax_error(body@) {
            None => r is Ok,
            Some(m) => r matches Err(e) && e@ == local_error("invalid_response"@, m),
        },
{
    if body.len() == 0 {
        return Ok(());
    }
    discard_outcome(check_json_syntax(body))
}

} // verus!
