//! The `/v1/emails` endpoints: the send payload, the list filter and its
//! query string, and the email records the API returns.
use vstd::prelude::*;
use vstd::utf8::encode_utf8;

use crate::error::opt_string;
use crate::text::{ascii_chars, decimal_digits, push_decimal_chars, push_str};

verus! {

#[verifier::external_type_specification]
#[verifier::external_body]
pub struct ExJsonValue(serde_json::Value);

/// `Clone` of `serde_json::Value` (derived in serde_json), so that the records
/// that carry a JSON value can be cloned. Nothing is claimed of the copy.
pub assume_specification[ <serde_json::Value as std::clone::Clone>::clone ](
    v: &serde_json::Value,
) -> serde_json::Value;

// ---------------------------------------------------------------------------
// Payloads
// ---------------------------------------------------------------------------

/// A file to attach to an email. `content` is base64-encoded.
#[derive(Debug, Clone)]
pub struct Attachment {
    pub filename: String,
    pub content: String,
    pub content_type: String,
}

/// One-click unsubscribe details (RFC 8058).
///
/// Provide an https `url` and/or a `mailto`. The API emits `List-Unsubscribe`
/// and, for an https url, `List-Unsubscribe-Post` so Gmail and Yahoo render a
/// native unsubscribe. Recommended for bulk mail under the 2024 sender rules;
/// harmless on transactional.
#[derive(Debug, Clone)]
pub struct ListUnsubscribe {
    pub url: Option<String>,
    pub mailto: Option<String>,
}

impl Default for ListUnsubscribe {
    fn default() -> (r: Self)
        ensures
            r.url is None,
            r.mailto is None,
    {
        ListUnsubscribe { url: None, mailto: None }
    }
}

/// The payload for sending an email.
///
/// Build one with [`SendEmailRequest::new`] and the chainable setters, or
/// construct the struct directly (all fields are public). Custom headers are
/// kept as name/value pairs, one per name, in the order first set.
#[derive(Debug, Clone)]
pub struct SendEmailRequest {
    pub from: String,
    pub to: Vec<String>,
    pub subject: Option<String>,
    pub html: Option<String>,
    pub text: Option<String>,
    pub cc: Vec<String>,
    pub bcc: Vec<String>,
    pub reply_to: Vec<String>,
    pub attachments: Vec<Attachment>,
    pub tags: Vec<String>,
    pub headers: Vec<(String, String)>,
    pub list_unsubscribe: Option<ListUnsubscribe>,
    pub scheduled_at: Option<String>,
    pub template_id: Option<String>,
    pub variables: Option<serde_json::Value>,
    pub idempotency_key: Option<String>,
}

impl Default for SendEmailRequest {
    fn default() -> (r: Self)
        ensures
            r.from@ == Seq::<char>::empty(),
            r.to@.len() == 0,
            r.subject is None,
            r.html is None,
            r.text is None,
            r.cc@.len() == 0,
            r.bcc@.len() == 0,
            r.reply_to@.len() == 0,
            r.attachments@.len() == 0,
            r.tags@.len() == 0,
            r.headers@.len() == 0,
            r.list_unsubscribe is None,
            r.scheduled_at is None,
            r.template_id is None,
            r.variables is None,
            r.idempotency_key is None,
    {
        SendEmailRequest {
            from: String::new(),
            to: Vec::new(),
            subject: None,
            html: None,
            text: None,
            cc: Vec::new(),
            bcc: Vec::new(),
            reply_to: Vec::new(),
            attachments: Vec::new(),
            tags: Vec::new(),
            headers: Vec::new(),
            list_unsubscribe: None,
            scheduled_at: None,
            template_id: None,
            variables: None,
            idempotency_key: None,
        }
    }
}

/// The views of a list of strings.
pub open spec fn strings(v: Seq<String>) -> Seq<Seq<char>> {
    v.map_values(|s: String| s@)
}

/// The views of a list of header name/value pairs.
pub open spec fn header_pairs(v: Seq<(String, String)>) -> Seq<(Seq<char>, Seq<char>)> {
    v.map_values(|p: (String, String)| (p.0@, p.1@))
}

/// Whether `i` is the first position of a header named `name`.
pub open spec fn first_named(headers: Seq<(Seq<char>, Seq<char>)>, name: Seq<char>, i: int) -> bool {
    &&& 0 <= i < headers.len()
    &&& headers[i].0 == name
    &&& forall|j: int| 0 <= j < i ==> (#[trigger] headers[j]).0 != name
}

/// Setting a header: the first header of that name gets the new value in its
/// place; a new name goes last.
pub open spec fn set_header(
    headers: Seq<(Seq<char>, Seq<char>)>,
    name: Seq<char>,
    value: Seq<char>,
) -> Seq<(Seq<char>, Seq<char>)> {
    if exists|i: int| #[trigger] first_named(headers, name, i) {
        let i = choose|i: int| #[trigger] first_named(headers, name, i);
        headers.update(i, (name, value))
    } else {
        headers.push((name, value))
    }
}

/// No header name occurs twice.
pub open spec fn names_distinct(headers: Seq<(Seq<char>, Seq<char>)>) -> bool {
    forall|i: int, j: int|
        0 <= i < j < headers.len() ==> (#[trigger] headers[i]).0 != (#[trigger] headers[j]).0
}

/// Setting a header never makes a name occur twice, and afterwards the name
/// holds the new value.
pub proof fn lemma_set_header_keeps_names_distinct(
    headers: Seq<(Seq<char>, Seq<char>)>,
    name: Seq<char>,
    value: Seq<char>,
)
    requires
        names_distinct(headers),
    ensures
        names_distinct(set_header(headers, name, value)),
        exists|k: int|
            0 <= k < set_header(headers, name, value).len() && #[trigger] set_header(
                headers,
                name,
                value,
            )[k] == (name, value),
{
    let r = set_header(headers, name, value);
    if exists|i: int| #[trigger] first_named(headers, name, i) {
        let i = choose|i: int| #[trigger] first_named(headers, name, i);
        assert(r == headers.update(i, (name, value)));
        assert forall|a: int, b: int| 0 <= a < b < r.len() implies (#[trigger] r[a]).0 != (
        #[trigger] r[b]).0 by {
            assert(headers[a].0 != headers[b].0);
        }
        assert(r[i] == (name, value));
    } else {
        assert(r == headers.push((name, value)));
        assert forall|k: int| 0 <= k < headers.len() implies (#[trigger] headers[k]).0 != name by {
            if headers[k].0 == name {
                assert forall|j: int| 0 <= j < k implies (#[trigger] headers[j]).0 != name by {
                    assert(headers[j].0 != headers[k].0);
                }
                assert(first_named(headers, name, k));
            }
        }
        assert forall|a: int, b: int| 0 <= a < b < r.len() implies (#[trigger] r[a]).0 != (
        #[trigger] r[b]).0 by {
            if b == headers.len() {
                assert(r[a] == headers[a]);
            } else {
                assert(headers[a].0 != headers[b].0);
            }
        }
        assert(r[headers.len() as int] == (name, value));
    }
}

/// The hyphenated lower-case form of a random (version 4) UUID, such as
/// `67e55044-10b1-426f-9247-bb680e5fe0c8`.
pub open spec fn is_uuid_v4_text(s: Seq<char>) -> bool {
    &&& s.len() == 36
    &&& forall|i: int|
        0 <= i < 36 ==> if i == 8 || i == 13 || i == 18 || i == 23 {
            #[trigger] s[i] == '-'
        } else {
            ('0' <= s[i] && s[i] <= '9') || ('a' <= s[i] && s[i] <= 'f')
        }
    &&& s[14] == '4'
}

/// A fresh idempotency key: `uuid::Uuid::new_v4()` in its `Display` form, a
/// random version-4 UUID written hyphenated in lower case. The value is random;
/// only its form is promised.
#[verifier::external_body]
fn new_idempotency_key() -> (k: String)
    ensures
        is_uuid_v4_text(k@),
{
    uuid::Uuid::new_v4().to_string()
}

impl SendEmailRequest {
    /// Creates a request with the required `from` and `to` fields.
    pub fn new(from: &str, to: Vec<String>) -> (r: Self)
        ensures
            r.from@ == from@,
            r.to@ == to@,
            r.subject is None,
            r.html is None,
            r.text is None,
            r.cc@.len() == 0,
            r.bcc@.len() == 0,
            r.reply_to@.len() == 0,
            r.attachments@.len() == 0,
            r.tags@.len() == 0,
            r.headers@.len() == 0,
            r.list_unsubscribe is None,
            r.scheduled_at is None,
            r.template_id is None,
            r.variables is None,
            r.idempotency_key is None,
    {
        SendEmailRequest { from: from.to_owned(), to, ..Default::default() }
    }

    /// Sets the subject line.
    pub fn subject(self, subject: &str) -> (r: Self)
        ensures
            r == (SendEmailRequest { subject: r.subject, ..self }),
            opt_string(r.subject) == Some(subject@),
    {
        SendEmailRequest { subject: Some(subject.to_owned()), ..self }
    }

    /// Sets the HTML body.
    pub fn html(self, html: &str) -> (r: Self)
        ensures
            r == (SendEmailRequest { html: r.html, ..self }),
            opt_string(r.html) == Some(html@),
    {
        SendEmailRequest { html: Some(html.to_owned()), ..self }
    }

    /// Sets the plain-text body.
    pub fn text(self, text: &str) -> (r: Self)
        ensures
            r == (SendEmailRequest { text: r.text, ..self }),
            opt_string(r.text) == Some(text@),
    {
        SendEmailRequest { text: Some(text.to_owned()), ..self }
    }

    /// Sets the CC recipients.
    pub fn cc(self, cc: Vec<String>) -> (r: Self)
        ensures
            r == (SendEmailRequest { cc, ..self }),
    {
        SendEmailRequest { cc, ..self }
    }

    /// Sets the BCC recipients.
    pub fn bcc(self, bcc: Vec<String>) -> (r: Self)
        ensures
            r == (SendEmailRequest { bcc, ..self }),
    {
        SendEmailRequest { bcc, ..self }
    }

    /// Sets the Reply-To addresses.
    pub fn reply_to(self, reply_to: Vec<String>) -> (r: Self)
        ensures
            r == (SendEmailRequest { reply_to, ..self }),
    {
        SendEmailRequest { reply_to, ..self }
    }

    /// Adds one attachment.
    pub fn attachment(self, attachment: Attachment) -> (r: Self)
        ensures
            r == (SendEmailRequest { attachments: r.attachments, ..self }),
            r.attachments@ == self.attachments@.push(attachment),
    {
        let mut s = self;
        s.attachments.push(attachment);
        s
    }

    /// Sets the tags.
    pub fn tags(self, tags: Vec<String>) -> (r: Self)
        ensures
            r == (SendEmailRequest { tags, ..self }),
    {
        SendEmailRequest { tags, ..self }
    }

    /// Adds one custom header; a header of the same name is replaced.
    pub fn header(self, name: &str, value: &str) -> (r: Self)
        ensures
            r == (SendEmailRequest { headers: r.headers, ..self }),
            header_pairs(r.headers@) == set_header(header_pairs(self.headers@), name@, value@),
    {
        let mut s = self;
        let ghost old_pairs = header_pairs(s.headers@);
        let mut i: usize = 0;
        while i < s.headers.len()
            invariant
                i <= s.headers@.len(),
                s == self,
                old_pairs == header_pairs(self.headers@),
                forall|j: int| 0 <= j < i ==> (#[trigger] old_pairs[j]).0 != name@,
            decreases s.headers.len() - i,
        {
            if crate::text::str_is(s.headers[i].0.as_str(), name) {
                let mut headers = s.headers;
                headers.set(i, (name.to_owned(), value.to_owned()));
                proof {
                    assert(first_named(old_pairs, name@, i as int));
                    let k = choose|k: int| #[trigger] first_named(old_pairs, name@, k);
                    assert(k == i) by {
                        if k < i {
                            assert(old_pairs[k].0 != name@);
                        }
                        if k > i {
                            assert(old_pairs[i as int].0 != name@);
                        }
                    }
                    assert(header_pairs(headers@) =~= old_pairs.update(i as int, (name@, value@)));
                }
                return SendEmailRequest { headers, ..s };
            }
            i = i + 1;
        }
        proof {
            assert forall|k: int| !first_named(old_pairs, name@, k) by {
                if 0 <= k < old_pairs.len() {
                    assert(old_pairs[k].0 != name@);
                }
            }
        }
        s.headers.push((name.to_owned(), value.to_owned()));
        assert(header_pairs(s.headers@) =~= old_pairs.push((name@, value@)));
        s
    }

    /// Sets one-click unsubscribe details.
    pub fn list_unsubscribe(self, list_unsubscribe: ListUnsubscribe) -> (r: Self)
        ensures
            r == (SendEmailRequest { list_unsubscribe: Some(list_unsubscribe), ..self }),
    {
        SendEmailRequest { list_unsubscribe: Some(list_unsubscribe), ..self }
    }

    /// Schedules the send for a future ISO 8601 timestamp.
    pub fn scheduled_at(self, scheduled_at: &str) -> (r: Self)
        ensures
            r == (SendEmailRequest { scheduled_at: r.scheduled_at, ..self }),
            opt_string(r.scheduled_at) == Some(scheduled_at@),
    {
        SendEmailRequest { scheduled_at: Some(scheduled_at.to_owned()), ..self }
    }

    /// Renders a server-side template with the given variables.
    pub fn template(self, template_id: &str, variables: serde_json::Value) -> (r: Self)
        ensures
            r == (SendEmailRequest {
                template_id: r.template_id,
                variables: Some(variables),
                ..self
            }),
            opt_string(r.template_id) == Some(template_id@),
    {
        SendEmailRequest {
            template_id: Some(template_id.to_owned()),
            variables: Some(variables),
            ..self
        }
    }

    /// Sets an explicit idempotency key. When unset, a key is generated for
    /// each send (see [`SendEmailRequest::with_idempotency_key`]).
    pub fn idempotency_key(self, key: &str) -> (r: Self)
        ensures
            r == (SendEmailRequest { idempotency_key: r.idempotency_key, ..self }),
            opt_string(r.idempotency_key) == Some(key@),
    {
        SendEmailRequest { idempotency_key: Some(key.to_owned()), ..self }
    }

    /// The request as it is sent: a request without an idempotency key gets a
    /// freshly generated one, so that a retried send (whether by the retry
    /// loop or by the caller) cannot double-send; a key already set is kept.
    /// Nothing else changes.
    pub fn with_idempotency_key(self) -> (r: Self)
        ensures
            r == (SendEmailRequest { idempotency_key: r.idempotency_key, ..self }),
            r.idempotency_key is Some,
            self.idempotency_key is Some ==> r == self,
            self.idempotency_key is None ==> is_uuid_v4_text(r.idempotency_key->0@),
    {
        if self.idempotency_key.is_some() {
            self
        } else {
            SendEmailRequest { idempotency_key: Some(new_idempotency_key()), ..self }
        }
    }
}

// ---------------------------------------------------------------------------
// Listing
// ---------------------------------------------------------------------------

/// Filters for listing emails.
#[derive(Debug, Clone)]
pub struct ListEmailsParams {
    pub limit: Option<u32>,
    pub after: Option<String>,
    pub status: Option<String>,
}

impl Default for ListEmailsParams {
    fn default() -> (r: Self)
        ensures
            r.limit is None,
            r.after is None,
            r.status is None,
    {
        ListEmailsParams { limit: None, after: None, status: None }
    }
}

impl ListEmailsParams {
    /// Creates an empty filter (equivalent to [`Default`]).
    pub fn new() -> (r: Self)
        ensures
            r.limit is None,
            r.after is None,
            r.status is None,
    {
        Self::default()
    }

    /// Caps the page size.
    pub fn limit(self, limit: u32) -> (r: Self)
        ensures
            r.limit == Some(limit),
            r.after == self.after,
            r.status == self.status,
    {
        ListEmailsParams { limit: Some(limit), ..self }
    }

    /// Pages after the given email id (cursor).
    pub fn after(self, after: &str) -> (r: Self)
        ensures
            r.limit == self.limit,
            opt_string(r.after) == Some(after@),
            r.status == self.status,
    {
        ListEmailsParams { after: Some(after.to_owned()), ..self }
    }

    /// Filters to a single status.
    pub fn status(self, status: &str) -> (r: Self)
        ensures
            r.limit == self.limit,
            r.after == self.after,
            opt_string(r.status) == Some(status@),
    {
        ListEmailsParams { status: Some(status.to_owned()), ..self }
    }
}

/// Bytes that a query value keeps as they are: ASCII letters, digits and
/// `-_.~`.
pub open spec fn unreserved(b: u8) -> bool {
    ||| (65 <= b && b <= 90)
    ||| (97 <= b && b <= 122)
    ||| (48 <= b && b <= 57)
    ||| b == 45
    ||| b == 95
    ||| b == 46
    ||| b == 126
}

/// One upper-case hexadecimal digit.
pub open spec fn upper_hex_digit(n: u8) -> char {
    if n < 10 {
        ((48 + n) as u8) as char
    } else {
        ((55 + n) as u8) as char
    }
}

/// How one byte of a query value is written: as itself when unreserved, else
/// as `%` and two upper-case hex digits.
pub open spec fn encode_byte(b: u8) -> Seq<char> {
    if unreserved(b) {
        seq![b as char]
    } else {
        seq!['%', upper_hex_digit(b / 16), upper_hex_digit(b % 16)]
    }
}

/// Percent-encoding of the bytes of a query value.
pub open spec fn percent_encode(bs: Seq<u8>) -> Seq<char>
    decreases bs.len(),
{
    if bs.len() == 0 {
        Seq::empty()
    } else {
        percent_encode(bs.drop_last()) + encode_byte(bs.last())
    }
}

/// The characters a percent-encoded value is written with: the unreserved
/// ones and `%`. None of them is `&`, `=`, `#` or a space, so a value cannot
/// change the shape of the query string it stands in.
pub open spec fn query_safe(c: char) -> bool {
    let u = c as u32;
    ||| (65 <= u && u <= 90)
    ||| (97 <= u && u <= 122)
    ||| (48 <= u && u <= 57)
    ||| u == 45
    ||| u == 95
    ||| u == 46
    ||| u == 126
    ||| u == 37
}

/// Every character of a percent-encoded value is unreserved or `%`.
pub proof fn lemma_percent_encode_query_safe(bs: Seq<u8>)
    ensures
        forall|i: int|
            0 <= i < percent_encode(bs).len() ==> query_safe(#[trigger] percent_encode(bs)[i]),
    decreases bs.len(),
{
    if bs.len() > 0 {
        let prefix = percent_encode(bs.drop_last());
        let last = encode_byte(bs.last());
        lemma_percent_encode_query_safe(bs.drop_last());
        lemma_encode_byte_query_safe(bs.last());
        assert forall|i: int| 0 <= i < percent_encode(bs).len() implies query_safe(
            #[trigger] percent_encode(bs)[i],
        ) by {
            if i < prefix.len() {
                assert(percent_encode(bs)[i] == prefix[i]);
            } else {
                assert(percent_encode(bs)[i] == last[i - prefix.len()]);
            }
        }
    }
}

proof fn lemma_encode_byte_query_safe(b: u8)
    ensures
        forall|i: int| 0 <= i < encode_byte(b).len() ==> query_safe(#[trigger] encode_byte(b)[i]),
{
    let hi = b / 16;
    let lo = b % 16;
    assert(hi < 16 && lo < 16);
    assert(query_safe(upper_hex_digit(hi)));
    assert(query_safe(upper_hex_digit(lo)));
    assert(query_safe('%'));
    if unreserved(b) {
        assert(query_safe(b as char));
    }
}

/// The value of a hexadecimal digit (`0`-`9`, `A`-`F` or `a`-`f`).
pub open spec fn hex_value(c: char) -> int {
    let u = c as u32;
    if 48 <= u && u <= 57 {
        u - 48
    } else if 65 <= u && u <= 70 {
        u - 55
    } else if 97 <= u && u <= 102 {
        u - 87
    } else {
        0
    }
}

/// Percent-decoding, read from the end: a `%` three places from the end
/// starts an escape `%XY` standing for the byte `0xXY`; any other last
/// character stands for itself.
pub open spec fn percent_decode(s: Seq<char>) -> Seq<u8>
    decreases s.len(),
{
    if s.len() == 0 {
        Seq::empty()
    } else if s.len() >= 3 && s[s.len() - 3] == '%' {
        percent_decode(s.subrange(0, s.len() - 3)).push(
            (hex_value(s[s.len() - 2]) * 16 + hex_value(s[s.len() - 1])) as u8,
        )
    } else {
        percent_decode(s.drop_last()).push(s.last() as u8)
    }
}

/// The number of bytes that are written as an escape.
pub open spec fn escaped_count(bs: Seq<u8>) -> nat
    decreases bs.len(),
{
    if bs.len() == 0 {
        0
    } else if unreserved(bs.last()) {
        escaped_count(bs.drop_last())
    } else {
        escaped_count(bs.drop_last()) + 1
    }
}

/// Every `%` of the text begins a whole escape.
pub open spec fn escapes_complete(s: Seq<char>) -> bool {
    forall|i: int| 0 <= i < s.len() && #[trigger] s[i] == '%' ==> i + 2 < s.len()
}

proof fn lemma_upper_hex_digit(n: u8)
    requires
        n < 16,
    ensures
        hex_value(upper_hex_digit(n)) == n,
        upper_hex_digit(n) != '%',
{
}

/// Percent-encoding loses nothing: decoding gives the bytes back. Each
/// unreserved byte takes one character and every other byte three, so the
/// text is the bytes' length plus two for each escaped byte.
pub proof fn lemma_percent_encode_round_trip(bs: Seq<u8>)
    ensures
        percent_decode(percent_encode(bs)) == bs,
        percent_encode(bs).len() == bs.len() + 2 * escaped_count(bs),
        escapes_complete(percent_encode(bs)),
    decreases bs.len(),
{
    if bs.len() > 0 {
        let p = percent_encode(bs.drop_last());
        let b = bs.last();
        let s = percent_encode(bs);
        lemma_percent_encode_round_trip(bs.drop_last());
        assert(s == p + encode_byte(b));
        if unreserved(b) {
            assert(s =~= p.push(b as char));
            assert(s.drop_last() =~= p);
            if s.len() >= 3 {
                assert(s[s.len() - 3] == p[p.len() - 2]);
                if p[p.len() - 2] == '%' {
                    assert(p.len() - 2 + 2 < p.len());
                }
            }
            assert((b as char) as u8 == b);
            assert forall|i: int| 0 <= i < s.len() && #[trigger] s[i] == '%' implies i + 2 < s.len() by {
                if i < p.len() {
                    assert(s[i] == p[i]);
                }
            }
        } else {
            let hi = b / 16;
            let lo = b % 16;
            lemma_upper_hex_digit(hi);
            lemma_upper_hex_digit(lo);
            assert(s =~= p + seq!['%', upper_hex_digit(hi), upper_hex_digit(lo)]);
            assert(s.subrange(0, s.len() - 3) =~= p);
            assert(s[s.len() - 3] == '%');
            assert(hi * 16 + lo == b);
            assert forall|i: int| 0 <= i < s.len() && #[trigger] s[i] == '%' implies i + 2 < s.len() by {
                if i < p.len() {
                    assert(s[i] == p[i]);
                }
            }
        }
        assert(bs.drop_last().push(b) =~= bs);
    }
}

fn is_unreserved(b: u8) -> (r: bool)
    ensures
        r == unreserved(b),
{
    (65 <= b && b <= 90) || (97 <= b && b <= 122) || (48 <= b && b <= 57) || b == 45 || b == 95
        || b == 46 || b == 126
}

fn push_upper_hex(s: &mut String, n: u8)
    requires
        n < 16,
    ensures
        final(s)@ == old(s)@.push(upper_hex_digit(n)),
{
    if n < 10 {
        s.push((48 + n) as u8 as char);
    } else {
        s.push((55 + n) as u8 as char);
    }
}

/// Percent-encodes a query value over its UTF-8 bytes.
pub fn urlencode(value: &str) -> (r: String)
    ensures
        r@ == percent_encode(encode_utf8(value@)),
        percent_decode(r@) == encode_utf8(value@),
{
    proof {
        lemma_percent_encode_round_trip(encode_utf8(value@));
    }
    let bytes = value.as_bytes();
    let mut out = String::new();
    let mut i: usize = 0;
    while i < bytes.len()
        invariant
            i <= bytes@.len(),
            bytes@ == encode_utf8(value@),
            out@ == percent_encode(bytes@.take(i as int)),
        decreases bytes.len() - i,
    {
        let b = bytes[i];
        assert(bytes@.take(i + 1).drop_last() =~= bytes@.take(i as int));
        if is_unreserved(b) {
            out.push(b as char);
        } else {
            out.push('%');
            push_upper_hex(&mut out, b / 16);
            push_upper_hex(&mut out, b % 16);
        }
        i = i + 1;
        assert(out@ =~= percent_encode(bytes@.take(i as int)));
    }
    assert(bytes@.take(bytes@.len() as int) =~= bytes@);
    out
}

/// One `key=value` pair of the query string, the value percent-encoded.
pub open spec fn query_item(key: Seq<char>, value: Seq<char>) -> Seq<char> {
    key + "="@ + percent_encode(encode_utf8(value))
}

/// The query pairs of a filter: `limit`, `after` and `status`, in that
/// order, each when set.
pub open spec fn query_items(p: ListEmailsParams) -> Seq<Seq<char>> {
    let a: Seq<Seq<char>> = match p.limit {
        Some(l) => seq![query_item("limit"@, ascii_chars(decimal_digits(l as nat)))],
        None => Seq::empty(),
    };
    let b: Seq<Seq<char>> = match p.after {
        Some(v) => seq![query_item("after"@, v@)],
        None => Seq::empty(),
    };
    let c: Seq<Seq<char>> = match p.status {
        Some(v) => seq![query_item("status"@, v@)],
        None => Seq::empty(),
    };
    a + b + c
}

/// The items joined with `&`.
pub open spec fn join_amp(items: Seq<Seq<char>>) -> Seq<char>
    decreases items.len(),
{
    if items.len() == 0 {
        Seq::empty()
    } else if items.len() == 1 {
        items[0]
    } else {
        join_amp(items.drop_last()) + "&"@ + items.last()
    }
}

/// The path that lists emails with a filter: `/v1/emails`, followed by `?`
/// and the query pairs when there are any.
pub open spec fn list_emails_path(p: ListEmailsParams) -> Seq<char> {
    if query_items(p).len() == 0 {
        "/v1/emails"@
    } else {
        "/v1/emails?"@ + join_amp(query_items(p))
    }
}

/// A query value as it is written: its UTF-8 bytes percent-encoded.
pub open spec fn encoded_value(v: Seq<char>) -> Seq<char> {
    percent_encode(encode_utf8(v))
}

/// Whether `s` follows a query separator: it is not empty and ends with `?`
/// or `&`.
pub open spec fn ends_separator(s: Seq<char>) -> bool {
    s.len() > 0 && (s.last() == '?' || s.last() == '&')
}

/// Whether `s` is empty or starts a further query item with `&`.
pub open spec fn ends_or_continues(s: Seq<char>) -> bool {
    s.len() == 0 || s[0] == '&'
}

/// The path that lists emails is the bare `/v1/emails` exactly when no filter
/// is set. Otherwise it is `/v1/emails?` followed by the filters: `limit=<n>`
/// first when a limit is set; `after=<id>` and `status=<status>` (status
/// last) whenever they are set, each value percent-encoded and each item
/// standing between separators.
pub proof fn lemma_list_path_filters(p: ListEmailsParams)
    ensures
        (list_emails_path(p) == "/v1/emails"@) <==> (p.limit is None && p.after is None
            && p.status is None),
        !(p.limit is None && p.after is None && p.status is None) ==> list_emails_path(p).take(11)
            == "/v1/emails?"@,
        p.limit matches Some(l) ==> exists|post: Seq<char>|
            list_emails_path(p) == "/v1/emails?limit="@ + ascii_chars(decimal_digits(l as nat))
                + post && #[trigger] ends_or_continues(post),
        p.after matches Some(a) ==> exists|pre: Seq<char>, post: Seq<char>|
            list_emails_path(p) == pre + "after="@ + encoded_value(a@) + post && #[trigger] ends_separator(pre)
                && #[trigger] ends_or_continues(post),
        p.status matches Some(st) ==> exists|pre: Seq<char>|
            list_emails_path(p) == pre + "status="@ + encoded_value(st@) && #[trigger] ends_separator(pre),
{
    reveal_strlit("/v1/emails");
    reveal_strlit("/v1/emails?");
    let items = query_items(p);
    lemma_query_items_shape(p);
    if p.limit is Some {
        lemma_list_path_with_limit(p);
    } else {
        lemma_list_path_without_limit(p);
    }
    if !(p.limit is None && p.after is None && p.status is None) {
        assert(items.len() > 0);
        assert(list_emails_path(p).take(11) =~= "/v1/emails?"@);
        assert(list_emails_path(p).len() > 10);
        assert(list_emails_path(p) != "/v1/emails"@);
    }
}

/// The query item of a key, written out.
proof fn lemma_query_item_text(key: Seq<char>, value: Seq<char>)
    ensures
        key == "after"@ ==> query_item(key, value) == "after="@ + encoded_value(value),
        key == "status"@ ==> query_item(key, value) == "status="@ + encoded_value(value),
{
    reveal_strlit("after");
    reveal_strlit("status");
    reveal_strlit("after=");
    reveal_strlit("status=");
    reveal_strlit("=");
    if key == "after"@ {
        assert(query_item(key, value) =~= "after="@ + encoded_value(value));
    }
    if key == "status"@ {
        assert(query_item(key, value) =~= "status="@ + encoded_value(value));
    }
}

/// Bytes that are all unreserved are written as themselves.
proof fn lemma_percent_encode_unreserved(bs: Seq<u8>)
    requires
        forall|i: int| 0 <= i < bs.len() ==> unreserved(#[trigger] bs[i]),
    ensures
        percent_encode(bs) == crate::text::ascii_chars(bs),
    decreases bs.len(),
{
    if bs.len() > 0 {
        lemma_percent_encode_unreserved(bs.drop_last());
        assert(unreserved(bs[bs.len() - 1]));
        assert(crate::text::ascii_chars(bs) =~= crate::text::ascii_chars(bs.drop_last()) + seq![
            bs.last() as char,
        ]);
    }
}

/// The decimal digits of a number are ASCII digits.
proof fn lemma_decimal_digits_are_digits(n: nat)
    ensures
        forall|i: int|
            0 <= i < decimal_digits(n).len() ==> 48 <= #[trigger] decimal_digits(n)[i] <= 57,
    decreases n,
{
    if n >= 10 {
        lemma_decimal_digits_are_digits(n / 10);
        let prev = decimal_digits(n / 10);
        assert(n % 10 < 10);
        assert forall|i: int| 0 <= i < decimal_digits(n).len() implies 48 <= #[trigger] decimal_digits(
            n,
        )[i] <= 57 by {
            if i < prev.len() {
                assert(decimal_digits(n)[i] == prev[i]);
            }
        }
    }
}

/// A number's decimal digits need no escaping in a query.
proof fn lemma_ascii_digits_encode(n: nat)
    ensures
        percent_encode(encode_utf8(ascii_chars(decimal_digits(n)))) == ascii_chars(
            decimal_digits(n),
        ),
{
    let d = decimal_digits(n);
    let cs = ascii_chars(d);
    lemma_decimal_digits_are_digits(n);
    assert forall|i: int| 0 <= i < cs.len() implies '\0' <= #[trigger] cs[i] <= '\u{7f}' by {
        assert(48 <= d[i] <= 57);
    }
    assert(vstd::utf8::is_ascii_chars(cs));
    vstd::utf8::is_ascii_chars_encode_utf8(cs);
    assert(encode_utf8(cs) =~= d) by {
        assert forall|i: int| 0 <= i < d.len() implies encode_utf8(cs)[i] == d[i] by {
            assert(cs[i] as u8 == encode_utf8(cs)[i]);
            assert(48 <= d[i] <= 57);
        }
    }
    assert forall|i: int| 0 <= i < d.len() implies unreserved(#[trigger] d[i]) by {
        assert(48 <= d[i] <= 57);
    }
    lemma_percent_encode_unreserved(d);
}

/// `join_amp` of one, two and three items.
proof fn lemma_join_amp_small(x: Seq<char>, y: Seq<char>, z: Seq<char>)
    ensures
        join_amp(seq![x]) == x,
        join_amp(seq![x, y]) == x + "&"@ + y,
        join_amp(seq![x, y, z]) == x + "&"@ + y + "&"@ + z,
{
    assert(join_amp(seq![x]) == x);
    assert(seq![x, y].drop_last() =~= seq![x]);
    assert(join_amp(seq![x, y]) == join_amp(seq![x]) + "&"@ + seq![x, y].last());
    assert(seq![x, y, z].drop_last() =~= seq![x, y]);
    assert(join_amp(seq![x, y, z]) == join_amp(seq![x, y]) + "&"@ + seq![x, y, z].last());
}

/// The query items of a filter, by which filters are set.
proof fn lemma_query_items_shape(p: ListEmailsParams)
    ensures
        query_items(p).len() == (if p.limit is Some { 1int } else { 0 }) + (if p.after is Some {
            1int
        } else {
            0
        }) + (if p.status is Some { 1int } else { 0 }),
{
}

#[verifier::rlimit(40)]
proof fn lemma_list_path_with_limit(p: ListEmailsParams)
    requires
        p.limit is Some,
    ensures
        p.limit matches Some(l) ==> exists|post: Seq<char>|
            list_emails_path(p) == "/v1/emails?limit="@ + ascii_chars(decimal_digits(l as nat))
                + post && #[trigger] ends_or_continues(post),
        p.after matches Some(a) ==> exists|pre: Seq<char>, post: Seq<char>|
            list_emails_path(p) == pre + "after="@ + encoded_value(a@) + post && #[trigger] ends_separator(pre)
                && #[trigger] ends_or_continues(post),
        p.status matches Some(st) ==> exists|pre: Seq<char>|
            list_emails_path(p) == pre + "status="@ + encoded_value(st@) && #[trigger] ends_separator(pre),
{
    reveal_strlit("/v1/emails?");
    reveal_strlit("/v1/emails?limit=");
    reveal_strlit("limit");
    reveal_strlit("=");
    reveal_strlit("&");
    let base = "/v1/emails?"@;
    let amp = "&"@;
    let l = p.limit->0;
    let digits = ascii_chars(decimal_digits(l as nat));
    let lq = query_item("limit"@, digits);
    lemma_ascii_digits_encode(l as nat);
    assert(base + lq =~= "/v1/emails?limit="@ + digits) by {
        assert(lq == "limit"@ + "="@ + percent_encode(encode_utf8(digits)));
        assert(percent_encode(encode_utf8(digits)) == digits);
    }
    assert(base + lq =~= "/v1/emails?limit="@ + digits + Seq::<char>::empty());
    let empty = Seq::<char>::empty();
    assert(ends_or_continues(empty));
    match (p.after, p.status) {
        (Some(a), Some(st)) => {
            let aq = query_item("after"@, a@);
            let sq = query_item("status"@, st@);
            lemma_query_item_text("after"@, a@);
            lemma_query_item_text("status"@, st@);
            lemma_join_amp_small(lq, aq, sq);
            assert(query_items(p) =~= seq![lq, aq, sq]);
            let path = list_emails_path(p);
            assert(path == base + (lq + amp + aq + amp + sq));
            let post = amp + aq + amp + sq;
            assert(path =~= "/v1/emails?limit="@ + digits + post);
            assert(ends_or_continues(post));
            let pre = base + lq + amp;
            let post2 = amp + sq;
            assert(path =~= pre + "after="@ + encoded_value(a@) + post2);
            assert(ends_separator(pre));
            assert(ends_or_continues(post2));
            let pre3 = base + lq + amp + aq + amp;
            assert(path =~= pre3 + "status="@ + encoded_value(st@));
            assert(ends_separator(pre3));
        },
        (Some(a), None) => {
            let aq = query_item("after"@, a@);
            lemma_query_item_text("after"@, a@);
            lemma_join_amp_small(lq, aq, aq);
            assert(query_items(p) =~= seq![lq, aq]);
            let path = list_emails_path(p);
            assert(path == base + (lq + amp + aq));
            let post = amp + aq;
            assert(path =~= "/v1/emails?limit="@ + digits + post);
            assert(ends_or_continues(post));
            let pre = base + lq + amp;
            assert(path =~= pre + "after="@ + encoded_value(a@) + empty);
            assert(ends_separator(pre));
        },
        (None, Some(st)) => {
            let sq = query_item("status"@, st@);
            lemma_query_item_text("status"@, st@);
            lemma_join_amp_small(lq, sq, sq);
            assert(query_items(p) =~= seq![lq, sq]);
            let path = list_emails_path(p);
            assert(path == base + (lq + amp + sq));
            let post = amp + sq;
            assert(path =~= "/v1/emails?limit="@ + digits + post);
            assert(ends_or_continues(post));
            let pre = base + lq + amp;
            assert(path =~= pre + "status="@ + encoded_value(st@));
            assert(ends_separator(pre));
        },
        (None, None) => {
            lemma_join_amp_small(lq, lq, lq);
            assert(query_items(p) =~= seq![lq]);
            let path = list_emails_path(p);
            assert(path == base + lq);
            assert(path =~= "/v1/emails?limit="@ + digits + empty);
        },
    }
}

#[verifier::rlimit(40)]
proof fn lemma_list_path_without_limit(p: ListEmailsParams)
    requires
        p.limit is None,
    ensures
        p.after matches Some(a) ==> exists|pre: Seq<char>, post: Seq<char>|
            list_emails_path(p) == pre + "after="@ + encoded_value(a@) + post && #[trigger] ends_separator(pre)
                && #[trigger] ends_or_continues(post),
        p.status matches Some(st) ==> exists|pre: Seq<char>|
            list_emails_path(p) == pre + "status="@ + encoded_value(st@) && #[trigger] ends_separator(pre),
{
    reveal_strlit("/v1/emails?");
    reveal_strlit("&");
    let base = "/v1/emails?"@;
    let amp = "&"@;
    let empty = Seq::<char>::empty();
    assert(ends_or_continues(empty));
    assert(ends_separator(base));
    match (p.after, p.status) {
        (Some(a), Some(st)) => {
            let aq = query_item("after"@, a@);
            let sq = query_item("status"@, st@);
            lemma_query_item_text("after"@, a@);
            lemma_query_item_text("status"@, st@);
            lemma_join_amp_small(aq, sq, sq);
            assert(query_items(p) =~= seq![aq, sq]);
            let path = list_emails_path(p);
            assert(path == base + (aq + amp + sq));
            let post = amp + sq;
            assert(path =~= base + "after="@ + encoded_value(a@) + post);
            assert(ends_or_continues(post));
            let pre = base + aq + amp;
            assert(path =~= pre + "status="@ + encoded_value(st@));
            assert(ends_separator(pre));
        },
        (Some(a), None) => {
            let aq = query_item("after"@, a@);
            lemma_query_item_text("after"@, a@);
            lemma_join_amp_small(aq, aq, aq);
            assert(query_items(p) =~= seq![aq]);
            let path = list_emails_path(p);
            assert(path =~= base + "after="@ + encoded_value(a@) + empty);
        },
        (None, Some(st)) => {
            let sq = query_item("status"@, st@);
            lemma_query_item_text("status"@, st@);
            lemma_join_amp_small(sq, sq, sq);
            assert(query_items(p) =~= seq![sq]);
            let path = list_emails_path(p);
            assert(path =~= base + "status="@ + encoded_value(st@));
        },
        (None, None) => {},
    }
}

/// Builds one `key=value` pair.
fn push_item(items: &mut Vec<String>, key: &str, value: &str)
    ensures
        strings(final(items)@) == strings(old(items)@).push(query_item(key@, value@)),
{
    let mut s = String::new();
    push_str(&mut s, key);
    push_str(&mut s, "=");
    let enc = urlencode(value);
    push_str(&mut s, enc.as_str());
    assert(s@ =~= query_item(key@, value@));
    items.push(s);
    assert(strings(final(items)@) =~= strings(old(items)@).push(query_item(key@, value@)));
}

/// The path, with its query string, that lists emails page by page, newest
/// first.
pub fn list_path(params: &ListEmailsParams) -> (r: String)
    ensures
        r@ == list_emails_path(*params),
{
    let mut items: Vec<String> = Vec::new();
    if let Some(limit) = params.limit {
        let mut digits = String::new();
        push_decimal_chars(&mut digits, limit as u64);
        push_item(&mut items, "limit", digits.as_str());
    }
    if let Some(after) = &params.after {
        push_item(&mut items, "after", after.as_str());
    }
    if let Some(status) = &params.status {
        push_item(&mut items, "status", status.as_str());
    }
    assert(strings(items@) =~= query_items(*params));
    let mut path = String::new();
    if items.len() == 0 {
        push_str(&mut path, "/v1/emails");
        return path;
    }
    push_str(&mut path, "/v1/emails?");
    let ghost prefix = path@;
    push_str(&mut path, items[0].as_str());
    let mut i: usize = 1;
    assert(strings(items@).take(1) =~= seq![items@[0]@]);
    while i < items.len()
        invariant
            1 <= i <= items@.len(),
            prefix == "/v1/emails?"@,
            path@ == prefix + join_amp(strings(items@).take(i as int)),
        decreases items.len() - i,
    {
        push_str(&mut path, "&");
        push_str(&mut path, items[i].as_str());
        assert(strings(items@).take(i + 1).drop_last() =~= strings(items@).take(i as int));
        i = i + 1;
        assert(path@ =~= prefix + join_amp(strings(items@).take(i as int)));
    }
    assert(strings(items@).take(items@.len() as int) =~= strings(items@));
    path
}

// ---------------------------------------------------------------------------
// Records
// ---------------------------------------------------------------------------

/// A summary of an email in the log.
#[derive(Debug, Clone)]
pub struct Email {
    pub id: String,
    pub from: String,
    pub to: Vec<String>,
    pub subject: String,
    /// One of `queued`, `sending`, `sent`, `delivered`, `bounced`, `complained`,
    /// or `suppressed`. Kept as a string so new statuses do not break decoding.
    pub status: String,
    pub sandbox: bool,
    pub tags: Vec<String>,
    /// The delivered RFC Message-ID once known (`None` until sent). Use it as the
    /// threading anchor for `In-Reply-To` / `References` on follow-up sends.
    pub message_id: Option<String>,
    pub scheduled_at: Option<String>,
    pub created_at: String,
}

/// One lifecycle event on an email.
#[derive(Debug, Clone)]
pub struct EmailEvent {
    pub event_type: String,
    pub payload: serde_json::Value,
    pub created_at: String,
}

/// The full email record including content and events.
#[derive(Debug, Clone)]
pub struct EmailDetail {
    pub email: Email,
    pub html: Option<String>,
    pub text: Option<String>,
    pub events: Vec<EmailEvent>,
}

/// A page of the email log.
#[derive(Debug, Clone)]
pub struct EmailList {
    pub data: Vec<Email>,
    pub has_more: bool,
}

/// The path of one email.
pub fn email_path(id: &str) -> (r: String)
    ensures
        r@ == "/v1/emails/"@ + id@,
{
    let mut s = String::new();
    push_str(&mut s, "/v1/emails/");
    push_str(&mut s, id);
    s
}

} // verus!
