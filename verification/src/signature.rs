//! Webhook signature verification.
//!
//! A webhook request carries `sendbyte-signature: t=<unix seconds>,v1=<hex>`,
//! where the hex is the HMAC-SHA256, keyed by the endpoint secret, of
//! `<t>.<raw body>`.
use hmac::{Hmac, Mac};
use sha2::Sha256;
use vstd::prelude::*;
use vstd::utf8::encode_utf8;

use crate::clock::unix_time_nanos;
use crate::text::{
    ascii_chars, decimal_digits, is_whitespace, lemma_decimal_digits_value, lemma_index_of_is,
    lemma_parse_decimal_text, char_vec, decimal_text, find_char, index_of, parse_i64, parse_i64_range, split_on, trim,
    trim_bounds, push_decimal_i64,
};

verus! {

/// The header carrying the webhook HMAC signature.
pub const SIGNATURE_HEADER: &'static str = "sendbyte-signature";

/// How far, in seconds, a signature timestamp may be from the current time.
pub const DEFAULT_TOLERANCE_SECONDS: i64 = 300;

// ---------------------------------------------------------------------------
// Hex
// ---------------------------------------------------------------------------

/// The value of one hexadecimal digit, either case.
pub open spec fn hex_digit_value(b: u8) -> Option<u8> {
    if 48 <= b && b <= 57 {
        Some((b - 48) as u8)
    } else if 65 <= b && b <= 70 {
        Some((b - 55) as u8)
    } else if 97 <= b && b <= 102 {
        Some((b - 87) as u8)
    } else {
        None
    }
}

/// What `hex::decode` returns: each pair of hexadecimal digits becomes one
/// byte; an odd length or any other character is an error.
pub open spec fn hex_decode(bs: Seq<u8>) -> Option<Seq<u8>>
    decreases bs.len(),
{
    if bs.len() == 0 {
        Some(Seq::empty())
    } else if bs.len() == 1 {
        None
    } else {
        match (hex_digit_value(bs[0]), hex_digit_value(bs[1]), hex_decode(bs.skip(2))) {
            (Some(hi), Some(lo), Some(rest)) => Some(seq![(hi * 16 + lo) as u8] + rest),
            _ => None,
        }
    }
}

/// Whether every character is ASCII.
pub open spec fn all_ascii(cs: Seq<char>) -> bool {
    forall|i: int| 0 <= i < cs.len() ==> (#[trigger] cs[i]) as u32 <= 127
}

/// The bytes of an ASCII text.
pub open spec fn ascii_bytes(cs: Seq<char>) -> Seq<u8> {
    cs.map_values(|c: char| (c as u32) as u8)
}

/// Decoding hexadecimal text: any character outside ASCII makes it invalid,
/// since its UTF-8 bytes are no hex digits.
pub open spec fn hex_decode_text(cs: Seq<char>) -> Option<Seq<u8>> {
    if all_ascii(cs) {
        hex_decode(ascii_bytes(cs))
    } else {
        None
    }
}

/// One lower-case hexadecimal digit.
pub open spec fn hex_digit(n: u8) -> u8 {
    if n < 10 {
        (48 + n) as u8
    } else {
        (87 + n) as u8
    }
}

/// Lower-case hexadecimal encoding, two digits per byte, as `hex::encode`
/// writes it.
pub open spec fn hex_encode(bs: Seq<u8>) -> Seq<u8>
    decreases bs.len(),
{
    if bs.len() == 0 {
        Seq::empty()
    } else {
        seq![hex_digit(bs[0] / 16), hex_digit(bs[0] % 16)] + hex_encode(bs.drop_first())
    }
}

/// `hex::decode`, on bytes.
#[verifier::external_body]
fn decode_hex(data: &[u8]) -> (r: Option<Vec<u8>>)
    ensures
        match r {
            Some(v) => hex_decode(data@) == Some(v@),
            None => hex_decode(data@) is None,
        },
{
    hex::decode(data).ok()
}

/// Decodes the hexadecimal text `v[lo..hi]`.
fn decode_hex_range(v: &Vec<char>, lo: usize, hi: usize) -> (r: Option<Vec<u8>>)
    requires
        lo <= hi <= v@.len(),
    ensures
        match r {
            Some(bytes) => hex_decode_text(v@.subrange(lo as int, hi as int)) == Some(bytes@),
            None => hex_decode_text(v@.subrange(lo as int, hi as int)) is None,
        },
{
    let ghost cs = v@.subrange(lo as int, hi as int);
    let mut bytes: Vec<u8> = Vec::new();
    let mut i = lo;
    while i < hi
        invariant
            lo <= i <= hi <= v@.len(),
            cs == v@.subrange(lo as int, hi as int),
            bytes@ == ascii_bytes(cs.take(i - lo)),
            forall|j: int| 0 <= j < i - lo ==> (#[trigger] cs[j]) as u32 <= 127,
        decreases hi - i,
    {
        let u = v[i] as u32;
        if u > 127 {
            assert(cs[i - lo] as u32 > 127);
            return None;
        }
        bytes.push(u as u8);
        i = i + 1;
        assert(bytes@ =~= ascii_bytes(cs.take(i - lo)));
    }
    assert(cs.take(hi - lo) =~= cs);
    decode_hex(bytes.as_slice())
}

// ---------------------------------------------------------------------------
// HMAC-SHA256
// ---------------------------------------------------------------------------

/// The HMAC-SHA256 tag of `message` under `key`.
pub uninterp spec fn hmac_sha256(key: Seq<u8>, message: Seq<u8>) -> Seq<u8>;

/// Computes HMAC-SHA256 with the `hmac` and `sha2` crates and compares it with
/// `tag` through `Mac::verify_slice`, in constant time. `verify_slice` succeeds
/// exactly when `tag` equals the computed tag, and refuses at once any tag
/// that is not 32 bytes long (the length of an HMAC-SHA256 tag);
/// `Hmac::new_from_slice` accepts a key of any length, so its error arm is
/// never taken.
#[verifier::external_body]
fn hmac_sha256_matches(key: &[u8], message: &[u8], tag: &[u8]) -> (ok: bool)
    ensures
        ok == (tag@ == hmac_sha256(key@, message@)),
        ok ==> tag@.len() == 32,
{
    match <Hmac<Sha256> as Mac>::new_from_slice(key) {
        Ok(mut mac) => {
            mac.update(message);
            mac.verify_slice(tag).is_ok()
        },
        Err(_) => false,
    }
}

// ---------------------------------------------------------------------------
// The header
// ---------------------------------------------------------------------------

/// The timestamp and signature read so far from a header.
pub type HeaderFields = (Option<i64>, Option<Seq<char>>);

/// Reads one comma-separated part of the header: `t=<seconds>` sets the
/// timestamp (to nothing when it does not parse), `v1=<hex>` the signature,
/// anything else is ignored. The last occurrence of each wins.
pub open spec fn read_part(st: HeaderFields, part: Seq<char>) -> HeaderFields {
    let k = index_of(part, '=');
    if k < 0 {
        st
    } else {
        let key = part.take(k);
        let value = part.skip(k + 1);
        if key == seq!['t'] {
            (parse_i64(trim(value)), st.1)
        } else if key == seq!['v', '1'] {
            (st.0, Some(trim(value)))
        } else {
            st
        }
    }
}

/// Reads the parts in order.
pub open spec fn read_parts(st: HeaderFields, parts: Seq<Seq<char>>) -> HeaderFields
    decreases parts.len(),
{
    if parts.len() == 0 {
        st
    } else {
        read_parts(read_part(st, parts[0]), parts.drop_first())
    }
}

/// The timestamp and signature that a header holds.
pub open spec fn header_fields(header: Seq<char>) -> HeaderFields {
    read_parts((None, None), split_on(header, ','))
}

/// The bytes that are signed: `<t>.<body>`.
pub open spec fn signed_payload(t: i64, body: Seq<u8>) -> Seq<u8> {
    decimal_text(t as int) + seq![46u8] + body
}

/// Whether `sig` is the hex encoding of a 32-byte tag that is the
/// HMAC-SHA256, under the secret's UTF-8 bytes, of the signed payload.
pub open spec fn signature_matches(secret: Seq<char>, t: i64, sig: Seq<char>, body: Seq<u8>) -> bool {
    match hex_decode_text(sig) {
        Some(tag) => tag.len() == 32 && tag == hmac_sha256(
            encode_utf8(secret),
            signed_payload(t, body),
        ),
        None => false,
    }
}

/// The distance between two instants, in seconds.
pub open spec fn distance(a: int, b: int) -> int {
    if a >= b {
        a - b
    } else {
        b - a
    }
}

/// Whether a webhook request is accepted at time `now`: the header is
/// present, carries both a timestamp and a signature, the timestamp is within
/// `tolerance` seconds of `now`, and the signature matches.
pub open spec fn signature_accepted(
    secret: Seq<char>,
    header: Option<Seq<char>>,
    body: Seq<u8>,
    tolerance: int,
    now: int,
) -> bool {
    match header {
        None => false,
        Some(h) => match header_fields(h) {
            (Some(t), Some(sig)) => distance(now, t as int) <= tolerance && signature_matches(
                secret,
                t,
                sig,
                body,
            ),
            _ => false,
        },
    }
}

/// Whether the header is the one SendByte sends for this body under this
/// secret: `t=<t>,v1=<hex of the HMAC-SHA256 of <t>.<body>>`, for some `t`
/// within `tolerance` seconds of `now`.
pub open spec fn fresh_and_genuine(
    secret: Seq<char>,
    header: Option<Seq<char>>,
    body: Seq<u8>,
    tolerance: int,
    now: int,
) -> bool {
    exists|t: i64|
        distance(now, t as int) <= tolerance && header == Some(
            #[trigger] signature_header(
                t,
                hmac_sha256(encode_utf8(secret), signed_payload(t, body)),
            ),
        )
}

/// A signature with a longer tolerance accepts all that a shorter one does.
pub proof fn lemma_tolerance_monotone(
    secret: Seq<char>,
    header: Option<Seq<char>>,
    body: Seq<u8>,
    tolerance: int,
    wider: int,
    now: int,
)
    requires
        tolerance <= wider,
        signature_accepted(secret, header, body, tolerance, now),
    ensures
        signature_accepted(secret, header, body, wider, now),
{
}

/// The view of an optional string slice.
pub open spec fn opt_view(s: Option<&str>) -> Option<Seq<char>> {
    match s {
        Some(h) => Some(h@),
        None => None,
    }
}

/// The view of an optional character vector.
pub open spec fn opt_chars(v: Option<Vec<char>>) -> Option<Seq<char>> {
    match v {
        Some(c) => Some(c@),
        None => None,
    }
}

/// Copies `v[lo..hi]`.
fn copy_range(v: &Vec<char>, lo: usize, hi: usize) -> (r: Vec<char>)
    requires
        lo <= hi <= v@.len(),
    ensures
        r@ == v@.subrange(lo as int, hi as int),
{
    let mut out: Vec<char> = Vec::new();
    let mut i = lo;
    while i < hi
        invariant
            lo <= i <= hi <= v@.len(),
            out@ == v@.subrange(lo as int, i as int),
        decreases hi - i,
    {
        out.push(v[i]);
        i = i + 1;
        assert(out@ =~= v@.subrange(lo as int, i as int));
    }
    out
}

/// Reads the part `v[lo..hi]` into the fields read so far.
fn read_part_range(
    v: &Vec<char>,
    lo: usize,
    hi: usize,
    ts: Option<i64>,
    sig: Option<Vec<char>>,
) -> (r: (Option<i64>, Option<Vec<char>>))
    requires
        lo <= hi <= v@.len(),
    ensures
        (r.0, opt_chars(r.1)) == read_part((ts, opt_chars(sig)), v@.subrange(lo as int, hi as int)),
{
    let ghost part = v@.subrange(lo as int, hi as int);
    match find_char(v, '=', lo, hi) {
        None => (ts, sig),
        Some(k) => {
            let ghost key = part.take(k - lo);
            assert(part.skip(k - lo + 1) =~= v@.subrange(k + 1, hi as int));
            let (a, b) = trim_bounds(v, k + 1, hi);
            if k - lo == 1 && v[lo] == 't' {
                assert(key =~= seq!['t']);
                (parse_i64_range(v, a, b), sig)
            } else if k - lo == 2 && v[lo] == 'v' && v[lo + 1] == '1' {
                assert(key =~= seq!['v', '1']);
                (ts, Some(copy_range(v, a, b)))
            } else {
                proof {
                    if key == seq!['t'] {
                        assert(key[0] == v@[lo as int]);
                        assert(seq!['t'][0] == 't');
                    }
                    if key == seq!['v', '1'] {
                        assert(key.len() == k - lo);
                        assert(part[1] == v@[lo + 1]);
                        assert(key[0] == v@[lo as int]);
                        assert(key[1] == v@[lo + 1]);
                        assert(seq!['v', '1'][0] == 'v');
                        assert(seq!['v', '1'][1] == '1');
                    }
                }
                (ts, sig)
            }
        },
    }
}

/// Reading a first part and then the rest.
proof fn lemma_read_parts_cons(st: HeaderFields, first: Seq<char>, rest: Seq<Seq<char>>)
    ensures
        read_parts(st, seq![first] + rest) == read_parts(read_part(st, first), rest),
{
    assert((seq![first] + rest).drop_first() =~= rest);
}

/// Reads the timestamp and signature out of a header.
fn read_header(h: &Vec<char>) -> (r: (Option<i64>, Option<Vec<char>>))
    ensures
        (r.0, opt_chars(r.1)) == header_fields(h@),
{
    let n = h.len();
    let mut ts: Option<i64> = None;
    let mut sig: Option<Vec<char>> = None;
    let mut pos: usize = 0;
    assert(h@.skip(0) =~= h@);
    loop
        invariant
            pos <= n,
            n == h@.len(),
            header_fields(h@) == read_parts((ts, opt_chars(sig)), split_on(h@.skip(pos as int), ',')),
        decreases n - pos,
    {
        let ghost rest = h@.skip(pos as int);
        assert(h@.subrange(pos as int, n as int) =~= rest);
        let found = find_char(h, ',', pos, n);
        match found {
            None => {
                assert(split_on(rest, ',') == seq![rest]);
                proof {
                    lemma_read_parts_cons((ts, opt_chars(sig)), rest, Seq::empty());
                    assert(seq![rest] + Seq::<Seq<char>>::empty() =~= seq![rest]);
                }
                let r = read_part_range(h, pos, n, ts, sig);
                return r;
            },
            Some(j) => {
                let ghost k = j - pos;
                assert(rest.take(k) =~= h@.subrange(pos as int, j as int));
                assert(rest.skip(k + 1) =~= h@.skip(j + 1));
                proof {
                    lemma_read_parts_cons(
                        (ts, opt_chars(sig)),
                        rest.take(k),
                        split_on(rest.skip(k + 1), ','),
                    );
                }
                let r = read_part_range(h, pos, j, ts, sig);
                ts = r.0;
                sig = r.1;
                pos = j + 1;
            },
        }
    }
}

/// Builds the signed payload `<t>.<body>`.
fn build_payload(t: i64, body: &[u8]) -> (r: Vec<u8>)
    ensures
        r@ == signed_payload(t, body@),
{
    let mut out: Vec<u8> = Vec::new();
    push_decimal_i64(&mut out, t);
    out.push(46u8);
    let ghost prefix = out@;
    let mut i: usize = 0;
    while i < body.len()
        invariant
            i <= body@.len(),
            prefix == decimal_text(t as int) + seq![46u8],
            out@ == prefix + body@.take(i as int),
        decreases body.len() - i,
    {
        out.push(body[i]);
        i = i + 1;
        assert(out@ =~= prefix + body@.take(i as int));
    }
    assert(body@.take(body@.len() as int) =~= body@);
    out
}

/// Verifies a webhook signature header against the raw body, at the given
/// time. The header format is `t=<unix seconds>,v1=<hex hmac-sha256>`,
/// computed over `<t>.<raw body>` with the secret as key. Missing, malformed,
/// tampered and stale signatures are rejected; a timestamp counts as stale
/// when it is more than `tolerance` seconds from `now` either way.
pub fn verify_at(secret: &str, header: Option<&str>, body: &[u8], tolerance: i64, now: i64) -> (ok:
    bool)
    ensures
        ok == signature_accepted(secret@, opt_view(header), body@, tolerance as int, now as int),
        fresh_and_genuine(secret@, opt_view(header), body@, tolerance as int, now as int) ==> ok,
{
    let ghost genuine = fresh_and_genuine(
        secret@,
        opt_view(header),
        body@,
        tolerance as int,
        now as int,
    );
    let ghost t0: i64 = choose|t: i64|
        distance(now as int, t as int) <= tolerance && opt_view(header) == Some(
            #[trigger] signature_header(
                t,
                hmac_sha256(encode_utf8(secret@), signed_payload(t, body@)),
            ),
        );
    let ghost tag0 = hmac_sha256(encode_utf8(secret@), signed_payload(t0, body@));
    proof {
        lemma_signature_header_read(t0, tag0);
    }
    let header = match header {
        Some(h) => h,
        None => return false,
    };
    let chars = char_vec(header);
    let (ts, sig) = read_header(&chars);
    let (t, sig) = match (ts, sig) {
        (Some(t), Some(sig)) => (t, sig),
        _ => return false,
    };
    let diff: i128 = now as i128 - t as i128;
    let dist: i128 = if diff < 0 {
        -diff
    } else {
        diff
    };
    if dist > tolerance as i128 {
        return false;
    }
    let tag = match decode_hex_range(&sig, 0, sig.len()) {
        Some(tag) => tag,
        None => {
            assert(sig@.subrange(0, sig@.len() as int) =~= sig@);
            return false;
        },
    };
    assert(sig@.subrange(0, sig@.len() as int) =~= sig@);
    let payload = build_payload(t, body);
    let ok = hmac_sha256_matches(secret.as_bytes(), payload.as_slice(), tag.as_slice());
    assert(genuine ==> tag@ == tag0);
    ok
}

/// Verifies that a webhook request came from SendByte, with the default
/// tolerance of 300 seconds. Verify against the raw request body, before any
/// JSON parsing.
pub fn verify_webhook_signature(secret: &str, header: Option<&str>, body: &[u8]) -> (ok: bool)
    ensures
        exists|now: i64|
            ok == signature_accepted(
                secret@,
                opt_view(header),
                body@,
                DEFAULT_TOLERANCE_SECONDS as int,
                now as int,
            ) && (fresh_and_genuine(
                secret@,
                opt_view(header),
                body@,
                DEFAULT_TOLERANCE_SECONDS as int,
                now as int,
            ) ==> ok),
{
    verify_webhook_signature_with_tolerance(secret, header, body, DEFAULT_TOLERANCE_SECONDS)
}

/// Like [`verify_webhook_signature`] but with a caller-supplied tolerance, in
/// seconds, for the signature timestamp. The time is the system clock's, in
/// whole seconds since the Unix epoch.
pub fn verify_webhook_signature_with_tolerance(
    secret: &str,
    header: Option<&str>,
    body: &[u8],
    tolerance_seconds: i64,
) -> (ok: bool)
    ensures
        exists|now: i64|
            ok == signature_accepted(
                secret@,
                opt_view(header),
                body@,
                tolerance_seconds as int,
                now as int,
            ) && (fresh_and_genuine(
                secret@,
                opt_view(header),
                body@,
                tolerance_seconds as int,
                now as int,
            ) ==> ok),
{
    let nanos = unix_time_nanos();
    let secs: u64 = (nanos / 1_000_000_000) as u64;
    let now: i64 = secs as i64;
    verify_at(secret, header, body, tolerance_seconds, now)
}

// ---------------------------------------------------------------------------
// Laws
// ---------------------------------------------------------------------------

/// The header SendByte sends for timestamp `t` and tag `tag`:
/// `t=<t>,v1=<lower-case hex of tag>`.
pub open spec fn signature_header(t: i64, tag: Seq<u8>) -> Seq<char> {
    seq!['t', '='] + ascii_chars(decimal_text(t as int)) + seq![',', 'v', '1', '='] + ascii_chars(
        hex_encode(tag),
    )
}

/// Characters that occur in decimal numbers and lower-case hex.
spec fn token_char(c: char) -> bool {
    (45 <= c as u32 && c as u32 <= 57) || (97 <= c as u32 && c as u32 <= 102)
}

proof fn lemma_token_char(c: char)
    requires
        token_char(c),
    ensures
        c != ',',
        c != '=',
        !is_whitespace(c),
{
}

proof fn lemma_decimal_text_tokens(t: i64)
    ensures
        forall|i: int|
            0 <= i < ascii_chars(decimal_text(t as int)).len() ==> token_char(
                #[trigger] ascii_chars(decimal_text(t as int))[i],
            ),
        ascii_chars(decimal_text(t as int)).len() > 0,
{
    let n: nat = if t < 0 {
        (-t) as nat
    } else {
        t as nat
    };
    lemma_decimal_digits_value(n);
    let d = ascii_chars(decimal_digits(n));
    let s = ascii_chars(decimal_text(t as int));
    if t < 0 {
        assert forall|i: int| 0 <= i < s.len() implies token_char(#[trigger] s[i]) by {
            if i > 0 {
                assert(s[i] == d[i - 1]);
            } else {
                assert(s[0] == (45u8 as char));
                assert((45u8 as char) as u32 == 45);
            }
        }
    } else {
        assert(s =~= d);
    }
}

proof fn lemma_hex_digit(n: u8)
    requires
        n < 16,
    ensures
        hex_digit_value(hex_digit(n)) == Some(n),
        token_char(hex_digit(n) as char),
        (hex_digit(n) as char) as u32 == hex_digit(n) as u32,
        hex_digit(n) <= 127,
{
    assert((hex_digit(n) as char) as u32 == hex_digit(n) as u32);
}

proof fn lemma_hex_roundtrip(bs: Seq<u8>)
    ensures
        hex_decode(hex_encode(bs)) == Some(bs),
        forall|i: int|
            0 <= i < hex_encode(bs).len() ==> token_char((#[trigger] hex_encode(bs)[i]) as char)
                && hex_encode(bs)[i] <= 127 && (hex_encode(bs)[i] as char) as u32 == hex_encode(
                bs,
            )[i] as u32,
    decreases bs.len(),
{
    if bs.len() > 0 {
        let b = bs[0];
        let e = hex_encode(bs);
        let rest = hex_encode(bs.drop_first());
        lemma_hex_roundtrip(bs.drop_first());
        lemma_hex_digit(b / 16);
        lemma_hex_digit(b % 16);
        assert(e.skip(2) =~= rest);
        assert(((b / 16) * 16 + b % 16) as u8 == b);
        assert(seq![b] + bs.drop_first() =~= bs);
        assert forall|i: int| 0 <= i < e.len() implies token_char((#[trigger] e[i]) as char)
            && e[i] <= 127 && (e[i] as char) as u32 == e[i] as u32 by {
            if i >= 2 {
                assert(e[i] == rest[i - 2]);
            }
        }
    }
}

proof fn lemma_hex_text_roundtrip(bs: Seq<u8>)
    ensures
        hex_decode_text(ascii_chars(hex_encode(bs))) == Some(bs),
        forall|i: int|
            0 <= i < ascii_chars(hex_encode(bs)).len() ==> token_char(
                #[trigger] ascii_chars(hex_encode(bs))[i],
            ),
{
    lemma_hex_roundtrip(bs);
    let e = hex_encode(bs);
    let x = ascii_chars(e);
    assert(all_ascii(x)) by {
        assert forall|i: int| 0 <= i < x.len() implies (#[trigger] x[i]) as u32 <= 127 by {
            assert(x[i] == e[i] as char);
        }
    }
    assert(ascii_bytes(x) =~= e) by {
        assert forall|i: int| 0 <= i < x.len() implies ascii_bytes(x)[i] == e[i] by {
            assert(x[i] == e[i] as char);
        }
    }
    assert forall|i: int| 0 <= i < x.len() implies token_char(#[trigger] x[i]) by {
        assert(x[i] == e[i] as char);
    }
}

/// Reading a header made of exactly two parts.
proof fn lemma_read_two_parts(p1: Seq<char>, p2: Seq<char>)
    ensures
        read_parts((None, None), seq![p1] + seq![p2]) == read_part(read_part((None, None), p1), p2),
{
    lemma_read_parts_cons((None, None), p1, seq![p2]);
    lemma_read_parts_cons(read_part((None, None), p1), p2, Seq::empty());
    assert(seq![p2] + Seq::<Seq<char>>::empty() =~= seq![p2]);
}

/// The header SendByte sends for timestamp `t` and tag `tag` reads back as
/// that timestamp and the hex text of that tag, which decodes to the tag.
pub proof fn lemma_signature_header_read(t: i64, tag: Seq<u8>)
    ensures
        header_fields(signature_header(t, tag)) == (
            Some(t),
            Some(ascii_chars(hex_encode(tag))),
        ),
        hex_decode_text(ascii_chars(hex_encode(tag))) == Some(tag),
{
    let tt = ascii_chars(decimal_text(t as int));
    let x = ascii_chars(hex_encode(tag));
    let h = signature_header(t, tag);
    lemma_decimal_text_tokens(t);
    lemma_hex_text_roundtrip(tag);
    lemma_parse_decimal_text(t);
    let k: int = 2 + tt.len() as int;
    let p1 = seq!['t', '='] + tt;
    let p2 = seq!['v', '1', '='] + x;
    // The first comma ends the timestamp part.
    assert forall|i: int| 0 <= i < h.len() && i < k implies h[i] != ',' by {
        if i >= 2 {
            assert(h[i] == tt[i - 2]);
            lemma_token_char(tt[i - 2]);
        }
    }
    assert(h[k] == ',');
    lemma_index_of_is(h, ',', k);
    assert(h.take(k) =~= p1);
    assert(h.skip(k + 1) =~= p2);
    assert forall|i: int| 0 <= i < p2.len() implies p2[i] != ',' by {
        if i >= 3 {
            assert(p2[i] == x[i - 3]);
            lemma_token_char(x[i - 3]);
        }
    }
    lemma_index_of_is(p2, ',', -1);
    assert(split_on(p2, ',') == seq![p2]);
    assert(split_on(h, ',') == seq![p1] + seq![p2]);
    lemma_read_two_parts(p1, p2);
    // The timestamp part.
    assert(p1[1] == '=');
    lemma_index_of_is(p1, '=', 1);
    assert(p1.take(1) =~= seq!['t']);
    assert(p1.skip(2) =~= tt);
    assert(trim(tt) == tt) by {
        lemma_token_char(tt[0]);
        lemma_token_char(tt.last());
        crate::text::lemma_trim_no_edge_whitespace(tt);
    }
    // The signature part.
    assert(p2[2] == '=');
    assert(p2[0] != '=' && p2[1] != '=');
    lemma_index_of_is(p2, '=', 2);
    assert(p2.take(2) =~= seq!['v', '1']);
    assert(p2.skip(3) =~= x);
    assert(trim(x) == x) by {
        if x.len() > 0 {
            lemma_token_char(x[0]);
            lemma_token_char(x.last());
        }
        crate::text::lemma_trim_no_edge_whitespace(x);
    }
    assert(header_fields(h) == (Some(t), Some(x)));
}

/// A signature whose timestamp is more than `tolerance` seconds from `now`
/// is rejected, whatever else the header holds.
pub proof fn lemma_stale_signature_rejected(
    secret: Seq<char>,
    header: Seq<char>,
    body: Seq<u8>,
    tolerance: int,
    now: int,
)
    requires
        header_fields(header).0 matches Some(t) && distance(now, t as int) > tolerance,
    ensures
        !signature_accepted(secret, Some(header), body, tolerance, now),
{
}

/// A missing header, or one without both a timestamp and a signature, is
/// rejected.
pub proof fn lemma_missing_or_malformed_rejected(
    secret: Seq<char>,
    header: Option<Seq<char>>,
    body: Seq<u8>,
    tolerance: int,
    now: int,
)
    requires
        header matches Some(h) ==> header_fields(h).0 is None || header_fields(h).1 is None,
    ensures
        !signature_accepted(secret, header, body, tolerance, now),
{
}

/// A signature that is not the hex form of 32 bytes (such as `deadbeef`) is
/// rejected whatever the clock reads: it cannot be an HMAC-SHA256 tag.
pub proof fn lemma_short_signature_rejected(
    secret: Seq<char>,
    header: Seq<char>,
    body: Seq<u8>,
    tolerance: int,
    now: int,
)
    requires
        header_fields(header).1 matches Some(sig) && !(hex_decode_text(sig) matches Some(tag)
            && tag.len() == 32),
    ensures
        !signature_accepted(secret, Some(header), body, tolerance, now),
{
}

/// A header accepted for two different bodies means two different signed
/// payloads with the same HMAC tag: a tampered body gets through only by an
/// HMAC-SHA256 collision.
pub proof fn lemma_tampered_body_needs_collision(
    secret: Seq<char>,
    header: Seq<char>,
    body: Seq<u8>,
    tampered: Seq<u8>,
    tolerance: int,
    now: int,
)
    requires
        signature_accepted(secret, Some(header), body, tolerance, now),
        signature_accepted(secret, Some(header), tampered, tolerance, now),
        body != tampered,
    ensures
        header_fields(header).0 matches Some(t) && {
            &&& signed_payload(t, body) != signed_payload(t, tampered)
            &&& hmac_sha256(encode_utf8(secret), signed_payload(t, body)) == hmac_sha256(
                encode_utf8(secret),
                signed_payload(t, tampered),
            )
        },
{
    let t = header_fields(header).0->0;
    let p = decimal_text(t as int) + seq![46u8];
    assert(signed_payload(t, body).skip(p.len() as int) =~= body);
    assert(signed_payload(t, tampered).skip(p.len() as int) =~= tampered);
}

} // verus!
