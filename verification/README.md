# sendbyte

A client for [SendByte](https://sendbyte.africa), the email API for Africa,
whose decisions are proved correct with Verus.

## Layout

- `src/` is the verified library (crate `sendbyte`):
  - `client.rs`: API key and base URL validation, the client settings, and
    the builder. A live key (`sk_live_`) is refused over anything but https,
    or plain http to a loopback host.
  - `retry.rs`: the retry policy. Which outcomes are retried (429, 5xx,
    transport failures), the backoff (250 ms doubling per attempt, capped at
    20 s, with full jitter), `Retry-After` (delta-seconds or HTTP-date), and
    the step function that decides after each attempt. A retry carries the
    very same request (address, method and body bytes), so an idempotency
    key travels unchanged, and a run never exceeds the attempt budget.
  - `error.rs`: the error shape, and the typed error of a non-2xx response.
  - `emails.rs`: the send payload and its builders (including the generated
    idempotency key), the list filter and its percent-encoded query string.
  - `domains.rs`, `webhooks.rs`: the records, the request paths, and the
    normalisation of a webhook's `events` field.
  - `signature.rs`: webhook signature verification (`t=<secs>,v1=<hex
    hmac-sha256>` over `<t>.<body>`): a fresh header made with the secret is
    accepted; stale, missing, malformed and short ones are rejected; a
    tampered body passes only through an HMAC collision.
  - `response.rs`: how a success body is prepared before decoding.
  - `text.rs`, `clock.rs`: string building, trimming, decimal numbers, and the
    system clock.
- `tests/` runs the library on concrete values.
- `app/` is the asynchronous HTTP client on top of the library: the endpoint
  groups (`emails()`, `domains()`, `webhooks()`), JSON encoding and decoding,
  and the retry loop, which sleeps and re-sends as the library's step
  function decides.
