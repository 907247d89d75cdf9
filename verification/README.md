# loopengine (verified)

Client library for the LoopEngine Ingest API, written in Verus.

- `src/` — the verified library:
  - `text.rs`: Unicode whitespace trimming, decimal rendering and `i64` parsing;
  - `encoding.rs`: hex and base64url encodings (from the `hex` and `base64` crates) with their full specifications;
  - `crypto.rs`: SHA-256 and HMAC-SHA256 (from `sha2` and `hmac`) and the system clock;
  - `sign.rs`: request signing (`v1=` + base64url HMAC-SHA256 over `"METHOD\nPATH\nTIMESTAMP\nSHA256(body)"`);
  - `webhook.rs`: webhook signature and timestamp verification;
  - `json.rs`: the JSON value model of a request body;
  - `client.rs`: `ClientBuilder`, `Client`, body assembly, signed requests and reading of the API's answers;
  - `error.rs`: the error type.
- `app/` — the I/O side: serde conversion of payloads, the HTTP round trip with `reqwest` (`Ingest::send`, `Ingest::send_with_geo`), and the `thiserror` form of the errors.
- `tests/` — tests of the library.
