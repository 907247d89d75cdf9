//! Verification of webhook payloads signed by LoopEngine: the header
//! `X-LoopEngine-Signature` holds `v1=` and the lower-case hex HMAC-SHA256 of
//! `timestamp + "." + raw body`.

use vstd::prelude::*;
use vstd::string::StringSliceAdditionalSpecFns;
use crate::crypto::{hmac_sha256, hmac_sha256_verify, read_clock, clock_reading};
use crate::encoding::{hex_decode, hex_decoded, hex_lower_bytes, lemma_hex_round_trip};
use crate::text::{parse_decimal_i64, parse_i64};

verus! {

/// The ASCII bytes of the signature prefix `v1=`.
pub open spec fn webhook_prefix() -> Seq<u8> {
    seq![118u8, 49u8, 61u8]
}

/// The bytes that a webhook signature covers: the timestamp header, a dot,
/// and the raw body.
pub open spec fn webhook_signed_content(timestamp: Seq<u8>, body: Seq<u8>) -> Seq<u8> {
    timestamp + seq![46u8] + body
}

/// Whether the timestamp header is recent enough: always when `max_age` is
/// 0; otherwise the header must parse as an `i64` number of seconds `t` with
/// `|now - t| <= max_age`.
pub open spec fn timestamp_within(timestamp: Seq<u8>, max_age: u64, now: u64) -> bool {
    max_age == 0 || match parse_i64(timestamp) {
        Some(t) => -(max_age as int) <= now - t <= max_age,
        None => false,
    }
}

/// Whether a webhook is accepted at time `now`: the signature header starts
/// with `v1=`, the timestamp header is non-empty and within the window, and
/// the rest of the signature header is the non-empty hex encoding (of either
/// case) of the HMAC-SHA256 of the signed content under the secret.
pub open spec fn webhook_accepted(
    secret: Seq<u8>,
    body: Seq<u8>,
    signature: Seq<u8>,
    timestamp: Seq<u8>,
    max_age: u64,
    now: u64,
) -> bool {
    &&& signature.len() >= 3
    &&& signature.take(3) == webhook_prefix()
    &&& timestamp.len() > 0
    &&& timestamp_within(timestamp, max_age, now)
    &&& match hex_decoded(signature.skip(3)) {
        Some(tag) => tag.len() > 0 && tag == hmac_sha256(
            secret,
            webhook_signed_content(timestamp, body),
        ),
        None => false,
    }
}

/// The bytes `a`, then `sep`, then `b`.
fn join_with_byte(a: &[u8], sep: u8, b: &[u8]) -> (r: Vec<u8>)
    ensures
        r@ == a@ + seq![sep] + b@,
{
    let mut r: Vec<u8> = Vec::new();
    let mut i: usize = 0;
    while i < a.len()
        invariant
            i <= a@.len(),
            r@ == a@.take(i as int),
        decreases a@.len() - i,
    {
        assert(a@.take(i + 1) =~= a@.take(i as int).push(a@[i as int]));
        r.push(a[i]);
        i = i + 1;
    }
    assert(a@.take(a@.len() as int) =~= a@);
    r.push(sep);
    let mut j: usize = 0;
    while j < b.len()
        invariant
            j <= b@.len(),
            r@ == a@ + seq![sep] + b@.take(j as int),
        decreases b@.len() - j,
    {
        assert(b@.take(j + 1) =~= b@.take(j as int).push(b@[j as int]));
        r.push(b[j]);
        j = j + 1;
    }
    assert(b@.take(b@.len() as int) =~= b@);
    r
}

/// Decides [`webhook_accepted`] for the given headers at the time `now_secs`
/// (seconds since the Unix epoch).
pub fn verify_webhook_at(
    secret: &str,
    raw_body: &[u8],
    signature_header: &str,
    timestamp_header: &str,
    max_age_sec: u64,
    now_secs: u64,
) -> (ok: bool)
    ensures
        ok == webhook_accepted(
            secret.spec_bytes(),
            raw_body@,
            signature_header.spec_bytes(),
            timestamp_header.spec_bytes(),
            max_age_sec,
            now_secs,
        ),
{
    let sig = signature_header.as_bytes();
    let ts = timestamp_header.as_bytes();
    if sig.len() < 3 || sig[0] != 118 || sig[1] != 49 || sig[2] != 61 || ts.len() == 0 {
        proof {
            if sig@.len() >= 3 {
                assert(sig@.take(3)[0] == sig@[0]);
                assert(sig@.take(3)[1] == sig@[1]);
                assert(sig@.take(3)[2] == sig@[2]);
            }
        }
        return false;
    }
    assert(sig@.take(3) =~= webhook_prefix());
    if max_age_sec > 0 {
        match parse_decimal_i64(ts) {
            None => {
                return false;
            },
            Some(t) => {
                let diff: i128 = now_secs as i128 - t as i128;
                let max_age: i128 = max_age_sec as i128;
                if diff > max_age || diff < -max_age {
                    return false;
                }
            },
        }
    }
    let hex_part = vstd::slice::slice_subrange(sig, 3, sig.len());
    assert(hex_part@ =~= sig@.skip(3));
    match hex_decode(hex_part) {
        None => false,
        Some(tag) => {
            if tag.len() == 0 {
                false
            } else {
                let content = join_with_byte(ts, 46, raw_body);
                hmac_sha256_verify(secret.as_bytes(), content.as_slice(), tag.as_slice())
            }
        },
    }
}

/// Verifies that a webhook payload was signed by LoopEngine with `secret`.
///
/// Pass the raw request body, before any JSON deserialisation, and the values
/// of the `X-LoopEngine-Signature` and `X-LoopEngine-Timestamp` headers. When
/// `max_age_sec > 0` the timestamp must lie within `max_age_sec` seconds,
/// before or after, of the reading of the system clock (300 is the recommended window); 0 skips that check and
/// does not read the clock. Returns `true` only when the signature is valid and
/// the timestamp is within the window.
pub fn verify_webhook(
    secret: &str,
    raw_body: &[u8],
    signature_header: &str,
    timestamp_header: &str,
    max_age_sec: u64,
) -> (ok: bool)
    ensures
        exists|now: u64|
            ok == webhook_accepted(
                secret.spec_bytes(),
                raw_body@,
                signature_header.spec_bytes(),
                timestamp_header.spec_bytes(),
                max_age_sec,
                now,
            ),
        max_age_sec > 0 ==> exists|now: u64|
            clock_reading(now) && ok == webhook_accepted(
                secret.spec_bytes(),
                raw_body@,
                signature_header.spec_bytes(),
                timestamp_header.spec_bytes(),
                max_age_sec,
                now,
            ),
        max_age_sec == 0 ==> ok == webhook_accepted(
            secret.spec_bytes(),
            raw_body@,
            signature_header.spec_bytes(),
            timestamp_header.spec_bytes(),
            0,
            0,
        ),
{
    let now = if max_age_sec > 0 {
        read_clock()
    } else {
        0
    };
    verify_webhook_at(secret, raw_body, signature_header, timestamp_header, max_age_sec, now)
}

/// A header `v1=` followed by the lower-case hex HMAC-SHA256, under the
/// secret, of the timestamp bytes, a `.` and every byte of the body is
/// accepted, for every non-empty timestamp within the window: when the window
/// is on, a timestamp `t` at most `max_age` seconds before or after `now`.
/// The HMAC tag is the 32-byte tag that HMAC-SHA256 produces.
pub proof fn lemma_genuine_signature_accepted(
    secret: Seq<u8>,
    body: Seq<u8>,
    timestamp: Seq<u8>,
    max_age: u64,
    now: u64,
)
    requires
        timestamp.len() > 0,
        max_age == 0 || (parse_i64(timestamp) matches Some(t) && now - t <= max_age && t - now
            <= max_age),
        hmac_sha256(secret, timestamp + seq![46u8] + body).len() == 32,
    ensures
        webhook_accepted(
            secret,
            body,
            seq![118u8, 49u8, 61u8] + hex_lower_bytes(
                hmac_sha256(secret, timestamp + seq![46u8] + body),
            ),
            timestamp,
            max_age,
            now,
        ),
{
    lemma_signed_content_covers_body(timestamp, body, body);
    let tag = hmac_sha256(secret, timestamp + seq![46u8] + body);
    let header = seq![118u8, 49u8, 61u8] + hex_lower_bytes(tag);
    lemma_hex_round_trip(tag);
    assert(header.take(3) =~= webhook_prefix());
    assert(header.skip(3) =~= hex_lower_bytes(tag));
}

/// What a webhook signature covers is the timestamp bytes, the byte `.`, and
/// every byte of the body, whatever its length: the content is exactly that
/// concatenation, and different bodies give different contents.
pub proof fn lemma_signed_content_covers_body(timestamp: Seq<u8>, body1: Seq<u8>, body2: Seq<u8>)
    ensures
        webhook_signed_content(timestamp, body1) == timestamp + seq![46u8] + body1,
        webhook_signed_content(timestamp, body1).len() == timestamp.len() + 1 + body1.len(),
        webhook_signed_content(timestamp, body1).skip(timestamp.len() as int + 1) == body1,
        body1 != body2 ==> webhook_signed_content(timestamp, body1) != webhook_signed_content(
            timestamp,
            body2,
        ),
{
    let c1 = webhook_signed_content(timestamp, body1);
    let c2 = webhook_signed_content(timestamp, body2);
    assert(c1.skip(timestamp.len() as int + 1) =~= body1);
    assert(c2.skip(timestamp.len() as int + 1) =~= body2);
}

/// A webhook is rejected when the signature header lacks the `v1=` prefix,
/// when the timestamp header is empty, when the window is on and the timestamp
/// is no `i64` number or lies more than `max_age` seconds from `now`, and when
/// the signature does not decode to the HMAC of the signed content.
pub proof fn lemma_webhook_rejections(
    secret: Seq<u8>,
    body: Seq<u8>,
    signature: Seq<u8>,
    timestamp: Seq<u8>,
    max_age: u64,
    now: u64,
)
    ensures
        !(signature.len() >= 3 && signature.take(3) == webhook_prefix()) ==> !webhook_accepted(
            secret,
            body,
            signature,
            timestamp,
            max_age,
            now,
        ),
        timestamp.len() == 0 ==> !webhook_accepted(
            secret,
            body,
            signature,
            timestamp,
            max_age,
            now,
        ),
        max_age > 0 && parse_i64(timestamp) is None ==> !webhook_accepted(
            secret,
            body,
            signature,
            timestamp,
            max_age,
            now,
        ),
        max_age > 0 ==> (parse_i64(timestamp) matches Some(t) && (now - t > max_age || t - now
            > max_age) ==> !webhook_accepted(secret, body, signature, timestamp, max_age, now)),
        hex_decoded(signature.skip(3)) matches Some(tag) && tag != hmac_sha256(
            secret,
            timestamp + seq![46u8] + body,
        ) ==> !webhook_accepted(secret, body, signature, timestamp, max_age, now),
{
    lemma_signed_content_covers_body(timestamp, body, body);
}

/// With the window off (`max_age` 0) the outcome does not depend on the time.
pub proof fn lemma_no_window_ignores_time(
    secret: Seq<u8>,
    body: Seq<u8>,
    signature: Seq<u8>,
    timestamp: Seq<u8>,
    now1: u64,
    now2: u64,
)
    ensures
        webhook_accepted(secret, body, signature, timestamp, 0, now1) == webhook_accepted(
            secret,
            body,
            signature,
            timestamp,
            0,
            now2,
        ),
{
}

} // verus!
