//! Signing of outgoing requests: HMAC-SHA256 over
//! `"METHOD\nPATH\nTIMESTAMP\nSHA256(body)"`, base64url without padding,
//! behind the prefix `v1=`.

use vstd::prelude::*;
use vstd::utf8::{encode_utf8, encode_utf8_decode_utf8};
use crate::crypto::{hmac_sha256, hmac_sha256_tag, sha256, sha256_digest, read_clock, clock_reading};
use crate::encoding::{
    base64url_encode, base64url_nopad, hex_encode, lemma_base64url_injective, hex_lower, hex_lower_bytes, lemma_hex_round_trip,
};
use crate::text::{decimal, decimal_string, lemma_decimal_nonempty};

verus! {

/// The string that a request signature covers: method, path, timestamp and
/// the hex SHA-256 of the body, separated by newlines.
pub open spec fn canonical_request(
    method: Seq<char>,
    path: Seq<char>,
    timestamp: Seq<char>,
    body_hash: Seq<char>,
) -> Seq<char> {
    method + seq!['\n'] + path + seq!['\n'] + timestamp + seq!['\n'] + body_hash
}

/// The version prefix of a signature: `v1=`.
pub open spec fn signature_prefix() -> Seq<char> {
    seq!['v', '1', '=']
}

/// The signature of a request: `v1=` followed by the base64url (no padding)
/// HMAC-SHA256, keyed with the UTF-8 bytes of `secret`, of the UTF-8 bytes of
/// the canonical request string.
pub open spec fn request_signature(
    secret: Seq<char>,
    method: Seq<char>,
    path: Seq<char>,
    timestamp: Seq<char>,
    body: Seq<u8>,
) -> Seq<char> {
    signature_prefix() + base64url_nopad(
        hmac_sha256(
            encode_utf8(secret),
            encode_utf8(canonical_request(method, path, timestamp, hex_lower(sha256(body)))),
        ),
    )
}

/// The canonical request string: `method`, `path`, `timestamp` and
/// `body_hash`, separated by newlines.
pub fn canonical_request_string(method: &str, path: &str, timestamp: &str, body_hash: &str) -> (s:
    String)
    ensures
        s@ == canonical_request(method@, path@, timestamp@, body_hash@),
{
    proof {
        reveal_strlit("\n");
    }
    let mut canonical = method.to_owned();
    canonical.append("\n");
    canonical.append(path);
    canonical.append("\n");
    canonical.append(timestamp);
    canonical.append("\n");
    canonical.append(body_hash);
    canonical
}

/// The signature header value for the HMAC tag `tag`: `v1=` followed by the
/// base64url encoding (no padding) of the tag.
pub fn signature_value(tag: &[u8]) -> (s: String)
    ensures
        s@ == signature_prefix() + base64url_nopad(tag@),
{
    proof {
        reveal_strlit("v1=");
    }
    let encoded = base64url_encode(tag);
    let mut sig = "v1=".to_owned();
    sig.append(encoded.as_str());
    sig
}

/// Returns `(timestamp, signature)` for a request made at `now_secs` seconds
/// after the Unix epoch: the timestamp is `now_secs` in decimal, and the
/// signature is [`request_signature`] over that timestamp.
pub fn sign_request_at(secret: &str, method: &str, path: &str, body: &[u8], now_secs: u64) -> (r: (
    String,
    String,
))
    ensures
        r.0@ == decimal(now_secs as nat),
        r.1@ == request_signature(secret@, method@, path@, r.0@, body@),
{
    let ts = decimal_string(now_secs);
    let digest = sha256_digest(body);
    let body_hash = hex_encode(digest.as_slice());
    let canonical = canonical_request_string(method, path, ts.as_str(), body_hash.as_str());
    let tag = hmac_sha256_tag(secret.as_bytes(), canonical.as_str().as_bytes());
    let sig = signature_value(tag.as_slice());
    (ts, sig)
}

/// Returns `(timestamp, signature)` for a request made now: the timestamp is
/// the reading of the system clock (whole seconds since the Unix epoch), as
/// it came back from the clock, in decimal, and the signature is
/// [`request_signature`] over that timestamp.
pub fn sign_request(secret: &str, method: &str, path: &str, body: &[u8]) -> (r: (String, String))
    ensures
        exists|now: nat| r.0@ == decimal(now),
        r.1@ == request_signature(secret@, method@, path@, r.0@, body@),
        exists|now: u64|
            clock_reading(now) && r.0@ == decimal(now as nat) && r.1@
                == request_signature(secret@, method@, path@, decimal(now as nat), body@),
{
    let now = read_clock();
    sign_request_at(secret, method, path, body, now)
}

/// Every signature is non-empty and starts with `v1=`, and every timestamp
/// that signing produces is a non-empty decimal number.
pub proof fn lemma_signature_format(
    secret: Seq<char>,
    method: Seq<char>,
    path: Seq<char>,
    now: nat,
    body: Seq<u8>,
)
    ensures
        decimal(now).len() > 0,
        request_signature(secret, method, path, decimal(now), body).len() >= 3,
        request_signature(secret, method, path, decimal(now), body).take(3)
            == signature_prefix(),
{
    lemma_decimal_nonempty(now);
    let sig = request_signature(secret, method, path, decimal(now), body);
    assert(sig.take(3) =~= signature_prefix());
}

/// The UTF-8 bytes that the HMAC of a request signature covers.
pub open spec fn signed_message(
    method: Seq<char>,
    path: Seq<char>,
    timestamp: Seq<char>,
    body: Seq<u8>,
) -> Seq<u8> {
    encode_utf8(canonical_request(method, path, timestamp, hex_lower(sha256(body))))
}

proof fn lemma_encode_utf8_injective(a: Seq<char>, b: Seq<char>)
    requires
        a != b,
    ensures
        encode_utf8(a) != encode_utf8(b),
{
    encode_utf8_decode_utf8(a);
    encode_utf8_decode_utf8(b);
}

proof fn lemma_hex_lower_injective(a: Seq<u8>, b: Seq<u8>)
    requires
        a != b,
    ensures
        hex_lower(a) != hex_lower(b),
{
    lemma_hex_round_trip(a);
    lemma_hex_round_trip(b);
    let ha = hex_lower_bytes(a);
    let hb = hex_lower_bytes(b);
    if hex_lower(a) == hex_lower(b) {
        assert(hex_lower(a).len() == ha.len());
        assert forall|i: int| 0 <= i < ha.len() implies ha[i] == hb[i] by {
            assert(hex_lower(a)[i] == (ha[i] as char));
            assert(hex_lower(b)[i] == (hb[i] as char));
            assert(((ha[i] as char) as u32) == ha[i] as u32);
            assert(((hb[i] as char) as u32) == hb[i] as u32);
        }
        assert(ha =~= hb);
    }
}

/// The signature binds the method, the path and the body: with the secret
/// and the timestamp fixed, changing exactly one of method, path or body (a
/// body to one with another SHA-256 digest) changes the bytes whose HMAC the
/// signature carries; and signatures over different HMAC tags differ. So the
/// signatures differ unless HMAC-SHA256 gives one tag for the two messages.
pub proof fn lemma_signature_binds_request(
    secret: Seq<char>,
    method1: Seq<char>,
    method2: Seq<char>,
    path1: Seq<char>,
    path2: Seq<char>,
    timestamp: Seq<char>,
    body1: Seq<u8>,
    body2: Seq<u8>,
)
    ensures
        method1 != method2 && path1 == path2 && body1 == body2 ==> signed_message(
            method1,
            path1,
            timestamp,
            body1,
        ) != signed_message(method2, path2, timestamp, body2),
        method1 == method2 && path1 != path2 && body1 == body2 ==> signed_message(
            method1,
            path1,
            timestamp,
            body1,
        ) != signed_message(method2, path2, timestamp, body2),
        method1 == method2 && path1 == path2 && sha256(body1) != sha256(body2) ==> signed_message(
            method1,
            path1,
            timestamp,
            body1,
        ) != signed_message(method2, path2, timestamp, body2),
        hmac_sha256(encode_utf8(secret), signed_message(method1, path1, timestamp, body1))
            != hmac_sha256(encode_utf8(secret), signed_message(method2, path2, timestamp, body2))
            ==> request_signature(secret, method1, path1, timestamp, body1) != request_signature(
            secret,
            method2,
            path2,
            timestamp,
            body2,
        ),
{
    let t1 = hmac_sha256(encode_utf8(secret), signed_message(method1, path1, timestamp, body1));
    let t2 = hmac_sha256(encode_utf8(secret), signed_message(method2, path2, timestamp, body2));
    if t1 != t2 {
        lemma_base64url_injective(t1, t2);
        let s1 = request_signature(secret, method1, path1, timestamp, body1);
        let s2 = request_signature(secret, method2, path2, timestamp, body2);
        assert(s1.skip(3) =~= base64url_nopad(t1));
        assert(s2.skip(3) =~= base64url_nopad(t2));
    }
    let h1 = hex_lower(sha256(body1));
    let h2 = hex_lower(sha256(body2));
    let c1 = canonical_request(method1, path1, timestamp, h1);
    let c2 = canonical_request(method2, path2, timestamp, h2);
    if method1 != method2 && path1 == path2 && body1 == body2 {
        let rest = seq!['\n'] + path1 + seq!['\n'] + timestamp + seq!['\n'] + h1;
        assert(c1 =~= method1 + rest);
        assert(c2 =~= method2 + rest);
        if c1 == c2 {
            assert(method1 =~= c1.take(method1.len() as int));
            assert(method2 =~= c2.take(method2.len() as int));
        }
        lemma_encode_utf8_injective(c1, c2);
    }
    if method1 == method2 && path1 != path2 && body1 == body2 {
        let head = method1 + seq!['\n'];
        let rest = seq!['\n'] + timestamp + seq!['\n'] + h1;
        assert(c1 =~= head + path1 + rest);
        assert(c2 =~= head + path2 + rest);
        if c1 == c2 {
            assert(path1 =~= c1.subrange(head.len() as int, (head.len() + path1.len()) as int));
            assert(path2 =~= c2.subrange(head.len() as int, (head.len() + path2.len()) as int));
        }
        lemma_encode_utf8_injective(c1, c2);
    }
    if method1 == method2 && path1 == path2 && sha256(body1) != sha256(body2) {
        lemma_hex_lower_injective(sha256(body1), sha256(body2));
        let head = method1 + seq!['\n'] + path1 + seq!['\n'] + timestamp + seq!['\n'];
        assert(c1 =~= head + h1);
        assert(c2 =~= head + h2);
        if c1 == c2 {
            assert(h1 =~= c1.skip(head.len() as int));
            assert(h2 =~= c2.skip(head.len() as int));
        }
        lemma_encode_utf8_injective(c1, c2);
    }
}

} // verus!
