use hmac::{Hmac, Mac};
use loopengine::verify_webhook;
use loopengine::webhook::verify_webhook_at;
use sha2::Sha256;
use std::time::{SystemTime, UNIX_EPOCH};

const SECRET: &str = "whsec_live_test_secret";
const BODY: &[u8] = b"{\"event\":\"feedback.created\",\"id\":\"evt_123\"}";

fn make_signature(secret: &str, body: &[u8], ts: &str) -> String {
    let mut mac = Hmac::<Sha256>::new_from_slice(secret.as_bytes()).unwrap();
    mac.update(ts.as_bytes());
    mac.update(b".");
    mac.update(body);
    format!("v1={}", hex::encode(mac.finalize().into_bytes()))
}

fn now_ts() -> String {
    SystemTime::now()
        .duration_since(UNIX_EPOCH)
        .unwrap()
        .as_secs()
        .to_string()
}

#[test]
fn valid_signature() {
    let ts = now_ts();
    let sig = make_signature(SECRET, BODY, &ts);
    assert!(verify_webhook(SECRET, BODY, &sig, &ts, 300));
}

#[test]
fn tampered_signature() {
    let ts = now_ts();
    let mut sig = make_signature(SECRET, BODY, &ts);
    let len = sig.len();
    sig.replace_range(len - 4.., "aaaa");
    assert!(!verify_webhook(SECRET, BODY, &sig, &ts, 300));
}

#[test]
fn wrong_secret() {
    let ts = now_ts();
    let sig = make_signature("wrong_secret", BODY, &ts);
    assert!(!verify_webhook(SECRET, BODY, &sig, &ts, 300));
}

#[test]
fn altered_body() {
    let ts = now_ts();
    let sig = make_signature(SECRET, BODY, &ts);
    let altered = b"{\"event\":\"feedback.created\",\"id\":\"evt_456\"}";
    assert!(!verify_webhook(SECRET, altered, &sig, &ts, 300));
}

#[test]
fn replay_old_timestamp() {
    let old_ts = (SystemTime::now()
        .duration_since(UNIX_EPOCH)
        .unwrap()
        .as_secs()
        - 600)
        .to_string();
    let sig = make_signature(SECRET, BODY, &old_ts);
    assert!(!verify_webhook(SECRET, BODY, &sig, &old_ts, 300));
}

#[test]
fn replay_disabled_with_zero() {
    let old_ts = (SystemTime::now()
        .duration_since(UNIX_EPOCH)
        .unwrap()
        .as_secs()
        - 600)
        .to_string();
    let sig = make_signature(SECRET, BODY, &old_ts);
    assert!(verify_webhook(SECRET, BODY, &sig, &old_ts, 0));
}

#[test]
fn missing_v1_prefix() {
    let ts = now_ts();
    let sig = make_signature(SECRET, BODY, &ts);
    assert!(!verify_webhook(SECRET, BODY, &sig[3..], &ts, 300));
}

#[test]
fn empty_signature_header() {
    let ts = now_ts();
    assert!(!verify_webhook(SECRET, BODY, "", &ts, 300));
}

#[test]
fn empty_timestamp_header() {
    let ts = now_ts();
    let sig = make_signature(SECRET, BODY, &ts);
    assert!(!verify_webhook(SECRET, BODY, &sig, "", 300));
}

#[test]
fn non_numeric_timestamp() {
    let ts = now_ts();
    let sig = make_signature(SECRET, BODY, &ts);
    assert!(!verify_webhook(SECRET, BODY, &sig, "not-a-number", 300));
}

#[test]
fn fixed_time_window_edges() {
    let ts = "1700000000";
    let sig = format!("v1={}", "5d9de84c5500519b12cd87aad4da1d36d83b518a94b02ae52d426adc287326bc");
    assert!(verify_webhook_at(SECRET, BODY, &sig, ts, 300, 1_700_000_000));
    assert!(verify_webhook_at(SECRET, BODY, &sig, ts, 300, 1_700_000_300));
    assert!(verify_webhook_at(SECRET, BODY, &sig, ts, 300, 1_699_999_700));
    assert!(!verify_webhook_at(SECRET, BODY, &sig, ts, 300, 1_700_000_301));
    assert!(!verify_webhook_at(SECRET, BODY, &sig, ts, 300, 1_699_999_699));
    assert!(verify_webhook_at(SECRET, BODY, &sig, ts, 0, 5));
}

#[test]
fn upper_case_hex_is_accepted() {
    let ts = "1700000000";
    let sig = format!("v1={}", "5D9DE84C5500519B12CD87AAD4DA1D36D83B518A94B02AE52D426ADC287326BC");
    assert!(verify_webhook_at(SECRET, BODY, &sig, ts, 300, 1_700_000_000));
}

#[test]
fn malformed_hex_is_rejected() {
    let ts = "1700000000";
    let good = "5d9de84c5500519b12cd87aad4da1d36d83b518a94b02ae52d426adc287326bc";
    assert!(!verify_webhook_at(SECRET, BODY, &format!("v1={}", &good[1..]), ts, 0, 0));
    assert!(!verify_webhook_at(SECRET, BODY, &format!("v1=zz{}", &good[2..]), ts, 0, 0));
    assert!(!verify_webhook_at(SECRET, BODY, "v1=", ts, 0, 0));
    assert!(!verify_webhook_at(SECRET, BODY, &format!("v1={}", &good[..62]), ts, 0, 0));
}

#[test]
fn signed_timestamps_with_sign_and_window() {
    let ts = "+1700000000";
    let sig = make_signature(SECRET, BODY, ts);
    assert!(verify_webhook_at(SECRET, BODY, &sig, ts, 10, 1_700_000_005));
    let ts = "-5";
    let sig = make_signature(SECRET, BODY, ts);
    assert!(verify_webhook_at(SECRET, BODY, &sig, ts, 10, 0));
    assert!(!verify_webhook_at(SECRET, BODY, &sig, ts, 10, 6));
    let ts = "99999999999999999999";
    let sig = make_signature(SECRET, BODY, ts);
    assert!(!verify_webhook_at(SECRET, BODY, &sig, ts, u64::MAX, 0));
    assert!(verify_webhook_at(SECRET, BODY, &sig, ts, 0, 0));
}
