use loopengine::sign::{sign_request, sign_request_at};

#[test]
fn sign_request_format() {
    let (ts, sig) = sign_request("psk_test", "POST", "/feedback", b"{}");
    assert!(!ts.is_empty(), "timestamp must be non-empty");
    assert!(!sig.is_empty(), "signature must be non-empty");
    assert!(sig.starts_with("v1="), "signature must have v1= prefix, got {sig}");
}

#[test]
fn sign_request_deterministic_same_second() {
    // Two calls within the same second must produce the same signature.
    let body = br#"{"project_id":"proj","message":"hi"}"#;
    let (ts1, sig1) = sign_request("psk_test", "POST", "/feedback", body);
    let (ts2, sig2) = sign_request("psk_test", "POST", "/feedback", body);

    if ts1 == ts2 {
        assert_eq!(sig1, sig2, "same timestamp must yield same signature");
    }
}

#[test]
fn sign_request_different_secrets_differ() {
    let body = b"payload";
    let (_, sig1) = sign_request("secret_a", "POST", "/feedback", body);
    let (_, sig2) = sign_request("secret_b", "POST", "/feedback", body);
    assert_ne!(sig1, sig2, "different secrets must produce different signatures");
}

#[test]
fn sign_request_at_known_vector() {
    let (ts, sig) = sign_request_at("psk_test", "POST", "/feedback", b"{}", 1700000000);
    assert_eq!(ts, "1700000000");
    assert_eq!(sig, "v1=NImn13BGez699-gNVRiI-T3fRu5d6LmEqEzB9IFKQuI");
}

#[test]
fn sign_request_at_zero_time_empty_body() {
    let (ts, sig) = sign_request_at("psk_test", "POST", "/feedback", b"", 0);
    assert_eq!(ts, "0");
    assert_eq!(sig, "v1=CrMSHWAuc-VU5uufiX8b-OCjNhZiIGNr5548YcIo-ek");
}

#[test]
fn sign_request_at_is_deterministic_and_time_sensitive() {
    let a = sign_request_at("s", "POST", "/feedback", b"x", 10);
    let b = sign_request_at("s", "POST", "/feedback", b"x", 10);
    let c = sign_request_at("s", "POST", "/feedback", b"x", 11);
    assert_eq!(a, b);
    assert_ne!(a.1, c.1);
    assert_eq!(c.0, "11");
}

#[test]
fn sign_request_timestamp_is_current_unix_time() {
    let before = std::time::SystemTime::now()
        .duration_since(std::time::UNIX_EPOCH)
        .unwrap()
        .as_secs();
    let (ts, _) = sign_request("k", "POST", "/feedback", b"");
    let after = std::time::SystemTime::now()
        .duration_since(std::time::UNIX_EPOCH)
        .unwrap()
        .as_secs();
    let t: u64 = ts.parse().unwrap();
    assert!(before <= t && t <= after);
}

#[test]
fn signature_binds_method_path_and_body() {
    let (_, base) = sign_request_at("k", "POST", "/feedback", b"{}", 5);
    let (_, method) = sign_request_at("k", "PUT", "/feedback", b"{}", 5);
    let (_, path) = sign_request_at("k", "POST", "/other", b"{}", 5);
    let (_, body) = sign_request_at("k", "POST", "/feedback", b"{ }", 5);
    assert_ne!(base, method);
    assert_ne!(base, path);
    assert_ne!(base, body);
}
