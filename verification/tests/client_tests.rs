use loopengine::client::{api_error, is_success_status, response_result};
use loopengine::{Client, Error, JsonMap, JsonValue};

fn text(s: &str) -> JsonValue {
    JsonValue::String(s.to_string())
}

fn message_payload() -> JsonValue {
    let mut map = JsonMap::new();
    map.insert("message".to_string(), text("hi"));
    JsonValue::Object(map)
}

fn object(v: &JsonValue) -> &JsonMap {
    match v {
        JsonValue::Object(m) => m,
        other => panic!("expected an object, got {:?}", other),
    }
}

fn string_at<'a>(m: &'a JsonMap, key: &str) -> &'a str {
    match m.get(key) {
        Some(JsonValue::String(s)) => s.as_str(),
        other => panic!("expected a string at {key}, got {:?}", other),
    }
}

fn number_at<'a>(m: &'a JsonMap, key: &str) -> &'a str {
    match m.get(key) {
        Some(JsonValue::Number(s)) => s.as_str(),
        other => panic!("expected a number at {key}, got {:?}", other),
    }
}

#[test]
fn new_ok() {
    let c = Client::new("pk", "psk", "proj").unwrap();
    assert_eq!(c.project_key(), "pk");
    assert_eq!(c.project_secret(), "psk");
    assert_eq!(c.project_id(), "proj");
}

#[test]
fn new_missing_credentials() {
    assert!(Client::new("", "psk", "proj").is_err());
    assert!(Client::new("pk", "", "proj").is_err());
    assert!(Client::new("pk", "psk", "").is_err());
}

#[test]
fn new_trims_whitespace() {
    let c = Client::new("  pk  ", "  psk  ", "  proj  ").unwrap();
    assert_eq!(c.project_key(), "pk");
    assert_eq!(c.project_secret(), "psk");
    assert_eq!(c.project_id(), "proj");
}

#[test]
fn build_body_injects_project_id() {
    let c = Client::new("pk", "psk", "proj_123").unwrap();
    let body = c.build_body_with_geo(message_payload(), None, None);
    let m = object(&body);
    assert_eq!(string_at(m, "project_id"), "proj_123");
    assert_eq!(string_at(m, "message"), "hi");
}

#[test]
fn build_body_null_payload() {
    let c = Client::new("pk", "psk", "proj_123").unwrap();
    let body = c.build_body_with_geo(JsonValue::Null, None, None);
    let m = object(&body);
    assert_eq!(string_at(m, "project_id"), "proj_123");
}

#[test]
fn build_body_with_geo_injects_lat_lon() {
    let c = Client::new("pk", "psk", "proj_123").unwrap();
    let body = c.build_body_with_geo(
        message_payload(),
        Some(JsonValue::Number("34.05".to_string())),
        Some(JsonValue::Number("-118.25".to_string())),
    );
    let m = object(&body);
    assert_eq!(string_at(m, "project_id"), "proj_123");
    assert_eq!(string_at(m, "message"), "hi");
    assert_eq!(number_at(m, "geo_lat"), "34.05");
    assert_eq!(number_at(m, "geo_lon"), "-118.25");
}

#[test]
fn build_body_with_geo_omits_when_only_one() {
    let c = Client::new("pk", "psk", "proj_123").unwrap();
    let body = c.build_body_with_geo(
        message_payload(),
        Some(JsonValue::Number("34.05".to_string())),
        None,
    );
    let m = object(&body);
    assert!(m.get("geo_lat").is_none());
    assert!(m.get("geo_lon").is_none());
}

#[test]
fn new_rejects_missing_credentials() {
    assert!(matches!(Client::new("", "psk", "proj"), Err(Error::MissingCredentials)));
    assert!(matches!(Client::new("pk", "", "proj"), Err(Error::MissingCredentials)));
    assert!(matches!(Client::new("pk", "psk", ""), Err(Error::MissingCredentials)));
}

#[test]
fn new_rejects_whitespace_only_credentials() {
    assert!(matches!(Client::new(" \t\n", "psk", "proj"), Err(Error::MissingCredentials)));
    assert!(matches!(Client::new("pk", "\u{3000}", "proj"), Err(Error::MissingCredentials)));
}

#[test]
fn trim_keeps_inner_whitespace_and_unicode_spaces() {
    let c = Client::new("\u{a0}p k\u{2003}", "\r\npsk\t", "\u{85}proj").unwrap();
    assert_eq!(c.project_key(), "p k");
    assert_eq!(c.project_secret(), "psk");
    assert_eq!(c.project_id(), "proj");
}

#[test]
fn builder_defaults_and_overrides() {
    let c = Client::builder(" pk ", "psk", "proj").build().unwrap();
    assert_eq!(c.base_url(), "https://api.loopengine.dev");
    assert_eq!(c.project_key(), "pk");
    let c = Client::builder("pk", "psk", "proj")
        .with_base_url("http://127.0.0.1:9000")
        .with_http_client(reqwest::Client::new())
        .build()
        .unwrap();
    assert_eq!(c.base_url(), "http://127.0.0.1:9000");
    assert!(matches!(
        Client::builder("pk", " ", "proj").build(),
        Err(Error::MissingCredentials)
    ));
}

#[test]
fn build_body_keeps_scalars_and_arrays() {
    let c = Client::new("pk", "psk", "proj").unwrap();
    match c.build_body_with_geo(JsonValue::Number("7".to_string()), None, None) {
        JsonValue::Number(n) => assert_eq!(n, "7"),
        other => panic!("unexpected {:?}", other),
    }
    match c.build_body_with_geo(JsonValue::Array(vec![JsonValue::Bool(true)]), None, None) {
        JsonValue::Array(v) => assert_eq!(v.len(), 1),
        other => panic!("unexpected {:?}", other),
    }
}

#[test]
fn build_body_replaces_existing_project_id() {
    let c = Client::new("pk", "psk", "proj_real").unwrap();
    let mut map = JsonMap::new();
    map.insert("project_id".to_string(), text("spoofed"));
    map.insert("message".to_string(), text("hi"));
    let body = c.build_body_with_geo(JsonValue::Object(map), None, None);
    let m = object(&body);
    assert_eq!(string_at(m, "project_id"), "proj_real");
    assert_eq!(m.len(), 2);
}

#[test]
fn null_payload_with_geo_gets_three_fields() {
    let c = Client::new("pk", "psk", "proj").unwrap();
    let body = c.build_body_with_geo(
        JsonValue::Null,
        Some(JsonValue::Number("1.5".to_string())),
        Some(JsonValue::Number("2".to_string())),
    );
    let m = object(&body);
    assert_eq!(m.len(), 3);
    assert_eq!(number_at(m, "geo_lat"), "1.5");
    assert_eq!(number_at(m, "geo_lon"), "2");
}

#[test]
fn json_map_insert_and_get() {
    let mut m = JsonMap::new();
    assert_eq!(m.len(), 0);
    m.insert("a".to_string(), text("1"));
    m.insert("b".to_string(), text("2"));
    m.insert("a".to_string(), text("3"));
    assert_eq!(m.len(), 2);
    assert_eq!(string_at(&m, "a"), "3");
    assert_eq!(string_at(&m, "b"), "2");
    assert!(m.get("c").is_none());
    let entries = m.into_entries();
    assert_eq!(entries.len(), 2);
}

#[test]
fn signed_request_has_url_headers_and_signature() {
    let c = Client::builder("pk", "psk", "proj")
        .with_base_url("http://localhost:8080")
        .build()
        .unwrap();
    let body = b"{\"project_id\":\"proj\"}".to_vec();
    let r = c.signed_request_at(body.clone(), 42);
    assert_eq!(r.url, "http://localhost:8080/feedback");
    assert_eq!(r.body, body);
    let headers: Vec<(&str, &str)> =
        r.headers.iter().map(|(n, v)| (n.as_str(), v.as_str())).collect();
    assert_eq!(
        headers,
        vec![
            ("Content-Type", "application/json"),
            ("X-Project-Key", "pk"),
            ("X-Timestamp", "42"),
            ("X-Signature", "v1=UEKAqk-mYsD9Ia8ZsQ7GxzycdwEB6DBudsxgtY1deMI"),
        ]
    );
}

#[test]
fn signed_request_now_has_required_headers() {
    let c = Client::new("pk", "psk", "proj").unwrap();
    let r = c.signed_request(b"{}".to_vec());
    assert_eq!(r.url, "https://api.loopengine.dev/feedback");
    let names: Vec<&str> = r.headers.iter().map(|(n, _)| n.as_str()).collect();
    assert_eq!(names, vec!["Content-Type", "X-Project-Key", "X-Timestamp", "X-Signature"]);
    assert!(r.headers[2].1.parse::<u64>().is_ok());
    assert!(r.headers[3].1.starts_with("v1="));
}

#[test]
fn success_statuses() {
    assert!(is_success_status(200));
    assert!(is_success_status(201));
    assert!(is_success_status(299));
    assert!(!is_success_status(199));
    assert!(!is_success_status(300));
    assert!(!is_success_status(401));
    assert!(!is_success_status(500));
}

#[test]
fn api_error_trims_body_and_names_status() {
    let e = api_error(401, "  {\"error\":\"bad key\"}\n");
    match &e {
        Error::ApiError { status, body } => {
            assert_eq!(*status, 401);
            assert_eq!(body, "{\"error\":\"bad key\"}");
        }
        other => panic!("unexpected {:?}", other),
    }
    assert_eq!(e.message(), "loopengine: 401 {\"error\":\"bad key\"}");
    assert!(api_error(500, "server error").message().contains("500"));
}

#[test]
fn missing_credentials_message() {
    assert_eq!(
        Error::MissingCredentials.message(),
        "loopengine: project_key, project_secret, and project_id are required"
    );
}

#[test]
fn serialize_error_message_carries_detail() {
    let inner = serde_json::from_str::<serde_json::Value>("{").unwrap_err();
    let detail = inner.to_string();
    let msg = Error::Serialize(inner).message();
    assert_eq!(msg, format!("loopengine: serialize payload: {detail}"));
}

#[test]
fn http_error_message_carries_detail() {
    let inner = reqwest::Client::new().get("not a url").build().unwrap_err();
    let detail = inner.to_string();
    let msg = Error::Http(inner).message();
    assert_eq!(msg, format!("loopengine: request: {detail}"));
}

#[test]
fn errors_convert_from_outside_errors() {
    let json_err = serde_json::from_str::<serde_json::Value>("[").unwrap_err();
    assert!(matches!(Error::from(json_err), Error::Serialize(_)));
    let http_err = reqwest::Client::new().get("not a url").build().unwrap_err();
    assert!(matches!(Error::from(http_err), Error::Http(_)));
}

#[test]
fn response_result_accepts_2xx_and_reports_others() {
    assert!(response_result(200, "ignored").is_ok());
    assert!(response_result(204, "").is_ok());
    match response_result(401, " {\"error\":\"bad key\"} ") {
        Err(Error::ApiError { status, body }) => {
            assert_eq!(status, 401);
            assert_eq!(body, "{\"error\":\"bad key\"}");
        }
        other => panic!("unexpected {:?}", other),
    }
    assert!(matches!(response_result(500, "server error"), Err(Error::ApiError { status: 500, .. })));
    assert!(matches!(response_result(302, ""), Err(Error::ApiError { status: 302, .. })));
}
