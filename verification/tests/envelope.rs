use res_envelope::response::{ContentType, HttpResponse, ResResult};

fn assert_json(r: &HttpResponse) {
    assert_eq!(r.content_type, ContentType::ApplicationJsonUtf8);
    assert_eq!(r.content_type.header_value(), "application/json; charset=utf-8");
}

#[test]
fn success_scenario() {
    let r = ResResult::with_success(42i32);
    assert_eq!(r.status, 200);
    assert_json(&r);
    assert_eq!(r.body, "{\"code\":200,\"data\":42,\"msg\":\"success\"}");
}

#[test]
fn success_msg_scenario() {
    let r = ResResult::with_success_msg(7i32, "created");
    assert_eq!(r.status, 200);
    assert_json(&r);
    assert_eq!(r.body, "{\"code\":200,\"data\":7,\"msg\":\"created\"}");
}

#[test]
fn success_with_string_payload() {
    let r = ResResult::with_success(String::from("ok"));
    assert_eq!(r.status, 200);
    assert_json(&r);
    assert_eq!(r.body, "{\"code\":200,\"data\":\"ok\",\"msg\":\"success\"}");
}

#[test]
fn success_with_vec_payload() {
    let r = ResResult::with_success(vec![1i32, 2, 3]);
    assert_eq!(r.status, 200);
    assert_json(&r);
    assert_eq!(r.body, "{\"code\":200,\"data\":[1,2,3],\"msg\":\"success\"}");
}

#[test]
fn error_scenario() {
    let r = ResResult::<i32>::with_error("not found");
    assert_eq!(r.status, 500);
    assert_json(&r);
    assert_eq!(r.body, "{\"code\":500,\"msg\":\"not found\"}");
}

#[test]
fn error_code_scenario() {
    let r = ResResult::<i32>::with_error_code("bad request", 4001, 400);
    assert_eq!(r.status, 400);
    assert_json(&r);
    assert_eq!(r.body, "{\"code\":4001,\"msg\":\"bad request\"}");
}

#[test]
fn error_with_empty_message() {
    let r = ResResult::<i32>::with_error("");
    assert_eq!(r.status, 500);
    assert_json(&r);
    assert_eq!(r.body, "{\"code\":500,\"msg\":\"\"}");
}

#[test]
fn error_code_negative_code() {
    let r = ResResult::<i32>::with_error_code("x", -5, 502);
    assert_eq!(r.status, 502);
    assert_eq!(r.body, "{\"code\":-5,\"msg\":\"x\"}");
}

#[test]
fn error_code_extreme_codes() {
    let r = ResResult::<i32>::with_error_code("x", i32::MIN, 500);
    assert_eq!(r.body, "{\"code\":-2147483648,\"msg\":\"x\"}");
    let r = ResResult::<i32>::with_error_code("x", i32::MAX, 500);
    assert_eq!(r.body, "{\"code\":2147483647,\"msg\":\"x\"}");
}

#[test]
fn data_key_omitted_on_error() {
    let r = ResResult::<i32>::with_error("data: all of it was lost");
    assert!(!r.body.contains("\"data\":"));
    assert!(!r.body.contains("null"));
}

#[test]
fn both_keys_omitted_on_default() {
    let envelope: ResResult<i32> = Default::default();
    let r = envelope.into_response(200);
    assert_eq!(r.status, 200);
    assert_json(&r);
    assert_eq!(r.body, "{\"code\":0}");
}

#[test]
fn message_is_escaped() {
    let r = ResResult::<i32>::with_error("a\"b\\c\nd\te\r\u{08}\u{0C}\u{01}\u{1f}");
    assert_eq!(
        r.body,
        "{\"code\":500,\"msg\":\"a\\\"b\\\\c\\nd\\te\\r\\b\\f\\u0001\\u001f\"}"
    );
}

#[test]
fn escaping_matches_serde() {
    // the envelope body must be byte-identical to what the JSON serializer
    // itself produces for the same object (its key order is alphabetical,
    // which here coincides with code, msg)
    let msg = "weird \"quotes\" & \\slashes\\, control \u{0}\u{1f}\t\r\n, unicode héé✓";
    let r = ResResult::<i32>::with_error(msg);
    let mut obj = serde_json::Map::new();
    obj.insert("code".to_string(), serde_json::Value::from(500i32));
    obj.insert("msg".to_string(), serde_json::Value::from(msg));
    let expected = serde_json::to_string(&serde_json::Value::Object(obj)).unwrap();
    assert_eq!(r.body, expected);
}

#[test]
fn serialization_twice_is_identical() {
    let first = ResResult::<i32>::with_error_code("same", 7, 400);
    let second = ResResult::<i32>::with_error_code("same", 7, 400);
    assert_eq!(first.body, second.body);
    assert_eq!(first.status, second.status);
    assert_eq!(first.content_type, second.content_type);
    let a = ResResult::with_success(5i32);
    let b = ResResult::with_success(5i32);
    assert_eq!(a.body, b.body);
}

#[test]
fn serialization_failure_falls_back() {
    // a map whose keys are not strings cannot be rendered as JSON
    let mut bad = std::collections::BTreeMap::new();
    bad.insert((1u8, 2u8), 3u8);
    let r = ResResult::with_success(bad);
    assert_eq!(r.status, 500);
    assert_eq!(r.content_type, ContentType::TextPlainUtf8);
    assert_eq!(r.content_type.header_value(), "text/plain; charset=utf-8");
    assert!(!r.body.is_empty());
}

#[test]
fn serialization_failure_from_any_constructor() {
    let mut bad = std::collections::BTreeMap::new();
    bad.insert(vec![1u8], 2u8);
    let r = ResResult::with_success_msg(bad, "will not make it");
    assert_eq!(r.status, 500);
    assert_eq!(r.content_type, ContentType::TextPlainUtf8);
    assert!(!r.body.is_empty());
}

#[test]
fn render_response_inserts_payload_verbatim() {
    let r = res_envelope::response::render_response(
        418,
        9,
        Some(Ok(String::from("[true,null]"))),
        Some(String::from("m")),
    );
    assert_eq!(r.status, 418);
    assert_eq!(r.content_type, ContentType::ApplicationJsonUtf8);
    assert_eq!(r.body, "{\"code\":9,\"data\":[true,null],\"msg\":\"m\"}");
}

#[test]
fn render_response_fault_keeps_description() {
    let r = res_envelope::response::render_response(
        200,
        200,
        Some(Err(String::from("boom"))),
        Some(String::from("ignored")),
    );
    assert_eq!(r.status, 500);
    assert_eq!(r.content_type, ContentType::TextPlainUtf8);
    assert_eq!(r.body, "boom");
}

#[test]
fn render_response_fault_with_empty_description() {
    let r = res_envelope::response::render_response(200, 200, Some(Err(String::new())), None);
    assert_eq!(r.status, 500);
    assert_eq!(r.content_type, ContentType::TextPlainUtf8);
    assert_eq!(r.body, "serialization failed");
}

#[test]
fn msg_key_omitted_with_payload() {
    let r = res_envelope::response::render_response(200, 200, Some(Ok(String::from("5"))), None);
    assert_eq!(r.body, "{\"code\":200,\"data\":5}");
    assert!(!r.body.contains("\"msg\":"));
}
