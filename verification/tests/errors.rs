use semantic_probe::json::{parse_json, Json, JsonNumber};
use semantic_probe::semantic_error::{
    event_error_message, is_meaningful_error, is_success_code, json_error_message,
    sse_error_message, truncate_message, value_error_message, MAX_ERROR_MESSAGE_CHARS,
};
use semantic_probe::sse::SseEvent;

fn message(body: &str) -> Option<String> {
    json_error_message(body.as_bytes())
}

fn text(s: &str) -> Json {
    Json::String(s.to_string())
}

#[test]
fn recognizes_common_error_envelopes() {
    assert_eq!(
        json_error_message(
            br#"{"error":{"code":"insufficient_quota","message":"balance exhausted"}}"#,
        )
        .as_deref(),
        Some("insufficient_quota: balance exhausted")
    );
    assert_eq!(
        json_error_message(r#"{"success":false,"message":"余额不足"}"#.as_bytes()).as_deref(),
        Some("余额不足")
    );
    assert_eq!(
        json_error_message(br#"{"code":1006,"msg":"quota exceeded"}"#).as_deref(),
        Some("1006: quota exceeded")
    );
}

#[test]
fn ignores_success_payloads_and_success_codes() {
    assert!(json_error_message(br#"{"error":null,"choices":[{}]}"#).is_none());
    assert!(json_error_message(br#"{"error":{},"choices":[{}]}"#).is_none());
    assert!(json_error_message(br#"{"error":"","choices":[{}]}"#).is_none());
    assert!(json_error_message(br#"{"status":"incomplete","output":[]}"#).is_none());
    assert_eq!(
        json_error_message(br#"{"status":503,"message":"temporarily unavailable"}"#).as_deref(),
        Some("503: temporarily unavailable")
    );
    assert!(json_error_message(br#"{"code":200,"msg":"ok","data":{}}"#).is_none());
    assert!(json_error_message(br#"{"message":"normal metadata","data":{}}"#).is_none());
    assert_eq!(
        json_error_message(br#"{"data":{"code":1006,"msg":"balance exhausted"}}"#).as_deref(),
        Some("1006: balance exhausted")
    );
}

#[test]
fn recognizes_sse_error_events_and_data() {
    assert_eq!(
        sse_error_message(
            "event: error\ndata: {\"error\":{\"type\":\"overloaded\",\"message\":\"busy\"}}"
        )
        .as_deref(),
        Some("overloaded: busy")
    );
    assert_eq!(
        sse_error_message("data: {\"code\":429,\"msg\":\"quota exceeded\"}").as_deref(),
        Some("429: quota exceeded")
    );
    assert!(sse_error_message("data: {\"choices\":[{\"delta\":{}}]}").is_none());
}

#[test]
fn every_envelope_shape_has_its_message() {
    assert_eq!(message("{\"error\":\"bad key\"}").as_deref(), Some("bad key"));
    assert_eq!(
        message("{\"error\":true,\"message\":\"m\"}").as_deref(),
        Some("m")
    );
    assert_eq!(
        message("{\"error\":true}").as_deref(),
        Some("upstream reported failure")
    );
    assert_eq!(message("{\"error\":[1]}").as_deref(), Some("upstream error"));
    assert_eq!(
        message("{\"error\":{\"param\":\"model\"}}").as_deref(),
        Some("upstream error")
    );
    assert_eq!(message("{\"ok\":false}").as_deref(), Some("upstream reported failure"));
    assert_eq!(
        message("{\"ok\":false,\"code\":7}").as_deref(),
        Some("7: upstream reported failure")
    );
    assert_eq!(message("{\"status\":\"Failed\"}").as_deref(), Some("Failed: Failed"));
    assert_eq!(
        message("{\"status\":\"overloaded\",\"detail\":\"later\"}").as_deref(),
        Some("overloaded: later")
    );
    assert_eq!(
        message("{\"status\":400,\"error_description\":\"bad\"}").as_deref(),
        Some("400: bad")
    );
    assert_eq!(message("{\"status\":399,\"msg\":\"x\"}"), None);
    assert_eq!(message("{\"status\":500}"), None);
    assert_eq!(message("{\"type\":\"ERROR\"}").as_deref(), Some("ERROR: upstream error"));
    assert_eq!(
        message("{\"type\":\"error_event\",\"msg\":\"x\"}").as_deref(),
        Some("error_event: x")
    );
    assert_eq!(
        message("{\"errorCode\":\"E1\",\"msg\":\"x\"}").as_deref(),
        Some("x")
    );
    assert_eq!(
        message("{\"data\":{\"error\":{\"code\":\"c\",\"msg\":\"x\"}}}").as_deref(),
        Some("c: x")
    );
    assert_eq!(
        message("{\"data\":{\"success\":false}}").as_deref(),
        Some("upstream reported failure")
    );
}

#[test]
fn error_objects_without_a_message_are_quoted_as_json() {
    assert_eq!(
        message("{\"error\": {\"type\": \"t\", \"info\": [1, -2, 0.5, null, true, \"a\\n\\\"é\"]}}")
            .as_deref(),
        Some("t: {\"info\":[1,-2,0.5,null,true,\"a\\n\\\"é\"],\"type\":\"t\"}")
    );
    assert_eq!(
        message("{\"error\":{\"code\":-5}}").as_deref(),
        Some("-5: {\"code\":-5}")
    );
    assert_eq!(
        message("{\"data\":{\"error\":{\"status\":2.5}}}").as_deref(),
        Some("2.5: {\"status\":2.5}")
    );
}

#[test]
fn shapes_are_looked_at_in_order() {
    // A meaningful error comes before everything else.
    assert_eq!(
        message("{\"error\":\"e\",\"success\":false,\"code\":1,\"message\":\"m\"}").as_deref(),
        Some("e")
    );
    // What stands under `data` comes last.
    assert_eq!(
        message("{\"code\":1,\"message\":\"top\",\"data\":{\"error\":\"deep\"}}").as_deref(),
        Some("1: top")
    );
    // Only one level is unwrapped, and no other key is.
    assert_eq!(message("{\"data\":{\"data\":{\"error\":\"deep\"}}}"), None);
    assert_eq!(message("{\"output\":{\"error\":\"deep\"}}"), None);
}

#[test]
fn only_objects_are_envelopes() {
    for body in ["null", "true", "0", "\"error\"", "[{\"error\":\"x\"}]", "not json", ""] {
        assert_eq!(message(body), None);
    }
}

#[test]
fn business_codes_need_a_message_beside_them() {
    assert_eq!(message("{\"code\":1006}"), None);
    assert_eq!(message("{\"code\":1006,\"msg\":\"  \"}"), None);
    assert_eq!(message("{\"code\":1006,\"msg\":\"x\"}").as_deref(), Some("1006: x"));
    assert_eq!(message("{\"code\":0,\"msg\":\"x\"}"), None);
    // A success code under one key does not hide a failure under another.
    assert_eq!(
        message("{\"code\":0,\"error_code\":5,\"msg\":\"x\"}").as_deref(),
        Some("0: x")
    );
}

#[test]
fn success_codes_are_numbers_and_words() {
    for code in [
        Json::Number(JsonNumber::Unsigned(0)),
        Json::Number(JsonNumber::Unsigned(200)),
        text(" OK "),
        text("Success"),
        text("succeed"),
        text("0"),
        text("200"),
        text(""),
        text("  "),
    ] {
        assert!(is_success_code(&code));
    }
    for code in [
        Json::Number(JsonNumber::Unsigned(201)),
        Json::Number(JsonNumber::Negative(-1)),
        Json::Number(JsonNumber::Other("0.0".to_string())),
        text("fail"),
        Json::Null,
        Json::Bool(true),
        Json::Array(vec![]),
    ] {
        assert!(!is_success_code(&code));
    }
}

#[test]
fn empty_errors_mean_nothing() {
    assert!(!is_meaningful_error(&Json::Null));
    assert!(!is_meaningful_error(&Json::Bool(false)));
    assert!(is_meaningful_error(&Json::Bool(true)));
    assert!(!is_meaningful_error(&text(" \u{3000}\t")));
    assert!(is_meaningful_error(&text("x")));
    assert!(!is_meaningful_error(&Json::Array(vec![])));
    assert!(is_meaningful_error(&Json::Array(vec![Json::Null])));
    assert!(!is_meaningful_error(&Json::Number(JsonNumber::Unsigned(500))));
    assert!(!is_meaningful_error(&Json::Object(vec![("code".to_string(), text("ok"))])));
    assert!(is_meaningful_error(&Json::Object(vec![("code".to_string(), text("bad"))])));
}

#[test]
fn messages_are_put_on_one_line_and_cut() {
    assert_eq!(truncate_message("  a\t b\r\n\u{a0}c  "), "a b c");
    assert_eq!(truncate_message(""), "");
    assert_eq!(MAX_ERROR_MESSAGE_CHARS, 512);
    let exact = "é".repeat(512);
    assert_eq!(truncate_message(&exact), exact);
    let long = "é".repeat(513);
    assert_eq!(truncate_message(&long), exact + "...");
}

#[test]
fn documents_are_read_with_their_numbers() {
    let json = parse_json(b" {\"b\":[1,-1,18446744073709551615,1.5],\"a\":\"\\u00e9\"} ").unwrap();
    assert_eq!(json.get_str("a"), Some("\u{e9}"));
    assert_eq!(
        json.get("b"),
        Some(&Json::Array(vec![
            Json::Number(JsonNumber::Unsigned(1)),
            Json::Number(JsonNumber::Negative(-1)),
            Json::Number(JsonNumber::Unsigned(u64::MAX)),
            Json::Number(JsonNumber::Other("1.5".to_string())),
        ]))
    );
    assert_eq!(parse_json(b"[true,false,null]"), Some(Json::Array(vec![
        Json::Bool(true),
        Json::Bool(false),
        Json::Null,
    ])));
    assert_eq!(parse_json(b"{"), None);
    assert_eq!(parse_json(b"1 2"), None);
    assert_eq!(parse_json(b"\"\xFF\""), None);
}

#[test]
fn the_written_error_is_used_where_there_is_no_message() {
    let json = Json::Object(vec![(
        "error".to_string(),
        Json::Object(vec![("type".to_string(), text("kind"))]),
    )]);
    assert_eq!(
        value_error_message(&json, "written here", "not this").as_deref(),
        Some("kind: written here")
    );
    let wrapped = Json::Object(vec![("data".to_string(), json)]);
    assert_eq!(
        value_error_message(&wrapped, "not this", "written  there").as_deref(),
        Some("kind: written there")
    );
}

#[test]
fn error_events_are_reported_whatever_they_carry() {
    let plain = "upstream emitted an error event";
    assert_eq!(sse_error_message("event: error").as_deref(), Some(plain));
    assert_eq!(sse_error_message("event: ERROR\ndata: [DONE]").as_deref(), Some(plain));
    assert_eq!(sse_error_message("event: response.failed\ndata:  ").as_deref(), Some(plain));
    assert_eq!(
        sse_error_message("event: response.error\r\ndata: it\r\ndata: broke\r\n").as_deref(),
        Some("it broke")
    );
    assert_eq!(
        sse_error_message("event: error\ndata: {\"id\":1}").as_deref(),
        Some("{\"id\":1}")
    );
    assert_eq!(sse_error_message("event: ping"), None);
    assert_eq!(sse_error_message("data: [DONE]"), None);
    assert_eq!(sse_error_message("event: errors\ndata: x"), None);
    assert_eq!(sse_error_message(""), None);
}

#[test]
fn what_an_event_says_follows_its_name_and_data() {
    let event = SseEvent {
        name: Some("Error".chars().collect()),
        data: vec!["x".chars().collect()],
    };
    assert_eq!(
        event_error_message(&event, Some("said".to_string())).as_deref(),
        Some("said")
    );
    assert_eq!(event_error_message(&event, None).as_deref(), Some("x"));
    let other = SseEvent { name: None, data: vec!["x".chars().collect()] };
    assert_eq!(
        event_error_message(&other, Some("said".to_string())).as_deref(),
        Some("said")
    );
    assert_eq!(event_error_message(&other, None), None);
}
