use mcp_client::codec::{
    decode_reply, http_reply, notification_line, request_line, Reply, RpcFailure,
};
use mcp_client::errors::McpError;
use mcp_client::json::Json;
use mcp_client::parse::parse_json;
use mcp_client::render::json_to_string;
use mcp_client::text::{ascii_lower_str, i64_to_dec, trim_str, u64_to_dec};

#[test]
fn request_line_exact_text() {
    let params = parse_json(r#"{"a": 1}"#).unwrap();
    let line = request_line(7, "tools/call", Some(&params));
    assert_eq!(line, "{\"jsonrpc\":\"2.0\",\"id\":7,\"method\":\"tools/call\",\"params\":{\"a\":1}}");
}

#[test]
fn request_line_without_params() {
    let line = request_line(1, "ping", None);
    assert_eq!(line, "{\"jsonrpc\":\"2.0\",\"id\":1,\"method\":\"ping\"}");
}

#[test]
fn notification_line_has_no_id() {
    let line = notification_line("notifications/initialized", None);
    assert_eq!(line, "{\"jsonrpc\":\"2.0\",\"method\":\"notifications/initialized\"}");
}

#[test]
fn render_escapes_strings() {
    let v = Json::Str("a\"b\\c\nd\te\u{1}".to_string());
    assert_eq!(json_to_string(&v), "\"a\\\"b\\\\c\\nd\\te\\u0001\"");
}

#[test]
fn render_numbers_and_nesting() {
    let doc = parse_json(r#"{"n": -5, "u": 7, "f": 1.5, "a": [true, null, "s"], "o": {}}"#)
        .unwrap();
    // serde_json's value map orders keys; the renderer keeps that order.
    assert_eq!(
        json_to_string(&doc),
        "{\"a\":[true,null,\"s\"],\"f\":1.5,\"n\":-5,\"o\":{},\"u\":7}"
    );
}

#[test]
fn decimal_rendering() {
    assert_eq!(u64_to_dec(0), "0");
    assert_eq!(u64_to_dec(1234567890), "1234567890");
    assert_eq!(u64_to_dec(u64::MAX), "18446744073709551615");
    assert_eq!(i64_to_dec(-1), "-1");
    assert_eq!(i64_to_dec(i64::MIN), "-9223372036854775808");
    assert_eq!(i64_to_dec(42), "42");
}

#[test]
fn trim_and_lower() {
    assert_eq!(trim_str("  hi\t"), "hi");
    assert_eq!(trim_str(" \u{a0} "), "");
    assert_eq!(trim_str("x"), "x");
    assert_eq!(ascii_lower_str("Streamable_HTTP"), "streamable_http");
}

#[test]
fn reply_with_matching_id_is_accepted() {
    let j = parse_json(r#"{"jsonrpc": "2.0", "id": 3, "result": {"ok": true}}"#).unwrap();
    match decode_reply(&j, 3) {
        Reply::Value(v) => assert_eq!(json_to_string(&v), "{\"ok\":true}"),
        _ => panic!("expected a value"),
    }
}

#[test]
fn reply_with_other_id_is_skipped() {
    let j = parse_json(r#"{"jsonrpc": "2.0", "id": 4, "result": 1}"#).unwrap();
    assert!(matches!(decode_reply(&j, 3), Reply::NotReply));
}

#[test]
fn unsolicited_notification_is_skipped() {
    let j = parse_json(r#"{"jsonrpc": "2.0", "method": "notifications/progress"}"#).unwrap();
    assert!(matches!(decode_reply(&j, 3), Reply::NotReply));
}

#[test]
fn reply_without_id_but_with_result_is_accepted() {
    let j = parse_json(r#"{"result": 5}"#).unwrap();
    match decode_reply(&j, 9) {
        Reply::Value(v) => assert_eq!(json_to_string(&v), "5"),
        _ => panic!("expected a value"),
    }
}

#[test]
fn reply_with_error_object_surfaces_code_and_message() {
    let j = parse_json(r#"{"id": 2, "error": {"code": -32600, "message": "Invalid Request"}}"#)
        .unwrap();
    match decode_reply(&j, 2) {
        Reply::Failure(RpcFailure { code, message }) => {
            assert_eq!(code, -32600);
            assert_eq!(message, "Invalid Request");
        }
        _ => panic!("expected a failure"),
    }
    let e = McpError::Rpc { code: -32600, message: "Invalid Request".to_string() };
    assert_eq!(e.message(), "MCP error (-32600): Invalid Request");
}

#[test]
fn reply_with_malformed_error_is_skipped() {
    let j = parse_json(r#"{"id": 2, "error": {"code": "x"}}"#).unwrap();
    assert!(matches!(decode_reply(&j, 2), Reply::NotReply));
}

#[test]
fn reply_with_null_result_is_null() {
    let j = parse_json(r#"{"id": 1, "result": null, "error": null}"#).unwrap();
    // A null result reads as absent, so the reply is accepted only by id.
    match decode_reply(&j, 1) {
        Reply::Value(v) => assert_eq!(json_to_string(&v), "null"),
        _ => panic!("expected a value"),
    }
}

#[test]
fn http_error_status_carries_status_and_body() {
    let body = parse_json(r#"{"x":1}"#).unwrap();
    match http_reply(false, 500, body) {
        Err(e) => {
            let msg = e.message();
            assert!(msg.contains("500"));
            assert!(msg.contains("{\"x\":1}"));
            assert_eq!(msg, "HTTP MCP request failed with 500: {\"x\":1}");
        }
        Ok(_) => panic!("expected a failure"),
    }
}

#[test]
fn http_success_honors_response_record() {
    let body = parse_json(r#"{"jsonrpc": "2.0", "id": 1, "result": {"tools": []}}"#).unwrap();
    match http_reply(true, 200, body) {
        Ok(v) => assert_eq!(json_to_string(&v), "{\"tools\":[]}"),
        Err(_) => panic!("expected a value"),
    }
}

#[test]
fn http_success_with_error_record_fails() {
    let body = parse_json(r#"{"error": {"code": 1, "message": "boom"}}"#).unwrap();
    match http_reply(true, 200, body) {
        Err(e) => assert_eq!(e.message(), "MCP error (1): boom"),
        Ok(_) => panic!("expected a failure"),
    }
}

#[test]
fn http_non_record_body_is_returned_whole() {
    let body = parse_json(r#"[1, 2]"#).unwrap();
    match http_reply(true, 200, body) {
        Ok(v) => assert_eq!(json_to_string(&v), "[1,2]"),
        Err(_) => panic!("expected a value"),
    }
}

#[test]
fn json_get_finds_members() {
    let j = parse_json(r#"{"a": 1, "b": {"c": 2}}"#).unwrap();
    assert!(j.get("a").is_some());
    assert!(j.get("missing").is_none());
    let b = j.get("b").unwrap();
    assert_eq!(json_to_string(b.get("c").unwrap()), "2");
}

#[test]
fn error_messages_by_kind() {
    assert_eq!(
        McpError::Timeout(120).message(),
        "MCP server response timeout (120s)"
    );
    assert_eq!(McpError::ConnectionClosed.message(), "MCP server closed connection");
    assert_eq!(McpError::Protocol("No tools in response".to_string()).message(),
        "No tools in response");
}

#[test]
fn handshake_error_text_passes_through() {
    let e = McpError::Handshake("HTTP request failed: connection refused".to_string());
    assert_eq!(e.message(), "HTTP request failed: connection refused");
    let c = McpError::Config("bad entry".to_string());
    assert_eq!(c.message(), "bad entry");
}
