use mcp_client::config::McpConfig;
use mcp_client::errors::McpError;
use mcp_client::manager::McpManager;
use mcp_client::parse::parse_json;
use mcp_client::render::json_to_string;
use mcp_client::session::{plan_connect, tool_outcome, McpServer, TransportPlan};

fn ready_session(name: &str, tools_result: &str) -> McpServer {
    let mut s = McpServer::new(name.to_string(), "2025-11-05".to_string());
    let _init = s.start_initialize();
    let init_result = parse_json(r#"{"protocolVersion": "2025-11-05"}"#).unwrap();
    let _notif = s.finish_initialize(&init_result);
    let _list = s.start_tools_list();
    let list_result = parse_json(tools_result).unwrap();
    s.finish_tools_list(&list_result).unwrap();
    s
}

#[test]
fn handshake_emits_the_three_frames_in_order() {
    let mut s = McpServer::new("fs".to_string(), "2025-11-05".to_string());
    let init = s.start_initialize();
    assert_eq!(
        init,
        "{\"jsonrpc\":\"2.0\",\"id\":1,\"method\":\"initialize\",\"params\":{\
         \"protocolVersion\":\"2025-11-05\",\"capabilities\":{},\"clientInfo\":{\
         \"name\":\"mcp_client\",\"version\":\"0.1.0\"}}}"
    );
    let init_result = parse_json(r#"{"protocolVersion": "2025-11-05"}"#).unwrap();
    let notif = s.finish_initialize(&init_result);
    assert_eq!(notif, "{\"jsonrpc\":\"2.0\",\"method\":\"notifications/initialized\"}");
    let list = s.start_tools_list();
    assert_eq!(list, "{\"jsonrpc\":\"2.0\",\"id\":2,\"method\":\"tools/list\",\"params\":{}}");
}

#[test]
fn stdio_happy_path_yields_one_tool() {
    let s = ready_session(
        "fs",
        r#"{"tools": [{"name": "read", "description": "", "inputSchema": {"type": "object"}}]}"#,
    );
    assert_eq!(s.protocol_version(), "2025-11-05");
    assert_eq!(s.tools().len(), 1);
    assert_eq!(s.tools()[0].name, "read");
    assert_eq!(s.tools()[0].server_name, "fs");
    assert_eq!(json_to_string(&s.tools()[0].input_schema), "{\"type\":\"object\"}");
}

#[test]
fn protocol_downgrade_is_recorded() {
    let mut s = McpServer::new("fs".to_string(), "2025-11-05".to_string());
    let _ = s.start_initialize();
    let init_result = parse_json(r#"{"protocolVersion": "2024-01-01"}"#).unwrap();
    let _ = s.finish_initialize(&init_result);
    assert_eq!(s.protocol_version(), "2024-01-01");
    assert_eq!(s.requested_protocol, "2025-11-05");
}

#[test]
fn initialize_reply_without_version_keeps_the_requested_one() {
    let mut s = McpServer::new("fs".to_string(), "2025-11-05".to_string());
    let _ = s.start_initialize();
    let init_result = parse_json(r#"{}"#).unwrap();
    let _ = s.finish_initialize(&init_result);
    assert_eq!(s.protocol_version(), "2025-11-05");
}

#[test]
fn tool_entries_get_defaults() {
    let s = ready_session("fs", r#"{"tools": [{"name": "go"}]}"#);
    assert_eq!(s.tools()[0].description, "");
    assert_eq!(
        json_to_string(&s.tools()[0].input_schema),
        "{\"type\":\"object\",\"properties\":{}}"
    );
}

#[test]
fn tools_list_without_tools_member_fails() {
    let mut s = McpServer::new("fs".to_string(), "2025-11-05".to_string());
    let _ = s.start_initialize();
    let r = parse_json(r#"{}"#).unwrap();
    let _ = s.finish_initialize(&r);
    let _ = s.start_tools_list();
    let bad = parse_json(r#"{"other": 1}"#).unwrap();
    match s.finish_tools_list(&bad) {
        Err(e) => assert_eq!(e.message(), "No tools in response"),
        Ok(()) => panic!("expected a failure"),
    }
    let mut s2 = McpServer::new("fs".to_string(), "2025-11-05".to_string());
    let _ = s2.start_initialize();
    let r2 = parse_json(r#"{}"#).unwrap();
    let _ = s2.finish_initialize(&r2);
    let _ = s2.start_tools_list();
    let bad2 = parse_json(r#"{"tools": 5}"#).unwrap();
    match s2.finish_tools_list(&bad2) {
        Err(e) => assert_eq!(e.message(), "tools is not an array"),
        Ok(()) => panic!("expected a failure"),
    }
}

#[test]
fn call_tool_ids_increase_from_three() {
    let mut s = ready_session("fs", r#"{"tools": []}"#);
    let args1 = parse_json(r#"{"path": "a"}"#).unwrap();
    let (id1, frame1) = s.call_tool_request("read", args1);
    assert_eq!(id1, 3);
    assert_eq!(
        frame1,
        "{\"jsonrpc\":\"2.0\",\"id\":3,\"method\":\"tools/call\",\"params\":{\
         \"name\":\"read\",\"arguments\":{\"path\":\"a\"}}}"
    );
    let args2 = parse_json(r#"{}"#).unwrap();
    let (id2, _) = s.call_tool_request("read", args2);
    assert_eq!(id2, 4);
}

#[test]
fn tool_result_concatenates_texts() {
    let r = parse_json(r#"{"content": [{"text": "a"}, {"type": "image"}, {"text": "b"}]}"#)
        .unwrap();
    assert_eq!(tool_outcome(&r).unwrap(), "a\nb");
}

#[test]
fn tool_error_surfaces_the_text() {
    let r = parse_json(r#"{"isError": true, "content": [{"text": "boom"}]}"#).unwrap();
    match tool_outcome(&r) {
        Err(e) => assert!(e.message().contains("boom")),
        Ok(_) => panic!("expected a failure"),
    }
}

#[test]
fn tool_result_without_content_is_rendered_whole() {
    let r = parse_json(r#"{"answer": 42}"#).unwrap();
    assert_eq!(tool_outcome(&r).unwrap(), "{\n  \"answer\": 42\n}");
    let nested = parse_json(r#"{"a": [1, {"b": []}]}"#).unwrap();
    assert_eq!(
        tool_outcome(&nested).unwrap(),
        "{\n  \"a\": [\n    1,\n    {\n      \"b\": []\n    }\n  ]\n}"
    );
}

#[test]
fn plan_requires_command_for_stdio() {
    let doc = parse_json(r#"{"transport": "stdio"}"#).unwrap();
    let cfg = mcp_client::config::McpServerConfig::from_json(&doc).unwrap();
    match plan_connect("fs", &cfg, None) {
        Err(e) => assert_eq!(
            e.message(),
            "MCP server 'fs' requires `command` when transport=stdio"
        ),
        Ok(_) => panic!("expected a refusal"),
    }
}

#[test]
fn plan_requires_endpoint_for_http() {
    let doc = parse_json(r#"{"transport": "streamable_http"}"#).unwrap();
    let cfg = mcp_client::config::McpServerConfig::from_json(&doc).unwrap();
    match plan_connect("r", &cfg, None) {
        Err(e) => assert_eq!(
            e.message(),
            "MCP server 'r' requires `endpoint` when transport=streamable_http"
        ),
        Ok(_) => panic!("expected a refusal"),
    }
}

#[test]
fn plan_refuses_unknown_transport() {
    let doc = parse_json(r#"{"transport": "carrier-pigeon"}"#).unwrap();
    let cfg = mcp_client::config::McpServerConfig::from_json(&doc).unwrap();
    match plan_connect("p", &cfg, None) {
        Err(e) => assert_eq!(
            e.message(),
            "MCP server 'p' has unsupported transport 'carrier-pigeon'"
        ),
        Ok(_) => panic!("expected a refusal"),
    }
}

#[test]
fn plan_normalizes_the_transport_name() {
    let doc = parse_json(r#"{"transport": "  HTTP ", "endpoint": "http://h/"}"#).unwrap();
    let cfg = mcp_client::config::McpServerConfig::from_json(&doc).unwrap();
    match plan_connect("r", &cfg, None) {
        Ok(p) => match p.transport {
            TransportPlan::Http { endpoint, .. } => assert_eq!(endpoint, "http://h/"),
            _ => panic!("expected the HTTP plan"),
        },
        Err(_) => panic!("expected a plan"),
    }
}

#[test]
fn plan_resolves_the_protocol_version() {
    let doc = parse_json(r#"{"command": "srv"}"#).unwrap();
    let cfg = mcp_client::config::McpServerConfig::from_json(&doc).unwrap();
    let p = plan_connect("s", &cfg, None).unwrap();
    assert_eq!(p.requested_protocol, "2025-11-05");
    let dflt = "2024-06-01".to_string();
    let p2 = plan_connect("s", &cfg, Some(&dflt)).unwrap();
    assert_eq!(p2.requested_protocol, "2024-06-01");
    assert_eq!(p2.timeout_secs, 120);
}

#[test]
fn failed_server_is_skipped_and_the_rest_kept() {
    let good = ready_session("second", r#"{"tools": [{"name": "t"}]}"#);
    let outcomes: Vec<Option<McpServer>> = vec![None, Some(good)];
    let m = McpManager::from_outcomes(outcomes);
    assert_eq!(m.servers().len(), 1);
    assert_eq!(m.servers()[0].name(), "second");
}

#[test]
fn all_tools_keeps_session_and_tool_order() {
    let a = ready_session("a", r#"{"tools": [{"name": "t1"}, {"name": "t2"}]}"#);
    let b = ready_session("b", r#"{"tools": [{"name": "t3"}]}"#);
    let m = McpManager::from_outcomes(vec![Some(a), Some(b)]);
    let tools = m.all_tools();
    assert_eq!(tools.len(), 3);
    assert_eq!((tools[0].0, tools[0].1.name.as_str()), (0, "t1"));
    assert_eq!((tools[1].0, tools[1].1.name.as_str()), (0, "t2"));
    assert_eq!((tools[2].0, tools[2].1.name.as_str()), (1, "t3"));
    assert_eq!(tools[2].1.server_name, "b");
}

#[test]
fn empty_manager_for_missing_or_bad_configuration() {
    // A refused configuration yields an empty manager; so does a missing
    // file, which the host maps to no outcomes at all.
    assert!(McpConfig::parse("{").is_none());
    let m = McpManager::from_outcomes(Vec::new());
    assert_eq!(m.servers().len(), 0);
    assert_eq!(m.all_tools().len(), 0);
}

#[test]
fn transport_init_error_text_passes_through() {
    let e = McpError::TransportInit("Failed to spawn MCP server 'fs': no such file".to_string());
    assert_eq!(e.message(), "Failed to spawn MCP server 'fs': no such file");
}
