use mcp_client::config::{default_transport, McpConfig, McpServerConfig};
use mcp_client::parse::parse_json;

#[test]
fn test_mcp_config_defaults() {
    let json = r#"{
      "mcpServers": {
        "demo": {
          "command": "npx",
          "args": ["-y", "@modelcontextprotocol/server-filesystem", "."]
        }
      }
    }"#;

    let cfg = McpConfig::parse(json).unwrap();
    let server = cfg.get("demo").unwrap();
    assert_eq!(server.transport, "stdio");
    assert!(server.protocol_version.is_none());
}

#[test]
fn test_mcp_http_config_parse() {
    let json = r#"{
      "default_protocol_version": "2025-11-05",
      "mcpServers": {
        "remote": {
          "transport": "streamable_http",
          "endpoint": "http://127.0.0.1:8080/mcp",
          "headers": {"Authorization": "Bearer test"}
        }
      }
    }"#;

    let cfg = McpConfig::parse(json).unwrap();
    assert_eq!(cfg.default_protocol_version.clone().unwrap(), "2025-11-05");
    let remote = cfg.get("remote").unwrap();
    assert_eq!(remote.transport, "streamable_http");
    assert_eq!(remote.endpoint, "http://127.0.0.1:8080/mcp");
}

#[test]
fn default_transport_is_stdio() {
    assert_eq!(default_transport(), "stdio");
}

#[test]
fn aliases_read_like_canonical_keys() {
    // `url` for `endpoint`, `protocolVersion` for `protocol_version`,
    // `defaultProtocolVersion` for `default_protocol_version`.
    let json = r#"{
      "defaultProtocolVersion": "2024-06-01",
      "mcpServers": {
        "remote": {
          "transport": "http",
          "url": "http://localhost:9000/",
          "protocolVersion": "2025-11-05"
        }
      }
    }"#;
    let cfg = McpConfig::parse(json).unwrap();
    assert_eq!(cfg.default_protocol_version.clone().unwrap(), "2024-06-01");
    let remote = cfg.get("remote").unwrap();
    assert_eq!(remote.endpoint, "http://localhost:9000/");
    assert_eq!(remote.protocol_version.clone().unwrap(), "2025-11-05");
}

#[test]
fn key_under_both_names_is_refused() {
    let json = r#"{
      "mcpServers": {
        "a": { "endpoint": "http://x/", "url": "http://y/" }
      }
    }"#;
    assert!(McpConfig::parse(json).is_none());
}

#[test]
fn absent_keys_get_defaults() {
    let json = r#"{ "mcpServers": { "bare": {} } }"#;
    let cfg = McpConfig::parse(json).unwrap();
    let bare = cfg.get("bare").unwrap();
    assert_eq!(bare.transport, "stdio");
    assert!(bare.protocol_version.is_none());
    assert!(bare.request_timeout_secs.is_none());
    assert_eq!(bare.request_timeout(), 120);
    assert_eq!(bare.command, "");
    assert!(bare.args.is_empty());
    assert!(bare.env.is_empty());
    assert_eq!(bare.endpoint, "");
    assert!(bare.headers.is_empty());
}

#[test]
fn args_env_and_timeout_are_read() {
    let json = r#"{
      "mcpServers": {
        "s": {
          "command": "srv",
          "args": ["a", "b"],
          "env": {"K": "V", "X": "Y"},
          "request_timeout_secs": 7
        }
      }
    }"#;
    let cfg = McpConfig::parse(json).unwrap();
    let s = cfg.get("s").unwrap();
    assert_eq!(s.args, vec!["a".to_string(), "b".to_string()]);
    assert_eq!(s.env.len(), 2);
    assert!(s.env.contains(&("K".to_string(), "V".to_string())));
    assert!(s.env.contains(&("X".to_string(), "Y".to_string())));
    assert_eq!(s.request_timeout_secs, Some(7));
    assert_eq!(s.request_timeout(), 7);
}

#[test]
fn wrong_types_refuse_the_record() {
    // A numeric command refuses the record.
    assert!(McpConfig::parse(r#"{ "mcpServers": { "s": { "command": 3 } } }"#).is_none());
    // A non-array args refuses the record.
    assert!(McpConfig::parse(r#"{ "mcpServers": { "s": { "args": "x" } } }"#).is_none());
    // A non-numeric timeout refuses the record.
    assert!(
        McpConfig::parse(r#"{ "mcpServers": { "s": { "request_timeout_secs": "9" } } }"#)
            .is_none()
    );
    // A missing mcpServers key refuses the whole document.
    assert!(McpConfig::parse(r#"{ "defaultProtocolVersion": "x" }"#).is_none());
    // A document that is not JSON at all.
    assert!(McpConfig::parse("not json").is_none());
    // A document that is JSON but not an object.
    assert!(McpConfig::parse("[1,2]").is_none());
}

#[test]
fn unknown_keys_are_ignored() {
    let json = r#"{
      "future": true,
      "mcpServers": { "s": { "command": "x", "extra": {"deep": [1,2,3]} } }
    }"#;
    let cfg = McpConfig::parse(json).unwrap();
    assert_eq!(cfg.get("s").unwrap().command, "x");
}

#[test]
fn server_from_json_reads_one_record() {
    let doc = parse_json(r#"{"transport": "http", "endpoint": "http://h/"}"#).unwrap();
    let c: McpServerConfig = McpServerConfig::from_json(&doc).unwrap();
    assert_eq!(c.transport, "http");
    assert_eq!(c.endpoint, "http://h/");
}
