use std::sync::Arc;

use ssh_mcp::config::{Config, LimitConfig, ServerConfig, TargetConfig};
use ssh_mcp::json::{JsonMember, JsonValue};
use ssh_mcp::jsonrpc::JsonRpcRequest;
use ssh_mcp::mcp::{
    initialize_result, invalid_run_arguments, plan_request, plan_tool_call, run_report, ssh_error_result,
    targets_result, tools, AppState, RequestPlan, ToolCall,
};
use ssh_mcp::ssh::SshRunError;

fn target(name: &str, port: u16) -> TargetConfig {
    TargetConfig {
        name: name.to_string(),
        host: format!("{name}.lan"),
        port,
        user: "me".to_string(),
        key_path: "/secret/key".to_string(),
        known_hosts_path: "/secret/hosts".to_string(),
        connect_timeout_seconds: 10,
        server_alive_interval_seconds: 10,
        server_alive_count_max: 2,
    }
}

fn state() -> AppState {
    AppState::new(Arc::new(Config {
        server: ServerConfig::default(),
        limits: LimitConfig::default(),
        targets: vec![target("b", 22), target("a", 2022)],
    }))
}

fn text(s: &str) -> JsonValue {
    JsonValue::Text(s.to_string())
}

fn obj(members: Vec<(&str, JsonValue)>) -> JsonValue {
    JsonValue::Object(members.into_iter().map(|(k, v)| JsonMember { key: k.to_string(), value: v }).collect())
}

fn request(method: &str, params: JsonValue) -> JsonRpcRequest {
    JsonRpcRequest { jsonrpc: Some("2.0".to_string()), id: Some(text("1")), method: method.to_string(), params }
}

fn get_text<'a>(v: &'a JsonValue, key: &str) -> &'a str {
    match v.get(key) {
        Some(JsonValue::Text(t)) => t.as_str(),
        _ => panic!("no text under {key}"),
    }
}

#[test]
fn initialize_reports_server() {
    let s = state();
    let v = initialize_result(&s, "0.1.0");
    assert_eq!(get_text(&v, "protocolVersion"), "2025-06-18");
    let info = v.get("serverInfo").unwrap();
    assert_eq!(get_text(info, "name"), "SSH MCP");
    assert_eq!(get_text(info, "version"), "0.1.0");
    assert!(matches!(v.get("capabilities").and_then(|c| c.get("tools")).and_then(|t| t.get("listChanged")), Some(JsonValue::Bool(false))));
    assert!(get_text(&v, "instructions").contains("ssh_targets"));
}

#[test]
fn plans_by_method() {
    let s = state();
    assert!(matches!(plan_request(&s, &request("initialize", JsonValue::Null), "1"), RequestPlan::Respond(Ok(_))));
    match plan_request(&s, &request("ping", JsonValue::Null), "1") {
        RequestPlan::Respond(Ok(JsonValue::Object(m))) => assert!(m.is_empty()),
        _ => panic!(),
    }
    assert!(matches!(plan_request(&s, &request("tools/list", JsonValue::Null), "1"), RequestPlan::ListTools));
    match plan_request(&s, &request("resources/list", JsonValue::Null), "1") {
        RequestPlan::Respond(Err(e)) => {
            assert_eq!(e.code, -32601);
            assert_eq!(e.message, "method not found: resources/list");
        }
        _ => panic!(),
    }
}

#[test]
fn plans_tool_calls() {
    let s = state();
    let p = obj(vec![("name", text("ssh_targets"))]);
    assert!(matches!(plan_request(&s, &request("tools/call", p), "1"), RequestPlan::ListTargets));
    let p = obj(vec![("name", text("ssh_run")), ("arguments", obj(vec![("target", text("a"))]))]);
    match plan_request(&s, &request("tools/call", p), "1") {
        RequestPlan::RunTool(args) => assert_eq!(get_text(&args, "target"), "a"),
        _ => panic!(),
    }
    match plan_tool_call(&obj(vec![("name", text("ssh_run"))])).ok().unwrap() {
        ToolCall::Run(JsonValue::Object(m)) => assert!(m.is_empty()),
        _ => panic!("arguments default to an empty object"),
    }
    match plan_tool_call(&obj(vec![("name", text("rm_rf"))])) {
        Err(e) => {
            assert_eq!(e.code, -32602);
            assert_eq!(e.message, "unknown tool: rm_rf");
        }
        Ok(_) => panic!(),
    }
    for params in [JsonValue::Null, obj(vec![("name", JsonValue::Number("3".to_string()))]), obj(vec![])] {
        match plan_tool_call(&params) {
            Err(e) => assert_eq!(e.message, "tools/call requires string params.name"),
            Ok(_) => panic!(),
        }
    }
}

#[test]
fn lists_tools_and_targets() {
    let t = tools(JsonValue::Null, JsonValue::Bool(true));
    assert_eq!(t.len(), 2);
    assert_eq!(t[0].name, "ssh_targets");
    assert_eq!(t[1].name, "ssh_run");
    assert!(matches!(t[1].input_schema, JsonValue::Bool(true)));
    let s = state();
    let infos = targets_result(&s);
    assert_eq!(infos.len(), 2);
    assert_eq!(infos[0].name, "a");
    assert_eq!(infos[0].port, 2022);
    assert_eq!(infos[1].name, "b");
    assert_eq!(infos[1].host, "b.lan");
}

#[test]
fn reports_run_errors() {
    let v = ssh_error_result(&SshRunError::InvalidTimeout(300));
    assert!(matches!(v.get("ok"), Some(JsonValue::Bool(false))));
    let e = v.get("error").unwrap();
    assert_eq!(get_text(e, "code"), "invalid_timeout");
    assert_eq!(get_text(e, "message"), "timeout_seconds must be between 1 and 300");
    let (_, is_error) = run_report(Err(SshRunError::UnknownTarget("x".to_string())));
    assert!(is_error);
    let (v, is_error) = run_report(Ok(JsonValue::Null));
    assert!(!is_error);
    assert!(matches!(v, JsonValue::Null));
    let e = invalid_run_arguments("missing field `command`");
    assert_eq!(e.code, -32602);
    assert_eq!(e.message, "invalid ssh_run arguments: missing field `command`");
}
