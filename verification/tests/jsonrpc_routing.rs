use ssh_mcp::json::{JsonMember, JsonValue};
use ssh_mcp::jsonrpc::{
    error_response, invalid_params, is_response, json_rpc_id, method_not_found, origin_allowed,
    response_from_result, route_message, tool_result, validate_json_rpc_request, validate_protocol_version,
    JsonRpcRequest, Route, PROTOCOL_VERSION,
};

fn text(s: &str) -> JsonValue {
    JsonValue::Text(s.to_string())
}

fn obj(members: Vec<(&str, JsonValue)>) -> JsonValue {
    JsonValue::Object(members.into_iter().map(|(k, v)| JsonMember { key: k.to_string(), value: v }).collect())
}

fn request(method: &str, id: Option<JsonValue>) -> JsonRpcRequest {
    JsonRpcRequest { jsonrpc: Some("2.0".to_string()), id, method: method.to_string(), params: JsonValue::Null }
}

fn is_text(v: &Option<JsonValue>, expected: &str) -> bool {
    matches!(v, Some(JsonValue::Text(t)) if t == expected)
}

#[test]
fn response_keeps_id_and_sets_one_side() {
    let r = response_from_result(Some(text("7")), Ok(JsonValue::Bool(true)));
    assert_eq!(r.jsonrpc, "2.0");
    assert!(is_text(&r.id, "7"));
    assert!(matches!(r.result, Some(JsonValue::Bool(true))));
    assert!(r.error.is_none());
    let r = response_from_result(None, Err(method_not_found("nope")));
    assert!(r.id.is_none() && r.result.is_none());
    let e = r.error.unwrap();
    assert_eq!(e.code, -32601);
    assert_eq!(e.message, "method not found: nope");
}

#[test]
fn invalid_params_has_its_code() {
    let e = invalid_params("bad".to_string());
    assert_eq!(e.code, -32602);
    assert_eq!(e.message, "bad");
    assert!(e.data.is_none());
}

#[test]
fn tool_result_envelope() {
    let v = tool_result(obj(vec![("a", JsonValue::Number("1".to_string()))]), "{\n  \"a\": 1\n}".to_string(), true);
    let content = v.get("content").unwrap();
    match content {
        JsonValue::Array(items) => {
            assert_eq!(items.len(), 1);
            assert!(is_text(&items[0].get("type").map(|x| x.duplicate()), "text"));
            assert!(is_text(&items[0].get("text").map(|x| x.duplicate()), "{\n  \"a\": 1\n}"));
        }
        _ => panic!("content must be an array"),
    }
    assert!(matches!(v.get("isError"), Some(JsonValue::Bool(true))));
    assert!(matches!(v.get("structuredContent").and_then(|s| s.get("a")), Some(JsonValue::Number(n)) if n == "1"));
}

#[test]
fn origin_rules() {
    let allowed = vec!["https://app.example".to_string()];
    assert!(origin_allowed(&allowed, &None));
    assert!(origin_allowed(&allowed, &Some(b"https://app.example".to_vec())));
    assert!(!origin_allowed(&allowed, &Some(b"https://evil.example".to_vec())));
    assert!(!origin_allowed(&allowed, &Some(vec![0xff, b'a'])));
    assert!(!origin_allowed(&vec![], &Some(b"x".to_vec())));
    let tabbed = vec!["a\tb".to_string()];
    assert!(origin_allowed(&tabbed, &Some(b"a\tb".to_vec())));
    assert!(!origin_allowed(&allowed, &Some(b"https://app.example\n".to_vec())));
}

#[test]
fn protocol_version_rules() {
    assert!(validate_protocol_version(&None).is_ok());
    assert!(validate_protocol_version(&Some(PROTOCOL_VERSION.as_bytes().to_vec())).is_ok());
    assert_eq!(
        validate_protocol_version(&Some(b"2024-11-05".to_vec())).unwrap_err(),
        "unsupported MCP protocol version: 2024-11-05"
    );
    assert_eq!(
        validate_protocol_version(&Some(vec![b'2', 0x7f])).unwrap_err(),
        "invalid MCP-Protocol-Version header"
    );
    assert!(validate_protocol_version(&Some(b"2025-06-18\t".to_vec())).is_err());
}

#[test]
fn request_validation_messages() {
    let mut r = request("ping", Some(text("1")));
    assert!(validate_json_rpc_request(&r).is_none());
    r.jsonrpc = Some("1.0".to_string());
    assert_eq!(validate_json_rpc_request(&r).unwrap(), "JSON-RPC version must be 2.0");
    r.jsonrpc = None;
    assert_eq!(validate_json_rpc_request(&r).unwrap(), "JSON-RPC version must be 2.0");
    let r = request("ping", Some(JsonValue::Null));
    assert_eq!(validate_json_rpc_request(&r).unwrap(), "JSON-RPC request id must be a string or number");
    let r = request("", Some(text("1")));
    assert_eq!(validate_json_rpc_request(&r).unwrap(), "JSON-RPC method must not be empty");
}

#[test]
fn response_messages_and_ids() {
    let resp = obj(vec![("id", JsonValue::Number("3".to_string())), ("result", JsonValue::Null)]);
    assert!(is_response(&resp));
    let req = obj(vec![("id", JsonValue::Number("3".to_string())), ("method", text("ping"))]);
    assert!(!is_response(&req));
    assert!(!is_response(&obj(vec![("id", text("a"))])));
    assert!(matches!(json_rpc_id(&req), Some(JsonValue::Number(n)) if n == "3"));
    assert!(json_rpc_id(&obj(vec![("id", JsonValue::Bool(true))])).is_none());
    assert!(json_rpc_id(&JsonValue::Array(vec![])).is_none());
    let dup = obj(vec![("id", text("first")), ("id", text("second"))]);
    assert!(matches!(json_rpc_id(&dup), Some(JsonValue::Text(t)) if t == "second"));
}

#[test]
fn error_response_parts() {
    let r = error_response(400, Some(text("x")), -32000, "m".to_string(), None);
    assert_eq!(r.status, 400);
    let body = r.body.unwrap();
    assert!(is_text(&body.id, "x"));
    assert_eq!(body.error.unwrap().code, -32000);
}

fn message(id: Option<JsonValue>) -> JsonValue {
    let mut m = vec![("jsonrpc", text("2.0")), ("method", text("ping"))];
    if let Some(id) = id {
        m.push(("id", id));
    }
    obj(m)
}

#[test]
fn route_forbidden_origin() {
    let allowed = vec!["https://ok".to_string()];
    let r = route_message(&allowed, &Some(b"https://bad".to_vec()), &None, &message(Some(text("1"))), Ok(request("ping", Some(text("1")))));
    match r {
        Route::Reply(reply) => {
            assert_eq!(reply.status, 403);
            let body = reply.body.unwrap();
            assert!(body.id.is_none());
            let e = body.error.unwrap();
            assert_eq!(e.code, -32000);
            assert_eq!(e.message, "origin is not allowed");
        }
        Route::Dispatch(_) => panic!("must not dispatch"),
    }
}

#[test]
fn route_bad_version() {
    let r = route_message(&vec![], &None, &Some(b"1999".to_vec()), &message(Some(text("9"))), Ok(request("ping", Some(text("9")))));
    match r {
        Route::Reply(reply) => {
            assert_eq!(reply.status, 400);
            let body = reply.body.unwrap();
            assert!(is_text(&body.id, "9"));
            assert_eq!(body.error.unwrap().message, "unsupported MCP protocol version: 1999");
        }
        Route::Dispatch(_) => panic!("must not dispatch"),
    }
}

#[test]
fn route_acknowledges_responses_and_notifications() {
    let resp = obj(vec![("id", text("1")), ("result", JsonValue::Null)]);
    match route_message(&vec![], &None, &None, &resp, Err("missing field `method`".to_string())) {
        Route::Reply(reply) => {
            assert_eq!(reply.status, 202);
            assert!(reply.body.is_none());
        }
        Route::Dispatch(_) => panic!(),
    }
    match route_message(&vec![], &None, &None, &message(None), Ok(request("notifications/initialized", None))) {
        Route::Reply(reply) => {
            assert_eq!(reply.status, 202);
            assert!(reply.body.is_none());
        }
        Route::Dispatch(_) => panic!(),
    }
}

#[test]
fn route_unreadable_request() {
    let m = obj(vec![("id", JsonValue::Number("5".to_string()))]);
    match route_message(&vec![], &None, &None, &m, Err("missing field `method`".to_string())) {
        Route::Reply(reply) => {
            assert_eq!(reply.status, 400);
            let body = reply.body.unwrap();
            assert!(matches!(body.id, Some(JsonValue::Number(ref n)) if n == "5"));
            let e = body.error.unwrap();
            assert_eq!(e.code, -32600);
            assert_eq!(e.message, "invalid JSON-RPC request");
            let data = e.data.unwrap();
            assert!(matches!(data.get("error"), Some(JsonValue::Text(t)) if t == "missing field `method`"));
        }
        Route::Dispatch(_) => panic!(),
    }
}

#[test]
fn route_invalid_request() {
    let mut req = request("ping", Some(text("4")));
    req.jsonrpc = Some("1.0".to_string());
    match route_message(&vec![], &None, &None, &message(Some(text("4"))), Ok(req)) {
        Route::Reply(reply) => {
            assert_eq!(reply.status, 400);
            let body = reply.body.unwrap();
            assert!(is_text(&body.id, "4"));
            assert_eq!(body.error.unwrap().message, "JSON-RPC version must be 2.0");
        }
        Route::Dispatch(_) => panic!(),
    }
}

#[test]
fn route_dispatches_valid_request() {
    let allowed = vec!["https://ok".to_string()];
    match route_message(&allowed, &Some(b"https://ok".to_vec()), &Some(b"2025-06-18".to_vec()), &message(Some(text("1"))), Ok(request("ping", Some(text("1"))))) {
        Route::Dispatch(req) => {
            assert_eq!(req.method, "ping");
            assert!(is_text(&req.id, "1"));
        }
        Route::Reply(_) => panic!("must dispatch"),
    }
}
