//! JSON-RPC 2.0 over Streamable HTTP: the messages, the error builders and
//! the decision of how an incoming message is answered.

use vstd::prelude::*;

use crate::json::{
    get_model, items_model, members_model, no_items, no_members, push_item, push_member, text_value, JsonModel, JsonValue,
};
use crate::text::{header_text, header_text_of, str_eq};

verus! {

/// The MCP protocol revision that this server speaks.
pub const PROTOCOL_VERSION: &'static str = "2025-06-18";

/// HTTP status 200.
pub const STATUS_OK: u16 = 200;

/// HTTP status 202.
pub const STATUS_ACCEPTED: u16 = 202;

/// HTTP status 400.
pub const STATUS_BAD_REQUEST: u16 = 400;

/// HTTP status 403.
pub const STATUS_FORBIDDEN: u16 = 403;

/// An incoming JSON-RPC request or notification.
#[derive(Debug)]
pub struct JsonRpcRequest {
    pub jsonrpc: Option<String>,
    pub id: Option<JsonValue>,
    pub method: String,
    pub params: JsonValue,
}

/// An outgoing JSON-RPC response; exactly one of `result` and `error` is set
/// by the builders of this module.
#[derive(Debug)]
pub struct JsonRpcResponse {
    pub jsonrpc: &'static str,
    pub id: Option<JsonValue>,
    pub result: Option<JsonValue>,
    pub error: Option<JsonRpcError>,
}

/// A JSON-RPC error object.
#[derive(Debug)]
pub struct JsonRpcError {
    pub code: i64,
    pub message: String,
    pub data: Option<JsonValue>,
}

/// Builds the response that answers request `id` with `result`.
pub fn response_from_result(id: Option<JsonValue>, result: Result<JsonValue, JsonRpcError>) -> (r:
    JsonRpcResponse)
    ensures
        r.jsonrpc@ == "2.0"@,
        r.id == id,
        match result {
            Ok(value) => r.result == Some(value) && r.error is None,
            Err(error) => r.result is None && r.error == Some(error),
        },
{
    match result {
        Ok(value) => JsonRpcResponse { jsonrpc: "2.0", id, result: Some(value), error: None },
        Err(error) => JsonRpcResponse { jsonrpc: "2.0", id, result: None, error: Some(error) },
    }
}

/// The error for a method that the server does not know.
pub fn method_not_found(method: &str) -> (e: JsonRpcError)
    ensures
        e.code == -32601,
        e.message@ == "method not found: "@ + method@,
        e.data is None,
{
    JsonRpcError {
        code: -32601,
        message: String::from_str("method not found: ").concat(method),
        data: None,
    }
}

/// The error for parameters that do not fit the method.
pub fn invalid_params(message: String) -> (e: JsonRpcError)
    ensures
        e.code == -32602,
        e.message == message,
        e.data is None,
{
    JsonRpcError { code: -32602, message, data: None }
}

/// The model of a tool result: one text content item holding `text`, the
/// structured content and the error flag.
pub open spec fn tool_result_model(structured: JsonModel, text: Seq<char>, is_error: bool) -> JsonModel {
    JsonModel::Object(
        seq![
            ("content"@, JsonModel::Array(seq![JsonModel::Object(seq![("type"@, JsonModel::Text("text"@)), ("text"@, JsonModel::Text(text))])])),
            ("structuredContent"@, structured),
            ("isError"@, JsonModel::Bool(is_error)),
        ],
    )
}

/// A tool result reports the error flag it is given, carries the
/// structured content unchanged, and has exactly one content item: a text
/// item holding the given text.
pub proof fn lemma_tool_result_members(structured: JsonModel, text: Seq<char>, is_error: bool)
    ensures
        get_model(tool_result_model(structured, text, is_error), "isError"@) == Some(
            JsonModel::Bool(is_error),
        ),
        get_model(tool_result_model(structured, text, is_error), "structuredContent"@) == Some(
            structured,
        ),
        get_model(tool_result_model(structured, text, is_error), "content"@) matches Some(
            JsonModel::Array(items),
        ) && items.len() == 1 && get_model(items[0], "type"@) == Some(JsonModel::Text("text"@))
            && get_model(items[0], "text"@) == Some(JsonModel::Text(text)),
{
    reveal_with_fuel(crate::json::lookup, 4);
    reveal_strlit("isError");
    reveal_strlit("structuredContent");
    reveal_strlit("content");
    reveal_strlit("type");
    reveal_strlit("text");
    assert("content"@ != "isError"@) by {
        assert("content"@[0] != "isError"@[0]);
    }
    assert("type"@ != "text"@) by {
        assert("type"@[1] != "text"@[1]);
    }
    assert("structuredContent"@ != "isError"@) by {
        assert("structuredContent"@.len() != "isError"@.len());
    }
    let members = seq![
        ("content"@, JsonModel::Array(seq![JsonModel::Object(seq![("type"@, JsonModel::Text("text"@)), ("text"@, JsonModel::Text(text))])])),
        ("structuredContent"@, structured),
        ("isError"@, JsonModel::Bool(is_error)),
    ];
    assert(members.drop_last() =~= seq![
        ("content"@, JsonModel::Array(seq![JsonModel::Object(seq![("type"@, JsonModel::Text("text"@)), ("text"@, JsonModel::Text(text))])])),
        ("structuredContent"@, structured),
    ]);
    assert(members.drop_last().drop_last() =~= seq![
        ("content"@, JsonModel::Array(seq![JsonModel::Object(seq![("type"@, JsonModel::Text("text"@)), ("text"@, JsonModel::Text(text))])])),
    ]);
    let item = seq![("type"@, JsonModel::Text("text"@)), ("text"@, JsonModel::Text(text))];
    assert(item.drop_last() =~= seq![("type"@, JsonModel::Text("text"@))]);
    assert(crate::json::lookup(item, "text"@) == Some(JsonModel::Text(text)));
    assert(crate::json::lookup(item, "type"@) == Some(JsonModel::Text("text"@)));
    let items = seq![JsonModel::Object(item)];
    assert(items[0] == JsonModel::Object(item));
    assert("structuredContent"@ != "content"@) by {
        assert("structuredContent"@.len() != "content"@.len());
    }
    assert(tool_result_model(structured, text, is_error) == JsonModel::Object(members));
    assert(members.drop_last().drop_last().last() == ("content"@, JsonModel::Array(items)));
    assert(get_model(tool_result_model(structured, text, is_error), "content"@) == Some(
        JsonModel::Array(items),
    ));
}

/// Wraps structured tool output, together with its pretty-printed text, in an
/// MCP tool result. The text is taken as given: the caller renders it from
/// `structured` with `serde_json::to_string_pretty`, since the library's
/// JSON value cannot be handed to serde from here.
pub fn tool_result(structured: JsonValue, text: String, is_error: bool) -> (r: JsonValue)
    ensures
        r.model() == tool_result_model(structured.model(), text@, is_error),
        get_model(r.model(), "isError"@) == Some(JsonModel::Bool(is_error)),
        get_model(r.model(), "structuredContent"@) == Some(structured.model()),
        get_model(r.model(), "content"@) matches Some(JsonModel::Array(items)) && items.len() == 1
            && get_model(items[0], "type"@) == Some(JsonModel::Text("text"@)) && get_model(
            items[0],
            "text"@,
        ) == Some(JsonModel::Text(text@)),
{
    proof {
        lemma_tool_result_members(structured.model(), text@, is_error);
    }
    let ghost sm = structured.model();
    let ghost t = text@;
    let mut item_members = no_members();
    push_member(&mut item_members, "type", text_value("text"));
    push_member(&mut item_members, "text", JsonValue::Text(text));
    let mut content = no_items();
    push_item(&mut content, JsonValue::Object(item_members));
    let mut members = no_members();
    push_member(&mut members, "content", JsonValue::Array(content));
    push_member(&mut members, "structuredContent", structured);
    push_member(&mut members, "isError", JsonValue::Bool(is_error));
    let ghost item_model = JsonModel::Object(seq![("type"@, JsonModel::Text("text"@)), ("text"@, JsonModel::Text(t))]);
    assert(members_model(item_members@) =~= seq![("type"@, JsonModel::Text("text"@)), ("text"@, JsonModel::Text(t))]);
    assert(items_model(content@) =~= seq![item_model]);
    let r = JsonValue::Object(members);
    assert(members_model(members@) =~= seq![
            ("content"@, JsonModel::Array(seq![item_model])),
            ("structuredContent"@, sm),
            ("isError"@, JsonModel::Bool(is_error)),
        ]);
    assert(r.model() =~~= tool_result_model(sm, t, is_error));
    r
}

/// The model of an optional value.
pub open spec fn opt_model(v: Option<JsonValue>) -> Option<JsonModel> {
    match v {
        Some(x) => Some(x.model()),
        None => None,
    }
}

/// The characters of an optional text.
pub open spec fn opt_text(s: Option<String>) -> Option<Seq<char>> {
    match s {
        Some(x) => Some(x@),
        None => None,
    }
}

/// Whether a request from `origin` may be served: a request without an
/// `Origin` header may; one whose header is not text may not; otherwise the
/// origin must be one of the allowed ones, written exactly.
pub open spec fn origin_ok(allowed: Seq<String>, origin: Option<Seq<u8>>) -> bool {
    match origin {
        None => true,
        Some(bytes) => match header_text_of(bytes) {
            None => false,
            Some(text) => exists|i: int| 0 <= i < allowed.len() && #[trigger] allowed[i]@ == text,
        },
    }
}

/// A header value read as text keeps every byte as one character of the
/// same code.
pub proof fn lemma_header_text_bytes(bytes: Seq<u8>)
    ensures
        header_text_of(bytes) matches Some(t) ==> t.len() == bytes.len() && forall|i: int|
            0 <= i < bytes.len() ==> #[trigger] t[i] == bytes[i] as char,
{
}

/// A request without an `Origin` header is served; one whose origin is not
/// text is refused; one whose origin is text is served exactly when that
/// text is one of the allowed origins, written exactly.
pub proof fn lemma_origin_rule(allowed: Seq<String>, bytes: Seq<u8>)
    ensures
        origin_ok(allowed, None),
        header_text_of(bytes) is None ==> !origin_ok(allowed, Some(bytes)),
        forall|i: int|
            0 <= i < allowed.len() && header_text_of(bytes) == Some(#[trigger] allowed[i]@) ==> origin_ok(
                allowed,
                Some(bytes),
            ),
        origin_ok(allowed, Some(bytes)) ==> exists|i: int|
            0 <= i < allowed.len() && header_text_of(bytes) == Some(#[trigger] allowed[i]@),
{
}

/// Decides whether the `Origin` header (raw bytes, when present) is allowed.
#[verifier::loop_isolation(false)]
pub fn origin_allowed(allowed_origins: &Vec<String>, origin: &Option<Vec<u8>>) -> (r: bool)
    ensures
        r == origin_ok(allowed_origins@, opt_bytes(*origin)),
{
    let bytes = match origin {
        None => {
            return true;
        },
        Some(b) => b,
    };
    let text = match header_text(bytes.as_slice()) {
        None => {
            return false;
        },
        Some(t) => t,
    };
    let mut i: usize = 0;
    while i < allowed_origins.len()
        invariant
            i <= allowed_origins.len(),
            forall|j: int| 0 <= j < i ==> #[trigger] allowed_origins@[j]@ != text@,
        decreases allowed_origins.len() - i,
    {
        if allowed_origins[i] == text {
            assert(allowed_origins@[i as int]@ == text@);
            return true;
        }
        i = i + 1;
    }
    false
}

/// The bytes of an optional header value.
pub open spec fn opt_bytes(v: Option<Vec<u8>>) -> Option<Seq<u8>> {
    match v {
        Some(b) => Some(b@),
        None => None,
    }
}

/// The verdict on the `MCP-Protocol-Version` header: accepted when absent or
/// equal to [`PROTOCOL_VERSION`], refused with the reason otherwise.
pub open spec fn version_verdict(version: Option<Seq<u8>>) -> Result<(), Seq<char>> {
    match version {
        None => Ok(()),
        Some(bytes) => match header_text_of(bytes) {
            None => Err("invalid MCP-Protocol-Version header"@),
            Some(text) => if text == PROTOCOL_VERSION@ {
                Ok(())
            } else {
                Err("unsupported MCP protocol version: "@ + text)
            },
        },
    }
}

/// A present `MCP-Protocol-Version` header is accepted exactly when its
/// text is [`PROTOCOL_VERSION`]; any other text is refused as unsupported,
/// naming it, and a value that is not text is refused as invalid.
pub proof fn lemma_version_accepted_iff(bytes: Seq<u8>)
    ensures
        version_verdict(Some(bytes)) is Ok <==> header_text_of(bytes) == Some(PROTOCOL_VERSION@),
        forall|t: Seq<char>|
            header_text_of(bytes) == Some(t) && t != PROTOCOL_VERSION@ ==> #[trigger] version_verdict(
                Some(bytes),
            ) == Err::<(), Seq<char>>("unsupported MCP protocol version: "@ + t),
        header_text_of(bytes) is None ==> version_verdict(Some(bytes)) == Err::<(), Seq<char>>(
            "invalid MCP-Protocol-Version header"@,
        ),
{
}

/// Checks the `MCP-Protocol-Version` header (raw bytes, when present).
pub fn validate_protocol_version(version: &Option<Vec<u8>>) -> (r: Result<(), String>)
    ensures
        match r {
            Ok(()) => version_verdict(opt_bytes(*version)) == Ok::<(), Seq<char>>(()),
            Err(m) => version_verdict(opt_bytes(*version)) == Err::<(), Seq<char>>(m@),
        },
        r is Ok <==> (version is None || header_text_of(version->0@) == Some(PROTOCOL_VERSION@)),
        version is Some && header_text_of(version->0@) is Some && header_text_of(version->0@)->0
            != PROTOCOL_VERSION@ ==> (r matches Err(m) && m@ == "unsupported MCP protocol version: "@
            + header_text_of(version->0@)->0),
        version is Some && header_text_of(version->0@) is None ==> (r matches Err(m) && m@
            == "invalid MCP-Protocol-Version header"@),
{
    proof {
        if let Some(b) = version {
            lemma_version_accepted_iff(b@);
        }
    }
    let bytes = match version {
        None => {
            return Ok(());
        },
        Some(b) => b,
    };
    match header_text(bytes.as_slice()) {
        None => Err(String::from_str("invalid MCP-Protocol-Version header")),
        Some(text) => {
            if str_eq(text.as_str(), PROTOCOL_VERSION) {
                Ok(())
            } else {
                Err(String::from_str("unsupported MCP protocol version: ").concat(text.as_str()))
            }
        },
    }
}

/// What is wrong with a parsed request, if anything.
pub open spec fn request_problem(jsonrpc: Option<Seq<char>>, id: Option<JsonModel>, method: Seq<char>) -> Option<
    Seq<char>,
> {
    if jsonrpc != Some("2.0"@) {
        Some("JSON-RPC version must be 2.0"@)
    } else if id == Some(JsonModel::Null) {
        Some("JSON-RPC request id must be a string or number"@)
    } else if method.len() == 0 {
        Some("JSON-RPC method must not be empty"@)
    } else {
        None
    }
}

/// A parsed request passes exactly when its `jsonrpc` is `"2.0"`, its id is
/// not `null`, and its method is not empty; the version is checked first,
/// then the id, then the method.
pub proof fn lemma_request_rule(jsonrpc: Option<Seq<char>>, id: Option<JsonModel>, method: Seq<char>)
    ensures
        request_problem(jsonrpc, id, method) is None <==> (jsonrpc == Some("2.0"@) && id != Some(
            JsonModel::Null,
        ) && method.len() > 0),
        jsonrpc != Some("2.0"@) ==> request_problem(jsonrpc, id, method) == Some(
            "JSON-RPC version must be 2.0"@,
        ),
        jsonrpc == Some("2.0"@) && id == Some(JsonModel::Null) ==> request_problem(jsonrpc, id, method)
            == Some("JSON-RPC request id must be a string or number"@),
        jsonrpc == Some("2.0"@) && id != Some(JsonModel::Null) && method.len() == 0 ==> request_problem(
            jsonrpc,
            id,
            method,
        ) == Some("JSON-RPC method must not be empty"@),
{
}

/// The id taken from a raw message for an error reply is the message's
/// `id` member when that is a string or a number, and nothing otherwise.
pub proof fn lemma_message_id_rule(message: JsonModel)
    ensures
        message_id(message) is Some ==> message_id(message) == get_model(message, "id"@),
        message_id(message) is Some ==> (message_id(message)->0 is Text || message_id(message)->0 is Number),
        get_model(message, "id"@) is Some && (get_model(message, "id"@)->0 is Text || get_model(
            message,
            "id"@,
        )->0 is Number) ==> message_id(message) == get_model(message, "id"@),
{
}

/// Checks the version, id and method of a parsed request.
pub fn validate_json_rpc_request(request: &JsonRpcRequest) -> (r: Option<String>)
    ensures
        opt_text(r) == request_problem(opt_text(request.jsonrpc), opt_model(request.id), request.method@),
{
    let version_ok = match &request.jsonrpc {
        Some(v) => str_eq(v.as_str(), "2.0"),
        None => false,
    };
    if !version_ok {
        return Some(String::from_str("JSON-RPC version must be 2.0"));
    }
    match &request.id {
        Some(JsonValue::Null) => {
            return Some(String::from_str("JSON-RPC request id must be a string or number"));
        },
        _ => {},
    }
    if request.method.as_str().is_empty() {
        return Some(String::from_str("JSON-RPC method must not be empty"));
    }
    None
}

/// A message is a response (to be acknowledged, not answered) when it has no
/// method, has an id, and has a result or an error.
pub open spec fn response_message(message: JsonModel) -> bool {
    &&& get_model(message, "method"@) is None
    &&& get_model(message, "id"@) is Some
    &&& (get_model(message, "result"@) is Some || get_model(message, "error"@) is Some)
}

/// Whether the message is a JSON-RPC response.
pub fn is_response(message: &JsonValue) -> (r: bool)
    ensures
        r == response_message(message.model()),
{
    message.get("method").is_none() && message.get("id").is_some() && (message.get(
        "result",
    ).is_some() || message.get("error").is_some())
}

/// The id of a raw message, kept only when it is a string or a number.
pub open spec fn message_id(message: JsonModel) -> Option<JsonModel> {
    match get_model(message, "id"@) {
        Some(JsonModel::Text(t)) => Some(JsonModel::Text(t)),
        Some(JsonModel::Number(n)) => Some(JsonModel::Number(n)),
        _ => None,
    }
}

/// The id of a raw message, when it is a string or a number.
pub fn json_rpc_id(message: &JsonValue) -> (r: Option<JsonValue>)
    ensures
        opt_model(r) == message_id(message.model()),
{
    match message.get("id") {
        Some(v) => match v {
            JsonValue::Text(_) | JsonValue::Number(_) => Some(v.duplicate()),
            _ => None,
        },
        None => None,
    }
}

/// An HTTP reply: a status and, unless the status alone answers, a JSON-RPC
/// response as the body.
#[derive(Debug)]
pub struct HttpReply {
    pub status: u16,
    pub body: Option<JsonRpcResponse>,
}

/// Whether `reply` is the error reply with the given parts.
pub open spec fn is_error_reply(
    reply: HttpReply,
    status: u16,
    id: Option<JsonModel>,
    code: int,
    message: Seq<char>,
    data: Option<JsonModel>,
) -> bool {
    &&& reply.status == status
    &&& reply.body matches Some(body) && {
        &&& body.jsonrpc@ == "2.0"@
        &&& opt_model(body.id) == id
        &&& body.result is None
        &&& body.error matches Some(e) && {
            &&& e.code == code
            &&& e.message@ == message
            &&& opt_model(e.data) == data
        }
    }
}

/// Builds an error reply.
pub fn error_response(status: u16, id: Option<JsonValue>, code: i64, message: String, data: Option<JsonValue>) -> (r:
    HttpReply)
    ensures
        is_error_reply(r, status, opt_model(id), code as int, message@, opt_model(data)),
{
    HttpReply {
        status,
        body: Some(
            JsonRpcResponse {
                jsonrpc: "2.0",
                id,
                result: None,
                error: Some(JsonRpcError { code, message, data }),
            },
        ),
    }
}

/// What becomes of an incoming message: it is answered at once, or the
/// request is handed to the method dispatcher, whose response is then sent
/// with status 200.
#[derive(Debug)]
pub enum Route {
    Reply(HttpReply),
    Dispatch(JsonRpcRequest),
}

/// The model of a one-member object `{"error": text}`.
pub open spec fn error_data_model(text: Seq<char>) -> JsonModel {
    JsonModel::Object(seq![("error"@, JsonModel::Text(text))])
}

/// Decides how a message that arrived over Streamable HTTP is answered.
///
/// `origin` and `protocol_version` are the raw values of the `Origin` and
/// `MCP-Protocol-Version` headers when present; `parsed` is the outcome of
/// reading `message` as a request (the request, or the reader's error text).
pub fn route_message(
    allowed_origins: &Vec<String>,
    origin: &Option<Vec<u8>>,
    protocol_version: &Option<Vec<u8>>,
    message: &JsonValue,
    parsed: Result<JsonRpcRequest, String>,
) -> (r: Route)
    ensures
        r matches Route::Dispatch(request) ==> {
            &&& origin_ok(allowed_origins@, opt_bytes(*origin))
            &&& version_verdict(opt_bytes(*protocol_version)) is Ok
            &&& (protocol_version is None || header_text_of(protocol_version->0@) == Some(
                PROTOCOL_VERSION@,
            ))
            &&& !response_message(message.model())
            &&& request.id is Some
            &&& request_problem(opt_text(request.jsonrpc), opt_model(request.id), request.method@) is None
        },
        !origin_ok(allowed_origins@, opt_bytes(*origin)) ==> (r matches Route::Reply(reply)
            && is_error_reply(reply, STATUS_FORBIDDEN, None, -32000, "origin is not allowed"@, None)),
        origin_ok(allowed_origins@, opt_bytes(*origin)) ==> match version_verdict(
            opt_bytes(*protocol_version),
        ) {
            Err(reason) => r matches Route::Reply(reply) && is_error_reply(
                reply,
                STATUS_BAD_REQUEST,
                message_id(message.model()),
                -32000,
                reason,
                None,
            ),
            Ok(()) => if response_message(message.model()) {
                r matches Route::Reply(reply) && reply.status == STATUS_ACCEPTED && reply.body is None
            } else {
                match parsed {
                    Err(e) => r matches Route::Reply(reply) && is_error_reply(
                        reply,
                        STATUS_BAD_REQUEST,
                        message_id(message.model()),
                        -32600,
                        "invalid JSON-RPC request"@,
                        Some(error_data_model(e@)),
                    ),
                    Ok(request) => match request_problem(
                        opt_text(request.jsonrpc),
                        opt_model(request.id),
                        request.method@,
                    ) {
                        Some(problem) => r matches Route::Reply(reply) && is_error_reply(
                            reply,
                            STATUS_BAD_REQUEST,
                            opt_model(request.id),
                            -32600,
                            problem,
                            None,
                        ),
                        None => if request.id is None {
                            r matches Route::Reply(reply) && reply.status == STATUS_ACCEPTED
                                && reply.body is None
                        } else {
                            r == Route::Dispatch(request)
                        },
                    },
                }
            },
        },
{
    if !origin_allowed(allowed_origins, origin) {
        return Route::Reply(
            error_response(STATUS_FORBIDDEN, None, -32000, String::from_str("origin is not allowed"), None),
        );
    }
    match validate_protocol_version(protocol_version) {
        Err(reason) => {
            return Route::Reply(
                error_response(STATUS_BAD_REQUEST, json_rpc_id(message), -32000, reason, None),
            );
        },
        Ok(()) => {},
    }
    if is_response(message) {
        return Route::Reply(HttpReply { status: STATUS_ACCEPTED, body: None });
    }
    let request = match parsed {
        Err(e) => {
            let ghost et = e@;
            let mut data = no_members();
            push_member(&mut data, "error", JsonValue::Text(e));
            let data = JsonValue::Object(data);
            assert(data.model() =~~= error_data_model(et));
            return Route::Reply(
                error_response(
                    STATUS_BAD_REQUEST,
                    json_rpc_id(message),
                    -32600,
                    String::from_str("invalid JSON-RPC request"),
                    Some(data),
                ),
            );
        },
        Ok(request) => request,
    };
    match validate_json_rpc_request(&request) {
        Some(problem) => {
            return Route::Reply(error_response(STATUS_BAD_REQUEST, request.id, -32600, problem, None));
        },
        None => {},
    }
    if request.id.is_none() {
        return Route::Reply(HttpReply { status: STATUS_ACCEPTED, body: None });
    }
    Route::Dispatch(request)
}

} // verus!
