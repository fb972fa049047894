//! The MCP methods of the server: what each request is answered with, and
//! the two tools, `ssh_targets` and `ssh_run`.

use std::sync::Arc;

use vstd::prelude::*;
use vstd::utf8::encode_utf8;

use crate::config::Config;
use crate::json::{get_model, no_members, push_member, text_value, JsonModel, JsonValue, members_model};
use crate::jsonrpc::{invalid_params, method_not_found, JsonRpcError, JsonRpcRequest, PROTOCOL_VERSION};
use crate::ssh::{error_code, error_text, SshRunError};
use crate::targets::{bytes_lt, indexes, name_key, sorted_by_name, TargetTable};
use crate::text::str_eq;

verus! {

/// What the request handlers share: the configuration and its targets by
/// name.
pub struct AppState {
    pub config: Arc<Config>,
    pub targets: Arc<TargetTable>,
}

impl AppState {
    /// Builds the shared state from a configuration.
    pub fn new(config: Arc<Config>) -> (r: Self)
        ensures
            r.config == config,
            indexes(r.targets.entries(), config.targets@),
    {
        let table = config.targets_by_name();
        AppState { targets: Arc::new(table), config }
    }
}

/// A tool as it is listed to clients.
#[derive(Debug)]
pub struct Tool {
    pub name: &'static str,
    pub description: &'static str,
    pub input_schema: JsonValue,
}

/// A target as it is listed to clients: no key or known-hosts path.
#[derive(Debug)]
pub struct TargetInfo {
    pub name: String,
    pub host: String,
    pub port: u16,
    pub user: String,
}

/// The model of the answer to `initialize`.
pub open spec fn initialize_model(name: Seq<char>, version: Seq<char>, instructions: Seq<char>) -> JsonModel {
    JsonModel::Object(
        seq![
            ("protocolVersion"@, JsonModel::Text(PROTOCOL_VERSION@)),
            ("capabilities"@, JsonModel::Object(seq![("tools"@, JsonModel::Object(seq![("listChanged"@, JsonModel::Bool(false))]))])),
            ("serverInfo"@, JsonModel::Object(seq![("name"@, JsonModel::Text(name)), ("version"@, JsonModel::Text(version))])),
            ("instructions"@, JsonModel::Text(instructions)),
        ],
    )
}

/// The answer to `initialize` names the protocol version this server
/// speaks, gives the configured server name and instructions and the given
/// server version.
pub proof fn lemma_initialize_members(name: Seq<char>, version: Seq<char>, instructions: Seq<char>)
    ensures
        get_model(initialize_model(name, version, instructions), "protocolVersion"@) == Some(
            JsonModel::Text(PROTOCOL_VERSION@),
        ),
        get_model(initialize_model(name, version, instructions), "instructions"@) == Some(
            JsonModel::Text(instructions),
        ),
        get_model(initialize_model(name, version, instructions), "serverInfo"@) matches Some(info)
            && get_model(info, "name"@) == Some(JsonModel::Text(name)) && get_model(info, "version"@)
            == Some(JsonModel::Text(version)),
{
    reveal_with_fuel(crate::json::lookup, 5);
    reveal_strlit("protocolVersion");
    reveal_strlit("capabilities");
    reveal_strlit("serverInfo");
    reveal_strlit("instructions");
    reveal_strlit("name");
    reveal_strlit("version");
    assert("protocolVersion"@ != "instructions"@ && "protocolVersion"@ != "serverInfo"@
        && "protocolVersion"@ != "capabilities"@) by {
        assert("protocolVersion"@.len() == 15);
    }
    assert("serverInfo"@ != "instructions"@) by {
        assert("serverInfo"@.len() != "instructions"@.len());
    }
    assert("name"@ != "version"@) by {
        assert("name"@.len() != "version"@.len());
    }
    let info = seq![("name"@, JsonModel::Text(name)), ("version"@, JsonModel::Text(version))];
    let members = seq![
        ("protocolVersion"@, JsonModel::Text(PROTOCOL_VERSION@)),
        ("capabilities"@, JsonModel::Object(seq![("tools"@, JsonModel::Object(seq![("listChanged"@, JsonModel::Bool(false))]))])),
        ("serverInfo"@, JsonModel::Object(info)),
        ("instructions"@, JsonModel::Text(instructions)),
    ];
    assert(initialize_model(name, version, instructions) == JsonModel::Object(members));
    assert(members.drop_last().last() == ("serverInfo"@, JsonModel::Object(info)));
    assert(members.drop_last().drop_last().drop_last().last() == (
        "protocolVersion"@,
        JsonModel::Text(PROTOCOL_VERSION@),
    ));
    assert(members.drop_last().drop_last().last().0 == "capabilities"@);
    assert(info.drop_last().last() == ("name"@, JsonModel::Text(name)));
    assert(crate::json::lookup(info, "name"@) == Some(JsonModel::Text(name)));
}

/// The answer to `initialize`: the protocol version, the tool capability,
/// the server's name and version, and its instructions.
pub fn initialize_result(state: &AppState, server_version: &str) -> (r: JsonValue)
    ensures
        r.model() == initialize_model(
            state.config.server.name@,
            server_version@,
            state.config.server.instructions@,
        ),
        get_model(r.model(), "protocolVersion"@) == Some(JsonModel::Text(PROTOCOL_VERSION@)),
        get_model(r.model(), "instructions"@) == Some(JsonModel::Text(state.config.server.instructions@)),
        get_model(r.model(), "serverInfo"@) matches Some(info) && get_model(info, "name"@) == Some(
            JsonModel::Text(state.config.server.name@),
        ) && get_model(info, "version"@) == Some(JsonModel::Text(server_version@)),
{
    proof {
        lemma_initialize_members(
            state.config.server.name@,
            server_version@,
            state.config.server.instructions@,
        );
    }
    let config: &Config = &state.config;
    let ghost name = config.server.name@;
    let ghost instructions = config.server.instructions@;
    let mut list_changed = no_members();
    push_member(&mut list_changed, "listChanged", JsonValue::Bool(false));
    let mut tools = no_members();
    push_member(&mut tools, "tools", JsonValue::Object(list_changed));
    let mut info = no_members();
    push_member(&mut info, "name", JsonValue::Text(config.server.name.clone()));
    push_member(&mut info, "version", text_value(server_version));
    let mut members = no_members();
    push_member(&mut members, "protocolVersion", text_value(PROTOCOL_VERSION));
    push_member(&mut members, "capabilities", JsonValue::Object(tools));
    push_member(&mut members, "serverInfo", JsonValue::Object(info));
    push_member(&mut members, "instructions", JsonValue::Text(config.server.instructions.clone()));
    let r = JsonValue::Object(members);
    assert(members_model(list_changed@) =~= seq![("listChanged"@, JsonModel::Bool(false))]);
    assert(members_model(tools@) =~= seq![("tools"@, JsonModel::Object(seq![("listChanged"@, JsonModel::Bool(false))]))]);
    assert(members_model(info@) =~= seq![("name"@, JsonModel::Text(name)), ("version"@, JsonModel::Text(server_version@))]);
    assert(members_model(members@) =~= seq![
            ("protocolVersion"@, JsonModel::Text(PROTOCOL_VERSION@)),
            ("capabilities"@, JsonModel::Object(seq![("tools"@, JsonModel::Object(seq![("listChanged"@, JsonModel::Bool(false))]))])),
            ("serverInfo"@, JsonModel::Object(seq![("name"@, JsonModel::Text(name)), ("version"@, JsonModel::Text(server_version@))])),
            ("instructions"@, JsonModel::Text(instructions)),
        ]);
    assert(r.model() =~~= initialize_model(name, server_version@, instructions));
    r
}

/// The tools that the server offers, with the given input schemas.
pub fn tools(empty_schema: JsonValue, run_schema: JsonValue) -> (r: Vec<Tool>)
    ensures
        r@.len() == 2,
        r@[0].name@ == "ssh_targets"@,
        r@[0].description@ == "List configured SSH targets without exposing credentials."@,
        r@[0].input_schema == empty_schema,
        r@[1].name@ == "ssh_run"@,
        r@[1].description@ == "Run a non-interactive command on a named SSH target."@,
        r@[1].input_schema == run_schema,
{
    let mut r: Vec<Tool> = Vec::new();
    r.push(
        Tool {
            name: "ssh_targets",
            description: "List configured SSH targets without exposing credentials.",
            input_schema: empty_schema,
        },
    );
    r.push(
        Tool {
            name: "ssh_run",
            description: "Run a non-interactive command on a named SSH target.",
            input_schema: run_schema,
        },
    );
    r
}

/// The targets as they are listed to clients, in name order.
pub fn targets_result(state: &AppState) -> (r: Vec<TargetInfo>)
    ensures
        r@.len() == state.targets.entries().len(),
        forall|i: int, j: int|
            0 <= i < j < r@.len() ==> bytes_lt(
                encode_utf8((#[trigger] r@[i]).name@),
                encode_utf8((#[trigger] r@[j]).name@),
            ),
        forall|i: int|
            0 <= i < r@.len() ==> {
                let t = state.targets.entries()[i];
                &&& (#[trigger] r@[i]).name == t.name
                &&& r@[i].host == t.host
                &&& r@[i].port == t.port
                &&& r@[i].user == t.user
            },
{
    let table: &TargetTable = &state.targets;
    let n = table.len();
    let mut r: Vec<TargetInfo> = Vec::new();
    let mut i: usize = 0;
    while i < n
        invariant
            n == table.entries().len(),
            i <= n,
            r@.len() == i,
            forall|j: int|
                0 <= j < i ==> {
                    let t = table.entries()[j];
                    &&& (#[trigger] r@[j]).name == t.name
                    &&& r@[j].host == t.host
                    &&& r@[j].port == t.port
                    &&& r@[j].user == t.user
                },
            sorted_by_name(table.entries()),
            forall|j: int, k: int|
                0 <= j < k < i ==> bytes_lt(
                    encode_utf8((#[trigger] r@[j]).name@),
                    encode_utf8((#[trigger] r@[k]).name@),
                ),
        decreases n - i,
    {
        let t = table.at(i);
        proof {
            let e = table.entries();
            assert forall|j: int| 0 <= j < i implies bytes_lt(
                encode_utf8(e[j].name@),
                encode_utf8(e[i as int].name@),
            ) by {
                assert(bytes_lt(name_key(e[j]), name_key(e[i as int])));
            }
        }
        r.push(TargetInfo { name: t.name.clone(), host: t.host.clone(), port: t.port, user: t.user.clone() });
        i = i + 1;
    }
    r
}

/// A tool call that the request names.
#[derive(Debug)]
pub enum ToolCall {
    ListTargets,
    Run(JsonValue),
}

/// The arguments of a tool call: `params.arguments`, or an empty object.
pub open spec fn arguments_model(params: JsonModel) -> JsonModel {
    match get_model(params, "arguments"@) {
        Some(a) => a,
        None => JsonModel::Object(Seq::empty()),
    }
}

/// Whether `e` is the invalid-params error with the given message.
pub open spec fn is_invalid_params(e: JsonRpcError, message: Seq<char>) -> bool {
    e.code == -32602 && e.message@ == message && e.data is None
}

/// Reads which tool a `tools/call` request names, and its arguments.
pub fn plan_tool_call(params: &JsonValue) -> (r: Result<ToolCall, JsonRpcError>)
    ensures
        match get_model(params.model(), "name"@) {
            Some(JsonModel::Text(name)) => if name == "ssh_targets"@ {
                r matches Ok(ToolCall::ListTargets)
            } else if name == "ssh_run"@ {
                r matches Ok(ToolCall::Run(a)) && a.model() == arguments_model(params.model())
            } else {
                r matches Err(e) && is_invalid_params(e, "unknown tool: "@ + name)
            },
            _ => r matches Err(e) && is_invalid_params(e, "tools/call requires string params.name"@),
        },
{
    let name = match params.get("name") {
        Some(JsonValue::Text(n)) => n,
        _ => {
            return Err(invalid_params(String::from_str("tools/call requires string params.name")));
        },
    };
    let arguments = match params.get("arguments") {
        Some(a) => a.duplicate(),
        None => {
            let empty = JsonValue::Object(no_members());
            assert(empty.model() =~~= JsonModel::Object(Seq::empty()));
            empty
        },
    };
    if str_eq(name.as_str(), "ssh_targets") {
        Ok(ToolCall::ListTargets)
    } else if str_eq(name.as_str(), "ssh_run") {
        Ok(ToolCall::Run(arguments))
    } else {
        Err(invalid_params(String::from_str("unknown tool: ").concat(name.as_str())))
    }
}

/// The error for `ssh_run` arguments that do not read as a request; `reason`
/// is the reader's account of why.
pub fn invalid_run_arguments(reason: &str) -> (e: JsonRpcError)
    ensures
        is_invalid_params(e, "invalid ssh_run arguments: "@ + reason@),
{
    invalid_params(String::from_str("invalid ssh_run arguments: ").concat(reason))
}

/// The model of the structured content that reports a failed run.
pub open spec fn run_error_model(e: SshRunError) -> JsonModel {
    JsonModel::Object(
        seq![
            ("ok"@, JsonModel::Bool(false)),
            ("error"@, JsonModel::Object(seq![("code"@, JsonModel::Text(error_code(e))), ("message"@, JsonModel::Text(error_text(e)))])),
        ],
    )
}

/// The report of a failed run says `ok: false` and gives the error's code
/// and message.
pub proof fn lemma_run_error_members(e: SshRunError)
    ensures
        get_model(run_error_model(e), "ok"@) == Some(JsonModel::Bool(false)),
        get_model(run_error_model(e), "error"@) matches Some(detail) && get_model(detail, "code"@)
            == Some(JsonModel::Text(error_code(e))) && get_model(detail, "message"@) == Some(
            JsonModel::Text(error_text(e)),
        ),
{
    reveal_with_fuel(crate::json::lookup, 3);
    reveal_strlit("ok");
    reveal_strlit("error");
    reveal_strlit("code");
    reveal_strlit("message");
    assert("ok"@ != "error"@) by {
        assert("ok"@.len() != "error"@.len());
    }
    assert("code"@ != "message"@) by {
        assert("code"@.len() != "message"@.len());
    }
    let detail = seq![("code"@, JsonModel::Text(error_code(e))), ("message"@, JsonModel::Text(error_text(e)))];
    let members = seq![("ok"@, JsonModel::Bool(false)), ("error"@, JsonModel::Object(detail))];
    assert(run_error_model(e) == JsonModel::Object(members));
    assert(members.drop_last().last() == ("ok"@, JsonModel::Bool(false)));
    assert(detail.drop_last().last() == ("code"@, JsonModel::Text(error_code(e))));
}

/// The structured content that reports a failed run: its code and message.
pub fn ssh_error_result(error: &SshRunError) -> (r: JsonValue)
    ensures
        r.model() == run_error_model(*error),
        get_model(r.model(), "ok"@) == Some(JsonModel::Bool(false)),
        get_model(r.model(), "error"@) matches Some(detail) && get_model(detail, "code"@) == Some(
            JsonModel::Text(error_code(*error)),
        ) && get_model(detail, "message"@) == Some(JsonModel::Text(error_text(*error))),
{
    proof {
        lemma_run_error_members(*error);
    }
    let mut detail = no_members();
    push_member(&mut detail, "code", text_value(error.code()));
    push_member(&mut detail, "message", JsonValue::Text(error.message()));
    let mut members = no_members();
    push_member(&mut members, "ok", JsonValue::Bool(false));
    push_member(&mut members, "error", JsonValue::Object(detail));
    let r = JsonValue::Object(members);
    assert(members_model(detail@) =~= seq![("code"@, JsonModel::Text(error_code(*error))), ("message"@, JsonModel::Text(error_text(*error)))]);
    assert(members_model(members@) =~= seq![
            ("ok"@, JsonModel::Bool(false)),
            ("error"@, JsonModel::Object(seq![("code"@, JsonModel::Text(error_code(*error))), ("message"@, JsonModel::Text(error_text(*error)))])),
        ]);
    assert(r.model() =~~= run_error_model(*error));
    r
}

/// How a dispatched request is answered: at once, or after the tool list,
/// the target list or a command run is at hand.
#[derive(Debug)]
pub enum RequestPlan {
    Respond(Result<JsonValue, JsonRpcError>),
    ListTools,
    ListTargets,
    RunTool(JsonValue),
}

/// Decides how a request is answered, by its method.
pub fn plan_request(state: &AppState, request: &JsonRpcRequest, server_version: &str) -> (r: RequestPlan)
    ensures
        request.method@ == "initialize"@ ==> (r matches RequestPlan::Respond(Ok(v)) && v.model()
            == initialize_model(
            state.config.server.name@,
            server_version@,
            state.config.server.instructions@,
        )),
        request.method@ == "initialize"@ ==> (r matches RequestPlan::Respond(Ok(v)) && get_model(
            v.model(),
            "serverInfo"@,
        ) matches Some(info) && get_model(info, "name"@) == Some(
            JsonModel::Text(state.config.server.name@),
        )),
        request.method@ == "ping"@ ==> (r matches RequestPlan::Respond(Ok(v)) && v.model()
            == JsonModel::Object(Seq::empty())),
        request.method@ == "tools/list"@ ==> r is ListTools,
        request.method@ == "tools/call"@ ==> match get_model(request.params.model(), "name"@) {
            Some(JsonModel::Text(name)) => if name == "ssh_targets"@ {
                r is ListTargets
            } else if name == "ssh_run"@ {
                r matches RequestPlan::RunTool(a) && a.model() == arguments_model(request.params.model())
            } else {
                r matches RequestPlan::Respond(Err(e)) && is_invalid_params(e, "unknown tool: "@ + name)
            },
            _ => r matches RequestPlan::Respond(Err(e)) && is_invalid_params(
                e,
                "tools/call requires string params.name"@,
            ),
        },
        request.method@ != "initialize"@ && request.method@ != "ping"@ && request.method@
            != "tools/list"@ && request.method@ != "tools/call"@ ==> (r matches RequestPlan::Respond(
            Err(e),
        ) && e.code == -32601 && e.message@ == "method not found: "@ + request.method@ && e.data is None),
{
    proof {
        reveal_strlit("initialize");
        reveal_strlit("ping");
        reveal_strlit("tools/list");
        reveal_strlit("tools/call");
        assert("initialize"@[0] != "tools/list"@[0]);
        assert("initialize"@[0] != "tools/call"@[0]);
        assert("tools/list"@[6] != "tools/call"@[6]);
    }
    let method = request.method.as_str();
    if str_eq(method, "initialize") {
        RequestPlan::Respond(Ok(initialize_result(state, server_version)))
    } else if str_eq(method, "ping") {
        let empty = JsonValue::Object(no_members());
        assert(empty.model() =~~= JsonModel::Object(Seq::empty()));
        RequestPlan::Respond(Ok(empty))
    } else if str_eq(method, "tools/list") {
        RequestPlan::ListTools
    } else if str_eq(method, "tools/call") {
        match plan_tool_call(&request.params) {
            Ok(ToolCall::ListTargets) => RequestPlan::ListTargets,
            Ok(ToolCall::Run(arguments)) => RequestPlan::RunTool(arguments),
            Err(e) => RequestPlan::Respond(Err(e)),
        }
    } else {
        RequestPlan::Respond(Err(method_not_found(method)))
    }
}

/// The structured content and error flag of an `ssh_run` call: the run's
/// output as it came, or the report of its error.
pub fn run_report(outcome: Result<JsonValue, SshRunError>) -> (r: (JsonValue, bool))
    ensures
        match outcome {
            Ok(v) => r.0 == v && !r.1,
            Err(e) => r.0.model() == run_error_model(e) && r.1,
        },
{
    match outcome {
        Ok(v) => (v, false),
        Err(e) => (ssh_error_result(&e), true),
    }
}

} // verus!
