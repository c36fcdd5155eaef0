//! JSON-RPC: what one line is answered, and which handler a tool call goes to.

use crate::discovery::{DiscoveredAgent, has_agent};
use crate::json::{
    JsonView, bool_value, integer, json_view, member_of, named, no_members, null_value,
    object_text, object_value, print_object, push_named, put_member, signed_value, text_at,
    text_member, text_value,
};
use crate::mcp::CallToolResult;
use crate::mcp::tools::{agent_tool_names, is_first, resolve_agent};
use crate::text::{
    has_prefix, has_suffix, holds_text, lemma_ends, lemma_holds_part, same, starts_with,
};
use serde_json::Value;
use vstd::prelude::*;

verus! {

broadcast use vstd::string::group_string_axioms;

/// The line is not JSON.
pub const PARSE_ERROR: i64 = -32700;

/// No such method.
pub const METHOD_NOT_FOUND: i64 = -32601;

/// The params do not fit the method.
pub const INVALID_PARAMS: i64 = -32602;

/// The server could not do its job.
pub const INTERNAL_ERROR: i64 = -32603;

/// One request. A request without an id is a notification.
#[derive(Debug)]
pub struct RpcRequest {
    pub id: Option<Value>,
    pub method: String,
    pub params: Option<Value>,
}

/// The error half of a response.
#[derive(Debug, PartialEq, Eq)]
pub struct RpcError {
    pub code: i64,
    pub message: String,
}

/// One response: a result or an error.
#[derive(Debug)]
pub struct RpcResponse {
    pub id: Value,
    pub result: Result<Value, RpcError>,
}

/// Whether `r` is the error response with this id, code and message.
pub open spec fn is_rpc_error(r: RpcResponse, id: JsonView, code: i64, message: Seq<char>) -> bool {
    &&& json_view(r.id) == id
    &&& r.result matches Err(e) && e.code == code && e.message@ == message
}

/// Whether `r` is the success response with this id and result.
pub open spec fn is_rpc_ok(r: RpcResponse, id: JsonView, result: JsonView) -> bool {
    &&& json_view(r.id) == id
    &&& r.result matches Ok(v) && json_view(v) == result
}

impl RpcResponse {
    /// A success.
    pub fn ok(id: Value, result: Value) -> (r: Self)
        ensures
            is_rpc_ok(r, json_view(id), json_view(result)),
    {
        RpcResponse { id, result: Ok(result) }
    }

    /// A failure.
    pub fn err(id: Value, code: i64, message: &str) -> (r: Self)
        ensures
            is_rpc_error(r, json_view(id), code, message@),
    {
        RpcResponse { id, result: Err(RpcError { code, message: message.to_owned() }) }
    }

    /// What goes on the wire.
    pub open spec fn wire(&self) -> JsonView {
        let base = Map::<Seq<char>, JsonView>::empty().insert(
            "jsonrpc"@,
            JsonView::Text("2.0"@),
        ).insert("id"@, json_view(self.id));
        JsonView::Table(
            match self.result {
                Ok(v) => base.insert("result"@, json_view(v)),
                Err(e) => base.insert(
                    "error"@,
                    JsonView::Table(
                        Map::<Seq<char>, JsonView>::empty().insert(
                            "code"@,
                            integer(e.code as int),
                        ).insert("message"@, JsonView::Text(e.message@)),
                    ),
                ),
            },
        )
    }

    /// The response as one JSON value.
    pub fn to_json(self) -> (r: Value)
        ensures
            json_view(r) == self.wire(),
    {
        let mut members = no_members();
        put_member(&mut members, "jsonrpc", text_value("2.0"));
        put_member(&mut members, "id", self.id);
        match self.result {
            Ok(v) => {
                put_member(&mut members, "result", v);
            },
            Err(e) => {
                let mut inner = no_members();
                put_member(&mut inner, "code", signed_value(e.code));
                put_member(&mut inner, "message", text_value(e.message.as_str()));
                put_member(&mut members, "error", object_value(inner));
            },
        }
        object_value(members)
    }

    /// The members on the wire, in order.
    pub open spec fn fields(&self) -> Seq<(Seq<char>, JsonView)> {
        seq![
            ("jsonrpc"@, JsonView::Text("2.0"@)),
            ("id"@, json_view(self.id)),
            match self.result {
                Ok(v) => ("result"@, json_view(v)),
                Err(e) => (
                    "error"@,
                    JsonView::Table(
                        Map::<Seq<char>, JsonView>::empty().insert(
                            "code"@,
                            integer(e.code as int),
                        ).insert("message"@, JsonView::Text(e.message@)),
                    ),
                ),
            },
        ]
    }

    /// The response as it goes on the wire.
    pub fn to_text(self) -> (r: String)
        ensures
            r@ == object_text(self.fields()),
    {
        let ghost fields = self.fields();
        let mut members: Vec<(&str, Value)> = Vec::new();
        push_named(&mut members, "jsonrpc", text_value("2.0"));
        push_named(&mut members, "id", self.id);
        match self.result {
            Ok(v) => {
                push_named(&mut members, "result", v);
            },
            Err(e) => {
                let mut inner = no_members();
                put_member(&mut inner, "code", signed_value(e.code));
                put_member(&mut inner, "message", text_value(e.message.as_str()));
                push_named(&mut members, "error", object_value(inner));
            },
        }
        proof {
            assert(named(members@) =~= fields);
        }
        print_object(&members)
    }
}

// ---------------------------------------------------------------------
// The handshake
// ---------------------------------------------------------------------

/// The protocol version a handshake answers with: the client's when it sent
/// one, so that an older client gets an answer it understands.
pub open spec fn agreed_version(params: Option<JsonView>, default: Seq<char>) -> Seq<char> {
    match params {
        Some(p) => match text_member(p, "protocolVersion"@) {
            Some(v) => v,
            None => default,
        },
        None => default,
    }
}

/// What a handshake answers.
pub open spec fn handshake(version: Seq<char>, server_version: Seq<char>) -> JsonView {
    JsonView::Table(
        Map::<Seq<char>, JsonView>::empty().insert(
            "protocolVersion"@,
            JsonView::Text(version),
        ).insert(
            "capabilities"@,
            JsonView::Table(
                Map::<Seq<char>, JsonView>::empty().insert(
                    "tools"@,
                    JsonView::Table(
                        Map::<Seq<char>, JsonView>::empty().insert(
                            "listChanged"@,
                            JsonView::Bool(false),
                        ),
                    ),
                ),
            ),
        ).insert(
            "serverInfo"@,
            JsonView::Table(
                Map::<Seq<char>, JsonView>::empty().insert(
                    "name"@,
                    JsonView::Text("dotagent"@),
                ).insert("version"@, JsonView::Text(server_version)),
            ),
        ),
    )
}

/// The view of optional params.
pub open spec fn params_view(params: Option<Value>) -> Option<JsonView> {
    match params {
        Some(p) => Some(json_view(p)),
        None => None,
    }
}

/// Handshake. Echoes the client's protocol version when it sent one.
pub fn initialize(params: &Option<Value>, default_version: &str, server_version: &str) -> (r: Value)
    ensures
        json_view(r) == handshake(
            agreed_version(params_view(*params), default_version@),
            server_version@,
        ),
{
    let version = match params {
        Some(p) => match text_at(p, "protocolVersion") {
            Some(v) => v,
            None => default_version.to_owned(),
        },
        None => default_version.to_owned(),
    };
    let mut tools = no_members();
    put_member(&mut tools, "listChanged", bool_value(false));
    let mut capabilities = no_members();
    put_member(&mut capabilities, "tools", object_value(tools));
    let mut info = no_members();
    put_member(&mut info, "name", text_value("dotagent"));
    put_member(&mut info, "version", text_value(server_version));
    let mut members = no_members();
    put_member(&mut members, "protocolVersion", text_value(version.as_str()));
    put_member(&mut members, "capabilities", object_value(capabilities));
    put_member(&mut members, "serverInfo", object_value(info));
    object_value(members)
}

// ---------------------------------------------------------------------
// One line
// ---------------------------------------------------------------------

/// What a request asks for: its id, its method and its params.
#[verifier::ext_equal]
pub struct RequestView {
    pub id: Option<JsonView>,
    pub method: Seq<char>,
    pub params: Option<JsonView>,
}

/// What a line asks for, or what is wrong with it, by what reading it into a
/// request gave.
pub open spec fn line_request(typed: Result<RpcRequest, String>) -> Result<RequestView, Seq<char>> {
    match typed {
        Ok(req) => Ok(req.holds()),
        Err(e) => Err(e@),
    }
}

impl RpcRequest {
    /// What the request holds.
    pub open spec fn holds(&self) -> RequestView {
        RequestView {
            id: params_view(self.id),
            method: self.method@,
            params: params_view(self.params),
        }
    }

    /// Whether nobody waits for an answer.
    pub fn is_notification(&self) -> (r: bool)
        ensures
            r == (self.id is None),
    {
        self.id.is_none()
    }
}

/// What one line asks for.
#[derive(Debug)]
pub enum RpcStep {
    /// Say nothing: the right answer to a notification.
    Silent,
    Respond(RpcResponse),
    ToolsList { id: Value },
    ToolsCall { id: Value, params: Option<Value> },
}

/// Whether `step` is the right answer to a request, or to a line that holds
/// none.
pub open spec fn line_answered(
    request: Result<RequestView, Seq<char>>,
    default_version: Seq<char>,
    server_version: Seq<char>,
    step: RpcStep,
) -> bool {
    match request {
        Err(e) => step matches RpcStep::Respond(r) && is_rpc_error(
            r,
            JsonView::Null,
            PARSE_ERROR,
            "invalid JSON: "@ + e,
        ),
        Ok(req) => match req.id {
            None => step is Silent,
            Some(id) => if req.method == "initialize"@ {
                step matches RpcStep::Respond(r) && is_rpc_ok(
                    r,
                    id,
                    handshake(agreed_version(req.params, default_version), server_version),
                )
            } else if req.method == "ping"@ {
                step matches RpcStep::Respond(r) && is_rpc_ok(r, id, JsonView::Table(Map::empty()))
            } else if req.method == "tools/list"@ {
                step matches RpcStep::ToolsList { id: echoed } && json_view(echoed) == id
            } else if req.method == "tools/call"@ {
                step matches RpcStep::ToolsCall { id: echoed, params } && json_view(echoed) == id
                    && params_view(params) == req.params
            } else {
                step matches RpcStep::Respond(r) && is_rpc_error(
                    r,
                    id,
                    METHOD_NOT_FOUND,
                    "unknown method '"@ + req.method + "'"@,
                )
            },
        },
    }
}

/// Decide about a request.
pub fn answer_request(req: RpcRequest, default_version: &str, server_version: &str) -> (step: RpcStep)
    ensures
        line_answered(Ok(req.holds()), default_version@, server_version@, step),
{
    if req.is_notification() {
        return RpcStep::Silent;
    }
    let id = match req.id {
        Some(id) => id,
        None => null_value(),
    };
    let method = req.method;
    if same(method.as_str(), "initialize") {
        let result = initialize(&req.params, default_version, server_version);
        RpcStep::Respond(RpcResponse::ok(id, result))
    } else if same(method.as_str(), "ping") {
        RpcStep::Respond(RpcResponse::ok(id, object_value(no_members())))
    } else if same(method.as_str(), "tools/list") {
        RpcStep::ToolsList { id }
    } else if same(method.as_str(), "tools/call") {
        RpcStep::ToolsCall { id, params: req.params }
    } else {
        let mut message = "unknown method '".to_owned();
        message.append(method.as_str());
        message.append("'");
        RpcStep::Respond(RpcResponse::err(id, METHOD_NOT_FOUND, message.as_str()))
    }
}

/// Decide about one line. `typed` is the line read into a request, or the error
/// that gave. No id is recoverable from a line that holds no request, so that is
/// answered with a null id rather than not at all.
pub fn handle_line(
    typed: Result<RpcRequest, String>,
    default_version: &str,
    server_version: &str,
) -> (step: RpcStep)
    ensures
        line_answered(line_request(typed), default_version@, server_version@, step),
{
    match typed {
        Err(e) => {
            let mut message = "invalid JSON: ".to_owned();
            message.append(e.as_str());
            RpcStep::Respond(RpcResponse::err(null_value(), PARSE_ERROR, message.as_str()))
        },
        Ok(req) => answer_request(req, default_version, server_version),
    }
}

/// A notification is never answered, whatever it asks for; any other line is.
pub proof fn only_notifications_go_unanswered(
    request: Result<RequestView, Seq<char>>,
    default_version: Seq<char>,
    server_version: Seq<char>,
    step: RpcStep,
)
    requires
        line_answered(request, default_version, server_version, step),
    ensures
        step is Silent <==> (request matches Ok(req) && req.id is None),
{
}

// ---------------------------------------------------------------------
// Tool calls
// ---------------------------------------------------------------------

/// A tool call.
#[derive(Debug)]
pub struct ToolCall {
    pub name: String,
    pub arguments: Option<Value>,
}

/// Whether `r` is what the parameters of a tool call come to.
pub open spec fn params_taken(
    id: Value,
    typed: Option<Result<ToolCall, String>>,
    r: Result<(Value, ToolCall), RpcResponse>,
) -> bool {
    match typed {
        None => r matches Err(resp) && is_rpc_error(
            resp,
            json_view(id),
            INVALID_PARAMS,
            "missing params"@,
        ),
        Some(Err(e)) => r matches Err(resp) && is_rpc_error(
            resp,
            json_view(id),
            INVALID_PARAMS,
            e@,
        ),
        Some(Ok(call)) => r == Ok::<(Value, ToolCall), RpcResponse>((id, call)),
    }
}

/// The tool call of a request, or the error it is answered with. `typed` is the
/// params read into a call, or the error that gave, where there are params.
pub fn call_params(id: Value, typed: Option<Result<ToolCall, String>>) -> (r: Result<
    (Value, ToolCall),
    RpcResponse,
>)
    ensures
        params_taken(id, typed, r),
{
    match typed {
        None => Err(RpcResponse::err(id, INVALID_PARAMS, "missing params")),
        Some(Err(e)) => Err(RpcResponse::err(id, INVALID_PARAMS, e.as_str())),
        Some(Ok(call)) => Ok((id, call)),
    }
}

/// Who serves a tool.
#[derive(Debug, Clone, Copy, PartialEq, Eq, Structural)]
pub enum Handler {
    /// A declared remediation: it runs a command.
    Remediation,
    /// Text and, at times, a script.
    Skill,
    /// Text a human already picked.
    Command,
    /// Memory and introspection, served by this process.
    Memory,
    /// Whatever is left is an agent, or nothing.
    Agent,
}

/// The tools this process serves from memory and its own subcommands.
pub open spec fn is_memory_tool(tool: Seq<char>) -> bool {
    tool == "dotagent-logs"@ || tool == "dotagent-status"@ || tool == "dotagent-doctor"@ || tool
        == "dotagent-next-runs"@ || tool == "dotagent-inspect"@ || tool == "memory-remember"@
        || tool == "memory-recall"@ || tool == "memory-topics"@ || tool == "memory-supersede"@
        || tool == "memory-forget"@
}

/// Whether the skill handler claims a tool. `known` says that a skill of this
/// tool name is installed.
pub open spec fn skill_claims(tool: Seq<char>, enabled: bool, known: bool) -> bool {
    has_prefix(tool, "skill-"@) && enabled && (tool == "skill-read"@ || tool == "skill-run"@
        || known)
}

/// Whether the command handler claims a tool.
pub open spec fn command_claims(tool: Seq<char>, enabled: bool) -> bool {
    enabled && (tool == "command-get"@ || tool == "command-list"@)
}

/// Who serves a tool: the first that claims it.
pub open spec fn handler_of(
    tool: Seq<char>,
    skills_enabled: bool,
    skill_known: bool,
    commands_enabled: bool,
) -> Handler {
    if has_prefix(tool, "remediate-"@) {
        Handler::Remediation
    } else if skill_claims(tool, skills_enabled, skill_known) {
        Handler::Skill
    } else if command_claims(tool, commands_enabled) {
        Handler::Command
    } else if is_memory_tool(tool) {
        Handler::Memory
    } else {
        Handler::Agent
    }
}

/// Whether this process serves a tool itself.
pub fn serves_from_memory(tool: &str) -> (r: bool)
    ensures
        r == is_memory_tool(tool@),
{
    same(tool, "dotagent-logs") || same(tool, "dotagent-status") || same(tool, "dotagent-doctor")
        || same(tool, "dotagent-next-runs") || same(tool, "dotagent-inspect") || same(
        tool,
        "memory-remember",
    ) || same(tool, "memory-recall") || same(tool, "memory-topics") || same(
        tool,
        "memory-supersede",
    ) || same(tool, "memory-forget")
}

/// Who serves a tool. Each handler has its own argument shape, so the one for
/// agents applies only once the tool is known to be an agent.
pub fn route_tool(
    tool: &str,
    skills_enabled: bool,
    skill_known: bool,
    commands_enabled: bool,
) -> (r: Handler)
    ensures
        r == handler_of(tool@, skills_enabled, skill_known, commands_enabled),
{
    if starts_with(tool, "remediate-") {
        return Handler::Remediation;
    }
    if starts_with(tool, "skill-") && skills_enabled && (same(tool, "skill-read") || same(
        tool,
        "skill-run",
    ) || skill_known) {
        return Handler::Skill;
    }
    if commands_enabled && (same(tool, "command-get") || same(tool, "command-list")) {
        return Handler::Command;
    }
    if serves_from_memory(tool) {
        return Handler::Memory;
    }
    Handler::Agent
}

/// A tool result as a response.
pub fn tool_response(id: Value, result: &CallToolResult) -> (r: RpcResponse)
    ensures
        is_rpc_ok(r, json_view(id), result.wire()),
{
    RpcResponse::ok(id, result.to_json())
}

/// A tool no agent answers to.
pub fn unknown_tool(id: Value, tool: &str) -> (r: RpcResponse)
    ensures
        is_rpc_error(r, json_view(id), INVALID_PARAMS, "unknown tool '"@ + tool@ + "'"@),
{
    let mut message = "unknown tool '".to_owned();
    message.append(tool);
    message.append("'");
    RpcResponse::err(id, INVALID_PARAMS, message.as_str())
}

/// The arguments of an agent run.
#[derive(Debug, PartialEq, Eq)]
pub struct RunArguments {
    pub schedule: Option<String>,
    pub args: Vec<String>,
}

/// What a call that reached the agents comes to.
#[derive(Debug)]
pub enum AgentCall {
    Respond(RpcResponse),
    Run { id: Value, agent: String, arguments: RunArguments },
}

/// Whether `r` is what a call of `tool` comes to, once nobody else claimed it.
pub open spec fn agent_called(
    agents: Seq<DiscoveredAgent>,
    id: JsonView,
    tool: Seq<char>,
    typed: Option<Result<RunArguments, String>>,
    r: AgentCall,
) -> bool {
    if !agent_tool_names(agents).contains(tool) {
        r matches AgentCall::Respond(resp) && is_rpc_error(
            resp,
            id,
            INVALID_PARAMS,
            "unknown tool '"@ + tool + "'"@,
        )
    } else {
        match typed {
            Some(Err(e)) => r matches AgentCall::Respond(resp) && is_rpc_error(
                resp,
                id,
                INVALID_PARAMS,
                e@,
            ),
            Some(Ok(a)) => r matches AgentCall::Run { id: echoed, agent, arguments } && json_view(
                echoed,
            ) == id && arguments == a && stands_for(agents, tool, agent@),
            None => r matches AgentCall::Run { id: echoed, agent, arguments } && json_view(echoed)
                == id && arguments.schedule is None && arguments.args@.len() == 0 && stands_for(
                agents,
                tool,
                agent@,
            ),
        }
    }
}

/// Whether a tool name stands for the agent of this name.
pub open spec fn stands_for(agents: Seq<DiscoveredAgent>, tool: Seq<char>, name: Seq<char>) -> bool {
    exists|i: int|
        #[trigger] is_first(agent_tool_names(agents), i) && agents[i].manifest.tool@ == tool
            && agents[i].manifest.name@ == name
}

/// Resolve a tool to an agent, and hold its arguments to the schema of an agent
/// run, which applies only once the tool is known to be one. `typed` is the
/// arguments of the call read into [`RunArguments`], or the error that gave.
pub fn agent_call(
    agents: &Vec<DiscoveredAgent>,
    id: Value,
    tool: &str,
    typed: Option<Result<RunArguments, String>>,
) -> (r: AgentCall)
    ensures
        agent_called(agents@, json_view(id), tool@, typed, r),
{
    let agent = match resolve_agent(agents, tool) {
        Some(agent) => agent,
        None => {
            return AgentCall::Respond(unknown_tool(id, tool));
        },
    };
    proof {
        let i = choose|i: int|
            #[trigger] is_first(agent_tool_names(agents@), i) && agents@[i].manifest.tool@ == tool@
                && agents@[i].manifest.name@ == agent@;
        assert(agent_tool_names(agents@)[i] == tool@);
    }
    match typed {
        Some(Err(e)) => AgentCall::Respond(RpcResponse::err(id, INVALID_PARAMS, e.as_str())),
        Some(Ok(arguments)) => AgentCall::Run { id, agent, arguments },
        None => {
            let none: Vec<String> = Vec::new();
            AgentCall::Run { id, agent, arguments: RunArguments { schedule: None, args: none } }
        },
    }
}

/// A name that is not in the catalog is not callable: whatever runs is an agent
/// that was found, under the tool name it was listed with.
pub proof fn only_listed_agents_run(
    agents: Seq<DiscoveredAgent>,
    id: JsonView,
    tool: Seq<char>,
    typed: Option<Result<RunArguments, String>>,
    r: AgentCall,
)
    requires
        agent_called(agents, id, tool, typed, r),
        r is Run,
    ensures
        stands_for(agents, tool, r->agent@),
        has_agent(agents, r->agent@),
{
    let i = choose|i: int|
        #[trigger] is_first(agent_tool_names(agents), i) && agents[i].manifest.tool@ == tool
            && agents[i].manifest.name@ == r->agent@;
    assert(agents[i].manifest.name@ == r->agent@);
}

// ---------------------------------------------------------------------
// Laws of the protocol
// ---------------------------------------------------------------------

proof fn lemma_method_names()
    ensures
        "initialize"@ != "ping"@ && "initialize"@ != "tools/list"@ && "initialize"@
            != "tools/call"@,
        "ping"@ != "tools/list"@ && "ping"@ != "tools/call"@ && "tools/list"@ != "tools/call"@,
{
    reveal_strlit("initialize");
    reveal_strlit("ping");
    reveal_strlit("tools/list");
    reveal_strlit("tools/call");
    assert("initialize"@[0] == 'i' && "ping"@[0] == 'p');
    assert("tools/list"@[0] == 't' && "tools/call"@[0] == 't');
    assert("tools/list"@[6] == 'l' && "tools/call"@[6] == 'c');
}

/// Whatever a request asks for, what comes of it carries the request's own id,
/// and a tool call carries the request's own parameters.
pub proof fn every_answer_carries_its_id(
    req: RequestView,
    default_version: Seq<char>,
    server_version: Seq<char>,
    step: RpcStep,
)
    requires
        line_answered(Ok(req), default_version, server_version, step),
        req.id is Some,
    ensures
        step is Respond ==> json_view(step->Respond_0.id) == req.id->0,
        step is ToolsList ==> json_view(step->ToolsList_id) == req.id->0,
        step is ToolsCall ==> json_view(step->ToolsCall_id) == req.id->0 && params_view(
            step->params,
        ) == req.params,
        step is ToolsList <==> req.method == "tools/list"@,
        step is ToolsCall <==> req.method == "tools/call"@,
        step is Respond && step->Respond_0.result is Ok <==> req.method == "initialize"@
            || req.method == "ping"@,
{
    lemma_method_names();
}

/// A method that is not known is answered with code -32601 and its name; a line
/// that is no request with code -32700, under no id, and why.
pub proof fn what_is_not_understood_is_an_error(
    req: RequestView,
    why: Seq<char>,
    default_version: Seq<char>,
    server_version: Seq<char>,
    unknown: RpcStep,
    broken: RpcStep,
)
    requires
        line_answered(Ok(req), default_version, server_version, unknown),
        line_answered(Err(why), default_version, server_version, broken),
        req.id is Some,
        req.method != "initialize"@ && req.method != "ping"@ && req.method != "tools/list"@
            && req.method != "tools/call"@,
    ensures
        unknown is Respond && unknown->Respond_0.result is Err,
        unknown->Respond_0.result->Err_0.code == -32601,
        holds_text(unknown->Respond_0.result->Err_0.message@, "'"@ + req.method + "'"@),
        broken is Respond && broken->Respond_0.result is Err,
        broken->Respond_0.result->Err_0.code == -32700,
        json_view(broken->Respond_0.id) == JsonView::Null,
        has_suffix(broken->Respond_0.result->Err_0.message@, why),
{
    lemma_ends("invalid JSON: "@, why);
    reveal_strlit("'");
    reveal_strlit("unknown method '");
    let lead = "unknown method '"@.drop_last();
    let quoted = "'"@ + req.method + "'"@;
    let none = Seq::<char>::empty();
    let said = unknown->Respond_0.result->Err_0.message@;
    assert(said =~= lead + quoted + none);
    lemma_holds_part(said, lead, quoted, none);
}

/// The handshake speaks the version that the client asks for, and the default
/// where it asks for none; it names the server with its own version, and
/// promises tools that do not change.
pub proof fn a_handshake_takes_the_clients_version(
    req: RequestView,
    default_version: Seq<char>,
    server_version: Seq<char>,
    step: RpcStep,
    asked: Seq<char>,
)
    requires
        line_answered(Ok(req), default_version, server_version, step),
        req.id is Some,
        req.method == "initialize"@,
    ensures
        step is Respond && step->Respond_0.result is Ok,
        ({
            let hello = json_view(step->Respond_0.result->Ok_0);
            &&& req.params is Some && text_member(req.params->0, "protocolVersion"@) == Some(asked)
                ==> text_member(hello, "protocolVersion"@) == Some(asked)
            &&& req.params is None ==> text_member(hello, "protocolVersion"@) == Some(
                default_version,
            )
            &&& member_of(hello, "serverInfo"@) matches Some(info) && text_member(info, "version"@)
                == Some(server_version) && text_member(info, "name"@) == Some("dotagent"@)
            &&& member_of(hello, "capabilities"@) matches Some(can) && (member_of(can, "tools"@)
                matches Some(tools) && member_of(tools, "listChanged"@) == Some(
                JsonView::Bool(false),
            ))
        }),
{
    reveal_strlit("protocolVersion");
    reveal_strlit("capabilities");
    reveal_strlit("serverInfo");
    reveal_strlit("name");
    reveal_strlit("version");
    assert("protocolVersion"@.len() == 15 && "capabilities"@.len() == 12 && "serverInfo"@.len()
        == 10);
    assert("name"@.len() == 4 && "version"@.len() == 7);
}

/// On the wire an answer has its id, and either its result or its error, never
/// both; an error has its code and its message. What is written in order is the
/// same members.
pub proof fn an_answer_has_a_result_or_an_error(r: RpcResponse, i: int)
    requires
        0 <= i < 3,
    ensures
        member_of(r.wire(), "id"@) == Some(json_view(r.id)),
        r.result is Ok ==> member_of(r.wire(), "result"@) == Some(json_view(r.result->Ok_0))
            && member_of(r.wire(), "error"@) is None,
        r.result is Err ==> member_of(r.wire(), "result"@) is None && (member_of(
            r.wire(),
            "error"@,
        ) matches Some(e) && member_of(e, "code"@) == Some(integer(r.result->Err_0.code as int))
            && text_member(e, "message"@) == Some(r.result->Err_0.message@)),
        r.fields().len() == 3,
        member_of(r.wire(), r.fields()[i].0) == Some(r.fields()[i].1),
        text_member(r.wire(), "jsonrpc"@) == Some("2.0"@),
{
    reveal_strlit("jsonrpc");
    reveal_strlit("id");
    reveal_strlit("result");
    reveal_strlit("error");
    reveal_strlit("code");
    reveal_strlit("message");
    assert("jsonrpc"@.len() == 7 && "id"@.len() == 2 && "result"@.len() == 6 && "error"@.len()
        == 5);
    assert("code"@.len() == 4 && "message"@.len() == 7);
}

/// A call without parameters, or with parameters that are none of a call's, is
/// answered under its id with code -32602; any other goes on as it came.
pub proof fn a_call_goes_on_as_it_came(
    id: Value,
    typed: Option<Result<ToolCall, String>>,
    r: Result<(Value, ToolCall), RpcResponse>,
)
    requires
        params_taken(id, typed, r),
    ensures
        r is Ok <==> typed is Some && typed->0 is Ok,
        r is Ok ==> r->Ok_0.0 == id && r->Ok_0.1 == typed->0->Ok_0,
        r is Err ==> json_view(r->Err_0.id) == json_view(id) && r->Err_0.result is Err
            && r->Err_0.result->Err_0.code == -32602,
        typed is Some && typed->0 is Err ==> r->Err_0.result->Err_0.message@ == typed->0->Err_0@,
{
}

/// Each tool has one handler. What is named like a remedy is one, before
/// anything else; while skills or commands are off nobody claims a tool for
/// them; and the tools that this process serves itself are always its own.
pub proof fn each_tool_has_its_own_handler(tool: Seq<char>, skills: bool, known: bool, commands: bool)
    ensures
        handler_of(tool, skills, known, commands) == Handler::Remediation <==> has_prefix(
            tool,
            "remediate-"@,
        ),
        handler_of(tool, false, known, commands) != Handler::Skill,
        handler_of(tool, skills, known, false) != Handler::Command,
        handler_of(tool, skills, known, commands) == Handler::Skill ==> has_prefix(tool, "skill-"@),
        commands ==> handler_of("command-get"@, skills, known, commands) == Handler::Command
            && handler_of("command-list"@, skills, known, commands) == Handler::Command,
        skills ==> handler_of("skill-read"@, skills, known, commands) == Handler::Skill
            && handler_of("skill-run"@, skills, known, commands) == Handler::Skill,
        handler_of("memory-supersede"@, skills, known, commands) == Handler::Memory,
        handler_of("memory-remember"@, skills, known, commands) == Handler::Memory,
        handler_of("memory-recall"@, skills, known, commands) == Handler::Memory,
        handler_of("memory-forget"@, skills, known, commands) == Handler::Memory,
        handler_of("memory-topics"@, skills, known, commands) == Handler::Memory,
        handler_of("dotagent-logs"@, skills, known, commands) == Handler::Memory,
{
    reveal_strlit("remediate-");
    reveal_strlit("skill-");
    reveal_strlit("skill-read");
    reveal_strlit("skill-run");
    reveal_strlit("command-get");
    reveal_strlit("command-list");
    reveal_strlit("memory-supersede");
    reveal_strlit("memory-remember");
    reveal_strlit("memory-recall");
    reveal_strlit("memory-forget");
    reveal_strlit("memory-topics");
    reveal_strlit("dotagent-logs");
    lemma_first_letter("command-get"@, "remediate-"@);
    lemma_first_letter("command-list"@, "remediate-"@);
    lemma_first_letter("skill-read"@, "remediate-"@);
    lemma_first_letter("skill-run"@, "remediate-"@);
    lemma_first_letter("memory-supersede"@, "remediate-"@);
    lemma_first_letter("memory-remember"@, "remediate-"@);
    lemma_first_letter("memory-recall"@, "remediate-"@);
    lemma_first_letter("memory-forget"@, "remediate-"@);
    lemma_first_letter("memory-topics"@, "remediate-"@);
    lemma_first_letter("dotagent-logs"@, "remediate-"@);
    lemma_first_letter("command-get"@, "skill-"@);
    lemma_first_letter("command-list"@, "skill-"@);
    lemma_first_letter("memory-supersede"@, "skill-"@);
    lemma_first_letter("memory-remember"@, "skill-"@);
    lemma_first_letter("memory-recall"@, "skill-"@);
    lemma_first_letter("memory-forget"@, "skill-"@);
    lemma_first_letter("memory-topics"@, "skill-"@);
    lemma_first_letter("dotagent-logs"@, "skill-"@);
    assert("skill-read"@.subrange(0, 6) =~= "skill-"@);
    assert("skill-run"@.subrange(0, 6) =~= "skill-"@);
    assert("memory-supersede"@[0] == 'm' && "memory-remember"@[0] == 'm' && "memory-recall"@[0]
        == 'm' && "memory-forget"@[0] == 'm' && "memory-topics"@[0] == 'm');
    assert("dotagent-logs"@[0] == 'd' && "command-get"@[0] == 'c' && "command-list"@[0] == 'c');
}

proof fn lemma_first_letter(s: Seq<char>, prefix: Seq<char>)
    requires
        s.len() > 0,
        prefix.len() > 0,
        s[0] != prefix[0],
    ensures
        !has_prefix(s, prefix),
{
    if has_prefix(s, prefix) {
        assert(s.subrange(0, prefix.len() as int)[0] == s[0]);
    }
}

/// An agent runs with the arguments of the call, and with none where the call
/// has none; a call that runs nothing is answered under its own id with code
/// -32602.
pub proof fn an_agent_runs_with_the_calls_arguments(
    agents: Seq<DiscoveredAgent>,
    id: JsonView,
    tool: Seq<char>,
    typed: Option<Result<RunArguments, String>>,
    r: AgentCall,
)
    requires
        agent_called(agents, id, tool, typed, r),
    ensures
        r is Run <==> agent_tool_names(agents).contains(tool) && !(typed is Some && typed->0
            is Err),
        r is Run ==> json_view(r->Run_id) == id,
        r is Run && typed is Some ==> r->arguments == typed->0->Ok_0,
        r is Run && typed is None ==> r->arguments.schedule is None && r->arguments.args@.len()
            == 0,
        r is Respond ==> json_view(r->Respond_0.id) == id && r->Respond_0.result is Err
            && r->Respond_0.result->Err_0.code == -32602,
        !agent_tool_names(agents).contains(tool) ==> holds_text(
            r->Respond_0.result->Err_0.message@,
            tool,
        ),
{
    lemma_holds_part("unknown tool '"@ + tool + "'"@, "unknown tool '"@, tool, "'"@);
}

} // verus!
