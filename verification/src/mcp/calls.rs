//! One tool call: who serves it, and what that comes to.

use crate::discovery::Discovery;
use crate::json::{JsonView, copy_value, json_view, null_value};
use crate::mcp::commands::{CommandStep, call_command, command_called};
use crate::mcp::memory_tools::{Memory, MemoryStep, call_memory, memory_called};
use crate::mcp::remediation::{RemediationStep, call_remediation, remediation_decided};
use crate::mcp::rpc::{
    Handler, INVALID_PARAMS, RpcResponse, ToolCall, call_params, handler_of, is_rpc_error,
    params_view, route_tool,
};
use crate::mcp::skills::{Skill, SkillStep, call_skill, skill_called};
use crate::mcp::tools::{Switches, is_first, resolve_skill, skill_tool_names};
use crate::text::views;
use serde_json::Value;
use vstd::prelude::*;

verus! {

broadcast use vstd::string::group_string_axioms;

/// What is installed and turned on, as a tool call sees it.
#[derive(Debug)]
pub struct Installed {
    pub found: Discovery,
    pub on: Switches,
    pub skills: Vec<Skill>,
    /// One line per command.
    pub menu: Vec<String>,
}

/// What a tool call comes to.
#[derive(Debug)]
pub enum ToolStep {
    Respond(RpcResponse),
    Remediation { id: Value, step: RemediationStep },
    Skill { id: Value, step: SkillStep },
    Command { id: Value, step: CommandStep },
    Memory { id: Value, step: MemoryStep },
    /// Nobody else claimed it: an agent, or nothing.
    Agent { id: Value, tool: String, arguments: Option<Value> },
}

/// The arguments a handler sees: `null` when there are none.
pub open spec fn raw_args(arguments: Option<JsonView>) -> JsonView {
    match arguments {
        Some(a) => a,
        None => JsonView::Null,
    }
}

/// Whether `step` is what a call of `tool` comes to.
pub open spec fn call_served(
    at: Installed,
    id: JsonView,
    tool: Seq<char>,
    arguments: Option<JsonView>,
    step: ToolStep,
) -> bool {
    let args = raw_args(arguments);
    match handler_of(
        tool,
        at.on.skills,
        skill_tool_names(at.skills@).contains(tool),
        at.on.commands,
    ) {
        Handler::Remediation => step matches ToolStep::Remediation { id: echoed, step: s }
            && json_view(echoed) == id && remediation_decided(at.found.agents@, tool, s),
        Handler::Skill => step matches ToolStep::Skill { id: echoed, step: s } && json_view(echoed)
            == id && skill_called(tool, args, at.on.skills, at.skills@, s),
        Handler::Command => step matches ToolStep::Command { id: echoed, step: s } && json_view(
            echoed,
        ) == id && command_called(tool, args, at.on.commands, views(at.menu@), s),
        Handler::Memory => step matches ToolStep::Memory { id: echoed, step: s } && json_view(
            echoed,
        ) == id && memory_called(tool, args, at.found.agents@, s),
        Handler::Agent => step matches ToolStep::Agent { id: echoed, tool: t, arguments: a }
            && json_view(echoed) == id && t@ == tool && params_view(a) == arguments,
    }
}

/// Whether `step` is what a tool call comes to, given its parameters.
pub open spec fn call_answered(
    at: Installed,
    id: JsonView,
    typed: Option<Result<ToolCall, String>>,
    step: ToolStep,
) -> bool {
    match typed {
        None => step matches ToolStep::Respond(r) && is_rpc_error(
            r,
            id,
            INVALID_PARAMS,
            "missing params"@,
        ),
        Some(Err(e)) => step matches ToolStep::Respond(r) && is_rpc_error(
            r,
            id,
            INVALID_PARAMS,
            e@,
        ),
        Some(Ok(call)) => call_served(at, id, call.name@, params_view(call.arguments), step),
    }
}

/// Serve a tool call: hand it to the first handler that claims the tool. Each
/// handler has its own argument shape, so none fails on the schema of another.
/// `typed` is the params read into a call, or the error that gave, where there
/// are params.
pub fn tools_call(
    at: &Installed,
    id: Value,
    typed: Option<Result<ToolCall, String>>,
) -> (step: ToolStep)
    ensures
        call_answered(*at, json_view(id), typed, step),
{
    let (id, call) = match call_params(id, typed) {
        Ok(pair) => pair,
        Err(response) => {
            return ToolStep::Respond(response);
        },
    };
    let args = match &call.arguments {
        Some(a) => copy_value(a),
        None => null_value(),
    };
    let tool = call.name.as_str();
    let known = match resolve_skill(&at.skills, tool) {
        Some(_) => true,
        None => false,
    };
    proof {
        if known {
            let i = choose|i: int| #[trigger]
                is_first(skill_tool_names(at.skills@), i) && at.skills@[i].tool@ == tool@;
            assert(skill_tool_names(at.skills@)[i] == tool@);
        }
    }
    match route_tool(tool, at.on.skills, known, at.on.commands) {
        Handler::Remediation => ToolStep::Remediation {
            id,
            step: call_remediation(&at.found.agents, tool),
        },
        Handler::Skill => ToolStep::Skill {
            id,
            step: call_skill(tool, &args, at.on.skills, &at.skills),
        },
        Handler::Command => ToolStep::Command {
            id,
            step: call_command(tool, &args, at.on.commands, &at.menu),
        },
        Handler::Memory => ToolStep::Memory { id, step: call_memory(tool, &args, &at.found) },
        Handler::Agent => ToolStep::Agent { id, tool: call.name, arguments: call.arguments },
    }
}

/// Whoever a call is handed to serves it: no handler that was chosen turns the
/// tool away.
pub proof fn a_chosen_handler_serves_the_call(
    at: Installed,
    id: JsonView,
    tool: Seq<char>,
    arguments: Option<JsonView>,
    step: ToolStep,
)
    requires
        call_served(at, id, tool, arguments, step),
    ensures
        step matches ToolStep::Remediation { step: s, .. } ==> !(s is NotMine),
        step matches ToolStep::Skill { step: s, .. } ==> !(s is NotMine),
        step matches ToolStep::Command { step: s, .. } ==> !(s is NotMine),
        step matches ToolStep::Memory { step: s, .. } ==> !(s is NotMine),
{
}

/// Whoever serves a call answers under the call's own id. An agent gets the
/// tool's name and the arguments as they came; everyone else reads the arguments
/// of this call and of no other.
pub proof fn a_call_keeps_its_id_and_arguments(
    at: Installed,
    id: JsonView,
    call: ToolCall,
    step: ToolStep,
)
    requires
        call_answered(at, id, Some(Ok(call)), step),
    ensures
        !(step is Respond),
        step is Remediation ==> json_view(step->Remediation_id) == id,
        step is Skill ==> json_view(step->Skill_id) == id,
        step is Command ==> json_view(step->Command_id) == id,
        step is Memory ==> json_view(step->Memory_id) == id,
        step is Agent ==> json_view(step->Agent_id) == id && step->tool@ == call.name@
            && params_view(step->arguments) == params_view(call.arguments),
        step is Memory && call.arguments is Some ==> memory_called(
            call.name@,
            json_view(call.arguments->0),
            at.found.agents@,
            step->Memory_step,
        ),
        step is Skill && call.arguments is Some ==> skill_called(
            call.name@,
            json_view(call.arguments->0),
            at.on.skills,
            at.skills@,
            step->Skill_step,
        ),
        step is Command && call.arguments is Some ==> command_called(
            call.name@,
            json_view(call.arguments->0),
            at.on.commands,
            views(at.menu@),
            step->Command_step,
        ),
{
}

} // verus!
