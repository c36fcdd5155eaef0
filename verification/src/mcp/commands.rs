//! Commands: prompts a human picked, resolved and never run.

use crate::json::{JsonView, json_view, text_member};
use crate::mcp::rpc::command_claims;
use crate::mcp::{COMMAND_BODY_MAX_BYTES, CallToolResult, cap, capped, says, str_arg, text_arg};
use crate::text::{
    byte_len, has_prefix, holds_text, join, joined, lemma_ends, lemma_holds_more,
    lemma_holds_part, lemma_joined_holds, same, trimmed, views,
};
use serde_json::Value;
use vstd::prelude::*;

verus! {

broadcast use vstd::string::group_string_axioms;

/// A command whose prompt was rendered with the arguments it was given.
#[derive(Debug, PartialEq, Eq)]
pub struct RenderedCommand {
    pub prompt: String,
    pub allowed_tools: Option<String>,
}

/// What a call of a command tool comes to.
#[derive(Debug, PartialEq, Eq)]
pub enum CommandStep {
    /// Not a command tool.
    NotMine,
    Answer(CallToolResult),
    /// Resolve this name and render its prompt with these arguments.
    Resolve { name: String, args: String },
}

/// What listing the commands says.
pub open spec fn listing(lines: Seq<Seq<char>>) -> Seq<char> {
    if lines.len() == 0 {
        "No commands installed."@
    } else {
        joined(lines, "\n"@)
    }
}

/// Whether `step` is what a call of `tool` comes to.
pub open spec fn command_called(
    tool: Seq<char>,
    args: JsonView,
    enabled: bool,
    menu: Seq<Seq<char>>,
    step: CommandStep,
) -> bool {
    if !command_claims(tool, enabled) {
        step is NotMine
    } else if tool == "command-get"@ {
        let name = trimmed(text_arg(args, "name"@));
        if name.len() == 0 {
            step matches CommandStep::Answer(r) && says(
                r,
                "Which command? Pass command.name from the payload."@,
                true,
            )
        } else {
            step matches CommandStep::Resolve { name: n, args: a } && n@ == name && a@ == trimmed(
                text_arg(args, "args"@),
            )
        }
    } else {
        step matches CommandStep::Answer(r) && says(r, listing(menu), false)
    }
}

/// Serve a command tool. `menu` is one line per installed command.
pub fn call_command(tool: &str, args: &Value, enabled: bool, menu: &Vec<String>) -> (step:
    CommandStep)
    ensures
        command_called(tool@, json_view(*args), enabled, views(menu@), step),
{
    if !enabled {
        return CommandStep::NotMine;
    }
    if same(tool, "command-get") {
        let name = str_arg(args, "name");
        if name.as_str().is_empty() {
            return CommandStep::Answer(
                CallToolResult::text("Which command? Pass command.name from the payload.", true),
            );
        }
        return CommandStep::Resolve { name, args: str_arg(args, "args") };
    }
    if same(tool, "command-list") {
        return CommandStep::Answer(list_commands(menu));
    }
    CommandStep::NotMine
}

/// List every installed command.
pub fn list_commands(menu: &Vec<String>) -> (r: CallToolResult)
    ensures
        says(r, listing(views(menu@)), false),
{
    if menu.len() == 0 {
        return CallToolResult::text("No commands installed.", false);
    }
    CallToolResult { text: join(menu.as_slice(), "\n"), is_error: false }
}

/// What resolving a command returns. The tools it suggests are carried but
/// flagged: nothing here controls the dispatcher's harness, so presenting them
/// as a constraint would describe a guarantee that does not exist.
pub open spec fn command_text(c: RenderedCommand) -> Seq<char> {
    let rendered = capped(c.prompt@, COMMAND_BODY_MAX_BYTES as nat);
    match c.allowed_tools {
        Some(tools) => rendered + "\n\n---\nThe command suggests these tools: "@ + tools@
            + "\n(A hint from its author, not a restriction dotagent enforces.)"@,
        None => rendered,
    }
}

/// What a name that is no command is answered with. Naming the alternatives
/// beats a bare "not found".
pub open spec fn no_such_command(name: Seq<char>, installed: Seq<char>) -> Seq<char> {
    let head = "No command named '"@ + name + "'."@;
    if installed.len() == 0 {
        head
    } else {
        head + " Installed: "@ + installed + "."@
    }
}

/// Whether `r` is what asking for a command is answered with.
pub open spec fn command_answered(
    name: Seq<char>,
    found: Option<RenderedCommand>,
    installed: Seq<char>,
    r: CallToolResult,
) -> bool {
    match found {
        Some(c) => says(r, command_text(c), false),
        None => says(r, no_such_command(name, installed), true),
    }
}

/// Resolve a name to its rendered prompt. `installed` names what there is.
pub fn get_command(name: &str, found: &Option<RenderedCommand>, installed: &str) -> (r:
    CallToolResult)
    ensures
        command_answered(name@, *found, installed@, r),
{
    match found {
        Some(c) => {
            let mut text = cap(c.prompt.as_str(), COMMAND_BODY_MAX_BYTES);
            if let Some(tools) = &c.allowed_tools {
                text.append("\n\n---\nThe command suggests these tools: ");
                text.append(tools.as_str());
                text.append("\n(A hint from its author, not a restriction dotagent enforces.)");
            }
            CallToolResult { text, is_error: false }
        },
        None => {
            let mut text = "No command named '".to_owned();
            text.append(name);
            text.append("'.");
            if !installed.is_empty() {
                text.append(" Installed: ");
                text.append(installed);
                text.append(".");
            }
            CallToolResult { text, is_error: true }
        },
    }
}

/// The command that is resolved is the one that was named, with the arguments
/// that were given for it.
pub proof fn a_named_command_is_resolved(
    args: JsonView,
    menu: Seq<Seq<char>>,
    step: CommandStep,
    name: Seq<char>,
    extra: Seq<char>,
)
    requires
        command_called("command-get"@, args, true, menu, step),
        text_member(args, "name"@) == Some(name),
        text_member(args, "args"@) == Some(extra),
    ensures
        trimmed(name).len() > 0 ==> step is Resolve && step->Resolve_name@ == trimmed(name)
            && step->Resolve_args@ == trimmed(extra),
        trimmed(name).len() == 0 ==> step is Answer && step->Answer_0.is_error,
{
}

/// The list names every installed command, in the order of the menu.
pub proof fn every_command_is_listed(
    args: JsonView,
    menu: Seq<Seq<char>>,
    step: CommandStep,
    i: int,
)
    requires
        command_called("command-list"@, args, true, menu, step),
        0 <= i < menu.len(),
    ensures
        step is Answer && !step->Answer_0.is_error,
        holds_text(step->Answer_0.text@, menu[i]),
{
    reveal_strlit("command-get");
    reveal_strlit("command-list");
    assert("command-get"@.len() == 11 && "command-list"@.len() == 12);
    lemma_joined_holds(menu, "\n"@, i);
}

/// While commands are off nothing is served as one, whatever it is called; and
/// what is not a command tool is left to others.
pub proof fn commands_that_are_off_serve_nothing(
    tool: Seq<char>,
    args: JsonView,
    menu: Seq<Seq<char>>,
    step: CommandStep,
    other: CommandStep,
)
    requires
        command_called(tool, args, false, menu, step),
        command_called(tool, args, true, menu, other),
    ensures
        step is NotMine,
        other is NotMine <==> tool != "command-get"@ && tool != "command-list"@,
{
}

/// A prompt that fits is given whole and first; the tools that its author
/// suggests follow it. A name that is no command is an error that repeats the
/// name and says what there is.
pub proof fn a_command_answers_with_its_prompt(
    name: Seq<char>,
    c: RenderedCommand,
    installed: Seq<char>,
    known: CallToolResult,
    unknown: CallToolResult,
)
    requires
        command_answered(name, Some(c), installed, known),
        command_answered(name, None, installed, unknown),
    ensures
        !known.is_error && unknown.is_error,
        byte_len(c.prompt@) <= COMMAND_BODY_MAX_BYTES ==> has_prefix(known.text@, c.prompt@),
        byte_len(c.prompt@) <= COMMAND_BODY_MAX_BYTES && c.allowed_tools is None ==> known.text@
            == c.prompt@,
        c.allowed_tools is Some ==> holds_text(known.text@, c.allowed_tools->0@),
        holds_text(unknown.text@, "'"@ + name + "'"@),
        holds_text(unknown.text@, installed),
{
    let rendered = capped(c.prompt@, COMMAND_BODY_MAX_BYTES as nat);
    let none = Seq::<char>::empty();
    assert(rendered =~= rendered + none);
    lemma_ends(rendered, none);
    if c.allowed_tools is Some {
        let tools = c.allowed_tools->0@;
        let lead = "\n\n---\nThe command suggests these tools: "@;
        let end = "\n(A hint from its author, not a restriction dotagent enforces.)"@;
        assert(known.text@ =~= rendered + (lead + tools + end));
        lemma_ends(rendered, lead + tools + end);
        assert(known.text@ =~= (rendered + lead) + tools + end);
        lemma_holds_part(known.text@, rendered + lead, tools, end);
    }
    reveal_strlit("'");
    reveal_strlit("'.");
    reveal_strlit("No command named '");
    let quoted = "'"@ + name + "'"@;
    let lead = "No command named '"@.drop_last();
    let dot = "'."@.skip(1);
    let head = "No command named '"@ + name + "'."@;
    assert(head =~= lead + quoted + dot);
    lemma_holds_part(head, lead, quoted, dot);
    if installed.len() > 0 {
        lemma_holds_more(head, quoted, " Installed: "@);
        lemma_holds_more(head + " Installed: "@, quoted, installed);
        lemma_holds_more(head + " Installed: "@ + installed, quoted, "."@);
        lemma_holds_part(unknown.text@, head + " Installed: "@, installed, "."@);
    } else {
        assert(unknown.text@ =~= head + installed + none);
        lemma_holds_part(unknown.text@, head, installed, none);
    }
}

} // verus!
