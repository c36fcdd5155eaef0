//! Remediation: the command an operator declared for a preflight check, as a
//! tool.
//!
//! Running a string a plugin wrote, from a chat, would be arbitrary execution.
//! Only what a manifest declares is callable, and the model picks it from the
//! catalog.

use crate::discovery::DiscoveredAgent;
use crate::json::{JsonView, copy_value, json_view};
use crate::manifest::{AgentManifest, PluginRef};
use crate::mcp::tools::{Tool, ToolView, catalog, first_named, firsts, is_first, schema, shown};
use crate::mcp::{CallToolResult, SKILL_OUTPUT_MAX_BYTES, cap, capped, says};
use crate::process::{ProcessEnd, SpawnRequest, exit_code_of, reported_code};
use crate::text::{
    byte_len, dec, dec_i64, dec_u64, has_prefix, has_suffix, holds_text, lemma_ends,
    lemma_holds_more, lemma_holds_part, split_words, starts_with, trim, trimmed, views, words,
};
use serde_json::Value;
use vstd::prelude::*;

verus! {

broadcast use vstd::string::group_string_axioms;

/// Deadline for a remediation. Long enough for a VPN handshake, short enough
/// that a command waiting on a prompt nobody will answer does not sit forever.
pub const REMEDIATION_TIMEOUT_SECONDS: u64 = 120;

/// A declared remediation.
#[derive(Debug, PartialEq, Eq)]
pub struct Remedy {
    pub tool: String,
    pub agent: String,
    pub plugin: String,
    pub command: String,
}

/// What a remediation declares.
#[verifier::ext_equal]
pub struct RemedyView {
    pub tool: Seq<char>,
    pub agent: Seq<char>,
    pub plugin: Seq<char>,
    pub command: Seq<char>,
}

impl View for Remedy {
    type V = RemedyView;

    open spec fn view(&self) -> RemedyView {
        RemedyView {
            tool: self.tool@,
            agent: self.agent@,
            plugin: self.plugin@,
            command: self.command@,
        }
    }
}

/// What a list of remediations declares.
pub open spec fn remedy_views(remedies: Seq<Remedy>) -> Seq<RemedyView> {
    remedies.map_values(|r: Remedy| r@)
}

/// The remediations of a list of preflight checks: a check with none, or a
/// blank one, declares nothing.
pub open spec fn remedies_in(agent: Seq<char>, checks: Seq<PluginRef>) -> Seq<RemedyView>
    decreases checks.len(),
{
    if checks.len() == 0 {
        Seq::empty()
    } else {
        let before = remedies_in(agent, checks.drop_last());
        let c = checks.last();
        match c.remediation {
            Some(command) => if trimmed(command@).len() == 0 {
                before
            } else {
                before.push(
                    RemedyView {
                        tool: c.remediation_tool@,
                        agent,
                        plugin: c.plugin@,
                        command: trimmed(command@),
                    },
                )
            },
            None => before,
        }
    }
}

/// The remediations a list of agents declares, in order.
pub open spec fn remedies_of(agents: Seq<DiscoveredAgent>) -> Seq<RemedyView>
    decreases agents.len(),
{
    if agents.len() == 0 {
        Seq::empty()
    } else {
        remedies_of(agents.drop_last()) + remedies_in(
            agents.last().manifest.name@,
            agents.last().manifest.preflight@,
        )
    }
}

fn push_remedies(out: &mut Vec<Remedy>, agent: &AgentManifest)
    ensures
        remedy_views(final(out)@) == remedy_views(old(out)@) + remedies_in(
            agent.name@,
            agent.preflight@,
        ),
{
    let ghost start = remedy_views(out@);
    let ghost checks = agent.preflight@;
    let mut i: usize = 0;
    proof {
        assert(checks.take(0) =~= Seq::<PluginRef>::empty());
        assert(start + Seq::<RemedyView>::empty() =~= start);
    }
    while i < agent.preflight.len()
        invariant
            i <= agent.preflight@.len(),
            checks == agent.preflight@,
            remedy_views(out@) == start + remedies_in(agent.name@, checks.take(i as int)),
        decreases agent.preflight@.len() - i,
    {
        let ghost before = remedy_views(out@);
        let ghost head = remedies_in(agent.name@, checks.take(i as int));
        proof {
            assert(checks.take(i as int + 1).drop_last() =~= checks.take(i as int));
            assert(checks.take(i as int + 1).last() == checks[i as int]);
        }
        let check = &agent.preflight[i];
        if let Some(command) = &check.remediation {
            let command = trim(command.as_str());
            if !command.as_str().is_empty() {
                out.push(
                    Remedy {
                        tool: check.remediation_tool.clone(),
                        agent: agent.name.clone(),
                        plugin: check.plugin.clone(),
                        command,
                    },
                );
                proof {
                    let new = RemedyView {
                        tool: check.remediation_tool@,
                        agent: agent.name@,
                        plugin: check.plugin@,
                        command: command@,
                    };
                    assert(remedy_views(out@) =~= before.push(new));
                    assert(start + head.push(new) =~= (start + head).push(new));
                }
            }
        }
        i = i + 1;
    }
    proof {
        assert(checks.take(checks.len() as int) =~= checks);
    }
}

/// The remediations a list of agents declares.
pub fn declared_remedies(agents: &Vec<DiscoveredAgent>) -> (r: Vec<Remedy>)
    ensures
        remedy_views(r@) == remedies_of(agents@),
{
    let mut out: Vec<Remedy> = Vec::new();
    let mut i: usize = 0;
    proof {
        assert(agents@.take(0) =~= Seq::<DiscoveredAgent>::empty());
        assert(remedy_views(out@) =~= Seq::<RemedyView>::empty());
    }
    while i < agents.len()
        invariant
            i <= agents@.len(),
            remedy_views(out@) == remedies_of(agents@.take(i as int)),
        decreases agents@.len() - i,
    {
        proof {
            assert(agents@.take(i as int + 1).drop_last() =~= agents@.take(i as int));
        }
        push_remedies(&mut out, &agents[i].manifest);
        i = i + 1;
    }
    proof {
        assert(agents@.take(agents@.len() as int) =~= agents@);
    }
    out
}

/// The names of a list of remediations.
pub open spec fn remedy_names(remedies: Seq<RemedyView>) -> Seq<Seq<char>> {
    remedies.map_values(|r: RemedyView| r.tool)
}

fn names_of_remedies(remedies: &Vec<Remedy>) -> (r: Vec<String>)
    ensures
        views(r@) == remedy_names(remedy_views(remedies@)),
{
    let mut out: Vec<String> = Vec::new();
    let mut i: usize = 0;
    while i < remedies.len()
        invariant
            i <= remedies@.len(),
            out@.len() == i,
            forall|k: int| 0 <= k < i ==> #[trigger] out@[k]@ == remedies@[k].tool@,
        decreases remedies@.len() - i,
    {
        out.push(remedies[i].tool.clone());
        i = i + 1;
    }
    proof {
        assert(views(out@) =~= remedy_names(remedy_views(remedies@)));
    }
    out
}

/// What a remediation's tool shows. The command is in the description: an
/// assistant about to change the operator's machine should be able to say how.
pub open spec fn remedy_tool(r: RemedyView, schema: JsonView) -> ToolView {
    ToolView {
        name: r.tool,
        description: "Fix what makes "@ + r.plugin + " block "@ + r.agent + ", by running: "@
            + r.command + "\n\nDeclared in "@ + r.agent
            + "'s manifest. Ask before calling this — it changes the machine, unlike reading a log."@,
        schema,
    }
}

/// The remediation tools, one per name.
pub open spec fn remedy_tool_views(agents: Seq<DiscoveredAgent>, schema: JsonView) -> Seq<ToolView> {
    let all = remedies_of(agents);
    firsts(remedy_names(all)).map_values(|i: int| remedy_tool(all[i], schema))
}

/// One tool per declared remediation.
pub fn remediation_tools(agents: &Vec<DiscoveredAgent>, schema: &Value) -> (r: Vec<Tool>)
    ensures
        shown(r@) == remedy_tool_views(agents@, json_view(*schema)),
{
    let remedies = declared_remedies(agents);
    let names = names_of_remedies(&remedies);
    let places = catalog(&names);
    let mut tools: Vec<Tool> = Vec::new();
    let ghost all = remedies_of(agents@);
    let ghost wanted = remedy_tool_views(agents@, json_view(*schema));
    let mut i: usize = 0;
    proof {
        assert(places@.map_values(|i: usize| i as int).len() == places@.len());
        assert(views(names@).len() == names@.len());
        assert(remedy_names(all).len() == all.len());
        assert(remedy_views(remedies@).len() == remedies@.len());
    }
    while i < places.len()
        invariant
            i <= places@.len(),
            tools@.len() == i,
            all == remedies_of(agents@),
            all == remedy_views(remedies@),
            places@.map_values(|i: usize| i as int) == firsts(remedy_names(all)),
            forall|k: int| 0 <= k < places@.len() ==> #[trigger] places@[k] < remedies@.len(),
            wanted == remedy_tool_views(agents@, json_view(*schema)),
            wanted.len() == places@.len(),
            forall|k: int| 0 <= k < i ==> #[trigger] tools@[k].shows() == wanted[k],
        decreases places@.len() - i,
    {
        let at: usize = places[i];
        let remedy = &remedies[at];
        proof {
            assert(places@.map_values(|i: usize| i as int)[i as int] == at as int);
            assert(all[at as int] == remedies@[at as int]@);
        }
        let mut description = "Fix what makes ".to_owned();
        description.append(remedy.plugin.as_str());
        description.append(" block ");
        description.append(remedy.agent.as_str());
        description.append(", by running: ");
        description.append(remedy.command.as_str());
        description.append("\n\nDeclared in ");
        description.append(remedy.agent.as_str());
        description.append(
            "'s manifest. Ask before calling this — it changes the machine, unlike reading a log.",
        );
        tools.push(
            Tool { name: remedy.tool.clone(), description, input_schema: copy_value(schema) },
        );
        i = i + 1;
    }
    proof {
        assert(shown(tools@) =~= wanted);
    }
    tools
}

/// Whether `r` is the declared remediation a tool name stands for.
pub open spec fn remedy_resolved(
    agents: Seq<DiscoveredAgent>,
    tool: Seq<char>,
    r: Option<Remedy>,
) -> bool {
    let all = remedies_of(agents);
    match r {
        Some(remedy) => exists|i: int|
            #[trigger] is_first(remedy_names(all), i) && all[i].tool == tool && all[i] == remedy@,
        None => !remedy_names(all).contains(tool),
    }
}

/// Resolve a tool name back to the declared command, through the same catalog
/// the model saw.
pub fn resolve_remediation(agents: &Vec<DiscoveredAgent>, tool: &str) -> (r: Option<Remedy>)
    ensures
        remedy_resolved(agents@, tool@, r),
{
    let remedies = declared_remedies(agents);
    let names = names_of_remedies(&remedies);
    match first_named(&names, tool) {
        Some(i) => {
            proof {
                let all = remedies_of(agents@);
                let tools = remedy_names(all);
                assert(views(names@).len() == names@.len());
                assert(remedy_views(remedies@).len() == remedies@.len());
                assert forall|k: int| 0 <= k < names@.len() implies #[trigger] tools[k]
                    == names@[k]@ by {
                    assert(views(names@)[k] == names@[k]@);
                }
                assert(is_first(tools, i as int));
                assert(all[i as int] == remedies@[i as int]@);
                assert(tools[i as int] == all[i as int].tool);
            }
            let found = &remedies[i];
            Some(
                Remedy {
                    tool: found.tool.clone(),
                    agent: found.agent.clone(),
                    plugin: found.plugin.clone(),
                    command: found.command.clone(),
                },
            )
        },
        None => None,
    }
}

/// What a call of a remediation tool comes to.
#[derive(Debug, PartialEq, Eq)]
pub enum RemediationStep {
    /// Not a remediation tool.
    NotMine,
    Answer(CallToolResult),
    Run { remedy: Remedy, request: SpawnRequest },
}

/// Whether `s` starts the command of `remedy`: its first word is the program,
/// the rest are arguments as they stand, and no shell reads them.
pub open spec fn runs_remedy(s: SpawnRequest, remedy: RemedyView) -> bool {
    &&& words(remedy.command).len() > 0
    &&& s.program@ == words(remedy.command)[0]
    &&& views(s.args@) == words(remedy.command).skip(1)
    &&& s.owner_agent@ == remedy.agent
    &&& s.owner_plugin matches Some(p) && p@ == remedy.plugin
    &&& s.deadline_seconds == REMEDIATION_TIMEOUT_SECONDS
    &&& s.label@ == "remediate:"@ + remedy.plugin
}

/// Whether a call is answered with a remediation.
pub open spec fn remediation_decided(
    agents: Seq<DiscoveredAgent>,
    tool: Seq<char>,
    step: RemediationStep,
) -> bool {
    let all = remedies_of(agents);
    if !has_prefix(tool, "remediate-"@) {
        step is NotMine
    } else if !remedy_names(all).contains(tool) {
        step matches RemediationStep::Answer(r) && says(
            r,
            "No declared remediation named "@ + tool + "."@,
            true,
        )
    } else {
        exists|i: int|
            #[trigger] is_first(remedy_names(all), i) && all[i].tool == tool && if words(
                all[i].command,
            ).len() == 0 {
                step matches RemediationStep::Answer(r) && says(
                    r,
                    all[i].agent + ": remediation for "@ + all[i].plugin + " is empty."@,
                    true,
                )
            } else {
                step matches RemediationStep::Run { remedy, request } && remedy@ == all[i]
                    && runs_remedy(request, all[i])
            }
    }
}

/// Decide about a call of a remediation tool. A name that is not in the
/// catalog is refused rather than guessed.
pub fn call_remediation(agents: &Vec<DiscoveredAgent>, tool: &str) -> (step: RemediationStep)
    ensures
        remediation_decided(agents@, tool@, step),
{
    if !starts_with(tool, "remediate-") {
        return RemediationStep::NotMine;
    }
    let remedy = match resolve_remediation(agents, tool) {
        Some(remedy) => remedy,
        None => {
            let mut text = "No declared remediation named ".to_owned();
            text.append(tool);
            text.append(".");
            return RemediationStep::Answer(CallToolResult { text, is_error: true });
        },
    };
    proof {
        let all = remedies_of(agents@);
        let i = choose|i: int|
            #[trigger] is_first(remedy_names(all), i) && all[i].tool == tool@ && all[i]
                == remedy@;
        assert(remedy_names(all)[i] == tool@);
    }
    let mut parts = split_words(remedy.command.as_str());
    if parts.len() == 0 {
        let mut text = remedy.agent.clone();
        text.append(": remediation for ");
        text.append(remedy.plugin.as_str());
        text.append(" is empty.");
        return RemediationStep::Answer(CallToolResult { text, is_error: true });
    }
    let ghost all = views(parts@);
    let program = parts.remove(0);
    proof {
        assert(all[0] == program@);
        assert(views(parts@) =~= all.skip(1));
    }
    let mut label = "remediate:".to_owned();
    label.append(remedy.plugin.as_str());
    let request = SpawnRequest {
        program,
        args: parts,
        owner_agent: remedy.agent.clone(),
        owner_plugin: Some(remedy.plugin.clone()),
        deadline_seconds: REMEDIATION_TIMEOUT_SECONDS,
        label,
    };
    RemediationStep::Run { remedy, request }
}

/// The record of a remediation that ran.
#[derive(Debug, PartialEq, Eq)]
pub struct RemediationInvoked {
    pub agent: String,
    pub plugin: String,
    pub command: String,
    pub exit_code: i32,
    pub timed_out: bool,
}

/// What a model is told of a remediation that came to an end.
pub open spec fn remedy_text(r: RemedyView, end: ProcessEnd) -> Seq<char> {
    match end {
        ProcessEnd::NotStarted { error } => "Could not start `"@ + r.command + "`: "@ + error@,
        ProcessEnd::Finished { code, stdout, stderr } => if reported_code(code) == 0 {
            let tail = if trimmed(stdout@).len() == 0 {
                Seq::<char>::empty()
            } else {
                "\n"@ + trimmed(stdout@)
            };
            "Ran `"@ + r.command + "`. It exited 0."@ + tail + "\n\nThis does not re-run "@
                + r.agent + " — ask for that separately."@
        } else {
            "`"@ + r.command + "` exited "@ + dec(reported_code(code)) + ".\n"@ + capped(
                trimmed(stderr@),
                SKILL_OUTPUT_MAX_BYTES as nat,
            )
        },
        ProcessEnd::TimedOut { seconds } => "`"@ + r.command + "` was still running after "@ + dec(
            seconds as int,
        ) + "s and was killed."@,
        ProcessEnd::Failed { error } => "`"@ + r.command + "` could not run: "@ + error@,
    }
}

/// Whether a child ended well.
pub open spec fn ended_well(end: ProcessEnd) -> bool {
    end matches ProcessEnd::Finished { code, .. } && reported_code(code) == 0
}

/// The exit code a record carries.
pub open spec fn recorded_code(end: ProcessEnd) -> int {
    match end {
        ProcessEnd::Finished { code, .. } => reported_code(code),
        _ => -1,
    }
}

/// Whether `r` is the report of a remediation and the audit entry it leaves.
pub open spec fn remedy_finished(
    remedy: RemedyView,
    end: ProcessEnd,
    r: (CallToolResult, Option<RemediationInvoked>),
) -> bool {
    &&& says(r.0, remedy_text(remedy, end), !ended_well(end))
    &&& r.1 is Some <==> !(end is NotStarted)
    &&& r.1 matches Some(entry) ==> {
        &&& entry.agent@ == remedy.agent
        &&& entry.plugin@ == remedy.plugin
        &&& entry.command@ == remedy.command
        &&& entry.exit_code == recorded_code(end)
        &&& entry.timed_out == (end is TimedOut)
    }
}

/// Report a remediation, and say what goes into the audit log: everything that
/// started, since it changed the machine on behalf of whoever was in a chat.
pub fn finish_remediation(remedy: &Remedy, end: &ProcessEnd) -> (r: (
    CallToolResult,
    Option<RemediationInvoked>,
))
    ensures
        remedy_finished(remedy@, *end, r),
{
    let command = remedy.command.as_str();
    let (text, is_error, exit_code, timed_out): (String, bool, i32, bool) = match end {
        ProcessEnd::NotStarted { error } => {
            let mut text = "Could not start `".to_owned();
            text.append(command);
            text.append("`: ");
            text.append(error.as_str());
            return (CallToolResult { text, is_error: true }, None);
        },
        ProcessEnd::Finished { code, stdout, stderr } => {
            let code: i32 = exit_code_of(*code);
            if code == 0 {
                let out = trim(stdout.as_str());
                let mut tail = String::new();
                if !out.as_str().is_empty() {
                    tail = "\n".to_owned();
                    tail.append(out.as_str());
                }
                let mut text = "Ran `".to_owned();
                text.append(command);
                text.append("`. It exited 0.");
                text.append(tail.as_str());
                text.append("\n\nThis does not re-run ");
                text.append(remedy.agent.as_str());
                text.append(" — ask for that separately.");
                (text, false, code, false)
            } else {
                let mut text = "`".to_owned();
                text.append(command);
                text.append("` exited ");
                text.append(dec_i64(code as i64).as_str());
                text.append(".\n");
                text.append(cap(trim(stderr.as_str()).as_str(), SKILL_OUTPUT_MAX_BYTES).as_str());
                (text, true, code, false)
            }
        },
        ProcessEnd::TimedOut { seconds } => {
            let mut text = "`".to_owned();
            text.append(command);
            text.append("` was still running after ");
            text.append(dec_u64(*seconds).as_str());
            text.append("s and was killed.");
            (text, true, -1, true)
        },
        ProcessEnd::Failed { error } => {
            let mut text = "`".to_owned();
            text.append(command);
            text.append("` could not run: ");
            text.append(error.as_str());
            (text, true, -1, false)
        },
    };
    let entry = RemediationInvoked {
        agent: remedy.agent.clone(),
        plugin: remedy.plugin.clone(),
        command: remedy.command.clone(),
        exit_code,
        timed_out,
    };
    (CallToolResult { text, is_error }, Some(entry))
}

proof fn lemma_remedies_are_declared(agent: Seq<char>, checks: Seq<PluginRef>, k: int)
    requires
        0 <= k < remedies_in(agent, checks).len(),
    ensures
        exists|i: int| #[trigger]
            declares(checks, i, remedies_in(agent, checks)[k].plugin, remedies_in(agent, checks)[k].command),
    decreases checks.len(),
{
    let all = remedies_in(agent, checks);
    let before = remedies_in(agent, checks.drop_last());
    if k < before.len() {
        lemma_remedies_are_declared(agent, checks.drop_last(), k);
        let i = choose|i: int| #[trigger]
            declares(checks.drop_last(), i, before[k].plugin, before[k].command);
        assert(declares(checks, i, all[k].plugin, all[k].command));
    } else {
        assert(declares(checks, checks.len() - 1, all[k].plugin, all[k].command));
    }
}

/// Whether the check at `i` declares `command` for `plugin`.
pub open spec fn declares(
    checks: Seq<PluginRef>,
    i: int,
    plugin: Seq<char>,
    command: Seq<char>,
) -> bool {
    0 <= i < checks.len() && checks[i].plugin@ == plugin && (checks[i].remediation matches Some(c)
        && trimmed(c@) == command && command.len() > 0)
}

/// Whether some manifest declares `command`, for this agent and plugin.
pub open spec fn declared_somewhere(agents: Seq<DiscoveredAgent>, r: RemedyView) -> bool {
    exists|a: int, i: int|
        #![trigger agents[a].manifest.preflight@[i]]
        0 <= a < agents.len() && agents[a].manifest.name@ == r.agent && declares(
            agents[a].manifest.preflight@,
            i,
            r.plugin,
            r.command,
        )
}

/// Nothing but what a manifest declares is ever offered: every remediation in
/// the catalog is the command of a check of the agent it names.
pub proof fn only_declared_commands_are_offered(agents: Seq<DiscoveredAgent>, k: int)
    requires
        0 <= k < remedies_of(agents).len(),
    ensures
        declared_somewhere(agents, remedies_of(agents)[k]),
    decreases agents.len(),
{
    let all = remedies_of(agents);
    let head = agents.drop_last();
    let before = remedies_of(head);
    if k < before.len() {
        only_declared_commands_are_offered(head, k);
        let (a, i) = choose|a: int, i: int|
            #![trigger head[a].manifest.preflight@[i]]
            0 <= a < head.len() && head[a].manifest.name@ == before[k].agent && declares(
                head[a].manifest.preflight@,
                i,
                before[k].plugin,
                before[k].command,
            );
        assert(agents[a].manifest.preflight@[i] == head[a].manifest.preflight@[i]);
        assert(all[k] == before[k]);
    } else {
        let m = agents.last().manifest;
        let own = remedies_in(m.name@, m.preflight@);
        let j = k - before.len();
        lemma_remedies_are_declared(m.name@, m.preflight@, j);
        let i = choose|i: int| #[trigger]
            declares(m.preflight@, i, own[j].plugin, own[j].command);
        assert(all[k] == own[j]);
        lemma_remedy_agent(m.name@, m.preflight@, j);
        let a = agents.len() - 1;
        assert(agents[a].manifest.preflight@[i] == m.preflight@[i]);
    }
}

proof fn lemma_remedy_agent(agent: Seq<char>, checks: Seq<PluginRef>, k: int)
    requires
        0 <= k < remedies_in(agent, checks).len(),
    ensures
        remedies_in(agent, checks)[k].agent == agent,
    decreases checks.len(),
{
    if k < remedies_in(agent, checks.drop_last()).len() {
        lemma_remedy_agent(agent, checks.drop_last(), k);
    }
}

// ---------------------------------------------------------------------
// Laws of a remedy
// ---------------------------------------------------------------------

proof fn lemma_remedies_in_holds(agent: Seq<char>, checks: Seq<PluginRef>, i: int)
    requires
        0 <= i < checks.len(),
        checks[i].remediation is Some,
        trimmed(checks[i].remediation->0@).len() > 0,
    ensures
        remedies_in(agent, checks).contains(
            RemedyView {
                tool: checks[i].remediation_tool@,
                agent,
                plugin: checks[i].plugin@,
                command: trimmed(checks[i].remediation->0@),
            },
        ),
    decreases checks.len(),
{
    let head = checks.drop_last();
    let before = remedies_in(agent, head);
    let all = remedies_in(agent, checks);
    let r = RemedyView {
        tool: checks[i].remediation_tool@,
        agent,
        plugin: checks[i].plugin@,
        command: trimmed(checks[i].remediation->0@),
    };
    if i < head.len() {
        lemma_remedies_in_holds(agent, head, i);
        assert(head[i] == checks[i]);
        let k = choose|k: int| 0 <= k < before.len() && before[k] == r;
        assert(all[k] == r);
    } else {
        assert(all.last() == r);
    }
}

/// Every remedy that an agent declares for one of its checks is offered, under
/// the agent's name, for that check and with that command; a blank one is not.
pub proof fn every_declared_remedy_is_offered(agents: Seq<DiscoveredAgent>, a: int, i: int)
    requires
        0 <= a < agents.len(),
        0 <= i < agents[a].manifest.preflight@.len(),
        agents[a].manifest.preflight@[i].remediation is Some,
        trimmed(agents[a].manifest.preflight@[i].remediation->0@).len() > 0,
    ensures
        ({
            let check = agents[a].manifest.preflight@[i];
            remedies_of(agents).contains(
                RemedyView {
                    tool: check.remediation_tool@,
                    agent: agents[a].manifest.name@,
                    plugin: check.plugin@,
                    command: trimmed(check.remediation->0@),
                },
            )
        }),
    decreases agents.len(),
{
    let check = agents[a].manifest.preflight@[i];
    let r = RemedyView {
        tool: check.remediation_tool@,
        agent: agents[a].manifest.name@,
        plugin: check.plugin@,
        command: trimmed(check.remediation->0@),
    };
    let head = remedies_of(agents.drop_last());
    let last = remedies_in(agents.last().manifest.name@, agents.last().manifest.preflight@);
    let all = remedies_of(agents);
    if a < agents.len() - 1 {
        every_declared_remedy_is_offered(agents.drop_last(), a, i);
        let k = choose|k: int| 0 <= k < head.len() && head[k] == r;
        assert(all[k] == r);
    } else {
        lemma_remedies_in_holds(agents.last().manifest.name@, agents.last().manifest.preflight@, i);
        let k = choose|k: int| 0 <= k < last.len() && last[k] == r;
        assert(all[head.len() + k] == r);
    }
}

/// A remedy is offered under its own name, with its command, the check it is for
/// and the agent that declares it in its description.
pub proof fn an_offer_says_what_it_runs(r: RemedyView, schema: JsonView)
    ensures
        remedy_tool(r, schema).name == r.tool,
        remedy_tool(r, schema).schema == schema,
        holds_text(remedy_tool(r, schema).description, "makes "@ + r.plugin + " block "@ + r.agent),
        holds_text(remedy_tool(r, schema).description, "by running: "@ + r.command),
{
    let d = remedy_tool(r, schema).description;
    let end = "'s manifest. Ask before calling this — it changes the machine, unlike reading a log."@;
    let tail = "\n\nDeclared in "@ + r.agent + end;
    reveal_strlit("Fix what makes ");
    reveal_strlit("makes ");
    reveal_strlit(", by running: ");
    reveal_strlit("by running: ");
    let fix = "Fix what makes "@;
    let by = ", by running: "@;
    assert(fix =~= fix.take(9) + "makes "@);
    assert(by =~= by.take(2) + "by running: "@);
    let who = "makes "@ + r.plugin + " block "@ + r.agent;
    let how = "by running: "@ + r.command;
    let whole = fix + r.plugin + " block "@ + r.agent + by + r.command;
    assert(whole =~= fix.take(9) + who + (by + r.command));
    lemma_holds_part(whole, fix.take(9), who, by + r.command);
    let none = Seq::<char>::empty();
    let before = fix + r.plugin + " block "@ + r.agent + by.take(2);
    assert(whole =~= before + how + none);
    lemma_holds_part(whole, before, how, none);
    assert(d =~= whole + tail);
    lemma_holds_more(whole, who, tail);
    lemma_holds_more(whole, how, tail);
}

/// What runs is the declared command and nothing else: its first word is the
/// program, and every further word is an argument in its place.
pub proof fn the_declared_command_is_what_runs(
    agents: Seq<DiscoveredAgent>,
    tool: Seq<char>,
    step: RemediationStep,
)
    requires
        remediation_decided(agents, tool, step),
    ensures
        step is Run ==> ({
            let request = step->request;
            let command = words(step->remedy@.command);
            &&& remedies_of(agents).contains(step->remedy@)
            &&& step->remedy@.tool == tool
            &&& seq![request.program@] + views(request.args@) == command
            &&& request.owner_agent@ == step->remedy@.agent
            &&& request.owner_plugin is Some && request.owner_plugin->0@ == step->remedy@.plugin
            &&& request.deadline_seconds == 120
        }),
        step is Answer ==> step->Answer_0.is_error,
        step is NotMine <==> !has_prefix(tool, "remediate-"@),
{
    if step is Run {
        let all = remedies_of(agents);
        let i = choose|i: int|
            #[trigger] is_first(remedy_names(all), i) && all[i].tool == tool && if words(
                all[i].command,
            ).len() == 0 {
                step matches RemediationStep::Answer(r) && says(
                    r,
                    all[i].agent + ": remediation for "@ + all[i].plugin + " is empty."@,
                    true,
                )
            } else {
                step matches RemediationStep::Run { remedy, request } && remedy@ == all[i]
                    && runs_remedy(request, all[i])
            };
        assert(is_first(remedy_names(all), i));
        assert(all[i] == step->remedy@);
        let command = words(all[i].command);
        assert(seq![command[0]] + command.skip(1) =~= command);
    }
}

/// A remedy that exits zero is reported with the command, what it printed, and
/// the agent that was not run again; any other exit is an error with the code
/// and what the command wrote to its error stream.
pub proof fn a_remedy_is_reported_as_it_ended(
    remedy: RemedyView,
    code: i32,
    stdout: String,
    stderr: String,
    r: (CallToolResult, Option<RemediationInvoked>),
)
    requires
        remedy_finished(remedy, ProcessEnd::Finished { code: Some(code), stdout, stderr }, r),
    ensures
        r.0.is_error <==> code != 0,
        code == 0 ==> has_prefix(r.0.text@, "Ran `"@ + remedy.command + "`"@) && holds_text(
            r.0.text@,
            trimmed(stdout@),
        ) && holds_text(r.0.text@, "does not re-run "@ + remedy.agent),
        code != 0 ==> has_prefix(
            r.0.text@,
            "`"@ + remedy.command + "` exited "@ + dec(code as int) + "."@,
        ),
        code != 0 && byte_len(trimmed(stderr@)) <= SKILL_OUTPUT_MAX_BYTES ==> has_suffix(
            r.0.text@,
            "\n"@ + trimmed(stderr@),
        ),
        r.1 is Some && r.1->0.agent@ == remedy.agent && r.1->0.plugin@ == remedy.plugin
            && r.1->0.command@ == remedy.command && r.1->0.exit_code == code
            && !r.1->0.timed_out,
{
    reveal_strlit("`");
    reveal_strlit(".");
    reveal_strlit("\n");
    reveal_strlit(".\n");
    if code == 0 {
        reveal_strlit("`. It exited 0.");
        reveal_strlit("\n\nThis does not re-run ");
        reveal_strlit("does not re-run ");
        let out = trimmed(stdout@);
        let tail = if out.len() == 0 {
            Seq::<char>::empty()
        } else {
            "\n"@ + out
        };
        let ran = "Ran `"@ + remedy.command + "`"@;
        let exited = "`. It exited 0."@.skip(1);
        let note = "\n\nThis does not re-run "@;
        let end = " — ask for that separately."@;
        let said = r.0.text@;
        assert(note =~= note.take(7) + "does not re-run "@);
        assert("Ran `"@ + remedy.command + "`. It exited 0."@ =~= ran + exited);
        assert(said =~= ran + (exited + tail + note + remedy.agent + end));
        lemma_ends(ran, exited + tail + note + remedy.agent + end);
        let gap = if out.len() == 0 {
            Seq::<char>::empty()
        } else {
            "\n"@
        };
        assert(tail =~= gap + out);
        assert(said =~= (ran + exited + gap) + out + (note + remedy.agent + end));
        lemma_holds_part(said, ran + exited + gap, out, note + remedy.agent + end);
        let again = "does not re-run "@ + remedy.agent;
        assert(said =~= (ran + exited + tail + note.take(7)) + again + end);
        lemma_holds_part(said, ran + exited + tail + note.take(7), again, end);
    } else {
        assert(".\n"@ =~= "."@ + "\n"@);
        let shown = capped(trimmed(stderr@), SKILL_OUTPUT_MAX_BYTES as nat);
        let lead = "`"@ + remedy.command + "` exited "@ + dec(code as int) + "."@;
        assert(r.0.text@ =~= lead + ("\n"@ + shown));
        lemma_ends(lead, "\n"@ + shown);
    }
}

/// A remedy that was killed or could not run is an error that quotes the command
/// and says after how long, or why. One that never started leaves no audit entry.
pub proof fn a_remedy_that_did_not_end_is_an_error(
    remedy: RemedyView,
    seconds: u64,
    error: String,
    killed: (CallToolResult, Option<RemediationInvoked>),
    failed: (CallToolResult, Option<RemediationInvoked>),
    unstarted: (CallToolResult, Option<RemediationInvoked>),
)
    requires
        remedy_finished(remedy, ProcessEnd::TimedOut { seconds }, killed),
        remedy_finished(remedy, ProcessEnd::Failed { error }, failed),
        remedy_finished(remedy, ProcessEnd::NotStarted { error }, unstarted),
    ensures
        killed.0.is_error && failed.0.is_error && unstarted.0.is_error,
        holds_text(killed.0.text@, remedy.command) && holds_text(failed.0.text@, remedy.command)
            && holds_text(unstarted.0.text@, remedy.command),
        has_suffix(killed.0.text@, dec(seconds as int) + "s and was killed."@),
        has_suffix(failed.0.text@, error@) && has_suffix(unstarted.0.text@, error@),
        killed.1 is Some && killed.1->0.timed_out && killed.1->0.exit_code != 0,
        failed.1 is Some && !failed.1->0.timed_out && failed.1->0.exit_code != 0,
        unstarted.1 is None,
{
    let c = remedy.command;
    let part = dec(seconds as int) + "s and was killed."@;
    assert(killed.0.text@ =~= "`"@ + c + ("` was still running after "@ + part));
    lemma_holds_part(killed.0.text@, "`"@, c, "` was still running after "@ + part);
    assert(killed.0.text@ =~= ("`"@ + c + "` was still running after "@) + part);
    lemma_ends("`"@ + c + "` was still running after "@, part);
    assert(failed.0.text@ =~= "`"@ + c + ("` could not run: "@ + error@));
    lemma_holds_part(failed.0.text@, "`"@, c, "` could not run: "@ + error@);
    lemma_ends("`"@ + c + "` could not run: "@, error@);
    let start = "Could not start `"@;
    assert(unstarted.0.text@ =~= start + c + ("`: "@ + error@));
    lemma_holds_part(unstarted.0.text@, start, c, "`: "@ + error@);
    lemma_ends(start + c + "`: "@, error@);
}

/// A name resolves exactly when a remedy of that name is declared, and then to the
/// first of them.
pub proof fn a_name_resolves_to_its_first_remedy(
    agents: Seq<DiscoveredAgent>,
    tool: Seq<char>,
    r: Option<Remedy>,
    i: int,
)
    requires
        remedy_resolved(agents, tool, r),
    ensures
        r is Some ==> r->0.tool@ == tool && remedies_of(agents).contains(r->0@),
        0 <= i < remedies_of(agents).len() && remedies_of(agents)[i].tool == tool && (forall|j: int|
            0 <= j < i ==> (#[trigger] remedies_of(agents)[j]).tool != tool) ==> r is Some && r->0@
            == remedies_of(agents)[i],
{
    let all = remedies_of(agents);
    let names = remedy_names(all);
    if let Some(remedy) = r {
        let k = choose|k: int|
            #[trigger] is_first(names, k) && all[k].tool == tool && all[k] == remedy@;
        assert(is_first(names, k));
        assert(all[k] == remedy@);
        if 0 <= i < all.len() && all[i].tool == tool && (forall|j: int|
            0 <= j < i ==> (#[trigger] all[j]).tool != tool) {
            assert(names[i] == tool && names[k] == tool);
            if i < k {
                assert(names[i] != names[k]);
            }
            if k < i {
                assert(all[k].tool != tool);
            }
        }
    } else if 0 <= i < all.len() && all[i].tool == tool {
        assert(names[i] == tool);
    }
}

} // verus!
