//! `dotagent mcp`: every discovered agent as an MCP tool.
//!
//! A model selects from the catalog instead of composing a command. A tool
//! name that does not exist is not callable, so "only run what the operator
//! declared" is a property of the protocol.

use crate::discovery::{
    Discovery, RunPlan, find_by_name, has_agent, invalid_paths, not_found_text, plan_run,
    planned,
};
use crate::gateway::{TriggerSource, source_text};
use crate::json::{
    JsonView, bool_value, json_view, json_views, list_value, member, member_of, no_members,
    object_value, put_member, text_at, text_member, text_value, texts_of, unsigned_at,
    unsigned_member,
};
use crate::mcp::rpc::RunArguments;
use crate::outcome::{OrchestratedOutcome, RunOutcome, append_hint, hint_text};
use crate::text::{
    byte_count, byte_len, dec, dec_i64, dec_usize, fit, fitting, has_prefix, has_suffix,
    holds_text, is_blank, is_blank_text, joined, lemma_ends, lemma_holds_part, trim, trimmed,
    views,
};
use serde_json::Value;
use vstd::prelude::*;

pub mod calls;
pub mod commands;
pub mod memory_tools;
pub mod remediation;
pub mod rpc;
pub mod skills;
pub mod tools;

verus! {

broadcast use vstd::string::group_string_axioms;

/// What a tool call returns to the model.
#[derive(Debug, PartialEq, Eq)]
pub struct CallToolResult {
    pub text: String,
    pub is_error: bool,
}

impl CallToolResult {
    /// A result that is one piece of text.
    pub fn text(text: &str, is_error: bool) -> (r: Self)
        ensures
            r.text@ == text@,
            r.is_error == is_error,
    {
        CallToolResult { text: text.to_owned(), is_error }
    }

    /// What goes on the wire: one text block, and whether it is an error.
    pub open spec fn wire(&self) -> JsonView {
        let block = JsonView::Table(
            Map::<Seq<char>, JsonView>::empty().insert("type"@, JsonView::Text("text"@)).insert(
                "text"@,
                JsonView::Text(self.text@),
            ),
        );
        JsonView::Table(
            Map::<Seq<char>, JsonView>::empty().insert(
                "content"@,
                JsonView::List(seq![block]),
            ).insert("isError"@, JsonView::Bool(self.is_error)),
        )
    }

    /// The result as a JSON value.
    pub fn to_json(&self) -> (r: Value)
        ensures
            json_view(r) == self.wire(),
    {
        let mut block = no_members();
        put_member(&mut block, "type", text_value("text"));
        put_member(&mut block, "text", text_value(self.text.as_str()));
        let mut content: Vec<Value> = Vec::new();
        content.push(object_value(block));
        proof {
            let view = JsonView::Table(
                Map::<Seq<char>, JsonView>::empty().insert(
                    "type"@,
                    JsonView::Text("text"@),
                ).insert("text"@, JsonView::Text(self.text@)),
            );
            assert(json_views(content@) =~= seq![view]);
        }
        let mut members = no_members();
        put_member(&mut members, "content", list_value(content));
        put_member(&mut members, "isError", bool_value(self.is_error));
        object_value(members)
    }
}

/// Whether `r` is this text with this verdict.
pub open spec fn says(r: CallToolResult, text: Seq<char>, is_error: bool) -> bool {
    r.text@ == text && r.is_error == is_error
}

// ---------------------------------------------------------------------
// Arguments
// ---------------------------------------------------------------------

/// A string array argument: the strings of the list, or nothing when it is
/// absent or of another shape.
pub open spec fn string_list(args: JsonView, key: Seq<char>) -> Seq<Seq<char>> {
    match member_of(args, key) {
        Some(JsonView::List(l)) => texts_of(l),
        _ => Seq::empty(),
    }
}

/// A string array argument, or empty when absent or the wrong shape. Members
/// that are no strings are left out.
pub fn string_array(args: &Value, key: &str) -> (r: Vec<String>)
    ensures
        views(r@) == string_list(json_view(*args), key@),
{
    let mut out: Vec<String> = Vec::new();
    proof {
        assert(views(out@) =~= Seq::<Seq<char>>::empty());
    }
    let list = match member(args, key) {
        Some(m) => match m.as_array() {
            Some(list) => list,
            None => {
                return out;
            },
        },
        None => {
            return out;
        },
    };
    let mut i: usize = 0;
    let ghost all = json_views(list@);
    proof {
        assert(all.take(0) =~= Seq::<JsonView>::empty());
    }
    while i < list.len()
        invariant
            i <= list@.len(),
            all == json_views(list@),
            views(out@) == texts_of(all.take(i as int)),
        decreases list@.len() - i,
    {
        let ghost before = views(out@);
        proof {
            assert(all.take(i as int + 1).drop_last() =~= all.take(i as int));
            assert(all.take(i as int + 1).last() == json_view(list@[i as int]));
        }
        if let Some(s) = list[i].as_str() {
            out.push(s.to_owned());
            proof {
                assert(views(out@) =~= before.push(s@));
            }
        }
        i = i + 1;
    }
    proof {
        assert(all.take(all.len() as int) =~= all);
    }
    out
}

/// A text argument, empty when absent.
pub open spec fn text_arg(args: JsonView, key: Seq<char>) -> Seq<char> {
    match text_member(args, key) {
        Some(t) => t,
        None => Seq::empty(),
    }
}

/// A text argument as it is, empty when absent or of another kind.
pub fn raw_arg(args: &Value, key: &str) -> (r: String)
    ensures
        r@ == text_arg(json_view(*args), key@),
{
    match text_at(args, key) {
        Some(s) => s,
        None => String::new(),
    }
}

/// A trimmed text argument.
pub fn str_arg(args: &Value, key: &str) -> (r: String)
    ensures
        r@ == trimmed(text_arg(json_view(*args), key@)),
{
    trim(raw_arg(args, key).as_str())
}

/// A number argument, held between two bounds.
pub open spec fn bounded_arg(args: JsonView, key: Seq<char>, default: u64, low: u64, high: u64) -> u64 {
    let n = match unsigned_member(args, key) {
        Some(n) => n,
        None => default,
    };
    if n < low {
        low
    } else if n > high {
        high
    } else {
        n
    }
}

/// A number argument, held between two bounds.
pub fn number_arg(args: &Value, key: &str, default: u64, low: u64, high: u64) -> (r: u64)
    ensures
        r == bounded_arg(json_view(*args), key@, default, low, high),
{
    let n: u64 = match unsigned_at(args, key) {
        Some(n) => n,
        None => default,
    };
    if n < low {
        low
    } else if n > high {
        high
    } else {
        n
    }
}

// ---------------------------------------------------------------------
// Capping
// ---------------------------------------------------------------------

/// Cap on a procedure returned by a skill tool. The tail is dropped with a
/// marker: following half a procedure while believing it is whole is the
/// failure worth preventing.
pub const SKILL_BODY_MAX_BYTES: usize = 32768;

/// Cap on a supporting file. Larger than a procedure: reference material is
/// asked for deliberately, one file at a time.
pub const SKILL_FILE_MAX_BYTES: usize = 65536;

/// Cap on what a script prints back.
pub const SKILL_OUTPUT_MAX_BYTES: usize = 16384;

/// Cap on a rendered command body.
pub const COMMAND_BODY_MAX_BYTES: usize = 32768;

/// `s`, cut on a character boundary when it takes more than `max` bytes, with
/// a line saying how much of it is shown.
pub open spec fn capped(s: Seq<char>, max: nat) -> Seq<char> {
    if byte_len(s) <= max {
        s
    } else {
        fitting(s, max) + "\n\n[truncated: "@ + dec(byte_len(fitting(s, max)) as int) + " of "@
            + dec(byte_len(s) as int) + " bytes shown]"@
    }
}

/// Truncate on a char boundary, saying so.
pub fn cap(text: &str, max: usize) -> (r: String)
    ensures
        r@ == capped(text@, max as nat),
{
    let total = byte_count(text);
    if total <= max {
        return text.to_owned();
    }
    let head = fit(text, max);
    let shown = byte_count(head.as_str());
    let mut out = head;
    out.append("\n\n[truncated: ");
    out.append(dec_usize(shown).as_str());
    out.append(" of ");
    out.append(dec_usize(total).as_str());
    out.append(" bytes shown]");
    out
}

/// A text is either whole or says that it is not: nothing is cut in silence,
/// and nothing that fits is touched.
pub proof fn a_cut_is_never_silent(s: Seq<char>, max: nat)
    ensures
        byte_len(s) <= max ==> capped(s, max) == s,
        byte_len(s) > max ==> has_suffix(capped(s, max), " bytes shown]"@) && has_prefix(
            capped(s, max),
            fitting(s, max),
        ),
{
    if byte_len(s) > max {
        let f = fitting(s, max);
        let c = capped(s, max);
        let tail = " bytes shown]"@;
        assert(c.subrange(0, f.len() as int) =~= f);
        assert(c.subrange(c.len() - tail.len(), c.len() as int) =~= tail);
    }
}

// ---------------------------------------------------------------------
// Running an agent
// ---------------------------------------------------------------------

/// What a model is told of an agent run.
pub open spec fn run_text(agent: Seq<char>, outcome: OrchestratedOutcome) -> Seq<char> {
    match outcome {
        OrchestratedOutcome::Ran(run) => if run.exit_code == 0 {
            if is_blank_text(run.stdout_tail@) {
                agent + " finished with no output."@
            } else {
                run.stdout_tail@
            }
        } else if run.timed_out {
            agent + " timed out after "@ + dec(run.duration_seconds as int) + "s.\n"@
                + run.stderr_tail@
        } else {
            agent + " exited "@ + dec(run.exit_code as int) + ".\n"@ + run.stderr_tail@
        },
        OrchestratedOutcome::PreflightFailed { plugin, suggest } => agent
            + " was blocked by preflight check "@ + plugin@ + hint_text(suggest),
    }
}

/// Whether an agent run succeeded.
pub open spec fn run_succeeded(outcome: OrchestratedOutcome) -> bool {
    outcome matches OrchestratedOutcome::Ran(run) && run.exit_code == 0
}

/// Render the outcome of an agent run as text for the model.
pub fn execute_result(agent_name: &str, outcome: OrchestratedOutcome) -> (r: CallToolResult)
    ensures
        says(r, run_text(agent_name@, outcome), !run_succeeded(outcome)),
{
    match outcome {
        OrchestratedOutcome::Ran(run) => {
            if run.exit_code == 0 {
                if is_blank(run.stdout_tail.as_str()) {
                    let mut out = agent_name.to_owned();
                    out.append(" finished with no output.");
                    CallToolResult { text: out, is_error: false }
                } else {
                    CallToolResult { text: run.stdout_tail, is_error: false }
                }
            } else if run.timed_out {
                let mut out = agent_name.to_owned();
                out.append(" timed out after ");
                out.append(dec_i64(run.duration_seconds).as_str());
                out.append("s.\n");
                out.append(run.stderr_tail.as_str());
                CallToolResult { text: out, is_error: true }
            } else {
                let mut out = agent_name.to_owned();
                out.append(" exited ");
                out.append(dec_i64(run.exit_code as i64).as_str());
                out.append(".\n");
                out.append(run.stderr_tail.as_str());
                CallToolResult { text: out, is_error: true }
            }
        },
        OrchestratedOutcome::PreflightFailed { plugin, suggest } => {
            let mut out = agent_name.to_owned();
            out.append(" was blocked by preflight check ");
            out.append(plugin.as_str());
            append_hint(&mut out, &suggest);
            CallToolResult { text: out, is_error: true }
        },
    }
}

/// An agent that could not even start is still tool output, not a protocol
/// fault: the model should read it and react.
pub fn could_not_run(agent_name: &str, error: &str) -> (r: CallToolResult)
    ensures
        says(r, "Could not run "@ + agent_name@ + ": "@ + error@, true),
{
    let mut out = "Could not run ".to_owned();
    out.append(agent_name);
    out.append(": ");
    out.append(error);
    CallToolResult { text: out, is_error: true }
}

/// An on-demand run of an agent.
#[derive(Debug, PartialEq, Eq)]
pub struct OnDemandRun {
    pub plan: RunPlan,
    /// The directory of the agent's manifest.
    pub dir: String,
    /// What its state is kept under, so that an on-demand run can never
    /// overwrite the last success of a window that never fired.
    pub slug: String,
    /// What its environment gets on top.
    pub env: Vec<(String, String)>,
}

/// Whether `r` is the run asked for.
pub open spec fn run_asked(
    found: Discovery,
    name: Seq<char>,
    arguments: RunArguments,
    trigger_id: Seq<char>,
    r: Result<OnDemandRun, String>,
) -> bool {
    if !has_agent(found.agents@, name) {
        r matches Err(e) && e@ == not_found_text(name, found.invalid@)
    } else {
        exists|i: int|
            0 <= i < found.agents@.len() && (#[trigger] found.agents@[i]).manifest.name@ == name
                && (forall|k: int|
                0 <= k < i ==> (#[trigger] found.agents@[k]).manifest.name@ != name) && match r {
                Ok(run) => {
                    &&& planned(
                        found.agents@[i].manifest,
                        arguments.schedule,
                        arguments.args@,
                        trigger_id,
                        Ok(run.plan),
                    )
                    &&& run.dir@ == found.agents@[i].dir@
                    &&& run.slug@ == "trigger-"@ + source_text(TriggerSource::Mcp)
                    &&& run.env@.len() == 1
                    &&& run.env@[0].0@ == "AGENT_TRIGGER_SOURCE"@
                    &&& run.env@[0].1@ == source_text(TriggerSource::Mcp)
                },
                Err(e) => planned(
                    found.agents@[i].manifest,
                    arguments.schedule,
                    arguments.args@,
                    trigger_id,
                    Err(e),
                ),
            }
    }
}

/// What running an agent on demand takes: the schedule that was named, else
/// its first, else none, and the caller's arguments behind the schedule's own.
pub fn plan_on_demand(
    found: &Discovery,
    agent_name: &str,
    arguments: &RunArguments,
    trigger_schedule_id: &str,
) -> (r: Result<OnDemandRun, String>)
    ensures
        run_asked(*found, agent_name@, *arguments, trigger_schedule_id@, r),
{
    let agent = match find_by_name(found, agent_name) {
        Ok(agent) => agent,
        Err(e) => {
            return Err(e);
        },
    };
    let plan = match plan_run(
        &agent.manifest,
        &arguments.schedule,
        &arguments.args,
        trigger_schedule_id,
    ) {
        Ok(plan) => plan,
        Err(e) => {
            return Err(e);
        },
    };
    let mut slug = "trigger-".to_owned();
    slug.append(TriggerSource::Mcp.name());
    let mut env: Vec<(String, String)> = Vec::new();
    env.push(("AGENT_TRIGGER_SOURCE".to_owned(), TriggerSource::Mcp.name().to_owned()));
    Ok(OnDemandRun { plan, dir: agent.dir.clone(), slug, env })
}

// ---------------------------------------------------------------------
// Laws of arguments and answers
// ---------------------------------------------------------------------

/// A number that is asked for is what the caller wrote where that is within the
/// bounds, and otherwise the nearer bound; one that is not written is the default.
pub proof fn a_number_is_kept_within_its_bounds(
    args: JsonView,
    key: Seq<char>,
    default: u64,
    low: u64,
    high: u64,
)
    requires
        low <= default <= high,
    ensures
        low <= bounded_arg(args, key, default, low, high) <= high,
        unsigned_member(args, key) is None ==> bounded_arg(args, key, default, low, high)
            == default,
        forall|n: u64| unsigned_member(args, key) == Some(n) && low <= n <= high ==> bounded_arg(
            args,
            key,
            default,
            low,
            high,
        ) == n,
        forall|n: u64|
            unsigned_member(args, key) == Some(n) && n > high ==> bounded_arg(
                args,
                key,
                default,
                low,
                high,
            ) == high,
        forall|n: u64|
            unsigned_member(args, key) == Some(n) && n < low ==> bounded_arg(
                args,
                key,
                default,
                low,
                high,
            ) == low,
{
}

proof fn lemma_texts_of_texts(list: Seq<JsonView>)
    requires
        forall|i: int| 0 <= i < list.len() ==> #[trigger] list[i] is Text,
    ensures
        texts_of(list).len() == list.len(),
        forall|i: int| 0 <= i < list.len() ==> texts_of(list)[i] == (#[trigger] list[i])->Text_0,
    decreases list.len(),
{
    if list.len() > 0 {
        let rest = list.drop_last();
        assert forall|i: int| 0 <= i < rest.len() implies #[trigger] rest[i] is Text by {
            assert(list[i] is Text);
        }
        lemma_texts_of_texts(rest);
        assert(list.last() is Text);
        assert forall|i: int| 0 <= i < list.len() implies texts_of(list)[i] == (
        #[trigger] list[i])->Text_0 by {
            if i < rest.len() {
                assert(rest[i] == list[i]);
            }
        }
    }
}

/// A list of strings that a caller writes is taken as it is, in its order.
pub proof fn a_list_of_strings_is_taken_as_it_is(
    args: JsonView,
    key: Seq<char>,
    list: Seq<JsonView>,
)
    requires
        member_of(args, key) == Some(JsonView::List(list)),
        forall|i: int| 0 <= i < list.len() ==> #[trigger] list[i] is Text,
    ensures
        string_list(args, key).len() == list.len(),
        forall|i: int|
            0 <= i < list.len() ==> string_list(args, key)[i] == (#[trigger] list[i])->Text_0,
{
    lemma_texts_of_texts(list);
}

/// On the wire an answer is one text block that holds its text, and the error
/// flag that it has: two answers that differ in either are told apart.
pub proof fn an_answer_is_on_the_wire_as_it_is(a: CallToolResult)
    ensures
        member_of(a.wire(), "isError"@) == Some(JsonView::Bool(a.is_error)),
        member_of(a.wire(), "content"@) matches Some(JsonView::List(blocks)) && blocks.len() == 1
            && text_member(blocks[0], "text"@) == Some(a.text@) && text_member(
            blocks[0],
            "type"@,
        ) == Some("text"@),
{
    reveal_strlit("isError");
    reveal_strlit("content");
    reveal_strlit("type");
    reveal_strlit("text");
    assert("isError"@[0] == 'i' && "content"@[0] == 'c');
    assert("type"@[1] == 'y' && "text"@[1] == 'e');
}

/// A run that exits zero is answered with what it printed, whatever it logged;
/// only a run that printed nothing but white space is described instead.
pub proof fn a_good_run_answers_with_its_output(
    agent: Seq<char>,
    run: RunOutcome,
    other: RunOutcome,
)
    requires
        run.exit_code == 0,
        other.exit_code == 0,
        other.stdout_tail@ == run.stdout_tail@,
    ensures
        run_succeeded(OrchestratedOutcome::Ran(run)),
        !is_blank_text(run.stdout_tail@) ==> run_text(agent, OrchestratedOutcome::Ran(run))
            == run.stdout_tail@,
        is_blank_text(run.stdout_tail@) ==> has_prefix(
            run_text(agent, OrchestratedOutcome::Ran(run)),
            agent,
        ),
        run_text(agent, OrchestratedOutcome::Ran(run)) == run_text(
            agent,
            OrchestratedOutcome::Ran(other),
        ),
{
    lemma_ends(agent, " finished with no output."@);
}

/// A run that exits otherwise is an error: the answer opens with the agent's
/// name and ends with what the run logged. It says how long a run took that ran
/// out of time, and the exit code of every other.
pub proof fn a_bad_run_answers_with_its_log(agent: Seq<char>, run: RunOutcome, other: RunOutcome)
    requires
        run.exit_code != 0,
        other == (RunOutcome { stdout_tail: other.stdout_tail, ..run }),
    ensures
        ({
            let said = run_text(agent, OrchestratedOutcome::Ran(run));
            &&& !run_succeeded(OrchestratedOutcome::Ran(run))
            &&& has_prefix(said, agent)
            &&& has_suffix(said, "\n"@ + run.stderr_tail@)
            &&& run.timed_out ==> holds_text(said, " "@ + dec(run.duration_seconds as int) + "s."@)
            &&& !run.timed_out ==> holds_text(said, " "@ + dec(run.exit_code as int) + "."@)
            &&& said == run_text(agent, OrchestratedOutcome::Ran(other))
        }),
{
    reveal_strlit(" ");
    reveal_strlit("s.");
    reveal_strlit(".");
    reveal_strlit("\n");
    reveal_strlit("s.\n");
    reveal_strlit(".\n");
    reveal_strlit(" timed out after ");
    reveal_strlit(" exited ");
    let said = run_text(agent, OrchestratedOutcome::Ran(run));
    let tail = "\n"@ + run.stderr_tail@;
    if run.timed_out {
        let lead = " timed out after"@;
        reveal_strlit(" timed out after");
        let n = dec(run.duration_seconds as int);
        assert(" timed out after "@ =~= lead + " "@);
        assert("s.\n"@ =~= "s."@ + "\n"@);
        assert(said =~= (agent + lead) + (" "@ + n + "s."@) + tail);
        lemma_holds_part(said, agent + lead, " "@ + n + "s."@, tail);
        lemma_ends((agent + lead) + (" "@ + n + "s."@), tail);
        assert(said =~= agent + (lead + (" "@ + n + "s."@) + tail));
        lemma_ends(agent, lead + (" "@ + n + "s."@) + tail);
    } else {
        let lead = " exited"@;
        reveal_strlit(" exited");
        let n = dec(run.exit_code as int);
        assert(" exited "@ =~= lead + " "@);
        assert(".\n"@ =~= "."@ + "\n"@);
        assert(said =~= (agent + lead) + (" "@ + n + "."@) + tail);
        lemma_holds_part(said, agent + lead, " "@ + n + "."@, tail);
        lemma_ends((agent + lead) + (" "@ + n + "."@), tail);
        assert(said =~= agent + (lead + (" "@ + n + "."@) + tail));
        lemma_ends(agent, lead + (" "@ + n + "."@) + tail);
    }
}

/// A run that a check stopped is an error that names the agent, the check, and
/// what the check suggests.
pub proof fn a_blocked_run_names_the_check(
    agent: Seq<char>,
    plugin: String,
    suggest: Option<String>,
)
    ensures
        ({
            let said = run_text(agent, OrchestratedOutcome::PreflightFailed { plugin, suggest });
            &&& !run_succeeded(OrchestratedOutcome::PreflightFailed { plugin, suggest })
            &&& has_prefix(said, agent)
            &&& holds_text(said, plugin@)
            &&& suggest is Some ==> has_suffix(said, suggest->0@)
        }),
{
    let said = run_text(agent, OrchestratedOutcome::PreflightFailed { plugin, suggest });
    let lead = agent + " was blocked by preflight check "@;
    lemma_holds_part(said, lead, plugin@, hint_text(suggest));
    assert(said =~= agent + (" was blocked by preflight check "@ + plugin@ + hint_text(suggest)));
    lemma_ends(agent, " was blocked by preflight check "@ + plugin@ + hint_text(suggest));
    if suggest is Some {
        assert(said =~= (lead + plugin@ + ": "@) + suggest->0@);
        lemma_ends(lead + plugin@ + ": "@, suggest->0@);
    }
}

/// A run on demand is of the agent that was named: its directory, and the
/// schedule that was asked for with the arguments of the call behind those of
/// the schedule. Its state is kept apart from that of every window.
pub proof fn a_run_on_demand_is_of_the_named_agent(
    found: Discovery,
    name: Seq<char>,
    arguments: RunArguments,
    trigger_id: Seq<char>,
    r: Result<OnDemandRun, String>,
)
    requires
        run_asked(found, name, arguments, trigger_id, r),
    ensures
        r is Ok ==> exists|i: int|
            0 <= i < found.agents@.len() && (#[trigger] found.agents@[i]).manifest.name@ == name
                && r->Ok_0.dir@ == found.agents@[i].dir@,
        r is Ok && arguments.schedule is Some ==> r->Ok_0.plan.schedule_id@
            == arguments.schedule->0@,
        r is Ok ==> has_texts_at_the_end(r->Ok_0.plan.args@, arguments.args@),
        r is Ok ==> has_prefix(r->Ok_0.slug@, "trigger-"@),
        !has_agent(found.agents@, name) ==> r is Err && holds_text(r->Err_0@, name),
{
    if r is Ok {
        lemma_ends("trigger-"@, source_text(TriggerSource::Mcp));
        let p = r->Ok_0.plan;
        let k = p.args@.len() - arguments.args@.len();
        assert(p.args@.subrange(k, p.args@.len() as int) =~= arguments.args@);
    }
    if !has_agent(found.agents@, name) {
        let said = not_found_text(name, found.invalid@);
        let lead = "agent not found: "@;
        let none = Seq::<char>::empty();
        if found.invalid@.len() == 0 {
            assert(said =~= lead + name + none);
            lemma_holds_part(said, lead, name, none);
        } else {
            let rest = " ("@ + dec(found.invalid@.len() as int)
                + " manifest(s) failed to load and may be the one you meant: "@ + joined(
                invalid_paths(found.invalid@),
                ", "@,
            ) + ")"@;
            assert(said =~= lead + name + rest);
            lemma_holds_part(said, lead, name, rest);
        }
    }
}

/// Whether a list ends with another.
pub open spec fn has_texts_at_the_end(list: Seq<String>, end: Seq<String>) -> bool {
    list.len() >= end.len() && list.subrange(list.len() - end.len(), list.len() as int) == end
}

} // verus!
