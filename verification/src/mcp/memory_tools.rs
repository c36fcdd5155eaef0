//! Memory and introspection tools.

use crate::discovery::{DiscoveredAgent, Discovery, find_by_name, has_agent};
use crate::json::{JsonView, json_view, text_member, unsigned_member};
use crate::mcp::rpc::{is_memory_tool, serves_from_memory};
use crate::mcp::{
    CallToolResult, bounded_arg, number_arg, raw_arg, says, str_arg, string_array, string_list,
    text_arg,
};
use crate::text::{
    dec, dec_u64, has_prefix, has_suffix, holds_text, join, joined, lemma_ends,
    lemma_holds_part, lemma_holds_through, lemma_joined_holds, same, trim, trimmed, views,
};
use serde_json::Value;
use vstd::prelude::*;

verus! {

broadcast use vstd::string::group_string_axioms;

/// A stored fact, as far as a tool shows it.
#[derive(Debug, PartialEq, Eq)]
pub struct Memory {
    pub id: String,
    /// The day it was written, empty for a fact that has none.
    pub date: String,
    pub text: String,
    pub topics: Vec<String>,
}

/// One fact. The id leads because the follow-up move, correcting or deleting
/// it, needs it.
pub open spec fn memory_line(m: Memory) -> Seq<char> {
    let head = "["@ + m.id@ + "] "@;
    let dated = if m.date@.len() == 0 {
        head
    } else {
        head + m.date@ + ": "@
    };
    let text = dated + m.text@;
    if m.topics@.len() == 0 {
        text
    } else {
        text + " (topics: "@ + joined(views(m.topics@), ", "@) + ")"@
    }
}

/// The lines of a list of facts.
pub open spec fn memory_lines(hits: Seq<Memory>) -> Seq<Seq<char>> {
    hits.map_values(|m: Memory| memory_line(m))
}

fn render_memory(m: &Memory) -> (r: String)
    ensures
        r@ == memory_line(*m),
{
    let mut line = "[".to_owned();
    line.append(m.id.as_str());
    line.append("] ");
    if !m.date.as_str().is_empty() {
        line.append(m.date.as_str());
        line.append(": ");
    }
    line.append(m.text.as_str());
    if m.topics.len() > 0 {
        line.append(" (topics: ");
        line.append(join(m.topics.as_slice(), ", ").as_str());
        line.append(")");
    }
    line
}

/// Render recall results so each fact is addressable.
pub fn render_memories(hits: &Vec<Memory>) -> (r: String)
    ensures
        r@ == joined(memory_lines(hits@), "\n"@),
{
    let mut lines: Vec<String> = Vec::new();
    let mut i: usize = 0;
    while i < hits.len()
        invariant
            i <= hits@.len(),
            lines@.len() == i,
            forall|k: int| 0 <= k < i ==> #[trigger] lines@[k]@ == memory_lines(hits@)[k],
        decreases hits@.len() - i,
    {
        lines.push(render_memory(&hits[i]));
        i = i + 1;
    }
    proof {
        assert(views(lines@) =~= memory_lines(hits@));
    }
    join(lines.as_slice(), "\n")
}

/// What the store is asked for.
#[derive(Debug, PartialEq, Eq)]
pub enum StoreRequest {
    Topics,
    Remember { text: String, topics: Vec<String> },
    /// Every fact linked to a subject, of which `limit` are shown.
    RecallTopic { topic: String, limit: u64 },
    Recall { query: String, limit: u64 },
    Supersede { id: String, text: String, topics: Vec<String> },
    Forget { id: String },
}

/// What a call of a memory or introspection tool comes to.
#[derive(Debug, PartialEq, Eq)]
pub enum MemoryStep {
    /// Neither a memory nor an introspection tool.
    NotMine,
    Answer(CallToolResult),
    /// Run one of this program's own read-only subcommands.
    Readonly { argv: Vec<String> },
    Store(StoreRequest),
}

/// Whether `r` asks the store for what the arguments say. Asked for a topic,
/// the graph wins over a guess at words.
pub open spec fn store_asked(tool: Seq<char>, args: JsonView, r: StoreRequest) -> bool {
    let topic = trimmed(text_arg(args, "topic"@));
    let limit = bounded_arg(args, "limit"@, 10, 1, 50);
    if tool == "memory-topics"@ {
        r is Topics
    } else if tool == "memory-remember"@ {
        r matches StoreRequest::Remember { text, topics } && text@ == text_arg(args, "text"@)
            && views(topics@) == string_list(args, "topics"@)
    } else if tool == "memory-recall"@ {
        if topic.len() > 0 {
            r matches StoreRequest::RecallTopic { topic: t, limit: l } && t@ == topic && l == limit
        } else {
            r matches StoreRequest::Recall { query, limit: l } && query@ == text_arg(args, "query"@)
                && l == limit
        }
    } else if tool == "memory-supersede"@ {
        r matches StoreRequest::Supersede { id, text, topics } && id@ == text_arg(args, "id"@)
            && text@ == text_arg(args, "text"@) && views(topics@) == string_list(args, "topics"@)
    } else {
        r matches StoreRequest::Forget { id } && id@ == text_arg(args, "id"@)
    }
}

/// What a tool that takes an agent's name does. The name is looked up first:
/// a path is made of it.
pub open spec fn named_agent_step(
    agents: Seq<DiscoveredAgent>,
    args: JsonView,
    argv: spec_fn(Seq<char>) -> Seq<Seq<char>>,
    step: MemoryStep,
) -> bool {
    let agent = trimmed(text_arg(args, "agent"@));
    if agent.len() == 0 {
        step matches MemoryStep::Answer(r) && says(r, "Which agent?"@, true)
    } else if !has_agent(agents, agent) {
        step matches MemoryStep::Answer(r) && says(r, "No agent named "@ + agent + "."@, true)
    } else {
        step matches MemoryStep::Readonly { argv: a } && views(a@) == argv(agent)
    }
}

/// The subcommand that reads an agent's log.
pub open spec fn logs_argv(agent: Seq<char>, lines: int) -> Seq<Seq<char>> {
    seq!["logs"@, agent, "-n"@, dec(lines)]
}

/// Whether `step` is what a call of `tool` comes to.
pub open spec fn memory_called(
    tool: Seq<char>,
    args: JsonView,
    agents: Seq<DiscoveredAgent>,
    step: MemoryStep,
) -> bool {
    if !is_memory_tool(tool) {
        step is NotMine
    } else if tool == "dotagent-logs"@ {
        named_agent_step(
            agents,
            args,
            |agent: Seq<char>|
                logs_argv(agent, bounded_arg(args, "lines"@, 40, 1, 400) as int),
            step,
        )
    } else if tool == "dotagent-status"@ {
        step matches MemoryStep::Readonly { argv } && views(argv@) == seq!["status"@]
    } else if tool == "dotagent-doctor"@ {
        step matches MemoryStep::Readonly { argv } && views(argv@) == seq!["doctor"@]
    } else if tool == "dotagent-next-runs"@ {
        step matches MemoryStep::Readonly { argv } && views(argv@) == seq!["tick"@, "--dry-run"@]
    } else if tool == "dotagent-inspect"@ {
        named_agent_step(agents, args, |agent: Seq<char>| seq!["inspect"@, agent], step)
    } else {
        step matches MemoryStep::Store(r) && store_asked(tool, args, r)
    }
}

fn argv_of(a: &str, b: Option<&str>) -> (r: Vec<String>)
    ensures
        match b {
            Some(b) => views(r@) == seq![a@, b@],
            None => views(r@) == seq![a@],
        },
{
    let mut out: Vec<String> = Vec::new();
    out.push(a.to_owned());
    if let Some(b) = b {
        out.push(b.to_owned());
        proof {
            assert(views(out@) =~= seq![a@, b@]);
        }
    } else {
        proof {
            assert(views(out@) =~= seq![a@]);
        }
    }
    out
}

/// The agent a tool names, or what it is answered with.
fn named_agent(found: &Discovery, args: &Value) -> (r: Result<String, CallToolResult>)
    ensures
        ({
            let agent = trimmed(text_arg(json_view(*args), "agent"@));
            match r {
                Ok(name) => name@ == agent && agent.len() > 0 && has_agent(found.agents@, agent),
                Err(a) => if agent.len() == 0 {
                    says(a, "Which agent?"@, true)
                } else {
                    !has_agent(found.agents@, agent) && says(
                        a,
                        "No agent named "@ + agent + "."@,
                        true,
                    )
                },
            }
        }),
{
    let agent = str_arg(args, "agent");
    if agent.as_str().is_empty() {
        return Err(CallToolResult::text("Which agent?", true));
    }
    match find_by_name(found, agent.as_str()) {
        Ok(_) => Ok(agent),
        Err(_) => {
            let mut text = "No agent named ".to_owned();
            text.append(agent.as_str());
            text.append(".");
            Err(CallToolResult { text, is_error: true })
        },
    }
}

/// Tail an agent's captured output, through `dotagent logs`.
pub fn read_agent_logs(found: &Discovery, args: &Value) -> (step: MemoryStep)
    ensures
        memory_called("dotagent-logs"@, json_view(*args), found.agents@, step),
{
    match named_agent(found, args) {
        Err(a) => MemoryStep::Answer(a),
        Ok(agent) => {
            let lines = number_arg(args, "lines", 40, 1, 400);
            let mut argv: Vec<String> = Vec::new();
            argv.push("logs".to_owned());
            argv.push(agent);
            argv.push("-n".to_owned());
            argv.push(dec_u64(lines));
            proof {
                assert(views(argv@) =~= logs_argv(agent@, lines as int));
            }
            MemoryStep::Readonly { argv }
        },
    }
}

fn store_request(tool: &str, args: &Value) -> (r: StoreRequest)
    ensures
        store_asked(tool@, json_view(*args), r),
{
    if same(tool, "memory-topics") {
        StoreRequest::Topics
    } else if same(tool, "memory-remember") {
        StoreRequest::Remember { text: raw_arg(args, "text"), topics: string_array(args, "topics") }
    } else if same(tool, "memory-recall") {
        let limit = number_arg(args, "limit", 10, 1, 50);
        let topic = str_arg(args, "topic");
        if !topic.as_str().is_empty() {
            StoreRequest::RecallTopic { topic, limit }
        } else {
            StoreRequest::Recall { query: raw_arg(args, "query"), limit }
        }
    } else if same(tool, "memory-supersede") {
        StoreRequest::Supersede {
            id: raw_arg(args, "id"),
            text: raw_arg(args, "text"),
            topics: string_array(args, "topics"),
        }
    } else {
        StoreRequest::Forget { id: raw_arg(args, "id") }
    }
}

/// Decide about a call of a memory or introspection tool. Introspection needs
/// no memory workspace.
pub fn call_memory(tool: &str, args: &Value, found: &Discovery) -> (step: MemoryStep)
    ensures
        memory_called(tool@, json_view(*args), found.agents@, step),
{
    if !serves_from_memory(tool) {
        return MemoryStep::NotMine;
    }
    if same(tool, "dotagent-logs") {
        return read_agent_logs(found, args);
    }
    if same(tool, "dotagent-status") {
        return MemoryStep::Readonly { argv: argv_of("status", None) };
    }
    if same(tool, "dotagent-doctor") {
        return MemoryStep::Readonly { argv: argv_of("doctor", None) };
    }
    if same(tool, "dotagent-next-runs") {
        return MemoryStep::Readonly { argv: argv_of("tick", Some("--dry-run")) };
    }
    if same(tool, "dotagent-inspect") {
        return match named_agent(found, args) {
            Err(a) => MemoryStep::Answer(a),
            Ok(agent) => MemoryStep::Readonly { argv: argv_of("inspect", Some(agent.as_str())) },
        };
    }
    MemoryStep::Store(store_request(tool, args))
}

/// An argument only ever reaches a subcommand as the name of an agent that
/// was found, or as a number: nothing else of what a caller sends is in the
/// command line.
pub proof fn only_known_names_reach_a_subcommand(
    tool: Seq<char>,
    args: JsonView,
    agents: Seq<DiscoveredAgent>,
    step: MemoryStep,
    argv: Vec<String>,
    i: int,
)
    requires
        memory_called(tool, args, agents, step),
        step == (MemoryStep::Readonly { argv }),
        0 <= i < argv@.len(),
    ensures
        ({
            let part = views(argv@)[i];
            ||| has_agent(agents, part)
            ||| part == "logs"@ || part == "-n"@ || part == "status"@ || part == "doctor"@
            ||| part == "tick"@ || part == "--dry-run"@ || part == "inspect"@
            ||| exists|n: int| 1 <= n <= 400 && part == #[trigger] dec(n)
        }),
{
    let part = views(argv@)[i];
    assert(views(argv@).len() == argv@.len());
    if tool == "dotagent-logs"@ {
        let n = bounded_arg(args, "lines"@, 40, 1, 400) as int;
        let agent = trimmed(text_arg(args, "agent"@));
        assert(views(argv@) == logs_argv(agent, n));
        assert(1 <= n <= 400);
        assert(dec(n) == dec(n));
    }
}

// ---------------------------------------------------------------------
// Answers
// ---------------------------------------------------------------------

/// The output of a read-only subcommand.
#[derive(Debug, PartialEq, Eq)]
pub enum ReadonlyEnd {
    /// This program's own binary could not be found.
    NoBinary,
    NotRun(String),
    Finished { success: bool, stdout: String, stderr: String },
}

/// Whether `r` answers with how a read-only subcommand ended.
pub open spec fn readonly_answered(
    subcommand: Seq<char>,
    end: ReadonlyEnd,
    r: CallToolResult,
) -> bool {
    match end {
        ReadonlyEnd::NoBinary => says(r, "Could not locate the dotagent binary."@, true),
        ReadonlyEnd::NotRun(e) => says(
            r,
            "Could not run dotagent "@ + subcommand + ": "@ + e@,
            true,
        ),
        ReadonlyEnd::Finished { success, stdout, stderr } => if trimmed(stdout@).len() == 0 {
            says(r, "No output. "@ + trimmed(stderr@), !success)
        } else {
            says(r, trimmed(stdout@), false)
        },
    }
}

/// Return what a read-only subcommand printed. A non-zero exit still carries
/// useful output, so the body goes back either way.
pub fn run_readonly(subcommand: &str, end: &ReadonlyEnd) -> (r: CallToolResult)
    ensures
        readonly_answered(subcommand@, *end, r),
{
    match end {
        ReadonlyEnd::NoBinary => CallToolResult::text("Could not locate the dotagent binary.", true),
        ReadonlyEnd::NotRun(e) => {
            let mut text = "Could not run dotagent ".to_owned();
            text.append(subcommand);
            text.append(": ");
            text.append(e.as_str());
            CallToolResult { text, is_error: true }
        },
        ReadonlyEnd::Finished { success, stdout, stderr } => {
            let body = trim(stdout.as_str());
            if body.as_str().is_empty() {
                let mut text = "No output. ".to_owned();
                text.append(trim(stderr.as_str()).as_str());
                return CallToolResult { text, is_error: !*success };
            }
            CallToolResult { text: body, is_error: false }
        },
    }
}

fn failure(what: &str, error: &str) -> (r: CallToolResult)
    ensures
        says(r, what@ + error@, true),
{
    let mut text = what.to_owned();
    text.append(error);
    CallToolResult { text, is_error: true }
}

/// The workspace could not be opened.
pub fn memory_unavailable(error: &str) -> (r: CallToolResult)
    ensures
        says(r, "Memory unavailable: "@ + error@, true),
{
    failure("Memory unavailable: ", error)
}

/// Whether `r` answers with what listing the topics came to.
pub open spec fn topics_answered(topics: Result<Vec<String>, String>, r: CallToolResult) -> bool {
    match topics {
        Ok(t) => says(
            r,
            if t@.len() == 0 {
                "No topics yet."@
            } else {
                joined(views(t@), "\n"@)
            },
            false,
        ),
        Err(e) => says(r, "Could not list topics: "@ + e@, true),
    }
}

/// What listing the topics came to.
pub fn topics_answer(topics: &Result<Vec<String>, String>) -> (r: CallToolResult)
    ensures
        topics_answered(*topics, r),
{
    match topics {
        Ok(t) => if t.len() == 0 {
            CallToolResult::text("No topics yet.", false)
        } else {
            CallToolResult { text: join(t.as_slice(), "\n"), is_error: false }
        },
        Err(e) => failure("Could not list topics: ", e.as_str()),
    }
}

/// Whether `r` answers with what storing a fact came to.
pub open spec fn remember_answered(stored: Result<Memory, String>, r: CallToolResult) -> bool {
    match stored {
        Ok(m) => says(r, "Remembered ("@ + m.date@ + "): "@ + m.text@, false),
        Err(e) => says(r, "Could not remember: "@ + e@, true),
    }
}

/// What storing a fact came to.
pub fn remember_answer(stored: &Result<Memory, String>) -> (r: CallToolResult)
    ensures
        remember_answered(*stored, r),
{
    match stored {
        Ok(m) => {
            let mut text = "Remembered (".to_owned();
            text.append(m.date.as_str());
            text.append("): ");
            text.append(m.text.as_str());
            CallToolResult { text, is_error: false }
        },
        Err(e) => failure("Could not remember: ", e.as_str()),
    }
}

/// The first `limit` facts.
pub open spec fn first_of(hits: Seq<Memory>, limit: nat) -> Seq<Memory> {
    if hits.len() <= limit {
        hits
    } else {
        hits.take(limit as int)
    }
}

/// The first `limit` facts.
pub fn keep_first(hits: Vec<Memory>, limit: u64) -> (r: Vec<Memory>)
    ensures
        r@ == first_of(hits@, limit as nat),
{
    let mut hits = hits;
    if hits.len() as u64 > limit {
        hits.truncate(limit as usize);
    }
    hits
}

/// Whether `r` answers with what a search came to.
pub open spec fn recall_answered(hits: Result<Vec<Memory>, String>, r: CallToolResult) -> bool {
    match hits {
        Ok(h) => says(
            r,
            if h@.len() == 0 {
                "Nothing remembered about that."@
            } else {
                joined(memory_lines(h@), "\n"@)
            },
            false,
        ),
        Err(e) => says(r, "Could not recall: "@ + e@, true),
    }
}

/// What a search came to.
pub fn recall_answer(hits: &Result<Vec<Memory>, String>) -> (r: CallToolResult)
    ensures
        recall_answered(*hits, r),
{
    match hits {
        Ok(h) => if h.len() == 0 {
            CallToolResult::text("Nothing remembered about that.", false)
        } else {
            CallToolResult { text: render_memories(h), is_error: false }
        },
        Err(e) => failure("Could not recall: ", e.as_str()),
    }
}

/// Whether `r` answers with what replacing a fact came to.
pub open spec fn supersede_answered(stored: Result<Memory, String>, r: CallToolResult) -> bool {
    match stored {
        Ok(m) => says(r, "Replaced. Now: "@ + m.text@, false),
        Err(e) => says(r, "Could not supersede: "@ + e@, true),
    }
}

/// What replacing a fact came to.
pub fn supersede_answer(stored: &Result<Memory, String>) -> (r: CallToolResult)
    ensures
        supersede_answered(*stored, r),
{
    match stored {
        Ok(m) => {
            let mut text = "Replaced. Now: ".to_owned();
            text.append(m.text.as_str());
            CallToolResult { text, is_error: false }
        },
        Err(e) => failure("Could not supersede: ", e.as_str()),
    }
}

/// Whether `r` answers with what deleting a fact came to.
pub open spec fn forget_answered(
    id: Seq<char>,
    forgotten: Result<bool, String>,
    r: CallToolResult,
) -> bool {
    match forgotten {
        Ok(true) => says(r, "Forgotten."@, false),
        Ok(false) => says(r, "No memory with id "@ + id + "."@, true),
        Err(e) => says(r, "Could not forget: "@ + e@, true),
    }
}

/// What deleting a fact came to.
pub fn forget_answer(id: &str, forgotten: &Result<bool, String>) -> (r: CallToolResult)
    ensures
        forget_answered(id@, *forgotten, r),
{
    match forgotten {
        Ok(true) => CallToolResult::text("Forgotten.", false),
        Ok(false) => {
            let mut text = "No memory with id ".to_owned();
            text.append(id);
            text.append(".");
            CallToolResult { text, is_error: true }
        },
        Err(e) => failure("Could not forget: ", e.as_str()),
    }
}

// ---------------------------------------------------------------------
// Laws of the store
// ---------------------------------------------------------------------

proof fn lemma_tool_names()
    ensures
        "memory-topics"@ != "memory-remember"@ && "memory-topics"@ != "memory-recall"@
            && "memory-topics"@ != "memory-supersede"@ && "memory-topics"@ != "memory-forget"@,
        "memory-remember"@ != "memory-recall"@ && "memory-remember"@ != "memory-supersede"@
            && "memory-remember"@ != "memory-forget"@,
        "memory-recall"@ != "memory-supersede"@ && "memory-recall"@ != "memory-forget"@,
        "memory-supersede"@ != "memory-forget"@,
        "memory-topics"@[0] == 'm' && "memory-remember"@[0] == 'm' && "memory-recall"@[0] == 'm'
            && "memory-supersede"@[0] == 'm' && "memory-forget"@[0] == 'm',
        "dotagent-logs"@[0] == 'd' && "dotagent-status"@[0] == 'd' && "dotagent-doctor"@[0] == 'd'
            && "dotagent-next-runs"@[0] == 'd' && "dotagent-inspect"@[0] == 'd',
        "dotagent-logs"@ != "dotagent-status"@ && "dotagent-logs"@ != "dotagent-doctor"@
            && "dotagent-logs"@ != "dotagent-next-runs"@ && "dotagent-logs"@
            != "dotagent-inspect"@,
        "dotagent-inspect"@ != "dotagent-status"@ && "dotagent-inspect"@ != "dotagent-doctor"@
            && "dotagent-inspect"@ != "dotagent-next-runs"@,
{
    reveal_strlit("memory-topics");
    reveal_strlit("memory-remember");
    reveal_strlit("memory-recall");
    reveal_strlit("memory-supersede");
    reveal_strlit("memory-forget");
    reveal_strlit("dotagent-logs");
    reveal_strlit("dotagent-status");
    reveal_strlit("dotagent-doctor");
    reveal_strlit("dotagent-next-runs");
    reveal_strlit("dotagent-inspect");
    assert("memory-topics"@[7] == 't' && "memory-remember"@[7] == 'r' && "memory-recall"@[7]
        == 'r' && "memory-supersede"@[7] == 's' && "memory-forget"@[7] == 'f');
    assert("memory-remember"@.len() == 15 && "memory-recall"@.len() == 13);
    assert("memory-topics"@[0] == 'm' && "memory-remember"@[0] == 'm' && "memory-recall"@[0]
        == 'm' && "memory-supersede"@[0] == 'm' && "memory-forget"@[0] == 'm');
    assert("dotagent-logs"@[0] == 'd' && "dotagent-status"@[0] == 'd' && "dotagent-doctor"@[0]
        == 'd' && "dotagent-next-runs"@[0] == 'd' && "dotagent-inspect"@[0] == 'd');
    assert("dotagent-logs"@[9] == 'l' && "dotagent-status"@[9] == 's' && "dotagent-doctor"@[9]
        == 'd' && "dotagent-next-runs"@[9] == 'n' && "dotagent-inspect"@[9] == 'i');
}

/// To replace a fact, the fact under the id that the caller names gets the words
/// that the caller writes, and never the other way round.
pub proof fn a_fact_is_replaced_under_its_id(
    args: JsonView,
    agents: Seq<DiscoveredAgent>,
    step: MemoryStep,
    id: Seq<char>,
    text: Seq<char>,
)
    requires
        memory_called("memory-supersede"@, args, agents, step),
        text_member(args, "id"@) == Some(id),
        text_member(args, "text"@) == Some(text),
    ensures
        step is Store,
        step->Store_0 is Supersede,
        step->Store_0->Supersede_id@ == id,
        step->Store_0->Supersede_text@ == text,
        views(step->Store_0->Supersede_topics@) == string_list(args, "topics"@),
{
    lemma_tool_names();
}

/// What a caller asks to be remembered is what the store is given, word for word,
/// under the topics that the caller lists.
pub proof fn a_fact_is_stored_in_the_callers_words(
    args: JsonView,
    agents: Seq<DiscoveredAgent>,
    step: MemoryStep,
    text: Seq<char>,
)
    requires
        memory_called("memory-remember"@, args, agents, step),
        text_member(args, "text"@) == Some(text),
    ensures
        step is Store,
        step->Store_0 is Remember,
        step->Store_0->Remember_text@ == text,
        views(step->Store_0->Remember_topics@) == string_list(args, "topics"@),
{
    lemma_tool_names();
}

/// Only the fact that the caller names is deleted.
pub proof fn only_the_named_fact_is_deleted(
    args: JsonView,
    agents: Seq<DiscoveredAgent>,
    step: MemoryStep,
    id: Seq<char>,
)
    requires
        memory_called("memory-forget"@, args, agents, step),
        text_member(args, "id"@) == Some(id),
    ensures
        step is Store,
        step->Store_0 is Forget,
        step->Store_0->Forget_id@ == id,
{
    lemma_tool_names();
}

/// A search is for the topic that the caller names, and for the query where the
/// topic is blank or missing. It is for as many facts as the caller asks for,
/// from one to fifty, and for ten where the caller does not say.
pub proof fn a_search_is_for_what_was_asked(
    args: JsonView,
    agents: Seq<DiscoveredAgent>,
    step: MemoryStep,
    topic: Seq<char>,
    query: Seq<char>,
)
    requires
        memory_called("memory-recall"@, args, agents, step),
    ensures
        step is Store,
        text_member(args, "topic"@) == Some(topic) && trimmed(topic).len() > 0 ==> step->Store_0
            is RecallTopic && step->Store_0->RecallTopic_topic@ == trimmed(topic),
        text_member(args, "topic"@) is None && text_member(args, "query"@) == Some(query)
            ==> step->Store_0 is Recall && step->Store_0->Recall_query@ == query,
        step->Store_0 is RecallTopic || step->Store_0 is Recall,
        ({
            let limit = if step->Store_0 is Recall {
                step->Store_0->Recall_limit
            } else {
                step->Store_0->RecallTopic_limit
            };
            &&& unsigned_member(args, "limit"@) is None ==> limit == 10
            &&& forall|n: u64|
                unsigned_member(args, "limit"@) == Some(n) ==> limit == if n == 0 {
                    1
                } else if n > 50 {
                    50
                } else {
                    n
                }
        }),
{
    lemma_tool_names();
    assert(trimmed(Seq::<char>::empty()) =~= Seq::<char>::empty());
}

/// A log or a report is of the agent that the caller names, and no other; a
/// caller who names none, or one that is not there, is told so.
pub proof fn a_report_is_of_the_named_agent(
    args: JsonView,
    agents: Seq<DiscoveredAgent>,
    logs: MemoryStep,
    inspect: MemoryStep,
    name: Seq<char>,
    lines: u64,
)
    requires
        memory_called("dotagent-logs"@, args, agents, logs),
        memory_called("dotagent-inspect"@, args, agents, inspect),
        text_member(args, "agent"@) == Some(name),
        unsigned_member(args, "lines"@) == Some(lines),
        1 <= lines <= 400,
    ensures
        has_agent(agents, trimmed(name)) && trimmed(name).len() > 0 ==> ({
            &&& logs is Readonly && inspect is Readonly
            &&& views(logs->argv@) == seq!["logs"@, trimmed(name), "-n"@, dec(lines as int)]
            &&& views(inspect->argv@) == seq!["inspect"@, trimmed(name)]
        }),
        !has_agent(agents, trimmed(name)) || trimmed(name).len() == 0 ==> ({
            &&& logs is Answer && logs->Answer_0.is_error
            &&& inspect is Answer && inspect->Answer_0.is_error
            &&& trimmed(name).len() > 0 ==> holds_text(logs->Answer_0.text@, trimmed(name))
        }),
{
    lemma_tool_names();
    lemma_holds_part(
        "No agent named "@ + trimmed(name) + "."@,
        "No agent named "@,
        trimmed(name),
        "."@,
    );
}

/// What a read-only subcommand prints is the answer, however it exits and
/// whatever it logs. One that prints nothing is an error exactly when it failed,
/// and then its log is shown.
pub proof fn what_a_subcommand_prints_is_the_answer(
    subcommand: Seq<char>,
    success: bool,
    stdout: String,
    stderr: String,
    r: CallToolResult,
)
    requires
        readonly_answered(subcommand, ReadonlyEnd::Finished { success, stdout, stderr }, r),
    ensures
        trimmed(stdout@).len() > 0 ==> r.text@ == trimmed(stdout@) && !r.is_error,
        trimmed(stdout@).len() == 0 ==> has_suffix(r.text@, trimmed(stderr@)) && (r.is_error
            <==> !success),
{
    lemma_ends("No output. "@, trimmed(stderr@));
}

/// A subcommand that cannot be run is an error that names it and says why.
pub proof fn a_subcommand_that_cannot_run_is_an_error(
    subcommand: Seq<char>,
    error: String,
    r: CallToolResult,
)
    requires
        readonly_answered(subcommand, ReadonlyEnd::NotRun(error), r),
    ensures
        r.is_error,
        holds_text(r.text@, subcommand),
        has_suffix(r.text@, error@),
{
    let lead = "Could not run dotagent "@;
    assert(r.text@ =~= lead + subcommand + (": "@ + error@));
    lemma_holds_part(r.text@, lead, subcommand, ": "@ + error@);
    lemma_ends(lead + subcommand + ": "@, error@);
}

/// A fact is shown with its id first, then its words and each of its topics.
pub proof fn a_fact_is_shown_whole(m: Memory, i: int)
    requires
        0 <= i < m.topics@.len(),
    ensures
        has_prefix(memory_line(m), "["@ + m.id@ + "] "@),
        holds_text(memory_line(m), m.text@),
        holds_text(memory_line(m), m.topics@[i]@),
        m.date@.len() > 0 ==> holds_text(memory_line(m), "] "@ + m.date@ + ": "@ + m.text@),
{
    let head = "["@ + m.id@ + "] "@;
    let dated = if m.date@.len() == 0 {
        head
    } else {
        head + m.date@ + ": "@
    };
    let list = joined(views(m.topics@), ", "@);
    let tail = " (topics: "@ + list + ")"@;
    let line = memory_line(m);
    assert(line =~= dated + m.text@ + tail);
    lemma_holds_part(line, dated, m.text@, tail);
    assert(line =~= head + line.skip(head.len() as int));
    lemma_ends(head, line.skip(head.len() as int));
    lemma_joined_holds(views(m.topics@), ", "@, i);
    let lead = dated + m.text@ + " (topics: "@;
    assert(line =~= lead + list + ")"@);
    lemma_holds_part(line, lead, list, ")"@);
    lemma_holds_through(line, list, m.topics@[i]@);
    if m.date@.len() > 0 {
        let before = "["@ + m.id@;
        let part = "] "@ + m.date@ + ": "@ + m.text@;
        assert(line =~= before + part + tail);
        lemma_holds_part(line, before, part, tail);
    }
}

/// Of what a search finds, the first are shown, as many as there are up to the
/// limit, in the order in which they were found, and every one of them whole.
pub proof fn a_search_shows_the_first_facts(
    hits: Seq<Memory>,
    limit: nat,
    shown: Vec<Memory>,
    r: CallToolResult,
    i: int,
)
    requires
        shown@ == first_of(hits, limit),
        recall_answered(Ok(shown), r),
        0 <= i < shown@.len(),
    ensures
        shown@.len() == if hits.len() < limit {
            hits.len()
        } else {
            limit
        },
        shown@[i] == hits[i],
        !r.is_error,
        holds_text(r.text@, memory_line(hits[i])),
{
    lemma_joined_holds(memory_lines(shown@), "\n"@, i);
}

/// An answer is an error exactly when the store failed, and then it says why;
/// otherwise it shows what was stored, replaced or listed. To delete a fact that
/// is not there is an error too.
pub proof fn the_store_is_reported_as_it_is(
    stored: Result<Memory, String>,
    topics: Result<Vec<String>, String>,
    id: Seq<char>,
    forgotten: Result<bool, String>,
    hits: Result<Vec<Memory>, String>,
    remember: CallToolResult,
    supersede: CallToolResult,
    listed: CallToolResult,
    forget: CallToolResult,
    recall: CallToolResult,
)
    requires
        remember_answered(stored, remember),
        supersede_answered(stored, supersede),
        topics_answered(topics, listed),
        forget_answered(id, forgotten, forget),
        recall_answered(hits, recall),
    ensures
        remember.is_error <==> stored is Err,
        supersede.is_error <==> stored is Err,
        stored is Ok ==> has_suffix(remember.text@, stored->Ok_0.text@) && holds_text(
            remember.text@,
            stored->Ok_0.date@,
        ) && has_suffix(supersede.text@, stored->Ok_0.text@),
        stored is Err ==> has_suffix(remember.text@, stored->Err_0@) && has_suffix(
            supersede.text@,
            stored->Err_0@,
        ),
        listed.is_error <==> topics is Err,
        topics is Err ==> has_suffix(listed.text@, topics->Err_0@),
        topics is Ok ==> forall|i: int|
            0 <= i < topics->Ok_0@.len() ==> holds_text(
                listed.text@,
                (#[trigger] topics->Ok_0@[i])@,
            ),
        forget.is_error <==> forgotten != Ok::<bool, String>(true),
        forgotten == Ok::<bool, String>(false) ==> holds_text(forget.text@, id),
        forgotten is Err ==> has_suffix(forget.text@, forgotten->Err_0@),
        recall.is_error <==> hits is Err,
        hits is Err ==> has_suffix(recall.text@, hits->Err_0@),
{
    match stored {
        Ok(m) => {
            let lead = "Remembered ("@;
            lemma_ends(lead + m.date@ + "): "@, m.text@);
            assert(remember.text@ =~= lead + m.date@ + ("): "@ + m.text@));
            lemma_holds_part(remember.text@, lead, m.date@, "): "@ + m.text@);
            lemma_ends("Replaced. Now: "@, m.text@);
        },
        Err(e) => {
            lemma_ends("Could not remember: "@, e@);
            lemma_ends("Could not supersede: "@, e@);
        },
    }
    match topics {
        Ok(t) => {
            assert forall|i: int| 0 <= i < t@.len() implies holds_text(
                listed.text@,
                (#[trigger] t@[i])@,
            ) by {
                lemma_joined_holds(views(t@), "\n"@, i);
                assert(views(t@)[i] == t@[i]@);
            }
        },
        Err(e) => {
            lemma_ends("Could not list topics: "@, e@);
        },
    }
    match forgotten {
        Ok(found) => {
            if !found {
                lemma_holds_part(
                    "No memory with id "@ + id + "."@,
                    "No memory with id "@,
                    id,
                    "."@,
                );
            }
        },
        Err(e) => {
            lemma_ends("Could not forget: "@, e@);
        },
    }
    if let Err(e) = hits {
        lemma_ends("Could not recall: "@, e@);
    }
}

} // verus!
