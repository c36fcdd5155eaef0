//! The catalog: which tools there are, and which agent or skill a tool name
//! stands for.

use crate::discovery::{DiscoveredAgent, Discovery, InvalidManifest};
use crate::json::{
    JsonView, bool_value, copy_value, held, json_view, json_views, list_value, member_of,
    no_members, object_value, put_member, text_member, text_value,
};
use crate::manifest::{AgentManifest, ScheduleDecl};
use crate::mcp::remediation::{remediation_tools, remedy_tool_views};
use crate::mcp::rpc::is_memory_tool;
use crate::mcp::skills::Skill;
use crate::text::{
    dec, dec_usize, has_prefix, holds_text, is_blank, is_blank_text, join, joined, lemma_ends,
    lemma_holds_last, lemma_holds_part, lemma_holds_through, lemma_in_two, lemma_joined_holds,
    same, trim, trimmed, views,
};
use serde_json::Value;
use vstd::prelude::*;

verus! {

broadcast use vstd::string::group_string_axioms;

/// One tool of the catalog.
#[derive(Debug)]
pub struct Tool {
    pub name: String,
    pub description: String,
    pub input_schema: Value,
}

/// What a tool says of itself.
#[verifier::ext_equal]
pub struct ToolView {
    pub name: Seq<char>,
    pub description: Seq<char>,
    pub schema: JsonView,
}

impl Tool {
    /// What the tool says of itself.
    pub open spec fn shows(&self) -> ToolView {
        ToolView {
            name: self.name@,
            description: self.description@,
            schema: json_view(self.input_schema),
        }
    }
}

/// What a list of tools says of itself.
pub open spec fn shown(tools: Seq<Tool>) -> Seq<ToolView> {
    tools.map_values(|t: Tool| t.shows())
}

/// A tool on the wire.
pub open spec fn tool_wire(t: ToolView) -> JsonView {
    JsonView::Table(
        Map::<Seq<char>, JsonView>::empty().insert("name"@, JsonView::Text(t.name)).insert(
            "description"@,
            JsonView::Text(t.description),
        ).insert("inputSchema"@, t.schema),
    )
}

/// A list of tools on the wire.
pub open spec fn tools_wire(tools: Seq<ToolView>) -> JsonView {
    JsonView::Table(
        Map::<Seq<char>, JsonView>::empty().insert(
            "tools"@,
            JsonView::List(tools.map_values(|t: ToolView| tool_wire(t))),
        ),
    )
}

fn tool_to_json(tool: Tool) -> (r: Value)
    ensures
        json_view(r) == tool_wire(tool.shows()),
{
    let mut members = no_members();
    put_member(&mut members, "name", text_value(tool.name.as_str()));
    put_member(&mut members, "description", text_value(tool.description.as_str()));
    put_member(&mut members, "inputSchema", tool.input_schema);
    object_value(members)
}

/// A list of tools as a JSON value.
pub fn tools_to_json(tools: Vec<Tool>) -> (r: Value)
    ensures
        json_view(r) == tools_wire(shown(tools@)),
{
    let ghost all = tools@;
    let mut left = tools;
    let mut reversed: Vec<Value> = Vec::new();
    while left.len() > 0
        invariant
            left@.len() + reversed@.len() == all.len(),
            left@ == all.take(left@.len() as int),
            forall|k: int|
                0 <= k < reversed@.len() ==> #[trigger] json_view(reversed@[k]) == tool_wire(
                    all[all.len() - 1 - k].shows(),
                ),
        decreases left@.len(),
    {
        if let Some(t) = left.pop() {
            reversed.push(tool_to_json(t));
        }
    }
    let mut list: Vec<Value> = Vec::new();
    while reversed.len() > 0
        invariant
            list@.len() + reversed@.len() == all.len(),
            forall|k: int|
                0 <= k < reversed@.len() ==> #[trigger] json_view(reversed@[k]) == tool_wire(
                    all[all.len() - 1 - k].shows(),
                ),
            forall|k: int|
                0 <= k < list@.len() ==> #[trigger] json_view(list@[k]) == tool_wire(
                    all[k].shows(),
                ),
        decreases reversed@.len(),
    {
        if let Some(v) = reversed.pop() {
            list.push(v);
        }
    }
    proof {
        assert(json_views(list@) =~= shown(all).map_values(|t: ToolView| tool_wire(t)));
    }
    let mut members = no_members();
    put_member(&mut members, "tools", list_value(list));
    object_value(members)
}

// ---------------------------------------------------------------------
// Schemas
// ---------------------------------------------------------------------

/// The kind of one argument.
#[derive(Debug, Clone, Copy, PartialEq, Eq, Structural)]
pub enum ArgKind {
    Text,
    Integer,
    TextList,
}

/// One argument a tool takes.
#[derive(Debug)]
pub struct Arg {
    pub name: &'static str,
    pub kind: ArgKind,
    pub about: Option<&'static str>,
    pub required: bool,
}

/// The schema of one argument.
pub open spec fn arg_schema(a: Arg) -> JsonView {
    let kind = Map::<Seq<char>, JsonView>::empty().insert(
        "type"@,
        JsonView::Text(
            match a.kind {
                ArgKind::Text => "string"@,
                ArgKind::Integer => "integer"@,
                ArgKind::TextList => "array"@,
            },
        ),
    );
    let items = if a.kind == ArgKind::TextList {
        kind.insert(
            "items"@,
            JsonView::Table(
                Map::<Seq<char>, JsonView>::empty().insert("type"@, JsonView::Text("string"@)),
            ),
        )
    } else {
        kind
    };
    JsonView::Table(
        match a.about {
            Some(text) => items.insert("description"@, JsonView::Text(text@)),
            None => items,
        },
    )
}

/// The arguments of a schema, by name.
pub open spec fn properties_of(args: Seq<Arg>) -> Map<Seq<char>, JsonView>
    decreases args.len(),
{
    if args.len() == 0 {
        Map::empty()
    } else {
        properties_of(args.drop_last()).insert(args.last().name@, arg_schema(args.last()))
    }
}

/// The names of the arguments that must be there.
pub open spec fn required_of(args: Seq<Arg>) -> Seq<JsonView>
    decreases args.len(),
{
    if args.len() == 0 {
        Seq::empty()
    } else if args.last().required {
        required_of(args.drop_last()).push(JsonView::Text(args.last().name@))
    } else {
        required_of(args.drop_last())
    }
}

/// The schema of a tool that takes these arguments and no others.
pub open spec fn schema_of(args: Seq<Arg>) -> JsonView {
    let base = Map::<Seq<char>, JsonView>::empty().insert(
        "type"@,
        JsonView::Text("object"@),
    ).insert("properties"@, JsonView::Table(properties_of(args)));
    let required = if required_of(args).len() > 0 {
        base.insert("required"@, JsonView::List(required_of(args)))
    } else {
        base
    };
    JsonView::Table(required.insert("additionalProperties"@, JsonView::Bool(false)))
}

fn arg_value(a: &Arg) -> (r: Value)
    ensures
        json_view(r) == arg_schema(*a),
{
    let kind = match a.kind {
        ArgKind::Text => "string",
        ArgKind::Integer => "integer",
        ArgKind::TextList => "array",
    };
    let mut members = no_members();
    put_member(&mut members, "type", text_value(kind));
    if a.kind == ArgKind::TextList {
        let mut items = no_members();
        put_member(&mut items, "type", text_value("string"));
        put_member(&mut members, "items", object_value(items));
    }
    if let Some(text) = a.about {
        put_member(&mut members, "description", text_value(text));
    }
    object_value(members)
}

/// The schema of a tool that takes these arguments and no others.
pub fn schema(args: &Vec<Arg>) -> (r: Value)
    ensures
        json_view(r) == schema_of(args@),
{
    let mut properties = no_members();
    let mut required: Vec<Value> = Vec::new();
    let mut i: usize = 0;
    proof {
        assert(args@.take(0) =~= Seq::<Arg>::empty());
        assert(json_views(required@) =~= Seq::<JsonView>::empty());
    }
    while i < args.len()
        invariant
            i <= args@.len(),
            held(properties) == properties_of(args@.take(i as int)),
            json_views(required@) == required_of(args@.take(i as int)),
        decreases args@.len() - i,
    {
        let ghost before = json_views(required@);
        proof {
            assert(args@.take(i as int + 1).drop_last() =~= args@.take(i as int));
        }
        put_member(&mut properties, args[i].name, arg_value(&args[i]));
        if args[i].required {
            required.push(text_value(args[i].name));
            proof {
                assert(json_views(required@) =~= before.push(
                    JsonView::Text(args@[i as int].name@),
                ));
            }
        }
        i = i + 1;
    }
    proof {
        assert(args@.take(args@.len() as int) =~= args@);
        assert(json_views(required@).len() == required@.len());
    }
    let mut members = no_members();
    put_member(&mut members, "type", text_value("object"));
    put_member(&mut members, "properties", object_value(properties));
    if required.len() > 0 {
        put_member(&mut members, "required", list_value(required));
    }
    put_member(&mut members, "additionalProperties", bool_value(false));
    object_value(members)
}

// ---------------------------------------------------------------------
// Tools the server itself offers
// ---------------------------------------------------------------------

/// What a tool with these arguments shows.
pub open spec fn own_tool(name: Seq<char>, about: Seq<char>, args: Seq<Arg>) -> ToolView {
    ToolView { name, description: about, schema: schema_of(args) }
}

fn make_tool(name: &str, about: &str, args: Vec<Arg>) -> (r: Tool)
    ensures
        r.shows() == own_tool(name@, about@, args@),
{
    Tool { name: name.to_owned(), description: about.to_owned(), input_schema: schema(&args) }
}

/// What `dotagent-status` is for.
pub const STATUS_ABOUT: &'static str = "Health of every scheduled agent: ok / degraded / failing / stale, with the last run and why. Answers \"is everything running?\" without guessing.";

/// What `dotagent-inspect` is for.
pub const INSPECT_ABOUT: &'static str = "Heartbeat, window state and manifest hash for one agent — when it last ran, whether it succeeded, how many attempts the current window has used.";

/// What `dotagent-doctor` is for.
pub const DOCTOR_ABOUT: &'static str = "Validate every manifest, resolve plugin references, and report secrets, inbound Telegram and memory status. Use for \"is anything misconfigured?\".";

/// What `dotagent-next-runs` is for.
pub const NEXT_RUNS_ABOUT: &'static str = "What the scheduler would dispatch right now, and when the next event is. A preview — nothing is executed.";

/// What `dotagent-logs` is for.
pub const LOGS_ABOUT: &'static str = "Read the captured output of an agent's recent runs. Use this to answer \"did X run?\", \"why did X fail?\", or to quote what a run actually printed instead of guessing.";

/// What `memory-remember` is for.
pub const REMEMBER_ABOUT: &'static str = "Store a fact worth keeping across conversations — a preference, a decision, something about the user. Give it topics: each becomes a page that gathers every fact about that subject. Not for chit-chat or for what is already in this conversation.";

/// What the topics of a new fact are.
pub const REMEMBER_TOPICS: &'static str = "Subjects this fact belongs to (people, projects, themes). Each becomes a linked page that gathers every fact mentioning it. Use existing topics when they fit — a new name for the same subject splits the graph.";

/// What `memory-topics` is for.
pub const TOPICS_ABOUT: &'static str = "List the subjects memory knows about. Check this before inventing a topic name, so related facts land on the same page instead of splitting across near-duplicates.";

/// What `memory-recall` is for.
pub const RECALL_ABOUT: &'static str = "Search stored facts. Ranks by shared words first and recency second, best match first. An empty query returns the most recent facts. Each result starts with an id you can pass to memory-forget or memory-supersede.";

/// What asking by topic does.
pub const RECALL_TOPIC: &'static str = "Instead of a text search, return every fact linked to this subject, gathered from all days. The better question when you know the subject: it asks the graph instead of guessing which words the fact used.";

/// What `memory-supersede` is for.
pub const SUPERSEDE_ABOUT: &'static str = "Replace a stored fact with a corrected one. Use this when something you remembered stopped being true — a preference that changed, a decision that was reversed. The old fact stays readable in its journal but stops coming back from recall, so you are never choosing between two answers. Get the id from memory-recall.";

/// What `memory-forget` is for.
pub const FORGET_ABOUT: &'static str = "Delete a stored fact for good. For things that should never have been stored — noise, something private, something you got wrong. A fact that merely stopped being true wants memory-supersede instead, which keeps the history. Get the id from memory-recall.";

/// The arguments of `dotagent-inspect`.
pub open spec fn agent_args() -> Seq<Arg> {
    seq![
        Arg { name: "agent", kind: ArgKind::Text, about: None, required: true },
    ]
}

fn agent_fields() -> (r: Vec<Arg>)
    ensures
        r@ == agent_args(),
{
    let mut args: Vec<Arg> = Vec::new();
    args.push(Arg { name: "agent", kind: ArgKind::Text, about: None, required: true });
    proof {
        assert(args@ =~= agent_args());
    }
    args
}

/// The arguments of `dotagent-logs`.
pub open spec fn logs_args() -> Seq<Arg> {
    seq![
        Arg { name: "agent", kind: ArgKind::Text, about: Some("Agent name."), required: true },
        Arg { name: "lines", kind: ArgKind::Integer, about: Some("Trailing lines. Default 40, max 400."), required: false },
    ]
}

fn logs_fields() -> (r: Vec<Arg>)
    ensures
        r@ == logs_args(),
{
    let mut args: Vec<Arg> = Vec::new();
    args.push(Arg { name: "agent", kind: ArgKind::Text, about: Some("Agent name."), required: true });
    args.push(Arg { name: "lines", kind: ArgKind::Integer, about: Some("Trailing lines. Default 40, max 400."), required: false });
    proof {
        assert(args@ =~= logs_args());
    }
    args
}

/// The arguments of `memory-remember`.
pub open spec fn remember_args() -> Seq<Arg> {
    seq![
        Arg { name: "text", kind: ArgKind::Text, about: Some("The fact, in one sentence."), required: true },
        Arg { name: "topics", kind: ArgKind::TextList, about: Some(REMEMBER_TOPICS), required: false },
    ]
}

fn remember_fields() -> (r: Vec<Arg>)
    ensures
        r@ == remember_args(),
{
    let mut args: Vec<Arg> = Vec::new();
    args.push(Arg { name: "text", kind: ArgKind::Text, about: Some("The fact, in one sentence."), required: true });
    args.push(Arg { name: "topics", kind: ArgKind::TextList, about: Some(REMEMBER_TOPICS), required: false });
    proof {
        assert(args@ =~= remember_args());
    }
    args
}

/// The arguments of `memory-recall`.
pub open spec fn recall_args() -> Seq<Arg> {
    seq![
        Arg { name: "query", kind: ArgKind::Text, about: Some("What to search for."), required: false },
        Arg { name: "topic", kind: ArgKind::Text, about: Some(RECALL_TOPIC), required: false },
        Arg { name: "limit", kind: ArgKind::Integer, about: Some("Default 10."), required: false },
    ]
}

fn recall_fields() -> (r: Vec<Arg>)
    ensures
        r@ == recall_args(),
{
    let mut args: Vec<Arg> = Vec::new();
    args.push(Arg { name: "query", kind: ArgKind::Text, about: Some("What to search for."), required: false });
    args.push(Arg { name: "topic", kind: ArgKind::Text, about: Some(RECALL_TOPIC), required: false });
    args.push(Arg { name: "limit", kind: ArgKind::Integer, about: Some("Default 10."), required: false });
    proof {
        assert(args@ =~= recall_args());
    }
    args
}

/// The arguments of `memory-supersede`.
pub open spec fn supersede_args() -> Seq<Arg> {
    seq![
        Arg { name: "id", kind: ArgKind::Text, about: Some("Id of the fact being replaced."), required: true },
        Arg { name: "text", kind: ArgKind::Text, about: Some("The corrected fact, in one sentence."), required: true },
        Arg { name: "topics", kind: ArgKind::TextList, about: Some("Subjects the new fact belongs to."), required: false },
    ]
}

fn supersede_fields() -> (r: Vec<Arg>)
    ensures
        r@ == supersede_args(),
{
    let mut args: Vec<Arg> = Vec::new();
    args.push(Arg { name: "id", kind: ArgKind::Text, about: Some("Id of the fact being replaced."), required: true });
    args.push(Arg { name: "text", kind: ArgKind::Text, about: Some("The corrected fact, in one sentence."), required: true });
    args.push(Arg { name: "topics", kind: ArgKind::TextList, about: Some("Subjects the new fact belongs to."), required: false });
    proof {
        assert(args@ =~= supersede_args());
    }
    args
}

/// The arguments of `memory-forget`.
pub open spec fn forget_args() -> Seq<Arg> {
    seq![
        Arg { name: "id", kind: ArgKind::Text, about: Some("Id of the fact to delete."), required: true },
    ]
}

fn forget_fields() -> (r: Vec<Arg>)
    ensures
        r@ == forget_args(),
{
    let mut args: Vec<Arg> = Vec::new();
    args.push(Arg { name: "id", kind: ArgKind::Text, about: Some("Id of the fact to delete."), required: true });
    proof {
        assert(args@ =~= forget_args());
    }
    args
}

/// The introspection tools.
pub open spec fn introspection() -> Seq<ToolView> {
    seq![
        own_tool("dotagent-status"@, STATUS_ABOUT@, Seq::empty()),
        own_tool("dotagent-inspect"@, INSPECT_ABOUT@, agent_args()),
        own_tool("dotagent-doctor"@, DOCTOR_ABOUT@, Seq::empty()),
        own_tool("dotagent-next-runs"@, NEXT_RUNS_ABOUT@, Seq::empty()),
        own_tool("dotagent-logs"@, LOGS_ABOUT@, logs_args()),
    ]
}

/// The memory tools.
pub open spec fn memory_catalog() -> Seq<ToolView> {
    seq![
        own_tool("memory-remember"@, REMEMBER_ABOUT@, remember_args()),
        own_tool("memory-topics"@, TOPICS_ABOUT@, Seq::empty()),
        own_tool("memory-recall"@, RECALL_ABOUT@, recall_args()),
        own_tool("memory-supersede"@, SUPERSEDE_ABOUT@, supersede_args()),
        own_tool("memory-forget"@, FORGET_ABOUT@, forget_args()),
    ]
}

/// Introspection tools. Always available: reading a log has nothing to do with
/// whether memory is on.
pub fn introspection_tools() -> (r: Vec<Tool>)
    ensures
        shown(r@) == introspection(),
{
    let mut tools: Vec<Tool> = Vec::new();
    tools.push(make_tool("dotagent-status", STATUS_ABOUT, Vec::new()));
    tools.push(make_tool("dotagent-inspect", INSPECT_ABOUT, agent_fields()));
    tools.push(make_tool("dotagent-doctor", DOCTOR_ABOUT, Vec::new()));
    tools.push(make_tool("dotagent-next-runs", NEXT_RUNS_ABOUT, Vec::new()));
    tools.push(make_tool("dotagent-logs", LOGS_ABOUT, logs_fields()));
    proof {
        assert(shown(tools@) =~= introspection());
    }
    tools
}

/// Memory tools, when memory is enabled. Agents are things the operator
/// installed; memory is a capability of the server itself.
pub fn memory_tools(enabled: bool) -> (r: Vec<Tool>)
    ensures
        shown(r@) == if enabled {
            memory_catalog()
        } else {
            Seq::empty()
        },
{
    let mut tools: Vec<Tool> = Vec::new();
    if !enabled {
        proof {
            assert(shown(tools@) =~= Seq::<ToolView>::empty());
        }
        return tools;
    }
    tools.push(make_tool("memory-remember", REMEMBER_ABOUT, remember_fields()));
    tools.push(make_tool("memory-topics", TOPICS_ABOUT, Vec::new()));
    tools.push(make_tool("memory-recall", RECALL_ABOUT, recall_fields()));
    tools.push(make_tool("memory-supersede", SUPERSEDE_ABOUT, supersede_fields()));
    tools.push(make_tool("memory-forget", FORGET_ABOUT, forget_fields()));
    proof {
        assert(shown(tools@) =~= memory_catalog());
    }
    tools
}

// ---------------------------------------------------------------------
// Names
// ---------------------------------------------------------------------

/// The places in a list of names where a name stands for the first time.
pub open spec fn firsts(names: Seq<Seq<char>>) -> Seq<int>
    decreases names.len(),
{
    if names.len() == 0 {
        Seq::empty()
    } else {
        let before = firsts(names.drop_last());
        if names.drop_last().contains(names.last()) {
            before
        } else {
            before.push(names.len() - 1)
        }
    }
}

/// The places in a list of names where a name stands for the first time: of
/// two entries with one name the first wins. Shadowing in silence would make a
/// call run something nobody chose.
pub fn catalog(names: &Vec<String>) -> (r: Vec<usize>)
    ensures
        r@.map_values(|i: usize| i as int) == firsts(views(names@)),
        forall|k: int| 0 <= k < r@.len() ==> #[trigger] r@[k] < names@.len(),
{
    let mut out: Vec<usize> = Vec::new();
    let mut i: usize = 0;
    let ghost all = views(names@);
    proof {
        assert(all.take(0) =~= Seq::<Seq<char>>::empty());
        assert(out@.map_values(|i: usize| i as int) =~= Seq::<int>::empty());
    }
    while i < names.len()
        invariant
            i <= names@.len(),
            all == views(names@),
            out@.map_values(|i: usize| i as int) == firsts(all.take(i as int)),
            forall|k: int| 0 <= k < out@.len() ==> #[trigger] out@[k] < i,
        decreases names@.len() - i,
    {
        let ghost before = out@.map_values(|i: usize| i as int);
        let ghost head = all.take(i as int);
        proof {
            assert(all.take(i as int + 1).drop_last() =~= head);
            assert(all.take(i as int + 1).last() == names@[i as int]@);
        }
        let mut taken = false;
        let mut k: usize = 0;
        while k < i
            invariant
                k <= i <= names@.len(),
                all == views(names@),
                head == all.take(i as int),
                i < names@.len(),
                taken ==> head.contains(names@[i as int]@),
                !taken ==> forall|j: int| 0 <= j < k ==> #[trigger] head[j] != names@[i as int]@,
            decreases i - k,
        {
            if same(names[k].as_str(), names[i].as_str()) {
                taken = true;
                proof {
                    assert(head[k as int] == names@[i as int]@);
                }
            }
            k = k + 1;
        }
        if !taken {
            out.push(i);
            proof {
                assert(out@.map_values(|i: usize| i as int) =~= before.push(i as int));
            }
        }
        i = i + 1;
    }
    proof {
        assert(all.take(all.len() as int) =~= all);
    }
    out
}

/// The first place of a name.
pub fn first_named(names: &Vec<String>, name: &str) -> (r: Option<usize>)
    ensures
        match r {
            Some(i) => {
                &&& i < names@.len()
                &&& names@[i as int]@ == name@
                &&& forall|k: int| 0 <= k < i ==> #[trigger] names@[k]@ != name@
            },
            None => !views(names@).contains(name@),
        },
{
    let mut i: usize = 0;
    while i < names.len()
        invariant
            i <= names@.len(),
            forall|k: int| 0 <= k < i ==> #[trigger] names@[k]@ != name@,
        decreases names@.len() - i,
    {
        if same(names[i].as_str(), name) {
            return Some(i);
        }
        i = i + 1;
    }
    proof {
        assert forall|k: int| 0 <= k < names@.len() implies #[trigger] views(names@)[k]
            != name@ by {
            assert(names@[k]@ != name@);
        }
    }
    None
}

/// Whether the entry at `i` is the first of its name.
pub open spec fn is_first(names: Seq<Seq<char>>, i: int) -> bool {
    0 <= i < names.len() && forall|j: int| 0 <= j < i ==> #[trigger] names[j] != names[i]
}

proof fn lemma_firsts(names: Seq<Seq<char>>)
    ensures
        forall|k: int|
            0 <= k < firsts(names).len() ==> is_first(names, #[trigger] firsts(names)[k]),
        forall|k: int, l: int|
            0 <= k < l < firsts(names).len() ==> #[trigger] firsts(names)[k]
                < #[trigger] firsts(names)[l],
        forall|i: int| #[trigger] is_first(names, i) ==> firsts(names).contains(i),
    decreases names.len(),
{
    if names.len() > 0 {
        let head = names.drop_last();
        lemma_firsts(head);
        let before = firsts(head);
        let now = firsts(names);
        assert forall|k: int| 0 <= k < now.len() implies is_first(names, #[trigger] now[k]) by {
            if k < before.len() {
                assert(is_first(head, before[k]));
                assert forall|j: int| 0 <= j < now[k] implies #[trigger] names[j]
                    != names[now[k]] by {
                    assert(names[j] == head[j]);
                }
            } else {
                assert forall|j: int| 0 <= j < now[k] implies #[trigger] names[j]
                    != names[now[k]] by {
                    assert(names[j] == head[j]);
                }
            }
        }
        assert forall|i: int| #[trigger] is_first(names, i) implies now.contains(i) by {
            if i < head.len() {
                assert forall|j: int| 0 <= j < i implies #[trigger] head[j] != head[i] by {
                    assert(names[j] != names[i]);
                }
                assert(is_first(head, i));
                let k = choose|k: int| 0 <= k < before.len() && before[k] == i;
                assert(now[k] == i);
            } else {
                if head.contains(names.last()) {
                    let j = choose|j: int| 0 <= j < head.len() && head[j] == names.last();
                    assert(names[j] == names[i]);
                }
                assert(now[now.len() - 1] == i);
            }
        }
    }
}

/// The catalog a model sees is exactly the one that resolves: what is listed
/// under a name is the first entry of that name, no name is listed twice, and
/// no name is lost.
pub proof fn what_is_listed_is_what_resolves(names: Seq<Seq<char>>)
    ensures
        forall|k: int|
            0 <= k < firsts(names).len() ==> is_first(names, #[trigger] firsts(names)[k]),
        forall|k: int, l: int|
            0 <= k < l < firsts(names).len() ==> names[#[trigger] firsts(names)[k]]
                != names[#[trigger] firsts(names)[l]],
        forall|n: Seq<char>|
            #[trigger] names.contains(n) ==> exists|k: int|
                0 <= k < firsts(names).len() && names[#[trigger] firsts(names)[k]] == n,
{
    lemma_firsts(names);
    let f = firsts(names);
    assert forall|k: int, l: int| 0 <= k < l < f.len() implies names[#[trigger] f[k]]
        != names[#[trigger] f[l]] by {
        assert(f[k] < f[l]);
        assert(is_first(names, f[l]));
    }
    assert forall|n: Seq<char>| #[trigger] names.contains(n) implies exists|k: int|
        0 <= k < f.len() && names[#[trigger] f[k]] == n by {
        let i = lemma_first_place(names, n);
        let k = choose|k: int| 0 <= k < f.len() && f[k] == i;
        assert(names[f[k]] == n);
    }
}

proof fn lemma_first_place(names: Seq<Seq<char>>, n: Seq<char>) -> (i: int)
    requires
        names.contains(n),
    ensures
        is_first(names, i),
        names[i] == n,
    decreases names.len(),
{
    let head = names.drop_last();
    if head.contains(n) {
        let i = lemma_first_place(head, n);
        assert forall|j: int| 0 <= j < i implies #[trigger] names[j] != names[i] by {
            assert(head[j] != head[i]);
        }
        i
    } else {
        let i = names.len() - 1;
        let w = choose|w: int| 0 <= w < names.len() && names[w] == n;
        if w < i {
            assert(head[w] == n);
        }
        assert forall|j: int| 0 <= j < i implies #[trigger] names[j] != names[i] by {
            assert(head[j] == names[j]);
            assert(head.contains(head[j]));
        }
        i
    }
}

// ---------------------------------------------------------------------
// Agents
// ---------------------------------------------------------------------

/// The ids of an agent's schedules.
pub open spec fn schedule_ids(m: AgentManifest) -> Seq<Seq<char>> {
    m.schedules@.map_values(|s: ScheduleDecl| s.id@)
}

/// What an agent's tool says of itself: the manifest's description, else its
/// schedules, because "runs daily" still helps a model pick better than a bare
/// name.
pub open spec fn description_of(m: AgentManifest) -> Seq<char> {
    let fallback = if m.schedules@.len() == 0 {
        "Run the "@ + m.name@ + " agent."@
    } else {
        "Run the "@ + m.name@ + " agent (schedules: "@ + joined(schedule_ids(m), ", "@) + ")."@
    };
    match m.description {
        Some(d) => if is_blank_text(d@) {
            fallback
        } else {
            d@
        },
        None => fallback,
    }
}

/// Tool description shown to the model.
pub fn describe(manifest: &AgentManifest) -> (r: String)
    ensures
        r@ == description_of(*manifest),
{
    if let Some(d) = &manifest.description {
        if !is_blank(d.as_str()) {
            return d.clone();
        }
    }
    if manifest.schedules.len() == 0 {
        let mut out = "Run the ".to_owned();
        out.append(manifest.name.as_str());
        out.append(" agent.");
        return out;
    }
    let mut ids: Vec<String> = Vec::new();
    let mut i: usize = 0;
    while i < manifest.schedules.len()
        invariant
            i <= manifest.schedules@.len(),
            views(ids@) == schedule_ids(*manifest).take(i as int),
        decreases manifest.schedules@.len() - i,
    {
        let ghost before = views(ids@);
        ids.push(manifest.schedules[i].id.clone());
        i = i + 1;
        proof {
            assert(views(ids@) =~= before.push(manifest.schedules@[i as int - 1].id@));
            assert(schedule_ids(*manifest).take(i as int) =~= before.push(
                schedule_ids(*manifest)[i as int - 1],
            ));
        }
    }
    proof {
        assert(schedule_ids(*manifest).take(manifest.schedules@.len() as int) =~= schedule_ids(
            *manifest,
        ));
    }
    let mut out = "Run the ".to_owned();
    out.append(manifest.name.as_str());
    out.append(" agent (schedules: ");
    out.append(join(ids.as_slice(), ", ").as_str());
    out.append(").");
    out
}

/// The names the agents go by.
pub open spec fn agent_tool_names(agents: Seq<DiscoveredAgent>) -> Seq<Seq<char>> {
    agents.map_values(|a: DiscoveredAgent| a.manifest.tool@)
}

fn names_of_agents(agents: &Vec<DiscoveredAgent>) -> (r: Vec<String>)
    ensures
        views(r@) == agent_tool_names(agents@),
{
    let mut out: Vec<String> = Vec::new();
    let mut i: usize = 0;
    while i < agents.len()
        invariant
            i <= agents@.len(),
            out@.len() == i,
            forall|k: int| 0 <= k < i ==> #[trigger] out@[k]@ == agents@[k].manifest.tool@,
        decreases agents@.len() - i,
    {
        out.push(agents[i].manifest.tool.clone());
        i = i + 1;
    }
    proof {
        assert(views(out@) =~= agent_tool_names(agents@));
    }
    out
}

/// The tools of the agents, one per name.
pub open spec fn agent_catalog(agents: Seq<DiscoveredAgent>, schema: JsonView) -> Seq<ToolView> {
    firsts(agent_tool_names(agents)).map_values(
        |i: int|
            ToolView {
                name: agents[i].manifest.tool@,
                description: description_of(agents[i].manifest),
                schema,
            },
    )
}

/// One tool per agent. Names are sanitized on the way to a tool name, so two
/// agents can come to one; the first wins.
pub fn agent_tools(agents: &Vec<DiscoveredAgent>, run_schema: &Value) -> (r: Vec<Tool>)
    ensures
        shown(r@) == agent_catalog(agents@, json_view(*run_schema)),
{
    let names = names_of_agents(agents);
    let places = catalog(&names);
    let mut tools: Vec<Tool> = Vec::new();
    let mut i: usize = 0;
    let ghost all = agent_catalog(agents@, json_view(*run_schema));
    proof {
        assert(places@.map_values(|i: usize| i as int).len() == places@.len());
        assert(views(names@).len() == names@.len());
        assert(agent_tool_names(agents@).len() == agents@.len());
    }
    while i < places.len()
        invariant
            i <= places@.len(),
            tools@.len() == i,
            places@.map_values(|i: usize| i as int) == firsts(agent_tool_names(agents@)),
            forall|k: int| 0 <= k < places@.len() ==> #[trigger] places@[k] < agents@.len(),
            all == agent_catalog(agents@, json_view(*run_schema)),
            all.len() == places@.len(),
            forall|k: int| 0 <= k < i ==> #[trigger] tools@[k].shows() == all[k],
        decreases places@.len() - i,
    {
        let at: usize = places[i];
        proof {
            assert(places@.map_values(|i: usize| i as int)[i as int] == at as int);
        }
        tools.push(
            Tool {
                name: agents[at].manifest.tool.clone(),
                description: describe(&agents[at].manifest),
                input_schema: copy_value(run_schema),
            },
        );
        i = i + 1;
    }
    proof {
        assert(shown(tools@) =~= all);
    }
    tools
}

/// Map a tool name back to an agent name through the catalog the model saw.
/// Never rebuilt from the name: that direction is lossy.
pub fn resolve_agent(agents: &Vec<DiscoveredAgent>, tool: &str) -> (r: Option<String>)
    ensures
        match r {
            Some(name) => exists|i: int|
                #[trigger] is_first(agent_tool_names(agents@), i) && agents@[i].manifest.tool@
                    == tool@ && agents@[i].manifest.name@ == name@,
            None => !agent_tool_names(agents@).contains(tool@),
        },
{
    let names = names_of_agents(agents);
    match first_named(&names, tool) {
        Some(i) => {
            proof {
                let all = agent_tool_names(agents@);
                assert(views(names@).len() == names@.len());
                assert forall|k: int| 0 <= k < names@.len() implies #[trigger] all[k]
                    == names@[k]@ by {
                    assert(views(names@)[k] == names@[k]@);
                }
                assert(is_first(all, i as int));
                assert(all[i as int] == agents@[i as int].manifest.tool@);
            }
            Some(agents[i].manifest.name.clone())
        },
        None => None,
    }
}

// ---------------------------------------------------------------------
// Skills and commands
// ---------------------------------------------------------------------

/// The schemas of the tools whose arguments are declared elsewhere.
#[derive(Debug)]
pub struct Schemas {
    pub run: Value,
    pub remediation: Value,
    pub skill: Value,
    pub skill_read: Value,
    pub skill_run: Value,
    pub command_get: Value,
    pub command_list: Value,
}

/// What `skill-read` is for.
pub const SKILL_READ_ABOUT: &'static str = "Read a supporting file belonging to a skill — the reference documents a procedure points at. Use the paths the skill listed; nothing outside its directory is reachable.";

/// What `skill-run` is for.
pub const SKILL_RUN_ABOUT: &'static str = "Run an executable packaged inside a skill (its scripts/ directory) and return the output. Only for scripts a skill listed — this is not a shell.";

/// What `command-get` is for.
pub const COMMAND_GET_ABOUT: &'static str = "Resolve a command the sender invoked into the prompt to follow. Pass command.name and command.args from the trigger payload exactly as they arrived. Returns the prompt — it does not perform it.";

/// What `command-list` is for.
pub const COMMAND_LIST_ABOUT: &'static str = "List every installed command with what it does and what it takes. For answering \"what can you do?\" — not for choosing a command on the sender's behalf.";

/// The names the skills go by.
pub open spec fn skill_tool_names(skills: Seq<Skill>) -> Seq<Seq<char>> {
    skills.map_values(|s: Skill| s.tool@)
}

/// What a skill's tool shows. The description leads, because it is what the
/// model matches on; what follows says that the call itself does nothing.
pub open spec fn skill_tool(s: Skill, schema: JsonView) -> ToolView {
    ToolView {
        name: s.tool@,
        description: trimmed(s.description@)
            + "\n\nCalling this returns the written procedure — it does not perform it."@,
        schema,
    }
}

/// The skill tools: one per name, and the two verbs that reach inside one.
pub open spec fn skill_tool_views(enabled: bool, skills: Seq<Skill>, schemas: Schemas) -> Seq<
    ToolView,
> {
    if !enabled || skills.len() == 0 {
        Seq::empty()
    } else {
        firsts(skill_tool_names(skills)).map_values(
            |i: int| skill_tool(skills[i], json_view(schemas.skill)),
        ).push(
            ToolView {
                name: "skill-read"@,
                description: SKILL_READ_ABOUT@,
                schema: json_view(schemas.skill_read),
            },
        ).push(
            ToolView {
                name: "skill-run"@,
                description: SKILL_RUN_ABOUT@,
                schema: json_view(schemas.skill_run),
            },
        )
    }
}

fn names_of_skills(skills: &Vec<Skill>) -> (r: Vec<String>)
    ensures
        views(r@) == skill_tool_names(skills@),
{
    let mut out: Vec<String> = Vec::new();
    let mut i: usize = 0;
    while i < skills.len()
        invariant
            i <= skills@.len(),
            out@.len() == i,
            forall|k: int| 0 <= k < i ==> #[trigger] out@[k]@ == skills@[k].tool@,
        decreases skills@.len() - i,
    {
        out.push(skills[i].tool.clone());
        i = i + 1;
    }
    proof {
        assert(views(out@) =~= skill_tool_names(skills@));
    }
    out
}

/// The places of the skills the catalog lists: of two with one tool name, the
/// first.
pub fn skill_catalog(skills: &Vec<Skill>) -> (r: Vec<usize>)
    ensures
        r@.map_values(|i: usize| i as int) == firsts(skill_tool_names(skills@)),
        forall|k: int| 0 <= k < r@.len() ==> #[trigger] r@[k] < skills@.len(),
{
    let names = names_of_skills(skills);
    proof {
        assert(views(names@).len() == names@.len());
        assert(skill_tool_names(skills@).len() == skills@.len());
    }
    catalog(&names)
}

/// One tool per installed skill, plus the two verbs that reach inside one.
pub fn skill_tools(enabled: bool, skills: &Vec<Skill>, schemas: &Schemas) -> (r: Vec<Tool>)
    ensures
        shown(r@) == skill_tool_views(enabled, skills@, *schemas),
{
    let mut tools: Vec<Tool> = Vec::new();
    if !enabled || skills.len() == 0 {
        proof {
            assert(shown(tools@) =~= Seq::<ToolView>::empty());
        }
        return tools;
    }
    let places = skill_catalog(skills);
    let ghost all = firsts(skill_tool_names(skills@)).map_values(
        |i: int| skill_tool(skills@[i], json_view(schemas.skill)),
    );
    proof {
        assert(places@.map_values(|i: usize| i as int).len() == places@.len());
    }
    let mut i: usize = 0;
    while i < places.len()
        invariant
            i <= places@.len(),
            tools@.len() == i,
            places@.map_values(|i: usize| i as int) == firsts(skill_tool_names(skills@)),
            forall|k: int| 0 <= k < places@.len() ==> #[trigger] places@[k] < skills@.len(),
            all == firsts(skill_tool_names(skills@)).map_values(
                |i: int| skill_tool(skills@[i], json_view(schemas.skill)),
            ),
            all.len() == places@.len(),
            forall|k: int| 0 <= k < i ==> #[trigger] tools@[k].shows() == all[k],
        decreases places@.len() - i,
    {
        let at: usize = places[i];
        proof {
            assert(places@.map_values(|i: usize| i as int)[i as int] == at as int);
        }
        let mut description = trim(skills[at].description.as_str());
        description.append(
            "\n\nCalling this returns the written procedure — it does not perform it.",
        );
        tools.push(
            Tool {
                name: skills[at].tool.clone(),
                description,
                input_schema: copy_value(&schemas.skill),
            },
        );
        i = i + 1;
    }
    let ghost before = tools@;
    tools.push(
        Tool {
            name: "skill-read".to_owned(),
            description: SKILL_READ_ABOUT.to_owned(),
            input_schema: copy_value(&schemas.skill_read),
        },
    );
    tools.push(
        Tool {
            name: "skill-run".to_owned(),
            description: SKILL_RUN_ABOUT.to_owned(),
            input_schema: copy_value(&schemas.skill_run),
        },
    );
    proof {
        assert(shown(before) =~= all);
        assert(shown(tools@) =~= skill_tool_views(enabled, skills@, *schemas));
    }
    tools
}

/// The first skill that goes by a tool name.
pub fn resolve_skill<'a>(skills: &'a Vec<Skill>, tool: &str) -> (r: Option<&'a Skill>)
    ensures
        match r {
            Some(s) => exists|i: int|
                #[trigger] is_first(skill_tool_names(skills@), i) && skills@[i].tool@ == tool@
                    && skills@[i] == *s,
            None => !skill_tool_names(skills@).contains(tool@),
        },
{
    let names = names_of_skills(skills);
    match first_named(&names, tool) {
        Some(i) => {
            proof {
                let all = skill_tool_names(skills@);
                assert(views(names@).len() == names@.len());
                assert forall|k: int| 0 <= k < names@.len() implies #[trigger] all[k]
                    == names@[k]@ by {
                    assert(views(names@)[k] == names@[k]@);
                }
                assert(is_first(all, i as int));
                assert(all[i as int] == skills@[i as int].tool@);
            }
            Some(&skills[i])
        },
        None => None,
    }
}

/// The command tools: two for the whole catalog, and none while there is no
/// command.
pub open spec fn command_tool_views(enabled: bool, any: bool, schemas: Schemas) -> Seq<ToolView> {
    if !enabled || !any {
        Seq::empty()
    } else {
        seq![
            ToolView {
                name: "command-get"@,
                description: COMMAND_GET_ABOUT@,
                schema: json_view(schemas.command_get),
            },
            ToolView {
                name: "command-list"@,
                description: COMMAND_LIST_ABOUT@,
                schema: json_view(schemas.command_list),
            },
        ]
    }
}

/// Two tools for the whole command catalog, not one per command: a command was
/// already chosen by a human, and publishing each would reopen that decision.
pub fn command_tools(enabled: bool, any: bool, schemas: &Schemas) -> (r: Vec<Tool>)
    ensures
        shown(r@) == command_tool_views(enabled, any, *schemas),
{
    let mut tools: Vec<Tool> = Vec::new();
    if enabled && any {
        tools.push(
            Tool {
                name: "command-get".to_owned(),
                description: COMMAND_GET_ABOUT.to_owned(),
                input_schema: copy_value(&schemas.command_get),
            },
        );
        tools.push(
            Tool {
                name: "command-list".to_owned(),
                description: COMMAND_LIST_ABOUT.to_owned(),
                input_schema: copy_value(&schemas.command_list),
            },
        );
    }
    proof {
        assert(shown(tools@) =~= command_tool_views(enabled, any, *schemas));
    }
    tools
}

// ---------------------------------------------------------------------
// The whole catalog
// ---------------------------------------------------------------------

/// Which of the server's capabilities the operator turned on.
#[derive(Debug, Clone, Copy, PartialEq, Eq, Structural)]
pub struct Switches {
    pub memory: bool,
    pub skills: bool,
    pub commands: bool,
}

/// What a list of broken manifests says, one entry each.
pub open spec fn broken_lines(invalid: Seq<InvalidManifest>) -> Seq<Seq<char>> {
    invalid.map_values(|i: InvalidManifest| i.path@ + ": "@ + i.error@)
}

/// The error a catalog with broken manifests is answered with.
pub open spec fn broken_text(invalid: Seq<InvalidManifest>) -> Seq<char> {
    dec(invalid.len() as int) + " manifest(s) failed to load — "@ + joined(
        broken_lines(invalid),
        "; "@,
    )
}

/// Every tool, in the order they are listed.
pub open spec fn every_tool(
    agents: Seq<DiscoveredAgent>,
    on: Switches,
    skills: Seq<Skill>,
    any_command: bool,
    schemas: Schemas,
) -> Seq<ToolView> {
    agent_catalog(agents, json_view(schemas.run)) + introspection() + remedy_tool_views(
        agents,
        json_view(schemas.remediation),
    ) + (if on.memory {
        memory_catalog()
    } else {
        Seq::empty()
    }) + skill_tool_views(on.skills, skills, schemas) + command_tool_views(
        on.commands,
        any_command,
        schemas,
    )
}

fn broken_report(invalid: &Vec<InvalidManifest>) -> (r: String)
    ensures
        r@ == broken_text(invalid@),
{
    let mut lines: Vec<String> = Vec::new();
    let mut i: usize = 0;
    while i < invalid.len()
        invariant
            i <= invalid@.len(),
            lines@.len() == i,
            forall|k: int| 0 <= k < i ==> #[trigger] lines@[k]@ == broken_lines(invalid@)[k],
        decreases invalid@.len() - i,
    {
        let mut line = invalid[i].path.clone();
        line.append(": ");
        line.append(invalid[i].error.as_str());
        lines.push(line);
        i = i + 1;
    }
    proof {
        assert(views(lines@) =~= broken_lines(invalid@));
    }
    let mut out = dec_usize(invalid.len());
    out.append(" manifest(s) failed to load — ");
    out.append(join(lines.as_slice(), "; ").as_str());
    out
}

fn extend(tools: &mut Vec<Tool>, more: Vec<Tool>)
    ensures
        shown(final(tools)@) == shown(old(tools)@) + shown(more@),
{
    let mut more = more;
    let ghost start = tools@;
    let ghost tail = more@;
    tools.append(&mut more);
    proof {
        assert(shown(tools@) =~= shown(start) + shown(tail));
    }
}

/// Whether `r` is what listing the tools comes to.
pub open spec fn listed(
    found: Discovery,
    on: Switches,
    skills: Seq<Skill>,
    any_command: bool,
    schemas: Schemas,
    r: Result<Value, String>,
) -> bool {
    match r {
        Err(e) => found.invalid@.len() > 0 && e@ == broken_text(found.invalid@),
        Ok(v) => found.invalid@.len() == 0 && json_view(v) == tools_wire(
            every_tool(found.agents@, on, skills, any_command, schemas),
        ),
    }
}

/// Build the catalog. A malformed manifest is reported instead: a model handed
/// a catalog that quietly lost entries would answer confidently and wrongly
/// about what it can do.
pub fn tools_list(
    found: &Discovery,
    on: Switches,
    skills: &Vec<Skill>,
    any_command: bool,
    schemas: &Schemas,
) -> (r: Result<Value, String>)
    ensures
        listed(*found, on, skills@, any_command, *schemas, r),
{
    if found.invalid.len() > 0 {
        return Err(broken_report(&found.invalid));
    }
    let mut tools = agent_tools(&found.agents, &schemas.run);
    extend(&mut tools, introspection_tools());
    extend(&mut tools, remediation_tools(&found.agents, &schemas.remediation));
    extend(&mut tools, memory_tools(on.memory));
    extend(&mut tools, skill_tools(on.skills, skills, schemas));
    extend(&mut tools, command_tools(on.commands, any_command, schemas));
    Ok(tools_to_json(tools))
}

// ---------------------------------------------------------------------
// Laws of the catalog
// ---------------------------------------------------------------------

/// A tool is listed with its own name, description and schema, in its place.
pub proof fn a_tool_is_listed_as_it_is(tools: Seq<ToolView>, i: int)
    requires
        0 <= i < tools.len(),
    ensures
        member_of(tools_wire(tools), "tools"@) matches Some(JsonView::List(list)) && list.len()
            == tools.len() && text_member(list[i], "name"@) == Some(tools[i].name) && text_member(
            list[i],
            "description"@,
        ) == Some(tools[i].description) && member_of(list[i], "inputSchema"@) == Some(
            tools[i].schema,
        ),
{
    reveal_strlit("name");
    reveal_strlit("description");
    reveal_strlit("inputSchema");
    assert("name"@.len() == 4 && "description"@.len() == 11 && "inputSchema"@.len() == 11);
    assert("description"@[0] == 'd' && "inputSchema"@[0] == 'i');
}

proof fn lemma_schema_names()
    ensures
        "type"@ != "properties"@ && "type"@ != "required"@ && "type"@ != "additionalProperties"@
            && "type"@ != "items"@ && "type"@ != "description"@,
        "properties"@ != "required"@ && "properties"@ != "additionalProperties"@,
        "required"@ != "additionalProperties"@,
        "items"@ != "description"@,
{
    reveal_strlit("type");
    reveal_strlit("properties");
    reveal_strlit("required");
    reveal_strlit("additionalProperties");
    reveal_strlit("items");
    reveal_strlit("description");
    assert("type"@.len() == 4 && "properties"@.len() == 10 && "required"@.len() == 8
        && "additionalProperties"@.len() == 20 && "items"@.len() == 5 && "description"@.len()
        == 11);
}

/// An argument is described by its kind: a list says that it is one of strings,
/// and what is said about the argument stands beside it.
pub proof fn an_argument_is_described_by_its_kind(a: Arg)
    ensures
        a.kind == ArgKind::Text ==> text_member(arg_schema(a), "type"@) == Some("string"@),
        a.kind == ArgKind::Integer ==> text_member(arg_schema(a), "type"@) == Some("integer"@),
        a.kind == ArgKind::TextList ==> text_member(arg_schema(a), "type"@) == Some("array"@) && (
        member_of(arg_schema(a), "items"@) matches Some(i) && text_member(i, "type"@) == Some(
            "string"@,
        )),
        a.kind != ArgKind::TextList ==> member_of(arg_schema(a), "items"@) is None,
        a.about is Some ==> text_member(arg_schema(a), "description"@) == Some(a.about->0@),
        a.about is None ==> member_of(arg_schema(a), "description"@) is None,
{
    lemma_schema_names();
}

proof fn lemma_properties(args: Seq<Arg>, i: int)
    requires
        0 <= i < args.len(),
        forall|j: int| i < j < args.len() ==> (#[trigger] args[j]).name@ != args[i].name@,
    ensures
        properties_of(args).dom().contains(args[i].name@),
        properties_of(args)[args[i].name@] == arg_schema(args[i]),
    decreases args.len(),
{
    if i < args.len() - 1 {
        let head = args.drop_last();
        assert forall|j: int| i < j < head.len() implies (#[trigger] head[j]).name@
            != head[i].name@ by {
            assert(args[j].name@ != args[i].name@);
        }
        lemma_properties(head, i);
        assert(args[args.len() - 1].name@ != args[i].name@);
    }
}

proof fn lemma_required(args: Seq<Arg>, name: Seq<char>)
    ensures
        required_of(args).contains(JsonView::Text(name)) <==> exists|i: int|
            0 <= i < args.len() && (#[trigger] args[i]).required && args[i].name@ == name,
        required_of(args).len() <= args.len(),
    decreases args.len(),
{
    let wanted = JsonView::Text(name);
    let all = required_of(args);
    if args.len() > 0 {
        let head = args.drop_last();
        let before = required_of(head);
        lemma_required(head, name);
        if all.contains(wanted) {
            let k = choose|k: int| 0 <= k < all.len() && all[k] == wanted;
            if k < before.len() {
                assert(before[k] == wanted);
                let i = choose|i: int|
                    0 <= i < head.len() && (#[trigger] head[i]).required && head[i].name@ == name;
                assert(args[i].required && args[i].name@ == name);
            } else {
                assert(JsonView::Text(args.last().name@)->Text_0 == wanted->Text_0);
                let i = args.len() - 1;
                assert(args[i].required && args[i].name@ == name);
            }
        }
        if exists|i: int|
            0 <= i < args.len() && (#[trigger] args[i]).required && args[i].name@ == name {
            let i = choose|i: int|
                0 <= i < args.len() && (#[trigger] args[i]).required && args[i].name@ == name;
            if i < head.len() {
                assert(head[i].required && head[i].name@ == name);
                let k = choose|k: int| 0 <= k < before.len() && before[k] == wanted;
                assert(all[k] == wanted);
            } else {
                assert(all.last() == wanted);
            }
        }
    }
}

/// A schema has a property for each argument, described as that argument is; it
/// requires exactly the arguments that are required, and takes no other.
pub proof fn a_schema_is_of_its_arguments(args: Seq<Arg>, i: int)
    requires
        0 <= i < args.len(),
        forall|j: int| 0 <= j < args.len() && j != i ==> (#[trigger] args[j]).name@ != args[i].name@,
    ensures
        member_of(schema_of(args), "properties"@) matches Some(p) && member_of(p, args[i].name@)
            == Some(arg_schema(args[i])),
        args[i].required <==> (member_of(schema_of(args), "required"@) matches Some(
            JsonView::List(names),
        ) && names.contains(JsonView::Text(args[i].name@))),
        member_of(schema_of(args), "additionalProperties"@) == Some(JsonView::Bool(false)),
        text_member(schema_of(args), "type"@) == Some("object"@),
{
    lemma_schema_names();
    lemma_properties(args, i);
    lemma_required(args, args[i].name@);
}

/// Every tool of this process's own that is listed is one that it serves, and
/// takes the arguments that are read when it is called.
pub proof fn what_is_listed_is_what_is_served(i: int)
    ensures
        0 <= i < introspection().len() ==> is_memory_tool(introspection()[i].name),
        0 <= i < memory_catalog().len() ==> is_memory_tool(memory_catalog()[i].name),
        introspection().len() == 5 && memory_catalog().len() == 5,
        memory_catalog().contains(
            own_tool("memory-supersede"@, SUPERSEDE_ABOUT@, supersede_args()),
        ),
        supersede_args().len() == 3 && supersede_args()[0].name@ == "id"@
            && supersede_args()[0].required && supersede_args()[1].name@ == "text"@
            && supersede_args()[1].required && supersede_args()[2].name@ == "topics"@
            && !supersede_args()[2].required,
        remember_args().len() == 2 && remember_args()[0].name@ == "text"@
            && remember_args()[0].required && remember_args()[1].name@ == "topics"@
            && !remember_args()[1].required,
        recall_args().len() == 3 && recall_args()[0].name@ == "query"@ && recall_args()[1].name@
            == "topic"@ && recall_args()[2].name@ == "limit"@ && recall_args()[2].kind
            == ArgKind::Integer,
        forget_args().len() == 1 && forget_args()[0].name@ == "id"@ && forget_args()[0].required,
        logs_args().len() == 2 && logs_args()[0].name@ == "agent"@ && logs_args()[0].required
            && logs_args()[1].name@ == "lines"@ && logs_args()[1].kind == ArgKind::Integer,
        agent_args().len() == 1 && agent_args()[0].name@ == "agent"@ && agent_args()[0].required,
{
    assert(memory_catalog()[3] == own_tool(
        "memory-supersede"@,
        SUPERSEDE_ABOUT@,
        supersede_args(),
    ));
}

/// An agent that describes itself is described in its own words; any other by
/// its name and each of its schedules.
pub proof fn an_agent_is_described(m: AgentManifest, i: int)
    ensures
        m.description is Some && !is_blank_text(m.description->0@) ==> description_of(m)
            == m.description->0@,
        m.description is None || is_blank_text(m.description->0@) ==> holds_text(
            description_of(m),
            m.name@,
        ) && (0 <= i < m.schedules@.len() ==> holds_text(
            description_of(m),
            m.schedules@[i].id@,
        )),
{
    let lead = "Run the "@;
    if m.schedules@.len() == 0 {
        let said = lead + m.name@ + " agent."@;
        lemma_holds_part(said, lead, m.name@, " agent."@);
    } else {
        let list = joined(schedule_ids(m), ", "@);
        let mid = " agent (schedules: "@;
        let said = lead + m.name@ + mid + list + ")."@;
        assert(said =~= lead + m.name@ + (mid + list + ")."@));
        lemma_holds_part(said, lead, m.name@, mid + list + ")."@);
        lemma_holds_part(said, lead + m.name@ + mid, list, ")."@);
        if 0 <= i < m.schedules@.len() {
            lemma_joined_holds(schedule_ids(m), ", "@, i);
            lemma_holds_through(said, list, m.schedules@[i].id@);
        }
    }
}

/// Every agent whose tool name no earlier agent has is listed under that name
/// with its own description, and nothing else is listed as an agent.
pub proof fn every_agent_has_its_tool(agents: Seq<DiscoveredAgent>, schema: JsonView, i: int)
    requires
        is_first(agent_tool_names(agents), i),
    ensures
        agent_catalog(agents, schema).contains(
            ToolView {
                name: agents[i].manifest.tool@,
                description: description_of(agents[i].manifest),
                schema,
            },
        ),
        agent_catalog(agents, schema).len() <= agents.len(),
{
    let names = agent_tool_names(agents);
    lemma_firsts(names);
    lemma_firsts_len(names);
    let k = choose|k: int| 0 <= k < firsts(names).len() && firsts(names)[k] == i;
    assert(agent_catalog(agents, schema)[k] == (ToolView {
        name: agents[i].manifest.tool@,
        description: description_of(agents[i].manifest),
        schema,
    }));
}

proof fn lemma_firsts_len(names: Seq<Seq<char>>)
    ensures
        firsts(names).len() <= names.len(),
    decreases names.len(),
{
    if names.len() > 0 {
        lemma_firsts_len(names.drop_last());
    }
}

/// A skill is listed with what it says of itself first, and the two tools that
/// look inside it only where there is one.
pub proof fn every_skill_has_its_tool(
    enabled: bool,
    skills: Seq<Skill>,
    schemas: Schemas,
    i: int,
)
    requires
        is_first(skill_tool_names(skills), i),
    ensures
        ({
            let all = skill_tool_views(enabled, skills, schemas);
            &&& !enabled ==> all.len() == 0
            &&& enabled ==> all.contains(skill_tool(skills[i], json_view(schemas.skill)))
            &&& enabled ==> exists|k: int|
                0 <= k < all.len() && (#[trigger] all[k]).name == "skill-read"@ && all[k].schema
                    == json_view(schemas.skill_read)
            &&& enabled ==> exists|k: int|
                0 <= k < all.len() && (#[trigger] all[k]).name == "skill-run"@ && all[k].schema
                    == json_view(schemas.skill_run)
        }),
        skill_tool(skills[i], json_view(schemas.skill)).name == skills[i].tool@,
        has_prefix(
            skill_tool(skills[i], json_view(schemas.skill)).description,
            trimmed(skills[i].description@),
        ),
        skill_tool_views(enabled, Seq::empty(), schemas).len() == 0,
{
    let names = skill_tool_names(skills);
    lemma_firsts(names);
    let all = skill_tool_views(enabled, skills, schemas);
    lemma_ends(
        trimmed(skills[i].description@),
        "\n\nCalling this returns the written procedure — it does not perform it."@,
    );
    if enabled {
        let k = choose|k: int| 0 <= k < firsts(names).len() && firsts(names)[k] == i;
        assert(all[k] == skill_tool(skills[i], json_view(schemas.skill)));
        assert(all[all.len() - 2].name == "skill-read"@);
        assert(all[all.len() - 1].name == "skill-run"@);
    }
}

/// The commands' two tools are listed exactly where commands are on and there
/// are any.
pub proof fn commands_are_listed_where_there_are_any(enabled: bool, any: bool, schemas: Schemas)
    ensures
        enabled && any <==> command_tool_views(enabled, any, schemas).len() > 0,
        enabled && any ==> command_tool_views(enabled, any, schemas).len() == 2
            && command_tool_views(enabled, any, schemas)[0].name == "command-get"@
            && command_tool_views(enabled, any, schemas)[0].schema == json_view(
            schemas.command_get,
        ) && command_tool_views(enabled, any, schemas)[1].name == "command-list"@
            && command_tool_views(enabled, any, schemas)[1].schema == json_view(
            schemas.command_list,
        ),
{
}

/// The catalog is every agent, what looks into this process, every remedy, and
/// the memory, skills and commands that are on: none of them in part.
pub proof fn the_catalog_is_whole(
    agents: Seq<DiscoveredAgent>,
    on: Switches,
    skills: Seq<Skill>,
    any_command: bool,
    schemas: Schemas,
    t: ToolView,
)
    ensures
        every_tool(agents, on, skills, any_command, schemas).contains(t) <==> agent_catalog(
            agents,
            json_view(schemas.run),
        ).contains(t) || introspection().contains(t) || remedy_tool_views(
            agents,
            json_view(schemas.remediation),
        ).contains(t) || (on.memory && memory_catalog().contains(t)) || skill_tool_views(
            on.skills,
            skills,
            schemas,
        ).contains(t) || command_tool_views(on.commands, any_command, schemas).contains(t),
{
    let a = agent_catalog(agents, json_view(schemas.run));
    let b = introspection();
    let c = remedy_tool_views(agents, json_view(schemas.remediation));
    let d = if on.memory {
        memory_catalog()
    } else {
        Seq::empty()
    };
    let e = skill_tool_views(on.skills, skills, schemas);
    let f = command_tool_views(on.commands, any_command, schemas);
    lemma_in_either(a, b, t);
    lemma_in_either(a + b, c, t);
    lemma_in_either(a + b + c, d, t);
    lemma_in_either(a + b + c + d, e, t);
    lemma_in_either(a + b + c + d + e, f, t);
}

proof fn lemma_in_either(a: Seq<ToolView>, b: Seq<ToolView>, t: ToolView)
    ensures
        (a + b).contains(t) <==> a.contains(t) || b.contains(t),
{
    if a.contains(t) {
        let k = choose|k: int| 0 <= k < a.len() && a[k] == t;
        assert((a + b)[k] == t);
    }
    if b.contains(t) {
        let k = choose|k: int| 0 <= k < b.len() && b[k] == t;
        assert((a + b)[a.len() + k] == t);
    }
    if (a + b).contains(t) {
        let k = choose|k: int| 0 <= k < (a + b).len() && (a + b)[k] == t;
        if k < a.len() {
            assert(a[k] == t);
        } else {
            assert(b[k - a.len()] == t);
        }
    }
}

/// A catalog that lost an entry is never handed out: every manifest that did not
/// load is named instead, with its error.
pub proof fn a_broken_manifest_is_named(
    found: Discovery,
    on: Switches,
    skills: Seq<Skill>,
    any_command: bool,
    schemas: Schemas,
    r: Result<Value, String>,
    i: int,
)
    requires
        listed(found, on, skills, any_command, schemas, r),
    ensures
        r is Err <==> found.invalid@.len() > 0,
        0 <= i < found.invalid@.len() ==> holds_text(
            r->Err_0@,
            found.invalid@[i].path@ + ": "@ + found.invalid@[i].error@,
        ) && has_prefix(r->Err_0@, dec(found.invalid@.len() as int)),
{
    if 0 <= i < found.invalid@.len() {
        let lines = broken_lines(found.invalid@);
        let list = joined(lines, "; "@);
        let lead = dec(found.invalid@.len() as int);
        let mid = " manifest(s) failed to load — "@;
        lemma_joined_holds(lines, "; "@, i);
        lemma_holds_last(lead + mid, list);
        lemma_holds_through(lead + mid + list, list, lines[i]);
        lemma_in_two(lead, mid, list);
        lemma_ends(lead, mid + list);
    }
}

} // verus!
