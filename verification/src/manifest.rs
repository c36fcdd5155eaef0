//! What an agent's manifest declares, as far as the daemon and the command
//! line look at it.

use crate::text::{one_of, views};
use serde_json::Value;
use vstd::prelude::*;

verus! {

broadcast use vstd::string::group_string_axioms;

/// A plugin an agent refers to: a preflight check, or a hook.
#[derive(Debug, Clone, PartialEq, Eq)]
pub struct PluginRef {
    pub plugin: String,
    /// The events a hook is for; none means every event.
    pub events: Vec<String>,
    /// The command that fixes what makes a preflight check fail.
    pub remediation: Option<String>,
    /// The name that command goes by in the tool catalog.
    pub remediation_tool: String,
}

/// The plugin behind a notifier with `driver = "plugin"`.
#[derive(Debug, Clone)]
pub struct PluginNotifier {
    pub name: String,
    pub events: Vec<String>,
    pub config: Option<Value>,
}

/// One notifier.
#[derive(Debug, Clone)]
pub struct NotifierEntry {
    pub driver: String,
    /// The events it is for; none means every event.
    pub events: Vec<String>,
    pub plugin: Option<PluginNotifier>,
}

/// One schedule.
#[derive(Debug, Clone, PartialEq, Eq)]
pub struct ScheduleDecl {
    pub id: String,
    pub args: Vec<String>,
}

/// How an agent's processes live.
#[derive(Debug, Clone, PartialEq, Eq)]
pub struct Lifecycle {
    pub persistent: bool,
    /// What distinguishes one persistent instance from another.
    pub key: Option<String>,
    pub max_instances: u64,
    pub idle_timeout_seconds: u64,
    /// 0 means unlimited.
    pub max_invocations: u64,
}

/// `[memory]`: capture of facts from a run's output.
#[derive(Debug, Clone, PartialEq, Eq)]
pub struct MemoryDecl {
    pub capture: bool,
    pub topics: Vec<String>,
}

/// `[assistant.extractor]`: the command that says which facts of a turn to
/// keep.
#[derive(Debug, Clone, PartialEq, Eq)]
pub struct ExtractorDecl {
    pub command: String,
    pub args: Vec<String>,
    pub timeout_seconds: u64,
}

/// `[assistant]`: the conversation harness.
#[derive(Debug, Clone, PartialEq, Eq)]
pub struct AssistantDecl {
    pub enabled: bool,
    pub memory: bool,
    pub transcript_bytes_max: Option<u64>,
    /// Whether it names toolkit servers.
    pub toolkit: bool,
    pub extractor: Option<ExtractorDecl>,
}

/// What an agent's manifest declares.
#[derive(Debug, Clone)]
pub struct AgentManifest {
    pub name: String,
    /// The name the agent goes by in the tool catalog.
    pub tool: String,
    pub description: Option<String>,
    pub monitor: bool,
    pub schedules: Vec<ScheduleDecl>,
    pub preflight: Vec<PluginRef>,
    pub on_success: Vec<PluginRef>,
    pub on_failure: Vec<PluginRef>,
    pub notifiers: Vec<NotifierEntry>,
    pub lifecycle: Lifecycle,
    /// Whether it has a `[security]` section.
    pub security_explicit: bool,
    pub memory: Option<MemoryDecl>,
    pub assistant: Option<AssistantDecl>,
}

/// Whether a list of events is for `event`: it names it, or names none.
pub open spec fn hears(events: Seq<String>, event: Seq<char>) -> bool {
    events.len() == 0 || views(events).contains(event)
}

/// Whether a list of events is for `event`.
pub fn listens(events: &Vec<String>, event: &str) -> (r: bool)
    ensures
        r == hears(events@, event@),
{
    events.len() == 0 || one_of(events.as_slice(), event)
}

/// Whether a notifier is for `event`. The plugin behind a notifier carries a
/// filter of its own.
pub open spec fn notifier_hears(n: NotifierEntry, event: Seq<char>) -> bool {
    hears(n.events@, event) && match n.plugin {
        Some(p) => hears(p.events@, event),
        None => true,
    }
}

impl NotifierEntry {
    /// Whether the notifier is for `event`.
    pub fn matches_event(&self, event: &str) -> (r: bool)
        ensures
            r == notifier_hears(*self, event@),
    {
        let inner = match &self.plugin {
            Some(p) => listens(&p.events, event),
            None => true,
        };
        listens(&self.events, event) && inner
    }
}

/// A list of events without any is for every event; otherwise it is for those on
/// it and no other. A notifier with a plugin hears what both of them are for.
pub proof fn only_a_listed_event_is_heard(n: NotifierEntry, event: Seq<char>)
    ensures
        n.events@.len() == 0 ==> hears(n.events@, event),
        n.events@.len() > 0 ==> (hears(n.events@, event) <==> exists|i: int|
            0 <= i < n.events@.len() && (#[trigger] n.events@[i])@ == event),
        n.plugin is None ==> (notifier_hears(n, event) <==> hears(n.events@, event)),
        n.plugin is Some ==> (notifier_hears(n, event) <==> hears(n.events@, event) && hears(
            n.plugin->0.events@,
            event,
        )),
{
    if exists|i: int| 0 <= i < n.events@.len() && (#[trigger] n.events@[i])@ == event {
        let i = choose|i: int| 0 <= i < n.events@.len() && (#[trigger] n.events@[i])@ == event;
        assert(views(n.events@)[i] == event);
    }
    if n.events@.len() > 0 && hears(n.events@, event) {
        let i = choose|i: int|
            0 <= i < views(n.events@).len() && views(n.events@)[i] == event;
        assert(n.events@[i]@ == event);
    }
}

} // verus!
