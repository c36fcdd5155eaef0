//! The assistant harness: what an agent's environment gets before a
//! conversation turn, and what is remembered and delivered after it.
//!
//! Nothing happens unless the manifest opts in. A failure anywhere degrades to
//! "no context, unchanged reply": the harness sits in the hot path of every
//! turn and must never break one.

use crate::gateway::{TriggerRequest, source_text};
use crate::json::{json_view, text_at, text_member};
use crate::manifest::{AgentManifest, ExtractorDecl};
use crate::memory::CapturedMemo;
use serde_json::Value;
use vstd::prelude::*;

verus! {

broadcast use vstd::string::group_string_axioms;

/// Upper bound of the injected memory block. Recall is a recall, not a dump:
/// the block shares the prompt with the user's message.
pub const MAX_MEMORY_BLOCK_BYTES: usize = 2048;

/// Whether a manifest turns the harness on.
pub open spec fn harness_on(m: AgentManifest) -> bool {
    m.assistant matches Some(a) && a.enabled
}

/// Whether the harness should act for this manifest at all.
pub fn enabled(manifest: &AgentManifest) -> (r: bool)
    ensures
        r == harness_on(*manifest),
{
    match &manifest.assistant {
        Some(a) => a.enabled,
        None => false,
    }
}

/// What is looked up before a turn.
#[derive(Debug, Clone, Copy, PartialEq, Eq, Structural)]
pub struct HarnessWants {
    /// Provision the toolkit.
    pub toolkit: bool,
    /// Recall what memory knows of the message.
    pub memory: bool,
}

/// Whether `r` is what the harness of an agent wants.
pub open spec fn wants(m: AgentManifest, r: HarnessWants) -> bool {
    &&& r.toolkit == (harness_on(m) && m.assistant->0.toolkit)
    &&& r.memory == (harness_on(m) && m.assistant->0.memory)
}

/// What is looked up before a turn: nothing when the harness is off.
pub fn harness_wants(manifest: &AgentManifest) -> (r: HarnessWants)
    ensures
        wants(*manifest, r),
{
    match &manifest.assistant {
        Some(a) => HarnessWants { toolkit: a.enabled && a.toolkit, memory: a.enabled && a.memory },
        None => HarnessWants { toolkit: false, memory: false },
    }
}

/// The text of a trigger's payload.
pub open spec fn payload_text(payload: Option<Value>) -> Seq<char> {
    match payload {
        Some(p) => match text_member(json_view(p), "text"@) {
            Some(t) => t,
            None => Seq::empty(),
        },
        None => Seq::empty(),
    }
}

/// The text of a trigger's payload: what memory is asked about, and what an
/// extractor sees of the sender's half of a turn.
pub fn turn_message(payload: &Option<Value>) -> (r: String)
    ensures
        r@ == payload_text(*payload),
{
    match payload {
        Some(p) => match text_at(p, "text") {
            Some(t) => t,
            None => String::new(),
        },
        None => String::new(),
    }
}

/// What was found before a turn.
#[derive(Debug, PartialEq, Eq)]
pub struct HarnessFacts {
    /// The path and the hash of the toolkit, when it was provisioned.
    pub toolkit: Option<(String, String)>,
    /// The recorded session, once the toolkit's hash was noted: a changed
    /// toolkit clears it.
    pub session: Option<String>,
    /// What memory recalled, empty when nothing.
    pub memory_block: String,
}

/// What a variable list says.
pub open spec fn env_views(env: Seq<(String, String)>) -> Seq<(Seq<char>, Seq<char>)> {
    env.map_values(|p: (String, String)| (p.0@, p.1@))
}

/// The variables a turn gets.
pub open spec fn harness_vars(m: AgentManifest, facts: HarnessFacts) -> Seq<
    (Seq<char>, Seq<char>),
> {
    if !harness_on(m) {
        Seq::empty()
    } else {
        let a = m.assistant->0;
        (match facts.toolkit {
            Some((path, hash)) => if a.toolkit {
                seq![
                    ("AGENT_ASSISTANT_MCP_CONFIG"@, path@),
                    ("AGENT_ASSISTANT_TOOLKIT_HASH"@, hash@),
                ]
            } else {
                Seq::empty()
            },
            None => Seq::empty(),
        }) + (match facts.session {
            Some(s) => seq![("AGENT_ASSISTANT_SESSION"@, s@)],
            None => Seq::empty(),
        }) + if a.memory && facts.memory_block@.len() > 0 {
            seq![("AGENT_ASSISTANT_MEMORY"@, facts.memory_block@)]
        } else {
            Seq::empty()
        }
    }
}

/// The environment of a turn. Empty when the harness is off.
pub fn harness_env(manifest: &AgentManifest, facts: HarnessFacts) -> (r: Vec<(String, String)>)
    ensures
        env_views(r@) == harness_vars(*manifest, facts),
{
    let mut env: Vec<(String, String)> = Vec::new();
    let config = match &manifest.assistant {
        Some(a) => a,
        None => {
            proof {
                assert(env_views(env@) =~= harness_vars(*manifest, facts));
            }
            return env;
        },
    };
    if !config.enabled {
        proof {
            assert(env_views(env@) =~= harness_vars(*manifest, facts));
        }
        return env;
    }
    let ghost all = facts;
    if config.toolkit {
        if let Some((path, hash)) = facts.toolkit {
            env.push(("AGENT_ASSISTANT_MCP_CONFIG".to_owned(), path));
            env.push(("AGENT_ASSISTANT_TOOLKIT_HASH".to_owned(), hash));
        }
    }
    if let Some(session) = facts.session {
        env.push(("AGENT_ASSISTANT_SESSION".to_owned(), session));
    }
    if config.memory && !facts.memory_block.as_str().is_empty() {
        env.push(("AGENT_ASSISTANT_MEMORY".to_owned(), facts.memory_block));
    }
    proof {
        assert(env_views(env@) =~= harness_vars(*manifest, all));
    }
    env
}

// ---------------------------------------------------------------------
// The registry
// ---------------------------------------------------------------------

/// What the registry holds for a conversation.
#[derive(Debug, Clone, Copy, PartialEq, Eq, Structural)]
pub enum Loaded {
    Found,
    Missing,
    Unreadable,
}

/// Which record a turn uses.
#[derive(Debug, Clone, Copy, PartialEq, Eq, Structural)]
pub enum RecordPlan {
    /// None: a trigger without a session has nothing to persist under.
    Skip,
    UseLoaded,
    Fresh,
}

/// The record that a turn goes on with.
pub open spec fn record_of(in_session: bool, loaded: Loaded) -> RecordPlan {
    if !in_session {
        RecordPlan::Skip
    } else if loaded == Loaded::Found {
        RecordPlan::UseLoaded
    } else {
        RecordPlan::Fresh
    }
}

/// Which record a turn uses. One that cannot be read starts over.
pub fn load_record(session_id: &Option<String>, loaded: Loaded) -> (r: RecordPlan)
    ensures
        r == record_of(session_id is Some, loaded),
{
    if session_id.is_none() {
        return RecordPlan::Skip;
    }
    match loaded {
        Loaded::Found => RecordPlan::UseLoaded,
        Loaded::Missing => RecordPlan::Fresh,
        Loaded::Unreadable => RecordPlan::Fresh,
    }
}

/// A session an agent reported at the end of a turn.
#[derive(Debug, Clone, PartialEq, Eq)]
pub struct SessionFrame {
    pub claude_session: String,
    pub transcript_bytes: u64,
}

/// What is applied to a record after a turn: the session that was reported,
/// and the ceiling past which its transcript is retired.
#[derive(Debug, PartialEq, Eq)]
pub struct SessionUpdate {
    pub claude_session: String,
    pub transcript_bytes: u64,
    pub ceiling: u64,
}

/// Whether `r` is what a turn leaves in the session's record.
pub open spec fn session_updated(
    m: AgentManifest,
    has_record: bool,
    frame: Option<SessionFrame>,
    default_ceiling: u64,
    r: Option<SessionUpdate>,
) -> bool {
    &&& r is Some <==> harness_on(m) && has_record && frame is Some
    &&& r matches Some(u) ==> {
        &&& u.claude_session@ == frame->0.claude_session@
        &&& u.transcript_bytes == frame->0.transcript_bytes
        &&& u.ceiling == match m.assistant->0.transcript_bytes_max {
            Some(max) => max,
            None => default_ceiling,
        }
    }
}

/// What is applied to a conversation's record after a turn: nothing when the
/// harness is off, when the conversation has no record, or when no session was
/// reported.
pub fn session_update(
    manifest: &AgentManifest,
    has_record: bool,
    frame: &Option<SessionFrame>,
    default_ceiling: u64,
) -> (r: Option<SessionUpdate>)
    ensures
        session_updated(*manifest, has_record, *frame, default_ceiling, r),
{
    let config = match &manifest.assistant {
        Some(a) => a,
        None => {
            return None;
        },
    };
    if !config.enabled || !has_record {
        return None;
    }
    match frame {
        Some(f) => {
            let ceiling: u64 = match config.transcript_bytes_max {
                Some(max) => max,
                None => default_ceiling,
            };
            Some(
                SessionUpdate {
                    claude_session: f.claude_session.clone(),
                    transcript_bytes: f.transcript_bytes,
                    ceiling,
                },
            )
        },
        None => None,
    }
}

// ---------------------------------------------------------------------
// After a turn
// ---------------------------------------------------------------------

/// Who wrote a fact, recorded alongside it. A store you cannot audit is one
/// you stop trusting.
#[derive(Debug, PartialEq, Eq)]
pub struct Provenance {
    pub agent: Option<String>,
    pub source: Option<String>,
    pub session: Option<String>,
}

/// Whether `p` says that a trigger wrote.
pub open spec fn written_by(p: Provenance, req: TriggerRequest) -> bool {
    &&& p.agent matches Some(a) && a@ == req.agent@
    &&& p.source matches Some(s) && s@ == source_text(req.source)
    &&& match req.session_id {
        Some(id) => p.session matches Some(s) && s@ == id@,
        None => p.session is None,
    }
}

/// Provenance for facts captured from this trigger.
pub fn provenance(req: &TriggerRequest) -> (r: Provenance)
    ensures
        written_by(r, *req),
{
    let session = match &req.session_id {
        Some(id) => Some(id.clone()),
        None => None,
    };
    Provenance {
        agent: Some(req.agent.clone()),
        source: Some(req.source.name().to_owned()),
        session,
    }
}

/// What is delivered and remembered after a turn.
#[derive(Debug, PartialEq, Eq)]
pub struct FinalizeOutcome {
    /// The reply the sink should see.
    pub reply: String,
    /// Captured facts. They are flushed off the reply path: delivery must not
    /// wait on the write.
    pub memos: Vec<CapturedMemo>,
    /// Who is writing these facts.
    pub provenance: Provenance,
}

/// Whether `r` is what becomes of a reply: `stripped` is the reply without the
/// facts in it, and those facts.
pub open spec fn finalized(
    m: AgentManifest,
    req: TriggerRequest,
    reply: Seq<char>,
    stripped: (String, Vec<CapturedMemo>),
    r: FinalizeOutcome,
) -> bool {
    if harness_on(m) {
        &&& r.reply@ == stripped.0@
        &&& r.memos@ == if m.assistant->0.memory {
            stripped.1@
        } else {
            Seq::empty()
        }
        &&& written_by(r.provenance, req)
    } else {
        &&& r.reply@ == reply
        &&& r.memos@ == Seq::<CapturedMemo>::empty()
        &&& r.provenance.agent is None && r.provenance.source is None
            && r.provenance.session is None
    }
}

/// Settle a turn. `stripped` is the reply without its capture lines, and the
/// facts those asked to store. With the harness off the reply goes through as
/// it is.
pub fn finalize(
    manifest: &AgentManifest,
    req: &TriggerRequest,
    reply: String,
    stripped: (String, Vec<CapturedMemo>),
) -> (r: FinalizeOutcome)
    ensures
        finalized(*manifest, *req, reply@, stripped, r),
{
    let on = enabled(manifest);
    if !on {
        return FinalizeOutcome {
            reply,
            memos: Vec::new(),
            provenance: Provenance { agent: None, source: None, session: None },
        };
    }
    let memory = match &manifest.assistant {
        Some(a) => a.memory,
        None => false,
    };
    let memos = if memory {
        stripped.1
    } else {
        Vec::new()
    };
    FinalizeOutcome { reply: stripped.0, memos, provenance: provenance(req) }
}

/// The extractor a turn is handed to, if any.
pub fn turn_extractor(manifest: &AgentManifest) -> (r: Option<&ExtractorDecl>)
    ensures
        match r {
            Some(e) => harness_on(*manifest) && manifest.assistant->0.memory
                && manifest.assistant->0.extractor == Some(*e),
            None => !(harness_on(*manifest) && manifest.assistant->0.memory
                && manifest.assistant->0.extractor is Some),
        },
{
    match &manifest.assistant {
        Some(a) => {
            if a.enabled && a.memory {
                match &a.extractor {
                    Some(e) => Some(e),
                    None => None,
                }
            } else {
                None
            }
        },
        None => None,
    }
}

/// Whether a turn leaves anything to do once it was answered: an extractor to
/// run, whether or not the model volunteered anything, or facts to file.
pub fn has_afterwork(extractor: bool, volunteered: usize) -> (r: bool)
    ensures
        r == (extractor || volunteered > 0),
{
    extractor || volunteered > 0
}

// ---------------------------------------------------------------------
// Laws of the harness
// ---------------------------------------------------------------------

/// An agent that does not run under the harness is left as it is: nothing is
/// provisioned or recalled for it, it sees no variable, its reply is delivered as
/// it came, and nothing of it is kept.
pub proof fn without_the_harness_nothing_is_added(
    m: AgentManifest,
    facts: HarnessFacts,
    w: HarnessWants,
    has_record: bool,
    frame: Option<SessionFrame>,
    default_ceiling: u64,
    update: Option<SessionUpdate>,
    req: TriggerRequest,
    reply: Seq<char>,
    stripped: (String, Vec<CapturedMemo>),
    r: FinalizeOutcome,
)
    requires
        m.assistant is None || !m.assistant->0.enabled,
        wants(m, w),
        session_updated(m, has_record, frame, default_ceiling, update),
        finalized(m, req, reply, stripped, r),
    ensures
        !w.toolkit && !w.memory,
        harness_vars(m, facts).len() == 0,
        update is None,
        r.reply@ == reply && r.memos@.len() == 0,
{
}

/// Under the harness an agent gets what its manifest asks for, and each thing it
/// is told is under its own name: the toolkit's path and hash, the session it
/// goes on with, and what memory recalled.
pub proof fn each_variable_tells_its_own_thing(
    m: AgentManifest,
    facts: HarnessFacts,
    w: HarnessWants,
    i: int,
)
    requires
        m.assistant is Some && m.assistant->0.enabled,
        wants(m, w),
    ensures
        w.toolkit == m.assistant->0.toolkit && w.memory == m.assistant->0.memory,
        w.toolkit && facts.toolkit is Some ==> harness_vars(m, facts).contains(
            ("AGENT_ASSISTANT_MCP_CONFIG"@, (facts.toolkit->0).0@),
        ) && harness_vars(m, facts).contains(
            ("AGENT_ASSISTANT_TOOLKIT_HASH"@, (facts.toolkit->0).1@),
        ),
        facts.session is Some ==> harness_vars(m, facts).contains(
            ("AGENT_ASSISTANT_SESSION"@, facts.session->0@),
        ),
        w.memory && facts.memory_block@.len() > 0 ==> harness_vars(m, facts).contains(
            ("AGENT_ASSISTANT_MEMORY"@, facts.memory_block@),
        ),
        0 <= i < harness_vars(m, facts).len() ==> ({
            let v = harness_vars(m, facts)[i];
            ||| w.toolkit && facts.toolkit is Some && v == (
                "AGENT_ASSISTANT_MCP_CONFIG"@,
                (facts.toolkit->0).0@,
            )
            ||| w.toolkit && facts.toolkit is Some && v == (
                "AGENT_ASSISTANT_TOOLKIT_HASH"@,
                (facts.toolkit->0).1@,
            )
            ||| facts.session is Some && v == ("AGENT_ASSISTANT_SESSION"@, facts.session->0@)
            ||| w.memory && facts.memory_block@.len() > 0 && v == (
                "AGENT_ASSISTANT_MEMORY"@,
                facts.memory_block@,
            )
        }),
{
    let all = harness_vars(m, facts);
    let n: int = if w.toolkit && facts.toolkit is Some {
        2
    } else {
        0
    };
    if n == 2 {
        assert(all[0] == ("AGENT_ASSISTANT_MCP_CONFIG"@, (facts.toolkit->0).0@));
        assert(all[1] == ("AGENT_ASSISTANT_TOOLKIT_HASH"@, (facts.toolkit->0).1@));
    }
    if facts.session is Some {
        assert(all[n] == ("AGENT_ASSISTANT_SESSION"@, facts.session->0@));
    }
    if w.memory && facts.memory_block@.len() > 0 {
        assert(all[all.len() - 1] == ("AGENT_ASSISTANT_MEMORY"@, facts.memory_block@));
    }
}

/// A turn is about the text of the trigger's payload.
pub proof fn a_turn_is_about_the_text(payload: Value, text: Seq<char>)
    ensures
        text_member(json_view(payload), "text"@) == Some(text) ==> payload_text(Some(payload))
            == text,
        text_member(json_view(payload), "text"@) is None ==> payload_text(Some(payload)).len() == 0,
        payload_text(None).len() == 0,
{
}

/// Without a session nothing is kept; in one, the record that was found is gone on
/// with, and a fresh one is begun where none could be read.
pub proof fn a_session_goes_on_with_its_record(loaded: Loaded)
    ensures
        record_of(false, loaded) == RecordPlan::Skip,
        record_of(true, Loaded::Found) == RecordPlan::UseLoaded,
        record_of(true, Loaded::Missing) == RecordPlan::Fresh,
        record_of(true, Loaded::Unreadable) == RecordPlan::Fresh,
{
}

/// A session's record gets what the agent last told of its session, and the
/// agent's own ceiling where it has one.
pub proof fn a_record_gets_what_was_told(
    m: AgentManifest,
    frame: SessionFrame,
    default_ceiling: u64,
    r: Option<SessionUpdate>,
    unkept: Option<SessionUpdate>,
    untold: Option<SessionUpdate>,
)
    requires
        m.assistant is Some && m.assistant->0.enabled,
        session_updated(m, true, Some(frame), default_ceiling, r),
        session_updated(m, false, Some(frame), default_ceiling, unkept),
        session_updated(m, true, None, default_ceiling, untold),
    ensures
        r is Some && r->0.claude_session@ == frame.claude_session@ && r->0.transcript_bytes
            == frame.transcript_bytes,
        m.assistant->0.transcript_bytes_max is Some ==> r->0.ceiling
            == m.assistant->0.transcript_bytes_max->0,
        m.assistant->0.transcript_bytes_max is None ==> r->0.ceiling == default_ceiling,
        unkept is None && untold is None,
{
}

/// Under the harness the reply is delivered without the facts in it. They are kept
/// where the agent has memory, as facts of the trigger's own agent, source and
/// session.
pub proof fn facts_are_taken_out_of_the_reply(
    m: AgentManifest,
    req: TriggerRequest,
    reply: Seq<char>,
    stripped: (String, Vec<CapturedMemo>),
    r: FinalizeOutcome,
)
    requires
        m.assistant is Some && m.assistant->0.enabled,
        finalized(m, req, reply, stripped, r),
    ensures
        r.reply@ == stripped.0@,
        m.assistant->0.memory ==> r.memos@ == stripped.1@,
        !m.assistant->0.memory ==> r.memos@.len() == 0,
        r.provenance.agent is Some && r.provenance.agent->0@ == req.agent@,
        r.provenance.source is Some && r.provenance.source->0@ == source_text(req.source),
        req.session_id is Some ==> r.provenance.session is Some && r.provenance.session->0@
            == req.session_id->0@,
        req.session_id is None ==> r.provenance.session is None,
{
}

} // verus!
