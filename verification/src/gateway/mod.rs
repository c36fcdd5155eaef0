//! The trigger gateway: admission policy, per-conversation workers, delivery
//! shaping.
//!
//! The gateway routes triggers to agent runs and applies admission policy
//! (session-id validation, rate limit, session cap). It holds no conversation
//! state beyond queueing: a `session_id` is an opaque string.
//!
//! Messages from one conversation are answered strictly in order; different
//! conversations run concurrently up to the cap.

use crate::local_api::protocol::{is_valid_session_id, session_id_ok};
use crate::table::Table;
use serde_json::Value;
use vstd::prelude::*;

pub mod sink;
pub mod worker;

verus! {

broadcast use vstd::string::group_string_axioms;

/// Pending submits before the producer blocks.
pub const SUBMIT_CHANNEL_DEPTH: usize = 64;

/// Per-conversation queue depth. A conversation flooding past this is rejected
/// rather than blocking every other conversation.
pub const WORKER_QUEUE_DEPTH: usize = 64;

/// How long shutdown lets in-flight workers finish before aborting them.
pub const SHUTDOWN_DRAIN_GRACE_SECONDS: u64 = 5;

/// How long forced cancellation gets before the supervisor aborts workers.
pub const FORCE_SHUTDOWN_GRACE_SECONDS: u64 = 1;

/// Where a trigger came from.
#[derive(Clone, Copy, Debug, PartialEq, Eq, Structural)]
pub enum TriggerSource {
    Telegram,
    Cli,
    Mcp,
    Local,
}

/// The name of a source, as audit entries and the environment carry it.
pub open spec fn source_text(source: TriggerSource) -> Seq<char> {
    match source {
        TriggerSource::Telegram => "telegram"@,
        TriggerSource::Cli => "cli"@,
        TriggerSource::Mcp => "mcp"@,
        TriggerSource::Local => "local"@,
    }
}

impl TriggerSource {
    /// The name of the source.
    pub fn name(self) -> (r: &'static str)
        ensures
            r@ == source_text(self),
    {
        match self {
            TriggerSource::Telegram => "telegram",
            TriggerSource::Cli => "cli",
            TriggerSource::Mcp => "mcp",
            TriggerSource::Local => "local",
        }
    }
}

/// A request to run an agent.
#[derive(Debug)]
pub struct TriggerRequest {
    pub agent: String,
    pub source: TriggerSource,
    pub actor: Option<String>,
    pub session_id: Option<String>,
    pub reply_to: Option<String>,
    pub schedule: Option<String>,
    pub args: Vec<String>,
    pub payload: Option<Value>,
}

impl TriggerRequest {
    /// The slug a triggered run keeps its state under: one per source, so that
    /// an on-demand run never touches a schedule's own state.
    pub fn slug(&self) -> (r: String)
        ensures
            r@ == "trigger-"@ + source_text(self.source),
    {
        let mut out = "trigger-".to_owned();
        out.append(self.source.name());
        out
    }
}

/// Gateway admission policy.
#[derive(Debug, Clone, Copy, PartialEq, Eq)]
pub struct GatewayConfig {
    /// How many live conversations may run at once. Submits for new
    /// conversations beyond this are rejected; existing ones enqueue.
    pub max_concurrent_sessions: usize,
    /// Sliding-window limit for local triggers, per actor. Telegram is limited
    /// by its own ingress, and the other sources are operator-driven.
    pub local_rate_per_minute: u32,
    /// A worker with no messages for this long retires and frees its slot.
    pub worker_idle_timeout_seconds: u64,
}

impl Default for GatewayConfig {
    fn default() -> (r: Self)
        ensures
            r.max_concurrent_sessions == 4,
            r.local_rate_per_minute == 30,
            r.worker_idle_timeout_seconds == 30,
    {
        GatewayConfig {
            max_concurrent_sessions: 4,
            local_rate_per_minute: 30,
            worker_idle_timeout_seconds: 30,
        }
    }
}

// ---------------------------------------------------------------------
// Conversations
// ---------------------------------------------------------------------

/// One conversation: the (source, session) pair a worker serializes.
#[derive(Debug, Clone, PartialEq, Eq)]
pub struct ConversationKey {
    pub source: TriggerSource,
    pub session: String,
}

/// The session half of a request's conversation: its session id, else where it
/// wants the reply, else `"default"`.
pub open spec fn session_of(req: TriggerRequest) -> Seq<char> {
    match req.session_id {
        Some(s) => s@,
        None => match req.reply_to {
            Some(r) => r@,
            None => "default"@,
        },
    }
}

/// The name of a conversation's row in the worker table.
pub open spec fn key_text(source: TriggerSource, session: Seq<char>) -> Seq<char> {
    source_text(source) + ":"@ + session
}

/// Two conversations never share a row: the name tells the source and the
/// session apart.
pub proof fn distinct_conversations_never_share_a_row(
    s1: TriggerSource,
    c1: Seq<char>,
    s2: TriggerSource,
    c2: Seq<char>,
)
    ensures
        key_text(s1, c1) == key_text(s2, c2) ==> s1 == s2 && c1 == c2,
{
    reveal_strlit("telegram");
    reveal_strlit("cli");
    reveal_strlit("mcp");
    reveal_strlit("local");
    reveal_strlit(":");
    let a = key_text(s1, c1);
    let b = key_text(s2, c2);
    let n1 = source_text(s1).len() as int;
    let n2 = source_text(s2).len() as int;
    if a == b {
        assert(a[0] == source_text(s1)[0]);
        assert(b[0] == source_text(s2)[0]);
        assert(s1 == s2);
        assert(a.skip(n1 + 1) =~= c1);
        assert(b.skip(n2 + 1) =~= c2);
    }
}

impl ConversationKey {
    /// The conversation a request belongs to.
    pub fn of(req: &TriggerRequest) -> (r: Self)
        ensures
            r.source == req.source,
            r.session@ == session_of(*req),
    {
        let session = match &req.session_id {
            Some(s) => s.clone(),
            None => match &req.reply_to {
                Some(r) => r.clone(),
                None => "default".to_owned(),
            },
        };
        ConversationKey { source: req.source, session }
    }

    fn row(&self) -> (r: String)
        ensures
            r@ == key_text(self.source, self.session@),
    {
        let mut out = self.source.name().to_owned();
        out.append(":");
        out.append(self.session.as_str());
        out
    }
}

/// Who a local trigger is rate limited as.
pub open spec fn limited_as(req: TriggerRequest) -> Seq<char> {
    match req.actor {
        Some(a) => a@,
        None => session_of(req),
    }
}

/// Rate-limit identity of a local trigger: the attested actor when present,
/// else the session.
pub fn limiter_identity(req: &TriggerRequest) -> (r: String)
    ensures
        r@ == limited_as(*req),
{
    match &req.actor {
        Some(a) => a.clone(),
        None => ConversationKey::of(req).session,
    }
}

// ---------------------------------------------------------------------
// Admission
// ---------------------------------------------------------------------

/// A trigger admitted into a conversation's queue.
#[derive(Debug, Clone, PartialEq, Eq)]
pub struct SubmitAccepted {
    /// The conversation the trigger was routed to.
    pub conversation: ConversationKey,
    /// Live sessions after this submit (including it).
    pub active_sessions: usize,
    /// Jobs already waiting in this conversation's queue ahead of this one.
    pub queued_behind: usize,
}

/// Why a trigger did not enter the gateway.
#[derive(Debug, Clone, Copy, PartialEq, Eq, Structural)]
pub enum SubmitRejected {
    /// The local source exceeded its per-minute limit.
    RateLimited { per_minute: u32 },
    /// A new conversation arrived while the cap's worth of workers are live.
    CapExceeded { active: usize, max: usize },
    /// `session_id` failed validation: ids are passed through verbatim, so a
    /// dirty one is refused rather than sanitized.
    InvalidSessionId,
    /// The conversation's queue is full.
    QueueFull { depth: usize },
    /// The supervisor is gone or shutting down; nobody would answer.
    Unavailable,
}

/// The wording of a rejection.
pub open spec fn rejection_reason(r: SubmitRejected) -> Seq<char> {
    match r {
        SubmitRejected::RateLimited { .. } => "rate limit exceeded"@,
        SubmitRejected::CapExceeded { .. } => "session cap reached"@,
        SubmitRejected::InvalidSessionId => "invalid session id"@,
        SubmitRejected::QueueFull { .. } => "conversation queue full"@,
        SubmitRejected::Unavailable => "gateway unavailable"@,
    }
}

impl SubmitRejected {
    /// Stable wording for the audit log and warnings.
    pub fn reason(&self) -> (r: &'static str)
        ensures
            r@ == rejection_reason(*self),
    {
        match self {
            SubmitRejected::RateLimited { .. } => "rate limit exceeded",
            SubmitRejected::CapExceeded { .. } => "session cap reached",
            SubmitRejected::InvalidSessionId => "invalid session id",
            SubmitRejected::QueueFull { .. } => "conversation queue full",
            SubmitRejected::Unavailable => "gateway unavailable",
        }
    }
}

/// The audit entry of a trigger that arrived.
#[derive(Debug, PartialEq, Eq)]
pub struct TriggerReceived {
    pub source: String,
    pub actor: String,
    pub reply_to: String,
}

/// The audit entry of a trigger that was refused.
#[derive(Debug, PartialEq, Eq)]
pub struct TriggerRejected {
    pub source: String,
    pub actor: String,
    pub reason: String,
}

/// An optional text, empty when absent.
pub open spec fn or_empty(s: Option<String>) -> Seq<char> {
    match s {
        Some(t) => t@,
        None => Seq::empty(),
    }
}

fn text_or_empty(s: &Option<String>) -> (r: String)
    ensures
        r@ == or_empty(*s),
{
    match s {
        Some(t) => t.clone(),
        None => String::new(),
    }
}

/// Whether `r` is what is audited of a trigger that arrived.
pub open spec fn received_as(req: TriggerRequest, r: TriggerReceived) -> bool {
    &&& r.source@ == source_text(req.source)
    &&& r.actor@ == or_empty(req.actor)
    &&& r.reply_to@ == or_empty(req.reply_to)
}

/// Whether `r` is what is audited of a trigger that was turned away.
pub open spec fn rejected_as(
    req: TriggerRequest,
    rejection: SubmitRejected,
    r: TriggerRejected,
) -> bool {
    &&& r.source@ == source_text(req.source)
    &&& r.actor@ == or_empty(req.actor)
    &&& r.reason@ == rejection_reason(rejection)
}

/// What is audited when a trigger is admitted.
pub fn received_entry(req: &TriggerRequest) -> (r: TriggerReceived)
    ensures
        received_as(*req, r),
{
    TriggerReceived {
        source: req.source.name().to_owned(),
        actor: text_or_empty(&req.actor),
        reply_to: text_or_empty(&req.reply_to),
    }
}

/// What is audited when a trigger is refused.
pub fn rejected_entry(req: &TriggerRequest, rejection: &SubmitRejected) -> (r: TriggerRejected)
    ensures
        rejected_as(*req, *rejection, r),
{
    TriggerRejected {
        source: req.source.name().to_owned(),
        actor: text_or_empty(&req.actor),
        reason: rejection.reason().to_owned(),
    }
}

/// The queue of the worker a conversation has, as its channel reports it.
#[derive(Clone, Copy, Debug, PartialEq, Eq, Structural)]
pub enum WorkerQueue {
    /// `waiting` jobs wait and `free` more fit.
    Open { waiting: usize, free: usize },
    /// The worker died: nothing will ever drain this queue.
    Closed,
}

/// The row of a live worker.
#[derive(Clone, Copy, Debug, PartialEq, Eq, Structural)]
pub struct WorkerSlot {
    /// Which worker it is.
    pub worker: u64,
    /// It stopped accepting and drains what it has.
    pub retiring: bool,
}

/// What the outside knows when a submit is decided. `within_rate` counts only
/// where [`Supervisor::asks_rate`] says the limiter is asked, `recorded` only
/// where [`Supervisor::asks_record`] says the audit entry is appended.
#[derive(Clone, Copy, Debug, PartialEq, Eq, Structural)]
pub struct SubmitFacts {
    pub shutting_down: bool,
    pub within_rate: bool,
    pub recorded: bool,
    /// The queue of the conversation's worker, when it has one.
    pub queue: WorkerQueue,
    /// The name of a worker to start, if one is started.
    pub fresh_worker: u64,
}

/// An admitted submit: put the job on the conversation's queue.
#[derive(Debug, PartialEq, Eq)]
pub struct Admitted {
    pub accepted: SubmitAccepted,
    /// Start a worker for the conversation first.
    pub spawn: bool,
}

/// What putting an admitted job on its queue came to.
#[derive(Clone, Copy, Debug, PartialEq, Eq, Structural)]
pub enum Enqueued {
    Done,
    Full,
    Closed,
}

/// Whether the session id of a request, if it has one, is valid.
pub open spec fn session_valid(req: TriggerRequest) -> bool {
    match req.session_id {
        Some(s) => session_id_ok(s@),
        None => true,
    }
}

/// Whether the local rate limiter is asked about a request.
pub open spec fn rate_asked(req: TriggerRequest, shutting_down: bool) -> bool {
    !shutting_down && session_valid(req) && req.source == TriggerSource::Local
}

/// Whether a request that came this far is recorded as received.
pub open spec fn record_asked(req: TriggerRequest, shutting_down: bool, within_rate: bool) -> bool {
    !shutting_down && session_valid(req) && (req.source == TriggerSource::Local ==> within_rate)
}

/// The decision on a request before it is routed: the first of these that
/// applies.
pub open spec fn turned_away(
    req: TriggerRequest,
    config: GatewayConfig,
    facts: SubmitFacts,
) -> Option<SubmitRejected> {
    if facts.shutting_down {
        Some(SubmitRejected::Unavailable)
    } else if !session_valid(req) {
        Some(SubmitRejected::InvalidSessionId)
    } else if req.source == TriggerSource::Local && !facts.within_rate {
        Some(SubmitRejected::RateLimited { per_minute: config.local_rate_per_minute })
    } else if !facts.recorded {
        Some(SubmitRejected::Unavailable)
    } else {
        None
    }
}

/// The worker table with the row of a dead worker dropped: a queue nobody
/// drains heals on the conversation's next submit.
pub open spec fn healed(
    rows: Map<Seq<char>, WorkerSlot>,
    key: Seq<char>,
    queue: WorkerQueue,
) -> Map<Seq<char>, WorkerSlot> {
    if rows.dom().contains(key) && queue == WorkerQueue::Closed {
        rows.remove(key)
    } else {
        rows
    }
}

/// What routing a request that was not turned away decides.
pub open spec fn routed(
    rows: Map<Seq<char>, WorkerSlot>,
    key: Seq<char>,
    config: GatewayConfig,
    facts: SubmitFacts,
) -> Result<(bool, nat, nat), SubmitRejected> {
    let after = healed(rows, key, facts.queue);
    if rows.dom().contains(key) && rows[key].retiring {
        Err(SubmitRejected::Unavailable)
    } else if after.dom().contains(key) {
        match facts.queue {
            WorkerQueue::Open { waiting, free } => if free == 0 {
                Err(SubmitRejected::QueueFull { depth: WORKER_QUEUE_DEPTH })
            } else {
                Ok((false, after.dom().len(), waiting as nat))
            },
            WorkerQueue::Closed => Err(SubmitRejected::Unavailable),
        }
    } else if after.dom().len() >= config.max_concurrent_sessions {
        Err(
            SubmitRejected::CapExceeded {
                active: after.dom().len() as usize,
                max: config.max_concurrent_sessions,
            },
        )
    } else {
        Ok((true, after.dom().len() + 1, 0))
    }
}

/// Whether a submit is decided right: the rows `before` and `after` it, and what
/// is answered.
pub open spec fn submit_right(
    before: Map<Seq<char>, WorkerSlot>,
    after: Map<Seq<char>, WorkerSlot>,
    config: GatewayConfig,
    req: TriggerRequest,
    facts: SubmitFacts,
    r: Result<Admitted, SubmitRejected>,
) -> bool {
    match turned_away(req, config, facts) {
        Some(rejection) => r == Err::<Admitted, SubmitRejected>(rejection) && after == before,
        None => {
            let key = key_text(req.source, session_of(req));
            let kept = if before.dom().contains(key) && before[key].retiring {
                before
            } else {
                healed(before, key, facts.queue)
            };
            match routed(before, key, config, facts) {
                Err(rejection) => r == Err::<Admitted, SubmitRejected>(rejection) && after == kept,
                Ok((spawn, active, behind)) => {
                    &&& r matches Ok(a)
                    &&& a.spawn == spawn
                    &&& a.accepted.conversation.source == req.source
                    &&& a.accepted.conversation.session@ == session_of(req)
                    &&& a.accepted.active_sessions == active
                    &&& a.accepted.queued_behind == behind
                    &&& after == if spawn {
                        kept.insert(
                            key,
                            (WorkerSlot { worker: facts.fresh_worker, retiring: false }),
                        )
                    } else {
                        kept
                    }
                },
            }
        },
    }
}

/// Whether what the queue said of an admitted trigger is answered right.
pub open spec fn enqueued_right(
    before: Map<Seq<char>, WorkerSlot>,
    after: Map<Seq<char>, WorkerSlot>,
    accepted: SubmitAccepted,
    enqueued: Enqueued,
    r: Result<SubmitAccepted, SubmitRejected>,
) -> bool {
    match enqueued {
        Enqueued::Done => r == Ok::<SubmitAccepted, SubmitRejected>(accepted) && after == before,
        Enqueued::Full => r == Err::<SubmitAccepted, SubmitRejected>(
            SubmitRejected::QueueFull { depth: WORKER_QUEUE_DEPTH },
        ) && after == before,
        Enqueued::Closed => r == Err::<SubmitAccepted, SubmitRejected>(SubmitRejected::Unavailable)
            && after == before.remove(
            key_text(accepted.conversation.source, accepted.conversation.session@),
        ),
    }
}

/// The rows once `worker` has begun to retire from the row `k`.
pub open spec fn retiring_in(
    rows: Map<Seq<char>, WorkerSlot>,
    k: Seq<char>,
    worker: u64,
) -> Map<Seq<char>, WorkerSlot> {
    if rows.dom().contains(k) && rows[k].worker == worker {
        rows.insert(k, (WorkerSlot { worker, retiring: true }))
    } else {
        rows
    }
}

/// The rows once `worker` has retired from the row `k`.
pub open spec fn retired_from(
    rows: Map<Seq<char>, WorkerSlot>,
    k: Seq<char>,
    worker: u64,
) -> Map<Seq<char>, WorkerSlot> {
    if rows.dom().contains(k) && rows[k] == (WorkerSlot { worker, retiring: true }) {
        rows.remove(k)
    } else {
        rows
    }
}

/// Owns the conversation table and the admission policy.
pub struct Supervisor {
    config: GatewayConfig,
    workers: Table<WorkerSlot>,
}

impl Supervisor {
    /// The admission policy.
    pub closed spec fn config(&self) -> GatewayConfig {
        self.config
    }

    /// The live workers, by conversation.
    pub closed spec fn rows(&self) -> Map<Seq<char>, WorkerSlot> {
        self.workers@
    }

    #[verifier::type_invariant]
    spec fn within_the_cap(self) -> bool {
        &&& self.workers@.dom().finite()
        &&& self.workers@.dom().len() <= self.config.max_concurrent_sessions
    }

    /// No conversation yet.
    pub fn new(config: GatewayConfig) -> (r: Self)
        ensures
            r.config() == config,
            r.rows() == Map::<Seq<char>, WorkerSlot>::empty(),
    {
        Supervisor { config, workers: Table::new() }
    }

    /// How many conversations are live. There are never more than the cap.
    pub fn active(&self) -> (n: usize)
        ensures
            n == self.rows().dom().len(),
            n <= self.config().max_concurrent_sessions,
    {
        proof {
            use_type_invariant(self);
        }
        self.workers.len()
    }

    /// Whether the local rate limiter is asked about `req`.
    pub fn asks_rate(&self, req: &TriggerRequest, shutting_down: bool) -> (r: bool)
        ensures
            r == rate_asked(*req, shutting_down),
    {
        if shutting_down {
            return false;
        }
        let valid = match &req.session_id {
            Some(s) => is_valid_session_id(s.as_str()),
            None => true,
        };
        valid && req.source == TriggerSource::Local
    }

    /// Whether `req` is recorded as received. A trigger that cannot be
    /// accounted for must not execute, so this comes before anything enqueues.
    pub fn asks_record(
        &self,
        req: &TriggerRequest,
        shutting_down: bool,
        within_rate: bool,
    ) -> (r: bool)
        ensures
            r == record_asked(*req, shutting_down, within_rate),
    {
        if shutting_down {
            return false;
        }
        let valid = match &req.session_id {
            Some(s) => is_valid_session_id(s.as_str()),
            None => true,
        };
        valid && (req.source != TriggerSource::Local || within_rate)
    }

    /// Decide one submit.
    ///
    /// In this order: shutdown, the session id, the local rate limit, the
    /// audit record; then the conversation's worker: a retiring one refuses, a
    /// dead one is forgotten, a full one refuses, and a new conversation is
    /// refused over the cap.
    pub fn handle_submit(&mut self, req: &TriggerRequest, facts: SubmitFacts) -> (r: Result<
        Admitted,
        SubmitRejected,
    >)
        ensures
            final(self).config() == old(self).config(),
            submit_right(old(self).rows(), final(self).rows(), old(self).config(), *req, facts, r),
    {
        if facts.shutting_down {
            return Err(SubmitRejected::Unavailable);
        }
        if let Some(sid) = &req.session_id {
            if !is_valid_session_id(sid.as_str()) {
                return Err(SubmitRejected::InvalidSessionId);
            }
        }
        if req.source == TriggerSource::Local && !facts.within_rate {
            return Err(
                SubmitRejected::RateLimited { per_minute: self.config.local_rate_per_minute },
            );
        }
        if !facts.recorded {
            return Err(SubmitRejected::Unavailable);
        }
        let conversation = ConversationKey::of(req);
        let row = conversation.row();
        proof {
            use_type_invariant(&*self);
        }
        let slot: Option<WorkerSlot> = match self.workers.get(row.as_str()) {
            Some(s) => Some(*s),
            None => None,
        };
        let mut live = false;
        if let Some(s) = slot {
            if s.retiring {
                return Err(SubmitRejected::Unavailable);
            }
            live = true;
        }
        match facts.queue {
            WorkerQueue::Closed => {
                if live {
                    self.remove_row(row.as_str());
                    live = false;
                }
            },
            WorkerQueue::Open { .. } => {},
        }
        if live {
            match facts.queue {
                WorkerQueue::Open { waiting, free } => {
                    if free == 0 {
                        return Err(SubmitRejected::QueueFull { depth: WORKER_QUEUE_DEPTH });
                    }
                    let active = self.workers.len();
                    Ok(
                        Admitted {
                            accepted: SubmitAccepted {
                                conversation,
                                active_sessions: active,
                                queued_behind: waiting,
                            },
                            spawn: false,
                        },
                    )
                },
                WorkerQueue::Closed => Err(SubmitRejected::Unavailable),
            }
        } else {
            let active = self.workers.len();
            if active >= self.config.max_concurrent_sessions {
                return Err(
                    SubmitRejected::CapExceeded {
                        active,
                        max: self.config.max_concurrent_sessions,
                    },
                );
            }
            self.put_row(
                row.as_str(),
                WorkerSlot { worker: facts.fresh_worker, retiring: false },
            );
            Ok(
                Admitted {
                    accepted: SubmitAccepted {
                        conversation,
                        active_sessions: active + 1,
                        queued_behind: 0,
                    },
                    spawn: true,
                },
            )
        }
    }

    fn put_row(&mut self, row: &str, slot: WorkerSlot)
        requires
            old(self).rows().dom().finite(),
            old(self).rows().dom().insert(row@).len() <= old(
                self,
            ).config().max_concurrent_sessions,
        ensures
            final(self).config() == old(self).config(),
            final(self).rows() == old(self).rows().insert(row@, slot),
    {
        let ghost before = self.workers@;
        proof {
            assert(before.insert(row@, slot).dom() =~= before.dom().insert(row@));
        }
        let mut rows: Table<WorkerSlot> = Table::new();
        core::mem::swap(&mut self.workers, &mut rows);
        rows.insert(row, slot);
        core::mem::swap(&mut self.workers, &mut rows);
    }

    /// The admitted job was put on its queue, or could not be. A worker that
    /// died between the decision and the queue loses its row.
    pub fn after_enqueue(&mut self, accepted: SubmitAccepted, enqueued: Enqueued) -> (r: Result<
        SubmitAccepted,
        SubmitRejected,
    >)
        ensures
            final(self).config() == old(self).config(),
            enqueued_right(old(self).rows(), final(self).rows(), accepted, enqueued, r),
    {
        match enqueued {
            Enqueued::Done => Ok(accepted),
            Enqueued::Full => Err(SubmitRejected::QueueFull { depth: WORKER_QUEUE_DEPTH }),
            Enqueued::Closed => {
                let row = accepted.conversation.row();
                self.remove_row(row.as_str());
                Err(SubmitRejected::Unavailable)
            },
        }
    }

    fn remove_row(&mut self, row: &str)
        ensures
            final(self).config() == old(self).config(),
            final(self).rows() == old(self).rows().remove(row@),
    {
        proof {
            use_type_invariant(&*self);
        }
        let ghost before = self.workers@;
        proof {
            assert(before.remove(row@).dom() =~= before.dom().remove(row@));
        }
        let mut rows: Table<WorkerSlot> = Table::new();
        core::mem::swap(&mut self.workers, &mut rows);
        let _ = rows.remove(row);
        core::mem::swap(&mut self.workers, &mut rows);
    }

    /// Stop: forget every conversation, so that each worker's queue closes.
    pub fn close(&mut self)
        ensures
            final(self).config() == old(self).config(),
            final(self).rows() == Map::<Seq<char>, WorkerSlot>::empty(),
    {
        let mut rows: Table<WorkerSlot> = Table::new();
        core::mem::swap(&mut self.workers, &mut rows);
    }

    /// A worker went idle: its row, if it is still its own, stops accepting.
    /// Submits from here on are refused instead of being accepted into a
    /// worker that is about to exit.
    pub fn begin_retirement(&mut self, key: &ConversationKey, worker: u64)
        ensures
            final(self).config() == old(self).config(),
            final(self).rows() == retiring_in(
                old(self).rows(),
                key_text(key.source, key.session@),
                worker,
            ),
    {
        proof {
            use_type_invariant(&*self);
        }
        let row = key.row();
        let slot: Option<WorkerSlot> = match self.workers.get(row.as_str()) {
            Some(s) => Some(*s),
            None => None,
        };
        if let Some(s) = slot {
            if s.worker == worker {
                proof {
                    assert(self.workers@.dom().insert(row@) =~= self.workers@.dom());
                }
                self.put_row(row.as_str(), WorkerSlot { worker, retiring: true });
            }
        }
    }

    /// A retiring worker drained: its row goes, if it is still its own, and
    /// the conversation's slot is free.
    pub fn finish_retirement(&mut self, key: &ConversationKey, worker: u64)
        ensures
            final(self).config() == old(self).config(),
            final(self).rows() == retired_from(
                old(self).rows(),
                key_text(key.source, key.session@),
                worker,
            ),
    {
        let row = key.row();
        let slot: Option<WorkerSlot> = match self.workers.get(row.as_str()) {
            Some(s) => Some(*s),
            None => None,
        };
        if let Some(s) = slot {
            if s.retiring && s.worker == worker {
                self.remove_row(row.as_str());
            }
        }
    }
}

// ---------------------------------------------------------------------
// The supervisor's loop, and how it ends
// ---------------------------------------------------------------------

/// What the supervisor woke up for.
#[derive(Clone, Copy, Debug, PartialEq, Eq, Structural)]
pub enum SupervisorEvent {
    /// A submit arrived.
    Submit,
    /// Nobody can submit any more.
    HandlesGone,
    /// The embedder asked it to stop.
    Shutdown,
    /// A worker returned or died.
    WorkerEnded,
}

/// What the supervisor does next.
#[derive(Clone, Copy, Debug, PartialEq, Eq, Structural)]
pub enum SupervisorStep {
    /// Decide the submit, then wait again.
    Decide,
    /// Wait again. A worker that died is contained: its conversation heals on
    /// the next submit.
    GoOn,
    /// Stop admitting, and drain.
    Drain,
}

/// What an event makes the supervisor do.
pub open spec fn step_for(event: SupervisorEvent) -> SupervisorStep {
    match event {
        SupervisorEvent::Submit => SupervisorStep::Decide,
        SupervisorEvent::WorkerEnded => SupervisorStep::GoOn,
        _ => SupervisorStep::Drain,
    }
}

/// What the supervisor does about an event.
pub fn supervisor_step(event: SupervisorEvent) -> (r: SupervisorStep)
    ensures
        r == step_for(event),
{
    match event {
        SupervisorEvent::Submit => SupervisorStep::Decide,
        SupervisorEvent::WorkerEnded => SupervisorStep::GoOn,
        SupervisorEvent::HandlesGone => SupervisorStep::Drain,
        SupervisorEvent::Shutdown => SupervisorStep::Drain,
    }
}

/// Where a shutdown stands.
#[derive(Clone, Copy, Debug, PartialEq, Eq, Structural)]
pub enum DrainStage {
    /// Workers finish what they run, for [`SHUTDOWN_DRAIN_GRACE_SECONDS`].
    Draining,
    /// Workers were told to abort what they run, and have
    /// [`FORCE_SHUTDOWN_GRACE_SECONDS`] to do it.
    Forcing,
    /// The workers themselves are aborted and joined.
    Aborting,
    /// No worker is left.
    Stopped,
}

/// What ended a stage of a shutdown.
#[derive(Clone, Copy, Debug, PartialEq, Eq, Structural)]
pub enum DrainSignal {
    /// The last worker is gone.
    WorkersGone,
    /// The stage's grace is over.
    GraceOver,
}

/// The stage of a shutdown that follows.
pub open spec fn next_drain(stage: DrainStage, signal: DrainSignal) -> DrainStage {
    match signal {
        DrainSignal::WorkersGone => DrainStage::Stopped,
        DrainSignal::GraceOver => match stage {
            DrainStage::Draining => DrainStage::Forcing,
            DrainStage::Forcing => DrainStage::Aborting,
            DrainStage::Aborting => DrainStage::Stopped,
            DrainStage::Stopped => DrainStage::Stopped,
        },
    }
}

/// Go on with a shutdown.
pub fn drain_step(stage: DrainStage, signal: DrainSignal) -> (r: DrainStage)
    ensures
        r == next_drain(stage, signal),
{
    match signal {
        DrainSignal::WorkersGone => DrainStage::Stopped,
        DrainSignal::GraceOver => match stage {
            DrainStage::Draining => DrainStage::Forcing,
            DrainStage::Forcing => DrainStage::Aborting,
            DrainStage::Aborting => DrainStage::Stopped,
            DrainStage::Stopped => DrainStage::Stopped,
        },
    }
}

/// The stage of a shutdown after a list of signals.
pub open spec fn drain_after(stage: DrainStage, signals: Seq<DrainSignal>) -> DrainStage
    decreases signals.len(),
{
    if signals.len() == 0 {
        stage
    } else {
        next_drain(drain_after(stage, signals.drop_last()), signals.last())
    }
}

// ---------------------------------------------------------------------
// Laws
// ---------------------------------------------------------------------

/// A shutdown ends, whatever the workers do: after three signals no worker is
/// left, and one that is gone never comes back.
pub proof fn a_shutdown_ends(signals: Seq<DrainSignal>)
    requires
        signals.len() >= 3,
    ensures
        drain_after(DrainStage::Draining, signals) == DrainStage::Stopped,
    decreases signals.len(),
{
    if signals.len() > 3 {
        a_shutdown_ends(signals.drop_last());
    } else {
        let two = signals.drop_last();
        let one = two.drop_last();
        let none = one.drop_last();
        assert(none =~= Seq::<DrainSignal>::empty());
        assert(drain_after(DrainStage::Draining, none) == DrainStage::Draining);
        assert(drain_after(DrainStage::Draining, one) == next_drain(
            DrainStage::Draining,
            one.last(),
        ));
        assert(drain_after(DrainStage::Draining, two) == next_drain(
            drain_after(DrainStage::Draining, one),
            two.last(),
        ));
    }
}

/// A run is aborted only after the workers had their grace to finish it.
pub proof fn nothing_is_forced_before_its_grace(signals: Seq<DrainSignal>)
    requires
        drain_after(DrainStage::Draining, signals) == DrainStage::Forcing || drain_after(
            DrainStage::Draining,
            signals,
        ) == DrainStage::Aborting,
    ensures
        signals.len() > 0,
        signals[0] == DrainSignal::GraceOver,
    decreases signals.len(),
{
    if signals.len() > 0 {
        let head = signals.drop_last();
        if head.len() > 0 {
            nothing_is_forced_before_its_grace(head);
        } else {
            assert(head =~= Seq::<DrainSignal>::empty());
        }
    }
}

/// A trigger is never admitted unless it was recorded: with no audit entry
/// nothing executes.
pub proof fn nothing_unrecorded_is_admitted(
    req: TriggerRequest,
    config: GatewayConfig,
    facts: SubmitFacts,
)
    requires
        turned_away(req, config, facts) is None,
    ensures
        facts.recorded,
        !facts.shutting_down,
        session_valid(req),
        req.source == TriggerSource::Local ==> facts.within_rate,
{
}

/// The gateway's limiter is for local triggers only: the verdict makes no
/// difference to any other source.
pub proof fn other_sources_are_not_limited_here(
    req: TriggerRequest,
    config: GatewayConfig,
    facts: SubmitFacts,
)
    requires
        req.source != TriggerSource::Local,
    ensures
        turned_away(req, config, facts) == turned_away(
            req,
            config,
            (SubmitFacts { within_rate: true, ..facts }),
        ),
        !rate_asked(req, facts.shutting_down),
{
}

/// An open conversation is never refused for the cap: only a new one is.
pub proof fn the_cap_is_for_new_conversations(
    rows: Map<Seq<char>, WorkerSlot>,
    key: Seq<char>,
    config: GatewayConfig,
    facts: SubmitFacts,
)
    requires
        rows.dom().contains(key),
        facts.queue != WorkerQueue::Closed,
    ensures
        !(routed(rows, key, config, facts) matches Err(SubmitRejected::CapExceeded { .. })),
{
}

/// While a worker drains, its conversation is refused; once it is gone the
/// next submit starts a fresh worker, if there is room.
pub proof fn a_retiring_conversation_waits_for_its_drain(
    rows: Map<Seq<char>, WorkerSlot>,
    key: Seq<char>,
    config: GatewayConfig,
    facts: SubmitFacts,
)
    requires
        rows.dom().finite(),
        rows.dom().contains(key),
        rows[key].retiring,
        rows.dom().len() <= config.max_concurrent_sessions,
    ensures
        routed(rows, key, config, facts) == Err::<(bool, nat, nat), SubmitRejected>(
            SubmitRejected::Unavailable,
        ),
        routed(rows.remove(key), key, config, facts) matches Ok(a) && a.0,
{
    assert(rows.remove(key).dom() =~= rows.dom().remove(key));
}

// ---------------------------------------------------------------------
// Laws of admission
// ---------------------------------------------------------------------

/// A trigger belongs to the conversation it names; one that names none, to where
/// it is answered; and one without either, to the default. It is limited as its
/// sender's, and as its conversation's where the sender is not known.
pub proof fn a_trigger_belongs_to_its_conversation(req: TriggerRequest)
    ensures
        req.session_id is Some ==> session_of(req) == req.session_id->0@,
        req.session_id is None && req.reply_to is Some ==> session_of(req) == req.reply_to->0@,
        req.session_id is None && req.reply_to is None ==> session_of(req) == "default"@,
        req.actor is Some ==> limited_as(req) == req.actor->0@,
        req.actor is None ==> limited_as(req) == session_of(req),
{
}

/// What is audited of a trigger is its source, its sender and where it is
/// answered, or why it was turned away; every cause has its own words.
pub proof fn a_trigger_is_audited_as_it_came(
    req: TriggerRequest,
    rejection: SubmitRejected,
    other: SubmitRejected,
    received: TriggerReceived,
    rejected: TriggerRejected,
)
    requires
        received_as(req, received),
        rejected_as(req, rejection, rejected),
    ensures
        received.source@ == source_text(req.source) && rejected.source@ == source_text(req.source),
        req.actor is Some ==> received.actor@ == req.actor->0@ && rejected.actor@ == req.actor->0@,
        req.actor is None ==> received.actor@.len() == 0 && rejected.actor@.len() == 0,
        req.reply_to is Some ==> received.reply_to@ == req.reply_to->0@,
        req.reply_to is None ==> received.reply_to@.len() == 0,
        rejected.reason@ == rejection_reason(other) ==> ({
            &&& rejection is RateLimited <==> other is RateLimited
            &&& rejection is CapExceeded <==> other is CapExceeded
            &&& rejection is InvalidSessionId <==> other is InvalidSessionId
            &&& rejection is QueueFull <==> other is QueueFull
            &&& rejection is Unavailable <==> other is Unavailable
        }),
{
    reveal_strlit("rate limit exceeded");
    reveal_strlit("session cap reached");
    reveal_strlit("invalid session id");
    reveal_strlit("conversation queue full");
    reveal_strlit("gateway unavailable");
    assert("rate limit exceeded"@[0] == 'r' && "session cap reached"@[0] == 's'
        && "invalid session id"@[0] == 'i' && "conversation queue full"@[0] == 'c'
        && "gateway unavailable"@[0] == 'g');
}

/// A trigger is turned away for the first cause that holds: a shutdown, a session
/// id that is none, a local sender over the limit, and an audit log that could
/// not be written; the limit that is told is the configured one.
pub proof fn a_trigger_is_turned_away_for_its_cause(
    before: Map<Seq<char>, WorkerSlot>,
    after: Map<Seq<char>, WorkerSlot>,
    config: GatewayConfig,
    req: TriggerRequest,
    facts: SubmitFacts,
    r: Result<Admitted, SubmitRejected>,
)
    requires
        submit_right(before, after, config, req, facts, r),
    ensures
        facts.shutting_down ==> r is Err && r->Err_0 is Unavailable && after == before,
        !facts.shutting_down && !session_valid(req) ==> r is Err && r->Err_0 is InvalidSessionId
            && after == before,
        !facts.shutting_down && session_valid(req) && req.source == TriggerSource::Local
            && !facts.within_rate ==> r is Err && r->Err_0 == (SubmitRejected::RateLimited {
            per_minute: config.local_rate_per_minute,
        }) && after == before,
        r is Ok ==> facts.recorded && !facts.shutting_down && session_valid(req),
        r is Err && r->Err_0 is RateLimited ==> req.source == TriggerSource::Local
            && !facts.within_rate,
        r is Err && r->Err_0 is InvalidSessionId ==> !session_valid(req),
{
}

/// A trigger that is admitted joins its own conversation: behind the jobs that
/// wait there, or with a fresh worker where nobody serves it and there is room.
/// No other conversation is touched, and how many are live is told as it is.
pub proof fn an_admitted_trigger_joins_its_conversation(
    before: Map<Seq<char>, WorkerSlot>,
    after: Map<Seq<char>, WorkerSlot>,
    config: GatewayConfig,
    req: TriggerRequest,
    facts: SubmitFacts,
    r: Result<Admitted, SubmitRejected>,
    other: Seq<char>,
)
    requires
        submit_right(before, after, config, req, facts, r),
        before.dom().finite(),
        before.dom().len() <= config.max_concurrent_sessions,
        r is Ok,
    ensures
        ({
            let key = key_text(req.source, session_of(req));
            let a = r->Ok_0;
            &&& a.accepted.conversation.source == req.source
            &&& a.accepted.conversation.session@ == session_of(req)
            &&& after.dom().contains(key) && !after[key].retiring
            &&& a.spawn <==> !before.dom().contains(key) || facts.queue == WorkerQueue::Closed
            &&& a.spawn ==> after[key].worker == facts.fresh_worker && a.accepted.queued_behind
                == 0
            &&& !a.spawn ==> after == before && (facts.queue matches WorkerQueue::Open {
                waiting,
                free,
            } && free > 0 && a.accepted.queued_behind == waiting)
            &&& a.accepted.active_sessions == after.dom().len()
            &&& a.accepted.active_sessions <= config.max_concurrent_sessions
            &&& other != key ==> after.dom().contains(other) == before.dom().contains(other)
            &&& other != key && before.dom().contains(other) ==> after[other] == before[other]
        }),
{
    let key = key_text(req.source, session_of(req));
    let kept = healed(before, key, facts.queue);
    assert(before.remove(key).dom() =~= before.dom().remove(key));
    let slot = WorkerSlot { worker: facts.fresh_worker, retiring: false };
    assert(kept.insert(key, slot).dom() =~= kept.dom().insert(key));
}

/// A new conversation is refused exactly when as many as configured are live, and
/// is told both numbers; a queue that is full is told how deep it is.
pub proof fn a_full_house_is_told_as_it_is(
    before: Map<Seq<char>, WorkerSlot>,
    after: Map<Seq<char>, WorkerSlot>,
    config: GatewayConfig,
    req: TriggerRequest,
    facts: SubmitFacts,
    r: Result<Admitted, SubmitRejected>,
)
    requires
        submit_right(before, after, config, req, facts, r),
        turned_away(req, config, facts) is None,
        before.dom().finite(),
        before.dom().len() <= config.max_concurrent_sessions,
    ensures
        ({
            let key = key_text(req.source, session_of(req));
            &&& !before.dom().contains(key) ==> (r is Err <==> before.dom().len()
                == config.max_concurrent_sessions)
            &&& !before.dom().contains(key) && r is Err ==> r->Err_0 == (
            SubmitRejected::CapExceeded {
                active: config.max_concurrent_sessions,
                max: config.max_concurrent_sessions,
            }) && after == before
            &&& before.dom().contains(key) && !before[key].retiring ==> (facts.queue matches
                WorkerQueue::Open { free, .. } ==> (r is Err <==> free == 0) && (r is Err
                ==> r->Err_0 == (SubmitRejected::QueueFull { depth: 64 })) && after == before)
            &&& before.dom().contains(key) && before[key].retiring ==> r is Err && r->Err_0
                is Unavailable && after == before
        }),
{
}

/// Once a job is in its queue the answer stands; a queue that filled up or went
/// away refuses it after all, and only a queue that went away frees its row.
pub proof fn only_a_queued_job_is_accepted(
    before: Map<Seq<char>, WorkerSlot>,
    after: Map<Seq<char>, WorkerSlot>,
    accepted: SubmitAccepted,
    enqueued: Enqueued,
    r: Result<SubmitAccepted, SubmitRejected>,
    other: Seq<char>,
)
    requires
        enqueued_right(before, after, accepted, enqueued, r),
    ensures
        r is Ok <==> enqueued is Done,
        r is Ok ==> r->Ok_0 == accepted,
        enqueued is Full ==> r->Err_0 is QueueFull && after == before,
        enqueued is Closed ==> r->Err_0 is Unavailable && !after.dom().contains(
            key_text(accepted.conversation.source, accepted.conversation.session@),
        ),
        other != key_text(accepted.conversation.source, accepted.conversation.session@)
            ==> after.dom().contains(other) == before.dom().contains(other),
{
}

/// Only the worker that serves a row retires from it, and only once it began to:
/// a worker that was replaced frees nothing. A row that is freed is free, and
/// every other row is as it was.
pub proof fn only_its_own_worker_frees_a_row(
    rows: Map<Seq<char>, WorkerSlot>,
    k: Seq<char>,
    worker: u64,
    other: Seq<char>,
)
    requires
        rows.dom().contains(k),
    ensures
        rows[k].worker != worker ==> retiring_in(rows, k, worker) == rows && retired_from(
            rows,
            k,
            worker,
        ) == rows,
        rows[k].worker == worker ==> retiring_in(rows, k, worker)[k].retiring && retiring_in(
            rows,
            k,
            worker,
        )[k].worker == worker && !retired_from(
            retiring_in(rows, k, worker),
            k,
            worker,
        ).dom().contains(k),
        !rows[k].retiring ==> retired_from(rows, k, worker) == rows,
        other != k && rows.dom().contains(other) ==> retiring_in(rows, k, worker)[other]
            == rows[other] && retired_from(rows, k, worker).dom().contains(other) && retired_from(
            rows,
            k,
            worker,
        )[other] == rows[other],
        retiring_in(rows, k, worker).dom() == rows.dom(),
{
    assert(retiring_in(rows, k, worker).dom() =~= rows.dom());
}

/// The supervisor decides each submit, goes on when a worker ends, and drains as
/// soon as nobody can submit or it is asked to stop.
pub proof fn only_an_end_of_work_drains(event: SupervisorEvent)
    ensures
        step_for(event) == SupervisorStep::Drain <==> event is HandlesGone || event is Shutdown,
        step_for(event) == SupervisorStep::Decide <==> event is Submit,
{
}

/// A drain goes on to the next stage when the grace of its stage is over, and is
/// at its end as soon as no worker is left.
pub proof fn a_drain_goes_stage_by_stage(stage: DrainStage)
    ensures
        next_drain(stage, DrainSignal::WorkersGone) == DrainStage::Stopped,
        next_drain(DrainStage::Draining, DrainSignal::GraceOver) == DrainStage::Forcing,
        next_drain(DrainStage::Forcing, DrainSignal::GraceOver) == DrainStage::Aborting,
        next_drain(DrainStage::Aborting, DrainSignal::GraceOver) == DrainStage::Stopped,
{
}

/// A trigger is recorded once it has passed everything that can turn it away
/// before: while the gateway runs, with a session id that is one, and within the
/// limit where it is local. The limit is only asked about for those.
pub proof fn only_a_good_trigger_is_recorded(
    req: TriggerRequest,
    config: GatewayConfig,
    facts: SubmitFacts,
)
    ensures
        record_asked(req, facts.shutting_down, facts.within_rate) <==> turned_away(
            req,
            config,
            (SubmitFacts { recorded: true, ..facts }),
        ) is None,
        rate_asked(req, facts.shutting_down) <==> !facts.shutting_down && session_valid(req)
            && req.source == TriggerSource::Local,
{
}

} // verus!
