//! Per-conversation worker: runs one trigger at a time and shapes delivery.
//!
//! A worker owns exactly one conversation. Messages routed to it are processed
//! strictly in arrival order.

use crate::gateway::{TriggerRequest, source_text};
use crate::local_api::protocol::optional;
use crate::local_api::server::QueueSlot;
use crate::outcome::{OrchestratedOutcome, RunOutcome, append_hint, hint_text};
use crate::text::{
    dec, dec_i64, has_prefix, has_suffix, holds_text, is_blank, is_blank_text, lemma_ends,
    lemma_holds_part,
};
use vstd::prelude::*;

verus! {

broadcast use vstd::string::group_string_axioms;

/// How long the delta pump gets to drain buffered lines after the runner
/// returns.
pub const PUMP_DRAIN_GRACE_SECONDS: u64 = 2;

/// Lines that may wait for a slow sink. A full queue drops the newest delta;
/// the shaper still sees every line and the terminal reply takes another path.
pub const DELTA_CHANNEL_DEPTH: usize = 64;

// ---------------------------------------------------------------------
// Reply shaping
// ---------------------------------------------------------------------

/// One frame of the assistant protocol, as its parser reads it off a line.
#[derive(Debug, PartialEq, Eq)]
pub enum AssistantEvent {
    Delta { text: String },
    Reply { text: String },
    Session { claude_session: String, transcript_bytes: u64 },
}

/// Accumulates the final reply from assistant-protocol frames seen on stdout.
///
/// When enabled, a run "spoke the protocol" the moment any line parses as a
/// frame. The final reply is the last `reply` frame; a run that parsed frames
/// but never sent one falls back to raw stdout.
#[derive(Debug, PartialEq, Eq)]
pub struct ReplyShaper {
    pub enabled: bool,
    pub saw_protocol: bool,
    pub last_reply: Option<String>,
}

/// The last `reply` frame among `frames`, a line that is no frame being `None`.
pub open spec fn last_reply_in(frames: Seq<Option<AssistantEvent>>) -> Option<Seq<char>>
    decreases frames.len(),
{
    if frames.len() == 0 {
        None
    } else {
        match frames.last() {
            Some(AssistantEvent::Reply { text }) => Some(text@),
            _ => last_reply_in(frames.drop_last()),
        }
    }
}

/// Whether any line among `frames` was a frame.
pub open spec fn any_frame_in(frames: Seq<Option<AssistantEvent>>) -> bool {
    exists|i: int| 0 <= i < frames.len() && (#[trigger] frames[i]) is Some
}

/// What a shaper is after the lines it was fed.
pub open spec fn shaped(shaper: ReplyShaper, frames: Seq<Option<AssistantEvent>>) -> bool {
    &&& shaper.saw_protocol == (shaper.enabled && any_frame_in(frames))
    &&& optional(shaper.last_reply) == if shaper.enabled {
        last_reply_in(frames)
    } else {
        None
    }
}

/// Whether `after` is what a frame makes of a shaper.
pub open spec fn fed(
    before: ReplyShaper,
    frame: Option<AssistantEvent>,
    after: ReplyShaper,
) -> bool {
    &&& after.enabled == before.enabled
    &&& after.saw_protocol == (before.saw_protocol || (before.enabled && frame is Some))
    &&& optional(after.last_reply) == match frame {
        Some(AssistantEvent::Reply { text }) if before.enabled => Some(text@),
        _ => optional(before.last_reply),
    }
}

impl ReplyShaper {
    /// A shaper that has seen nothing.
    pub fn new(enabled: bool) -> (r: Self)
        ensures
            r.enabled == enabled,
            shaped(r, Seq::empty()),
            !r.saw_protocol,
            r.last_reply is None,
    {
        ReplyShaper { enabled, saw_protocol: false, last_reply: None }
    }

    /// Take in one line: the frame it parsed as, or `None` for plain output.
    pub fn feed(&mut self, frame: Option<AssistantEvent>)
        ensures
            fed(*old(self), frame, *final(self)),
    {
        if !self.enabled {
            return;
        }
        match frame {
            Some(event) => {
                self.saw_protocol = true;
                match event {
                    AssistantEvent::Reply { text } => {
                        self.last_reply = Some(text);
                    },
                    _ => {},
                }
            },
            None => {},
        }
    }
}

/// The last reply frame wins: a shaper that is what the lines so far make it
/// stays so with one more line.
pub proof fn the_last_reply_frame_wins(
    before: ReplyShaper,
    after: ReplyShaper,
    frames: Seq<Option<AssistantEvent>>,
    frame: Option<AssistantEvent>,
)
    requires
        shaped(before, frames),
        fed(before, frame, after),
    ensures
        shaped(after, frames.push(frame)),
{
    let all = frames.push(frame);
    assert(all.drop_last() =~= frames);
    assert(all.last() == frame);
    if frame is Some {
        assert(all[frames.len() as int] is Some);
    }
    if any_frame_in(frames) {
        let i = choose|i: int| 0 <= i < frames.len() && (#[trigger] frames[i]) is Some;
        assert(all[i] is Some);
    }
    if any_frame_in(all) && frame is None {
        let i = choose|i: int| 0 <= i < all.len() && (#[trigger] all[i]) is Some;
        assert(frames[i] is Some);
    }
}

/// The reply that is delivered for a run.
pub open spec fn final_reply(
    agent: Seq<char>,
    outcome: Result<OrchestratedOutcome, String>,
    shaper: ReplyShaper,
) -> Seq<char> {
    match outcome {
        Ok(OrchestratedOutcome::Ran(run)) => if run.exit_code == 0 {
            match shaper.last_reply {
                Some(reply) if shaper.enabled => reply@,
                _ => if is_blank_text(run.stdout_tail@) {
                    agent + " finished with no output."@
                } else {
                    run.stdout_tail@
                },
            }
        } else if run.timed_out {
            agent + " timed out.\n"@ + run.stderr_tail@
        } else {
            agent + " exited "@ + dec(run.exit_code as int) + ".\n"@ + run.stderr_tail@
        },
        Ok(OrchestratedOutcome::PreflightFailed { plugin, suggest }) => agent
            + " blocked by preflight "@ + plugin@ + hint_text(suggest),
        Err(e) => "Could not run "@ + agent + ": "@ + e@,
    }
}

/// Shape the delivered reply from a run's outcome. When the run spoke the
/// assistant protocol, the last `reply` frame replaces raw stdout.
pub fn shape_final_reply(
    agent: &str,
    outcome: Result<OrchestratedOutcome, String>,
    shaper: &ReplyShaper,
) -> (r: String)
    ensures
        r@ == final_reply(agent@, outcome, *shaper),
{
    match outcome {
        Ok(OrchestratedOutcome::Ran(run)) => {
            if run.exit_code == 0 {
                if shaper.enabled {
                    if let Some(reply) = &shaper.last_reply {
                        return reply.clone();
                    }
                }
                if is_blank(run.stdout_tail.as_str()) {
                    let mut out = agent.to_owned();
                    out.append(" finished with no output.");
                    out
                } else {
                    run.stdout_tail
                }
            } else if run.timed_out {
                let mut out = agent.to_owned();
                out.append(" timed out.\n");
                out.append(run.stderr_tail.as_str());
                out
            } else {
                let mut out = agent.to_owned();
                out.append(" exited ");
                out.append(dec_i64(run.exit_code as i64).as_str());
                out.append(".\n");
                out.append(run.stderr_tail.as_str());
                out
            }
        },
        Ok(OrchestratedOutcome::PreflightFailed { plugin, suggest }) => {
            let mut out = agent.to_owned();
            out.append(" blocked by preflight ");
            out.append(plugin.as_str());
            append_hint(&mut out, &suggest);
            out
        },
        Err(e) => {
            let mut out = "Could not run ".to_owned();
            out.append(agent);
            out.append(": ");
            out.append(e.as_str());
            out
        },
    }
}

/// How the task that ran an agent ended.
#[derive(Debug, PartialEq, Eq)]
pub enum RunTask {
    Returned(Result<OrchestratedOutcome, String>),
    Panicked(String),
    Failed(String),
}

/// Whether `r` is what a run's task came to.
pub open spec fn came_to(task: RunTask, r: Result<OrchestratedOutcome, String>) -> bool {
    match task {
        RunTask::Returned(o) => r == o,
        RunTask::Panicked(e) => r matches Err(m) && m@ == "agent runner panicked: "@ + e@,
        RunTask::Failed(e) => r matches Err(m) && m@ == "agent runner task failed: "@ + e@,
    }
}

/// The outcome of a run task: a panic inside it is an error to report, never
/// the end of the worker.
pub fn task_outcome(task: RunTask) -> (r: Result<OrchestratedOutcome, String>)
    ensures
        came_to(task, r),
{
    match task {
        RunTask::Returned(o) => o,
        RunTask::Panicked(e) => {
            let mut m = "agent runner panicked: ".to_owned();
            m.append(e.as_str());
            Err(m)
        },
        RunTask::Failed(e) => {
            let mut m = "agent runner task failed: ".to_owned();
            m.append(e.as_str());
            Err(m)
        },
    }
}

// ---------------------------------------------------------------------
// Deltas
// ---------------------------------------------------------------------

/// How many streamed lines were dropped because the sink was slower than the
/// runner.
#[derive(Debug, PartialEq, Eq)]
pub struct DeltaStats {
    count: usize,
}

impl DeltaStats {
    /// How many lines were dropped.
    pub closed spec fn drops(&self) -> usize {
        self.count
    }

    /// Nothing was dropped yet.
    pub fn new() -> (r: Self)
        ensures
            r.drops() == 0,
    {
        DeltaStats { count: 0 }
    }

    /// One more line was dropped. The counter wraps.
    pub fn record_drop(&mut self)
        ensures
            old(self).drops() < usize::MAX ==> final(self).drops() == old(self).drops() + 1,
            old(self).drops() == usize::MAX ==> final(self).drops() == 0,
    {
        if self.count < usize::MAX {
            self.count = self.count + 1;
        } else {
            self.count = 0;
        }
    }

    /// How many lines were dropped.
    pub fn dropped(&self) -> (n: usize)
        ensures
            n == self.drops(),
    {
        self.count
    }
}

/// How many lines were dropped, once one more was offered to a queue.
pub open spec fn drops_after(drops: usize, slot: QueueSlot) -> int {
    if slot != QueueSlot::Full {
        drops as int
    } else if drops < usize::MAX {
        drops + 1
    } else {
        0
    }
}

/// Count a line that did not fit: only a full queue drops one, a closed queue
/// has nobody to deliver to.
pub fn enqueue_delta(stats: &mut DeltaStats, slot: QueueSlot)
    ensures
        final(stats).drops() == drops_after(old(stats).drops(), slot),
{
    if slot == QueueSlot::Full {
        stats.record_drop();
    }
}

// ---------------------------------------------------------------------
// One job, end to end
// ---------------------------------------------------------------------

/// The audit entry of an agent that is about to run for a trigger.
#[derive(Debug, PartialEq, Eq)]
pub struct AgentTriggered {
    pub source: String,
    pub actor: Option<String>,
    pub agent: String,
    pub schedule: String,
}

/// Whether `r` is what is audited of a trigger before it runs.
pub open spec fn triggered_as(
    req: TriggerRequest,
    trigger_schedule_id: Seq<char>,
    r: AgentTriggered,
) -> bool {
    &&& r.source@ == source_text(req.source)
    &&& r.actor == req.actor
    &&& r.agent@ == req.agent@
    &&& r.schedule@ == match req.schedule {
        Some(s) => s@,
        None => trigger_schedule_id,
    }
}

/// What is audited before a triggered run. The gateway never resolves
/// schedules: it records the requested id, or the trigger pseudo-id.
pub fn triggered_entry(req: &TriggerRequest, trigger_schedule_id: &str) -> (r: AgentTriggered)
    ensures
        triggered_as(*req, trigger_schedule_id@, r),
{
    let schedule = match &req.schedule {
        Some(s) => s.clone(),
        None => trigger_schedule_id.to_owned(),
    };
    let actor = match &req.actor {
        Some(a) => Some(a.clone()),
        None => None,
    };
    AgentTriggered {
        source: req.source.name().to_owned(),
        actor,
        agent: req.agent.clone(),
        schedule,
    }
}

/// What a trigger that could not be recorded is answered. The audit error
/// itself stays inside: it can name a path.
pub fn audit_unavailable_reply() -> (r: &'static str)
    ensures
        r@ == "Could not run trigger: audit unavailable."@,
{
    "Could not run trigger: audit unavailable."
}

/// Where the processing of one job stands: what is being waited for.
#[derive(Clone, Copy, Debug, PartialEq, Eq, Structural)]
pub enum Stage {
    /// Appending the audit entry.
    Recording,
    /// Delivering the refusal of a trigger that could not be recorded.
    RefusalReply,
    /// Showing the first typing indicator.
    FirstTyping,
    /// The agent runs; lines stream, the indicator refreshes.
    Running,
    /// The run ended; buffered lines drain.
    Draining,
    /// The typing loop is told to stop.
    StoppingTyping,
    /// Delivering the reply.
    FinalReply,
    /// Done.
    Finished,
    /// Cut short by a forced shutdown.
    ForcedShutdown,
}

/// What happened to the thing a stage waits for.
#[derive(Clone, Copy, Debug, PartialEq, Eq, Structural)]
pub enum Signal {
    /// It came about. For [`Stage::Recording`]: the entry was appended.
    Completed,
    /// Only for [`Stage::Recording`]: the entry could not be appended.
    NotRecorded,
    /// Shutdown is being forced.
    Forced,
}

/// Whether a job is over.
pub open spec fn is_over(stage: Stage) -> bool {
    stage == Stage::Finished || stage == Stage::ForcedShutdown
}

/// The stage that follows.
pub open spec fn next_stage(stage: Stage, signal: Signal) -> Stage {
    if is_over(stage) {
        stage
    } else if signal == Signal::Forced {
        Stage::ForcedShutdown
    } else {
        match stage {
            Stage::Recording => if signal == Signal::Completed {
                Stage::FirstTyping
            } else {
                Stage::RefusalReply
            },
            Stage::RefusalReply => Stage::Finished,
            Stage::FirstTyping => Stage::Running,
            Stage::Running => Stage::Draining,
            Stage::Draining => Stage::StoppingTyping,
            Stage::StoppingTyping => Stage::FinalReply,
            Stage::FinalReply => Stage::Finished,
            Stage::Finished => Stage::Finished,
            Stage::ForcedShutdown => Stage::ForcedShutdown,
        }
    }
}

/// Whether the typing loop runs in a stage.
pub open spec fn typing_loop_runs(stage: Stage) -> bool {
    stage == Stage::Running || stage == Stage::Draining || stage == Stage::StoppingTyping
}

/// Whether the delta pump runs in a stage.
pub open spec fn pump_runs(stage: Stage) -> bool {
    stage == Stage::Running || stage == Stage::Draining
}

/// Whether the agent runs in a stage.
pub open spec fn agent_runs(stage: Stage) -> bool {
    stage == Stage::Running
}

/// Go on with one job.
pub fn advance(stage: Stage, signal: Signal) -> (r: Stage)
    ensures
        r == next_stage(stage, signal),
{
    match stage {
        Stage::Finished => Stage::Finished,
        Stage::ForcedShutdown => Stage::ForcedShutdown,
        _ => {
            if signal == Signal::Forced {
                return Stage::ForcedShutdown;
            }
            match stage {
                Stage::Recording => if signal == Signal::Completed {
                    Stage::FirstTyping
                } else {
                    Stage::RefusalReply
                },
                Stage::RefusalReply => Stage::Finished,
                Stage::FirstTyping => Stage::Running,
                Stage::Running => Stage::Draining,
                Stage::Draining => Stage::StoppingTyping,
                Stage::StoppingTyping => Stage::FinalReply,
                Stage::FinalReply => Stage::Finished,
                Stage::Finished => Stage::Finished,
                Stage::ForcedShutdown => Stage::ForcedShutdown,
            }
        },
    }
}

/// The children that must be aborted and joined when a job is cut short in
/// `stage`: the agent, the delta pump, the typing loop.
pub fn children_of(stage: Stage) -> (r: (bool, bool, bool))
    ensures
        r == (agent_runs(stage), pump_runs(stage), typing_loop_runs(stage)),
{
    (
        stage == Stage::Running,
        stage == Stage::Running || stage == Stage::Draining,
        stage == Stage::Running || stage == Stage::Draining || stage == Stage::StoppingTyping,
    )
}

/// The stage after a list of signals.
pub open spec fn stage_after(stage: Stage, signals: Seq<Signal>) -> Stage
    decreases signals.len(),
{
    if signals.len() == 0 {
        stage
    } else {
        next_stage(stage_after(stage, signals.drop_last()), signals.last())
    }
}

/// An agent never runs for a trigger that was not recorded.
pub proof fn an_unrecorded_trigger_never_runs(signals: Seq<Signal>)
    requires
        signals.len() > 0,
        signals[0] != Signal::Completed,
    ensures
        !agent_runs(stage_after(Stage::Recording, signals)),
        !(stage_after(Stage::Recording, signals) == Stage::FinalReply),
    decreases signals.len(),
{
    lemma_unrecorded_stays_out(signals);
}

proof fn lemma_unrecorded_stays_out(signals: Seq<Signal>)
    requires
        signals.len() > 0,
        signals[0] != Signal::Completed,
    ensures
        ({
            let s = stage_after(Stage::Recording, signals);
            s == Stage::RefusalReply || is_over(s)
        }),
    decreases signals.len(),
{
    if signals.len() > 1 {
        assert(signals.drop_last()[0] == signals[0]);
        lemma_unrecorded_stays_out(signals.drop_last());
    } else {
        assert(signals.drop_last() =~= Seq::<Signal>::empty());
        assert(stage_after(Stage::Recording, signals.drop_last()) == Stage::Recording);
    }
}

/// The indicator never outlives the run: when a reply is delivered, neither
/// the agent, the pump nor the typing loop is running.
pub proof fn nothing_runs_while_a_reply_is_delivered(stage: Stage)
    requires
        stage == Stage::FinalReply || stage == Stage::RefusalReply || is_over(stage),
    ensures
        !agent_runs(stage),
        !pump_runs(stage),
        !typing_loop_runs(stage),
{
}

/// A job that is over stays over, and forcing ends any other at once.
pub proof fn a_job_ends_once(stage: Stage, signal: Signal)
    ensures
        is_over(stage) ==> next_stage(stage, signal) == stage,
        !is_over(stage) ==> next_stage(stage, Signal::Forced) == Stage::ForcedShutdown,
{
}

// ---------------------------------------------------------------------
// The worker loop
// ---------------------------------------------------------------------

/// What a worker woke up for.
#[derive(Clone, Copy, Debug, PartialEq, Eq, Structural)]
pub enum WorkerEvent {
    Job,
    SendersGone,
    Shutdown,
    ForceShutdown,
    Idle,
}

/// What a worker does next.
#[derive(Clone, Copy, Debug, PartialEq, Eq, Structural)]
pub enum WorkerStep {
    /// Process the job, then wait again.
    Process,
    /// Stop accepting, process what was accepted, give the row up and exit.
    Retire,
    /// Exit.
    Stop,
}

/// What a worker does about an event.
pub open spec fn step_for(event: WorkerEvent) -> WorkerStep {
    match event {
        WorkerEvent::Job => WorkerStep::Process,
        WorkerEvent::Idle => WorkerStep::Retire,
        _ => WorkerStep::Stop,
    }
}

/// What a worker does about an event: idleness retires it, every kind of
/// shutdown stops it.
pub fn worker_step(event: WorkerEvent) -> (r: WorkerStep)
    ensures
        r == step_for(event),
{
    match event {
        WorkerEvent::Job => WorkerStep::Process,
        WorkerEvent::Idle => WorkerStep::Retire,
        WorkerEvent::SendersGone => WorkerStep::Stop,
        WorkerEvent::Shutdown => WorkerStep::Stop,
        WorkerEvent::ForceShutdown => WorkerStep::Stop,
    }
}

/// Whether a worker, or the drain of a retiring one, goes on after a job.
pub fn goes_on(ended: Stage) -> (r: bool)
    ensures
        r == (ended != Stage::ForcedShutdown),
{
    ended != Stage::ForcedShutdown
}

/// Where a worker stands: the one job it is at, whether its queue is closed,
/// and whether it is done.
#[derive(Clone, Copy, Debug, PartialEq, Eq, Structural)]
pub struct ConversationWorker {
    pub job: Option<Stage>,
    pub retiring: bool,
    pub stopped: bool,
}

/// What a worker asks for.
#[derive(Clone, Copy, Debug, PartialEq, Eq, Structural)]
pub enum WorkerAction {
    /// Wait for a job or for a reason to stop.
    Wait,
    /// Take the next job that is left in the closed queue.
    TakeLeft,
    /// Perform this stage of the job at hand.
    Perform(Stage),
    /// Exit, after giving the row up where the worker was retiring.
    Exit { give_up_row: bool },
}

/// What a worker is told.
#[derive(Clone, Copy, Debug, PartialEq, Eq, Structural)]
pub enum WorkerInput {
    /// The wait ended.
    Woke(WorkerEvent),
    /// The closed queue had a job left, or none.
    Left(bool),
    /// The stage came to this.
    Staged(Signal),
}

/// What a worker asks for.
pub open spec fn action_of(w: ConversationWorker) -> WorkerAction {
    if w.stopped {
        WorkerAction::Exit { give_up_row: w.retiring }
    } else {
        match w.job {
            Some(stage) => WorkerAction::Perform(stage),
            None => if w.retiring {
                WorkerAction::TakeLeft
            } else {
                WorkerAction::Wait
            },
        }
    }
}

/// A worker after it was told something. What it did not ask for changes
/// nothing.
pub open spec fn told(w: ConversationWorker, input: WorkerInput) -> ConversationWorker {
    match (action_of(w), input) {
        (WorkerAction::Wait, WorkerInput::Woke(event)) => match step_for(event) {
            WorkerStep::Process => ConversationWorker { job: Some(Stage::Recording), ..w },
            WorkerStep::Retire => ConversationWorker { retiring: true, ..w },
            WorkerStep::Stop => ConversationWorker { stopped: true, ..w },
        },
        (WorkerAction::TakeLeft, WorkerInput::Left(more)) => if more {
            ConversationWorker { job: Some(Stage::Recording), ..w }
        } else {
            ConversationWorker { stopped: true, ..w }
        },
        (WorkerAction::Perform(stage), WorkerInput::Staged(signal)) => {
            let next = next_stage(stage, signal);
            if is_over(next) {
                ConversationWorker { job: None, stopped: next == Stage::ForcedShutdown, ..w }
            } else {
                ConversationWorker { job: Some(next), ..w }
            }
        },
        _ => w,
    }
}

/// A worker that has done nothing.
pub open spec fn fresh_worker() -> ConversationWorker {
    ConversationWorker { job: None, retiring: false, stopped: false }
}

impl ConversationWorker {
    /// A worker that has done nothing.
    pub fn new() -> (r: Self)
        ensures
            r == fresh_worker(),
    {
        ConversationWorker { job: None, retiring: false, stopped: false }
    }

    /// What the worker asks for.
    pub fn action(&self) -> (r: WorkerAction)
        ensures
            r == action_of(*self),
    {
        if self.stopped {
            return WorkerAction::Exit { give_up_row: self.retiring };
        }
        match self.job {
            Some(stage) => WorkerAction::Perform(stage),
            None => if self.retiring {
                WorkerAction::TakeLeft
            } else {
                WorkerAction::Wait
            },
        }
    }

    /// Tell the worker what came of what it asked for.
    pub fn tell(&mut self, input: WorkerInput)
        ensures
            *final(self) == told(*old(self), input),
    {
        match (self.action(), input) {
            (WorkerAction::Wait, WorkerInput::Woke(event)) => match worker_step(event) {
                WorkerStep::Process => {
                    self.job = Some(Stage::Recording);
                },
                WorkerStep::Retire => {
                    self.retiring = true;
                },
                WorkerStep::Stop => {
                    self.stopped = true;
                },
            },
            (WorkerAction::TakeLeft, WorkerInput::Left(more)) => {
                if more {
                    self.job = Some(Stage::Recording);
                } else {
                    self.stopped = true;
                }
            },
            (WorkerAction::Perform(stage), WorkerInput::Staged(signal)) => {
                let next = advance(stage, signal);
                if next == Stage::Finished || next == Stage::ForcedShutdown {
                    self.job = None;
                    self.stopped = !goes_on(next);
                } else {
                    self.job = Some(next);
                }
            },
            _ => {},
        }
    }
}

// ---------------------------------------------------------------------
// The order of a conversation
// ---------------------------------------------------------------------

/// Something a conversation sees: the agent is run for the `n`-th job that its
/// queue handed out, or that job's reply has been delivered.
pub enum Milestone {
    Run(nat),
    Reply(nat),
}

/// The life of a worker: where it stands, how many jobs it took, and what its
/// conversation has seen.
#[verifier::ext_equal]
pub struct Life {
    pub worker: ConversationWorker,
    pub taken: nat,
    pub seen: Seq<Milestone>,
}

/// Whether telling a worker this hands it a job.
pub open spec fn takes_job(w: ConversationWorker, input: WorkerInput) -> bool {
    w.job is None && told(w, input).job is Some
}

/// What a conversation sees when a stage comes to a signal. `n` is the job.
pub open spec fn milestones(stage: Stage, signal: Signal, n: nat) -> Seq<Milestone> {
    let next = next_stage(stage, signal);
    if stage != Stage::Running && next == Stage::Running {
        seq![Milestone::Run(n)]
    } else if next == Stage::Finished {
        seq![Milestone::Reply(n)]
    } else {
        Seq::empty()
    }
}

/// A life that goes on by one input.
pub open spec fn lived(l: Life, input: WorkerInput) -> Life {
    Life {
        worker: told(l.worker, input),
        taken: if takes_job(l.worker, input) {
            l.taken + 1
        } else {
            l.taken
        },
        seen: match (action_of(l.worker), input) {
            (WorkerAction::Perform(stage), WorkerInput::Staged(signal)) => l.seen + milestones(
                stage,
                signal,
                (l.taken - 1) as nat,
            ),
            _ => l.seen,
        },
    }
}

/// The life of a worker that was told these things, in order.
pub open spec fn life(inputs: Seq<WorkerInput>) -> Life
    decreases inputs.len(),
{
    if inputs.len() == 0 {
        Life { worker: fresh_worker(), taken: 0, seen: Seq::empty() }
    } else {
        lived(life(inputs.drop_last()), inputs.last())
    }
}

/// How many replies have been delivered.
pub open spec fn replies(seen: Seq<Milestone>) -> nat
    decreases seen.len(),
{
    if seen.len() == 0 {
        0
    } else {
        replies(seen.drop_last()) + if seen.last() is Reply {
            1nat
        } else {
            0nat
        }
    }
}

/// Whether the agent has been run for the job at hand.
pub open spec fn has_run(job: Option<Stage>) -> bool {
    match job {
        Some(stage) => stage == Stage::Running || stage == Stage::Draining || stage
            == Stage::StoppingTyping || stage == Stage::FinalReply,
        None => false,
    }
}

/// Whether every milestone stands after the replies of exactly the jobs before
/// its own.
spec fn in_turn(seen: Seq<Milestone>) -> bool {
    forall|i: int|
        0 <= i < seen.len() ==> match #[trigger] seen[i] {
            Milestone::Run(n) => replies(seen.take(i)) == n,
            Milestone::Reply(n) => replies(seen.take(i)) == n,
        }
}

spec fn orderly(l: Life) -> bool {
    let n = replies(l.seen);
    &&& in_turn(l.seen)
    &&& l.seen.no_duplicates()
    &&& l.worker.job is Some ==> !l.worker.stopped && !is_over(l.worker.job->0) && l.taken == n + 1
    &&& l.worker.job is None && !l.worker.stopped ==> l.taken == n
    &&& n <= l.taken
    &&& !l.worker.stopped && !has_run(l.worker.job) ==> !l.seen.contains(Milestone::Run(n))
}

proof fn lemma_replies_push(seen: Seq<Milestone>, m: Milestone)
    ensures
        replies(seen.push(m)) == replies(seen) + if m is Reply {
            1nat
        } else {
            0nat
        },
{
    assert(seen.push(m).drop_last() =~= seen);
}

proof fn lemma_replies_grow(seen: Seq<Milestone>, i: int)
    requires
        0 <= i < seen.len(),
    ensures
        replies(seen.take(i)) + (if seen[i] is Reply {
            1nat
        } else {
            0nat
        }) <= replies(seen),
    decreases seen.len(),
{
    let rest = seen.drop_last();
    if i < rest.len() {
        lemma_replies_grow(rest, i);
        assert(rest.take(i) =~= seen.take(i));
    } else {
        assert(seen.take(i) =~= rest);
    }
}

/// One more milestone of the job whose turn it is keeps the order.
proof fn lemma_in_turn_push(seen: Seq<Milestone>, m: Milestone)
    requires
        in_turn(seen),
        seen.no_duplicates(),
        m == Milestone::Reply(replies(seen)) || (m == Milestone::Run(replies(seen))
            && !seen.contains(m)),
    ensures
        in_turn(seen.push(m)),
        seen.push(m).no_duplicates(),
{
    let more = seen.push(m);
    assert forall|i: int| 0 <= i < more.len() implies match #[trigger] more[i] {
        Milestone::Run(n) => replies(more.take(i)) == n,
        Milestone::Reply(n) => replies(more.take(i)) == n,
    } by {
        assert(more.take(i) =~= seen.take(i));
        if i < seen.len() {
            assert(more[i] == seen[i]);
        } else {
            assert(seen.take(i) =~= seen);
        }
    }
    assert(!seen.contains(m)) by {
        if m is Reply && seen.contains(m) {
            let i = choose|i: int| 0 <= i < seen.len() && seen[i] == m;
            lemma_replies_grow(seen, i);
        }
    }
    assert forall|i: int, j: int| 0 <= i < more.len() && 0 <= j < more.len() && i
        != j implies more[i] != more[j] by {
        if i < seen.len() && j < seen.len() {
            assert(seen[i] != seen[j]);
        } else if i < seen.len() {
            assert(seen.contains(seen[i]));
        } else {
            assert(seen.contains(seen[j]));
        }
    }
}

proof fn lemma_step_is_orderly(l: Life, input: WorkerInput)
    requires
        orderly(l),
    ensures
        orderly(lived(l, input)),
{
    let n = replies(l.seen);
    let after = lived(l, input);
    match (action_of(l.worker), input) {
        (WorkerAction::Perform(stage), WorkerInput::Staged(signal)) => {
            let next = next_stage(stage, signal);
            if stage != Stage::Running && next == Stage::Running {
                let m = Milestone::Run(n);
                assert(after.seen =~= l.seen.push(m));
                lemma_in_turn_push(l.seen, m);
                lemma_replies_push(l.seen, m);
            } else if next == Stage::Finished {
                let m = Milestone::Reply(n);
                assert(after.seen =~= l.seen.push(m));
                lemma_in_turn_push(l.seen, m);
                lemma_replies_push(l.seen, m);
                if after.seen.contains(Milestone::Run(n + 1)) {
                    let i = choose|i: int|
                        0 <= i < after.seen.len() && after.seen[i] == Milestone::Run(n + 1);
                    assert(l.seen[i] == Milestone::Run(n + 1));
                    lemma_replies_grow(l.seen, i);
                }
            } else {
                assert(after.seen =~= l.seen);
            }
        },
        _ => {
            assert(after.seen =~= l.seen);
        },
    }
}

proof fn lemma_life_is_orderly(inputs: Seq<WorkerInput>)
    ensures
        orderly(life(inputs)),
    decreases inputs.len(),
{
    if inputs.len() > 0 {
        lemma_life_is_orderly(inputs.drop_last());
        lemma_step_is_orderly(life(inputs.drop_last()), inputs.last());
    }
}

proof fn lemma_replied_before(seen: Seq<Milestone>, n: nat)
    requires
        in_turn(seen),
        n < replies(seen),
    ensures
        seen.contains(Milestone::Reply(n)),
    decreases seen.len(),
{
    let rest = seen.drop_last();
    assert forall|i: int| 0 <= i < rest.len() implies match #[trigger] rest[i] {
        Milestone::Run(k) => replies(rest.take(i)) == k,
        Milestone::Reply(k) => replies(rest.take(i)) == k,
    } by {
        assert(rest[i] == seen[i]);
        assert(rest.take(i) =~= seen.take(i));
    }
    let last = seen.len() - 1;
    assert(seen.take(last) =~= rest);
    if n < replies(rest) {
        lemma_replied_before(rest, n);
        let i = choose|i: int| 0 <= i < rest.len() && rest[i] == Milestone::Reply(n);
        assert(seen[i] == Milestone::Reply(n));
    } else {
        assert(seen[last] == Milestone::Reply(n));
    }
}

/// One conversation, one run at a time, whatever happens to its worker: the
/// agent is run for a job at most once, each job is answered at most once, and
/// no run starts before every earlier job has had its reply. Nothing runs for a
/// job the queue did not hand out.
pub proof fn every_reply_comes_before_the_next_run(inputs: Seq<WorkerInput>, i: int)
    requires
        0 <= i < life(inputs).seen.len(),
    ensures
        life(inputs).seen.no_duplicates(),
        match life(inputs).seen[i] {
            Milestone::Run(n) => n < life(inputs).taken && forall|k: nat|
                k < n ==> #[trigger] life(inputs).seen.take(i).contains(Milestone::Reply(k)),
            Milestone::Reply(n) => n < life(inputs).taken && forall|k: nat|
                k < n ==> #[trigger] life(inputs).seen.take(i).contains(Milestone::Reply(k)),
        },
    decreases inputs.len(),
{
    let l = life(inputs);
    let before = l.seen.take(i);
    lemma_life_is_orderly(inputs);
    lemma_milestones_are_of_taken_jobs(inputs, i);
    assert forall|j: int| 0 <= j < before.len() implies match #[trigger] before[j] {
        Milestone::Run(n) => replies(before.take(j)) == n,
        Milestone::Reply(n) => replies(before.take(j)) == n,
    } by {
        assert(before[j] == l.seen[j]);
        assert(before.take(j) =~= l.seen.take(j));
    }
    let n = replies(before);
    assert forall|k: nat| k < n implies #[trigger] before.contains(Milestone::Reply(k)) by {
        lemma_replied_before(before, k);
    }
}

proof fn lemma_milestones_are_of_taken_jobs(inputs: Seq<WorkerInput>, i: int)
    requires
        0 <= i < life(inputs).seen.len(),
    ensures
        match life(inputs).seen[i] {
            Milestone::Run(n) => n < life(inputs).taken,
            Milestone::Reply(n) => n < life(inputs).taken,
        },
    decreases inputs.len(),
{
    if inputs.len() > 0 {
        let before = life(inputs.drop_last());
        lemma_life_is_orderly(inputs.drop_last());
        if i < before.seen.len() {
            lemma_milestones_are_of_taken_jobs(inputs.drop_last(), i);
            assert(life(inputs).seen[i] == before.seen[i]);
        }
    }
}

/// Whether every job is recorded and none is cut short.
pub open spec fn undisturbed(inputs: Seq<WorkerInput>) -> bool {
    forall|i: int|
        0 <= i < inputs.len() ==> (#[trigger] inputs[i]) != WorkerInput::Staged(Signal::Forced)
            && inputs[i] != WorkerInput::Staged(Signal::NotRecorded)
}

/// A run and its reply for each of the first jobs, in turn.
pub open spec fn one_by_one(seen: Seq<Milestone>) -> bool {
    forall|i: int|
        0 <= i < seen.len() ==> #[trigger] seen[i] == if i % 2 == 0 {
            Milestone::Run((i / 2) as nat)
        } else {
            Milestone::Reply((i / 2) as nat)
        }
}

/// The jobs of one conversation run in arrival order, once each, and none is
/// lost: as long as every trigger is recorded and no shutdown is forced, a
/// conversation sees a run and a reply for the first job its queue handed out,
/// then for the second, and so on. When the worker waits again, retires or
/// stops, it has seen both for every job that was handed out.
pub proof fn jobs_run_once_each_in_arrival_order(inputs: Seq<WorkerInput>)
    requires
        undisturbed(inputs),
    ensures
        one_by_one(life(inputs).seen),
        life(inputs).worker.job is None ==> life(inputs).seen.len() == 2 * life(inputs).taken,
        life(inputs).worker.job is Some ==> life(inputs).seen.len() == 2 * (life(inputs).taken - 1)
            + if has_run(life(inputs).worker.job) {
            1int
        } else {
            0int
        },
        life(inputs).worker.job is Some ==> life(inputs).taken > 0 && !is_over(
            life(inputs).worker.job->0,
        ) && life(inputs).worker.job != Some(Stage::RefusalReply),
    decreases inputs.len(),
{
    if inputs.len() > 0 {
        let start = inputs.drop_last();
        let before = life(start);
        let after = life(inputs);
        assert forall|i: int| 0 <= i < start.len() implies (#[trigger] start[i])
            != WorkerInput::Staged(Signal::Forced) && start[i] != WorkerInput::Staged(
            Signal::NotRecorded,
        ) by {
            assert(start[i] == inputs[i]);
        }
        jobs_run_once_each_in_arrival_order(start);
        assert(inputs.last() == inputs[inputs.len() - 1]);
        let n = (before.taken - 1) as nat;
        match (action_of(before.worker), inputs.last()) {
            (WorkerAction::Perform(stage), WorkerInput::Staged(signal)) => {
                let next = next_stage(stage, signal);
                if stage != Stage::Running && next == Stage::Running {
                    assert(after.seen =~= before.seen.push(Milestone::Run(n)));
                } else if next == Stage::Finished {
                    assert(after.seen =~= before.seen.push(Milestone::Reply(n)));
                } else {
                    assert(after.seen =~= before.seen);
                }
            },
            _ => {
                assert(after.seen =~= before.seen);
            },
        }
    }
}

// ---------------------------------------------------------------------
// Laws of a reply
// ---------------------------------------------------------------------

/// What is delivered for a run that exits zero is the last reply it sent, word
/// for word, whatever else it printed or logged; what it printed where it sent
/// none or does not speak the protocol; and its name where it printed nothing.
pub proof fn a_good_run_delivers_its_reply(
    agent: Seq<char>,
    run: RunOutcome,
    shaper: ReplyShaper,
)
    requires
        run.exit_code == 0,
    ensures
        ({
            let said = final_reply(agent, Ok(OrchestratedOutcome::Ran(run)), shaper);
            &&& shaper.enabled && shaper.last_reply is Some ==> said == shaper.last_reply->0@
            &&& (!shaper.enabled || shaper.last_reply is None) && !is_blank_text(run.stdout_tail@)
                ==> said == run.stdout_tail@
            &&& (!shaper.enabled || shaper.last_reply is None) && is_blank_text(run.stdout_tail@)
                ==> has_prefix(said, agent)
        }),
{
    lemma_ends(agent, " finished with no output."@);
}

/// What is delivered for any other run names the agent and ends with what it
/// logged, whatever it printed or replied: a run that failed has no reply.
pub proof fn a_bad_run_delivers_its_log(
    agent: Seq<char>,
    run: RunOutcome,
    other: RunOutcome,
    shaper: ReplyShaper,
    silent: ReplyShaper,
)
    requires
        run.exit_code != 0,
        other == (RunOutcome { stdout_tail: other.stdout_tail, ..run }),
    ensures
        ({
            let said = final_reply(agent, Ok(OrchestratedOutcome::Ran(run)), shaper);
            &&& said == final_reply(agent, Ok(OrchestratedOutcome::Ran(other)), silent)
            &&& has_prefix(said, agent)
            &&& has_suffix(said, run.stderr_tail@)
            &&& !run.timed_out ==> has_prefix(said, agent + " exited "@ + dec(run.exit_code as int))
            &&& run.timed_out ==> has_prefix(said, agent + " timed out"@)
        }),
{
    let said = final_reply(agent, Ok(OrchestratedOutcome::Ran(run)), shaper);
    if run.timed_out {
        reveal_strlit(" timed out");
        reveal_strlit(" timed out.\n");
        let lead = agent + " timed out"@;
        let rest = " timed out.\n"@.skip(10) + run.stderr_tail@;
        assert(said =~= lead + rest);
        lemma_ends(lead, rest);
        assert(said =~= agent + (" timed out.\n"@ + run.stderr_tail@));
        lemma_ends(agent, " timed out.\n"@ + run.stderr_tail@);
        lemma_ends(agent + " timed out.\n"@, run.stderr_tail@);
    } else {
        let n = dec(run.exit_code as int);
        let lead = agent + " exited "@ + n;
        assert(said =~= lead + (".\n"@ + run.stderr_tail@));
        lemma_ends(lead, ".\n"@ + run.stderr_tail@);
        assert(said =~= agent + (" exited "@ + n + ".\n"@ + run.stderr_tail@));
        lemma_ends(agent, " exited "@ + n + ".\n"@ + run.stderr_tail@);
        lemma_ends(lead + ".\n"@, run.stderr_tail@);
    }
}

/// A run that a check stopped is answered with the check and what it suggests;
/// one that could not be run, with why. A task that died never counts as a run.
pub proof fn a_run_that_was_none_says_why(
    agent: Seq<char>,
    plugin: String,
    suggest: Option<String>,
    error: String,
    task: RunTask,
    r: Result<OrchestratedOutcome, String>,
    shaper: ReplyShaper,
)
    requires
        came_to(task, r),
    ensures
        ({
            let blocked = OrchestratedOutcome::PreflightFailed { plugin, suggest };
            let said = final_reply(agent, Ok(blocked), shaper);
            &&& has_prefix(said, agent)
            &&& holds_text(said, plugin@)
            &&& suggest is Some ==> has_suffix(said, suggest->0@)
        }),
        holds_text(final_reply(agent, Err(error), shaper), agent),
        has_suffix(final_reply(agent, Err(error), shaper), error@),
        task matches RunTask::Returned(o) ==> r == o,
        task matches RunTask::Panicked(e) ==> r is Err && has_suffix(r->Err_0@, e@),
        task matches RunTask::Failed(e) ==> r is Err && has_suffix(r->Err_0@, e@),
{
    let mid = " blocked by preflight "@;
    let hint = hint_text(suggest);
    let said = agent + mid + plugin@ + hint;
    lemma_holds_part(said, agent + mid, plugin@, hint);
    assert(said =~= agent + (mid + plugin@ + hint));
    lemma_ends(agent, mid + plugin@ + hint);
    if suggest is Some {
        assert(said =~= (agent + mid + plugin@ + ": "@) + suggest->0@);
        lemma_ends(agent + mid + plugin@ + ": "@, suggest->0@);
    }
    let lead = "Could not run "@;
    let broken = lead + agent + ": "@ + error@;
    assert(broken =~= lead + agent + (": "@ + error@));
    lemma_holds_part(broken, lead, agent, ": "@ + error@);
    lemma_ends(lead + agent + ": "@, error@);
    match task {
        RunTask::Panicked(e) => {
            lemma_ends("agent runner panicked: "@, e@);
        },
        RunTask::Failed(e) => {
            lemma_ends("agent runner task failed: "@, e@);
        },
        _ => {},
    }
}

/// Only a line that a full queue turned away counts as dropped, and it counts
/// once.
pub proof fn only_a_full_queue_drops(drops: usize, slot: QueueSlot)
    requires
        drops < usize::MAX,
    ensures
        drops_after(drops, slot) == drops + 1 <==> slot == QueueSlot::Full,
        slot != QueueSlot::Full ==> drops_after(drops, slot) == drops,
{
}

/// What is audited before a run is the trigger's own source, sender and agent,
/// under the schedule that it asks for, or that of triggers where it asks for none.
pub proof fn a_run_is_audited_as_it_was_triggered(
    req: TriggerRequest,
    trigger_schedule_id: Seq<char>,
    r: AgentTriggered,
)
    requires
        triggered_as(req, trigger_schedule_id, r),
    ensures
        r.source@ == source_text(req.source),
        r.actor == req.actor,
        r.agent@ == req.agent@,
        req.schedule is Some ==> r.schedule@ == req.schedule->0@,
        req.schedule is None ==> r.schedule@ == trigger_schedule_id,
{
}

/// A worker processes a job, retires when it is idle, and otherwise stops.
pub proof fn only_an_idle_worker_retires(event: WorkerEvent)
    ensures
        step_for(event) == WorkerStep::Process <==> event is Job,
        step_for(event) == WorkerStep::Retire <==> event is Idle,
{
}

/// A worker that retires takes what is left in its queue, one job after another,
/// and gives its row up only when nothing is; one that does not retire waits.
pub proof fn a_retiring_worker_empties_its_queue(w: ConversationWorker)
    requires
        !w.stopped,
        w.job is None,
    ensures
        w.retiring ==> action_of(w) == WorkerAction::TakeLeft,
        !w.retiring ==> action_of(w) == WorkerAction::Wait,
        w.retiring ==> told(w, WorkerInput::Left(true)).job == Some(Stage::Recording) && !told(
            w,
            WorkerInput::Left(true),
        ).stopped,
        w.retiring ==> action_of(told(w, WorkerInput::Left(false))) == (WorkerAction::Exit {
            give_up_row: true,
        }),
        !w.retiring ==> told(w, WorkerInput::Woke(WorkerEvent::Idle)).retiring,
        !w.retiring ==> told(w, WorkerInput::Woke(WorkerEvent::Job)).job == Some(Stage::Recording),
        !w.retiring ==> action_of(told(w, WorkerInput::Woke(WorkerEvent::Shutdown))) == (
        WorkerAction::Exit { give_up_row: false }),
{
}

/// A worker performs the stage that its job is in, goes on to the next as the
/// stage came out, and is free for another job when the last is over; a forced
/// shutdown ends it.
pub proof fn a_job_goes_stage_by_stage(w: ConversationWorker, stage: Stage, signal: Signal)
    requires
        !w.stopped,
        w.job == Some(stage),
        !is_over(stage),
    ensures
        action_of(w) == WorkerAction::Perform(stage),
        ({
            let next = told(w, WorkerInput::Staged(signal));
            &&& signal == Signal::Forced ==> next.stopped && next.job is None
            &&& signal != Signal::Forced && (stage == Stage::FinalReply || stage
                == Stage::RefusalReply) ==> next.job is None && !next.stopped
            &&& stage == Stage::Recording && signal == Signal::Completed ==> next.job == Some(
                Stage::FirstTyping,
            )
            &&& stage == Stage::Recording && signal == Signal::NotRecorded ==> next.job == Some(
                Stage::RefusalReply,
            )
            &&& stage == Stage::FirstTyping && signal == Signal::Completed ==> next.job == Some(
                Stage::Running,
            )
            &&& stage == Stage::Running && signal == Signal::Completed ==> next.job == Some(
                Stage::Draining,
            )
            &&& stage == Stage::Draining && signal == Signal::Completed ==> next.job == Some(
                Stage::StoppingTyping,
            )
            &&& stage == Stage::StoppingTyping && signal == Signal::Completed ==> next.job == Some(
                Stage::FinalReply,
            )
            &&& next.retiring == w.retiring
        }),
{
}

} // verus!
