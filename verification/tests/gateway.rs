use dotagent::gateway::sink::{Delivery, FanoutSink, QueueSink, ReplySink, TelegramCall, TelegramSink};
use dotagent::gateway::worker::{
    advance, audit_unavailable_reply, children_of, enqueue_delta, goes_on, shape_final_reply,
    task_outcome, triggered_entry, worker_step, AssistantEvent, ConversationWorker, DeltaStats,
    ReplyShaper, RunTask, Signal, Stage, WorkerAction, WorkerEvent, WorkerInput, WorkerStep,
    DELTA_CHANNEL_DEPTH,
};
use dotagent::gateway::{
    drain_step, limiter_identity, received_entry, rejected_entry, supervisor_step, ConversationKey,
    DrainSignal, DrainStage, Enqueued, GatewayConfig, SubmitFacts, SubmitRejected, Supervisor,
    SupervisorEvent, SupervisorStep, TriggerRequest, TriggerSource, WorkerQueue,
    WORKER_QUEUE_DEPTH,
};
use dotagent::local_api::server::QueueSlot;
use dotagent::outcome::{OrchestratedOutcome, RunOutcome};

fn local_req(agent: &str) -> TriggerRequest {
    TriggerRequest {
        agent: agent.into(),
        source: TriggerSource::Local,
        actor: Some("4242".into()),
        session_id: None,
        reply_to: None,
        schedule: None,
        args: Vec::new(),
        payload: None,
    }
}

fn facts() -> SubmitFacts {
    SubmitFacts {
        shutting_down: false,
        within_rate: true,
        recorded: true,
        queue: WorkerQueue::Open { waiting: 0, free: WORKER_QUEUE_DEPTH },
        fresh_worker: 1,
    }
}

fn config(max: usize) -> GatewayConfig {
    let mut c = GatewayConfig::default();
    c.max_concurrent_sessions = max;
    c
}

fn ran_ok(stdout: &str) -> OrchestratedOutcome {
    OrchestratedOutcome::Ran(RunOutcome {
        exit_code: 0,
        timed_out: false,
        duration_seconds: 0,
        stdout_tail: stdout.to_string(),
        stderr_tail: String::new(),
        stdout_truncated_lines: 0,
        stderr_truncated_lines: 0,
    })
}

fn reply(text: &str) -> Option<AssistantEvent> {
    Some(AssistantEvent::Reply { text: text.into() })
}

fn shaper_from(frames: Vec<Option<AssistantEvent>>) -> ReplyShaper {
    let mut s = ReplyShaper::new(true);
    for f in frames {
        s.feed(f);
    }
    s
}

/// A conversation: its queue, its worker, and what it has seen.
struct Conversation {
    queue: Vec<&'static str>,
    worker: ConversationWorker,
    current: &'static str,
    trace: Vec<String>,
}

impl Conversation {
    fn new(jobs: &[&'static str]) -> Self {
        Conversation {
            queue: jobs.to_vec(),
            worker: ConversationWorker::new(),
            current: "",
            trace: Vec::new(),
        }
    }

    fn running(&self) -> bool {
        self.worker.job == Some(Stage::Running)
    }

    /// Do what the worker asks for, with `signal` as what a stage comes to and
    /// `quiet` as what wakes a worker whose queue is empty. False once it has
    /// exited.
    fn turn(&mut self, signal: Signal, quiet: WorkerEvent) -> bool {
        let input = match self.worker.action() {
            WorkerAction::Exit { .. } => return false,
            WorkerAction::Wait if self.queue.is_empty() => WorkerInput::Woke(quiet),
            WorkerAction::Wait => {
                self.current = self.queue.remove(0);
                WorkerInput::Woke(WorkerEvent::Job)
            }
            WorkerAction::TakeLeft if self.queue.is_empty() => WorkerInput::Left(false),
            WorkerAction::TakeLeft => {
                self.current = self.queue.remove(0);
                WorkerInput::Left(true)
            }
            WorkerAction::Perform(stage) => {
                match stage {
                    Stage::Running => self.trace.push(format!("start {}", self.current)),
                    Stage::FinalReply => self.trace.push(format!("end {}", self.current)),
                    Stage::RefusalReply => self.trace.push(format!("refused {}", self.current)),
                    _ => {}
                }
                WorkerInput::Staged(signal)
            }
        };
        self.worker.tell(input);
        true
    }
}

#[test]
fn invalid_session_id_is_rejected() {
    let mut gw = Supervisor::new(GatewayConfig::default());
    let mut req = local_req("a");
    for bad in ["../x", "a/b", "", "café"] {
        req.session_id = Some(bad.into());
        let rejection = gw.handle_submit(&req, facts()).unwrap_err();
        assert_eq!(rejection, SubmitRejected::InvalidSessionId, "{bad:?}");
    }
    req.session_id = Some("chat-9_a".into());
    assert!(gw.handle_submit(&req, facts()).is_ok());
}

#[test]
fn local_rate_limit_rejects_past_the_cap() {
    let mut c = GatewayConfig::default();
    c.local_rate_per_minute = 1;
    let mut gw = Supervisor::new(c);
    let req = local_req("a");
    assert!(gw.asks_rate(&req, false));
    assert!(gw.handle_submit(&req, facts()).is_ok());
    let over = SubmitFacts { within_rate: false, ..facts() };
    assert_eq!(
        gw.handle_submit(&req, over).unwrap_err(),
        SubmitRejected::RateLimited { per_minute: 1 }
    );
}

#[test]
fn telegram_trusts_the_ingress_limiter() {
    let mut c = GatewayConfig::default();
    c.local_rate_per_minute = 1;
    let mut gw = Supervisor::new(c);
    for _ in 0..3 {
        let mut req = local_req("a");
        req.source = TriggerSource::Telegram;
        req.reply_to = Some("99".into());
        assert!(!gw.asks_rate(&req, false));
        let unasked = SubmitFacts { within_rate: false, ..facts() };
        assert!(gw.handle_submit(&req, unasked).is_ok());
    }
}

#[test]
fn cap_rejects_new_conversations_when_full() {
    let mut gw = Supervisor::new(config(1));
    let mut a = local_req("a");
    a.reply_to = Some("chat-a".into());
    let accepted = gw.handle_submit(&a, facts()).unwrap();
    assert_eq!(accepted.accepted.active_sessions, 1);
    assert!(accepted.spawn);

    let mut b = local_req("a");
    b.reply_to = Some("chat-b".into());
    assert_eq!(
        gw.handle_submit(&b, facts()).unwrap_err(),
        SubmitRejected::CapExceeded { active: 1, max: 1 }
    );
    // A live conversation goes on at the cap.
    let again = gw.handle_submit(&a, facts()).unwrap();
    assert!(!again.spawn);
}

#[test]
fn same_conversation_is_serialized() {
    // One conversation has one worker.
    let mut gw = Supervisor::new(GatewayConfig::default());
    let mut req = local_req("a");
    req.reply_to = Some("chat-1".into());
    assert!(gw.handle_submit(&req, facts()).unwrap().spawn);
    let behind = SubmitFacts {
        queue: WorkerQueue::Open { waiting: 1, free: WORKER_QUEUE_DEPTH - 1 },
        ..facts()
    };
    let second = gw.handle_submit(&req, behind).unwrap();
    assert!(!second.spawn);
    assert_eq!(second.accepted.queued_behind, 1);
    assert_eq!(gw.active(), 1);

    // A worker has one job at a time, in arrival order.
    let mut chat = Conversation::new(&["first", "second"]);
    while chat.turn(Signal::Completed, WorkerEvent::Shutdown) {}
    assert_eq!(
        chat.trace,
        vec!["start first", "end first", "start second", "end second"],
        "answers preserve arrival order"
    );
}

#[test]
fn a_retiring_worker_loses_no_job() {
    let mut chat = Conversation::new(&["first"]);
    // It takes the first job and answers it, then goes idle; one more job was
    // accepted before its queue closed.
    while chat.queue.len() == 1 || chat.worker.job.is_some() {
        assert!(chat.turn(Signal::Completed, WorkerEvent::Idle));
    }
    assert!(chat.turn(Signal::Completed, WorkerEvent::Idle));
    assert!(chat.worker.retiring);
    chat.queue.push("late");
    while chat.turn(Signal::Completed, WorkerEvent::Idle) {}
    assert_eq!(chat.trace, vec!["start first", "end first", "start late", "end late"]);
    assert_eq!(chat.worker.action(), WorkerAction::Exit { give_up_row: true });
}

#[test]
fn an_unrecorded_job_is_refused_and_the_next_one_goes_on() {
    let mut chat = Conversation::new(&["first", "second"]);
    while chat.worker.job != Some(Stage::Recording) {
        assert!(chat.turn(Signal::Completed, WorkerEvent::Shutdown));
    }
    assert!(chat.turn(Signal::NotRecorded, WorkerEvent::Shutdown));
    while chat.turn(Signal::Completed, WorkerEvent::Shutdown) {}
    assert_eq!(chat.trace, vec!["refused first", "start second", "end second"]);
}

#[test]
fn a_forced_shutdown_starts_nothing_more() {
    let mut chat = Conversation::new(&["first", "second"]);
    while !chat.running() {
        assert!(chat.turn(Signal::Completed, WorkerEvent::Shutdown));
    }
    assert!(chat.turn(Signal::Forced, WorkerEvent::Shutdown));
    assert!(!chat.turn(Signal::Completed, WorkerEvent::Shutdown));
    assert_eq!(chat.trace, vec!["start first"]);
    assert_eq!(chat.queue, vec!["second"]);
    assert_eq!(chat.worker.action(), WorkerAction::Exit { give_up_row: false });
}

#[test]
fn distinct_conversations_run_concurrently() {
    let mut gw = Supervisor::new(GatewayConfig::default());
    let mut chats = Vec::new();
    for (i, chat) in ["chat-a", "chat-b"].iter().enumerate() {
        let mut req = local_req("a");
        req.reply_to = Some(chat.to_string());
        let f = SubmitFacts { fresh_worker: i as u64 + 1, ..facts() };
        assert!(gw.handle_submit(&req, f).unwrap().spawn);
        chats.push(Conversation::new(&["job"]));
    }
    assert_eq!(gw.active(), 2);

    // Neither run ends before both are in flight.
    while !chats.iter().all(|c| c.running()) {
        for chat in chats.iter_mut().filter(|c| !c.running()) {
            assert!(chat.turn(Signal::Completed, WorkerEvent::Shutdown));
        }
    }
    assert_eq!(chats.iter().filter(|c| c.running()).count(), 2, "distinct keys must overlap");
    for chat in &mut chats {
        while chat.turn(Signal::Completed, WorkerEvent::Shutdown) {}
        assert_eq!(chat.trace, vec!["start job", "end job"]);
    }
}

#[test]
fn reply_shaping_uses_the_last_reply_frame() {
    let shaper = shaper_from(vec![
        Some(AssistantEvent::Delta { text: "partial".into() }),
        reply("first answer"),
        reply("final answer"),
        Some(AssistantEvent::Session { claude_session: "s-1".into(), transcript_bytes: 10 }),
    ]);
    assert_eq!(
        shape_final_reply("a", Ok(ran_ok("raw stdout")), &shaper),
        "final answer"
    );
}

#[test]
fn plain_stdout_becomes_the_reply() {
    let shaper = ReplyShaper::new(false);
    assert_eq!(
        shape_final_reply("echoer", Ok(ran_ok("hello\nworld")), &shaper),
        "hello\nworld"
    );
}

#[test]
fn plain_json_stdout_stays_raw_without_protocol() {
    let line = r#"{"type":"reply","text":"looks like a protocol frame"}"#;
    let mut shaper = ReplyShaper::new(false);
    shaper.feed(reply("looks like a protocol frame"));
    assert_eq!(shape_final_reply("plain-agent", Ok(ran_ok(line)), &shaper), line);
}

#[test]
fn empty_stdout_names_the_agent() {
    let shaper = ReplyShaper::new(false);
    assert_eq!(
        shape_final_reply("echoer", Ok(ran_ok("   ")), &shaper),
        "echoer finished with no output."
    );
}

#[test]
fn idle_worker_retires_and_frees_the_cap() {
    let mut gw = Supervisor::new(config(1));
    let mut a = local_req("a");
    a.reply_to = Some("chat-a".into());
    gw.handle_submit(&a, facts()).unwrap();
    assert!(matches!(worker_step(WorkerEvent::Idle), WorkerStep::Retire));
    let key = ConversationKey::of(&a);
    gw.begin_retirement(&key, 1);
    gw.finish_retirement(&key, 1);
    assert_eq!(gw.active(), 0);
    let mut b = local_req("a");
    b.reply_to = Some("chat-b".into());
    assert!(gw.handle_submit(&b, facts()).unwrap().spawn);
}

#[test]
fn a_late_retirement_of_an_earlier_worker_changes_nothing() {
    let mut gw = Supervisor::new(config(4));
    let req = local_req("a");
    gw.handle_submit(&req, SubmitFacts { fresh_worker: 9, ..facts() }).unwrap();
    gw.finish_retirement(&ConversationKey::of(&req), 8);
    assert_eq!(gw.active(), 1);
}

#[test]
fn audit_records_received_rejected_and_triggered() {
    let mut req = local_req("a");
    req.payload = Some(serde_json::from_str(r#"{"text":"/private/path/with-secret"}"#).unwrap());
    let received = received_entry(&req);
    assert_eq!(received.source, "local");
    assert_eq!(received.actor, "4242");
    let rejected = rejected_entry(&req, &SubmitRejected::InvalidSessionId);
    assert_eq!(rejected.reason, SubmitRejected::InvalidSessionId.reason());
    let triggered = triggered_entry(&req, "trigger");
    assert_eq!(triggered.agent, "a");
    assert_eq!(triggered.schedule, "trigger");
    for text in [format!("{received:?}"), format!("{rejected:?}"), format!("{triggered:?}")] {
        assert!(!text.contains("/private/path/with-secret"), "{text}");
    }
}

#[test]
fn received_audit_failure_rejects_before_worker_creation() {
    let mut gw = Supervisor::new(GatewayConfig::default());
    let unrecorded = SubmitFacts { recorded: false, ..facts() };
    assert_eq!(
        gw.handle_submit(&local_req("never-runs"), unrecorded).unwrap_err(),
        SubmitRejected::Unavailable
    );
    assert_eq!(gw.active(), 0);
}

#[test]
fn triggered_audit_failure_replies_safely_and_worker_continues() {
    assert_eq!(
        audit_unavailable_reply(),
        "Could not run trigger: audit unavailable."
    );
    let refusal = advance(Stage::Recording, Signal::NotRecorded);
    assert!(matches!(refusal, Stage::RefusalReply));
    let ended = advance(refusal, Signal::Completed);
    assert!(matches!(ended, Stage::Finished));
    assert!(goes_on(ended));
}

#[test]
fn submit_after_shutdown_reports_unavailable() {
    let mut gw = Supervisor::new(GatewayConfig::default());
    let stopped = SubmitFacts { shutting_down: true, ..facts() };
    assert_eq!(
        gw.handle_submit(&local_req("a"), stopped).unwrap_err(),
        SubmitRejected::Unavailable
    );
}

#[test]
fn shutdown_stops_idle_workers_without_waiting_for_idle_timeout() {
    assert!(matches!(worker_step(WorkerEvent::Shutdown), WorkerStep::Stop));
    assert!(matches!(worker_step(WorkerEvent::ForceShutdown), WorkerStep::Stop));
    assert!(matches!(worker_step(WorkerEvent::SendersGone), WorkerStep::Stop));
    assert!(matches!(worker_step(WorkerEvent::Job), WorkerStep::Process));
}

#[test]
fn shutdown_aborts_and_joins_a_persistent_request_task() {
    let ended = advance(Stage::Running, Signal::Forced);
    assert!(matches!(ended, Stage::ForcedShutdown));
    assert_eq!(children_of(ended), (false, false, false));
    assert!(!goes_on(ended));
}

#[test]
fn a_full_worker_queue_is_told_apart_from_a_closed_one() {
    let mut gw = Supervisor::new(GatewayConfig::default());
    let req = local_req("a");
    gw.handle_submit(&req, facts()).unwrap();
    let full = SubmitFacts { queue: WorkerQueue::Open { waiting: 64, free: 0 }, ..facts() };
    assert!(matches!(
        gw.handle_submit(&req, full),
        Err(SubmitRejected::QueueFull { .. })
    ));
    let accepted = gw.handle_submit(&req, facts()).unwrap().accepted;
    assert!(gw.after_enqueue(accepted, Enqueued::Done).is_ok());
    let accepted = gw.handle_submit(&req, facts()).unwrap().accepted;
    assert!(gw.after_enqueue(accepted, Enqueued::Closed).is_err());
}

#[test]
fn conversations_are_told_apart_by_source_and_session() {
    let mut a = local_req("a");
    a.session_id = Some("s".into());
    let mut b = local_req("b");
    b.session_id = Some("s".into());
    b.source = TriggerSource::Telegram;
    assert_ne!(ConversationKey::of(&a), ConversationKey::of(&b));
    assert_eq!(a.slug(), "trigger-local");
    assert_eq!(b.slug(), "trigger-telegram");
    assert_ne!(limiter_identity(&a), "");
}

#[test]
fn slug_is_namespaced_per_source() {
    let mut req = local_req("a");
    req.source = TriggerSource::Telegram;
    assert_eq!(req.slug(), "trigger-telegram");
    req.source = TriggerSource::Mcp;
    assert_eq!(req.slug(), "trigger-mcp");
}

// --- shaping ---

#[test]
fn last_reply_frame_wins() {
    let s = shaper_from(vec![
        Some(AssistantEvent::Delta { text: "partial".into() }),
        reply("first answer"),
        reply("final answer"),
    ]);
    assert!(s.saw_protocol);
    assert_eq!(s.last_reply.as_deref(), Some("final answer"));
}

#[test]
fn session_frames_count_as_protocol_but_shape_nothing() {
    let s = shaper_from(vec![Some(AssistantEvent::Session {
        claude_session: "s-1".into(),
        transcript_bytes: 9,
    })]);
    assert!(s.saw_protocol, "detection is any-parsed-line");
    assert!(s.last_reply.is_none());
}

#[test]
fn plain_stdout_is_not_protocol() {
    let s = shaper_from(vec![None, None, None]);
    assert!(!s.saw_protocol);
    assert!(s.last_reply.is_none());
}

#[test]
fn disabled_shaper_never_parses_protocol_frames() {
    let mut shaper = ReplyShaper::new(false);
    shaper.feed(reply("not a reply"));
    assert!(!shaper.saw_protocol);
    assert!(shaper.last_reply.is_none());
    assert_eq!(
        shape_final_reply("plain", Ok(ran_ok("raw stdout")), &shaper),
        "raw stdout"
    );
}

#[test]
fn reply_uses_last_reply_frame_when_protocol_was_spoken() {
    let shaper = shaper_from(vec![reply("the answer")]);
    assert_eq!(
        shape_final_reply("a", Ok(ran_ok("raw stdout")), &shaper),
        "the answer"
    );
}

#[test]
fn reply_falls_back_to_raw_stdout_without_protocol() {
    let shaper = shaper_from(vec![None, None]);
    assert_eq!(
        shape_final_reply("a", Ok(ran_ok("hello\nworld")), &shaper),
        "hello\nworld"
    );
}

#[test]
fn empty_stdout_reply_names_the_agent() {
    let shaper = shaper_from(vec![]);
    assert_eq!(
        shape_final_reply("echoer", Ok(ran_ok("  ")), &shaper),
        "echoer finished with no output."
    );
}

#[test]
fn failed_runs_report_exit_code_and_stderr() {
    let shaper = ReplyShaper::new(false);
    let failed = OrchestratedOutcome::Ran(RunOutcome {
        exit_code: 3,
        timed_out: false,
        duration_seconds: 1,
        stdout_tail: String::new(),
        stderr_tail: "boom".into(),
        stdout_truncated_lines: 0,
        stderr_truncated_lines: 0,
    });
    assert_eq!(
        shape_final_reply("a", Ok(failed), &shaper),
        "a exited 3.\nboom"
    );
}

#[test]
fn preflight_failure_and_run_error_have_stable_wording() {
    let shaper = ReplyShaper::new(false);
    assert_eq!(
        shape_final_reply(
            "a",
            Ok(OrchestratedOutcome::PreflightFailed {
                plugin: "preflight-warp".into(),
                suggest: Some("run warp-cli connect".into()),
            }),
            &shaper
        ),
        "a blocked by preflight preflight-warp: run warp-cli connect"
    );
    assert_eq!(
        shape_final_reply("a", Err("unknown agent".into()), &shaper),
        "Could not run a: unknown agent"
    );
}

#[test]
fn a_task_that_died_is_an_error_and_not_a_reply() {
    assert!(task_outcome(RunTask::Panicked("boom".into())).is_err());
    assert!(task_outcome(RunTask::Failed("gone".into())).is_err());
    assert!(task_outcome(RunTask::Returned(Ok(ran_ok("x")))).is_ok());
}

#[test]
fn delta_pressure_is_bounded_and_records_drops() {
    let mut stats = DeltaStats::new();
    for i in 0..(DELTA_CHANNEL_DEPTH * 2) {
        let slot = if i < DELTA_CHANNEL_DEPTH { QueueSlot::Free } else { QueueSlot::Full };
        enqueue_delta(&mut stats, slot);
    }
    assert_eq!(stats.dropped(), DELTA_CHANNEL_DEPTH);
}

// --- sinks ---

#[test]
fn fanout_delivers_to_every_sink() {
    let mut fan = FanoutSink::new(vec![QueueSink::default(), QueueSink::default()]);
    fan.reply(Some("s1"), "hi");
    fan.typing(Some("s1"));
    fan.delta(Some("s1"), "line");
    fan.started(Some("s1"), "agent");
    assert_eq!(fan.sinks[0].queue.len(), 4);
    assert_eq!(fan.sinks[1].queue.len(), 4);
    assert_eq!(
        fan.sinks[1].queue[0],
        Delivery::Reply { session: Some("s1".into()), text: "hi".into() }
    );
    assert_eq!(
        fan.sinks[0].queue[3],
        Delivery::Started { session: Some("s1".into()), agent: "agent".into() }
    );
}

/// A transport behind a sink: it sends what the sink holds, or fails to.
#[derive(Default)]
struct Transport {
    down: bool,
    attempts: usize,
    replies: usize,
}

impl Transport {
    fn flush(&mut self, sink: &mut QueueSink) -> Result<(), String> {
        for delivery in sink.queue.drain(..) {
            self.attempts += 1;
            if self.down {
                return Err("connection reset".into());
            }
            if matches!(delivery, Delivery::Reply { .. }) {
                self.replies += 1;
            }
        }
        Ok(())
    }
}

#[test]
fn fanout_survives_a_sink_that_fails() {
    let mut fan = FanoutSink::new(vec![QueueSink::default(), QueueSink::default()]);
    let mut failing = Transport { down: true, ..Default::default() };
    let mut healthy = Transport::default();
    fan.reply(None, "hi");
    assert!(failing.flush(&mut fan.sinks[0]).is_err());
    assert!(healthy.flush(&mut fan.sinks[1]).is_ok());
    assert_eq!(failing.attempts, 1, "the failing sink was tried");
    assert_eq!(healthy.replies, 1, "the healthy sink must still be served");
    // One that failed before does not keep the next reply from the other.
    fan.reply(None, "again");
    assert!(failing.flush(&mut fan.sinks[0]).is_err());
    assert!(healthy.flush(&mut fan.sinks[1]).is_ok());
    assert_eq!((failing.attempts, healthy.replies), (2, 2));
}

#[test]
fn telegram_delta_is_a_noop() {
    let sink = TelegramSink::new("token", 1, Some(10));
    let delta = Delivery::Delta { session: None, line: "streamed line".into() };
    assert!(sink.call_for(&delta).is_none());
    let answer = Delivery::Reply { session: None, text: "hi".into() };
    assert_eq!(
        sink.call_for(&answer),
        Some(TelegramCall::Reply {
            bot_token: "token".into(),
            chat_id: 1,
            message_id: Some(10),
            text: "hi".into(),
            thread_id: None,
        })
    );
    assert!(sink.binding(Some("s"), Some(5)).is_none());
    let group = sink.with_threads(Some(77));
    let bound = group.binding(Some("s"), Some(5)).unwrap();
    assert_eq!((bound.chat_id.as_str(), bound.message_id), ("1", 5));
    assert!(group.binding(None, Some(5)).is_none());
    assert!(group.binding(Some("s"), None).is_none());
}

#[test]
fn terminal_reply_is_delivered_after_delta_overflow() {
    // The run prints twice what the pump's queue holds; the pump drains what
    // is in it, and the reply of the same job follows.
    let mut stats = DeltaStats::new();
    let mut buffered: Vec<String> = Vec::new();
    let mut sink = QueueSink::default();
    let mut chat = Conversation::new(&["job"]);
    loop {
        match chat.worker.job {
            Some(Stage::Running) => {
                for i in 0..(DELTA_CHANNEL_DEPTH * 2) {
                    let slot = if buffered.len() < DELTA_CHANNEL_DEPTH {
                        buffered.push(format!("line-{i}"));
                        QueueSlot::Free
                    } else {
                        QueueSlot::Full
                    };
                    enqueue_delta(&mut stats, slot);
                }
            }
            Some(Stage::Draining) => {
                for line in buffered.drain(..) {
                    sink.delta(None, &line);
                }
            }
            Some(Stage::FinalReply) => sink.reply(None, "terminal"),
            _ => {}
        }
        if !chat.turn(Signal::Completed, WorkerEvent::Shutdown) {
            break;
        }
    }
    assert_eq!(stats.dropped(), DELTA_CHANNEL_DEPTH);
    assert_eq!(sink.queue.len(), DELTA_CHANNEL_DEPTH + 1);
    assert_eq!(
        sink.queue[DELTA_CHANNEL_DEPTH - 1],
        Delivery::Delta { session: None, line: format!("line-{}", DELTA_CHANNEL_DEPTH - 1) }
    );
    assert_eq!(
        sink.queue.last(),
        Some(&Delivery::Reply { session: None, text: "terminal".into() })
    );
}

// --- retirement and shutdown ---

#[test]
fn idle_submit_race_keeps_fifo_and_single_runner() {
    let mut gw = Supervisor::new(GatewayConfig::default());
    let mut req = local_req("worker");
    req.reply_to = Some("chat-1".into());
    let key = ConversationKey::of(&req);
    assert!(gw.handle_submit(&req, facts()).unwrap().spawn);
    let mut chat = Conversation::new(&["first"]);
    while chat.queue.len() == 1 || chat.worker.job.is_some() {
        assert!(chat.turn(Signal::Completed, WorkerEvent::Idle));
    }

    // The worker is idle but has not closed its row: the racing job is its own.
    let second = gw.handle_submit(&req, facts()).expect("the racing job is accepted");
    assert!(!second.spawn, "no second runner");
    chat.queue.push("second");
    chat.worker.tell(WorkerInput::Woke(WorkerEvent::Idle));
    assert!(chat.worker.retiring);
    gw.begin_retirement(&key, 1);

    let rejection =
        gw.handle_submit(&req, facts()).expect_err("a retiring worker must not get a replacement");
    assert_eq!(rejection, SubmitRejected::Unavailable);
    assert_eq!(gw.active(), 1, "the old worker must remain exclusive");

    while chat.turn(Signal::Completed, WorkerEvent::Idle) {}
    assert_eq!(chat.worker.action(), WorkerAction::Exit { give_up_row: true });
    gw.finish_retirement(&key, 1);
    assert_eq!(
        chat.trace,
        vec!["start first", "end first", "start second", "end second"],
        "accepted jobs preserve FIFO while the worker retires"
    );
    assert_eq!(gw.active(), 0);
    assert!(gw.handle_submit(&req, facts()).unwrap().spawn);
}

#[test]
fn shutdown_drains_pending_runs() {
    let mut gw = Supervisor::new(GatewayConfig::default());
    let mut req = local_req("a");
    req.reply_to = Some("chat-1".into());
    assert!(gw.handle_submit(&req, facts()).unwrap().spawn);
    assert!(!gw.handle_submit(&req, facts()).unwrap().spawn);
    let mut chat = Conversation::new(&["one", "two"]);
    assert!(chat.turn(Signal::Completed, WorkerEvent::SendersGone));

    // The supervisor stops admitting and waits; what is queued is answered.
    assert_eq!(supervisor_step(SupervisorEvent::Shutdown), SupervisorStep::Drain);
    gw.close();
    let late = SubmitFacts { shutting_down: true, ..facts() };
    assert_eq!(gw.handle_submit(&req, late).unwrap_err(), SubmitRejected::Unavailable);
    while chat.turn(Signal::Completed, WorkerEvent::SendersGone) {}
    assert_eq!(
        chat.trace,
        vec!["start one", "end one", "start two", "end two"],
        "queued work finished before exit"
    );
    assert_eq!(drain_step(DrainStage::Draining, DrainSignal::WorkersGone), DrainStage::Stopped);
}
