use dotagent::daemon::cache::{check_cache, KnownManifest, ManifestEntry, SeenManifest};
use dotagent::daemon::dispatch::{
    attempt_gate, find_due, follow_up, fresh_window, give_up, monitored_pairs, recovered_message,
    settle, tick_dry_run, was_dispatched, Aftermath, Attempt, Candidate, DueFacts, Effect, Gate,
    Watched,
};
use dotagent::daemon::lifecycle::{
    boot_steps, drops_previous_store, exit_for, ingress_is_gone, ingress_plan, live_peer_daemon,
    next_backoff, orphan_plan, parse_u32, resolve_secrets_path, restart_step, secrets_entry,
    snapshot_fate, stop_steps, wake_for, BootStep, IngressPlan, OrphanPlan, RestartStep,
    SecretsEntry, SecretsLoad, SnapshotFate, StopOutcome, StopStep, Wake, WakeEvent,
};
use dotagent::daemon::local::{
    commands_list, handle_message, local_event, local_submit_error, status_get, CommandEntry,
    LocalReplyGate, LocalRequest, Release,
};
use dotagent::daemon::screen::TelegramIngressConfig;
use dotagent::gateway::sink::Delivery;
use dotagent::gateway::SubmitRejected;
use dotagent::local_api::protocol::{MessageSendParams, ServerEvent, MAX_EVENT_QUEUE_BYTES};
use dotagent::local_api::server::{message_answer, EventSendError, EventTx, PeerInfo, QueueSlot};
use dotagent::table::Table;

fn facts(expected: Option<i64>) -> DueFacts {
    DueFacts { now: 1000, expected, last_success: None, stale: false, deferred: false }
}

#[test]
fn a_window_is_due_until_it_succeeded() {
    assert_eq!(find_due(&facts(Some(900))), Some(900));
    assert_eq!(find_due(&facts(None)), None);
    assert_eq!(find_due(&DueFacts { stale: true, ..facts(Some(900)) }), None);
    assert_eq!(find_due(&DueFacts { deferred: true, ..facts(Some(900)) }), None);
    assert_eq!(find_due(&DueFacts { last_success: Some(950), ..facts(Some(900)) }), None);
    assert_eq!(find_due(&DueFacts { last_success: Some(10), ..facts(Some(900)) }), Some(900));
}

#[test]
fn attempts_stop_at_the_policy() {
    let mut w = fresh_window("a", "daily", 900);
    assert!(matches!(attempt_gate(&w, true, 3), Gate::Dispatch));
    w.attempts = 3;
    assert!(matches!(attempt_gate(&w, true, 3), Gate::GiveUp));
    w.given_up = true;
    assert!(matches!(attempt_gate(&w, true, 3), Gate::Skip));
    let mut young = fresh_window("a", "daily", 900);
    young.attempts = 1;
    assert!(matches!(attempt_gate(&young, false, 3), Gate::Skip));
}

#[test]
fn persistent_request_loss_consumes_attempt_and_is_terminal() {
    let w = fresh_window("a", "daily", 900);
    let (after, next) =
        settle(w, 1000, 3, -2, Attempt::RequestLost { message: "process died".into() });
    assert_eq!(after.attempts, 1);
    assert_eq!(after.last_attempt_exit_code, Some(-2));
    assert_eq!(after.last_attempt_at, Some(1000));
    assert!(after.last_attempt_stderr.unwrap().contains("process died"));
    assert!(matches!(next, Aftermath::FailedForGood));
}

#[test]
fn audit_append_failure_does_not_skip_window_accounting_or_success_hook() {
    // Every append fails, as with a directory where the log should be.
    let append = |_: &Effect| -> Result<(), String> { Err("is a directory".into()) };
    let ran = || Attempt::Ran { exit_code: 0, stderr_tail: String::new() };
    let perform = |effects: Vec<Effect>| {
        let mut failed = 0;
        let mut done = Vec::new();
        for effect in effects {
            if matches!(effect, Effect::AuditRecovered | Effect::GiveUp) {
                failed += append(&effect).is_err() as usize;
            }
            done.push(effect);
        }
        (failed, done)
    };

    let (after, next) = settle(fresh_window("a", "daily", 900), 1000, 3, -2, ran());
    assert_eq!(after.attempts, 1);
    assert_eq!(after.last_attempt_exit_code, Some(0));
    assert!(matches!(next, Aftermath::Record));
    let (failed, done) = perform(follow_up(next, Some(0), false, 0));
    assert_eq!((failed, done), (0, vec![Effect::WriteWindow]));
    assert!(was_dispatched(next));

    // What the audit had to say of a recovery is lost; who listens is told, and
    // the window is written.
    let mut w = fresh_window("a", "daily", 900);
    w.attempts = 1;
    let (after, next) = settle(w, 1000, 3, -2, ran());
    assert_eq!(after.attempts, 2);
    let (failed, done) = perform(follow_up(next, Some(0), false, 0));
    assert_eq!(failed, 1);
    assert_eq!(done[1..], [Effect::FireRecovered, Effect::WriteWindow]);
}

#[test]
fn a_success_after_a_failure_is_a_recovery() {
    let mut w = fresh_window("a", "daily", 900);
    w.attempts = 1;
    let (after, next) =
        settle(w, 1000, 3, -2, Attempt::Ran { exit_code: 0, stderr_tail: String::new() });
    assert_eq!(after.attempts, 2);
    assert!(matches!(next, Aftermath::Recovered));
    let msg = recovered_message("a", 2);
    assert!(msg.contains('a') && msg.contains('2'), "{msg}");
}

#[test]
fn the_last_failure_gives_up_and_says_so_once() {
    let mut w = fresh_window("a", "daily", 900);
    w.attempts = 3;
    w.last_attempt_exit_code = Some(7);
    w.last_attempt_stderr = Some("boom".into());
    let entry = give_up(&mut w, "a", "daily", 1234);
    assert!(w.given_up);
    assert_eq!(w.given_up_at, Some(1234));
    assert_eq!((entry.attempts, entry.last_exit), (3, 7));
    assert_eq!(entry.stderr_tail, "boom");
}

#[test]
fn a_dry_run_names_what_it_would_dispatch() {
    let item = |name: &str, expected| Candidate {
        agent: name.into(),
        schedule: "daily".into(),
        facts: facts(expected),
        window: fresh_window(name, "daily", 900),
        may_retry: true,
        max_retries: 3,
    };
    let lines = tick_dry_run(&vec![item("a", Some(900)), item("b", None)]);
    assert_eq!(lines.len(), 1);
    assert!(lines[0].contains('a'), "{}", lines[0]);
}

#[test]
fn every_schedule_of_every_monitored_agent_is_looked_at() {
    let agents = vec![
        Watched { monitor: true, schedules: 2 },
        Watched { monitor: false, schedules: 5 },
        Watched { monitor: true, schedules: 1 },
    ];
    assert_eq!(monitored_pairs(&agents), vec![(0, 0), (0, 1), (2, 0)]);
}

// --- the manifest cache ---

fn seen(agent: &str, sha: Option<&str>) -> SeenManifest {
    SeenManifest {
        agent: agent.into(),
        path: format!("/agents/{agent}/agent.toml"),
        sha256: sha.map(str::to_string),
    }
}

#[test]
fn a_manifest_is_news_once() {
    let mut known: Table<KnownManifest> = Table::new();
    let first = check_cache(&mut known, &vec![seen("a", Some("11"))], "t1");
    assert!(!first.is_empty());
    assert!(check_cache(&mut known, &vec![seen("a", Some("11"))], "t2").is_empty());
    let drift = check_cache(&mut known, &vec![seen("a", Some("22"))], "t3");
    assert!(drift.iter().any(|e| matches!(
        e,
        ManifestEntry::Drift { expected, actual, .. } if expected == "11" && actual == "22"
    )));
    assert_eq!(known.get("a").unwrap().first_seen_at, "t1");
}

#[test]
fn a_second_pass_over_the_same_manifests_has_no_news() {
    let mut known: Table<KnownManifest> = Table::new();
    let all = vec![seen("a", Some("11")), seen("b", None), seen("c", Some("33"))];
    assert_eq!(check_cache(&mut known, &all, "t1").len(), 4);
    assert!(check_cache(&mut known, &all, "t2").is_empty());
    assert_eq!(known.get("c").unwrap().first_seen_at, "t1");
    assert_eq!(known.get("c").unwrap().last_seen_at, "t2");
}

#[test]
fn a_manifest_that_cannot_be_hashed_is_left_out() {
    let mut known: Table<KnownManifest> = Table::new();
    assert!(check_cache(&mut known, &vec![seen("a", None)], "t1").is_empty());
    assert_eq!(known.len(), 0);
}

// --- boot, loop, stop ---

#[test]
fn children_are_reaped_before_anything_is_started() {
    let steps = boot_steps();
    let place = |s: BootStep| steps.iter().position(|x| *x == s).unwrap();
    assert!(place(BootStep::ReapOrphans) < place(BootStep::StartSnapshotWriter));
    assert!(place(BootStep::LoadSecrets) < place(BootStep::StartGateway));
    assert!(place(BootStep::StartGateway) < place(BootStep::StartLocalApi));
}

#[test]
fn a_pidfile_names_a_peer_unless_it_is_ours() {
    assert_eq!(live_peer_daemon("42\n", 7), Some(42));
    assert_eq!(live_peer_daemon("7", 7), None);
    assert_eq!(live_peer_daemon("garbage", 7), None);
    assert_eq!(parse_u32("+5"), Some(5));
    assert_eq!(parse_u32("4294967296"), None);
    assert_eq!(parse_u32(""), None);
}

#[test]
fn orphans_are_ours_only_without_a_peer() {
    assert_eq!(orphan_plan(false, Some(3)), OrphanPlan::Nothing);
    assert_eq!(orphan_plan(true, Some(3)), OrphanPlan::SkipForPeer(3));
    assert_eq!(orphan_plan(true, None), OrphanPlan::Reap);
    assert_eq!(
        snapshot_fate("/s.json", true),
        SnapshotFate::MoveAside("/s.json.corrupt".into())
    );
    assert_eq!(snapshot_fate("/s.json", false), SnapshotFate::Remove);
}

#[test]
fn a_relative_secrets_path_is_ignored() {
    assert_eq!(resolve_secrets_path("/etc/s.toml", "/d"), "/etc/s.toml");
    assert_eq!(resolve_secrets_path("s.toml", "/d"), "/d");
    assert_eq!(resolve_secrets_path("", "/d"), "/d");
}

#[test]
fn loading_secrets_never_records_a_value() {
    let loaded = SecretsLoad::Loaded { key_count: 3, unresolved_references: 1 };
    assert!(!drops_previous_store(&loaded));
    assert!(drops_previous_store(&SecretsLoad::Refused { error: "mode".into() }));
    match secrets_entry("/s", loaded, false) {
        Some(SecretsEntry::Loaded { path, key_count, unresolved_references }) => {
            assert_eq!((path.as_str(), key_count, unresolved_references), ("/s", 3, 1));
        }
        other => panic!("{other:?}"),
    }
    match secrets_entry("/s", SecretsLoad::Refused { error: "mode".into() }, true) {
        Some(SecretsEntry::Refused { reason, .. }) => assert!(reason.contains("mode")),
        other => panic!("{other:?}"),
    }
}

#[test]
fn a_local_api_failure_stops_the_daemon_loop() {
    let wake = wake_for(WakeEvent::LocalApiFailed { error: "bind".into() });
    match &wake {
        Wake::Fatal { error } => assert!(error.contains("bind"), "{error}"),
        other => panic!("{other:?}"),
    }
    let (reason, error) = exit_for(wake).expect("the loop must end");
    assert!(!reason.is_empty());
    assert!(error.is_some());
    assert!(exit_for(wake_for(WakeEvent::Elapsed)).is_none());
    assert!(matches!(wake_for(WakeEvent::Hangup), Wake::Reload));
    assert!(matches!(wake_for(WakeEvent::Terminate), Wake::Stop { .. }));
}

#[test]
fn telegram_reload_joins_each_old_ingress_before_starting_the_next() {
    let on = TelegramIngressConfig {
        bot_token: "t".into(),
        allowed_user_ids: vec![1],
        dispatcher_agent: "d".into(),
    };
    assert!(matches!(ingress_plan(&on), IngressPlan::Start));
    let nobody = TelegramIngressConfig { allowed_user_ids: vec![], ..on.clone() };
    assert!(matches!(ingress_plan(&nobody), IngressPlan::OffWithoutUsers));

    // A restart knows how stopping the old one ended, so it has been joined.
    let mut order = vec!["first-started".to_string()];
    let mut running = "first";
    for (next, joined) in [
        ("second", StopOutcome::Finished),
        ("third", StopOutcome::TimedOut),
        ("fourth", StopOutcome::Cancelled),
    ] {
        if ingress_is_gone(joined) {
            order.push(format!("{running}-finished"));
        }
        match restart_step(Some(joined)) {
            RestartStep::KeepOld => {}
            RestartStep::StartNew => {
                order.push(format!("{next}-created"));
                running = next;
            }
        }
    }
    assert_eq!(
        order,
        vec![
            "first-started",
            "first-finished",
            "second-created",
            "second-finished",
            "fourth-created",
        ],
        "the one that would not stop is kept, and nothing is started beside it"
    );
    assert_eq!(restart_step(None), RestartStep::StartNew);
}

#[test]
fn waits_double_up_to_a_minute() {
    let mut b = 1;
    let mut seen = Vec::new();
    for _ in 0..8 {
        seen.push(b);
        b = next_backoff(b);
    }
    assert_eq!(seen, vec![1, 2, 4, 8, 16, 32, 60, 60]);
}

#[test]
fn the_stop_is_recorded_last() {
    let steps = stop_steps(true, true, true);
    assert_eq!(steps.first(), Some(&StopStep::StopTelegram));
    assert_eq!(steps.last(), Some(&StopStep::RecordStop));
    assert!(!stop_steps(false, false, false).contains(&StopStep::StopTelegram));
}

// --- the local API's handler ---

#[test]
fn local_reply_gate_enqueues_started_before_opening() {
    let mut gate = LocalReplyGate::new();
    assert!(gate.defer_started(ServerEvent::run_started("session-1", "dispatcher")).is_none());
    assert!(!gate.is_released());
    match gate.begin_release() {
        Release::Enqueue(Some(event)) => {
            assert!(!gate.is_released(), "it must stay closed while the order is set");
            assert_eq!(event.event, "run.started");
        }
        other => panic!("{other:?}"),
    }
    gate.finish_release();
    assert!(gate.is_released());
}

#[test]
fn an_open_reply_gate_hands_events_back() {
    let mut gate = LocalReplyGate::new();
    let mut events = EventTx::new(MAX_EVENT_QUEUE_BYTES);
    gate.defer_started(ServerEvent::run_started("s", "d"));
    assert!(gate.release(&mut events, 50, QueueSlot::Free).is_ok());
    assert_eq!(events.queued_bytes, 50);
    assert!(gate.defer_started(ServerEvent::typing("s")).is_some());
    // A queue that is full still opens it: nothing may wait forever.
    let mut other = LocalReplyGate::new();
    other.defer_started(ServerEvent::run_started("s", "d"));
    assert_eq!(
        other.release(&mut events, 50, QueueSlot::Full),
        Err(EventSendError::Overflow)
    );
    assert!(other.is_released());
}

#[test]
fn local_api_ack_precedes_gateway_events_over_unix_jsonl() {
    let params = MessageSendParams { session_id: Some("session-1".into()), text: "hello".into() };
    let peer = PeerInfo { pid: Some(9), uid: Some(501) };
    let req = match handle_message(&params, &peer, "dispatcher").unwrap() {
        LocalRequest::Submit(req) => req,
        other => panic!("{other:?}"),
    };
    assert_eq!(req.agent, "dispatcher");
    assert_eq!(req.session_id.as_deref(), Some("session-1"));
    assert_eq!(req.payload.as_ref().unwrap()["text"], "hello");

    // The worker is as fast as can be: everything it delivers is ready before
    // the response is queued.
    let session = || Some("session-1".to_string());
    let mut waiting = vec![
        Delivery::Typing { session: session() },
        Delivery::Delta { session: session(), line: "partial".into() },
        Delivery::Reply { session: session(), text: "final answer".into() },
    ];
    let mut gate = LocalReplyGate::new();
    let mut events = EventTx::new(MAX_EVENT_QUEUE_BYTES);
    let mut wire = Vec::new();
    let started = local_event(&Delivery::Started { session: session(), agent: req.agent.clone() });
    assert!(gate.defer_started(started).is_none());
    assert!(!gate.is_released(), "nothing may pass before the accepted response");

    let sent = events.send_response(QueueSlot::Free);
    wire.push(message_answer("message-1", Ok(())).to_json());
    match gate.answered(sent.is_ok()) {
        Release::Enqueue(Some(event)) => wire.push(event.to_json()),
        other => panic!("{other:?}"),
    }
    gate.finish_release();
    for delivery in waiting.drain(..) {
        assert!(gate.is_released());
        wire.push(local_event(&delivery).to_json());
    }

    assert_eq!(wire[0]["id"], "message-1", "accepted response must be the first frame");
    assert_eq!(wire[0]["result"]["accepted"], true);
    let names: Vec<&str> = wire[1..].iter().map(|f| f["event"].as_str().unwrap()).collect();
    assert_eq!(
        names,
        ["run.started", "typing", "reply.delta", "reply"],
        "all gateway events must follow the accepted response"
    );
    assert!(wire[1..].iter().all(|f| f["session_id"] == "session-1"));
    assert_eq!(wire[1]["agent"], "dispatcher");
    assert_eq!(wire[3]["line"], "partial");
    assert_eq!(wire[4]["text"], "final answer");

    let status = status_get("dispatcher");
    assert_eq!(status["daemon"], "ok");
    assert_eq!(status["gateway"], "ok");
    let list = commands_list(&vec![CommandEntry {
        name: "commit-message".into(),
        telegram_name: "commit_message".into(),
        description: "Writes one.".into(),
        argument_hint: None,
    }]);
    assert!(list.is_array());
    assert_eq!(list[0]["name"], "commit-message");
}

#[test]
fn a_typed_command_means_the_same_over_the_socket() {
    let peer = PeerInfo { pid: None, uid: Some(501) };
    let msg = |text: &str| MessageSendParams { session_id: None, text: text.into() };
    assert!(matches!(
        handle_message(&msg("!!"), &peer, "d").unwrap(),
        LocalRequest::Confirm { .. }
    ));
    match handle_message(&msg("!ls -l"), &peer, "d").unwrap() {
        LocalRequest::Typed { session, bin, args } => {
            assert_eq!((session.as_str(), bin.as_str()), ("default", "ls"));
            assert_eq!(args, vec!["-l".to_string()]);
        }
        other => panic!("{other:?}"),
    }
}

#[test]
fn deliveries_become_the_documented_events() {
    let e = local_event(&Delivery::Delta { session: Some("s1".into()), line: "x".into() });
    assert_eq!(e.to_json()["event"], "reply.delta");
    assert_eq!(e.to_json()["line"], "x");
    let e = local_event(&Delivery::Typing { session: None });
    assert_eq!(e.to_json()["session_id"], "default");
}

#[test]
fn a_refused_submit_has_a_code_a_client_can_branch_on() {
    let limited = local_submit_error(SubmitRejected::RateLimited { per_minute: 3 });
    assert_eq!(limited.code, "rate_limited");
    let bad = local_submit_error(SubmitRejected::InvalidSessionId);
    assert_eq!(bad.code, "session_id_invalid");
}
