use dotagent::daemon::dispatch::{
    follow_up, fresh_window, give_up_steps, settle, was_dispatched, Aftermath, Attempt, Effect,
};
use dotagent::daemon::lifecycle::{
    poll_step, prepares_memory, reload_steps, restart_step, stop_steps, PollStep, ReloadStep,
    RestartStep, StopOutcome, StopStep, FIRST_BACKOFF_SECONDS,
};
use dotagent::daemon::screen::{
    command_entry, menu_chats, refused_entry, triggered_env, InboundMessage, Invocation,
    TelegramIngressConfig,
};
use dotagent::gateway::{
    drain_step, supervisor_step, DrainSignal, DrainStage, GatewayConfig, SubmitFacts, Supervisor,
    SupervisorEvent, SupervisorStep, TriggerRequest, TriggerSource, WorkerQueue,
    WORKER_QUEUE_DEPTH,
};

fn message() -> InboundMessage {
    InboundMessage {
        update_id: 1,
        user_id: 42,
        chat_id: 999,
        message_id: 55,
        text: "/deploy prod".into(),
        reply_to_text: None,
        reply_to_message_id: None,
    }
}

fn trigger(session: Option<&str>) -> TriggerRequest {
    TriggerRequest {
        agent: "dispatcher".into(),
        source: TriggerSource::Local,
        actor: Some("4242".into()),
        session_id: session.map(str::to_string),
        reply_to: None,
        schedule: None,
        args: Vec::new(),
        payload: None,
    }
}

// --- after an attempt ---

#[test]
fn a_success_files_its_facts_and_is_recorded() {
    assert_eq!(
        follow_up(Aftermath::Record, Some(0), false, 2),
        vec![Effect::FileFacts, Effect::WriteWindow]
    );
    assert_eq!(follow_up(Aftermath::Record, Some(0), false, 0), vec![Effect::WriteWindow]);
    assert_eq!(follow_up(Aftermath::Nothing, None, true, 0), Vec::<Effect>::new());
}

#[test]
fn only_a_success_reaches_the_extractor() {
    assert_eq!(
        follow_up(Aftermath::Record, Some(0), true, 0),
        vec![Effect::ExtractAndFile, Effect::WriteWindow]
    );
    assert_eq!(follow_up(Aftermath::Record, Some(1), true, 0), vec![Effect::WriteWindow]);
}

#[test]
fn a_recovery_is_audited_then_announced_then_written() {
    assert_eq!(
        follow_up(Aftermath::Recovered, Some(0), false, 0),
        vec![Effect::AuditRecovered, Effect::FireRecovered, Effect::WriteWindow]
    );
}

#[test]
fn giving_up_is_audited_before_anyone_hears_of_it() {
    let steps = vec![Effect::GiveUp, Effect::AnnounceGiveUp, Effect::WriteWindow];
    assert_eq!(give_up_steps(), steps);
    assert_eq!(follow_up(Aftermath::GiveUp, Some(1), false, 0), steps);
}

#[test]
fn a_lost_request_is_announced_and_given_up_at_once() {
    let window = fresh_window("a", "daily", 900);
    let lost = Attempt::RequestLost { message: "the pipe closed".into() };
    let (after, aftermath) = settle(window, 1000, 3, -2, lost);
    assert_eq!(after.last_attempt_exit_code, Some(-2));
    assert_eq!(
        follow_up(aftermath, None, true, 0),
        vec![
            Effect::FireAttemptFailed,
            Effect::GiveUp,
            Effect::AnnounceGiveUp,
            Effect::WriteWindow,
        ]
    );
    assert!(was_dispatched(aftermath));
}

#[test]
fn every_window_is_written_last() {
    for aftermath in [
        Aftermath::Record,
        Aftermath::Recovered,
        Aftermath::FailedForGood,
        Aftermath::GiveUp,
    ] {
        let steps = follow_up(aftermath, Some(0), true, 1);
        assert_eq!(steps.last(), Some(&Effect::WriteWindow));
        assert_eq!(steps.iter().filter(|s| **s == Effect::WriteWindow).count(), 1);
    }
}

#[test]
fn an_attempt_that_left_no_trace_was_not_dispatched() {
    assert!(!was_dispatched(Aftermath::Nothing));
    assert!(was_dispatched(Aftermath::Record));
    assert!(was_dispatched(Aftermath::GiveUp));
}

// --- polling, reloading, stopping ---

#[test]
fn a_poll_that_worked_forgets_the_failures_before_it() {
    assert_eq!(poll_step(true, FIRST_BACKOFF_SECONDS), (PollStep::Wait(1), 2));
    assert_eq!(poll_step(true, 32), (PollStep::Wait(32), 60));
    assert_eq!(poll_step(true, 60), (PollStep::Wait(60), 60));
    assert_eq!(poll_step(false, 60), (PollStep::Handle, 1));
}

#[test]
fn an_ingress_that_would_not_stop_is_not_replaced() {
    assert_eq!(restart_step(Some(StopOutcome::TimedOut)), RestartStep::KeepOld);
    assert_eq!(restart_step(Some(StopOutcome::Finished)), RestartStep::StartNew);
    assert_eq!(restart_step(Some(StopOutcome::Cancelled)), RestartStep::StartNew);
    assert_eq!(restart_step(Some(StopOutcome::Failed)), RestartStep::StartNew);
    assert_eq!(restart_step(None), RestartStep::StartNew);
}

#[test]
fn a_reload_reads_the_config_before_anything_it_configures() {
    assert_eq!(
        reload_steps(),
        vec![
            ReloadStep::RecordReload,
            ReloadStep::LoadConfig,
            ReloadStep::LoadSecrets,
            ReloadStep::PrepareMemory,
            ReloadStep::RestartTelegram,
            ReloadStep::AdoptConfig,
            ReloadStep::RetirePersistent,
        ]
    );
}

#[test]
fn only_the_default_memory_workspace_is_scaffolded() {
    assert!(prepares_memory(true, None));
    assert!(!prepares_memory(true, Some("/srv/memory")));
    assert!(!prepares_memory(false, None));
}

#[test]
fn a_stop_closes_the_doors_before_the_gateway_drains() {
    let steps = stop_steps(true, true, true);
    let place = |step: StopStep| steps.iter().position(|s| *s == step).unwrap();
    assert!(place(StopStep::StopTelegram) < place(StopStep::StopGateway));
    assert!(place(StopStep::SignalLocalApi) < place(StopStep::StopGateway));
    assert!(place(StopStep::StopGateway) < place(StopStep::RetirePersistent));
    assert!(place(StopStep::RetirePersistent) < place(StopStep::ReapChildren));
    assert!(place(StopStep::StopSnapshotWriter) < place(StopStep::RemoveSnapshot));
}

// --- what an inbound message leaves behind ---

#[test]
fn a_command_is_audited_by_name_and_never_by_arguments() {
    let known = Some(Invocation {
        name: "deploy".into(),
        args: "prod --force".into(),
        resolved: Some("deploy".into()),
    });
    let entry = command_entry(&message(), &known).unwrap();
    assert_eq!(entry.command, "deploy");
    assert_eq!(entry.actor, "42");
    assert!(entry.known);

    let missing = Some(Invocation { name: "probe".into(), args: String::new(), resolved: None });
    assert!(!command_entry(&message(), &missing).unwrap().known);
    assert!(command_entry(&message(), &None).is_none());
}

#[test]
fn a_refusal_is_audited_with_its_sender_and_reason() {
    let entry = refused_entry(&message(), "rate limit exceeded");
    assert_eq!(entry.source, "telegram");
    assert_eq!(entry.actor, "42");
    assert_eq!(entry.reason, "rate limit exceeded");
}

#[test]
fn the_menu_is_published_to_allowed_chats_only() {
    let cfg = TelegramIngressConfig {
        bot_token: "t".into(),
        allowed_user_ids: vec![42, 7],
        dispatcher_agent: "dispatcher".into(),
    };
    assert_eq!(menu_chats(true, &cfg), vec![42, 7]);
    assert!(menu_chats(false, &cfg).is_empty());
}

#[test]
fn the_harness_has_the_last_word_on_the_environment() {
    let harness = vec![("AGENT_ASSISTANT_SESSION".to_string(), "abc".to_string())];
    let env = triggered_env(&trigger(Some("s1")), harness);
    let names: Vec<&str> = env.iter().map(|(name, _)| name.as_str()).collect();
    assert_eq!(names.first(), Some(&"AGENT_TRIGGER_SOURCE"));
    assert!(names.contains(&"AGENT_SESSION_ID"));
    assert_eq!(names.last(), Some(&"AGENT_ASSISTANT_SESSION"));
    assert_eq!(env.last().unwrap().1, "abc");
}

// --- the gateway's supervisor ---

#[test]
fn the_supervisor_drains_once_nobody_can_submit() {
    assert_eq!(supervisor_step(SupervisorEvent::Submit), SupervisorStep::Decide);
    assert_eq!(supervisor_step(SupervisorEvent::WorkerEnded), SupervisorStep::GoOn);
    assert_eq!(supervisor_step(SupervisorEvent::HandlesGone), SupervisorStep::Drain);
    assert_eq!(supervisor_step(SupervisorEvent::Shutdown), SupervisorStep::Drain);
}

#[test]
fn a_shutdown_escalates_one_grace_at_a_time() {
    let mut stage = DrainStage::Draining;
    for expected in [DrainStage::Forcing, DrainStage::Aborting, DrainStage::Stopped] {
        stage = drain_step(stage, DrainSignal::GraceOver);
        assert_eq!(stage, expected);
    }
    assert_eq!(drain_step(DrainStage::Draining, DrainSignal::WorkersGone), DrainStage::Stopped);
    assert_eq!(drain_step(DrainStage::Stopped, DrainSignal::GraceOver), DrainStage::Stopped);
}

#[test]
fn closing_forgets_every_conversation() {
    let mut supervisor = Supervisor::new(GatewayConfig::default());
    let facts = SubmitFacts {
        shutting_down: false,
        within_rate: true,
        recorded: true,
        queue: WorkerQueue::Open { waiting: 0, free: WORKER_QUEUE_DEPTH },
        fresh_worker: 1,
    };
    assert!(supervisor.handle_submit(&trigger(Some("s1")), facts).is_ok());
    assert_eq!(supervisor.active(), 1);
    supervisor.close();
    assert_eq!(supervisor.active(), 0);
}
