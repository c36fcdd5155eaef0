use dotagent::daemon::screen::{
    asks_limiter, handle_confirmation, handle_typed_command, help_text, not_accepted_text, screen,
    trigger_env, unknown_command_text, Catalog, InboundMessage, Invocation, Screened, SentMessage,
    TelegramIngressConfig, TypedStep,
};
use dotagent::gateway::{SubmitRejected, TriggerRequest, TriggerSource};
use dotagent::os_exec::{Confirmations, OsDecision, RunStep};
use serde_json::Value;

fn inbound(user_id: i64) -> InboundMessage {
    InboundMessage {
        update_id: 1,
        user_id,
        chat_id: 999,
        message_id: 55,
        text: "how's disk?".into(),
        reply_to_text: None,
        reply_to_message_id: None,
    }
}

fn bang(user_id: i64, text: &str) -> InboundMessage {
    let mut m = inbound(user_id);
    m.text = text.into();
    m
}

fn cfg(allowed: Vec<i64>) -> TelegramIngressConfig {
    TelegramIngressConfig {
        bot_token: "t".into(),
        allowed_user_ids: allowed,
        dispatcher_agent: "telegram-assistant".into(),
    }
}

fn empty_catalog() -> Catalog {
    Catalog { menu: Vec::new(), installed: String::new() }
}

fn catalog() -> Catalog {
    Catalog {
        menu: vec!["/commit_message — Writes a commit message.".into()],
        installed: "/commit_message".into(),
    }
}

fn invocation(name: &str, args: &str, resolved: Option<&str>) -> Option<Invocation> {
    Some(Invocation {
        name: name.into(),
        args: args.into(),
        resolved: resolved.map(str::to_string),
    })
}

/// A limiter that lets `left` messages through. It is only asked when the
/// library asks for it.
struct Limiter {
    left: usize,
}

impl Limiter {
    fn verdict(&mut self, msg: &InboundMessage, cfg: &TelegramIngressConfig) -> bool {
        if !asks_limiter(msg, cfg) {
            return false;
        }
        if self.left == 0 {
            return false;
        }
        self.left -= 1;
        true
    }
}

fn limiter() -> Limiter {
    Limiter { left: 10 }
}

fn screened(msg: &InboundMessage, cfg: &TelegramIngressConfig, lim: &mut Limiter) -> Screened {
    let within = lim.verdict(msg, cfg);
    screen(msg, cfg, within, &None, &empty_catalog(), &None)
}

fn said(text: &str, inv: &Option<Invocation>, cat: &Catalog) -> Screened {
    screen(&bang(7, text), &cfg(vec![7]), true, inv, cat, &None)
}

fn run(s: Screened) -> TriggerRequest {
    match s {
        Screened::Run(r) => r,
        other => panic!("expected a run, got {other:?}"),
    }
}

fn answer(s: Screened) -> String {
    match s {
        Screened::Answer(a) => a,
        other => panic!("expected an answer, got {other:?}"),
    }
}

fn rejected(s: Screened) -> &'static str {
    match s {
        Screened::Reject(r) => r,
        other => panic!("expected a refusal, got {other:?}"),
    }
}

fn is_rejected(s: Screened) -> bool {
    matches!(s, Screened::Reject(_))
}

#[test]
fn a_bang_line_becomes_a_bang_not_a_run() {
    match screened(&bang(7, "!ls -la"), &cfg(vec![7]), &mut limiter()) {
        Screened::Bang { bin, args } => {
            assert_eq!(bin, "ls");
            assert_eq!(args, vec!["-la".to_string()]);
        }
        _ => panic!("expected a bang"),
    }
}

#[test]
fn a_double_bang_is_a_confirmation_not_a_command_named_bang() {
    assert!(matches!(
        screened(&bang(7, "!!"), &cfg(vec![7]), &mut limiter()),
        Screened::Confirm
    ));
}

#[test]
fn an_unlisted_user_cannot_confirm_either() {
    assert!(is_rejected(screened(&bang(7, "!!"), &cfg(vec![1, 2]), &mut limiter())));
}

#[test]
fn an_unlisted_user_cannot_reach_the_bang_path() {
    assert!(is_rejected(screened(&bang(7, "!ls"), &cfg(vec![1, 2]), &mut limiter())));
}

#[test]
fn the_rate_limit_still_applies_to_bang_lines() {
    let mut lim = Limiter { left: 1 };
    let c = cfg(vec![7]);
    assert!(!is_rejected(screened(&bang(7, "!ls"), &c, &mut lim)));
    assert!(is_rejected(screened(&bang(7, "!ls"), &c, &mut lim)));
}

#[test]
fn a_message_merely_containing_a_bang_is_an_ordinary_turn() {
    run(screened(&bang(7, "what does ! do?"), &cfg(vec![7]), &mut limiter()));
}

#[test]
fn a_slash_command_is_not_swallowed_by_the_bang_path() {
    let s = said("/standup", &invocation("standup", "", None), &empty_catalog());
    assert!(!matches!(s, Screened::Bang { .. }));
}

#[test]
fn screen_refuses_an_unlisted_user() {
    assert_eq!(
        rejected(screened(&inbound(7), &cfg(vec![1, 2]), &mut limiter())),
        "user id not in allowed_user_ids"
    );
}

#[test]
fn screen_refuses_everyone_when_the_allowlist_is_empty() {
    assert!(is_rejected(screened(&inbound(7), &cfg(vec![]), &mut limiter())));
    assert!(is_rejected(screened(&inbound(0), &cfg(vec![]), &mut limiter())));
}

#[test]
fn screen_refuses_a_negated_id() {
    assert!(is_rejected(screened(&inbound(-7), &cfg(vec![7]), &mut limiter())));
}

#[test]
fn screen_refuses_past_the_rate_limit() {
    let c = cfg(vec![7]);
    let mut lim = Limiter { left: 2 };
    run(screened(&inbound(7), &c, &mut lim));
    run(screened(&inbound(7), &c, &mut lim));
    assert_eq!(rejected(screened(&inbound(7), &c, &mut lim)), "rate limit exceeded");
}

#[test]
fn screen_checks_the_allowlist_before_spending_rate_budget() {
    let c = cfg(vec![7]);
    let mut lim = Limiter { left: 1 };
    assert!(is_rejected(screened(&inbound(99), &c, &mut lim)));
    // The listed user's budget must be untouched.
    run(screened(&inbound(7), &c, &mut lim));
}

#[test]
fn screen_accepts_a_listed_user_and_targets_the_dispatcher() {
    let req = run(screened(&inbound(7), &cfg(vec![7]), &mut limiter()));
    assert_eq!(req.agent, "telegram-assistant");
    assert_eq!(req.source, TriggerSource::Telegram);
    assert_eq!(req.actor.as_deref(), Some("7"));
    assert_eq!(req.reply_to.as_deref(), Some("999"));
    assert_eq!(req.session_id.as_deref(), Some("999"));
}

#[test]
fn screen_never_puts_the_message_body_in_argv() {
    let req = run(screened(&inbound(7), &cfg(vec![7]), &mut limiter()));
    assert!(req.args.is_empty(), "body must travel in the payload only");
    assert_eq!(req.payload.unwrap()["text"], "how's disk?");
}

#[test]
fn screen_resolves_reply_to_run_by_the_inbound_numeric_chat_id() {
    let mut msg = inbound(7);
    msg.chat_id = -1001234567890;
    msg.reply_to_message_id = Some(42);
    let sent = SentMessage {
        agent: "agent".into(),
        schedule: "daily".into(),
        event: "given_up".into(),
    };
    let payload = run(screen(&msg, &cfg(vec![7]), true, &None, &empty_catalog(), &Some(sent)))
        .payload
        .unwrap();
    assert_eq!(payload["reply_to_run"]["agent"], "agent");
    assert_eq!(payload["reply_to_run"]["schedule"], "daily");
}

#[test]
fn screen_ignores_the_message_when_choosing_the_agent() {
    let req = run(screened(
        &bang(7, "run disk-alert; rm -rf /"),
        &cfg(vec![7]),
        &mut limiter(),
    ));
    assert_eq!(req.agent, "telegram-assistant");
}

#[test]
fn plain_prose_carries_no_command() {
    let payload = run(said("how's disk?", &None, &empty_catalog())).payload.unwrap();
    assert_eq!(payload["text"], "how's disk?");
    assert!(payload["command"].is_null(), "prose must not look like an invocation");
}

#[test]
fn an_invocation_reaches_the_dispatcher_as_a_resolved_name_and_raw_args() {
    let text = "/commit_message --staged src/";
    let inv = invocation("commit_message", "--staged src/", Some("commit-message"));
    let payload = run(said(text, &inv, &catalog())).payload.unwrap();
    assert_eq!(payload["command"]["name"], "commit-message");
    assert_eq!(payload["command"]["args"], "--staged src/");
    assert_eq!(payload["text"], text);
}

#[test]
fn an_invocation_without_arguments_carries_an_empty_string() {
    let inv = invocation("commit_message", "", Some("commit-message"));
    let payload = run(said("/commit_message", &inv, &catalog())).payload.unwrap();
    assert_eq!(payload["command"]["args"], "");
}

#[test]
fn an_unknown_command_is_answered_rather_than_improvised() {
    let a = answer(said("/typo", &invocation("typo", "", None), &catalog()));
    assert!(a.contains("/typo"), "{a}");
    assert!(a.contains("/commit_message"), "{a}");
    assert_eq!(a, unknown_command_text("typo", &catalog()));
}

#[test]
fn help_lists_the_catalog_without_running_anything() {
    let a = answer(said("/help", &invocation("help", "", None), &catalog()));
    assert!(a.contains("/commit_message"), "{a}");
    assert!(a.contains("Writes a commit message."), "{a}");
    assert_eq!(a, help_text(&catalog()));
}

#[test]
fn help_is_still_useful_with_an_empty_catalog() {
    let a = answer(said("/help", &invocation("help", "", None), &empty_catalog()));
    assert!(a.contains("No commands installed"), "{a}");
}

#[test]
fn an_installed_help_command_beats_the_builtin() {
    let inv = invocation("help", "", Some("help"));
    let payload = run(said("/help", &inv, &catalog())).payload.unwrap();
    assert_eq!(payload["command"]["name"], "help");
}

#[test]
fn the_allowlist_is_checked_before_any_command_is_answered() {
    let s = screen(
        &bang(99, "/help"),
        &cfg(vec![7]),
        true,
        &invocation("help", "", None),
        &catalog(),
        &None,
    );
    assert!(is_rejected(s));
}

#[test]
fn an_unknown_command_still_spends_rate_budget() {
    let c = cfg(vec![7]);
    let mut lim = Limiter { left: 1 };
    let msg = bang(7, "/typo");
    let inv = invocation("typo", "", None);
    let within = lim.verdict(&msg, &c);
    assert!(matches!(
        screen(&msg, &c, within, &inv, &catalog(), &None),
        Screened::Answer(_)
    ));
    let within = lim.verdict(&msg, &c);
    assert_eq!(
        rejected(screen(&msg, &c, within, &inv, &catalog(), &None)),
        "rate limit exceeded"
    );
}

// --- typed commands ---

#[test]
fn a_command_that_needs_a_yes_runs_only_after_one() {
    let mut c = Confirmations::default();
    let args = vec!["x".to_string()];
    match handle_typed_command(&mut c, "s", "rm", &args, OsDecision::Confirm, 120, 30, 0) {
        TypedStep::Answer(a) => assert!(a.contains("rm x"), "{a}"),
        TypedStep::Run(_) => panic!("it ran before the yes"),
    }
    assert_eq!(
        handle_confirmation(&mut c, "s", 120, 1).unwrap(),
        ("rm".to_string(), args)
    );
    assert!(handle_confirmation(&mut c, "s", 120, 1).is_err());
}

#[test]
fn a_denied_typed_command_is_refused_and_an_allowed_one_starts() {
    let mut c = Confirmations::default();
    match handle_typed_command(&mut c, "s", "rm", &[], OsDecision::Deny, 120, 30, 0) {
        TypedStep::Run(RunStep::Refused(o)) => assert!(o.is_error),
        TypedStep::Answer(a) => assert!(a.contains("rm")),
        TypedStep::Run(RunStep::Spawn(_)) => panic!("a denied command started"),
    }
    match handle_typed_command(&mut c, "s", "ls", &[], OsDecision::Allow, 120, 30, 0) {
        TypedStep::Run(RunStep::Spawn(s)) => {
            assert_eq!((s.program.as_str(), s.label.as_str()), ("ls", "os:ls"));
            assert_eq!((s.owner_agent.as_str(), s.owner_plugin), ("os", None));
            assert_eq!(s.deadline_seconds, 30);
        }
        _ => panic!("an allowed command must start"),
    }
}

#[test]
fn a_refused_trigger_says_why() {
    let t = not_accepted_text(&SubmitRejected::QueueFull { depth: 64 });
    assert!(!t.is_empty());
    assert_ne!(t, not_accepted_text(&SubmitRejected::Unavailable));
}

// --- environment ---

fn req(source: TriggerSource) -> TriggerRequest {
    TriggerRequest {
        agent: "a".into(),
        source,
        actor: None,
        session_id: None,
        reply_to: None,
        schedule: None,
        args: vec![],
        payload: None,
    }
}

fn json(text: &str) -> Value {
    serde_json::from_str(text).unwrap()
}

fn get<'a>(env: &'a [(String, String)], key: &str) -> Option<&'a str> {
    env.iter().find(|(k, _)| k == key).map(|(_, v)| v.as_str())
}

#[test]
fn trigger_env_always_carries_the_source() {
    let env = trigger_env(&req(TriggerSource::Telegram));
    assert_eq!(get(&env, "AGENT_TRIGGER_SOURCE"), Some("telegram"));
}

#[test]
fn trigger_env_omits_absent_optional_fields() {
    let env = trigger_env(&req(TriggerSource::Cli));
    assert!(get(&env, "AGENT_TRIGGER_ACTOR").is_none());
    assert!(get(&env, "AGENT_TRIGGER_REPLY_TO").is_none());
    assert!(get(&env, "AGENT_SESSION_ID").is_none());
    assert!(get(&env, "AGENT_TRIGGER_PAYLOAD").is_none());
}

#[test]
fn trigger_env_carries_actor_and_reply_to() {
    let mut r = req(TriggerSource::Telegram);
    r.actor = Some("123".into());
    r.reply_to = Some("456".into());
    let env = trigger_env(&r);
    assert_eq!(get(&env, "AGENT_TRIGGER_ACTOR"), Some("123"));
    assert_eq!(get(&env, "AGENT_TRIGGER_REPLY_TO"), Some("456"));
}

#[test]
fn trigger_env_carries_session_id() {
    let mut r = req(TriggerSource::Telegram);
    r.session_id = Some("chat-42".into());
    assert_eq!(get(&trigger_env(&r), "AGENT_SESSION_ID"), Some("chat-42"));
}

#[test]
fn trigger_env_serializes_payload_as_json() {
    let mut r = req(TriggerSource::Telegram);
    r.payload = Some(json(r#"{"text": "hi", "chat_id": 7}"#));
    let env = trigger_env(&r);
    let raw = get(&env, "AGENT_TRIGGER_PAYLOAD").expect("payload must be present");
    let parsed = json(raw);
    assert_eq!(parsed["text"], "hi");
    assert_eq!(parsed["chat_id"], 7);
}

#[test]
fn trigger_env_keeps_message_text_out_of_argv() {
    let mut r = req(TriggerSource::Telegram);
    r.payload = Some(json(r#"{"text": "; rm -rf / #"}"#));
    let env = trigger_env(&r);
    assert!(r.args.is_empty(), "args must stay empty");
    let raw = get(&env, "AGENT_TRIGGER_PAYLOAD").unwrap();
    assert!(raw.contains("rm -rf"), "payload carries it verbatim: {raw}");
}

#[test]
fn trigger_env_never_emits_agent_reserved_keys() {
    let mut r = req(TriggerSource::Telegram);
    r.actor = Some("1".into());
    r.reply_to = Some("2".into());
    r.payload = Some(json("{}"));
    for (k, _) in trigger_env(&r) {
        assert!(
            k.starts_with("AGENT_TRIGGER_") || k == "AGENT_SESSION_ID",
            "unexpected key produced: {k}"
        );
    }
}
