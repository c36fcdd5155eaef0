use dotagent::gateway::{TriggerRequest, TriggerSource};
use dotagent::harness::{
    enabled, finalize, harness_env, harness_wants, has_afterwork, load_record, provenance,
    session_update, turn_extractor, turn_message, HarnessFacts, Loaded, RecordPlan, SessionFrame,
};
use dotagent::manifest::{AgentManifest, AssistantDecl, ExtractorDecl, Lifecycle, MemoryDecl};
use dotagent::memory::{
    add_topics, capture, extract, extractor_request, fact_value, forget, merge, recall, remember, render, stats,
    supersede, topics, turn_json, CapturedMemo, Fact, KeyedMemo, Stats,
};
use dotagent::process::ProcessEnd;

const CEILING: u64 = 1_000_000;

fn fact() -> Fact {
    Fact {
        id: "01ABC".into(),
        date: "2026-08-21".into(),
        text: "prefere reunião depois das 14h".into(),
        topics: vec!["agenda".into(), "reuniao".into()],
        seen: 3,
        agent: Some("telegram-assistant".into()),
        source: Some("telegram".into()),
    }
}

fn memo(text: &str, topics: &[&str]) -> CapturedMemo {
    CapturedMemo {
        text: text.into(),
        topics: topics.iter().map(|t| t.to_string()).collect(),
    }
}

/// A memo under the key that folds case, punctuation and surrounding space.
fn keyed(text: &str) -> KeyedMemo {
    let kept: String = text
        .chars()
        .filter(|c| c.is_alphanumeric() || c.is_whitespace())
        .collect();
    KeyedMemo { memo: memo(text, &[]), key: kept.trim().to_lowercase() }
}

fn manifest(memory: Option<MemoryDecl>, assistant: Option<AssistantDecl>) -> AgentManifest {
    AgentManifest {
        name: "dispatcher".into(),
        tool: "run-dispatcher".into(),
        description: Some("d".into()),
        monitor: true,
        schedules: Vec::new(),
        preflight: Vec::new(),
        on_success: Vec::new(),
        on_failure: Vec::new(),
        notifiers: Vec::new(),
        lifecycle: Lifecycle {
            persistent: false,
            key: None,
            max_instances: 1,
            idle_timeout_seconds: 60,
            max_invocations: 0,
        },
        security_explicit: true,
        memory,
        assistant,
    }
}

fn captures(topics: &[&str]) -> Option<MemoryDecl> {
    Some(MemoryDecl { capture: true, topics: topics.iter().map(|t| t.to_string()).collect() })
}

fn assistant(memory: bool, toolkit: bool) -> Option<AssistantDecl> {
    Some(AssistantDecl {
        enabled: true,
        memory,
        transcript_bytes_max: None,
        toolkit,
        extractor: None,
    })
}

fn request(session_id: Option<&str>, text: &str) -> TriggerRequest {
    let payload = serde_json::Value::Object(
        [("text".to_string(), serde_json::Value::from(text))].into_iter().collect(),
    );
    TriggerRequest {
        agent: "dispatcher".into(),
        source: TriggerSource::Telegram,
        actor: Some("42".into()),
        session_id: session_id.map(str::to_string),
        reply_to: None,
        schedule: None,
        args: Vec::new(),
        payload: Some(payload),
    }
}

fn facts() -> HarnessFacts {
    HarnessFacts { toolkit: None, session: None, memory_block: String::new() }
}

// --- facts on the terminal ---

#[test]
fn a_fact_renders_id_first_so_the_next_command_can_address_it() {
    assert_eq!(
        render(&fact(), false),
        "[01ABC] 2026-08-21: prefere reunião depois das 14h (agenda, reuniao) ×3"
    );
}

#[test]
fn a_fact_stated_once_renders_without_a_count() {
    let mut m = fact();
    m.seen = 1;
    assert!(!render(&m, false).contains('×'), "{}", render(&m, false));
}

#[test]
fn memory_a_fact_with_no_date_renders_without_an_empty_prefix() {
    let mut m = fact();
    m.date = String::new();
    assert!(render(&m, false).starts_with("[01ABC] prefere"));
}

#[test]
fn the_json_form_carries_provenance_for_scripting() {
    let line = render(&fact(), true);
    let parsed: serde_json::Value = serde_json::from_str(&line).expect("valid json");
    assert_eq!(parsed["id"], "01ABC");
    assert_eq!(parsed["agent"], "telegram-assistant");
    assert_eq!(parsed["source"], "telegram");
    assert_eq!(parsed["seen"], 3);
    assert_eq!(parsed["topics"][0], "agenda");
    assert_eq!(parsed, fact_value(&fact()));
}

#[test]
fn the_json_form_never_renders_a_rust_debug_shape() {
    let line = render(&fact(), true);
    assert!(!line.contains("Some("), "{line}");
    assert!(!line.contains("Provenance"), "{line}");
}

#[test]
fn the_commands_say_what_they_did() {
    let line = render(&fact(), false);
    let both = format!("{line}\n{line}\n");
    assert_eq!(recall(vec![fact(), fact()], false, 10, false), both);
    assert_eq!(recall(vec![fact(), fact()], true, 1, false), format!("{line}\n"));
    assert_eq!(recall(vec![fact(), fact()], false, 1, false), both);
    assert_eq!(recall(Vec::new(), false, 10, false), "Nothing remembered about that.\n");
    assert_eq!(recall(vec![fact()], true, 0, false), "Nothing remembered about that.\n");
    assert_eq!(recall(Vec::new(), false, 10, true), "");
    assert_eq!(remember(&fact()), "Reinforced [01ABC]: prefere reunião depois das 14h\n");
    assert_eq!(
        remember(&Fact { seen: 1, ..fact() }),
        "Remembered [01ABC]: prefere reunião depois das 14h\n"
    );
    assert_eq!(supersede(&fact()), "Replaced [01ABC]: prefere reunião depois das 14h\n");
    assert_eq!(forget("01ABC", true), Ok("Forgotten.\n".to_string()));
    assert_eq!(forget("01ABC", false), Err("no memory with id 01ABC".to_string()));
    assert_eq!(topics(&vec!["ops".into(), "cost".into()]), "ops\ncost\n");
    assert_eq!(topics(&Vec::new()), "No topics yet.\n");
    assert_eq!(
        stats(Stats { live: 11, reinforced: 22, superseded: 33, topics: 44 }),
        "facts:      11\nreinforced: 22\nsuperseded: 33\ntopics:     44\n"
    );
}

// --- capture ---

#[test]
fn an_agent_that_did_not_opt_in_captures_nothing() {
    assert!(capture(&manifest(None, None), vec![memo("a fact", &[])], 0).is_empty());
}

#[test]
fn an_opted_in_agent_captures_its_memo_lines() {
    let memos = capture(
        &manifest(captures(&[]), None),
        vec![memo("databricks cost up 30%", &["ops"])],
        0,
    );
    assert_eq!(memos.len(), 1);
    assert_eq!(memos[0].text, "databricks cost up 30%");
    assert_eq!(memos[0].topics, vec!["ops".to_string()]);
}

#[test]
fn manifest_topics_are_added_to_every_fact() {
    let memos = capture(&manifest(captures(&["ops"]), None), vec![memo("a fact", &["cost"])], 0);
    assert_eq!(memos[0].topics, vec!["cost".to_string(), "ops".to_string()]);
}

#[test]
fn a_manifest_topic_already_named_is_not_repeated() {
    let memos = capture(&manifest(captures(&["ops"]), None), vec![memo("a fact", &["ops"])], 0);
    assert_eq!(memos[0].topics, vec!["ops".to_string()]);
}

#[test]
fn extracted_facts_carry_the_manifest_topics_too() {
    let m = manifest(captures(&["ops", "cost"]), None);
    let tagged = add_topics(&m, vec![memo("a fact", &["cost"]), memo("another", &[])]);
    assert_eq!(tagged[0].topics, vec!["cost".to_string(), "ops".to_string()]);
    assert_eq!(tagged[1].topics, vec!["ops".to_string(), "cost".to_string()]);
    let plain = add_topics(&manifest(None, None), vec![memo("a fact", &["cost"])]);
    assert_eq!(plain[0].topics, vec!["cost".to_string()]);
}

#[test]
fn a_failing_run_files_nothing() {
    let m = manifest(captures(&[]), None);
    assert!(capture(&m, vec![memo("could not reach the API", &[])], 1).is_empty());
}

#[test]
fn capture_can_be_switched_off_without_deleting_the_section() {
    let off = Some(MemoryDecl { capture: false, topics: vec!["ops".into()] });
    assert!(capture(&manifest(off, None), vec![memo("a fact", &[])], 0).is_empty());
}

#[test]
fn an_assistant_agent_is_left_to_the_harness() {
    let m = manifest(captures(&[]), assistant(true, false));
    assert!(capture(&m, vec![memo("a fact", &[])], 0).is_empty());
}

#[test]
fn an_assistant_with_memory_off_still_captures_from_stdout() {
    let m = manifest(captures(&[]), assistant(false, false));
    assert_eq!(capture(&m, vec![memo("a fact", &[])], 0).len(), 1);
}

#[test]
fn output_without_memo_lines_captures_nothing() {
    assert!(capture(&manifest(captures(&[]), None), Vec::new(), 0).is_empty());
}

// --- extraction ---

#[test]
fn merge_keeps_both_sources() {
    let out = merge(vec![keyed("from the model")], vec![keyed("from the extractor")]);
    assert_eq!(out.len(), 2);
}

#[test]
fn merge_drops_a_duplicate_of_the_same_turn() {
    let out = merge(vec![keyed("same fact")], vec![keyed("same fact")]);
    assert_eq!(out.len(), 1);
}

#[test]
fn merge_ignores_surrounding_whitespace_when_comparing() {
    let out = merge(vec![keyed("same fact")], vec![keyed("  same fact  ")]);
    assert_eq!(out.len(), 1);
}

#[test]
fn merge_collapses_two_spellings_of_one_fact() {
    let out = merge(
        vec![keyed("Prefere reuniões após 14h.")],
        vec![keyed("prefere reuniões após 14h")],
    );
    assert_eq!(out.len(), 1);
    assert_eq!(out[0].memo.text, "Prefere reuniões após 14h.");
}

#[test]
fn merge_does_not_fold_accents() {
    let out = merge(vec![keyed("reuniões")], vec![keyed("reunioes")]);
    assert_eq!(out.len(), 2);
}

#[test]
fn merge_with_nothing_extracted_is_the_old_behavior() {
    let out = merge(vec![keyed("a"), keyed("b")], Vec::new());
    assert_eq!(out.len(), 2);
}

#[test]
fn merge_captures_a_turn_the_model_stayed_silent_on() {
    let out = merge(Vec::new(), vec![keyed("prefers meetings after 14h")]);
    assert_eq!(out.len(), 1);
}

#[test]
fn the_turn_encodes_as_the_documented_shape() {
    let json = turn_json("oi", "olá", "telegram", &Some("chat-1".into()));
    let back: serde_json::Value = serde_json::from_str(&json).unwrap();
    assert_eq!(back["message"], "oi");
    assert_eq!(back["reply"], "olá");
    assert_eq!(back["source"], "telegram");
    assert_eq!(back["session"], "chat-1");
    assert_eq!(
        json,
        r#"{"message":"oi","reply":"olá","source":"telegram","session":"chat-1"}"#
    );
    assert_eq!(
        turn_json("a \"b\"\n", "", "s", &None),
        r#"{"message":"a \"b\"\n","reply":"","source":"s","session":null}"#
    );
}

#[test]
fn an_extractor_that_fails_yields_nothing() {
    let done =
        |code| ProcessEnd::Finished { code: Some(code), stdout: "x".into(), stderr: String::new() };
    let found = || vec![memo("a", &[])];
    assert_eq!(extract(true, &done(0), found()).len(), 1);
    assert!(extract(true, &done(1), found()).is_empty());
    assert!(extract(false, &done(0), found()).is_empty());
    assert!(extract(true, &ProcessEnd::TimedOut { seconds: 5 }, found()).is_empty());
    let request = extractor_request(&ExtractorDecl {
        command: "extract.sh".into(),
        args: vec!["-q".into()],
        timeout_seconds: 30,
    });
    assert_eq!(request.program, "extract.sh");
    assert_eq!(request.args, vec!["-q".to_string()]);
    assert_eq!(request.deadline_seconds, 30);
}

// --- the assistant harness ---

#[test]
fn harness_off_injects_nothing() {
    let m = manifest(None, None);
    assert!(!enabled(&m));
    let given = HarnessFacts {
        toolkit: Some(("/t.json".into(), "abc".into())),
        session: Some("s-9".into()),
        memory_block: "likes rust".into(),
    };
    assert!(harness_env(&m, given).is_empty());
}

#[test]
fn first_message_gets_toolkit_but_no_session() {
    let m = manifest(None, assistant(true, true));
    assert!(harness_wants(&m).toolkit);
    let given = HarnessFacts { toolkit: Some(("/t.json".into(), "abc".into())), ..facts() };
    let env = harness_env(&m, given);
    let keys: Vec<&str> = env.iter().map(|(k, _)| k.as_str()).collect();
    assert!(keys.contains(&"AGENT_ASSISTANT_MCP_CONFIG"));
    assert!(keys.contains(&"AGENT_ASSISTANT_TOOLKIT_HASH"));
    assert!(!keys.contains(&"AGENT_ASSISTANT_SESSION"), "nothing recorded yet");
}

#[test]
fn recorded_session_is_reinjected_on_the_next_trigger() {
    let m = manifest(None, assistant(true, false));
    let env = harness_env(&m, HarnessFacts { session: Some("s-9".into()), ..facts() });
    let session = env.iter().find(|(k, _)| k == "AGENT_ASSISTANT_SESSION").map(|(_, v)| v.clone());
    assert_eq!(session.as_deref(), Some("s-9"));
}

#[test]
fn memory_recall_lands_in_env() {
    let m = manifest(None, assistant(true, false));
    assert!(harness_wants(&m).memory);
    assert_eq!(turn_message(&request(Some("c1"), "anything").payload), "anything");
    let env = harness_env(&m, HarnessFacts { memory_block: "likes rust".into(), ..facts() });
    let block = env.iter().find(|(k, _)| k == "AGENT_ASSISTANT_MEMORY").map(|(_, v)| v.clone());
    assert!(block.unwrap().contains("likes rust"));
    assert!(!harness_wants(&manifest(None, assistant(false, false))).memory);
}

#[test]
fn finalize_strips_memos_and_reports_them() {
    let outcome = finalize(
        &manifest(None, assistant(true, false)),
        &request(Some("c1"), "x"),
        "the answer\nMEMO: fact | topics: a".into(),
        ("the answer".into(), vec![memo("fact", &["a"])]),
    );
    assert_eq!(outcome.reply, "the answer");
    assert_eq!(outcome.memos.len(), 1);
    assert_eq!(outcome.memos[0].text, "fact");
}

#[test]
fn finalize_passes_through_when_harness_off() {
    let outcome = finalize(
        &manifest(None, None),
        &request(Some("c1"), "x"),
        "MEMO: should stay visible".into(),
        (String::new(), vec![memo("should stay visible", &[])]),
    );
    assert_eq!(outcome.reply, "MEMO: should stay visible");
    assert!(outcome.memos.is_empty());
}

#[test]
fn finalize_applies_session_frame_and_persists_pointer() {
    let m = manifest(None, assistant(true, false));
    let frame = Some(SessionFrame { claude_session: "s-1".into(), transcript_bytes: 500 });
    let update = session_update(&m, true, &frame, CEILING).expect("the frame is applied");
    assert_eq!(update.claude_session, "s-1");
    assert_eq!((update.transcript_bytes, update.ceiling), (500, CEILING));

    // And the next trigger sees the pointer.
    let env = harness_env(&m, HarnessFacts { session: Some("s-1".into()), ..facts() });
    assert!(env.iter().any(|(k, v)| k == "AGENT_ASSISTANT_SESSION" && v == "s-1"));
}

#[test]
fn trigger_without_session_id_skips_registry_but_keeps_memory() {
    assert_eq!(load_record(&None, Loaded::Missing), RecordPlan::Skip);
    let m = manifest(None, assistant(true, false));
    let env = harness_env(&m, HarnessFacts { memory_block: "fact".into(), ..facts() });
    assert!(env.iter().any(|(k, _)| k == "AGENT_ASSISTANT_MEMORY"));
}

#[test]
fn an_unreadable_record_starts_afresh() {
    let session = Some("c1".to_string());
    assert_eq!(load_record(&session, Loaded::Found), RecordPlan::UseLoaded);
    assert_eq!(load_record(&session, Loaded::Missing), RecordPlan::Fresh);
    assert_eq!(load_record(&session, Loaded::Unreadable), RecordPlan::Fresh);
}

#[test]
fn a_session_frame_needs_a_record_and_an_assistant() {
    let on = manifest(None, assistant(true, false));
    let frame = Some(SessionFrame { claude_session: "s".into(), transcript_bytes: 5 });
    assert!(session_update(&on, false, &frame, CEILING).is_none());
    assert!(session_update(&on, true, &None, CEILING).is_none());
    assert!(session_update(&manifest(None, None), true, &frame, CEILING).is_none());
    let mut small = assistant(true, false);
    small.as_mut().unwrap().transcript_bytes_max = Some(10);
    let update = session_update(&manifest(None, small), true, &frame, CEILING).unwrap();
    assert_eq!(update.ceiling, 10);
}

#[test]
fn captured_facts_say_who_wrote_them() {
    let p = provenance(&request(Some("c1"), "x"));
    assert_eq!(p.agent.as_deref(), Some("dispatcher"));
    assert_eq!(p.source.as_deref(), Some("telegram"));
    assert_eq!(p.session.as_deref(), Some("c1"));
    assert!(turn_extractor(&manifest(None, assistant(true, false))).is_none());
    assert!(has_afterwork(true, 0) && has_afterwork(false, 1) && !has_afterwork(false, 0));
}
