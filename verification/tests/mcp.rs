use dotagent::discovery::{discover, DiscoveredAgent, Discovery, ManifestLoad, ScanEntry};
use dotagent::manifest::{AgentManifest, Lifecycle, PluginRef, ScheduleDecl};
use dotagent::mcp::calls::{tools_call, Installed, ToolStep};
use dotagent::mcp::commands::{call_command, get_command, list_commands, CommandStep, RenderedCommand};
use dotagent::mcp::memory_tools::{
    call_memory, forget_answer, keep_first, memory_unavailable, recall_answer, remember_answer,
    render_memories, run_readonly, supersede_answer, topics_answer, Memory, MemoryStep, ReadonlyEnd,
    StoreRequest,
};
use dotagent::mcp::remediation::{
    call_remediation, finish_remediation, remediation_tools, resolve_remediation, RemediationStep,
};
use dotagent::mcp::rpc::{
    agent_call, handle_line, route_tool, serves_from_memory, tool_response, AgentCall, Handler,
    RpcRequest, RpcStep, RunArguments, ToolCall,
};
use dotagent::mcp::skills::{
    call_skill, finish_script, load_skill, read_skill_file, run_skill_script, script_env,
    script_request, skill_file_text, Inside, Skill, SkillFile, SkillRead, SkillStep,
};
use dotagent::mcp::tools::{
    agent_tools, command_tools, describe, introspection_tools, memory_tools, resolve_agent,
    resolve_skill, schema, skill_catalog, tools_list, tools_to_json, Arg, ArgKind, Schemas, Switches,
};
use dotagent::mcp::{
    cap, could_not_run, execute_result, number_arg, plan_on_demand, str_arg, string_array,
    CallToolResult,
};
use dotagent::outcome::{OrchestratedOutcome, RunOutcome};
use dotagent::process::ProcessEnd;
use serde_json::Value;

const VERSION: &str = "2024-11-05";

fn parse(text: &str) -> Value {
    serde_json::from_str(text).unwrap()
}

fn unless_null(v: Option<&Value>) -> Option<Value> {
    v.filter(|v| !v.is_null()).cloned()
}

/// A line read into a request.
fn typed(line: &str) -> Result<RpcRequest, String> {
    let v: Value = serde_json::from_str(line).map_err(|e| e.to_string())?;
    let method = v.get("method").and_then(Value::as_str).ok_or("missing field `method`")?;
    Ok(RpcRequest {
        id: unless_null(v.get("id")),
        method: method.to_string(),
        params: unless_null(v.get("params")),
    })
}

/// Params read into a tool call.
fn typed_call(params: Value) -> Result<ToolCall, String> {
    let name = params.get("name").and_then(Value::as_str).ok_or("missing field `name`")?;
    Ok(ToolCall { name: name.to_string(), arguments: unless_null(params.get("arguments")) })
}

/// What a line is answered with, as text.
fn answer(line: &str) -> Option<String> {
    match handle_line(typed(line), VERSION, "1.2.3") {
        RpcStep::Silent => None,
        RpcStep::Respond(r) => Some(r.to_text()),
        RpcStep::ToolsList { .. } => panic!("a list was asked for"),
        RpcStep::ToolsCall { id, params } => {
            match tools_call(&nothing_installed(), id, params.map(typed_call)) {
                ToolStep::Respond(r) => Some(r.to_text()),
                ToolStep::Agent { id, tool, .. } => match agent_call(&Vec::new(), id, &tool, None) {
                    AgentCall::Respond(r) => Some(r.to_text()),
                    AgentCall::Run { .. } => panic!("nothing is installed"),
                },
                _ => panic!("nothing is installed"),
            }
        }
    }
}

fn nothing_installed() -> Installed {
    Installed {
        found: discover(Vec::new()),
        on: Switches { memory: true, skills: true, commands: true },
        skills: Vec::new(),
        menu: Vec::new(),
    }
}

fn manifest(name: &str) -> AgentManifest {
    AgentManifest {
        name: name.into(),
        tool: format!("run-{name}"),
        description: None,
        monitor: true,
        schedules: Vec::new(),
        preflight: Vec::new(),
        on_success: Vec::new(),
        on_failure: Vec::new(),
        notifiers: Vec::new(),
        lifecycle: Lifecycle {
            persistent: false,
            key: None,
            max_instances: 1,
            idle_timeout_seconds: 60,
            max_invocations: 0,
        },
        security_explicit: true,
        memory: None,
        assistant: None,
    }
}

fn found(names: &[&str]) -> Discovery {
    discover(
        names
            .iter()
            .map(|n| ScanEntry {
                dir: format!("/agents/{n}"),
                load: ManifestLoad::Loaded(manifest(n)),
            })
            .collect(),
    )
}

fn gated(name: &str, remediation: Option<&str>) -> DiscoveredAgent {
    let mut m = manifest(name);
    m.preflight.push(PluginRef {
        plugin: "preflight-warp".into(),
        events: Vec::new(),
        remediation: remediation.map(str::to_string),
        remediation_tool: format!("remediate-{name}-preflight-warp"),
    });
    DiscoveredAgent { manifest: m, dir: "/tmp".into() }
}

fn skill(name: &str, tool: &str, body: &str) -> Skill {
    Skill {
        name: name.into(),
        tool: tool.into(),
        description: "Does a thing.".into(),
        body: body.into(),
        timeout_seconds: 300,
        files: Vec::new(),
    }
}

fn rendered(r: &CallToolResult) -> String {
    r.to_json().to_string()
}

// --- requests ---

#[test]
fn unknown_method_yields_method_not_found() {
    let s = answer(r#"{"jsonrpc":"2.0","id":1,"method":"nope"}"#).expect("request must be answered");
    assert!(s.contains("-32601"), "{s}");
}

#[test]
fn malformed_json_yields_parse_error_with_null_id() {
    let s = answer("{not json").expect("must answer");
    assert!(s.contains("-32700"), "{s}");
    assert!(s.contains("\"id\":null"), "{s}");
}

#[test]
fn notification_is_not_answered() {
    assert!(answer(r#"{"jsonrpc":"2.0","method":"notifications/initialized"}"#).is_none());
}

#[test]
fn initialize_echoes_client_protocol_version() {
    let s = answer(
        r#"{"jsonrpc":"2.0","id":1,"method":"initialize","params":{"protocolVersion":"2025-06-18"}}"#,
    )
    .expect("must answer");
    assert!(s.contains("2025-06-18"), "{s}");
    assert!(s.contains(r#""name":"dotagent""#), "{s}");
}

#[test]
fn initialize_falls_back_to_default_version() {
    let s = answer(r#"{"jsonrpc":"2.0","id":1,"method":"initialize"}"#).expect("must answer");
    assert!(s.contains(VERSION), "{s}");
}

#[test]
fn tools_call_without_params_is_invalid_params() {
    let s = answer(r#"{"jsonrpc":"2.0","id":3,"method":"tools/call"}"#).expect("must answer");
    assert!(s.contains("-32602"), "{s}");
}

#[test]
fn tools_call_with_unknown_tool_is_invalid_params() {
    let s = answer(
        r#"{"jsonrpc":"2.0","id":4,"method":"tools/call","params":{"name":"run-nope-nope"}}"#,
    )
    .expect("must answer");
    assert!(s.contains("-32602"), "{s}");
    assert!(s.contains("unknown tool"), "{s}");
}

#[test]
fn ping_is_answered_with_an_empty_object() {
    assert_eq!(
        answer(r#"{"jsonrpc":"2.0","id":"a","method":"ping"}"#).unwrap(),
        r#"{"jsonrpc":"2.0","id":"a","result":{}}"#
    );
}

#[test]
fn a_line_that_holds_no_request_is_answered_with_what_reading_it_gave() {
    let refused = |e: &str| match handle_line(Err(e.to_string()), VERSION, "1.2.3") {
        RpcStep::Respond(r) => r.to_text(),
        other => panic!("{other:?}"),
    };
    assert_eq!(
        refused("missing field `method` at line 1 column 24"),
        r#"{"jsonrpc":"2.0","id":null,"error":{"code":-32700,"message":"invalid JSON: missing field `method` at line 1 column 24"}}"#
    );
    let read = typed(r#"{"jsonrpc":"2.0","id":1,"method":"x","params":{"a":1}}"#).unwrap();
    assert!(!read.is_notification());
    assert_eq!(read.params.unwrap()["a"], 1);
    let unfit = Some(Err("invalid type: integer `7`, expected a string".to_string()));
    match tools_call(&nothing_installed(), Value::from(5), unfit) {
        ToolStep::Respond(r) => assert_eq!(
            r.to_text(),
            r#"{"jsonrpc":"2.0","id":5,"error":{"code":-32602,"message":"invalid type: integer `7`, expected a string"}}"#
        ),
        other => panic!("{other:?}"),
    }
}

#[test]
fn of_two_arguments_with_one_name_the_later_is_the_schema() {
    let arg = |kind| Arg { name: "n", kind, about: None, required: false };
    let s = schema(&vec![arg(ArgKind::Text), arg(ArgKind::Integer)]);
    assert_eq!(s["properties"].to_string(), r#"{"n":{"type":"integer"}}"#);
}

#[test]
fn a_tool_goes_to_the_handler_of_its_name() {
    assert_eq!(route_tool("remediate-a-b", true, false, true), Handler::Remediation);
    assert_eq!(route_tool("skill-read", true, false, true), Handler::Skill);
    assert_eq!(route_tool("command-list", true, false, true), Handler::Command);
    assert_eq!(route_tool("memory-recall", true, false, true), Handler::Memory);
    assert_eq!(route_tool("run-a", true, false, true), Handler::Agent);
    assert!(serves_from_memory("dotagent-status"));
    assert!(!serves_from_memory("run-a"));
}

#[test]
fn a_tool_answer_is_a_result_even_when_it_failed() {
    let r = tool_response(Value::from(7), &CallToolResult::text("no", true)).to_json();
    assert_eq!(r["id"], 7);
    assert_eq!(r["result"]["isError"], true);
    assert_eq!(r["result"]["content"][0]["text"], "no");
    assert!(r.get("error").is_none());
}

// --- agents ---

#[test]
fn only_a_listed_agent_runs() {
    let agents = found(&["alpha", "beta"]).agents;
    assert_eq!(resolve_agent(&agents, "run-beta").as_deref(), Some("beta"));
    assert_eq!(resolve_agent(&agents, "run-gamma"), None);
    let arguments = RunArguments { schedule: None, args: vec!["-x".into()] };
    match agent_call(&agents, Value::from(1), "run-alpha", Some(Ok(arguments))) {
        AgentCall::Run { id, agent, arguments } => {
            assert_eq!((id, agent.as_str()), (Value::from(1), "alpha"));
            assert_eq!(arguments.args, vec!["-x".to_string()]);
        }
        AgentCall::Respond(r) => panic!("{}", r.to_json()),
    }
    match agent_call(&agents, Value::from(1), "run-alpha", Some(Err("bad".into()))) {
        AgentCall::Respond(r) => {
            let s = r.to_json().to_string();
            assert!(s.contains("-32602") && s.contains("bad"), "{s}");
        }
        AgentCall::Run { .. } => panic!("malformed arguments must not run"),
    }
}

#[test]
fn an_on_demand_run_is_marked_as_one() {
    let at = found(&["alpha"]);
    let arguments = RunArguments { schedule: None, args: vec!["x".into()] };
    let run = plan_on_demand(&at, "alpha", &arguments, "trigger").unwrap();
    assert_eq!(run.plan.schedule_id, "trigger");
    assert_eq!(run.plan.args, vec!["x".to_string()]);
    assert_eq!(run.dir, "/agents/alpha");
    assert!(plan_on_demand(&at, "ghost", &arguments, "trigger").is_err());
}

fn ran(exit_code: i32, stdout: &str, stderr: &str, timed_out: bool) -> OrchestratedOutcome {
    OrchestratedOutcome::Ran(RunOutcome {
        exit_code,
        duration_seconds: 9,
        stdout_tail: stdout.into(),
        stderr_tail: stderr.into(),
        stdout_truncated_lines: 0,
        stderr_truncated_lines: 0,
        timed_out,
    })
}

#[test]
fn every_end_of_a_run_has_its_words() {
    let r = execute_result("a", ran(0, "hello", "", false));
    assert_eq!((r.text.as_str(), r.is_error), ("hello", false));
    let r = execute_result("a", ran(0, " \n", "", false));
    assert_eq!((r.text.as_str(), r.is_error), ("a finished with no output.", false));
    let r = execute_result("a", ran(3, "", "boom", false));
    assert_eq!((r.text.as_str(), r.is_error), ("a exited 3.\nboom", true));
    let r = execute_result("a", ran(124, "", "slow", true));
    assert_eq!((r.text.as_str(), r.is_error), ("a timed out after 9s.\nslow", true));
    let blocked = |suggest: Option<&str>| OrchestratedOutcome::PreflightFailed {
        plugin: "p".into(),
        suggest: suggest.map(str::to_string),
    };
    let r = execute_result("a", blocked(Some("connect")));
    assert_eq!(
        (r.text.as_str(), r.is_error),
        ("a was blocked by preflight check p: connect", true)
    );
    let r = execute_result("a", blocked(None));
    assert_eq!(r.text, "a was blocked by preflight check p");
    assert!(could_not_run("a", "no state").text.contains("no state"));
}

// --- remediation ---

#[test]
fn a_declared_remediation_becomes_a_tool_naming_the_command() {
    let tools = remediation_tools(&vec![gated("needs-vpn", Some("warp-cli connect"))], &Value::Null);
    assert_eq!(tools.len(), 1);
    assert_eq!(tools[0].name, "remediate-needs-vpn-preflight-warp");
    assert!(tools[0].description.contains("warp-cli connect"), "{}", tools[0].description);
}

#[test]
fn a_preflight_without_remediation_publishes_nothing() {
    assert!(remediation_tools(&vec![gated("x", None)], &Value::Null).is_empty());
}

#[test]
fn an_empty_remediation_is_ignored() {
    assert!(remediation_tools(&vec![gated("x", Some("   "))], &Value::Null).is_empty());
}

#[test]
fn two_agents_gated_by_the_same_plugin_get_separate_tools() {
    let agents = vec![
        gated("needs-vpn", Some("warp-cli connect")),
        gated("also-needs-vpn", Some("warp-cli connect")),
    ];
    assert_eq!(remediation_tools(&agents, &Value::Null).len(), 2);
}

#[test]
fn an_unknown_remediation_is_refused_rather_than_guessed() {
    match call_remediation(&Vec::new(), "remediate-nope-nope") {
        RemediationStep::Answer(r) => assert!(rendered(&r).contains(r#""isError":true"#)),
        _ => panic!("it must be refused"),
    }
}

#[test]
fn a_non_remediation_tool_is_not_claimed() {
    let agents = Vec::new();
    assert!(matches!(call_remediation(&agents, "run-something"), RemediationStep::NotMine));
    assert!(matches!(call_remediation(&agents, "skill-x"), RemediationStep::NotMine));
}

#[test]
fn a_remediation_runs_exactly_what_was_declared() {
    let agents = vec![gated("needs-vpn", Some("warp-cli connect"))];
    let tool = "remediate-needs-vpn-preflight-warp";
    assert_eq!(resolve_remediation(&agents, tool).unwrap().agent, "needs-vpn");
    let (remedy, request) = match call_remediation(&agents, tool) {
        RemediationStep::Run { remedy, request } => (remedy, request),
        _ => panic!("it is declared"),
    };
    assert_eq!(remedy.command, "warp-cli connect");
    // An argument list, never a shell line.
    assert_eq!(request.program, "warp-cli");
    assert_eq!(request.args, vec!["connect".to_string()]);
    let done = ProcessEnd::Finished { code: Some(0), stdout: "up".into(), stderr: String::new() };
    let (result, entry) = finish_remediation(&remedy, &done);
    assert!(!result.is_error);
    let entry = entry.expect("what ran is recorded");
    assert_eq!((entry.exit_code, entry.timed_out), (0, false));
    assert_eq!(entry.command, "warp-cli connect");
    let (result, entry) =
        finish_remediation(&remedy, &ProcessEnd::NotStarted { error: "no sh".into() });
    assert!(result.is_error && result.text.contains("no sh"));
    assert!(entry.is_none());
    let (result, entry) = finish_remediation(&remedy, &ProcessEnd::TimedOut { seconds: 60 });
    assert!(result.is_error);
    assert!(entry.unwrap().timed_out);
}

// --- text ---

#[test]
fn cap_leaves_short_text_untouched() {
    assert_eq!(cap("hello", 100), "hello");
}

#[test]
fn cap_marks_the_truncation_instead_of_hiding_it() {
    let long = "x".repeat(100);
    let out = cap(&long, 10);
    assert!(out.starts_with("xxxxxxxxxx"));
    assert!(out.contains("truncated"), "{out}");
    assert!(out.contains("100"), "must say how much was dropped: {out}");
}

#[test]
fn cap_never_splits_a_multibyte_char() {
    // "é" is two bytes; cutting at 1 would panic on a naive slice.
    let text = "é".repeat(20);
    let out = cap(&text, 5);
    assert!(out.contains("truncated"));
    assert!(out.starts_with("éé"), "{out}");
}

#[test]
fn string_array_tolerates_absent_and_malformed_arguments() {
    assert!(string_array(&parse("{}"), "topics").is_empty());
    assert!(string_array(&parse(r#"{"topics": "x"}"#), "topics").is_empty());
    assert_eq!(
        string_array(&parse(r#"{"topics": ["a", 2, "b"]}"#), "topics"),
        vec!["a".to_string(), "b".to_string()]
    );
}

#[test]
fn arguments_are_trimmed_and_clamped() {
    let args = parse(r#"{"q": "  hi ", "limit": 900, "low": 0}"#);
    assert_eq!(str_arg(&args, "q"), "hi");
    assert_eq!(str_arg(&args, "none"), "");
    assert_eq!(number_arg(&args, "limit", 10, 1, 50), 50);
    assert_eq!(number_arg(&args, "low", 10, 1, 50), 1);
    assert_eq!(number_arg(&args, "none", 10, 1, 50), 10);
}

// --- skills ---

#[test]
fn loading_a_skill_lists_the_files_beside_it() {
    let mut s = skill("weekly", "skill-weekly", "Step one.");
    s.files.push(SkillFile { path: "references/glossary.md".into(), runnable: false });
    s.files.push(SkillFile { path: "scripts/report.sh".into(), runnable: true });
    let text = rendered(&load_skill(&s));
    assert!(text.contains("Step one."));
    assert!(text.contains("references/glossary.md"), "{text}");
    assert!(text.contains("skill-read"), "{text}");
    assert!(text.contains("skill-run"), "{text}");
    assert!(text.contains(r#""isError":false"#));
}

#[test]
fn a_skill_with_no_extra_files_returns_only_the_procedure() {
    let text = rendered(&load_skill(&skill("bare", "skill-bare", "Just this.")));
    assert!(text.contains("Just this."));
    assert!(!text.contains("Files in this skill"), "{text}");
}

#[test]
fn skill_catalog_drops_a_colliding_name() {
    // `a.b` and `a/b` both sanitize to `skill-a-b`.
    let skills = vec![skill("a.b", "skill-a-b", "one"), skill("a/b", "skill-a-b", "two")];
    let catalog = skill_catalog(&skills);
    assert_eq!(catalog.len(), 1, "shadowing must not be silent in the catalog");
    assert_eq!(skills[catalog[0]].tool, "skill-a-b");
    assert_eq!(skills[catalog[0]].body, "one", "first discovered wins");
    assert_eq!(resolve_skill(&skills, "skill-a-b").unwrap().body, "one");
}

#[test]
fn skill_read_requires_both_arguments() {
    match read_skill_file(&parse(r#"{"skill": "x"}"#)) {
        Inside::Answer(r) => assert!(rendered(&r).contains(r#""isError":true"#)),
        Inside::LookUp { .. } => panic!("a path is required"),
    }
    match read_skill_file(&parse(r#"{"skill": "x", "path": "a.md"}"#)) {
        Inside::LookUp { skill, path, .. } => assert_eq!((skill.as_str(), path.as_str()), ("x", "a.md")),
        Inside::Answer(r) => panic!("{}", r.text),
    }
}

#[test]
fn a_non_skill_tool_is_not_claimed_by_the_skill_handler() {
    let skills = Vec::new();
    for tool in ["run-something", "memory-recall"] {
        assert!(matches!(call_skill(tool, &Value::Null, true, &skills), SkillStep::NotMine));
    }
}

#[test]
fn a_skill_script_runs_with_its_own_owner_and_deadline() {
    let s = skill("weekly", "skill-weekly", "Step one.");
    let step = run_skill_script(&parse(
        r#"{"skill": "weekly", "script": "scripts/report.sh", "args": ["-v"]}"#,
    ));
    let args = match step {
        Inside::LookUp { skill, path, args } => {
            assert_eq!((skill.as_str(), path.as_str()), ("weekly", "scripts/report.sh"));
            args
        }
        Inside::Answer(r) => panic!("{}", r.text),
    };
    let request = script_request(&s, "/skills/weekly/scripts/report.sh", "scripts/report.sh", args);
    assert_eq!(request.program, "/skills/weekly/scripts/report.sh");
    assert_eq!(request.args, vec!["-v".to_string()]);
    assert_eq!(request.deadline_seconds, 300);
    assert!(script_env(&s, "/skills/weekly").iter().any(|(_, v)| v == "/skills/weekly"));
    let failed =
        ProcessEnd::Finished { code: Some(2), stdout: String::new(), stderr: "bad flag".into() };
    let (result, entry) = finish_script(&s, "scripts/report.sh", &failed);
    assert!(result.is_error && result.text.contains("bad flag"), "{}", result.text);
    assert_eq!(entry.unwrap().exit_code, 2);
}

#[test]
fn a_skill_file_comes_back_as_text_or_says_why_not() {
    assert_eq!(skill_file_text("a.md", &SkillRead::Text("body".into())).text, "body");
    assert!(skill_file_text("a.md", &SkillRead::Refused("outside".into())).is_error);
    let r = skill_file_text("a.md", &SkillRead::Unreadable("gone".into()));
    assert!(r.is_error && r.text.contains("gone"), "{}", r.text);
}

// --- commands ---

#[test]
fn commands_are_listed_and_rendered() {
    let menu = vec!["/review — Reviews.".to_string()];
    assert!(list_commands(&menu).text.contains("/review"));
    assert!(matches!(
        call_command("run-a", &Value::Null, true, &menu),
        CommandStep::NotMine
    ));
    match call_command("command-get", &parse(r#"{"name": "review", "args": "x"}"#), true, &menu) {
        CommandStep::Resolve { name, args } => {
            assert_eq!((name.as_str(), args.as_str()), ("review", "x"));
        }
        _ => panic!("it names a command"),
    }
    let found = RenderedCommand { prompt: "Look at x.".into(), allowed_tools: None };
    let r = get_command("review", &Some(found), "review");
    assert!(!r.is_error && r.text.contains("Look at x."), "{}", r.text);
    let r = get_command("nope", &None, "review");
    assert!(r.is_error && r.text.contains("review"), "{}", r.text);
}

// --- memory ---

fn fact(id: &str, date: &str, text: &str, topics: &[&str]) -> Memory {
    Memory {
        id: id.into(),
        date: date.into(),
        text: text.into(),
        topics: topics.iter().map(|t| t.to_string()).collect(),
    }
}

#[test]
fn recall_results_lead_with_an_addressable_id() {
    let hits = vec![fact("01ABC", "2026-08-21", "prefere reunião depois das 14h", &["agenda"])];
    assert_eq!(
        render_memories(&hits),
        "[01ABC] 2026-08-21: prefere reunião depois das 14h (topics: agenda)"
    );
}

#[test]
fn mcp_a_fact_with_no_date_renders_without_an_empty_prefix() {
    let hits = vec![fact("01ABC", "", "fato numa página", &[])];
    assert_eq!(render_memories(&hits), "[01ABC] fato numa página");
}

#[test]
fn the_memory_catalog_offers_correction_as_well_as_capture() {
    let names: Vec<String> = memory_tools(true).into_iter().map(|t| t.name).collect();
    for expected in [
        "memory-remember",
        "memory-recall",
        "memory-topics",
        "memory-supersede",
        "memory-forget",
    ] {
        assert!(names.contains(&expected.to_string()), "{names:?}");
    }
}

#[test]
fn memory_tools_become_store_requests() {
    let at = found(&["alpha"]);
    match call_memory("memory-remember", &parse(r#"{"text": "t", "topics": ["a"]}"#), &at) {
        MemoryStep::Store(StoreRequest::Remember { text, topics }) => {
            assert_eq!((text.as_str(), topics), ("t", vec!["a".to_string()]));
        }
        _ => panic!("it has a text"),
    }
    // The topic asks the graph; it wins over the words.
    match call_memory("memory-recall", &parse(r#"{"query": "q", "topic": " ops ", "limit": 99}"#), &at) {
        MemoryStep::Store(StoreRequest::RecallTopic { topic, limit }) => {
            assert_eq!((topic.as_str(), limit), ("ops", 50));
        }
        _ => panic!("it names a topic"),
    }
    match call_memory("memory-recall", &parse(r#"{"query": "q"}"#), &at) {
        MemoryStep::Store(StoreRequest::Recall { query, limit }) => {
            assert_eq!((query.as_str(), limit), ("q", 10));
        }
        _ => panic!("it has words only"),
    }
    match call_memory("dotagent-inspect", &parse(r#"{"agent": " "}"#), &at) {
        MemoryStep::Answer(r) => assert_eq!((r.text.as_str(), r.is_error), ("Which agent?", true)),
        _ => panic!("a blank name must be refused"),
    }
    match call_memory("dotagent-logs", &parse(r#"{"agent": "alpha"}"#), &at) {
        MemoryStep::Readonly { argv } => assert!(argv.contains(&"alpha".to_string()), "{argv:?}"),
        _ => panic!("the agent is known"),
    }
    match call_memory("dotagent-logs", &parse(r#"{"agent": "; rm -rf"}"#), &at) {
        MemoryStep::Answer(r) => assert!(r.is_error),
        _ => panic!("only a known name reaches a subcommand"),
    }
    assert!(matches!(call_memory("run-a", &Value::Null, &at), MemoryStep::NotMine));
}

#[test]
fn memory_answers_say_what_happened() {
    let kept = keep_first(vec![fact("1", "", "a", &[]), fact("2", "", "b", &[])], 1);
    assert_eq!(render_memories(&kept), "[1] a");
    assert_eq!(recall_answer(&Ok(kept)).text, "[1] a");
    assert!(recall_answer(&Err("locked".into())).is_error);
    assert!(!topics_answer(&Ok(vec!["a".into()])).is_error);
    assert_eq!(topics_answer(&Ok(Vec::new())).text, "No topics yet.");
    assert_eq!(topics_answer(&Ok(vec!["a".into(), "b".into()])).text, "a\nb");
    assert_eq!(
        remember_answer(&Ok(fact("7", "2026-08-21", "t", &[]))).text,
        "Remembered (2026-08-21): t"
    );
    assert_eq!(remember_answer(&Err("full".into())).text, "Could not remember: full");
    assert_eq!(supersede_answer(&Ok(fact("8", "", "t", &[]))).text, "Replaced. Now: t");
    assert_eq!(forget_answer("9", &Ok(true)).text, "Forgotten.");
    assert_eq!(forget_answer("9", &Ok(false)).text, "No memory with id 9.");
    assert!(forget_answer("9", &Ok(false)).is_error);
    assert_eq!(memory_unavailable("no home").text, "Memory unavailable: no home");
}

#[test]
fn a_read_only_subcommand_never_hides_a_failure() {
    let ok = ReadonlyEnd::Finished { success: true, stdout: "all ok".into(), stderr: String::new() };
    let r = run_readonly("status", &ok);
    assert!(!r.is_error && r.text.contains("all ok"), "{}", r.text);
    let bad = ReadonlyEnd::Finished { success: false, stdout: "x".into(), stderr: "y".into() };
    assert!(run_readonly("doctor", &bad).text.contains('x'));
    assert!(run_readonly("status", &ReadonlyEnd::NoBinary).is_error);
    let r = run_readonly("status", &ReadonlyEnd::NotRun("denied".into()));
    assert!(r.is_error && r.text.contains("denied"), "{}", r.text);
}

// --- the catalog ---

#[test]
fn description_falls_back_to_schedule_ids() {
    let mut m = manifest("x");
    m.schedules.push(ScheduleDecl { id: "daily".into(), args: Vec::new() });
    assert_eq!(describe(&m), "Run the x agent (schedules: daily).");
}

#[test]
fn description_prefers_manifest_description() {
    let mut m = manifest("x");
    m.description = Some("Does the thing.".into());
    assert_eq!(describe(&m), "Does the thing.");
}

fn schemas() -> Schemas {
    Schemas {
        run: Value::Null,
        remediation: Value::Null,
        skill: Value::Null,
        skill_read: Value::Null,
        skill_run: Value::Null,
        command_get: Value::Null,
        command_list: Value::Null,
    }
}

#[test]
fn what_is_listed_resolves_and_what_is_off_is_not_listed() {
    let at = found(&["alpha", "beta"]);
    let skills = vec![skill("weekly", "skill-weekly", "b")];
    let names = |on: Switches, any: bool| -> Vec<String> {
        let listed = tools_list(&at, on, &skills, any, &schemas()).unwrap();
        listed["tools"]
            .as_array()
            .unwrap()
            .iter()
            .map(|t| t["name"].as_str().unwrap().to_string())
            .collect()
    };
    let all = names(Switches { memory: true, skills: true, commands: true }, true);
    for expected in ["run-alpha", "run-beta", "skill-weekly", "command-list", "memory-recall"] {
        assert!(all.contains(&expected.to_string()), "{all:?}");
    }
    let few = names(Switches { memory: false, skills: false, commands: false }, true);
    for absent in ["skill-weekly", "command-list", "memory-recall"] {
        assert!(!few.contains(&absent.to_string()), "{few:?}");
    }
    assert!(few.contains(&"run-alpha".to_string()));
    assert_eq!(agent_tools(&at.agents, &Value::Null).len(), 2);
    assert!(command_tools(true, false, &schemas()).is_empty());
    assert!(!introspection_tools().is_empty());
}

#[test]
fn a_schema_names_its_arguments() {
    let s = schema(&vec![
        Arg { name: "q", kind: ArgKind::Text, about: Some("What to look for."), required: true },
        Arg { name: "limit", kind: ArgKind::Integer, about: None, required: false },
        Arg { name: "topics", kind: ArgKind::TextList, about: None, required: false },
    ]);
    assert_eq!(s["type"], "object");
    assert_eq!(s["properties"]["q"]["type"], "string");
    assert_eq!(s["properties"]["q"]["description"], "What to look for.");
    assert_eq!(s["properties"]["limit"]["type"], "integer");
    assert_eq!(s["properties"]["topics"]["items"]["type"], "string");
    assert_eq!(s["required"], parse(r#"["q"]"#));
    let listed = tools_to_json(introspection_tools());
    assert!(listed["tools"][0]["inputSchema"].is_object());
}

#[test]
fn a_call_reaches_the_handler_that_serves_it() {
    let mut at = nothing_installed();
    at.found = found(&["alpha"]);
    at.skills = vec![skill("weekly", "skill-weekly", "Step one.")];
    let call = |name: &str| {
        let params = parse(&format!("{{\"name\": \"{name}\"}}"));
        tools_call(&at, Value::from(1), Some(typed_call(params)))
    };
    assert!(matches!(call("remediate-x-y"), ToolStep::Remediation { .. }));
    assert!(matches!(call("skill-weekly"), ToolStep::Skill { .. }));
    assert!(matches!(call("command-list"), ToolStep::Command { .. }));
    assert!(matches!(call("memory-topics"), ToolStep::Memory { .. }));
    assert!(matches!(call("run-alpha"), ToolStep::Agent { .. }));
}
