use dotagent::completions::{
    bash_tail, fish_tail, is_list_agents_suggestion, print, strip_list_agents_from_opts,
    without_helper, zsh_tail, Shell,
};
use dotagent::daemon::dispatch::{fresh_window, WindowState};
use dotagent::daemon::screen::TelegramIngressConfig;
use dotagent::discovery::{discover, DiscoveredAgent, Discovery, InvalidManifest, ManifestLoad, ScanEntry};
use dotagent::doctor::{
    count_marked, doctor, plugins_to_check, report_commands_status, report_memory_status,
    report_processes, report_secrets_status, report_skills_status, report_telegram_status,
    AgentCheck, CheckedAgent, Line, Mark, MenuCollision, NotifierCheck, PluginCheck, SecretsState,
};
use dotagent::manifest::{AgentManifest, Lifecycle, NotifierEntry, PluginNotifier, PluginRef};
use dotagent::mcp::skills::Skill;
use dotagent::status::LiveProcess;
use dotagent::utility::{
    collect_agent_logs, collect_all_agent_logs, inspect, install_note, install_text, no_logs,
    plugin_line, plugin_names, reload_pid, tail_args, uninstall_note, uninstall_text, AgentFacts,
    LogDir, PluginFacts, ScheduleFacts, ServiceManager,
};

fn v(items: &[&str]) -> Vec<String> {
    items.iter().map(|s| s.to_string()).collect()
}

fn manifest(name: &str) -> AgentManifest {
    AgentManifest {
        name: name.into(),
        tool: format!("run-{name}"),
        description: None,
        monitor: true,
        schedules: Vec::new(),
        preflight: Vec::new(),
        on_success: Vec::new(),
        on_failure: Vec::new(),
        notifiers: Vec::new(),
        lifecycle: Lifecycle {
            persistent: false,
            key: None,
            max_instances: 2,
            idle_timeout_seconds: 60,
            max_invocations: 0,
        },
        security_explicit: true,
        memory: None,
        assistant: None,
    }
}

fn hook(plugin: &str) -> PluginRef {
    PluginRef {
        plugin: plugin.into(),
        events: Vec::new(),
        remediation: None,
        remediation_tool: String::new(),
    }
}

fn agents(manifests: Vec<AgentManifest>) -> Discovery {
    discover(
        manifests
            .into_iter()
            .map(|m| ScanEntry { dir: format!("/r/{}", m.name), load: ManifestLoad::Loaded(m) })
            .collect(),
    )
}

fn texts(lines: &[Line]) -> Vec<&str> {
    lines.iter().map(|l| l.text.as_str()).collect()
}

// --- completions ---

#[test]
fn suggestions_of_the_helper_are_recognized() {
    assert!(is_list_agents_suggestion("  complete -c dotagent -n x -a \"_list-agents\" -d 'i'"));
    assert!(is_list_agents_suggestion("'_list-agents:(internal) names' \\"));
    assert!(is_list_agents_suggestion("\"_list-agents:(internal)\""));
    assert!(!is_list_agents_suggestion("            _list-agents)"));
    assert!(!is_list_agents_suggestion("complete -c dotagent -a \"run\""));
}

#[test]
fn the_helper_leaves_the_options_and_stays_in_the_dispatch() {
    assert_eq!(
        strip_list_agents_from_opts("    opts=\"run tick _list-agents help\""),
        "    opts=\"run tick help\""
    );
    assert_eq!(
        strip_list_agents_from_opts("cmd=\"dotagent _list-agents\""),
        "cmd=\"dotagent _list-agents\""
    );
    let script = "opts=\"a _list-agents\"\n'_list-agents:x' \\\ncase _list-agents) ;;\n";
    assert_eq!(without_helper(script), "opts=\"a\"\ncase _list-agents) ;;");
}

#[test]
fn a_script_ends_with_the_tail_of_its_shell() {
    for (shell, tail) in [
        (Shell::Fish, fish_tail("dotagent")),
        (Shell::Zsh, zsh_tail("dotagent")),
        (Shell::Bash, bash_tail("dotagent")),
        (Shell::Elvish, String::new()),
        (Shell::PowerShell, String::new()),
    ] {
        assert_eq!(print(shell, "one\ntwo\n", "dotagent"), format!("one\ntwo\n{tail}"));
    }
}

#[test]
fn every_tail_asks_for_names_at_completion_time() {
    let fish = fish_tail("bin");
    assert!(fish.starts_with("\n# --- dotagent: dynamic agent-name completion ---\n"), "{fish}");
    assert!(fish.contains("command bin _list-agents 2>/dev/null"), "{fish}");
    for sub in ["run", "inspect", "run-now", "logs", "install", "uninstall"] {
        let line = format!(
            "complete -c bin -n \"__fish_seen_subcommand_from {sub}\" -f -a \"(__bin_list_agents)\"\n"
        );
        assert!(fish.contains(&line), "{fish}");
    }
    for tail in [zsh_tail("bin"), bash_tail("bin")] {
        assert!(tail.contains("run|inspect|run-now|logs|install|uninstall)\n"), "{tail}");
        assert!(tail.contains("bin _list-agents 2>/dev/null"), "{tail}");
    }
    assert!(zsh_tail("bin").ends_with("compdef _bin_dynamic_wrap bin\n"));
    assert!(bash_tail("bin").contains("complete -F _bin -o bashdefault -o default bin\nfi\n"));
}

// --- logs, inspect, reload, plugins ---

#[test]
fn an_agents_logs_are_its_own_uncompressed_ones_in_order() {
    let files = v(&["a.log.2026-01-02", "a.log", "b.log", "a.log.2026-01-01.gz", "notes"]);
    assert_eq!(collect_agent_logs("a", &files), v(&["a.log.2026-01-02", "a.log"]));
    let month =
        v(&["a.log", "a.log.2026-08-06", "a.log.2026-08-05", "a.log.2026-08-01.gz", "a.log"]);
    assert_eq!(
        collect_agent_logs("a", &month),
        v(&["a.log.2026-08-05", "a.log.2026-08-06", "a.log"])
    );
    assert_eq!(
        collect_agent_logs("a", &v(&["a.log.2", "a.log.1"])),
        v(&["a.log.1", "a.log.2"])
    );
    assert!(collect_agent_logs("zz", &files).is_empty());
}

#[test]
fn all_logs_are_every_agents_logs() {
    let dirs = vec![
        LogDir { agent: "b".into(), files: v(&["b.log"]) },
        LogDir { agent: "a".into(), files: v(&["a.log.2026-01-02", "a.log", "x"]) },
    ];
    let all: Vec<(String, String)> =
        collect_all_agent_logs(&dirs).into_iter().map(|l| (l.agent, l.file)).collect();
    assert_eq!(
        all,
        vec![
            ("a".to_string(), "a.log.2026-01-02".to_string()),
            ("a".to_string(), "a.log".to_string()),
            ("b".to_string(), "b.log".to_string()),
        ]
    );
}

#[test]
fn tail_follows_only_when_asked() {
    let files = v(&["/l/a.log"]);
    assert_eq!(tail_args(50, false, &files), v(&["-n", "50", "/l/a.log"]));
    assert_eq!(tail_args(5, true, &files), v(&["-n", "5", "-F", "/l/a.log"]));
    assert_eq!(no_logs(Some("a"), "/l/a"), "no logs for a in /l/a");
    assert_eq!(no_logs(None, "/l"), "no agent logs found under /l");
}

#[test]
fn inspect_prints_what_is_on_disk() {
    let facts = AgentFacts {
        name: "a".into(),
        dir: "/r/a".into(),
        known: Some(("abc".into(), "2026-01-01".into())),
        monitor: true,
        timeout_seconds: 30,
        schedules: vec![
            ScheduleFacts {
                id: "s".into(),
                slug: "default".into(),
                heartbeat: None,
                window: None,
            },
            ScheduleFacts {
                id: "t".into(),
                slug: "x".into(),
                heartbeat: Some("{\n}".into()),
                window: Some(WindowState {
                    attempts: 2,
                    last_attempt_at: Some(910),
                    last_attempt_exit_code: Some(-1),
                    last_attempt_stderr: Some("one\ntwo\n".into()),
                    given_up: true,
                    given_up_at: Some(920),
                    ..fresh_window("a", "t", 900)
                }),
            },
            ScheduleFacts {
                id: "u".into(),
                slug: "y".into(),
                heartbeat: None,
                window: Some(fresh_window("a", "u", 900)),
            },
        ],
    };
    assert_eq!(
        inspect(&facts),
        "agent:        a\nmanifest_dir: /r/a\nmanifest_sha: abc (first seen 2026-01-01)\n\
         monitor:      true\ntimeout:      30s\n\n─── schedule 's' (slug=default) ───\n  \
         (no heartbeat)\n  (no window)\n─── schedule 't' (slug=x) ───\n  {\n  }\n  window:\n    \
         expected_at: 900\n    attempts: 2\n    last_attempt_at: 910\n    \
         last_attempt_exit_code: -1\n    last_attempt_stderr:\n      one\n      two\n    \
         given_up: true\n    given_up_at: 920\n─── schedule 'u' (slug=y) ───\n  \
         (no heartbeat)\n  window:\n    expected_at: 900\n    attempts: 0\n    given_up: false\n"
    );
}

#[test]
fn a_pid_is_a_number_that_fits() {
    assert_eq!(reload_pid(" 42\n"), Some(42));
    assert_eq!(reload_pid("-1"), Some(-1));
    assert_eq!(reload_pid("2147483648"), None);
    assert_eq!(reload_pid("x"), None);
    assert_eq!(reload_pid(""), None);
}

#[test]
fn plugins_are_named_once_in_order() {
    let mut a = manifest("a");
    a.preflight.push(hook("warp"));
    a.on_failure.push(hook("sink"));
    let mut b = manifest("b");
    b.on_success.push(hook("sink"));
    b.notifiers.push(NotifierEntry {
        driver: "plugin".into(),
        events: Vec::new(),
        plugin: Some(PluginNotifier { name: "discord".into(), events: Vec::new(), config: None }),
    });
    b.notifiers.push(NotifierEntry { driver: "desktop".into(), events: Vec::new(), plugin: None });
    assert_eq!(plugin_names(&agents(vec![a, b]).agents), v(&["discord", "sink", "warp"]));
    let known = PluginFacts::Known {
        version: None,
        kinds: v(&["\"notify\"", "\"sink\""]),
        path: "/p".into(),
    };
    assert_eq!(plugin_line("x", &known), "x\t\t\"notify\",\"sink\"\t/p");
    let failed = PluginFacts::InfoFailed { error: "e".into(), path: "/p".into() };
    assert_eq!(plugin_line("x", &failed), "x\t(info failed: e)\t/p");
    assert_eq!(
        plugin_line("x", &PluginFacts::NotFound { error: "e".into() }),
        "x\t(not found: e)"
    );
}

// --- doctor ---

#[test]
fn the_secrets_report_says_where_the_path_came_from() {
    let report = |configured: &str, env: Option<&str>| {
        texts(&report_secrets_status("/s", configured, env, &SecretsState::Absent))[0].to_string()
    };
    assert_eq!(report("/s", None), "secrets file: /s (from config.toml [secrets].file)");
    assert_eq!(report("", Some("/s")), "secrets file: /s (from DOTAGENT_SECRETS_FILE)");
    assert_eq!(report("", Some("s")), "secrets file: /s (default)");
    assert_eq!(report("s", None), "secrets file: /s (default)");
}

#[test]
fn the_secrets_report_counts_what_is_wrong() {
    let report = |state: SecretsState| report_secrets_status("/s", "", None, &state);
    let fine = report(SecretsState::Loaded { keys: 2, mode: Some(0o600), unresolved: 0 });
    assert_eq!(texts(&fine)[1], "    ✓ loaded — 2 key(s), mode 600");
    assert_eq!((count_marked(&fine, Mark::Warning), count_marked(&fine, Mark::Error)), (0, 0));
    let some = report(SecretsState::Loaded { keys: 2, mode: None, unresolved: 1 });
    assert_eq!(texts(&some)[1], "    ✓ loaded — 2 key(s), mode ?");
    assert_eq!(count_marked(&some, Mark::Warning), 1);
    let open = report(SecretsState::Insecure { permissions: 0o644 });
    assert!(texts(&open)[1].contains("mode 644") && texts(&open)[1].ends_with("chmod 600 /s"));
    assert_eq!(count_marked(&open, Mark::Warning), 1);
    let broken = report(SecretsState::Failed { error: "bad toml".into() });
    assert_eq!(texts(&broken)[1], "    ✗ bad toml");
    assert_eq!(count_marked(&broken, Mark::Error), 1);
}

#[test]
fn the_memory_report_names_the_workspace() {
    assert_eq!(
        texts(&report_memory_status(false, None, "/d", true)),
        vec!["memory: off ([memory] enabled = false)"]
    );
    assert_eq!(texts(&report_memory_status(true, None, "/d", true)), vec!["memory: /d (default)"]);
    assert_eq!(
        texts(&report_memory_status(true, None, "/d", false)),
        vec!["memory: /d (default) — created on first use"]
    );
    let missing = report_memory_status(true, Some("/w"), "/d", false);
    assert_eq!(texts(&missing)[0], "memory: /w (from config.toml)");
    assert_eq!(count_marked(&missing, Mark::Warning), 1);
    assert_eq!(count_marked(&report_memory_status(true, Some("/w"), "/d", true), Mark::Warning), 0);
}

fn skill(name: &str, tool: &str) -> Skill {
    Skill {
        name: name.into(),
        tool: tool.into(),
        description: String::new(),
        body: String::new(),
        timeout_seconds: 1,
        files: Vec::new(),
    }
}

#[test]
fn a_shadowed_skill_is_said_out_loud() {
    let bad = vec![InvalidManifest { path: "/k/SKILL.md".into(), error: "no name".into() }];
    let skills = vec![skill("a.b", "skill-a-b"), skill("a/b", "skill-a-b")];
    let lines = report_skills_status(true, None, &skills, &bad);
    assert_eq!(
        texts(&lines),
        vec![
            "skills: 2 found",
            "    ⚠ /k/SKILL.md: no name",
            "    ⚠ a/b maps to the same tool as a.b (skill-a-b) — only the first is callable",
        ]
    );
    assert_eq!(count_marked(&lines, Mark::Warning), 2);
    assert_eq!(
        texts(&report_skills_status(false, None, &skills, &bad)),
        vec!["skills: off ([skills] enabled = false)"]
    );
}

#[test]
fn a_shadowed_command_names_its_files() {
    let collisions = vec![MenuCollision {
        entry: "a_b".into(),
        commands: vec![("a-b".into(), "/c/1.md".into()), ("a_b".into(), "/c/2.md".into())],
    }];
    let lines = report_commands_status(true, None, 2, &Vec::new(), &collisions, false);
    assert_eq!(
        texts(&lines),
        vec![
            "commands: 2 found",
            "    ⚠ a-b (/c/1.md), a_b (/c/2.md) all want /a_b — only the first is in the menu",
            "    ℹ no Telegram ingress configured — no menu is published",
        ]
    );
    assert_eq!(count_marked(&lines, Mark::Warning), 1);
    assert_eq!(
        texts(&report_commands_status(true, None, 2, &Vec::new(), &Vec::new(), true)),
        vec!["commands: 2 found"]
    );
}

fn telegram(token: &str, users: &[i64]) -> TelegramIngressConfig {
    TelegramIngressConfig {
        bot_token: token.into(),
        allowed_user_ids: users.to_vec(),
        dispatcher_agent: "d".into(),
    }
}

#[test]
fn a_half_configured_ingress_is_a_warning() {
    let none: Vec<DiscoveredAgent> = Vec::new();
    assert!(report_telegram_status(&telegram("", &[]), &none).is_empty());
    for cfg in [telegram("t", &[]), telegram("", &[1]), telegram("t", &[1])] {
        assert_eq!(count_marked(&report_telegram_status(&cfg, &none), Mark::Warning), 1);
    }
    let on = report_telegram_status(&telegram("t", &[1, 2]), &agents(vec![manifest("d")]).agents);
    assert_eq!(
        texts(&on),
        vec!["telegram ingress: on — 2 allowed user(s), dispatcher 'd'"]
    );
    let mut shared = manifest("d");
    shared.lifecycle.persistent = true;
    let warned = report_telegram_status(&telegram("t", &[1]), &agents(vec![shared]).agents);
    assert_eq!(count_marked(&warned, Mark::Warning), 1);
    assert!(texts(&warned)[1].contains("key = \"chat_id\""));
}

fn process(pct: u64) -> LiveProcess {
    LiveProcess {
        kind: "agent".into(),
        persistent: false,
        pid: 7,
        owner: "a".into(),
        label: "run".into(),
        age_seconds: 9,
        deadline_seconds: 10,
        deadline_pct: pct,
    }
}

#[test]
fn only_processes_near_their_deadline_are_flagged() {
    assert!(report_processes(&vec![process(79)]).is_empty());
    let hot = report_processes(&vec![process(79), process(80), process(100)]);
    assert_eq!((count_marked(&hot, Mark::Warning), count_marked(&hot, Mark::Error)), (1, 1));
    assert!(texts(&hot)
        .contains(&"    ✗ agent.run pid=7 agent=a age=9s deadline=10s (100%)"));
}

fn check(plugin: Result<&str, &str>) -> AgentCheck {
    AgentCheck {
        valid: Ok(()),
        plugins: vec![PluginCheck {
            plugin: "warp".into(),
            found: plugin.map(str::to_string).map_err(str::to_string),
        }],
        notifiers: vec![NotifierCheck { driver: "desktop".into(), plugin: None }],
        hashes: Some(("0123456789abcdef".into(), "fedcba9876543210".into())),
    }
}

#[test]
fn the_summary_counts_what_was_printed() {
    let mut m = manifest("a");
    m.preflight.push(hook("warp"));
    m.security_explicit = false;
    m.lifecycle.persistent = true;
    assert_eq!(plugins_to_check(&m), v(&["warp"]));
    let checked = vec![CheckedAgent { manifest: m, check: check(Err("not on PATH")) }];
    let bad = vec![InvalidManifest { path: "/r/b/agent.toml".into(), error: "no name".into() }];
    let report = doctor(Vec::new(), &bad, &checked, &Vec::new());
    assert_eq!(
        texts(&report.lines),
        vec![
            "✗ /r/b/agent.toml: no name",
            "✓ a: manifest ok",
            "    ✗ plugin warp not found: not on PATH",
            "    notifier driver=desktop (built-in)",
            "    lifecycle=persistent key=(single instance) max_instances=2 idle=60s max_invocations=unlimited",
            "    ⚠ a: no [security] section — blast radius is unbounded. See docs/security/threat-model.md.",
            "    ⚠ a: manifest drift since last daemon run (cached 0123456789ab → now fedcba987654)",
            "",
            "summary: 1 agent(s), 2 error(s), 2 warning(s)",
        ]
    );
    assert_eq!(report.failure.as_deref(), Some("2 issue(s) found"));
}

#[test]
fn a_healthy_machine_has_nothing_to_report() {
    let report = doctor(Vec::new(), &Vec::new(), &Vec::new(), &Vec::new());
    assert_eq!(texts(&report.lines), vec!["no agents discovered"]);
    assert!(report.failure.is_none());
    let fine = AgentCheck { valid: Ok(()), plugins: vec![], notifiers: vec![], hashes: None };
    let checked = vec![CheckedAgent { manifest: manifest("a"), check: fine }];
    let report = doctor(Vec::new(), &Vec::new(), &checked, &Vec::new());
    assert_eq!(
        texts(&report.lines),
        vec!["✓ a: manifest ok", "", "summary: 1 agent(s), 0 error(s), 0 warning(s)"]
    );
    assert!(report.failure.is_none());
}

#[test]
fn broken_manifests_fail_the_command_without_any_agent() {
    let bad = |path: &str| InvalidManifest { path: path.into(), error: "bad".into() };
    let invalid = vec![bad("/r/a/agent.toml"), bad("/r/b/agent.toml")];
    let report = doctor(Vec::new(), &invalid, &Vec::new(), &Vec::new());
    assert_eq!(
        texts(&report.lines),
        vec!["✗ /r/a/agent.toml: bad", "✗ /r/b/agent.toml: bad"]
    );
    assert_eq!(report.failure.as_deref(), Some("2 issue(s) found"));
}

// --- the daemon's unit ---

#[test]
fn naming_agents_to_install_gets_a_note() {
    assert!(install_note(false, None).is_none());
    assert!(install_note(true, None).unwrap().starts_with("[install] note: "));
    assert!(install_note(false, Some("a")).is_some());
    assert!(uninstall_note(false, None).is_none());
    assert!(uninstall_note(true, None).unwrap().ends_with("uninstall are no-ops."));
}

#[test]
fn installing_says_how_to_start_the_unit() {
    assert_eq!(
        install_text("/u/d.plist", "d", ServiceManager::Launchd),
        "wrote /u/d.plist\n\nNext steps:\n  launchctl bootstrap \"gui/$(id -u)\" /u/d.plist\n"
    );
    assert_eq!(
        install_text("/u/d.service", "d", ServiceManager::Systemd),
        "wrote /u/d.service\n\nNext steps:\n  \
         systemctl --user daemon-reload && systemctl --user enable --now d\n"
    );
    assert_eq!(
        install_text("/u/d", "d", ServiceManager::Unknown),
        "wrote /u/d\n\nNext steps:\n"
    );
    assert_eq!(uninstall_text(Some("/u/d")), "removed /u/d");
    assert_eq!(uninstall_text(None), "nothing to remove (daemon unit not found)");
}
