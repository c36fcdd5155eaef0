use dotagent::daemon::alerts::HealthState;
use dotagent::daily_summary::{
    collect, driver_list, dry_run_text, render, render_dated, resolve_notifiers, unfiltered,
    Summary, SUMMARY_EVENT,
};
use dotagent::manifest::{NotifierEntry, PluginNotifier};
use dotagent::status::{
    compute_row, count, dashboard, monitored, print_dashboard, print_live_subprocesses, AgentRows,
    LiveProcess, Row,
};

/// 2026-08-06, counted from January 1 of year 1.
const DAY: i32 = 739834;

fn row(name: &str, state: HealthState, reason: &str) -> Row {
    compute_row(name, "daily", &None, state, reason)
}

fn watched(rows: Vec<Row>) -> AgentRows {
    AgentRows { monitor: true, rows }
}

fn entry(driver: &str, events: &[&str]) -> NotifierEntry {
    NotifierEntry {
        driver: driver.into(),
        events: events.iter().map(|e| e.to_string()).collect(),
        plugin: None,
    }
}

fn plugin_entry(events: &[&str]) -> NotifierEntry {
    let config = serde_json::from_str(r#"{"webhook": "https://discord/x"}"#).unwrap();
    NotifierEntry {
        driver: "plugin".into(),
        events: Vec::new(),
        plugin: Some(PluginNotifier {
            name: "notify-discord".into(),
            events: events.iter().map(|e| e.to_string()).collect(),
            config: Some(config),
        }),
    }
}

#[test]
fn unmonitored_agents_are_skipped() {
    let agents = vec![AgentRows {
        monitor: false,
        rows: vec![row("a", HealthState::Failing, "boom")],
    }];
    let summary = collect(agents);
    assert_eq!(summary, Summary::default());
}

#[test]
fn every_monitored_schedule_is_counted_or_named() {
    let agents = vec![
        watched(vec![row("a", HealthState::Healthy, "on time")]),
        AgentRows { monitor: false, rows: vec![row("q", HealthState::Stale, "never ran")] },
        watched(vec![
            row("b", HealthState::Degraded, "recovered after 1 attempt"),
            row("c", HealthState::Stale, "never ran"),
            row("d", HealthState::Failing, "1 attempt, will retry"),
        ]),
    ];
    let summary = collect(agents);
    assert_eq!(summary.ok, 1);
    assert_eq!(summary.degraded, vec!["b/daily — recovered after 1 attempt".to_string()]);
    assert_eq!(summary.stale, vec!["c/daily — never ran".to_string()]);
    assert_eq!(summary.failing, vec!["d/daily — 1 attempt, will retry".to_string()]);
}

#[test]
fn render_lists_every_bucket() {
    let summary = Summary {
        ok: 1,
        degraded: vec!["a/x — recovered after 1 attempt".into()],
        failing: vec!["b/y — 2 attempts, will retry".into()],
        stale: vec!["c/z — never ran".into()],
    };
    let body = render(&summary, DAY).unwrap();
    assert!(body.contains("1/4 ok"), "{body}");
    assert!(body.contains("a/x — recovered after 1 attempt"), "{body}");
    assert!(body.contains("b/y — 2 attempts, will retry"), "{body}");
    assert!(body.contains("c/z — never ran"), "{body}");
}

#[test]
fn render_omits_empty_buckets() {
    let summary = Summary { ok: 3, ..Default::default() };
    let body = render(&summary, DAY).unwrap();
    assert!(body.contains("3/3 ok"), "{body}");
    assert!(!body.contains("Failing"), "{body}");
    assert!(!body.contains("Degraded"), "{body}");
    assert!(!body.contains("Stale"), "{body}");
}

#[test]
fn render_headers_are_english() {
    let summary = Summary {
        ok: 0,
        degraded: vec!["a/x — d".into()],
        failing: vec!["b/y — f".into()],
        stale: vec!["c/z — s".into()],
    };
    let body = render(&summary, DAY).unwrap();
    assert!(body.contains("❌ Failing:"), "{body}");
    assert!(body.contains("⚠️ Degraded:"), "{body}");
    assert!(body.contains("🕑 Stale:"), "{body}");
    for pt in ["Falhando", "Degradado", "tentativas"] {
        assert!(!body.contains(pt), "leftover pt-BR {pt}: {body}");
    }
}

#[test]
fn the_summary_is_dated() {
    let summary = Summary { ok: 2, ..Default::default() };
    assert_eq!(render(&summary, DAY).unwrap(), "📊 Agents · 2026-08-06\n2/2 ok\n");
    assert_eq!(render_dated(&summary, "today"), "📊 Agents · today\n2/2 ok\n");
    assert_eq!(render(&summary, i32::MAX), None);
}

#[test]
fn no_configured_notifier_falls_back_to_desktop() {
    let entries = resolve_notifiers(Vec::new());
    assert_eq!(entries.len(), 1);
    assert_eq!(entries[0].driver, "desktop");
}

#[test]
fn the_fallback_is_never_a_hardcoded_address() {
    let entries = resolve_notifiers(Vec::new());
    assert!(
        entries.iter().all(|e| e.driver != "imessage"),
        "no address may be baked into the default path"
    );
}

#[test]
fn configured_notifiers_replace_the_fallback() {
    let entries = resolve_notifiers(vec![entry("telegram", &[]), entry("slack", &[])]);
    assert_eq!(driver_list(&entries), "telegram, slack");
    let text = dry_run_text("body", &entries);
    assert!(text.contains("body") && text.contains("→ would deliver to: telegram, slack"), "{text}");
}

#[test]
fn an_event_filter_cannot_silence_the_summary() {
    let entries = resolve_notifiers(vec![entry("slack", &["given_up"])]);
    assert!(
        entries[0].matches_event(SUMMARY_EVENT),
        "the summary's own event must reach a notifier the user listed"
    );
}

#[test]
fn a_plugin_event_filter_cannot_silence_the_summary_either() {
    let entries = resolve_notifiers(vec![plugin_entry(&["given_up"])]);
    assert_eq!(entries[0].driver, "plugin");
    assert!(entries[0].matches_event(SUMMARY_EVENT));
    assert!(unfiltered(plugin_entry(&["given_up"])).matches_event("anything"));
}

#[test]
fn the_plugin_escape_hatch_survives_resolution() {
    let entries = resolve_notifiers(vec![plugin_entry(&[])]);
    let plugin = entries[0].plugin.as_ref().expect("plugin entry must survive");
    assert_eq!(plugin.name, "notify-discord");
    assert_eq!(plugin.config.as_ref().unwrap()["webhook"], "https://discord/x");
}

// --- the dashboard ---

#[test]
fn the_dashboard_dates_itself_and_counts_every_row_once() {
    let rows = monitored(vec![
        watched(vec![row("a", HealthState::Healthy, "on time")]),
        watched(vec![row("b", HealthState::Failing, "2 attempts")]),
    ]);
    let total: usize = [
        HealthState::Healthy,
        HealthState::Degraded,
        HealthState::Failing,
        HealthState::Stale,
    ]
    .into_iter()
    .map(|s| count(&rows, s))
    .sum();
    assert_eq!(total, rows.len());
    let text = dashboard(&rows, DAY, 9, 5, "/home/x").unwrap();
    assert!(text.contains("2026-08-06 09:05"), "{text}");
    assert!(text.contains("2 attempts") && text.contains("never"), "{text}");
    assert_eq!(text, print_dashboard(&rows, "2026-08-06 09:05", "/home/x"));
    assert_eq!(dashboard(&rows, i32::MIN, 9, 5, "/home/x"), None);
    let done = compute_row("a", "s", &Some("09:00".into()), HealthState::Healthy, "");
    assert_eq!(done.last_run, "09:00");
}

fn process(label: &str, persistent: bool, pct: u64) -> LiveProcess {
    LiveProcess {
        kind: "agent".into(),
        persistent,
        pid: 7,
        owner: "a".into(),
        label: label.into(),
        age_seconds: 10,
        deadline_seconds: 20,
        deadline_pct: pct,
    }
}

#[test]
fn the_process_nearest_its_deadline_comes_first() {
    assert_eq!(print_live_subprocesses(&Vec::new()), "");
    let text = print_live_subprocesses(&vec![
        process("fresh", false, 5),
        process("late", false, 130),
        process("near", false, 85),
    ]);
    let place = |label: &str| text.find(label).unwrap();
    assert!(place("late") < place("near") && place("near") < place("fresh"), "{text}");
    assert!(text.contains("🔴") && text.contains("⚠️ "), "{text}");
    assert!(!text.contains("persistent:"), "{text}");
}

#[test]
fn an_idle_persistent_process_never_alarms() {
    let text = print_live_subprocesses(&vec![process("pool", true, 130)]);
    assert!(!text.contains("🔴"), "{text}");
    assert!(text.contains("persistent:") && text.contains("idle"), "{text}");
}
