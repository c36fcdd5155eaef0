use dotagent::daemon::alerts::{
    alert_message, alert_verdict, anyone_listening, human_duration, notify_channel, stderr_tail,
    sweep_step, AlertEpisode, AlertEvent, AlertVerdict, HealthState, SweepStep,
};
use dotagent::daemon::dispatch::WindowState;
use dotagent::manifest::{AgentManifest, Lifecycle, NotifierEntry, PluginNotifier, PluginRef};

const HOUR: i64 = 3600;
const DAY: i64 = 86_400;
/// Some morning, in seconds.
const BASE: i64 = 1_779_148_800;

fn at(hour: i64, minute: i64) -> i64 {
    BASE + hour * HOUR + minute * 60
}

fn manifest() -> AgentManifest {
    AgentManifest {
        name: "a".into(),
        tool: "run-a".into(),
        description: None,
        monitor: true,
        schedules: Vec::new(),
        preflight: Vec::new(),
        on_success: Vec::new(),
        on_failure: Vec::new(),
        notifiers: Vec::new(),
        lifecycle: Lifecycle {
            persistent: false,
            key: None,
            max_instances: 1,
            idle_timeout_seconds: 60,
            max_invocations: 0,
        },
        security_explicit: true,
        memory: None,
        assistant: None,
    }
}

fn strings(items: &[&str]) -> Vec<String> {
    items.iter().map(|s| s.to_string()).collect()
}

fn notified(events: &[&str]) -> AgentManifest {
    let mut m = manifest();
    m.notifiers.push(NotifierEntry {
        driver: "desktop".into(),
        events: strings(events),
        plugin: None,
    });
    m
}

fn given_up_window(attempts: u32, stderr: &str) -> Option<WindowState> {
    Some(WindowState {
        agent: "a".into(),
        schedule_id: "daily".into(),
        expected_at: 0,
        attempts,
        last_attempt_at: None,
        last_attempt_exit_code: Some(1),
        last_attempt_stderr: Some(stderr.into()),
        given_up: true,
        given_up_at: Some(at(2, 0)),
    })
}

fn episode(count: u32) -> AlertEpisode {
    AlertEpisode { first_notified_at: 0, last_notified_at: 0, count }
}

#[test]
fn a_cron_window_aged_past_stale_is_alerted() {
    let v = alert_verdict(HealthState::Stale, Some(at(8, 0)), Some(at(7, 0)), &None);
    assert_eq!(v, AlertVerdict::Alert(AlertEvent::Stale));
}

#[test]
fn an_interval_agent_dead_for_weeks_is_alerted() {
    let long_ago = at(8, 0) - 55 * DAY;
    let v = alert_verdict(HealthState::Stale, Some(at(12, 0)), Some(long_ago), &None);
    assert_eq!(v, AlertVerdict::Alert(AlertEvent::Stale));
}

#[test]
fn an_interval_agent_that_just_missed_a_tick_is_not_stale_yet() {
    let v = alert_verdict(HealthState::Failing, Some(at(11, 55)), Some(at(11, 40)), &None);
    assert_ne!(v, AlertVerdict::Alert(AlertEvent::Stale));
}

#[test]
fn an_agent_that_never_ran_still_alerts_once_its_window_ages_out() {
    let v = alert_verdict(HealthState::Stale, Some(at(8, 0)), None, &None);
    assert_eq!(v, AlertVerdict::Alert(AlertEvent::Stale));
}

#[test]
fn a_freshly_installed_agent_is_not_an_outage() {
    assert_eq!(
        alert_verdict(HealthState::Stale, None, None, &None),
        AlertVerdict::Quiet
    );
}

#[test]
fn no_window_in_scope_does_not_clear_a_chronic_failure() {
    // Between midnight and the daily hour no window is in scope.
    let v = alert_verdict(HealthState::Healthy, None, Some(at(8, 0) - 3 * DAY), &None);
    assert_eq!(v, AlertVerdict::Quiet);
}

#[test]
fn a_window_that_succeeded_is_healthy() {
    let v = alert_verdict(HealthState::Healthy, Some(at(8, 0)), Some(at(8, 5)), &None);
    assert_eq!(v, AlertVerdict::Healthy);
}

#[test]
fn retries_in_flight_are_the_run_loops_business() {
    let mut w = given_up_window(1, "boom");
    w.as_mut().unwrap().given_up = false;
    let v = alert_verdict(HealthState::Failing, Some(at(8, 0)), Some(at(7, 0)), &w);
    assert_eq!(v, AlertVerdict::Quiet);
}

#[test]
fn a_window_that_gave_up_keeps_asking() {
    let w = given_up_window(3, "boom");
    let v = alert_verdict(HealthState::Failing, Some(at(8, 0)), Some(at(7, 0)), &w);
    assert_eq!(v, AlertVerdict::Alert(AlertEvent::GivenUp));
}

#[test]
fn stale_wins_over_given_up() {
    let w = given_up_window(3, "boom");
    let v = alert_verdict(HealthState::Stale, Some(at(8, 0)), Some(at(7, 0)), &w);
    assert_eq!(v, AlertVerdict::Alert(AlertEvent::Stale));
}

#[test]
fn the_stale_message_says_agent_schedule_and_how_long() {
    let msg = alert_message(
        AlertEvent::Stale,
        "inbox-triage",
        "every-90min",
        Some(at(12, 0) - 55 * DAY),
        &None,
        &episode(1),
        at(12, 0),
    );
    assert!(msg.contains("inbox-triage/every-90min"), "{msg}");
    assert!(msg.contains("55d"), "{msg}");
    assert!(!msg.contains("notice #"), "first notice is not numbered");
}

#[test]
fn a_repeat_notice_is_numbered_so_it_reads_as_a_reminder() {
    let msg = alert_message(
        AlertEvent::Stale,
        "a",
        "daily",
        None,
        &None,
        &episode(4),
        at(12, 0),
    );
    assert!(msg.contains("notice #4"), "{msg}");
    assert!(msg.contains("never run successfully"), "{msg}");
}

#[test]
fn the_first_give_up_notice_reads_as_an_event_not_a_reminder() {
    let w = given_up_window(3, "boom");
    let msg = alert_message(AlertEvent::GivenUp, "a", "daily", None, &w, &episode(1), at(2, 0));
    assert!(msg.contains("gave up after 3 attempts"), "{msg}");
    assert!(!msg.contains("still"), "nothing has elapsed yet: {msg}");
    assert!(!msg.contains("0m ago"), "{msg}");
}

#[test]
fn the_given_up_message_carries_the_last_stderr() {
    let w = given_up_window(3, "ImportError: no module named gmail");
    let msg = alert_message(AlertEvent::GivenUp, "a", "daily", None, &w, &episode(2), at(12, 0));
    assert!(msg.contains("3 attempts"), "{msg}");
    assert!(msg.contains("ImportError"), "{msg}");
    assert!(msg.contains("10h"), "10h since give-up: {msg}");
}

#[test]
fn no_message_ever_renders_a_rust_struct() {
    for event in [AlertEvent::Stale, AlertEvent::GivenUp] {
        let msg = alert_message(
            event,
            "a",
            "daily",
            None,
            &given_up_window(1, "x"),
            &episode(1),
            at(12, 0),
        );
        assert!(!msg.contains("Some("), "{msg}");
        assert!(!msg.contains("WindowState"), "{msg}");
    }
}

#[test]
fn a_huge_stderr_is_truncated_from_the_front() {
    let w = given_up_window(1, &format!("{}THE-ACTUAL-ERROR", "noise ".repeat(500)));
    let tail = stderr_tail(&w);
    assert!(tail.contains("THE-ACTUAL-ERROR"), "the end is the useful end");
    assert!(tail.starts_with("\n…"));
    assert!(tail.chars().count() < 450, "len {}", tail.chars().count());
}

#[test]
fn an_empty_stderr_adds_nothing() {
    assert_eq!(stderr_tail(&None), "");
    assert_eq!(stderr_tail(&given_up_window(1, "   \n ")), "");
}

#[test]
fn an_agent_with_no_notifiers_is_not_alerted() {
    assert_eq!(notify_channel(&manifest(), AlertEvent::Stale), None);
    assert_eq!(notify_channel(&manifest(), AlertEvent::GivenUp), None);
}

#[test]
fn a_notifier_that_lists_stale_gets_it_on_its_own_channel() {
    let m = notified(&["given_up", "stale"]);
    assert_eq!(notify_channel(&m, AlertEvent::Stale), Some(AlertEvent::Stale));
}

#[test]
fn stale_reaches_a_given_up_only_notifier() {
    let m = notified(&["given_up"]);
    assert_eq!(notify_channel(&m, AlertEvent::Stale), Some(AlertEvent::GivenUp));
}

#[test]
fn a_notifier_with_no_event_filter_hears_everything_directly() {
    let m = notified(&[]);
    assert_eq!(notify_channel(&m, AlertEvent::Stale), Some(AlertEvent::Stale));
}

#[test]
fn a_notifier_listening_for_something_else_entirely_is_left_alone() {
    let m = notified(&["recovered"]);
    assert_eq!(notify_channel(&m, AlertEvent::Stale), None);
}

#[test]
fn legacy_on_failure_hooks_count_as_listeners() {
    let mut m = manifest();
    m.on_failure.push(PluginRef {
        plugin: "sink-file".into(),
        events: strings(&["given_up"]),
        remediation: None,
        remediation_tool: String::new(),
    });
    assert_eq!(notify_channel(&m, AlertEvent::Stale), Some(AlertEvent::GivenUp));
    assert_eq!(notify_channel(&m, AlertEvent::GivenUp), Some(AlertEvent::GivenUp));
}

#[test]
fn a_plugin_behind_a_notifier_has_a_filter_of_its_own() {
    let mut m = notified(&[]);
    m.notifiers[0].plugin = Some(PluginNotifier {
        name: "notify-discord".into(),
        events: strings(&["recovered"]),
        config: None,
    });
    assert!(!anyone_listening(&m, "stale"));
    assert!(anyone_listening(&m, "recovered"));
}

#[test]
fn durations_read_at_a_glance() {
    assert_eq!(human_duration(0), "0m");
    assert_eq!(human_duration(9 * 60), "9m");
    assert_eq!(human_duration(4 * 3600 + 12 * 60), "4h 12m");
    assert_eq!(human_duration(55 * 86_400 + 4 * 3600), "55d 4h");
    // A clock that moved backwards must not print a negative age.
    assert_eq!(human_duration(-500), "0m");
}

#[test]
fn a_deferred_schedule_is_swept_past() {
    let m = notified(&[]);
    let step = |deferred| {
        sweep_step(deferred, HealthState::Stale, Some(at(8, 0)), None, &None, &m)
    };
    assert!(matches!(step(true), SweepStep::Leave));
    assert!(matches!(
        step(false),
        SweepStep::Notify { event: AlertEvent::Stale, channel: AlertEvent::Stale }
    ));
    let well = sweep_step(
        false,
        HealthState::Healthy,
        Some(at(8, 0)),
        Some(at(8, 5)),
        &None,
        &m,
    );
    assert!(matches!(well, SweepStep::Clear));
}
