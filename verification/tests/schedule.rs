use chrono::{Datelike, NaiveDate};
use dotagent::daemon::lifecycle::{
    plan_pass, sleep_for, LoopState, PassClock,
};
use dotagent::daemon::schedule::{
    compute_sleep_target, next_retention_at, next_summary_at, should_run_daily_summary,
    should_run_retention, DailySummaryConfig, DayStart, MAX_SLEEP_NANOS, MINUTE_NANOS,
    RETENTION_HOUR,
};

const DAY_NANOS: i128 = 86_400_000_000_000;
const SECOND_NANOS: i128 = 1_000_000_000;

fn day(y: i32, m: u32, d: u32) -> i32 {
    NaiveDate::from_ymd_opt(y, m, d).unwrap().num_days_from_ce()
}

fn dt(y: i32, m: u32, d: u32, hour: u32, minute: u32) -> i128 {
    day(y, m, d) as i128 * DAY_NANOS + (hour as i128 * 60 + minute as i128) * MINUTE_NANOS
}

fn summary_cfg(time: &str, grace_minutes: u32) -> DailySummaryConfig {
    DailySummaryConfig { enabled: true, time: time.into(), grace_minutes }
}

fn opens(cfg: &DailySummaryConfig, date: i32) -> i128 {
    date as i128 * DAY_NANOS + cfg.time_or_default() as i128 * SECOND_NANOS
}

fn due(cfg: &DailySummaryConfig, now: i128, last: Option<i32>) -> Option<i32> {
    let date = (now / DAY_NANOS) as i32;
    let today = DayStart { date, start: Some(opens(cfg, date)) };
    let yesterday = DayStart { date: date - 1, start: Some(opens(cfg, date - 1)) };
    should_run_daily_summary(cfg, now, last, &today, &Some(yesterday))
}

fn next_summary(cfg: &DailySummaryConfig, now: i128) -> Option<i128> {
    let date = (now / DAY_NANOS) as i32;
    next_summary_at(cfg, now, Some(opens(cfg, date)), Some(opens(cfg, date + 1)))
}

fn sweep_at(date: i32) -> i128 {
    date as i128 * DAY_NANOS + RETENTION_HOUR as i128 * 60 * MINUTE_NANOS
}

fn next_retention(now: i128) -> Option<i128> {
    let date = (now / DAY_NANOS) as i32;
    next_retention_at(now, Some(sweep_at(date)), Some(sweep_at(date + 1)))
}

#[test]
fn summary_fires_inside_the_configured_window() {
    let cfg = summary_cfg("07:30", 30);
    for (h, m) in [(7, 30), (7, 45), (7, 59)] {
        assert_eq!(
            due(&cfg, dt(2026, 8, 6, h, m), None),
            Some(day(2026, 8, 6)),
            "{h}:{m} is inside [07:30, 08:00)"
        );
    }
}

#[test]
fn summary_does_not_fire_outside_the_window() {
    let cfg = summary_cfg("07:30", 30);
    for (h, m) in [(7, 29), (8, 0), (22, 45), (0, 0)] {
        assert_eq!(
            due(&cfg, dt(2026, 8, 6, h, m), None),
            None,
            "{h}:{m} is outside [07:30, 08:00)"
        );
    }
}

#[test]
fn the_default_window_is_still_2245() {
    let cfg = DailySummaryConfig::default();
    assert!(due(&cfg, dt(2026, 8, 6, 22, 45), None).is_some());
    assert!(due(&cfg, dt(2026, 8, 6, 23, 14), None).is_some());
    assert!(due(&cfg, dt(2026, 8, 6, 23, 15), None).is_none());
    assert!(due(&cfg, dt(2026, 8, 6, 22, 44), None).is_none());
}

#[test]
fn summary_fires_once_per_window() {
    let cfg = summary_cfg("22:45", 30);
    let aug6 = day(2026, 8, 6);
    assert_eq!(due(&cfg, dt(2026, 8, 6, 22, 50), Some(aug6)), None);
    // Next day's window is a different window.
    assert!(due(&cfg, dt(2026, 8, 7, 22, 50), Some(aug6)).is_some());
}

#[test]
fn a_window_crossing_midnight_keys_on_the_date_it_opened() {
    let cfg = summary_cfg("23:50", 30);
    let aug6 = day(2026, 8, 6);
    let aug7 = day(2026, 8, 7);
    assert_eq!(
        due(&cfg, dt(2026, 8, 7, 0, 10), None),
        Some(aug6),
        "00:10 belongs to the window that opened yesterday"
    );
    assert_eq!(
        due(&cfg, dt(2026, 8, 7, 0, 10), Some(aug6)),
        None,
        "already delivered for that window"
    );
    assert_eq!(
        due(&cfg, dt(2026, 8, 7, 23, 50), Some(aug6)),
        Some(aug7),
        "tonight's window must not be swallowed by yesterday's guard"
    );
}

#[test]
fn a_disabled_summary_never_fires_and_never_wakes_the_daemon() {
    let mut cfg = DailySummaryConfig::default();
    cfg.enabled = false;
    assert_eq!(due(&cfg, dt(2026, 8, 6, 22, 45), None), None);
    assert_eq!(next_summary(&cfg, dt(2026, 8, 6, 10, 0)), None);
}

#[test]
fn a_zero_grace_window_is_not_an_empty_one() {
    let cfg = summary_cfg("22:45", 0);
    assert!(due(&cfg, dt(2026, 8, 6, 22, 45), None).is_some());
    assert!(due(&cfg, dt(2026, 8, 6, 22, 46), None).is_none());
}

#[test]
fn an_unparseable_time_falls_back_instead_of_silencing_delivery() {
    let cfg = summary_cfg("quarter to eleven", 30);
    assert!(due(&cfg, dt(2026, 8, 6, 22, 45), None).is_some());
    assert_eq!(cfg.time_or_default(), 22 * 3600 + 45 * 60);
    assert_eq!(summary_cfg("07:05", 1).time_or_default(), 7 * 3600 + 5 * 60);
    assert_eq!(summary_cfg("25:00", 1).time_or_default(), 22 * 3600 + 45 * 60);
}

#[test]
fn the_daemon_schedules_a_wake_up_for_the_summary() {
    let cfg = summary_cfg("22:45", 30);
    let now = dt(2026, 8, 6, 22, 30);
    assert_eq!(
        compute_sleep_target(now, None, next_summary(&cfg, now), None),
        dt(2026, 8, 6, 22, 45)
    );
}

#[test]
fn a_narrow_window_no_longer_depends_on_the_safety_cap() {
    let cfg = summary_cfg("22:45", 1);
    let now = dt(2026, 8, 6, 22, 20);
    let target = compute_sleep_target(now, None, next_summary(&cfg, now), None);
    assert_eq!(target, dt(2026, 8, 6, 22, 45));
    assert!(due(&cfg, target, None).is_some());
}

#[test]
fn the_earlier_of_agent_event_and_summary_wins() {
    let cfg = summary_cfg("22:45", 30);
    let now = dt(2026, 8, 6, 22, 30);
    let agent_event = dt(2026, 8, 6, 22, 35);
    assert_eq!(
        compute_sleep_target(now, Some(agent_event), next_summary(&cfg, now), None),
        agent_event
    );
    let later_event = dt(2026, 8, 6, 22, 50);
    assert_eq!(
        compute_sleep_target(now, Some(later_event), next_summary(&cfg, now), None),
        dt(2026, 8, 6, 22, 45)
    );
}

#[test]
fn a_summary_past_the_safety_cap_does_not_extend_the_sleep() {
    let cfg = summary_cfg("22:45", 30);
    let now = dt(2026, 8, 6, 14, 0);
    assert_eq!(
        compute_sleep_target(now, None, next_summary(&cfg, now), None),
        now + MAX_SLEEP_NANOS
    );
}

#[test]
fn the_next_wake_up_rolls_to_tomorrow_once_today_passed() {
    let cfg = summary_cfg("22:45", 30);
    assert_eq!(
        next_summary(&cfg, dt(2026, 8, 6, 22, 45)),
        Some(dt(2026, 8, 7, 22, 45)),
        "exactly at the time, the next one is tomorrow's"
    );
    assert_eq!(
        next_summary(&cfg, dt(2026, 8, 6, 23, 59)),
        Some(dt(2026, 8, 7, 22, 45))
    );
}

#[test]
fn the_daemon_schedules_a_wake_up_for_the_retention_sweep() {
    let now = dt(2026, 8, 6, 2, 50);
    let target = compute_sleep_target(now, None, None, next_retention(now));
    assert_eq!(target, dt(2026, 8, 6, 3, 0));
    assert!(
        should_run_retention(3, 0, day(2026, 8, 6), None),
        "waking at 03:00 has to land inside the sweep's own window"
    );
}

#[test]
fn the_next_retention_wake_up_rolls_to_tomorrow_once_today_passed() {
    assert_eq!(
        next_retention(dt(2026, 8, 6, 3, 0)),
        Some(dt(2026, 8, 7, 3, 0)),
        "exactly at the hour, the next one is tomorrow's"
    );
    assert_eq!(
        next_retention(dt(2026, 8, 6, 3, 29)),
        Some(dt(2026, 8, 7, 3, 0))
    );
    assert_eq!(
        next_retention(dt(2026, 8, 6, 23, 59)),
        Some(dt(2026, 8, 7, 3, 0))
    );
}

#[test]
fn retention_never_extends_a_sleep_past_the_safety_cap() {
    let now = dt(2026, 8, 5, 18, 0);
    assert_eq!(
        compute_sleep_target(now, None, None, next_retention(now)),
        now + MAX_SLEEP_NANOS
    );
}

#[test]
fn the_earliest_of_the_three_wake_ups_wins() {
    let cfg = summary_cfg("03:10", 30);
    let now = dt(2026, 8, 6, 2, 50);
    let agent_event = dt(2026, 8, 6, 2, 55);
    assert_eq!(
        compute_sleep_target(
            now,
            Some(agent_event),
            next_summary(&cfg, now),
            next_retention(now)
        ),
        agent_event
    );
    assert_eq!(
        compute_sleep_target(now, None, next_summary(&cfg, now), next_retention(now)),
        dt(2026, 8, 6, 3, 0),
        "retention is earlier than the summary here"
    );
}

#[test]
fn a_sweep_runs_once_and_only_in_its_half_hour() {
    let d = day(2026, 8, 6);
    assert!(should_run_retention(3, 29, d, Some(d - 1)));
    assert!(!should_run_retention(3, 29, d, Some(d)));
    assert!(!should_run_retention(3, 30, d, None));
    assert!(!should_run_retention(2, 59, d, None));
}

#[test]
fn one_pass_delivers_once_and_sweeps_once() {
    let cfg = summary_cfg("03:00", 30);
    let date = day(2026, 8, 6);
    let clock = PassClock {
        now: dt(2026, 8, 6, 3, 5),
        hour: 3,
        minute: 5,
        today: DayStart { date, start: Some(opens(&cfg, date)) },
        yesterday: None,
    };
    let mut state = LoopState { last_summary: None, last_retention: None };
    let first = plan_pass(&mut state, &clock, &cfg);
    assert!(first.deliver_summary && first.sweep_retention);
    assert_eq!(state.last_summary, Some(date));
    assert_eq!(state.last_retention, Some(date));
    let second = plan_pass(&mut state, &clock, &cfg);
    assert!(!second.deliver_summary && !second.sweep_retention);
}

#[test]
fn a_target_in_the_past_is_not_slept_for() {
    let now = dt(2026, 8, 6, 3, 5);
    assert_eq!(sleep_for(now + 7, now), 7);
    assert_eq!(sleep_for(now, now), 0);
    // A target that has passed, by however long a pass took, costs a minute.
    assert_eq!(sleep_for(now - 7, now), 60_000_000_000);
    assert_eq!(sleep_for(now - 3_600_000_000_000, now), 60_000_000_000);
}
