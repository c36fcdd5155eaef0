//! When the daemon has to be awake: the daily summary, the retention sweep,
//! and how long it may sleep in between.
//!
//! Instants are nanoseconds since the epoch; dates are day numbers. Which
//! instant a wall-clock time falls on is for the time zone to say, and comes
//! in as a [`DayStart`].

use chrono::Timelike;
use vstd::prelude::*;

verus! {

/// Hard upper bound on a single sleep, in minutes. After it the daemon looks
/// for new manifests even if nothing fired.
pub const MAX_SLEEP_MINUTES: i64 = 30;

/// [`MAX_SLEEP_MINUTES`] in nanoseconds.
pub const MAX_SLEEP_NANOS: i128 = 1_800_000_000_000;

/// One minute in nanoseconds.
pub const MINUTE_NANOS: i128 = 60_000_000_000;

/// When the retention sweep's daily window opens.
pub const RETENTION_HOUR: u32 = 3;

/// How long it stays open. A tick that starts inside this runs the sweep.
pub const RETENTION_WINDOW_MINUTES: u32 = 30;

/// The delivery time when none is configured, as seconds since midnight:
/// 22:45.
pub const DEFAULT_SUMMARY_SECONDS: u32 = 81900;

/// How long a wait lasts when the instant to wait for has passed already.
pub const FALLBACK_SLEEP_SECONDS: u64 = 60;

/// Whether `t` is an instant: what 64 bits of seconds can hold.
pub open spec fn instant_ok(t: i128) -> bool {
    -9_300_000_000_000_000_000_000_000_000 <= t <= 9_300_000_000_000_000_000_000_000_000
}

/// Whether `t`, if it is there, is an instant.
pub open spec fn maybe_instant_ok(t: Option<i128>) -> bool {
    t matches Some(i) ==> instant_ok(i)
}

// ---------------------------------------------------------------------
// The daily summary
// ---------------------------------------------------------------------

/// `[daily_summary]`.
#[derive(Debug, Clone, PartialEq, Eq)]
pub struct DailySummaryConfig {
    pub enabled: bool,
    /// Local wall-clock time of delivery, `HH:MM`.
    pub time: String,
    /// How long after that a delivery still counts.
    pub grace_minutes: u32,
}

/// What `chrono::NaiveTime::parse_from_str` with `%H:%M` makes of a text, as
/// seconds since midnight.
pub uninterp spec fn clock_of(text: Seq<char>) -> Option<u32>;

/// `chrono::NaiveTime::parse_from_str` with `%H:%M`, and the seconds since
/// midnight of what it returns. A time of day is before the day's end.
#[verifier::external_body]
fn parse_clock(text: &str) -> (r: Option<u32>)
    ensures
        r == clock_of(text@),
        r matches Some(s) ==> s < 86400,
{
    chrono::NaiveTime::parse_from_str(text, "%H:%M").ok().map(|t| t.num_seconds_from_midnight())
}

/// When a summary is delivered, as seconds since midnight.
pub open spec fn delivery_seconds(time: Seq<char>) -> u32 {
    match clock_of(time) {
        Some(s) => s,
        None => DEFAULT_SUMMARY_SECONDS,
    }
}

/// How many minutes a delivery window is open.
pub open spec fn grace_of(grace_minutes: u32) -> int {
    if grace_minutes == 0 {
        1
    } else {
        grace_minutes as int
    }
}

impl Default for DailySummaryConfig {
    fn default() -> (r: Self)
        ensures
            r.enabled,
            r.time@ == "22:45"@,
            r.grace_minutes == 30,
    {
        DailySummaryConfig { enabled: true, time: "22:45".to_owned(), grace_minutes: 30 }
    }
}

impl DailySummaryConfig {
    /// When the summary is delivered, as seconds since midnight. A time that
    /// does not parse falls back to 22:45 instead of silencing delivery.
    pub fn time_or_default(&self) -> (r: u32)
        ensures
            r == delivery_seconds(self.time@),
    {
        match parse_clock(self.time.as_str()) {
            Some(s) => s,
            None => DEFAULT_SUMMARY_SECONDS,
        }
    }

    /// How many minutes the delivery window is open: at least one, because a
    /// window of none would stop delivery with no error anywhere.
    pub fn effective_grace_minutes(&self) -> (r: u32)
        ensures
            r == grace_of(self.grace_minutes),
    {
        if self.grace_minutes == 0 {
            1
        } else {
            self.grace_minutes
        }
    }
}

/// A date, and the instant a wall-clock time falls on that day: `None` when
/// the time does not exist on it, in the hour a clock change skips.
#[derive(Debug, Clone, Copy, PartialEq, Eq, Structural)]
pub struct DayStart {
    pub date: i32,
    pub start: Option<i128>,
}

/// Whether `now` is in the window that opens at a day's start.
pub open spec fn in_window(now: i128, day: DayStart, grace_minutes: u32) -> bool {
    day.start matches Some(s) && s <= now < s + grace_minutes * MINUTE_NANOS
}

/// The date of the window `now` falls into: the date the window opened on, not
/// `now`'s. With a grace that crosses midnight the two differ.
pub open spec fn window_date(
    now: i128,
    today: DayStart,
    yesterday: Option<DayStart>,
    grace_minutes: u32,
) -> Option<i32> {
    if in_window(now, today, grace_minutes) {
        Some(today.date)
    } else {
        match yesterday {
            Some(y) => if in_window(now, y, grace_minutes) {
                Some(y.date)
            } else {
                None
            },
            None => None,
        }
    }
}

fn opens_for(now: i128, day: &DayStart, grace_minutes: u32) -> (r: bool)
    requires
        instant_ok(now),
        maybe_instant_ok(day.start),
    ensures
        r == in_window(now, *day, grace_minutes),
{
    match day.start {
        Some(start) => {
            let grace: i128 = (grace_minutes as i128) * MINUTE_NANOS;
            start <= now && now < start + grace
        },
        None => false,
    }
}

/// The summary date `now` falls into, or `None` when it is outside every
/// delivery window. `today` and `yesterday` carry the delivery time on those
/// days.
pub fn summary_window_date(
    now: i128,
    today: &DayStart,
    yesterday: &Option<DayStart>,
    grace_minutes: u32,
) -> (r: Option<i32>)
    requires
        instant_ok(now),
        maybe_instant_ok(today.start),
        yesterday matches Some(y) ==> maybe_instant_ok(y.start),
    ensures
        r == window_date(now, *today, *yesterday, grace_minutes),
{
    if opens_for(now, today, grace_minutes) {
        return Some(today.date);
    }
    match yesterday {
        Some(y) => {
            if opens_for(now, y, grace_minutes) {
                Some(y.date)
            } else {
                None
            }
        },
        None => None,
    }
}

/// The date of the window whose summary is due.
pub open spec fn summary_due(
    cfg: DailySummaryConfig,
    now: i128,
    last: Option<i32>,
    today: DayStart,
    yesterday: Option<DayStart>,
) -> Option<i32> {
    if !cfg.enabled {
        None
    } else {
        match window_date(now, today, yesterday, grace_of(cfg.grace_minutes) as u32) {
            Some(date) => if last == Some(date) {
                None
            } else {
                Some(date)
            },
            None => None,
        }
    }
}

/// `Some(date)` when the summary is due and has not been delivered for that
/// window yet. The date is what the caller records as delivered.
pub fn should_run_daily_summary(
    cfg: &DailySummaryConfig,
    now: i128,
    last: Option<i32>,
    today: &DayStart,
    yesterday: &Option<DayStart>,
) -> (r: Option<i32>)
    requires
        instant_ok(now),
        maybe_instant_ok(today.start),
        yesterday matches Some(y) ==> maybe_instant_ok(y.start),
    ensures
        r == summary_due(*cfg, now, last, *today, *yesterday),
{
    if !cfg.enabled {
        return None;
    }
    match summary_window_date(now, today, yesterday, cfg.effective_grace_minutes()) {
        Some(date) => match last {
            Some(d) => if d == date {
                None
            } else {
                Some(date)
            },
            None => Some(date),
        },
        None => None,
    }
}

/// A summary fires once per window: with the date it returned recorded, the
/// same moment gives nothing, however often it is asked.
pub proof fn a_summary_fires_once_per_window(
    cfg: DailySummaryConfig,
    now: i128,
    last: Option<i32>,
    today: DayStart,
    yesterday: Option<DayStart>,
)
    ensures
        summary_due(cfg, now, last, today, yesterday) matches Some(date) ==> summary_due(
            cfg,
            now,
            Some(date),
            today,
            yesterday,
        ) is None,
        !cfg.enabled ==> summary_due(cfg, now, last, today, yesterday) is None,
{
}

/// Waking at the delivery time lands in the window: no grace is too narrow.
pub proof fn waking_at_the_delivery_time_delivers(
    cfg: DailySummaryConfig,
    today: DayStart,
    yesterday: Option<DayStart>,
    last: Option<i32>,
)
    requires
        cfg.enabled,
        today.start is Some,
        last != Some(today.date),
    ensures
        summary_due(cfg, today.start->0, last, today, yesterday) == Some(today.date),
{
    assert(grace_of(cfg.grace_minutes) * MINUTE_NANOS > 0) by (nonlinear_arith)
        requires
            grace_of(cfg.grace_minutes) >= 1,
            MINUTE_NANOS == 60_000_000_000,
    ;
}

/// The first of two instants that is after `now`.
pub open spec fn first_after(now: i128, today: Option<i128>, tomorrow: Option<i128>) -> Option<
    i128,
> {
    match today {
        Some(t) if t > now => Some(t),
        _ => match tomorrow {
            Some(t) if t > now => Some(t),
            _ => None,
        },
    }
}

fn pick_after(now: i128, today: Option<i128>, tomorrow: Option<i128>) -> (r: Option<i128>)
    ensures
        r == first_after(now, today, tomorrow),
{
    if let Some(t) = today {
        if t > now {
            return Some(t);
        }
    }
    if let Some(t) = tomorrow {
        if t > now {
            return Some(t);
        }
    }
    None
}

/// When the daemon has to be awake next to deliver the summary.
pub open spec fn summary_at(
    cfg: DailySummaryConfig,
    now: i128,
    today: Option<i128>,
    tomorrow: Option<i128>,
) -> Option<i128> {
    if cfg.enabled {
        first_after(now, today, tomorrow)
    } else {
        None
    }
}

/// When the daemon has to be awake next to deliver the summary: the delivery
/// time of today or of tomorrow, whichever is still to come.
pub fn next_summary_at(
    cfg: &DailySummaryConfig,
    now: i128,
    today: Option<i128>,
    tomorrow: Option<i128>,
) -> (r: Option<i128>)
    ensures
        r == summary_at(*cfg, now, today, tomorrow),
{
    if !cfg.enabled {
        return None;
    }
    pick_after(now, today, tomorrow)
}

// ---------------------------------------------------------------------
// The retention sweep
// ---------------------------------------------------------------------

/// Whether the retention sweep runs: between 03:00 and 03:30, once a date.
pub open spec fn retention_due(hour: u32, minute: u32, date: i32, last: Option<i32>) -> bool {
    hour == RETENTION_HOUR && minute < RETENTION_WINDOW_MINUTES && last != Some(date)
}

/// Whether the retention sweep runs now.
pub fn should_run_retention(hour: u32, minute: u32, date: i32, last: Option<i32>) -> (r: bool)
    ensures
        r == retention_due(hour, minute, date, last),
{
    let in_window = hour == RETENTION_HOUR && minute < RETENTION_WINDOW_MINUTES;
    if !in_window {
        return false;
    }
    match last {
        Some(d) => d != date,
        None => true,
    }
}

/// When the daemon has to be awake next to run the retention sweep: 03:00 of
/// today or of tomorrow, whichever is still to come.
pub fn next_retention_at(now: i128, today: Option<i128>, tomorrow: Option<i128>) -> (r: Option<
    i128,
>)
    ensures
        r == first_after(now, today, tomorrow),
{
    pick_after(now, today, tomorrow)
}

/// A sweep runs once a day, and waking when its window opens lands inside it.
pub proof fn a_sweep_runs_once_a_day(hour: u32, minute: u32, date: i32, last: Option<i32>)
    ensures
        !retention_due(hour, minute, date, Some(date)),
        last != Some(date) ==> retention_due(RETENTION_HOUR, 0, date, last),
{
}

// ---------------------------------------------------------------------
// Sleeping
// ---------------------------------------------------------------------

/// Whether `t` is a reason to wake before the safety cap.
pub open spec fn wakes(now: i128, t: Option<i128>) -> bool {
    t matches Some(i) && now < i < now + MAX_SLEEP_NANOS
}

/// The earlier of `best` and `t`, if `t` is a reason to wake.
pub open spec fn earlier(now: i128, best: int, t: Option<i128>) -> int {
    match t {
        Some(i) => if now < i && i < best {
            i as int
        } else {
            best
        },
        None => best,
    }
}

/// When the daemon wakes: the earliest thing that is due before the cap, or
/// the cap.
pub open spec fn sleep_target(
    now: i128,
    next_event: Option<i128>,
    next_summary: Option<i128>,
    next_retention: Option<i128>,
) -> int {
    earlier(
        now,
        earlier(now, earlier(now, now + MAX_SLEEP_NANOS, next_event), next_summary),
        next_retention,
    )
}

fn sooner(now: i128, best: i128, t: Option<i128>) -> (r: i128)
    ensures
        r == earlier(now, best as int, t),
{
    match t {
        Some(i) => if now < i && i < best {
            i
        } else {
            best
        },
        None => best,
    }
}

/// Returns the earliest pending wake-up, capped at `now` plus
/// [`MAX_SLEEP_MINUTES`].
///
/// The daily summary and the retention sweep are wake-up reasons in their own
/// right: a window the loop only reaches because the cap happens to be as wide
/// as the window is a window that gets skipped the first time a tick runs
/// long.
pub fn compute_sleep_target(
    now: i128,
    next_event: Option<i128>,
    next_summary: Option<i128>,
    next_retention: Option<i128>,
) -> (r: i128)
    requires
        instant_ok(now),
    ensures
        r == sleep_target(now, next_event, next_summary, next_retention),
{
    let cap: i128 = now + MAX_SLEEP_NANOS;
    sooner(now, sooner(now, sooner(now, cap, next_event), next_summary), next_retention)
}

/// The daemon always wakes after now and never later than the cap, never
/// later than any event that is due before the cap, and only for one of them
/// or for the cap.
pub proof fn the_sleep_ends_in_time(
    now: i128,
    next_event: Option<i128>,
    next_summary: Option<i128>,
    next_retention: Option<i128>,
)
    ensures
        ({
            let t = sleep_target(now, next_event, next_summary, next_retention);
            &&& now < t <= now + MAX_SLEEP_NANOS
            &&& wakes(now, next_event) ==> t <= next_event->0
            &&& wakes(now, next_summary) ==> t <= next_summary->0
            &&& wakes(now, next_retention) ==> t <= next_retention->0
            &&& t == now + MAX_SLEEP_NANOS || (wakes(now, next_event) && t == next_event->0) || (
            wakes(now, next_summary) && t == next_summary->0) || (wakes(now, next_retention) && t
                == next_retention->0)
        }),
{
}

/// A summary is due from its delivery time until its grace in minutes is over,
/// not a nanosecond before or after: under the day whose delivery it is, unless
/// that day already had one.
pub proof fn a_summary_is_due_within_its_grace(
    cfg: DailySummaryConfig,
    now: i128,
    last: Option<i32>,
    today: DayStart,
    yesterday: DayStart,
    start: i128,
    before: i128,
)
    requires
        cfg.enabled,
        cfg.grace_minutes > 0,
        today.start == Some(start),
        yesterday.start == Some(before),
    ensures
        ({
            let due = summary_due(cfg, now, last, today, Some(yesterday));
            let grace = cfg.grace_minutes * 60_000_000_000;
            let first = start <= now < start + grace;
            let second = before <= now < before + grace;
            &&& first && last != Some(today.date) ==> due == Some(today.date)
            &&& !first && second && last != Some(yesterday.date) ==> due == Some(yesterday.date)
            &&& !first && !second ==> due is None
        }),
{
}

/// A day that does not have the delivery time, and a day before that is not
/// known, make nothing due.
pub proof fn a_day_without_the_time_has_no_summary(
    cfg: DailySummaryConfig,
    now: i128,
    last: Option<i32>,
    date: i32,
)
    ensures
        summary_due(cfg, now, last, DayStart { date, start: None }, None) is None,
        grace_of(0) == 1,
        cfg.grace_minutes > 0 ==> grace_of(cfg.grace_minutes) == cfg.grace_minutes,
{
}

/// The daemon is awake for the next delivery that is still to come: today's
/// before tomorrow's, and never one that has passed. While summaries are off
/// there is none.
pub proof fn the_next_delivery_is_still_to_come(
    cfg: DailySummaryConfig,
    now: i128,
    today: i128,
    tomorrow: i128,
)
    requires
        today < tomorrow,
    ensures
        ({
            let next = first_after(now, Some(today), Some(tomorrow));
            &&& now < today ==> next == Some(today)
            &&& today <= now < tomorrow ==> next == Some(tomorrow)
            &&& tomorrow <= now ==> next is None
            &&& cfg.enabled ==> summary_at(cfg, now, Some(today), Some(tomorrow)) == next
            &&& !cfg.enabled ==> summary_at(cfg, now, Some(today), Some(tomorrow)) is None
        }),
        first_after(now, None, Some(tomorrow)) == if tomorrow > now {
            Some(tomorrow)
        } else {
            None
        },
        first_after(now, Some(today), None) == if today > now {
            Some(today)
        } else {
            None
        },
{
}

/// A sweep is due in the first half of the fourth hour of a day that had none.
pub proof fn a_sweep_is_due_at_night(hour: u32, minute: u32, date: i32, last: Option<i32>)
    ensures
        retention_due(hour, minute, date, last) <==> hour == 3 && minute < 30 && last != Some(date),
{
}

/// A delivery time that is none is a quarter to eleven at night.
pub proof fn a_bad_delivery_time_is_the_default(time: Seq<char>)
    ensures
        clock_of(time) is None ==> delivery_seconds(time) == 22 * 3600 + 45 * 60,
        clock_of(time) is Some ==> delivery_seconds(time) == clock_of(time)->0,
{
}

} // verus!
