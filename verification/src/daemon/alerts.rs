//! Health alerts: which schedules are owed one, who hears it, and what it
//! says.
//!
//! `stale` is the failure with no output channel: an agent that stops being
//! scheduled runs nothing, so nothing fails, so nothing fires.

use crate::daemon::dispatch::WindowState;
use crate::manifest::{AgentManifest, hears, listens, notifier_hears};
use crate::text::{
    chars_of, dec, dec_i64, dec_u64, has_suffix, holds_text, lemma_ends, lemma_holds_last,
    lemma_holds_more, lemma_holds_part, lemma_in_two, string_of, trim, trimmed,
};
use vstd::prelude::*;

verus! {

broadcast use vstd::string::group_string_axioms;

/// The verdict `dotagent status` prints for a schedule.
#[derive(Debug, Clone, Copy, PartialEq, Eq, Structural)]
pub enum HealthState {
    Healthy,
    Degraded,
    Failing,
    Stale,
}

/// What an alert is about.
#[derive(Debug, Clone, Copy, PartialEq, Eq, Structural)]
pub enum AlertEvent {
    Stale,
    GivenUp,
}

/// The name an alert goes by.
pub open spec fn event_text(e: AlertEvent) -> Seq<char> {
    match e {
        AlertEvent::Stale => "stale"@,
        AlertEvent::GivenUp => "given_up"@,
    }
}

impl AlertEvent {
    /// The name the alert goes by.
    pub fn name(self) -> (r: &'static str)
        ensures
            r@ == event_text(self),
    {
        match self {
            AlertEvent::Stale => "stale",
            AlertEvent::GivenUp => "given_up",
        }
    }
}

/// What the sweep decided about one (agent, schedule) pair.
#[derive(Debug, Clone, Copy, PartialEq, Eq, Structural)]
pub enum AlertVerdict {
    /// The current window succeeded. Forget any episode: the next failure
    /// should be loud from its first second.
    Healthy,
    /// Nothing to say. Whatever was remembered stays remembered.
    Quiet,
    /// Say this, if the ladder allows it.
    Alert(AlertEvent),
}

/// Which alert, if any, a pair is owed.
pub open spec fn verdict_of(
    health: HealthState,
    expected: Option<i64>,
    last_success: Option<i64>,
    window_given_up: bool,
) -> AlertVerdict {
    match health {
        HealthState::Stale => if expected is Some || last_success is Some {
            AlertVerdict::Alert(AlertEvent::Stale)
        } else {
            AlertVerdict::Quiet
        },
        HealthState::Failing => if window_given_up {
            AlertVerdict::Alert(AlertEvent::GivenUp)
        } else {
            AlertVerdict::Quiet
        },
        _ => if expected is None {
            AlertVerdict::Quiet
        } else {
            AlertVerdict::Healthy
        },
    }
}

/// Whether a window is there and was given up.
pub open spec fn is_given_up(window: Option<WindowState>) -> bool {
    window matches Some(w) && w.given_up
}

/// Which alert, if any, this pair is currently owed.
///
/// A freshly installed agent whose first window has not come yet is not an
/// outage. Retries in flight are the run loop's business. No window in scope
/// is not a recovery: only an actual success ends an episode.
pub fn alert_verdict(
    health: HealthState,
    expected: Option<i64>,
    last_success: Option<i64>,
    window: &Option<WindowState>,
) -> (r: AlertVerdict)
    ensures
        r == verdict_of(health, expected, last_success, is_given_up(*window)),
{
    match health {
        HealthState::Stale => {
            if expected.is_some() || last_success.is_some() {
                AlertVerdict::Alert(AlertEvent::Stale)
            } else {
                AlertVerdict::Quiet
            }
        },
        HealthState::Failing => {
            let given_up = match window {
                Some(w) => w.given_up,
                None => false,
            };
            if given_up {
                AlertVerdict::Alert(AlertEvent::GivenUp)
            } else {
                AlertVerdict::Quiet
            }
        },
        HealthState::Healthy => {
            if expected.is_none() {
                AlertVerdict::Quiet
            } else {
                AlertVerdict::Healthy
            }
        },
        HealthState::Degraded => {
            if expected.is_none() {
                AlertVerdict::Quiet
            } else {
                AlertVerdict::Healthy
            }
        },
    }
}

/// Stale wins over given up, and an episode is forgotten only for a schedule
/// that is well and has a window in scope.
pub proof fn only_a_success_ends_an_episode(
    health: HealthState,
    expected: Option<i64>,
    last_success: Option<i64>,
    given_up: bool,
)
    ensures
        verdict_of(health, expected, last_success, given_up) == AlertVerdict::Healthy <==> expected
            is Some && (health == HealthState::Healthy || health == HealthState::Degraded),
        health == HealthState::Stale ==> verdict_of(health, expected, last_success, given_up)
            != AlertVerdict::Alert(AlertEvent::GivenUp),
{
}

// ---------------------------------------------------------------------
// Who hears it
// ---------------------------------------------------------------------

/// Whether anything on a manifest wants to hear about `event`: a notifier, or
/// a failure hook.
pub open spec fn heard(m: AgentManifest, event: Seq<char>) -> bool {
    ||| exists|i: int| 0 <= i < m.notifiers@.len() && #[trigger] notifier_hears(m.notifiers@[i], event)
    ||| exists|i: int|
        0 <= i < m.on_failure@.len() && hears((#[trigger] m.on_failure@[i]).events@, event)
}

/// Does anything on this manifest want to hear about `event`?
pub fn anyone_listening(manifest: &AgentManifest, event: &str) -> (r: bool)
    ensures
        r == heard(*manifest, event@),
{
    let mut i: usize = 0;
    while i < manifest.notifiers.len()
        invariant
            i <= manifest.notifiers@.len(),
            forall|k: int|
                0 <= k < i ==> !#[trigger] notifier_hears(manifest.notifiers@[k], event@),
        decreases manifest.notifiers@.len() - i,
    {
        if manifest.notifiers[i].matches_event(event) {
            return true;
        }
        i = i + 1;
    }
    let mut j: usize = 0;
    while j < manifest.on_failure.len()
        invariant
            j <= manifest.on_failure@.len(),
            forall|k: int|
                0 <= k < manifest.notifiers@.len() ==> !#[trigger] notifier_hears(
                    manifest.notifiers@[k],
                    event@,
                ),
            forall|k: int|
                0 <= k < j ==> !hears((#[trigger] manifest.on_failure@[k]).events@, event@),
        decreases manifest.on_failure@.len() - j,
    {
        if listens(&manifest.on_failure[j].events, event) {
            return true;
        }
        j = j + 1;
    }
    false
}

/// Under which name an alert is delivered.
pub open spec fn channel_for(m: AgentManifest, event: AlertEvent) -> Option<AlertEvent> {
    if heard(m, event_text(event)) {
        Some(event)
    } else if event == AlertEvent::Stale && heard(m, event_text(AlertEvent::GivenUp)) {
        Some(AlertEvent::GivenUp)
    } else {
        None
    }
}

/// Which event name to deliver an alert under, or `None` when nobody asked to
/// hear about it.
///
/// `stale` falls back to the `given_up` channel when nothing lists it: someone
/// who asked to be told their agent is broken wants to hear that it stopped
/// even trying.
pub fn notify_channel(manifest: &AgentManifest, event: AlertEvent) -> (r: Option<AlertEvent>)
    ensures
        r == channel_for(*manifest, event),
{
    if anyone_listening(manifest, event.name()) {
        return Some(event);
    }
    if event == AlertEvent::Stale && anyone_listening(manifest, AlertEvent::GivenUp.name()) {
        return Some(AlertEvent::GivenUp);
    }
    None
}

/// Whoever hears that an agent gave up also hears that it went stale.
pub proof fn the_worse_news_reaches_at_least_as_many(m: AgentManifest)
    requires
        channel_for(m, AlertEvent::GivenUp) is Some,
    ensures
        channel_for(m, AlertEvent::Stale) is Some,
{
}

// ---------------------------------------------------------------------
// What it says
// ---------------------------------------------------------------------

/// An alert that is being repeated while its condition lasts.
#[derive(Debug, Clone, Copy, PartialEq, Eq, Structural)]
pub struct AlertEpisode {
    pub first_notified_at: i64,
    pub last_notified_at: i64,
    pub count: u32,
}

/// A duration in words: days and hours, hours and minutes, or minutes. A clock
/// that moved backwards reads as no time.
pub open spec fn duration_text(seconds: int) -> Seq<char> {
    let s = if seconds > 0 {
        seconds
    } else {
        0
    };
    let d = s / 86400;
    let h = (s % 86400) / 3600;
    let m = (s % 3600) / 60;
    if d > 0 {
        dec(d) + "d "@ + dec(h) + "h"@
    } else if h > 0 {
        dec(h) + "h "@ + dec(m) + "m"@
    } else {
        dec(m) + "m"@
    }
}

/// `55d 4h` / `4h 12m` / `9m`. Rough on purpose: the reader wants an order of
/// magnitude, not a stopwatch.
pub fn human_duration(seconds: i64) -> (r: String)
    ensures
        r@ == duration_text(seconds as int),
{
    let s: u64 = if seconds > 0 {
        seconds as u64
    } else {
        0
    };
    let d: u64 = s / 86400;
    let h: u64 = (s % 86400) / 3600;
    let m: u64 = (s % 3600) / 60;
    if d > 0 {
        let mut out = dec_u64(d);
        out.append("d ");
        out.append(dec_u64(h).as_str());
        out.append("h");
        out
    } else if h > 0 {
        let mut out = dec_u64(h);
        out.append("h ");
        out.append(dec_u64(m).as_str());
        out.append("m");
        out
    } else {
        let mut out = dec_u64(m);
        out.append("m");
        out
    }
}

/// How many characters of an agent's last words an alert carries.
pub const STDERR_TAIL_CHARS: usize = 400;

/// The last words of an agent as an alert carries them: nothing for a blank
/// text, otherwise a new line and the end of it.
pub open spec fn tail_text(raw: Seq<char>) -> Seq<char> {
    let t = trimmed(raw);
    if t.len() == 0 {
        Seq::empty()
    } else if t.len() <= STDERR_TAIL_CHARS {
        "\n"@ + t
    } else {
        "\n…"@ + t.skip(t.len() - STDERR_TAIL_CHARS)
    }
}

/// What an agent printed last.
pub open spec fn last_words(window: Option<WindowState>) -> Seq<char> {
    match window {
        Some(w) => match w.last_attempt_stderr {
            Some(s) => s@,
            None => Seq::empty(),
        },
        None => Seq::empty(),
    }
}

/// Keep the tail of what the agent printed. The end is where the error is, and
/// a notification that scrolls past a phone screen gets dismissed unread.
pub fn stderr_tail(window: &Option<WindowState>) -> (r: String)
    ensures
        r@ == tail_text(last_words(*window)),
{
    let raw = match window {
        Some(w) => match &w.last_attempt_stderr {
            Some(s) => s.clone(),
            None => String::new(),
        },
        None => String::new(),
    };
    let t = trim(raw.as_str());
    let v = chars_of(t.as_str());
    if v.len() == 0 {
        return String::new();
    }
    if v.len() <= STDERR_TAIL_CHARS {
        let mut out = "\n".to_owned();
        out.append(t.as_str());
        return out;
    }
    let from: usize = v.len() - STDERR_TAIL_CHARS;
    let tail = string_of(&v, from, v.len());
    proof {
        assert(v@.subrange(from as int, v@.len() as int) =~= v@.skip(from as int));
    }
    let mut out = "\n…".to_owned();
    out.append(tail.as_str());
    out
}

/// The number of a repeated notice, nothing for the first.
pub open spec fn notice_text(count: u32) -> Seq<char> {
    if count > 1 {
        " (notice #"@ + dec(count as int) + ")"@
    } else {
        Seq::empty()
    }
}

/// The exit code an alert reports for a window.
pub open spec fn reported_exit(window: Option<WindowState>) -> int {
    match window {
        Some(w) => match w.last_attempt_exit_code {
            Some(c) => c as int,
            None => -1,
        },
        None => -1,
    }
}

/// The attempts an alert reports for a window.
pub open spec fn reported_attempts(window: Option<WindowState>) -> int {
    match window {
        Some(w) => w.attempts as int,
        None => 0,
    }
}

/// How long ago a window was given up, in words.
pub open spec fn given_up_ago(window: Option<WindowState>, now: int) -> Seq<char> {
    match window {
        Some(w) => match w.given_up_at {
            Some(t) => duration_text(now - t),
            None => "?"@,
        },
        None => "?"@,
    }
}

/// The alert text.
pub open spec fn alert_text(
    event: AlertEvent,
    agent: Seq<char>,
    schedule: Seq<char>,
    last_success: Option<i64>,
    window: Option<WindowState>,
    count: u32,
    now: i64,
) -> Seq<char> {
    let body = match event {
        AlertEvent::Stale => {
            let age = match last_success {
                Some(ls) => "no successful run in "@ + duration_text(now - ls),
                None => "it has never run successfully"@,
            };
            "⏰ "@ + agent + "/"@ + schedule + " is not being scheduled — "@ + age + notice_text(
                count,
            ) + "."@
        },
        AlertEvent::GivenUp => if count <= 1 {
            "🚨 "@ + agent + "/"@ + schedule + " gave up after "@ + dec(reported_attempts(window))
                + " attempts (exit "@ + dec(reported_exit(window)) + ")"@
        } else {
            "🚨 "@ + agent + "/"@ + schedule + " still given up after "@ + dec(
                reported_attempts(window),
            ) + " attempts (exit "@ + dec(reported_exit(window)) + "), "@ + given_up_ago(
                window,
                now as int,
            ) + " ago"@ + notice_text(count) + "."@
        },
    };
    body + tail_text(last_words(window))
}

fn notice(count: u32) -> (r: String)
    ensures
        r@ == notice_text(count),
{
    if count > 1 {
        let mut out = " (notice #".to_owned();
        out.append(dec_u64(count as u64).as_str());
        out.append(")");
        out
    } else {
        String::new()
    }
}

/// The alert text: what, which schedule, how long, and the last thing the
/// agent said. Enough to decide whether to care without opening a terminal.
///
/// The first notice of giving up is the moment it happened, so it says nothing
/// about elapsed time. Repeats are reminders about something still true.
pub fn alert_message(
    event: AlertEvent,
    agent: &str,
    schedule: &str,
    last_success: Option<i64>,
    window: &Option<WindowState>,
    episode: &AlertEpisode,
    now: i64,
) -> (r: String)
    requires
        last_success matches Some(ls) ==> i64::MIN <= now - ls <= i64::MAX,
        window matches Some(w) ==> (w.given_up_at matches Some(t) ==> i64::MIN <= now - t
            <= i64::MAX),
    ensures
        r@ == alert_text(event, agent@, schedule@, last_success, *window, episode.count, now),
{
    let mut attempts: u32 = 0;
    let mut exit: i32 = -1;
    let mut ago = "?".to_owned();
    if let Some(w) = window {
        attempts = w.attempts;
        if let Some(c) = w.last_attempt_exit_code {
            exit = c;
        }
        if let Some(t) = w.given_up_at {
            ago = human_duration(now - t);
        }
    }
    let mut body = String::new();
    match event {
        AlertEvent::Stale => {
            let age = match last_success {
                Some(ls) => {
                    let mut out = "no successful run in ".to_owned();
                    out.append(human_duration(now - ls).as_str());
                    out
                },
                None => "it has never run successfully".to_owned(),
            };
            body = "⏰ ".to_owned();
            body.append(agent);
            body.append("/");
            body.append(schedule);
            body.append(" is not being scheduled — ");
            body.append(age.as_str());
            body.append(notice(episode.count).as_str());
            body.append(".");
        },
        AlertEvent::GivenUp => {
            body = "🚨 ".to_owned();
            body.append(agent);
            body.append("/");
            body.append(schedule);
            if episode.count <= 1 {
                body.append(" gave up after ");
                body.append(dec_u64(attempts as u64).as_str());
                body.append(" attempts (exit ");
                body.append(dec_i64(exit as i64).as_str());
                body.append(")");
            } else {
                body.append(" still given up after ");
                body.append(dec_u64(attempts as u64).as_str());
                body.append(" attempts (exit ");
                body.append(dec_i64(exit as i64).as_str());
                body.append("), ");
                body.append(ago.as_str());
                body.append(" ago");
                body.append(notice(episode.count).as_str());
                body.append(".");
            }
        },
    }
    body.append(stderr_tail(window).as_str());
    body
}

// ---------------------------------------------------------------------
// The sweep
// ---------------------------------------------------------------------

/// What the sweep does about one pair.
#[derive(Debug, Clone, Copy, PartialEq, Eq, Structural)]
pub enum SweepStep {
    /// Nothing, and forget nothing.
    Leave,
    /// Forget every episode of the pair.
    Clear,
    /// Ask the ladder about `event`; when it allows, record a notice under
    /// `event` and deliver it on `channel`.
    Notify { event: AlertEvent, channel: AlertEvent },
}

/// What the sweep does about one pair.
pub open spec fn sweep_of(
    deferred: bool,
    verdict: AlertVerdict,
    m: AgentManifest,
) -> SweepStep {
    if deferred {
        SweepStep::Leave
    } else {
        match verdict {
            AlertVerdict::Quiet => SweepStep::Leave,
            AlertVerdict::Healthy => SweepStep::Clear,
            AlertVerdict::Alert(event) => match channel_for(m, event) {
                Some(channel) => SweepStep::Notify { event, channel },
                None => SweepStep::Leave,
            },
        }
    }
}

/// Decide what the sweep does about one pair.
///
/// A schedule the power policy holds back has not failed: it was never
/// eligible to run. Its episode is kept rather than cleared, so that an agent
/// already failing resumes where it was when power returns. An alert nobody
/// listens for is neither said nor remembered. The episode is keyed on the
/// condition, not on the channel, so that editing a manifest's events never
/// resets a running ladder.
pub fn sweep_step(
    deferred: bool,
    health: HealthState,
    expected: Option<i64>,
    last_success: Option<i64>,
    window: &Option<WindowState>,
    manifest: &AgentManifest,
) -> (r: SweepStep)
    ensures
        r == sweep_of(
            deferred,
            verdict_of(health, expected, last_success, is_given_up(*window)),
            *manifest,
        ),
{
    if deferred {
        return SweepStep::Leave;
    }
    match alert_verdict(health, expected, last_success, window) {
        AlertVerdict::Quiet => SweepStep::Leave,
        AlertVerdict::Healthy => SweepStep::Clear,
        AlertVerdict::Alert(event) => match notify_channel(manifest, event) {
            Some(channel) => SweepStep::Notify { event, channel },
            None => SweepStep::Leave,
        },
    }
}

/// A schedule that is held back keeps its episode and says nothing.
pub proof fn a_deferred_schedule_is_left_alone(verdict: AlertVerdict, m: AgentManifest)
    ensures
        sweep_of(true, verdict, m) == SweepStep::Leave,
{
}

// ---------------------------------------------------------------------
// Laws of an alert
// ---------------------------------------------------------------------

/// An alert says what went wrong: that a window was given up exactly for one
/// that fails and was, and that nothing runs exactly for a stale schedule that
/// was ever due or ever succeeded.
pub proof fn an_alert_is_for_what_went_wrong(
    health: HealthState,
    expected: Option<i64>,
    last_success: Option<i64>,
    given_up: bool,
)
    ensures
        verdict_of(health, expected, last_success, given_up) == AlertVerdict::Alert(
            AlertEvent::GivenUp,
        ) <==> health == HealthState::Failing && given_up,
        verdict_of(health, expected, last_success, given_up) == AlertVerdict::Alert(
            AlertEvent::Stale,
        ) <==> health == HealthState::Stale && (expected is Some || last_success is Some),
{
}

/// An alert goes out on a channel that somebody hears: its own where anyone does,
/// and that of a given-up window for a stale schedule whose own nobody hears.
pub proof fn an_alert_goes_where_it_is_heard(m: AgentManifest, event: AlertEvent)
    ensures
        channel_for(m, event) is Some ==> heard(m, event_text(channel_for(m, event)->0)),
        heard(m, event_text(event)) ==> channel_for(m, event) == Some(event),
        channel_for(m, event) is None ==> !heard(m, event_text(event)),
        channel_for(m, AlertEvent::GivenUp) != Some(AlertEvent::Stale),
        channel_for(m, AlertEvent::Stale) is None <==> !heard(m, "stale"@) && !heard(
            m,
            "given_up"@,
        ),
{
}

/// What a sweep does is what the verdict asks: a notice under the event that was
/// found, on the channel that is heard; nothing is said or forgotten otherwise.
pub proof fn a_sweep_does_what_the_verdict_asks(
    verdict: AlertVerdict,
    m: AgentManifest,
)
    ensures
        sweep_of(false, verdict, m) is Clear <==> verdict == AlertVerdict::Healthy,
        sweep_of(false, verdict, m) matches SweepStep::Notify { event, channel } ==> verdict
            == AlertVerdict::Alert(event) && heard(m, event_text(channel)),
        verdict matches AlertVerdict::Alert(event) ==> (sweep_of(false, verdict, m) is Leave
            <==> channel_for(m, event) is None),
{
}

/// The words for a duration are its whole days, hours and minutes: the two
/// largest of them, or the minutes alone. What is left out is less than an hour
/// behind days, and less than a minute otherwise. A time that has not come
/// counts as none.
pub proof fn a_duration_is_told_in_whole_units(s: int, d: int, h: int, m: int, rest: int)
    requires
        d >= 0,
        0 <= h < 24,
        0 <= m < 60,
        0 <= rest < 60,
        s == d * 86400 + h * 3600 + m * 60 + rest,
    ensures
        d > 0 ==> duration_text(s) == dec(d) + "d "@ + dec(h) + "h"@,
        d == 0 && h > 0 ==> duration_text(s) == dec(h) + "h "@ + dec(m) + "m"@,
        d == 0 && h == 0 ==> duration_text(s) == dec(m) + "m"@,
        duration_text(-s) == duration_text(0) || s == 0,
{
    assert(s / 86400 == d && s % 86400 == h * 3600 + m * 60 + rest) by (nonlinear_arith)
        requires
            s == d * 86400 + h * 3600 + m * 60 + rest,
            0 <= h * 3600 + m * 60 + rest < 86400,
    ;
    let day = h * 3600 + m * 60 + rest;
    assert(day / 3600 == h) by (nonlinear_arith)
        requires
            day == h * 3600 + m * 60 + rest,
            0 <= m * 60 + rest < 3600,
    ;
    assert(s % 3600 == m * 60 + rest) by (nonlinear_arith)
        requires
            s == (d * 24 + h) * 3600 + (m * 60 + rest),
            0 <= m * 60 + rest < 3600,
    ;
    let hour = m * 60 + rest;
    assert(hour / 60 == m) by (nonlinear_arith)
        requires
            hour == m * 60 + rest,
            0 <= rest < 60,
    ;
}

/// What a run wrote last is shown from its end: all of it where it is short, and
/// otherwise its last four hundred characters and no more.
pub proof fn the_end_of_a_log_is_what_is_shown(raw: Seq<char>)
    ensures
        trimmed(raw).len() == 0 ==> tail_text(raw).len() == 0,
        0 < trimmed(raw).len() <= 400 ==> has_suffix(tail_text(raw), trimmed(raw)),
        trimmed(raw).len() > 400 ==> has_suffix(
            tail_text(raw),
            trimmed(raw).subrange(trimmed(raw).len() - 400, trimmed(raw).len() as int),
        ) && tail_text(raw).len() == 402,
{
    let t = trimmed(raw);
    reveal_strlit("\n…");
    if t.len() > 400 {
        assert(t.skip(t.len() - STDERR_TAIL_CHARS) =~= t.subrange(t.len() - 400, t.len() as int));
        lemma_ends("\n…"@, t.skip(t.len() - STDERR_TAIL_CHARS));
    } else {
        lemma_ends("\n"@, t);
    }
}

/// An alert for a stale schedule names the agent and the schedule, and says how
/// long ago it last succeeded.
pub proof fn a_stale_alert_says_since_when(
    agent: Seq<char>,
    schedule: Seq<char>,
    last_success: i64,
    window: Option<WindowState>,
    count: u32,
    now: i64,
)
    ensures
        ({
            let said = alert_text(
                AlertEvent::Stale,
                agent,
                schedule,
                Some(last_success),
                window,
                count,
                now,
            );
            &&& holds_text(said, " "@ + agent + "/"@ + schedule + " "@)
            &&& holds_text(said, " run in "@ + duration_text(now - last_success))
            &&& holds_text(said, notice_text(count))
        }),
{
    let said = alert_text(
        AlertEvent::Stale,
        agent,
        schedule,
        Some(last_success),
        window,
        count,
        now,
    );
    let told = duration_text(now - last_success);
    let age = "no successful run in "@ + told;
    let rest = notice_text(count) + "."@ + tail_text(last_words(window));
    let top = "⏰ "@ + agent + "/"@ + schedule + " is not being scheduled — "@;
    lemma_named_first(agent, schedule, age + rest);
    assert(said =~= top + (age + rest));
    let cut = "no successful run in "@.take(13);
    assert("no successful run in "@ =~= cut + " run in "@) by {
        reveal_strlit("no successful run in ");
        reveal_strlit(" run in ");
    }
    let part = " run in "@ + told;
    assert(said =~= (top + cut) + part + rest);
    lemma_holds_part(said, top + cut, part, rest);
    let end = "."@ + tail_text(last_words(window));
    assert(said =~= (top + age) + notice_text(count) + end);
    lemma_holds_part(said, top + age, notice_text(count), end);
}

proof fn lemma_named_first(agent: Seq<char>, schedule: Seq<char>, more: Seq<char>)
    ensures
        holds_text(
            "⏰ "@ + agent + "/"@ + schedule + " is not being scheduled — "@ + more,
            " "@ + agent + "/"@ + schedule + " "@,
        ),
{
    reveal_strlit(" ");
    reveal_strlit("⏰ ");
    reveal_strlit(" is not being scheduled — ");
    let mark = "⏰ "@.drop_last();
    let who = " "@ + agent + "/"@ + schedule + " "@;
    let mid = " is not being scheduled — "@;
    let top = "⏰ "@ + agent + "/"@ + schedule + mid;
    assert(top =~= mark + who + mid.skip(1));
    lemma_holds_part(top, mark, who, mid.skip(1));
    lemma_holds_more(top, who, more);
}

proof fn lemma_gave_up(
    agent: Seq<char>,
    schedule: Seq<char>,
    cut: Seq<char>,
    verb: Seq<char>,
    attempts: Seq<char>,
    exit: Seq<char>,
)
    requires
        cut.len() > 0,
        cut[0] == ' ',
        verb == cut + " after "@,
    ensures
        holds_text(
            "🚨 "@ + agent + "/"@ + schedule + verb + attempts + " attempts (exit "@ + exit
                + ")"@,
            " "@ + agent + "/"@ + schedule + " "@,
        ),
        holds_text(
            "🚨 "@ + agent + "/"@ + schedule + verb + attempts + " attempts (exit "@ + exit
                + ")"@,
            " after "@ + attempts + " attempts (exit "@ + exit + ")"@,
        ),
{
    let top = "🚨 "@ + agent + "/"@ + schedule;
    let who = " "@ + agent + "/"@ + schedule + " "@;
    let numbers = attempts + " attempts (exit "@ + exit + ")"@;
    let whole = top + verb + attempts + " attempts (exit "@ + exit + ")"@;
    assert(holds_text(top + cut, who)) by {
        reveal_strlit(" ");
        reveal_strlit("🚨 ");
        let mark = "🚨 "@.drop_last();
        assert(top + cut =~= mark + who + cut.skip(1));
        lemma_holds_part(top + cut, mark, who, cut.skip(1));
    }
    lemma_in_two(top, cut, " after "@);
    lemma_in_two(top + verb, attempts, " attempts (exit "@);
    lemma_in_two(top + verb, attempts + " attempts (exit "@, exit);
    lemma_in_two(top + verb, attempts + " attempts (exit "@ + exit, ")"@);
    assert(whole == top + verb + numbers);
    lemma_in_two(top + cut, " after "@, numbers);
    lemma_in_two(" after "@, attempts, " attempts (exit "@);
    lemma_in_two(" after "@, attempts + " attempts (exit "@, exit);
    lemma_in_two(" after "@, attempts + " attempts (exit "@ + exit, ")"@);
    lemma_holds_last(top + cut, " after "@ + numbers);
    lemma_holds_more(top + cut, who, " after "@ + numbers);
}

/// An alert for a window that was given up names the agent and the schedule, and
/// says how many attempts were made and how the last one exited.
pub proof fn a_given_up_alert_says_how_it_went(
    agent: Seq<char>,
    schedule: Seq<char>,
    last_success: Option<i64>,
    window: Option<WindowState>,
    now: i64,
)
    ensures
        ({
            let said = alert_text(
                AlertEvent::GivenUp,
                agent,
                schedule,
                last_success,
                window,
                1,
                now,
            );
            &&& holds_text(said, " "@ + agent + "/"@ + schedule + " "@)
            &&& holds_text(
                said,
                " after "@ + dec(reported_attempts(window)) + " attempts (exit "@ + dec(
                    reported_exit(window),
                ) + ")"@,
            )
            &&& has_suffix(said, tail_text(last_words(window)))
        }),
{
    let tail = tail_text(last_words(window));
    let attempts = dec(reported_attempts(window));
    let exit = dec(reported_exit(window));
    let verb = " gave up after "@;
    let cut = verb.take(8);
    assert(verb =~= cut + " after "@ && cut.len() > 0 && cut[0] == ' ') by {
        reveal_strlit(" gave up after ");
        reveal_strlit(" after ");
    }
    lemma_gave_up(agent, schedule, cut, verb, attempts, exit);
    let body = "🚨 "@ + agent + "/"@ + schedule + verb + attempts + " attempts (exit "@ + exit
        + ")"@;
    lemma_holds_more(body, " "@ + agent + "/"@ + schedule + " "@, tail);
    lemma_holds_more(body, " after "@ + attempts + " attempts (exit "@ + exit + ")"@, tail);
    lemma_ends(body, tail);
}

/// The same alert repeated says all that again, and since when and how often.
pub proof fn a_repeated_alert_says_since_when(
    agent: Seq<char>,
    schedule: Seq<char>,
    last_success: Option<i64>,
    window: Option<WindowState>,
    count: u32,
    now: i64,
)
    requires
        count > 1,
    ensures
        ({
            let said = alert_text(
                AlertEvent::GivenUp,
                agent,
                schedule,
                last_success,
                window,
                count,
                now,
            );
            &&& holds_text(said, " "@ + agent + "/"@ + schedule + " "@)
            &&& holds_text(
                said,
                " after "@ + dec(reported_attempts(window)) + " attempts (exit "@ + dec(
                    reported_exit(window),
                ) + ")"@,
            )
            &&& holds_text(said, given_up_ago(window, now as int) + " ago"@ + notice_text(count))
            &&& has_suffix(said, tail_text(last_words(window)))
        }),
{
    let tail = tail_text(last_words(window));
    let attempts = dec(reported_attempts(window));
    let exit = dec(reported_exit(window));
    let verb = " still given up after "@;
    let cut = verb.take(15);
    assert(verb =~= cut + " after "@ && cut.len() > 0 && cut[0] == ' ') by {
        reveal_strlit(" still given up after ");
        reveal_strlit(" after ");
    }
    lemma_gave_up(agent, schedule, cut, verb, attempts, exit);
    let head = "🚨 "@ + agent + "/"@ + schedule + verb + attempts + " attempts (exit "@ + exit;
    let gap = "), "@.skip(1);
    assert("), "@ =~= ")"@ + gap) by {
        reveal_strlit("), ");
        reveal_strlit(")");
    }
    let ago = given_up_ago(window, now as int);
    let since = ago + " ago"@ + notice_text(count);
    lemma_in_two(head, ")"@, gap);
    let named = head + "), "@;
    lemma_in_two(named, ago, " ago"@);
    lemma_in_two(named, ago + " ago"@, notice_text(count));
    let body = named + since + "."@;
    let said = body + tail;
    let who = " "@ + agent + "/"@ + schedule + " "@;
    let how = " after "@ + attempts + " attempts (exit "@ + exit + ")"@;
    lemma_holds_more(head + ")"@, who, gap);
    lemma_holds_more(named, who, since);
    lemma_holds_more(named + since, who, "."@);
    lemma_holds_more(body, who, tail);
    lemma_holds_more(head + ")"@, how, gap);
    lemma_holds_more(named, how, since);
    lemma_holds_more(named + since, how, "."@);
    lemma_holds_more(body, how, tail);
    lemma_holds_last(named, since);
    lemma_holds_more(named + since, since, "."@);
    lemma_holds_more(body, since, tail);
    lemma_ends(body, tail);
    assert(said == alert_text(
        AlertEvent::GivenUp,
        agent,
        schedule,
        last_success,
        window,
        count,
        now,
    ));
}

/// What an alert says of a window is what the window records: its attempts, the
/// exit code and the last words of its last attempt, and when it was given up.
pub proof fn an_alert_reads_the_window(w: WindowState, count: u32, now: int)
    ensures
        reported_attempts(Some(w)) == w.attempts,
        w.last_attempt_exit_code is Some ==> reported_exit(Some(w)) == w.last_attempt_exit_code->0,
        w.last_attempt_stderr is Some ==> last_words(Some(w)) == w.last_attempt_stderr->0@,
        w.last_attempt_stderr is None ==> last_words(Some(w)).len() == 0,
        w.given_up_at is Some ==> given_up_ago(Some(w), now) == duration_text(
            now - w.given_up_at->0,
        ),
        is_given_up(Some(w)) <==> w.given_up,
        !is_given_up(None),
        count > 1 ==> has_suffix(notice_text(count), "#"@ + dec(count as int) + ")"@),
        count <= 1 ==> notice_text(count).len() == 0,
{
    reveal_strlit(" (notice #");
    reveal_strlit("#");
    let lead = " (notice #"@.drop_last();
    let part = "#"@ + dec(count as int) + ")"@;
    if count > 1 {
        assert(notice_text(count) =~= lead + part);
        lemma_ends(lead, part);
    }
}

} // verus!
