//! Dispatching scheduled runs: which window is due, what one attempt does to
//! it, and when the daemon gives up.

use crate::text::{dec, dec_u64, has_suffix, holds_text, lemma_ends, lemma_holds_part, views};
use vstd::prelude::*;

verus! {

broadcast use vstd::string::group_string_axioms;

/// What is remembered of one window of one schedule.
#[derive(Debug, Clone, PartialEq, Eq)]
pub struct WindowState {
    pub agent: String,
    pub schedule_id: String,
    pub expected_at: i64,
    pub attempts: u32,
    pub last_attempt_at: Option<i64>,
    pub last_attempt_exit_code: Option<i32>,
    pub last_attempt_stderr: Option<String>,
    pub given_up: bool,
    pub given_up_at: Option<i64>,
}

/// Whether `w` is a window that nothing was attempted in yet.
pub open spec fn is_fresh(
    w: WindowState,
    agent: Seq<char>,
    schedule: Seq<char>,
    expected: i64,
) -> bool {
    &&& w.agent@ == agent
    &&& w.schedule_id@ == schedule
    &&& w.expected_at == expected
    &&& w.attempts == 0
    &&& w.last_attempt_at is None
    &&& w.last_attempt_exit_code is None
    &&& w.last_attempt_stderr is None
    &&& !w.given_up
    &&& w.given_up_at is None
}

/// A window nothing is remembered of.
pub fn fresh_window(agent: &str, schedule: &str, expected: i64) -> (w: WindowState)
    ensures
        is_fresh(w, agent@, schedule@, expected),
{
    WindowState {
        agent: agent.to_owned(),
        schedule_id: schedule.to_owned(),
        expected_at: expected,
        attempts: 0,
        last_attempt_at: None,
        last_attempt_exit_code: None,
        last_attempt_stderr: None,
        given_up: false,
        given_up_at: None,
    }
}

// ---------------------------------------------------------------------
// What is due
// ---------------------------------------------------------------------

/// What the scheduler knows of one schedule at one moment. Times are seconds
/// since the epoch.
#[derive(Debug, Clone, Copy, PartialEq, Eq, Structural)]
pub struct DueFacts {
    pub now: i64,
    /// When the window that is in scope was expected, if one is.
    pub expected: Option<i64>,
    pub last_success: Option<i64>,
    /// The window is too old to bother retrying.
    pub stale: bool,
    /// The power policy holds the schedule back.
    pub deferred: bool,
}

/// The window that is due, by when it was expected: it has come, has not
/// succeeded, is not stale, and the power policy lets it run.
pub open spec fn due_window(f: DueFacts) -> Option<i64> {
    match f.expected {
        Some(e) => if e <= f.now && !(f.last_success is Some && f.last_success->0 >= e) && !f.stale
            && !f.deferred {
            Some(e)
        } else {
            None
        },
        None => None,
    }
}

/// The window that is due. The power gate stands before the window is read: a
/// deferred run must leave no trace, so that plugging the charger back in finds
/// the window exactly as it was. It stands after staleness: a machine left on
/// battery too long drops the window rather than running a stale job late.
pub fn find_due(f: &DueFacts) -> (r: Option<i64>)
    ensures
        r == due_window(*f),
{
    let expected = match f.expected {
        Some(e) => e,
        None => {
            return None;
        },
    };
    if expected > f.now {
        return None;
    }
    if let Some(ls) = f.last_success {
        if ls >= expected {
            return None;
        }
    }
    if f.stale {
        return None;
    }
    if f.deferred {
        return None;
    }
    Some(expected)
}

/// What to do about a window that is due.
#[derive(Debug, Clone, Copy, PartialEq, Eq, Structural)]
pub enum Gate {
    /// Not now.
    Skip,
    /// The retries are burned: mark it and say so.
    GiveUp,
    /// Run it.
    Dispatch,
}

/// What to do about a window that is due. `may_retry` says that the backoff
/// since the last attempt has elapsed.
pub open spec fn gate_of(w: WindowState, may_retry: bool, max_retries: u32) -> Gate {
    if w.given_up || !may_retry {
        Gate::Skip
    } else if w.attempts >= max_retries {
        Gate::GiveUp
    } else {
        Gate::Dispatch
    }
}

/// What to do about a window that is due.
pub fn attempt_gate(w: &WindowState, may_retry: bool, max_retries: u32) -> (r: Gate)
    ensures
        r == gate_of(*w, may_retry, max_retries),
{
    if w.given_up {
        return Gate::Skip;
    }
    if !may_retry {
        return Gate::Skip;
    }
    if w.attempts >= max_retries {
        return Gate::GiveUp;
    }
    Gate::Dispatch
}

/// A window that was given up is never dispatched again.
pub proof fn given_up_windows_stay_quiet(w: WindowState, may_retry: bool, max_retries: u32)
    requires
        w.given_up,
    ensures
        gate_of(w, may_retry, max_retries) == Gate::Skip,
{
}

/// A window is never attempted more often than its policy allows.
pub proof fn attempts_stay_within_the_policy(w: WindowState, may_retry: bool, max_retries: u32)
    requires
        gate_of(w, may_retry, max_retries) == Gate::Dispatch,
    ensures
        w.attempts + 1 <= max_retries,
{
}

// ---------------------------------------------------------------------
// One attempt
// ---------------------------------------------------------------------

/// What came of running a due window.
#[derive(Debug, PartialEq, Eq)]
pub enum Attempt {
    /// The request was written to a persistent agent and its answer was lost.
    /// It is not sent again: nobody knows whether its side effects happened.
    RequestLost { message: String },
    /// The runner could not run it.
    Failed { error: String },
    /// A preflight check stopped it.
    PreflightFailed { plugin: String },
    /// It ran.
    Ran { exit_code: i32, stderr_tail: String },
}

/// What follows from an attempt.
#[derive(Debug, Clone, Copy, PartialEq, Eq, Structural)]
pub enum Aftermath {
    /// Nothing ran and nothing is recorded.
    Nothing,
    /// Record the window.
    Record,
    /// Say that the agent recovered, then record the window.
    Recovered,
    /// Say that the attempt failed, then give up: an ambiguous delivery is
    /// terminal, so that nothing silently retries a side effect.
    FailedForGood,
    /// Give up.
    GiveUp,
}

/// How a window looks after an attempt, before anything is given up.
pub open spec fn attempted(w: WindowState, now: i64, lost_exit_code: i32, a: Attempt, r: WindowState) -> bool {
    match a {
        Attempt::Failed { .. } => r == w,
        _ => {
            &&& r.agent == w.agent
            &&& r.schedule_id == w.schedule_id
            &&& r.expected_at == w.expected_at
            &&& r.attempts == w.attempts + 1
            &&& r.last_attempt_at == Some(now)
            &&& r.given_up == w.given_up
            &&& r.given_up_at == w.given_up_at
            &&& match a {
                Attempt::RequestLost { message } => {
                    &&& r.last_attempt_exit_code == Some(lost_exit_code)
                    &&& r.last_attempt_stderr matches Some(s) && s@ == message@
                },
                Attempt::PreflightFailed { plugin } => {
                    &&& r.last_attempt_exit_code == Some(-1i32)
                    &&& r.last_attempt_stderr matches Some(s) && s@ == "preflight "@ + plugin@
                        + " failed"@
                },
                Attempt::Ran { exit_code, stderr_tail } => {
                    &&& r.last_attempt_exit_code == Some(exit_code)
                    &&& r.last_attempt_stderr matches Some(s) && s@ == stderr_tail@
                },
                Attempt::Failed { .. } => true,
            }
        },
    }
}

/// What follows from an attempt on a window that had `before` attempts.
pub open spec fn aftermath_of(before: u32, max_retries: u32, a: Attempt) -> Aftermath {
    match a {
        Attempt::RequestLost { .. } => Aftermath::FailedForGood,
        Attempt::Failed { .. } => Aftermath::Nothing,
        Attempt::PreflightFailed { .. } => Aftermath::Record,
        Attempt::Ran { exit_code, .. } => if exit_code == 0 {
            if before > 0 {
                Aftermath::Recovered
            } else {
                Aftermath::Record
            }
        } else if before + 1 >= max_retries {
            Aftermath::GiveUp
        } else {
            Aftermath::Record
        },
    }
}

/// Account for one attempt.
pub fn settle(
    window: WindowState,
    now: i64,
    max_retries: u32,
    lost_exit_code: i32,
    attempt: Attempt,
) -> (r: (WindowState, Aftermath))
    requires
        window.attempts < max_retries,
    ensures
        attempted(window, now, lost_exit_code, attempt, r.0),
        r.1 == aftermath_of(window.attempts, max_retries, attempt),
{
    let before = window.attempts;
    let mut w = window;
    match attempt {
        Attempt::Failed { .. } => (w, Aftermath::Nothing),
        Attempt::RequestLost { message } => {
            w.attempts = before + 1;
            w.last_attempt_at = Some(now);
            w.last_attempt_exit_code = Some(lost_exit_code);
            w.last_attempt_stderr = Some(message);
            (w, Aftermath::FailedForGood)
        },
        Attempt::PreflightFailed { plugin } => {
            let mut text = "preflight ".to_owned();
            text.append(plugin.as_str());
            text.append(" failed");
            w.attempts = before + 1;
            w.last_attempt_at = Some(now);
            w.last_attempt_exit_code = Some(-1);
            w.last_attempt_stderr = Some(text);
            (w, Aftermath::Record)
        },
        Attempt::Ran { exit_code, stderr_tail } => {
            w.attempts = before + 1;
            w.last_attempt_at = Some(now);
            w.last_attempt_exit_code = Some(exit_code);
            w.last_attempt_stderr = Some(stderr_tail);
            if exit_code == 0 {
                if before > 0 {
                    (w, Aftermath::Recovered)
                } else {
                    (w, Aftermath::Record)
                }
            } else if before + 1 >= max_retries {
                (w, Aftermath::GiveUp)
            } else {
                (w, Aftermath::Record)
            }
        },
    }
}

/// An attempt counts once, and a run that could not be made does not count at
/// all.
pub proof fn an_attempt_counts_once(
    w: WindowState,
    now: i64,
    lost_exit_code: i32,
    a: Attempt,
    r: WindowState,
)
    requires
        attempted(w, now, lost_exit_code, a, r),
    ensures
        r.attempts == w.attempts + if a is Failed {
            0int
        } else {
            1int
        },
        r.given_up == w.given_up,
{
}

/// A lost request is terminal: whatever the policy says, its window is given up,
/// and a window that was given up is not dispatched again.
pub proof fn a_lost_request_is_never_retried(
    before: u32,
    max_retries: u32,
    a: Attempt,
    w: WindowState,
    at: i64,
    may_retry: bool,
)
    requires
        a is RequestLost,
    ensures
        effects_of(aftermath_of(before, max_retries, a), None, false, 0).contains(Effect::GiveUp),
        gate_of(
            (WindowState { given_up: true, given_up_at: Some(at), ..w }),
            may_retry,
            max_retries,
        ) == Gate::Skip,
{
    let all = effects_of(aftermath_of(before, max_retries, a), None, false, 0);
    assert(all[1] == Effect::GiveUp);
}

/// What is said of an agent that recovered.
pub open spec fn recovered_text(agent: Seq<char>, attempts: int) -> Seq<char> {
    "agent "@ + agent + " recovered on attempt "@ + dec(attempts)
}

/// The message that goes out when an agent recovered.
pub fn recovered_message(agent: &str, attempts: u32) -> (r: String)
    ensures
        r@ == recovered_text(agent@, attempts as int),
{
    let mut out = "agent ".to_owned();
    out.append(agent);
    out.append(" recovered on attempt ");
    out.append(dec_u64(attempts as u64).as_str());
    out
}

// ---------------------------------------------------------------------
// Giving up
// ---------------------------------------------------------------------

/// The audit entry of a window that was given up.
#[derive(Debug, PartialEq, Eq)]
pub struct AgentGivenUp {
    pub agent: String,
    pub schedule: String,
    pub attempts: u32,
    pub last_exit: i32,
    pub stderr_tail: String,
}

/// Whether `after` is a window that was given up, and `r` what is audited of it.
pub open spec fn gave_up(
    before: WindowState,
    after: WindowState,
    agent: Seq<char>,
    schedule: Seq<char>,
    now: i64,
    r: AgentGivenUp,
) -> bool {
    &&& after == (WindowState { given_up: true, given_up_at: Some(now), ..before })
    &&& r.agent@ == agent
    &&& r.schedule@ == schedule
    &&& r.attempts == before.attempts
    &&& r.last_exit == match before.last_attempt_exit_code {
        Some(c) => c as int,
        None => -1,
    }
    &&& r.stderr_tail@ == match before.last_attempt_stderr {
        Some(s) => s@,
        None => Seq::<char>::empty(),
    }
}

/// Mark a window given up at `now`, and say what is audited. The window is
/// written afterwards whether or not anyone is told.
pub fn give_up(window: &mut WindowState, agent: &str, schedule: &str, now: i64) -> (r: AgentGivenUp)
    ensures
        gave_up(*old(window), *final(window), agent@, schedule@, now, r),
{
    window.given_up = true;
    window.given_up_at = Some(now);
    let last_exit: i32 = match window.last_attempt_exit_code {
        Some(c) => c,
        None => -1,
    };
    let stderr_tail = match &window.last_attempt_stderr {
        Some(s) => s.clone(),
        None => String::new(),
    };
    AgentGivenUp {
        agent: agent.to_owned(),
        schedule: schedule.to_owned(),
        attempts: window.attempts,
        last_exit,
        stderr_tail,
    }
}

// ---------------------------------------------------------------------
// What follows an attempt
// ---------------------------------------------------------------------

/// One thing the daemon does after an attempt.
#[derive(Debug, Clone, Copy, PartialEq, Eq, Structural)]
pub enum Effect {
    /// Tell the listeners that the attempt failed.
    FireAttemptFailed,
    /// Hand the output to the extractor, and file what it and the agent asked
    /// to keep.
    ExtractAndFile,
    /// File what the agent asked to keep.
    FileFacts,
    /// Audit the recovery.
    AuditRecovered,
    /// Tell the listeners that the agent recovered.
    FireRecovered,
    /// Mark the window given up, and audit it.
    GiveUp,
    /// Tell the listeners that the window was given up, where the reminder
    /// ladder allows it.
    AnnounceGiveUp,
    /// Write the window.
    WriteWindow,
}

/// What is filed after a run that ended with `exit_code`: an extractor looks at
/// the output of every run that succeeded.
pub open spec fn filing_of(exit_code: Option<i32>, extractor: bool, facts: nat) -> Seq<Effect> {
    match exit_code {
        Some(code) => if code == 0 && extractor {
            seq![Effect::ExtractAndFile]
        } else if facts > 0 {
            seq![Effect::FileFacts]
        } else {
            Seq::empty()
        },
        None => Seq::empty(),
    }
}

/// What giving up makes the daemon do, in order.
pub open spec fn giving_up() -> Seq<Effect> {
    seq![Effect::GiveUp, Effect::AnnounceGiveUp, Effect::WriteWindow]
}

/// What an attempt makes the daemon do, in order. `exit_code` is that of the
/// agent, where it ran.
pub open spec fn effects_of(
    a: Aftermath,
    exit_code: Option<i32>,
    extractor: bool,
    facts: nat,
) -> Seq<Effect> {
    let filing = filing_of(exit_code, extractor, facts);
    match a {
        Aftermath::Nothing => Seq::empty(),
        Aftermath::Record => filing + seq![Effect::WriteWindow],
        Aftermath::Recovered => filing + seq![
            Effect::AuditRecovered,
            Effect::FireRecovered,
            Effect::WriteWindow,
        ],
        Aftermath::FailedForGood => seq![Effect::FireAttemptFailed] + giving_up(),
        Aftermath::GiveUp => filing + giving_up(),
    }
}

fn push_giving_up(out: &mut Vec<Effect>)
    ensures
        final(out)@ == old(out)@ + giving_up(),
{
    let ghost before = out@;
    out.push(Effect::GiveUp);
    out.push(Effect::AnnounceGiveUp);
    out.push(Effect::WriteWindow);
    assert(out@ =~= before + giving_up());
}

/// What an attempt makes the daemon do, in order. `facts` is how many facts the
/// agent's output asked to keep.
pub fn follow_up(a: Aftermath, exit_code: Option<i32>, extractor: bool, facts: usize) -> (r: Vec<
    Effect,
>)
    ensures
        r@ == effects_of(a, exit_code, extractor, facts as nat),
{
    let ghost filing = filing_of(exit_code, extractor, facts as nat);
    let mut out: Vec<Effect> = Vec::new();
    if a == Aftermath::Nothing {
        return out;
    }
    if a == Aftermath::FailedForGood {
        out.push(Effect::FireAttemptFailed);
        push_giving_up(&mut out);
        assert(out@ =~= seq![Effect::FireAttemptFailed] + giving_up());
        return out;
    }
    if let Some(code) = exit_code {
        if code == 0 && extractor {
            out.push(Effect::ExtractAndFile);
        } else if facts > 0 {
            out.push(Effect::FileFacts);
        }
    }
    assert(out@ =~= filing);
    match a {
        Aftermath::GiveUp => {
            push_giving_up(&mut out);
        },
        Aftermath::Recovered => {
            out.push(Effect::AuditRecovered);
            out.push(Effect::FireRecovered);
            out.push(Effect::WriteWindow);
        },
        _ => {
            out.push(Effect::WriteWindow);
        },
    }
    assert(out@ =~= effects_of(a, exit_code, extractor, facts as nat));
    out
}

/// What is done about a window whose retries are burned, in order.
pub fn give_up_steps() -> (r: Vec<Effect>)
    ensures
        r@ == giving_up(),
{
    let mut out: Vec<Effect> = Vec::new();
    push_giving_up(&mut out);
    assert(out@ =~= giving_up());
    out
}

/// Whether an attempt counts as a dispatched run: it does, whatever came of
/// it, unless the runner could not run it.
pub fn was_dispatched(a: Aftermath) -> (r: bool)
    ensures
        r == (a != Aftermath::Nothing),
{
    a != Aftermath::Nothing
}

/// Whatever an attempt came to, its window is written once, after everything
/// else that follows from it; a run that could not be made leaves no trace.
pub proof fn a_window_is_written_once_and_last(
    a: Aftermath,
    exit_code: Option<i32>,
    extractor: bool,
    facts: nat,
)
    ensures
        a == Aftermath::Nothing ==> effects_of(a, exit_code, extractor, facts).len() == 0,
        a != Aftermath::Nothing ==> {
            let all = effects_of(a, exit_code, extractor, facts);
            &&& all.len() > 0
            &&& all.last() == Effect::WriteWindow
            &&& forall|i: int| 0 <= i < all.len() - 1 ==> #[trigger] all[i] != Effect::WriteWindow
        },
{
}

/// A window is marked and audited as given up before anyone is told, and
/// nobody is told of one that was not.
pub proof fn giving_up_is_audited_before_it_is_announced(
    a: Aftermath,
    exit_code: Option<i32>,
    extractor: bool,
    facts: nat,
    i: int,
)
    requires
        0 <= i < effects_of(a, exit_code, extractor, facts).len(),
        effects_of(a, exit_code, extractor, facts)[i] == Effect::AnnounceGiveUp,
    ensures
        a == Aftermath::GiveUp || a == Aftermath::FailedForGood,
        i > 0,
        effects_of(a, exit_code, extractor, facts)[i - 1] == Effect::GiveUp,
{
}

/// An extractor only ever sees the output of a run that succeeded.
pub proof fn only_successes_are_extracted(
    a: Aftermath,
    exit_code: Option<i32>,
    extractor: bool,
    facts: nat,
    i: int,
)
    requires
        0 <= i < effects_of(a, exit_code, extractor, facts).len(),
        effects_of(a, exit_code, extractor, facts)[i] == Effect::ExtractAndFile,
    ensures
        exit_code == Some(0i32),
        extractor,
{
}

// ---------------------------------------------------------------------
// The dry run
// ---------------------------------------------------------------------

/// One monitored schedule, with everything a tick would look at.
#[derive(Debug)]
pub struct Candidate {
    pub agent: String,
    pub schedule: String,
    pub facts: DueFacts,
    pub window: WindowState,
    pub may_retry: bool,
    pub max_retries: u32,
}

/// Whether a tick would dispatch a schedule.
pub open spec fn would_dispatch(c: Candidate) -> bool {
    due_window(c.facts) is Some && gate_of(c.window, c.may_retry, c.max_retries) == Gate::Dispatch
}

/// What a dry run says of a schedule it would dispatch.
pub open spec fn would_dispatch_line(c: Candidate) -> Seq<char> {
    "would dispatch "@ + c.agent@ + "/"@ + c.schedule@ + "  attempt "@ + dec(c.window.attempts + 1)
        + "/"@ + dec(c.max_retries as int)
}

/// What a dry run prints.
pub open spec fn dry_run_lines(items: Seq<Candidate>) -> Seq<Seq<char>>
    decreases items.len(),
{
    if items.len() == 0 {
        Seq::empty()
    } else {
        let before = dry_run_lines(items.drop_last());
        if would_dispatch(items.last()) {
            before.push(would_dispatch_line(items.last()))
        } else {
            before
        }
    }
}

/// Report what a tick would do: one line per schedule it would dispatch. The
/// number of lines is the number of runs.
pub fn tick_dry_run(items: &Vec<Candidate>) -> (r: Vec<String>)
    ensures
        views(r@) == dry_run_lines(items@),
{
    let mut out: Vec<String> = Vec::new();
    let mut i: usize = 0;
    while i < items.len()
        invariant
            i <= items@.len(),
            views(out@) == dry_run_lines(items@.take(i as int)),
        decreases items@.len() - i,
    {
        let c = &items[i];
        let ghost before = views(out@);
        let due = find_due(&c.facts).is_some();
        let gate = attempt_gate(&c.window, c.may_retry, c.max_retries);
        if due && gate == Gate::Dispatch {
            let mut line = "would dispatch ".to_owned();
            line.append(c.agent.as_str());
            line.append("/");
            line.append(c.schedule.as_str());
            line.append("  attempt ");
            line.append(dec_u64(c.window.attempts as u64 + 1).as_str());
            line.append("/");
            line.append(dec_u64(c.max_retries as u64).as_str());
            out.push(line);
            proof {
                assert(views(out@) =~= before.push(would_dispatch_line(*c)));
            }
        }
        i = i + 1;
        proof {
            assert(items@.take(i as int).drop_last() =~= items@.take(i as int - 1));
        }
    }
    proof {
        assert(items@.take(items@.len() as int) =~= items@);
    }
    out
}

// ---------------------------------------------------------------------
// Which schedules are looked at
// ---------------------------------------------------------------------

/// An agent as the loop walks it: whether it is monitored, and how many
/// schedules it has.
#[derive(Debug, Clone, Copy, PartialEq, Eq, Structural)]
pub struct Watched {
    pub monitor: bool,
    pub schedules: usize,
}

/// The (agent, schedule) pairs of one agent, in order.
pub open spec fn pairs_of(agent: int, w: Watched) -> Seq<(int, int)> {
    if w.monitor {
        Seq::new(w.schedules as nat, |s: int| (agent, s))
    } else {
        Seq::empty()
    }
}

/// The (agent, schedule) pairs the loop looks at, in order: every schedule of
/// every monitored agent.
pub open spec fn watched_pairs(agents: Seq<Watched>) -> Seq<(int, int)>
    decreases agents.len(),
{
    if agents.len() == 0 {
        Seq::empty()
    } else {
        watched_pairs(agents.drop_last()) + pairs_of(agents.len() - 1, agents.last())
    }
}

/// A list of pairs of positions, as integers.
pub open spec fn as_pairs(v: Seq<(usize, usize)>) -> Seq<(int, int)> {
    v.map_values(|p: (usize, usize)| (p.0 as int, p.1 as int))
}

/// The (agent, schedule) pairs the loop looks at, in order.
pub fn monitored_pairs(agents: &Vec<Watched>) -> (r: Vec<(usize, usize)>)
    ensures
        as_pairs(r@) == watched_pairs(agents@),
{
    let mut out: Vec<(usize, usize)> = Vec::new();
    let mut a: usize = 0;
    while a < agents.len()
        invariant
            a <= agents@.len(),
            as_pairs(out@) == watched_pairs(agents@.take(a as int)),
        decreases agents@.len() - a,
    {
        let w = agents[a];
        let ghost start = as_pairs(out@);
        if w.monitor {
            let mut s: usize = 0;
            proof {
                assert(start + pairs_of(a as int, w).take(0) =~= start);
            }
            while s < w.schedules
                invariant
                    s <= w.schedules,
                    w.monitor,
                    as_pairs(out@) == start + pairs_of(a as int, w).take(s as int),
                decreases w.schedules - s,
            {
                let ghost before = as_pairs(out@);
                out.push((a, s));
                s = s + 1;
                proof {
                    let all = pairs_of(a as int, w);
                    assert(as_pairs(out@) =~= before.push((a as int, s as int - 1)));
                    assert(all.take(s as int) =~= all.take(s as int - 1).push(all[s as int - 1]));
                    assert(start + all.take(s as int) =~= (start + all.take(s as int - 1)).push(
                        all[s as int - 1],
                    ));
                }
            }
            proof {
                assert(pairs_of(a as int, w).take(w.schedules as int) =~= pairs_of(a as int, w));
            }
        } else {
            proof {
                assert(start + pairs_of(a as int, w) =~= start);
            }
        }
        a = a + 1;
        proof {
            assert(agents@.take(a as int).drop_last() =~= agents@.take(a as int - 1));
            assert(agents@.take(a as int).last() == w);
        }
    }
    proof {
        assert(agents@.take(agents@.len() as int) =~= agents@);
    }
    out
}

/// An agent that is not monitored is never looked at, and a monitored one has
/// every schedule looked at.
pub proof fn every_monitored_schedule_is_looked_at(agents: Seq<Watched>, a: int, s: int)
    requires
        0 <= a < agents.len(),
    ensures
        watched_pairs(agents).contains((a, s)) <==> agents[a].monitor && 0 <= s
            < agents[a].schedules,
    decreases agents.len(),
{
    lemma_pairs_in_range(agents.drop_last());
    let last = agents.len() - 1;
    let head = watched_pairs(agents.drop_last());
    let tail = pairs_of(last, agents.last());
    let all = watched_pairs(agents);
    assert forall|p: (int, int)| all.contains(p) <==> head.contains(p) || tail.contains(p) by {
        if head.contains(p) {
            let i = choose|i: int| 0 <= i < head.len() && head[i] == p;
            assert(all[i] == p);
        }
        if tail.contains(p) {
            let i = choose|i: int| 0 <= i < tail.len() && tail[i] == p;
            assert(all[head.len() + i] == p);
        }
        if all.contains(p) {
            let i = choose|i: int| 0 <= i < all.len() && all[i] == p;
            if i < head.len() {
                assert(head[i] == p);
            } else {
                assert(tail[i - head.len()] == p);
            }
        }
    }
    if a == last {
        if head.contains((a, s)) {
            let i = choose|i: int| 0 <= i < head.len() && head[i] == (a, s);
            assert(head[i].0 < last);
        }
        if agents[a].monitor && 0 <= s < agents[a].schedules {
            assert(tail[s] == (a, s));
        }
    } else {
        every_monitored_schedule_is_looked_at(agents.drop_last(), a, s);
        assert(!tail.contains((a, s)));
    }
}

proof fn lemma_pairs_in_range(agents: Seq<Watched>)
    ensures
        forall|i: int|
            0 <= i < watched_pairs(agents).len() ==> 0 <= (#[trigger] watched_pairs(agents)[i]).0
                < agents.len(),
    decreases agents.len(),
{
    if agents.len() > 0 {
        lemma_pairs_in_range(agents.drop_last());
        let head = watched_pairs(agents.drop_last());
        let all = watched_pairs(agents);
        assert forall|i: int| 0 <= i < all.len() implies 0 <= (#[trigger] all[i]).0
            < agents.len() by {
            if i < head.len() {
                assert(all[i] == head[i]);
            }
        }
    }
}

// ---------------------------------------------------------------------
// Laws of a window
// ---------------------------------------------------------------------

/// A failed run and the retry check agree: the daemon gives up right after a run
/// exactly when that check would not let the window run again. A window that has
/// attempts left is recorded, and is dispatched again once its backoff has
/// elapsed.
pub proof fn a_failure_gives_up_exactly_when_no_attempt_is_left(
    w: WindowState,
    now: i64,
    max_retries: u32,
    lost_exit_code: i32,
    a: Attempt,
    r: WindowState,
)
    requires
        gate_of(w, true, max_retries) == Gate::Dispatch,
        attempted(w, now, lost_exit_code, a, r),
        a matches Attempt::Ran { exit_code, .. } && exit_code != 0,
    ensures
        aftermath_of(w.attempts, max_retries, a) == Aftermath::GiveUp <==> gate_of(
            r,
            true,
            max_retries,
        ) == Gate::GiveUp,
        aftermath_of(w.attempts, max_retries, a) == Aftermath::Record <==> gate_of(
            r,
            true,
            max_retries,
        ) == Gate::Dispatch,
        aftermath_of(w.attempts, max_retries, a) == Aftermath::GiveUp <==> r.attempts
            >= max_retries,
{
}

/// An agent that keeps failing gets every attempt its policy allows and no
/// more: pass by pass it is dispatched until the attempts reach the
/// policy's number, the last of them gives the window up, and none before does.
pub proof fn a_window_gets_every_attempt_it_is_owed(
    w: WindowState,
    max_retries: u32,
    a: Attempt,
)
    requires
        !w.given_up,
        w.attempts <= max_retries,
        a matches Attempt::Ran { exit_code, .. } && exit_code != 0,
    ensures
        w.attempts < max_retries <==> gate_of(w, true, max_retries) == Gate::Dispatch,
        w.attempts < max_retries - 1 ==> aftermath_of(w.attempts, max_retries, a)
            == Aftermath::Record,
        w.attempts == max_retries - 1 ==> aftermath_of(w.attempts, max_retries, a)
            == Aftermath::GiveUp,
        gate_of(w, false, max_retries) == Gate::Skip,
{
}

/// A run that succeeds never gives up and is never announced as a failure: it
/// is a recovery exactly when an attempt before it did not succeed.
pub proof fn a_success_is_a_recovery_exactly_after_a_failure(
    before: u32,
    max_retries: u32,
    stderr_tail: String,
    extractor: bool,
    facts: nat,
)
    ensures
        ({
            let a = Attempt::Ran { exit_code: 0, stderr_tail };
            let effects = effects_of(
                aftermath_of(before, max_retries, a),
                Some(0i32),
                extractor,
                facts,
            );
            &&& !effects.contains(Effect::GiveUp)
            &&& !effects.contains(Effect::AnnounceGiveUp)
            &&& !effects.contains(Effect::FireAttemptFailed)
            &&& effects.contains(Effect::AuditRecovered) <==> before > 0
            &&& effects.contains(Effect::FireRecovered) <==> before > 0
            &&& effects.contains(Effect::WriteWindow)
        }),
{
    let a = Attempt::Ran { exit_code: 0, stderr_tail };
    let filing = filing_of(Some(0i32), extractor, facts);
    let effects = effects_of(aftermath_of(before, max_retries, a), Some(0i32), extractor, facts);
    assert(effects[effects.len() - 1] == Effect::WriteWindow);
    if before > 0 {
        assert(effects[filing.len() as int] == Effect::AuditRecovered);
        assert(effects[filing.len() as int + 1] == Effect::FireRecovered);
    }
}

/// What a run said is what the window remembers of it: its exit code, its
/// error output and when it was made, and nothing else of the window changes
/// but the count.
pub proof fn a_window_remembers_its_last_run(
    w: WindowState,
    now: i64,
    lost_exit_code: i32,
    exit_code: i32,
    stderr_tail: String,
    r: WindowState,
)
    requires
        attempted(w, now, lost_exit_code, Attempt::Ran { exit_code, stderr_tail }, r),
    ensures
        r.last_attempt_exit_code == Some(exit_code),
        r.last_attempt_stderr is Some && r.last_attempt_stderr->0@ == stderr_tail@,
        r.last_attempt_at == Some(now),
        r.attempts == w.attempts + 1,
        r.expected_at == w.expected_at && r.agent == w.agent && r.schedule_id == w.schedule_id,
{
}

/// An attempt that did not succeed never looks like one that did: a preflight
/// check that stopped it leaves an exit code that is no success, and says which
/// check it was.
pub proof fn a_stopped_attempt_is_no_success(
    w: WindowState,
    now: i64,
    lost_exit_code: i32,
    plugin: String,
    max_retries: u32,
    r: WindowState,
)
    requires
        attempted(w, now, lost_exit_code, Attempt::PreflightFailed { plugin }, r),
    ensures
        r.last_attempt_exit_code is Some && r.last_attempt_exit_code->0 < 0,
        r.last_attempt_stderr is Some && holds_text(r.last_attempt_stderr->0@, plugin@),
        r.last_attempt_at == Some(now),
        aftermath_of(w.attempts, max_retries, Attempt::PreflightFailed { plugin })
            == Aftermath::Record,
{
    crate::text::lemma_holds_part(
        r.last_attempt_stderr->0@,
        "preflight "@,
        plugin@,
        " failed"@,
    );
}

/// A window comes due when its time comes and not before, stays due while
/// nothing changes, and is settled by a success in it: not by an earlier one.
pub proof fn a_window_is_due_from_its_time_until_a_success(f: DueFacts, later: i64, success: i64)
    requires
        f.expected is Some,
        f.last_success is None,
        !f.stale,
        !f.deferred,
        f.now <= later,
    ensures
        due_window(f) is Some <==> f.now >= f.expected->0,
        due_window(f) is Some ==> due_window(DueFacts { now: later, ..f }) == due_window(f),
        due_window(f) is Some ==> due_window(f) == f.expected,
        due_window(DueFacts { last_success: Some(success), ..f }) == if success < f.expected->0 {
            due_window(f)
        } else {
            None
        },
{
}

/// A window that is stale, or held back by the power policy, is not due; once it
/// is let go it is due as if it had never been held back.
pub proof fn what_is_held_back_is_found_as_it_was(f: DueFacts)
    ensures
        f.stale ==> due_window(f) is None,
        f.deferred ==> due_window(f) is None,
        due_window(DueFacts { deferred: true, ..f }) is None,
        due_window(DueFacts { stale: true, ..f }) is None,
        !f.deferred && !f.stale ==> due_window(
            DueFacts { deferred: false, ..DueFacts { deferred: true, ..f } },
        ) == due_window(f),
{
}

/// A dry run names a window exactly when a pass would dispatch it: it is due,
/// and its gate lets it run.
pub proof fn a_dry_run_tells_what_a_pass_would_do(c: Candidate)
    ensures
        would_dispatch(c) <==> due_window(c.facts) is Some && gate_of(
            c.window,
            c.may_retry,
            c.max_retries,
        ) == Gate::Dispatch,
        c.window.given_up || !c.may_retry || c.window.attempts >= c.max_retries
            ==> !would_dispatch(c),
        holds_text(would_dispatch_line(c), " "@ + c.agent@ + "/"@ + c.schedule@ + " "@),
        has_suffix(would_dispatch_line(c), dec(c.window.attempts + 1) + "/"@ + dec(c.max_retries as int)),
{
    reveal_strlit("would dispatch ");
    reveal_strlit("  attempt ");
    reveal_strlit(" ");
    let line = would_dispatch_line(c);
    let name = " "@ + c.agent@ + "/"@ + c.schedule@ + " "@;
    let end = dec(c.window.attempts + 1) + "/"@ + dec(c.max_retries as int);
    assert("would dispatch "@ =~= "would dispatch "@.take(14) + " "@);
    assert("  attempt "@ =~= " "@ + "  attempt "@.skip(1));
    assert(line =~= "would dispatch "@.take(14) + name + ("  attempt "@.skip(1) + end));
    crate::text::lemma_holds_part(line, "would dispatch "@.take(14), name, "  attempt "@.skip(1) + end);
    assert(line.subrange(line.len() - end.len(), line.len() as int) =~= end);
}

/// A dry run has one line for each schedule a pass would dispatch, and no
/// other.
pub proof fn a_dry_run_has_a_line_for_each_run(items: Seq<Candidate>)
    ensures
        dry_run_lines(items).len() == items.filter(|c: Candidate| would_dispatch(c)).len(),
        forall|i: int|
            0 <= i < items.len() && would_dispatch(#[trigger] items[i]) ==> dry_run_lines(
                items,
            ).contains(would_dispatch_line(items[i])),
    decreases items.len(),
{
    reveal(Seq::filter);
    if items.len() > 0 {
        let head = items.drop_last();
        let lines = dry_run_lines(items);
        a_dry_run_has_a_line_for_each_run(head);
        assert forall|i: int|
            0 <= i < items.len() && would_dispatch(#[trigger] items[i]) implies lines.contains(
            would_dispatch_line(items[i]),
        ) by {
            if i < head.len() {
                assert(head[i] == items[i]);
                let old = dry_run_lines(head);
                let k = choose|k: int|
                    0 <= k < old.len() && old[k] == would_dispatch_line(items[i]);
                assert(lines[k] == old[k]);
            } else {
                assert(lines[lines.len() - 1] == would_dispatch_line(items[i]));
            }
        }
    }
}

/// A window begins without an attempt, as the agent's and schedule's own: it is
/// run as soon as it may be, and never given up before it was.
pub proof fn a_fresh_window_is_run_first(
    w: WindowState,
    agent: Seq<char>,
    schedule: Seq<char>,
    expected: i64,
    max_retries: u32,
)
    requires
        is_fresh(w, agent, schedule, expected),
        max_retries > 0,
    ensures
        gate_of(w, true, max_retries) == Gate::Dispatch,
        gate_of(w, false, max_retries) == Gate::Skip,
        w.agent@ == agent && w.schedule_id@ == schedule && w.expected_at == expected,
{
}

/// What is audited of a window that is given up is what it records: how often it
/// was tried, how the last attempt exited and what it logged. The window itself
/// keeps all of that, is marked from now on, and is never run again.
pub proof fn giving_up_keeps_what_happened(
    before: WindowState,
    after: WindowState,
    agent: Seq<char>,
    schedule: Seq<char>,
    now: i64,
    r: AgentGivenUp,
    may_retry: bool,
    max_retries: u32,
)
    requires
        gave_up(before, after, agent, schedule, now, r),
    ensures
        r.agent@ == agent && r.schedule@ == schedule && r.attempts == before.attempts,
        before.last_attempt_exit_code is Some ==> r.last_exit == before.last_attempt_exit_code->0,
        before.last_attempt_stderr is Some ==> r.stderr_tail@ == before.last_attempt_stderr->0@,
        after.attempts == before.attempts && after.last_attempt_exit_code
            == before.last_attempt_exit_code && after.last_attempt_stderr
            == before.last_attempt_stderr && after.expected_at == before.expected_at,
        after.given_up && after.given_up_at == Some(now),
        gate_of(after, may_retry, max_retries) == Gate::Skip,
{
}

/// Each kind of aftermath has its own effects: only a recovery is announced as
/// one, only a lost request as a failed attempt, and a run that could not be made
/// has none.
pub proof fn each_aftermath_has_its_own_effects(
    a: Aftermath,
    exit_code: Option<i32>,
    extractor: bool,
    facts: nat,
)
    ensures
        effects_of(a, exit_code, extractor, facts).contains(Effect::FireRecovered) <==> a
            == Aftermath::Recovered,
        effects_of(a, exit_code, extractor, facts).contains(Effect::AuditRecovered) <==> a
            == Aftermath::Recovered,
        effects_of(a, exit_code, extractor, facts).contains(Effect::FireAttemptFailed) <==> a
            == Aftermath::FailedForGood,
        effects_of(a, exit_code, extractor, facts).contains(Effect::GiveUp) <==> a
            == Aftermath::GiveUp || a == Aftermath::FailedForGood,
        effects_of(a, exit_code, extractor, facts).len() == 0 <==> a == Aftermath::Nothing,
        (a == Aftermath::Record || a == Aftermath::Recovered || a == Aftermath::GiveUp) ==> (
        effects_of(a, exit_code, extractor, facts).contains(Effect::FileFacts) <==> exit_code
            is Some && facts > 0 && !(exit_code == Some(0i32) && extractor)),
{
    let all = effects_of(a, exit_code, extractor, facts);
    let filing = filing_of(exit_code, extractor, facts);
    let n = filing.len() as int;
    if a == Aftermath::Recovered {
        assert(all[n] == Effect::AuditRecovered);
        assert(all[n + 1] == Effect::FireRecovered);
    }
    if a == Aftermath::FailedForGood {
        assert(all[0] == Effect::FireAttemptFailed);
        assert(all[1] == Effect::GiveUp);
    }
    if a == Aftermath::GiveUp {
        assert(all[n] == Effect::GiveUp);
    }
    if n == 1 && a != Aftermath::FailedForGood && a != Aftermath::Nothing {
        assert(all[0] == filing[0]);
    }
}

/// A recovery names the agent and the attempt that worked.
pub proof fn a_recovery_names_the_attempt(agent: Seq<char>, attempts: int)
    ensures
        holds_text(recovered_text(agent, attempts), " "@ + agent + " "@),
        has_suffix(recovered_text(agent, attempts), " "@ + dec(attempts)),
{
    reveal_strlit("agent ");
    reveal_strlit(" ");
    reveal_strlit(" recovered on attempt ");
    let a = "agent "@.drop_last();
    let mid = " recovered on attempt "@;
    let n = dec(attempts);
    let said = recovered_text(agent, attempts);
    let who = " "@ + agent + " "@;
    assert(said =~= a + who + (mid.skip(1) + n));
    lemma_holds_part(said, a, who, mid.skip(1) + n);
    assert(mid =~= mid.drop_last() + " "@);
    assert(said =~= ("agent "@ + agent + mid.drop_last()) + (" "@ + n));
    lemma_ends("agent "@ + agent + mid.drop_last(), " "@ + n);
}

} // verus!
