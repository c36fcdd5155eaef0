//! The textual health dashboard. Read-only: it never dispatches anything and
//! never writes to the audit log.

use chrono::NaiveDate;
use crate::daemon::alerts::HealthState;
use crate::text::{
    dec, dec_u64, dec_usize, digit, has_prefix, has_suffix, holds_text, in_base, lemma_ends,
    lemma_holds_last, lemma_holds_more, lemma_holds_part, lemma_holds_through, lemma_in_two,
    occurs_at, pad, padded, spaces,
};
use vstd::prelude::*;

verus! {

broadcast use vstd::string::group_string_axioms;

// ---------------------------------------------------------------------
// Dates
// ---------------------------------------------------------------------

/// What chrono prints with `%Y-%m-%d` for a day of the proleptic Gregorian
/// calendar, given by its number, January 1 of year 1 being 1. `None` for a
/// day outside what chrono's dates cover.
pub uninterp spec fn iso_date(day: int) -> Option<Seq<char>>;

/// `chrono::NaiveDate::from_num_days_from_ce_opt`, and the date it returns
/// printed with `%Y-%m-%d`.
#[verifier::external_body]
pub(crate) fn date_text(day: i32) -> (r: Option<String>)
    ensures
        match r {
            Some(t) => iso_date(day as int) == Some(t@),
            None => iso_date(day as int) is None,
        },
{
    NaiveDate::from_num_days_from_ce_opt(day).map(|d| d.format("%Y-%m-%d").to_string())
}

/// `n` with at least two digits.
pub open spec fn two_digits(n: int) -> Seq<char> {
    if 0 <= n < 10 {
        "0"@ + dec(n)
    } else {
        dec(n)
    }
}

/// A time of day, as hours and minutes.
pub open spec fn clock_text(hour: int, minute: int) -> Seq<char> {
    two_digits(hour) + ":"@ + two_digits(minute)
}

fn push_two_digits(out: &mut String, n: u32)
    ensures
        final(out)@ == old(out)@ + two_digits(n as int),
{
    let digits = dec_u64(n as u64);
    if n < 10 {
        let mut text = "0".to_owned();
        text.append(digits.as_str());
        out.append(text.as_str());
    } else {
        out.append(digits.as_str());
    }
}

// ---------------------------------------------------------------------
// The dashboard
// ---------------------------------------------------------------------

/// The health of one schedule.
#[derive(Debug, PartialEq, Eq)]
pub struct Row {
    pub agent: String,
    pub schedule: String,
    pub state: HealthState,
    pub last_run: String,
    pub reason: String,
}

/// Whether `r` is the row of a schedule.
pub open spec fn is_row_of(
    agent: Seq<char>,
    schedule: Seq<char>,
    finished_at: Option<String>,
    state: HealthState,
    reason: Seq<char>,
    r: Row,
) -> bool {
    &&& r.agent@ == agent
    &&& r.schedule@ == schedule
    &&& r.state == state
    &&& r.reason@ == reason
    &&& r.last_run@ == match finished_at {
        Some(t) => t@,
        None => "never"@,
    }
}

/// The row of a schedule. One that never finished a run says so.
pub fn compute_row(
    agent: &str,
    schedule: &str,
    finished_at: &Option<String>,
    state: HealthState,
    reason: &str,
) -> (r: Row)
    ensures
        is_row_of(agent@, schedule@, *finished_at, state, reason@, r),
{
    let last_run = match finished_at {
        Some(t) => t.clone(),
        None => "never".to_owned(),
    };
    Row {
        agent: agent.to_owned(),
        schedule: schedule.to_owned(),
        state,
        last_run,
        reason: reason.to_owned(),
    }
}

/// The rows of one agent's schedules.
#[derive(Debug, PartialEq, Eq)]
pub struct AgentRows {
    /// Whether the agent is monitored.
    pub monitor: bool,
    pub rows: Vec<Row>,
}

/// The rows of the monitored agents, in order.
pub open spec fn monitored_rows(agents: Seq<AgentRows>) -> Seq<Row>
    decreases agents.len(),
{
    if agents.len() == 0 {
        Seq::empty()
    } else {
        let before = monitored_rows(agents.drop_last());
        if agents.last().monitor {
            before + agents.last().rows@
        } else {
            before
        }
    }
}

/// The rows of the monitored agents, in order. An agent that is not monitored
/// is in no dashboard and no summary.
pub fn monitored(agents: Vec<AgentRows>) -> (r: Vec<Row>)
    ensures
        r@ == monitored_rows(agents@),
{
    let ghost all = monitored_rows(agents@);
    let mut left = agents;
    let mut out: Vec<Row> = Vec::new();
    assert(all =~= monitored_rows(left@) + out@);
    while left.len() > 0
        invariant
            all == monitored_rows(left@) + out@,
        decreases left@.len(),
    {
        let ghost before = left@;
        let ghost tail = out@;
        if let Some(agent) = left.pop() {
            assert(left@ =~= before.drop_last());
            if agent.monitor {
                let mut rows = agent.rows;
                rows.append(&mut out);
                out = rows;
                assert(monitored_rows(left@) + out@ =~= monitored_rows(before) + tail);
            }
        }
    }
    assert(all =~= out@);
    out
}

/// How many rows are in a state.
pub open spec fn count_of(rows: Seq<Row>, state: HealthState) -> nat
    decreases rows.len(),
{
    if rows.len() == 0 {
        0
    } else {
        count_of(rows.drop_last(), state) + if rows.last().state == state {
            1nat
        } else {
            0nat
        }
    }
}

/// How many rows are in a state.
pub fn count(rows: &Vec<Row>, state: HealthState) -> (r: usize)
    ensures
        r == count_of(rows@, state),
{
    let mut n: usize = 0;
    let mut i: usize = 0;
    proof {
        assert(rows@.take(0) =~= Seq::<Row>::empty());
    }
    while i < rows.len()
        invariant
            i <= rows@.len(),
            n <= i,
            n == count_of(rows@.take(i as int), state),
        decreases rows@.len() - i,
    {
        proof {
            assert(rows@.take(i as int + 1).drop_last() =~= rows@.take(i as int));
        }
        if rows[i].state == state {
            n = n + 1;
        }
        i = i + 1;
    }
    proof {
        assert(rows@.take(rows@.len() as int) =~= rows@);
    }
    n
}

/// Every row is counted in exactly one state.
pub proof fn every_row_counts_once(rows: Seq<Row>)
    ensures
        count_of(rows, HealthState::Healthy) + count_of(rows, HealthState::Degraded) + count_of(
            rows,
            HealthState::Failing,
        ) + count_of(rows, HealthState::Stale) == rows.len(),
    decreases rows.len(),
{
    if rows.len() > 0 {
        every_row_counts_once(rows.drop_last());
    }
}

/// What a state is shown as.
pub open spec fn state_icon(state: HealthState) -> Seq<char> {
    match state {
        HealthState::Healthy => "✅ ok      "@,
        HealthState::Degraded => "⚠️  degraded"@,
        HealthState::Failing => "❌ failing "@,
        HealthState::Stale => "🕑 stale   "@,
    }
}

/// One row of the dashboard.
pub open spec fn row_line(r: Row) -> Seq<char> {
    padded(r.agent@ + "/"@ + r.schedule@, 36) + " "@ + state_icon(r.state) + "  "@ + padded(
        r.last_run@,
        26,
    ) + " "@ + r.reason@ + "\n"@
}

/// The rows in a state, in order.
pub open spec fn rows_in(rows: Seq<Row>, state: HealthState) -> Seq<char>
    decreases rows.len(),
{
    if rows.len() == 0 {
        Seq::empty()
    } else {
        let before = rows_in(rows.drop_last(), state);
        if rows.last().state == state {
            before + row_line(rows.last())
        } else {
            before
        }
    }
}

fn print_row(row: &Row) -> (r: String)
    ensures
        r@ == row_line(*row),
{
    let mut name = row.agent.clone();
    name.append("/");
    name.append(row.schedule.as_str());
    let icon = match row.state {
        HealthState::Healthy => "✅ ok      ",
        HealthState::Degraded => "⚠️  degraded",
        HealthState::Failing => "❌ failing ",
        HealthState::Stale => "🕑 stale   ",
    };
    let mut out = pad(name.as_str(), 36);
    out.append(" ");
    out.append(icon);
    out.append("  ");
    out.append(pad(row.last_run.as_str(), 26).as_str());
    out.append(" ");
    out.append(row.reason.as_str());
    out.append("\n");
    out
}

fn print_rows(rows: &Vec<Row>, state: HealthState) -> (r: String)
    ensures
        r@ == rows_in(rows@, state),
{
    let mut out = String::new();
    let mut i: usize = 0;
    proof {
        assert(rows@.take(0) =~= Seq::<Row>::empty());
    }
    while i < rows.len()
        invariant
            i <= rows@.len(),
            out@ == rows_in(rows@.take(i as int), state),
        decreases rows@.len() - i,
    {
        proof {
            assert(rows@.take(i as int + 1).drop_last() =~= rows@.take(i as int));
        }
        if rows[i].state == state {
            out.append(print_row(&rows[i]).as_str());
        }
        i = i + 1;
    }
    proof {
        assert(rows@.take(rows@.len() as int) =~= rows@);
    }
    out
}

/// A rule of a hundred dashes.
pub const RULE: &'static str = "────────────────────────────────────────────────────────────────────────────────────────────────────";

/// The upper part of the dashboard: the time, and how many rows are in each
/// state.
pub open spec fn tally_text(rows: Seq<Row>, now: Seq<char>) -> Seq<char> {
    "\n═══ Agent Health · "@ + now + " ═══\n\n  ✅ ok       "@ + dec(
        count_of(rows, HealthState::Healthy) as int,
    ) + "/"@ + dec(rows.len() as int) + "\n  ⚠️  degraded "@ + dec(
        count_of(rows, HealthState::Degraded) as int,
    ) + "\n  ❌ failing  "@ + dec(count_of(rows, HealthState::Failing) as int)
        + "\n  🕑 stale    "@ + dec(count_of(rows, HealthState::Stale) as int) + "\n\n"@
}

/// The head of the table.
pub open spec fn table_head() -> Seq<char> {
    padded("AGENT/SCHEDULE"@, 36) + " "@ + padded("STATE"@, 11) + " "@ + padded("LAST RUN"@, 26)
        + " REASON\n"@ + RULE@ + "\n"@
}

/// Where to look next.
pub open spec fn places_text(home: Seq<char>) -> Seq<char> {
    "\nLogs:    "@ + home + "/logs/\nState:   "@ + home + "/state/agents/\nAudit:   "@ + home
        + "/audit.log\n"@
}

/// What the dashboard shows, most urgent rows first. `now` is the local time.
pub open spec fn dashboard_text(rows: Seq<Row>, now: Seq<char>, home: Seq<char>) -> Seq<char> {
    tally_text(rows, now) + table_head() + rows_in(rows, HealthState::Failing) + rows_in(
        rows,
        HealthState::Degraded,
    ) + rows_in(rows, HealthState::Stale) + rows_in(rows, HealthState::Healthy) + places_text(home)
}

fn print_tally(rows: &Vec<Row>, now: &str) -> (r: String)
    ensures
        r@ == tally_text(rows@, now@),
{
    let mut out = "\n═══ Agent Health · ".to_owned();
    out.append(now);
    out.append(" ═══\n\n  ✅ ok       ");
    out.append(dec_usize(count(rows, HealthState::Healthy)).as_str());
    out.append("/");
    out.append(dec_usize(rows.len()).as_str());
    out.append("\n  ⚠️  degraded ");
    out.append(dec_usize(count(rows, HealthState::Degraded)).as_str());
    out.append("\n  ❌ failing  ");
    out.append(dec_usize(count(rows, HealthState::Failing)).as_str());
    out.append("\n  🕑 stale    ");
    out.append(dec_usize(count(rows, HealthState::Stale)).as_str());
    out.append("\n\n");
    out
}

fn print_head() -> (r: String)
    ensures
        r@ == table_head(),
{
    let mut out = pad("AGENT/SCHEDULE", 36);
    out.append(" ");
    out.append(pad("STATE", 11).as_str());
    out.append(" ");
    out.append(pad("LAST RUN", 26).as_str());
    out.append(" REASON\n");
    out.append(RULE);
    out.append("\n");
    out
}

fn print_places(home: &str) -> (r: String)
    ensures
        r@ == places_text(home@),
{
    let mut out = "\nLogs:    ".to_owned();
    out.append(home);
    out.append("/logs/\nState:   ");
    out.append(home);
    out.append("/state/agents/\nAudit:   ");
    out.append(home);
    out.append("/audit.log\n");
    out
}

/// The textual dashboard.
pub fn print_dashboard(rows: &Vec<Row>, now: &str, home: &str) -> (r: String)
    ensures
        r@ == dashboard_text(rows@, now@, home@),
{
    let mut out = print_tally(rows, now);
    out.append(print_head().as_str());
    out.append(print_rows(rows, HealthState::Failing).as_str());
    out.append(print_rows(rows, HealthState::Degraded).as_str());
    out.append(print_rows(rows, HealthState::Stale).as_str());
    out.append(print_rows(rows, HealthState::Healthy).as_str());
    out.append(print_places(home).as_str());
    out
}

/// A local time, as a dashboard shows it: `None` for a day the calendar does
/// not cover.
pub open spec fn stamp(day: int, hour: int, minute: int) -> Option<Seq<char>> {
    match iso_date(day) {
        Some(date) => Some(date + " "@ + clock_text(hour, minute)),
        None => None,
    }
}

/// The dashboard of a local time: the day by its number, the hour and the
/// minute. `None` for a day the calendar does not cover.
pub fn dashboard(rows: &Vec<Row>, day: i32, hour: u32, minute: u32, home: &str) -> (r: Option<
    String,
>)
    ensures
        match stamp(day as int, hour as int, minute as int) {
            Some(now) => r matches Some(t) && t@ == dashboard_text(rows@, now, home@),
            None => r is None,
        },
{
    let mut now = match date_text(day) {
        Some(date) => date,
        None => {
            return None;
        },
    };
    let mut clock = String::new();
    push_two_digits(&mut clock, hour);
    clock.append(":");
    push_two_digits(&mut clock, minute);
    proof {
        assert(Seq::<char>::empty() + two_digits(hour as int) =~= two_digits(hour as int));
    }
    now.append(" ");
    now.append(clock.as_str());
    Some(print_dashboard(rows, now.as_str(), home))
}

// ---------------------------------------------------------------------
// Live subprocesses
// ---------------------------------------------------------------------

/// A child the daemon is running.
#[derive(Debug, PartialEq, Eq)]
pub struct LiveProcess {
    pub kind: String,
    /// Whether it is a persistent agent, whose clock is the idle window.
    pub persistent: bool,
    pub pid: u32,
    pub owner: String,
    pub label: String,
    pub age_seconds: u64,
    pub deadline_seconds: u64,
    pub deadline_pct: u64,
}

/// Where the entry at `i` goes in an order that has the most urgent first:
/// behind everything at least as urgent.
pub open spec fn slot(snap: Seq<LiveProcess>, order: Seq<int>, i: int) -> int
    decreases order.len(),
{
    if order.len() == 0 {
        0
    } else if snap[order.last()].deadline_pct >= snap[i].deadline_pct {
        order.len() as int
    } else {
        slot(snap, order.drop_last(), i)
    }
}

/// The first `n` entries, most urgent first; equals keep their order.
pub open spec fn urgent_first(snap: Seq<LiveProcess>, n: nat) -> Seq<int>
    decreases n,
{
    if n == 0 {
        Seq::empty()
    } else {
        let before = urgent_first(snap, (n - 1) as nat);
        before.insert(slot(snap, before, n - 1), n - 1)
    }
}

/// Whether `a` is shown before `b`.
pub open spec fn more_urgent(snap: Seq<LiveProcess>, a: int, b: int) -> bool {
    snap[a].deadline_pct > snap[b].deadline_pct || (snap[a].deadline_pct == snap[b].deadline_pct
        && a < b)
}

proof fn lemma_slot(snap: Seq<LiveProcess>, order: Seq<int>, i: int)
    requires
        forall|a: int, b: int|
            0 <= a < b < order.len() ==> snap[#[trigger] order[a]].deadline_pct
                >= snap[#[trigger] order[b]].deadline_pct,
    ensures
        0 <= slot(snap, order, i) <= order.len(),
        forall|k: int|
            0 <= k < slot(snap, order, i) ==> snap[#[trigger] order[k]].deadline_pct
                >= snap[i].deadline_pct,
        forall|k: int|
            slot(snap, order, i) <= k < order.len() ==> snap[#[trigger] order[k]].deadline_pct
                < snap[i].deadline_pct,
    decreases order.len(),
{
    if order.len() > 0 && snap[order.last()].deadline_pct < snap[i].deadline_pct {
        let head = order.drop_last();
        lemma_slot(snap, head, i);
        assert forall|k: int| slot(snap, order, i) <= k < order.len() implies snap[
            #[trigger] order[k]
        ].deadline_pct < snap[i].deadline_pct by {
            if k < head.len() {
                assert(order[k] == head[k]);
            }
        }
        assert forall|k: int| 0 <= k < slot(snap, order, i) implies snap[
            #[trigger] order[k]
        ].deadline_pct >= snap[i].deadline_pct by {
            assert(order[k] == head[k]);
        }
    } else if order.len() > 0 {
        assert forall|k: int| 0 <= k < order.len() implies snap[#[trigger] order[k]].deadline_pct
            >= snap[i].deadline_pct by {
            if k < order.len() - 1 {
                assert(order[order.len() - 1] == order.last());
            }
        }
    }
}

/// What is closest to its deadline is shown first, equals keep the order they
/// came in, and nothing is left out or shown twice.
pub proof fn the_most_urgent_come_first(snap: Seq<LiveProcess>, n: nat)
    ensures
        urgent_first(snap, n).len() == n,
        forall|k: int| 0 <= k < n ==> 0 <= #[trigger] urgent_first(snap, n)[k] < n,
        forall|i: int| 0 <= i < n ==> #[trigger] urgent_first(snap, n).contains(i),
        forall|a: int, b: int|
            0 <= a < b < n ==> more_urgent(
                snap,
                #[trigger] urgent_first(snap, n)[a],
                #[trigger] urgent_first(snap, n)[b],
            ),
    decreases n,
{
    if n > 0 {
        let m = (n - 1) as nat;
        the_most_urgent_come_first(snap, m);
        let before = urgent_first(snap, m);
        assert forall|a: int, b: int| 0 <= a < b < before.len() implies snap[
            #[trigger] before[a]
        ].deadline_pct >= snap[#[trigger] before[b]].deadline_pct by {
            assert(more_urgent(snap, before[a], before[b]));
        }
        lemma_slot(snap, before, n - 1);
        let at = slot(snap, before, n - 1);
        let now = urgent_first(snap, n);
        assert(now == before.insert(at, n - 1));
        assert forall|k: int| 0 <= k < n implies 0 <= #[trigger] now[k] < n by {
            if k < at {
                assert(now[k] == before[k]);
            } else if k > at {
                assert(now[k] == before[k - 1]);
            }
        }
        assert forall|i: int| 0 <= i < n implies #[trigger] now.contains(i) by {
            if i < m {
                assert(before.contains(i));
                let k = choose|k: int| 0 <= k < before.len() && before[k] == i;
                if k < at {
                    assert(now[k] == i);
                } else {
                    assert(now[k + 1] == i);
                }
            } else {
                assert(now[at] == i);
            }
        }
        assert forall|a: int, b: int| 0 <= a < b < n implies more_urgent(
            snap,
            #[trigger] now[a],
            #[trigger] now[b],
        ) by {
            let a0 = if a < at { a } else { a - 1 };
            let b0 = if b < at { b } else { b - 1 };
            if a != at {
                assert(now[a] == before[a0]);
            }
            if b != at {
                assert(now[b] == before[b0]);
            }
            if a != at && b != at {
                assert(more_urgent(snap, before[a0], before[b0]));
            }
        }
    }
}

fn order_of(snap: &Vec<LiveProcess>) -> (r: Vec<usize>)
    ensures
        r@.map_values(|i: usize| i as int) == urgent_first(snap@, snap@.len()),
        forall|k: int| 0 <= k < r@.len() ==> #[trigger] r@[k] < snap@.len(),
{
    let mut order: Vec<usize> = Vec::new();
    let mut i: usize = 0;
    proof {
        assert(order@.map_values(|i: usize| i as int) =~= Seq::<int>::empty());
    }
    while i < snap.len()
        invariant
            i <= snap@.len(),
            order@.map_values(|i: usize| i as int) == urgent_first(snap@, i as nat),
            forall|k: int| 0 <= k < order@.len() ==> #[trigger] order@[k] < i,
        decreases snap@.len() - i,
    {
        let ghost full = order@.map_values(|i: usize| i as int);
        let mut at: usize = order.len();
        proof {
            assert(full.take(full.len() as int) =~= full);
        }
        while at > 0 && snap[order[at - 1]].deadline_pct < snap[i].deadline_pct
            invariant
                at <= order@.len(),
                i < snap@.len(),
                forall|k: int| 0 <= k < order@.len() ==> #[trigger] order@[k] < i,
                full == order@.map_values(|i: usize| i as int),
                slot(snap@, full, i as int) == slot(snap@, full.take(at as int), i as int),
            decreases at,
        {
            proof {
                assert(full.take(at as int).drop_last() =~= full.take(at as int - 1));
                assert(full.take(at as int).last() == order@[at as int - 1] as int);
            }
            at = at - 1;
        }
        proof {
            if at > 0 {
                assert(full.take(at as int).last() == order@[at as int - 1] as int);
            }
            assert(slot(snap@, full, i as int) == at);
        }
        order.insert(at, i);
        proof {
            assert(order@.map_values(|i: usize| i as int) =~= full.insert(at as int, i as int));
        }
        i = i + 1;
    }
    order
}

/// What marks a child. Reaching the idle window is the pool working, so a
/// persistent agent never gets an alarm.
pub open spec fn process_icon(p: LiveProcess) -> Seq<char> {
    if p.persistent {
        "  "@
    } else if p.deadline_pct >= 100 {
        "🔴"@
    } else if p.deadline_pct >= 80 {
        "⚠️ "@
    } else {
        "  "@
    }
}

/// One line of the table.
pub open spec fn process_line(p: LiveProcess) -> Seq<char> {
    process_icon(p) + " "@ + padded(p.kind@, 8) + " "@ + padded(dec(p.pid as int), 8) + " "@
        + padded(p.owner@, 14) + " "@ + padded(p.label@, 30) + " "@ + (if p.persistent {
        "idle"@
    } else {
        ""@
    }) + dec(p.age_seconds as int) + "s / "@ + dec(p.deadline_seconds as int) + "s ("@ + dec(
        p.deadline_pct as int,
    ) + "%)\n"@
}

/// The lines of the table, in a given order.
pub open spec fn process_lines(snap: Seq<LiveProcess>, order: Seq<int>) -> Seq<char>
    decreases order.len(),
{
    if order.len() == 0 {
        Seq::empty()
    } else {
        process_lines(snap, order.drop_last()) + process_line(snap[order.last()])
    }
}

/// Whether some child is a persistent agent.
pub open spec fn any_persistent(snap: Seq<LiveProcess>) -> bool {
    exists|i: int| 0 <= i < snap.len() && #[trigger] snap[i].persistent
}

/// What is shown of the children: nothing when there are none.
pub open spec fn processes_text(snap: Seq<LiveProcess>) -> Seq<char> {
    if snap.len() == 0 {
        Seq::empty()
    } else {
        "\n─── Live subprocesses ("@ + dec(snap.len() as int) + " running) ───\n"@ + padded(
            "KIND"@,
            10,
        ) + " "@ + padded("PID"@, 8) + " "@ + padded("OWNER"@, 14) + " "@ + padded("LABEL"@, 30)
            + " AGE / DEADLINE\n"@ + RULE@ + "\n"@ + process_lines(
            snap,
            urgent_first(snap, snap.len()),
        ) + if any_persistent(snap) {
            "\n  persistent: AGE is time since the last answer; DEADLINE is the idle window before recycling.\n"@
        } else {
            Seq::empty()
        }
    }
}

fn print_process(p: &LiveProcess) -> (r: String)
    ensures
        r@ == process_line(*p),
{
    let icon = if p.persistent {
        "  "
    } else if p.deadline_pct >= 100 {
        "🔴"
    } else if p.deadline_pct >= 80 {
        "⚠️ "
    } else {
        "  "
    };
    let mut out = icon.to_owned();
    out.append(" ");
    out.append(pad(p.kind.as_str(), 8).as_str());
    out.append(" ");
    out.append(pad(dec_u64(p.pid as u64).as_str(), 8).as_str());
    out.append(" ");
    out.append(pad(p.owner.as_str(), 14).as_str());
    out.append(" ");
    out.append(pad(p.label.as_str(), 30).as_str());
    out.append(" ");
    out.append(
        if p.persistent {
            "idle"
        } else {
            ""
        },
    );
    out.append(dec_u64(p.age_seconds).as_str());
    out.append("s / ");
    out.append(dec_u64(p.deadline_seconds).as_str());
    out.append("s (");
    out.append(dec_u64(p.deadline_pct).as_str());
    out.append("%)\n");
    out
}

/// Show the children, the ones near their deadline first.
pub fn print_live_subprocesses(snap: &Vec<LiveProcess>) -> (r: String)
    ensures
        r@ == processes_text(snap@),
{
    if snap.len() == 0 {
        return String::new();
    }
    let order = order_of(snap);
    let ghost all = order@.map_values(|i: usize| i as int);
    let mut lines = String::new();
    let mut i: usize = 0;
    proof {
        assert(all.take(0) =~= Seq::<int>::empty());
    }
    while i < order.len()
        invariant
            i <= order@.len(),
            all == order@.map_values(|i: usize| i as int),
            forall|k: int| 0 <= k < order@.len() ==> #[trigger] order@[k] < snap@.len(),
            lines@ == process_lines(snap@, all.take(i as int)),
        decreases order@.len() - i,
    {
        proof {
            assert(all.take(i as int + 1).drop_last() =~= all.take(i as int));
            assert(all.take(i as int + 1).last() == order@[i as int] as int);
        }
        lines.append(print_process(&snap[order[i]]).as_str());
        i = i + 1;
    }
    proof {
        assert(all.take(all.len() as int) =~= all);
    }
    let mut persistent = false;
    let mut k: usize = 0;
    while k < snap.len()
        invariant
            k <= snap@.len(),
            persistent == exists|i: int| 0 <= i < k && #[trigger] snap@[i].persistent,
        decreases snap@.len() - k,
    {
        if snap[k].persistent {
            persistent = true;
        }
        k = k + 1;
    }
    let note = if persistent {
        "\n  persistent: AGE is time since the last answer; DEADLINE is the idle window before recycling.\n".to_owned()
    } else {
        String::new()
    };
    let mut out = "\n─── Live subprocesses (".to_owned();
    out.append(dec_usize(snap.len()).as_str());
    out.append(" running) ───\n");
    out.append(pad("KIND", 10).as_str());
    out.append(" ");
    out.append(pad("PID", 8).as_str());
    out.append(" ");
    out.append(pad("OWNER", 14).as_str());
    out.append(" ");
    out.append(pad("LABEL", 30).as_str());
    out.append(" AGE / DEADLINE\n");
    out.append(RULE);
    out.append("\n");
    out.append(lines.as_str());
    out.append(note.as_str());
    out
}

// ---------------------------------------------------------------------
// Laws of the dashboard
// ---------------------------------------------------------------------

/// Counting a state is counting the rows that are in it.
pub proof fn a_count_is_of_the_rows_in_that_state(rows: Seq<Row>, state: HealthState)
    ensures
        count_of(rows, state) == rows.filter(|r: Row| r.state == state).len(),
        (forall|i: int| 0 <= i < rows.len() ==> (#[trigger] rows[i]).state == state) ==> count_of(
            rows,
            state,
        ) == rows.len(),
        (forall|i: int| 0 <= i < rows.len() ==> (#[trigger] rows[i]).state != state) ==> count_of(
            rows,
            state,
        ) == 0,
    decreases rows.len(),
{
    reveal(Seq::filter);
    if rows.len() > 0 {
        let head = rows.drop_last();
        a_count_is_of_the_rows_in_that_state(head, state);
        assert(forall|i: int| 0 <= i < head.len() ==> #[trigger] head[i] == rows[i]);
        assert(rows.last() == rows[rows.len() - 1]);
    }
}

/// Each number of the dashboard stands behind the mark of its own state: the
/// rows that are ok out of all rows, then those degraded, failing and stale.
pub proof fn every_number_stands_behind_its_own_mark(
    rows: Seq<Row>,
    now: Seq<char>,
    home: Seq<char>,
)
    ensures
        ({
            let text = dashboard_text(rows, now, home);
            let ok = rows.filter(|r: Row| r.state == HealthState::Healthy).len() as int;
            let degraded = rows.filter(|r: Row| r.state == HealthState::Degraded).len() as int;
            let failing = rows.filter(|r: Row| r.state == HealthState::Failing).len() as int;
            let stale = rows.filter(|r: Row| r.state == HealthState::Stale).len() as int;
            &&& holds_text(
                text,
                " ═══\n\n  ✅ ok       "@ + dec(ok) + "/"@ + dec(rows.len() as int)
                    + "\n  ⚠️  degraded "@,
            )
            &&& holds_text(text, "\n  ⚠️  degraded "@ + dec(degraded) + "\n  ❌ failing  "@)
            &&& holds_text(text, "\n  ❌ failing  "@ + dec(failing) + "\n  🕑 stale    "@)
            &&& holds_text(text, "\n  🕑 stale    "@ + dec(stale) + "\n\n"@)
        }),
{
    a_count_is_of_the_rows_in_that_state(rows, HealthState::Healthy);
    a_count_is_of_the_rows_in_that_state(rows, HealthState::Degraded);
    a_count_is_of_the_rows_in_that_state(rows, HealthState::Failing);
    a_count_is_of_the_rows_in_that_state(rows, HealthState::Stale);
    let ok = dec(rows.filter(|r: Row| r.state == HealthState::Healthy).len() as int);
    let degraded = dec(rows.filter(|r: Row| r.state == HealthState::Degraded).len() as int);
    let failing = dec(rows.filter(|r: Row| r.state == HealthState::Failing).len() as int);
    let stale = dec(rows.filter(|r: Row| r.state == HealthState::Stale).len() as int);
    let all = dec(rows.len() as int);
    lemma_tally(now, ok, all, degraded, failing, stale);
    let tally = tally_text(rows, now);
    let rest = table_head() + rows_in(rows, HealthState::Failing) + rows_in(
        rows,
        HealthState::Degraded,
    ) + rows_in(rows, HealthState::Stale) + rows_in(rows, HealthState::Healthy) + places_text(home);
    assert(dashboard_text(rows, now, home) =~= tally + rest);
    lemma_holds_more(
        tally,
        " ═══\n\n  ✅ ok       "@ + ok + "/"@ + all + "\n  ⚠️  degraded "@,
        rest,
    );
    lemma_holds_more(tally, "\n  ⚠️  degraded "@ + degraded + "\n  ❌ failing  "@, rest);
    lemma_holds_more(tally, "\n  ❌ failing  "@ + failing + "\n  🕑 stale    "@, rest);
    lemma_holds_more(tally, "\n  🕑 stale    "@ + stale + "\n\n"@, rest);
}

proof fn lemma_tally(
    now: Seq<char>,
    ok: Seq<char>,
    all: Seq<char>,
    degraded: Seq<char>,
    failing: Seq<char>,
    stale: Seq<char>,
)
    ensures
        ({
            let text = "\n═══ Agent Health · "@ + now + " ═══\n\n  ✅ ok       "@ + ok + "/"@ + all
                + "\n  ⚠️  degraded "@ + degraded + "\n  ❌ failing  "@ + failing
                + "\n  🕑 stale    "@ + stale + "\n\n"@;
            &&& holds_text(
                text,
                " ═══\n\n  ✅ ok       "@ + ok + "/"@ + all + "\n  ⚠️  degraded "@,
            )
            &&& holds_text(text, "\n  ⚠️  degraded "@ + degraded + "\n  ❌ failing  "@)
            &&& holds_text(text, "\n  ❌ failing  "@ + failing + "\n  🕑 stale    "@)
            &&& holds_text(text, "\n  🕑 stale    "@ + stale + "\n\n"@)
        }),
{
    let none = Seq::<char>::empty();
    let l1 = " ═══\n\n  ✅ ok       "@;
    let l2 = "\n  ⚠️  degraded "@;
    let l3 = "\n  ❌ failing  "@;
    let l4 = "\n  🕑 stale    "@;
    let l5 = "\n\n"@;
    let t0 = "\n═══ Agent Health · "@ + now;
    let t1 = t0 + l1 + ok + "/"@ + all;
    let p1 = l1 + ok + "/"@ + all + l2;
    assert(t1 + l2 =~= t0 + p1 + none);
    lemma_holds_part(t1 + l2, t0, p1, none);
    let t2 = t1 + l2 + degraded;
    let p2 = l2 + degraded + l3;
    assert(t2 + l3 =~= t1 + p2 + none);
    lemma_holds_part(t2 + l3, t1, p2, none);
    let t3 = t2 + l3 + failing;
    let p3 = l3 + failing + l4;
    assert(t3 + l4 =~= t2 + p3 + none);
    lemma_holds_part(t3 + l4, t2, p3, none);
    let t4 = t3 + l4 + stale;
    let p4 = l4 + stale + l5;
    assert(t4 + l5 =~= t3 + p4 + none);
    lemma_holds_part(t4 + l5, t3, p4, none);
    lemma_holds_more(t1 + l2, p1, degraded);
    lemma_holds_more(t2, p1, l3);
    lemma_holds_more(t2 + l3, p1, failing);
    lemma_holds_more(t3, p1, l4);
    lemma_holds_more(t3 + l4, p1, stale);
    lemma_holds_more(t4, p1, l5);
    lemma_holds_more(t2 + l3, p2, failing);
    lemma_holds_more(t3, p2, l4);
    lemma_holds_more(t3 + l4, p2, stale);
    lemma_holds_more(t4, p2, l5);
    lemma_holds_more(t3 + l4, p3, stale);
    lemma_holds_more(t4, p3, l5);
}

proof fn lemma_row_is_in_its_group(rows: Seq<Row>, i: int) -> (p: int)
    requires
        0 <= i < rows.len(),
    ensures
        occurs_at(rows_in(rows, rows[i].state), row_line(rows[i]), p),
    decreases rows.len(),
{
    let state = rows[i].state;
    let line = row_line(rows[i]);
    let head = rows.drop_last();
    let before = rows_in(head, state);
    let all = rows_in(rows, state);
    if i < head.len() {
        assert(head[i] == rows[i]);
        let p = lemma_row_is_in_its_group(head, i);
        assert(all.subrange(p, p + line.len()) =~= before.subrange(p, p + line.len()));
        p
    } else {
        assert(all =~= before + line);
        assert(all.subrange(before.len() as int, (before.len() + line.len()) as int) =~= line);
        before.len() as int
    }
}

/// How far down a state is shown: failures first, what is fine last.
pub open spec fn place_of(state: HealthState) -> int {
    match state {
        HealthState::Failing => 0,
        HealthState::Degraded => 1,
        HealthState::Stale => 2,
        HealthState::Healthy => 3,
    }
}

/// Every row is on the dashboard, and the rows of a worse state stand above
/// those of a better one.
pub proof fn every_row_is_shown_worse_states_first(
    rows: Seq<Row>,
    now: Seq<char>,
    home: Seq<char>,
    i: int,
    j: int,
)
    requires
        0 <= i < rows.len(),
        0 <= j < rows.len(),
        place_of(rows[i].state) < place_of(rows[j].state),
    ensures
        exists|p: int, q: int| #[trigger]
            occurs_at(dashboard_text(rows, now, home), row_line(rows[i]), p) && #[trigger] occurs_at(
                dashboard_text(rows, now, home),
                row_line(rows[j]),
                q,
            ) && p < q,
{
    let p = lemma_row_is_shown(rows, now, home, i);
    let q = lemma_row_is_shown(rows, now, home, j);
    assert(p < q);
}

spec fn above(rows: Seq<Row>, now: Seq<char>) -> Seq<char> {
    tally_text(rows, now) + table_head()
}

spec fn start_of(rows: Seq<Row>, now: Seq<char>, place: int) -> int {
    let failing = above(rows, now).len();
    let degraded = failing + rows_in(rows, HealthState::Failing).len();
    let stale = degraded + rows_in(rows, HealthState::Degraded).len();
    if place == 0 {
        failing as int
    } else if place == 1 {
        degraded as int
    } else if place == 2 {
        stale as int
    } else {
        (stale + rows_in(rows, HealthState::Stale).len()) as int
    }
}

proof fn lemma_groups(
    top: Seq<char>,
    a: Seq<char>,
    b: Seq<char>,
    c: Seq<char>,
    d: Seq<char>,
    end: Seq<char>,
)
    ensures
        ({
            let text = top + a + b + c + d + end;
            let n0 = top.len() as int;
            let n1 = n0 + a.len();
            let n2 = n1 + b.len();
            let n3 = n2 + c.len();
            &&& text.subrange(n0, n1) == a
            &&& text.subrange(n1, n2) == b
            &&& text.subrange(n2, n3) == c
            &&& text.subrange(n3, n3 + d.len()) == d
        }),
{
    let text = top + a + b + c + d + end;
    let n0 = top.len() as int;
    let n1 = n0 + a.len();
    let n2 = n1 + b.len();
    let n3 = n2 + c.len();
    assert(text.subrange(n0, n1) =~= a);
    assert(text.subrange(n1, n2) =~= b);
    assert(text.subrange(n2, n3) =~= c);
    assert(text.subrange(n3, n3 + d.len()) =~= d);
}

proof fn lemma_row_is_shown(rows: Seq<Row>, now: Seq<char>, home: Seq<char>, i: int) -> (p: int)
    requires
        0 <= i < rows.len(),
    ensures
        occurs_at(dashboard_text(rows, now, home), row_line(rows[i]), p),
        start_of(rows, now, place_of(rows[i].state)) <= p,
        p + row_line(rows[i]).len() <= start_of(rows, now, place_of(rows[i].state)) + rows_in(
            rows,
            rows[i].state,
        ).len(),
        row_line(rows[i]).len() > 0,
{
    reveal_strlit("\n");
    let text = dashboard_text(rows, now, home);
    let line = row_line(rows[i]);
    let group = rows_in(rows, rows[i].state);
    let start = start_of(rows, now, place_of(rows[i].state));
    let k = lemma_row_is_in_its_group(rows, i);
    let p = start + k;
    assert(line.last() == '\n');
    lemma_groups(
        above(rows, now),
        rows_in(rows, HealthState::Failing),
        rows_in(rows, HealthState::Degraded),
        rows_in(rows, HealthState::Stale),
        rows_in(rows, HealthState::Healthy),
        places_text(home),
    );
    assert(text.subrange(start, start + group.len()) == group);
    assert(text.subrange(p, p + line.len()) =~= text.subrange(start, start + group.len()).subrange(
        k,
        k + line.len(),
    ));
    p
}

/// A row names its schedule first, then shows its state, and ends with when it
/// last ran and why it is in that state.
pub proof fn a_row_says_whose_it_is_and_why(r: Row)
    ensures
        has_prefix(row_line(r), r.agent@ + "/"@ + r.schedule@),
        holds_text(row_line(r), " "@ + state_icon(r.state) + "  "@ + r.last_run@),
        has_suffix(row_line(r), " "@ + r.reason@ + "\n"@),
        r.state == HealthState::Healthy <==> state_icon(r.state) == "✅ ok      "@,
        r.state == HealthState::Failing <==> state_icon(r.state) == "❌ failing "@,
        r.state == HealthState::Stale <==> state_icon(r.state) == "🕑 stale   "@,
        r.state == HealthState::Degraded <==> state_icon(r.state) == "⚠️  degraded"@,
{
    reveal_strlit("✅ ok      ");
    reveal_strlit("⚠️  degraded");
    reveal_strlit("❌ failing ");
    reveal_strlit("🕑 stale   ");
    assert("✅ ok      "@[0] == '✅');
    assert("❌ failing "@[0] == '❌');
    assert("🕑 stale   "@[0] == '🕑');
    assert("⚠️  degraded"@[0] != '✅' && "⚠️  degraded"@[0] != '❌' && "⚠️  degraded"@[0] != '🕑');
    let name = r.agent@ + "/"@ + r.schedule@;
    let line = row_line(r);
    let end = " "@ + r.reason@ + "\n"@;
    assert(line.subrange(0, name.len() as int) =~= name);
    let mid = " "@ + state_icon(r.state) + "  "@ + r.last_run@;
    let before = padded(name, 36);
    let fill = padded(r.last_run@, 26).skip(r.last_run@.len() as int);
    assert(padded(r.last_run@, 26) =~= r.last_run@ + fill);
    assert(line =~= before + mid + (fill + end));
    lemma_holds_part(line, before, mid, fill + end);
    assert(line.subrange(line.len() - end.len(), line.len() as int) =~= end);
}

/// The rows of a dashboard are those of the monitored agents: an agent that is
/// not monitored changes nothing, one that is adds its rows behind the others.
pub proof fn only_monitored_agents_have_rows(agents: Seq<AgentRows>, one: AgentRows)
    ensures
        monitored_rows(agents.push(one)) == if one.monitor {
            monitored_rows(agents) + one.rows@
        } else {
            monitored_rows(agents)
        },
        monitored_rows(Seq::empty()).len() == 0,
{
    assert(agents.push(one).drop_last() =~= agents);
}

/// A row is of its own agent and schedule, in the state that was found and for
/// that reason; a schedule that never finished says so.
pub proof fn a_row_is_of_its_schedule(
    agent: Seq<char>,
    schedule: Seq<char>,
    finished_at: Option<String>,
    state: HealthState,
    reason: Seq<char>,
    r: Row,
)
    requires
        is_row_of(agent, schedule, finished_at, state, reason, r),
    ensures
        r.agent@ == agent && r.schedule@ == schedule && r.reason@ == reason && r.state == state,
        finished_at is Some ==> r.last_run@ == finished_at->0@,
        finished_at is None ==> r.last_run@ == "never"@,
        has_prefix(row_line(r), agent + "/"@ + schedule),
        has_suffix(row_line(r), reason + "\n"@),
{
    let name = agent + "/"@ + schedule;
    let gap = spaces(36 - name.len());
    let rest = " "@ + state_icon(r.state) + "  "@ + padded(r.last_run@, 26) + " "@;
    let line = row_line(r);
    assert(line =~= name + (gap + rest + (reason + "\n"@)));
    lemma_ends(name, gap + rest + (reason + "\n"@));
    assert(line =~= (name + gap + rest) + (reason + "\n"@));
    lemma_ends(name + gap + rest, reason + "\n"@);
}

/// A clock is written with two digits each for the hour and the minute, the hour
/// first; a time is written behind its day.
pub proof fn a_clock_has_two_digits_each(day: int, hour: int, minute: int)
    requires
        0 <= hour < 100,
        0 <= minute < 100,
    ensures
        clock_text(hour, minute).len() == 5,
        has_suffix(clock_text(hour, minute), ":"@ + two_digits(minute)),
        has_suffix(two_digits(hour), dec(hour)),
        iso_date(day) is Some ==> stamp(day, hour, minute) is Some && has_prefix(
            stamp(day, hour, minute)->0,
            iso_date(day)->0,
        ) && has_suffix(stamp(day, hour, minute)->0, clock_text(hour, minute)),
        iso_date(day) is None ==> stamp(day, hour, minute) is None,
{
    lemma_two_digits(hour);
    lemma_two_digits(minute);
    reveal_strlit(":");
    lemma_in_two(two_digits(hour), ":"@, two_digits(minute));
    lemma_ends(two_digits(hour), ":"@ + two_digits(minute));
    if iso_date(day) is Some {
        let date = iso_date(day)->0;
        lemma_in_two(date, " "@, clock_text(hour, minute));
        lemma_ends(date, " "@ + clock_text(hour, minute));
        lemma_ends(date + " "@, clock_text(hour, minute));
    }
}

proof fn lemma_two_digits(n: int)
    requires
        0 <= n < 100,
    ensures
        two_digits(n).len() == 2,
        has_suffix(two_digits(n), dec(n)),
{
    reveal_strlit("0");
    let none = Seq::<char>::empty();
    reveal_with_fuel(in_base, 2);
    if n < 10 {
        assert(in_base(n as nat, 10) =~= seq![digit(n)]);
        lemma_ends("0"@, dec(n));
    } else {
        assert(in_base((n as nat) / 10, 10).len() == 1);
        assert(dec(n).len() == 2);
        assert(none + dec(n) =~= dec(n));
        lemma_ends(none, dec(n));
    }
}

/// A child is shown with its kind, pid, owner and label in that order, and then
/// how old it is, what it may take and how much of that it took. It is flagged
/// red exactly when it used up its deadline; a persistent one never is.
pub proof fn a_child_is_shown_as_it_is(p: LiveProcess)
    ensures
        holds_text(
            process_line(p),
            " "@ + padded(p.kind@, 8) + " "@ + padded(dec(p.pid as int), 8) + " "@ + padded(
                p.owner@,
                14,
            ) + " "@ + padded(p.label@, 30) + " "@,
        ),
        has_suffix(
            process_line(p),
            dec(p.age_seconds as int) + "s / "@ + dec(p.deadline_seconds as int) + "s ("@ + dec(
                p.deadline_pct as int,
            ) + "%)\n"@,
        ),
        has_prefix(process_line(p), process_icon(p)),
        process_icon(p) == "🔴"@ <==> !p.persistent && p.deadline_pct >= 100,
{
    let icon = process_icon(p);
    let kind = padded(p.kind@, 8);
    let pid = padded(dec(p.pid as int), 8);
    let owner = padded(p.owner@, 14);
    let label = padded(p.label@, 30);
    let idle = if p.persistent {
        "idle"@
    } else {
        ""@
    };
    let age = dec(p.age_seconds as int);
    let most = dec(p.deadline_seconds as int);
    let pct = dec(p.deadline_pct as int);
    let who = " "@ + kind + " "@ + pid + " "@ + owner + " "@ + label + " "@;
    let time = age + "s / "@ + most + "s ("@ + pct + "%)\n"@;
    lemma_who(icon, kind, pid, owner, label);
    let head = icon + who + idle;
    lemma_in_two(head, age, "s / "@);
    lemma_in_two(head, age + "s / "@, most);
    lemma_in_two(head, age + "s / "@ + most, "s ("@);
    lemma_in_two(head, age + "s / "@ + most + "s ("@, pct);
    lemma_in_two(head, age + "s / "@ + most + "s ("@ + pct, "%)\n"@);
    assert(process_line(p) == head + time);
    lemma_ends(head, time);
    lemma_holds_last(icon, who);
    lemma_holds_more(icon + who, who, idle);
    lemma_holds_more(head, who, time);
    lemma_in_two(icon, who, idle);
    lemma_in_two(icon, who + idle, time);
    lemma_ends(icon, who + idle + time);
    reveal_strlit("🔴");
    reveal_strlit("⚠️ ");
    reveal_strlit("  ");
    assert("🔴"@.len() == 1 && "  "@.len() == 2);
    assert("⚠️ "@.len() == 3);
}

proof fn lemma_who(
    icon: Seq<char>,
    kind: Seq<char>,
    pid: Seq<char>,
    owner: Seq<char>,
    label: Seq<char>,
)
    ensures
        icon + " "@ + kind + " "@ + pid + " "@ + owner + " "@ + label + " "@ == icon + (" "@ + kind
            + " "@ + pid + " "@ + owner + " "@ + label + " "@),
{
    lemma_in_two(icon, " "@, kind);
    lemma_in_two(icon, " "@ + kind, " "@);
    lemma_in_two(icon, " "@ + kind + " "@, pid);
    lemma_in_two(icon, " "@ + kind + " "@ + pid, " "@);
    lemma_in_two(icon, " "@ + kind + " "@ + pid + " "@, owner);
    lemma_in_two(icon, " "@ + kind + " "@ + pid + " "@ + owner, " "@);
    lemma_in_two(icon, " "@ + kind + " "@ + pid + " "@ + owner + " "@, label);
    lemma_in_two(icon, " "@ + kind + " "@ + pid + " "@ + owner + " "@ + label, " "@);
}

proof fn lemma_lines_of_children(snap: Seq<LiveProcess>, order: Seq<int>, k: int)
    requires
        0 <= k < order.len(),
    ensures
        holds_text(process_lines(snap, order), process_line(snap[order[k]])),
    decreases order.len(),
{
    let head = order.drop_last();
    let before = process_lines(snap, head);
    let last = process_line(snap[order.last()]);
    if k < head.len() {
        lemma_lines_of_children(snap, head, k);
        lemma_holds_more(before, process_line(snap[order[k]]), last);
    } else {
        lemma_holds_last(before, last);
    }
}

/// Every child is shown, and how many there are; without any nothing is.
pub proof fn every_child_is_shown(snap: Seq<LiveProcess>, i: int)
    requires
        0 <= i < snap.len(),
    ensures
        holds_text(processes_text(snap), process_line(snap[i])),
        has_prefix(
            processes_text(snap),
            "\n─── Live subprocesses ("@ + dec(snap.len() as int) + " running) ───\n"@,
        ),
        processes_text(Seq::empty()).len() == 0,
{
    let order = urgent_first(snap, snap.len());
    the_most_urgent_come_first(snap, snap.len());
    assert(order.contains(i));
    let k = choose|k: int| 0 <= k < order.len() && order[k] == i;
    lemma_lines_of_children(snap, order, k);
    let top = "\n─── Live subprocesses ("@ + dec(snap.len() as int) + " running) ───\n"@;
    let one = padded("KIND"@, 10);
    let two = padded("PID"@, 8);
    let three = padded("OWNER"@, 14);
    let four = padded("LABEL"@, 30);
    let lines = process_lines(snap, order);
    let end = if any_persistent(snap) {
        "\n  persistent: AGE is time since the last answer; DEADLINE is the idle window before recycling.\n"@
    } else {
        Seq::empty()
    };
    let columns = one + " "@ + two + " "@ + three + " "@ + four + " AGE / DEADLINE\n"@ + RULE@
        + "\n"@;
    lemma_columns(top, one, two, three, four);
    assert(processes_text(snap) == top + columns + lines + end);
    lemma_holds_part(processes_text(snap), top + columns, lines, end);
    lemma_holds_through(processes_text(snap), lines, process_line(snap[i]));
    lemma_in_two(top + columns, lines, end);
    lemma_in_two(top, columns, lines + end);
    lemma_ends(top, columns + (lines + end));
}

proof fn lemma_columns(
    top: Seq<char>,
    one: Seq<char>,
    two: Seq<char>,
    three: Seq<char>,
    four: Seq<char>,
)
    ensures
        top + one + " "@ + two + " "@ + three + " "@ + four + " AGE / DEADLINE\n"@ + RULE@ + "\n"@
            == top + (one + " "@ + two + " "@ + three + " "@ + four + " AGE / DEADLINE\n"@ + RULE@
            + "\n"@),
{
    lemma_in_two(top, one, " "@);
    lemma_in_two(top, one + " "@, two);
    lemma_in_two(top, one + " "@ + two, " "@);
    lemma_in_two(top, one + " "@ + two + " "@, three);
    lemma_in_two(top, one + " "@ + two + " "@ + three, " "@);
    lemma_in_two(top, one + " "@ + two + " "@ + three + " "@, four);
    let a = one + " "@ + two + " "@ + three + " "@ + four;
    lemma_in_two(top, a, " AGE / DEADLINE\n"@);
    lemma_in_two(top, a + " AGE / DEADLINE\n"@, RULE@);
    lemma_in_two(top, a + " AGE / DEADLINE\n"@ + RULE@, "\n"@);
}

/// A child is flagged from four fifths of its deadline on, and red from all of it;
/// a persistent one has no flag, since its clock is that of its last answer.
pub proof fn a_flag_is_for_a_late_child(p: LiveProcess, early: LiveProcess)
    requires
        !p.persistent,
        80 <= p.deadline_pct < 100,
        early.persistent || early.deadline_pct < 80,
    ensures
        process_icon(p) == "⚠️ "@,
        process_icon(early) == "  "@,
{
}

} // verus!
