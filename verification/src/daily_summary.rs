//! End-of-day health summary.
//!
//! With no destination configured the summary goes to the `desktop` driver:
//! the only one that needs no address and reaches nothing off the machine.

use crate::daemon::alerts::HealthState;
use crate::manifest::{NotifierEntry, PluginNotifier, notifier_hears};
use crate::status::{
    AgentRows, Row, a_count_is_of_the_rows_in_that_state, count, count_of, date_text,
    every_row_counts_once, iso_date, monitored, monitored_rows,
};
use crate::text::{
    dec, dec_u128, dec_usize, has_prefix, has_suffix, holds_text, join, joined, lemma_ends,
    lemma_holds_more, lemma_holds_part, lemma_holds_through, lemma_joined_holds, views,
};
use vstd::prelude::*;

verus! {

broadcast use vstd::string::group_string_axioms;

/// The name the summary carries into notifications and the audit log. Not an
/// agent: no manifest declares it, and nothing schedules it as a run.
pub const SUMMARY_AGENT: &'static str = "dotagent";

/// The schedule the summary goes under.
pub const SUMMARY_SCHEDULE: &'static str = "daily-summary";

/// The event the summary fires.
pub const SUMMARY_EVENT: &'static str = "daily_summary";

/// One line per unhealthy schedule, plus the healthy count.
#[derive(Debug, PartialEq, Eq)]
pub struct Summary {
    pub ok: usize,
    pub degraded: Vec<String>,
    pub failing: Vec<String>,
    pub stale: Vec<String>,
}

impl Default for Summary {
    fn default() -> (r: Self)
        ensures
            r.ok == 0,
            r.degraded@.len() == 0,
            r.failing@.len() == 0,
            r.stale@.len() == 0,
    {
        Summary { ok: 0, degraded: Vec::new(), failing: Vec::new(), stale: Vec::new() }
    }
}

/// What the summary says of one schedule.
pub open spec fn label_of(r: Row) -> Seq<char> {
    r.agent@ + "/"@ + r.schedule@ + " — "@ + r.reason@
}

/// The labels of the rows in a state, in order.
pub open spec fn labels_in(rows: Seq<Row>, state: HealthState) -> Seq<Seq<char>>
    decreases rows.len(),
{
    if rows.len() == 0 {
        Seq::empty()
    } else {
        let before = labels_in(rows.drop_last(), state);
        if rows.last().state == state {
            before.push(label_of(rows.last()))
        } else {
            before
        }
    }
}

/// Healthy rows are counted; every other one has its label in its bucket.
pub open spec fn classifies(rows: Seq<Row>, s: Summary) -> bool {
    &&& s.ok == count_of(rows, HealthState::Healthy)
    &&& views(s.degraded@) == labels_in(rows, HealthState::Degraded)
    &&& views(s.failing@) == labels_in(rows, HealthState::Failing)
    &&& views(s.stale@) == labels_in(rows, HealthState::Stale)
}

fn labels(rows: &Vec<Row>, state: HealthState) -> (r: Vec<String>)
    ensures
        views(r@) == labels_in(rows@, state),
{
    let mut out: Vec<String> = Vec::new();
    let mut i: usize = 0;
    proof {
        assert(rows@.take(0) =~= Seq::<Row>::empty());
        assert(views(out@) =~= Seq::<Seq<char>>::empty());
    }
    while i < rows.len()
        invariant
            i <= rows@.len(),
            views(out@) == labels_in(rows@.take(i as int), state),
        decreases rows@.len() - i,
    {
        let ghost before = views(out@);
        proof {
            assert(rows@.take(i as int + 1).drop_last() =~= rows@.take(i as int));
        }
        let row = &rows[i];
        if row.state == state {
            let mut label = row.agent.clone();
            label.append("/");
            label.append(row.schedule.as_str());
            label.append(" — ");
            label.append(row.reason.as_str());
            out.push(label);
            proof {
                assert(views(out@) =~= before.push(label_of(*row)));
            }
        }
        i = i + 1;
    }
    proof {
        assert(rows@.take(rows@.len() as int) =~= rows@);
    }
    out
}

/// Classify the schedules of the monitored agents.
pub fn collect(agents: Vec<AgentRows>) -> (r: Summary)
    ensures
        classifies(monitored_rows(agents@), r),
{
    let rows = monitored(agents);
    Summary {
        ok: count(&rows, HealthState::Healthy),
        degraded: labels(&rows, HealthState::Degraded),
        failing: labels(&rows, HealthState::Failing),
        stale: labels(&rows, HealthState::Stale),
    }
}

/// How many schedules a summary is about.
pub open spec fn total_of(s: Summary) -> nat {
    s.ok as nat + s.degraded@.len() + s.failing@.len() + s.stale@.len()
}

proof fn lemma_labels_len(rows: Seq<Row>, state: HealthState)
    ensures
        labels_in(rows, state).len() == count_of(rows, state),
    decreases rows.len(),
{
    if rows.len() > 0 {
        lemma_labels_len(rows.drop_last(), state);
    }
}

/// No schedule of a monitored agent is lost between the rows and the summary:
/// healthy ones are counted, and every other one has its line.
pub proof fn every_schedule_is_in_the_summary(agents: Seq<AgentRows>, s: Summary)
    requires
        classifies(monitored_rows(agents), s),
    ensures
        total_of(s) == monitored_rows(agents).len(),
{
    let rows = monitored_rows(agents);
    every_row_counts_once(rows);
    lemma_labels_len(rows, HealthState::Degraded);
    lemma_labels_len(rows, HealthState::Failing);
    lemma_labels_len(rows, HealthState::Stale);
    assert(views(s.degraded@).len() == s.degraded@.len());
    assert(views(s.failing@).len() == s.failing@.len());
    assert(views(s.stale@).len() == s.stale@.len());
}

/// `lines`, each behind a bullet.
pub open spec fn bullets(lines: Seq<Seq<char>>) -> Seq<char>
    decreases lines.len(),
{
    if lines.len() == 0 {
        Seq::empty()
    } else {
        bullets(lines.drop_last()) + "  · "@ + lines.last() + "\n"@
    }
}

/// One bucket of the summary: nothing when it is empty.
pub open spec fn bucket_text(header: Seq<char>, lines: Seq<Seq<char>>) -> Seq<char> {
    if lines.len() == 0 {
        Seq::empty()
    } else {
        header + bullets(lines)
    }
}

/// What the summary says on a date.
pub open spec fn summary_text(s: Summary, date: Seq<char>) -> Seq<char> {
    "📊 Agents · "@ + date + "\n"@ + dec(s.ok as int) + "/"@ + dec(total_of(s) as int)
        + " ok\n"@ + bucket_text("\n❌ Failing:\n"@, views(s.failing@)) + bucket_text(
        "\n⚠️ Degraded:\n"@,
        views(s.degraded@),
    ) + bucket_text("\n🕑 Stale:\n"@, views(s.stale@))
}

fn render_bucket(header: &str, lines: &Vec<String>) -> (r: String)
    ensures
        r@ == bucket_text(header@, views(lines@)),
{
    let ghost all = views(lines@);
    if lines.len() == 0 {
        return String::new();
    }
    let mut body = String::new();
    let mut i: usize = 0;
    proof {
        assert(all.take(0) =~= Seq::<Seq<char>>::empty());
    }
    while i < lines.len()
        invariant
            i <= lines@.len(),
            all == views(lines@),
            body@ == bullets(all.take(i as int)),
        decreases lines@.len() - i,
    {
        proof {
            assert(all.take(i as int + 1).drop_last() =~= all.take(i as int));
            assert(all.take(i as int + 1).last() == lines@[i as int]@);
        }
        body.append("  · ");
        body.append(lines[i].as_str());
        body.append("\n");
        i = i + 1;
    }
    proof {
        assert(all.take(all.len() as int) =~= all);
    }
    let mut out = header.to_owned();
    out.append(body.as_str());
    out
}

/// The summary under a given date.
pub fn render_dated(summary: &Summary, date: &str) -> (r: String)
    ensures
        r@ == summary_text(*summary, date@),
{
    let total: u128 = summary.ok as u128 + summary.degraded.len() as u128
        + summary.failing.len() as u128 + summary.stale.len() as u128;
    let mut body = "📊 Agents · ".to_owned();
    body.append(date);
    body.append("\n");
    body.append(dec_usize(summary.ok).as_str());
    body.append("/");
    body.append(dec_u128(total).as_str());
    body.append(" ok\n");
    body.append(render_bucket("\n❌ Failing:\n", &summary.failing).as_str());
    body.append(render_bucket("\n⚠️ Degraded:\n", &summary.degraded).as_str());
    body.append(render_bucket("\n🕑 Stale:\n", &summary.stale).as_str());
    body
}

/// The summary of a day, given by its number. `None` for a day the calendar
/// does not cover.
pub fn render(summary: &Summary, day: i32) -> (r: Option<String>)
    ensures
        match iso_date(day as int) {
            Some(date) => r matches Some(t) && t@ == summary_text(*summary, date),
            None => r is None,
        },
{
    match date_text(day) {
        Some(date) => Some(render_dated(summary, date.as_str())),
        None => None,
    }
}

// ---------------------------------------------------------------------
// Destinations
// ---------------------------------------------------------------------

/// Whether `r` is `e` without any event filter.
pub open spec fn is_unfiltered(e: NotifierEntry, r: NotifierEntry) -> bool {
    &&& r.driver@ == e.driver@
    &&& r.events@.len() == 0
    &&& match e.plugin {
        Some(p) => r.plugin matches Some(q) && q.name@ == p.name@ && q.config == p.config
            && q.events@.len() == 0,
        None => r.plugin is None,
    }
}

/// Drop any event filter from a notifier. The list is already scoped to a
/// single event, so a filter there can only subtract: honoring a field whose
/// only reachable effect is silence is worse than ignoring it.
pub fn unfiltered(entry: NotifierEntry) -> (r: NotifierEntry)
    ensures
        is_unfiltered(entry, r),
{
    let plugin = match entry.plugin {
        Some(p) => Some(PluginNotifier { name: p.name, events: Vec::new(), config: p.config }),
        None => None,
    };
    NotifierEntry { driver: entry.driver, events: Vec::new(), plugin }
}

/// Whether `r` is where a summary with these configured notifiers goes.
pub open spec fn resolved(configured: Seq<NotifierEntry>, r: Seq<NotifierEntry>) -> bool {
    if configured.len() == 0 {
        r.len() == 1 && r[0].driver@ == "desktop"@ && r[0].events@.len() == 0 && r[0].plugin is None
    } else {
        r.len() == configured.len() && forall|i: int|
            0 <= i < r.len() ==> is_unfiltered(configured[i], #[trigger] r[i])
    }
}

/// Where a summary goes. No configured notifier means `desktop`, not nothing.
pub fn resolve_notifiers(configured: Vec<NotifierEntry>) -> (r: Vec<NotifierEntry>)
    ensures
        resolved(configured@, r@),
{
    let mut out: Vec<NotifierEntry> = Vec::new();
    if configured.len() == 0 {
        out.push(
            NotifierEntry { driver: "desktop".to_owned(), events: Vec::new(), plugin: None },
        );
        return out;
    }
    let ghost all = configured@;
    let mut left = configured;
    while left.len() > 0
        invariant
            left@.len() + out@.len() == all.len(),
            left@ == all.skip(out@.len() as int),
            forall|i: int| 0 <= i < out@.len() ==> is_unfiltered(all[i], #[trigger] out@[i]),
        decreases left@.len(),
    {
        let entry = left.remove(0);
        out.push(unfiltered(entry));
        proof {
            assert(left@ =~= all.skip(out@.len() as int));
        }
    }
    out
}

/// Whatever is configured, a summary has somewhere to go, and every
/// destination hears its event: no filter can silence it.
pub proof fn a_summary_is_never_silenced(configured: Seq<NotifierEntry>, r: Seq<NotifierEntry>)
    requires
        resolved(configured, r),
    ensures
        r.len() > 0,
        forall|i: int, event: Seq<char>|
            0 <= i < r.len() ==> #[trigger] notifier_hears(r[i], event),
{
    assert forall|i: int, event: Seq<char>| 0 <= i < r.len() implies #[trigger] notifier_hears(
        r[i],
        event,
    ) by {
        if configured.len() > 0 {
            assert(is_unfiltered(configured[i], r[i]));
        }
    }
}

/// The drivers of a list of notifiers.
pub open spec fn drivers(entries: Seq<NotifierEntry>) -> Seq<Seq<char>> {
    entries.map_values(|e: NotifierEntry| e.driver@)
}

/// The drivers of a list of notifiers, in one line.
pub fn driver_list(entries: &Vec<NotifierEntry>) -> (r: String)
    ensures
        r@ == joined(drivers(entries@), ", "@),
{
    let mut names: Vec<String> = Vec::new();
    let mut i: usize = 0;
    while i < entries.len()
        invariant
            i <= entries@.len(),
            names@.len() == i,
            forall|k: int| 0 <= k < i ==> #[trigger] names@[k]@ == entries@[k].driver@,
        decreases entries@.len() - i,
    {
        names.push(entries[i].driver.clone());
        i = i + 1;
    }
    proof {
        assert(views(names@) =~= drivers(entries@));
    }
    join(names.as_slice(), ", ")
}

/// A summary that is not sent, and the drivers it would go to.
pub open spec fn preview_text(body: Seq<char>, to: Seq<Seq<char>>) -> Seq<char> {
    body + "\n→ would deliver to: "@ + joined(to, ", "@) + "\n"@
}

/// What a dry run prints: the body, and where it would go.
pub fn dry_run_text(body: &str, entries: &Vec<NotifierEntry>) -> (r: String)
    ensures
        r@ == preview_text(body@, drivers(entries@)),
{
    let mut out = body.to_owned();
    out.append("\n→ would deliver to: ");
    out.append(driver_list(entries).as_str());
    out.append("\n");
    out
}

// ---------------------------------------------------------------------
// Laws of the summary
// ---------------------------------------------------------------------

proof fn lemma_labels_hold(rows: Seq<Row>, state: HealthState)
    ensures
        labels_in(rows, state) == rows.filter(|r: Row| r.state == state).map_values(
            |r: Row| label_of(r),
        ),
        forall|i: int|
            0 <= i < rows.len() && (#[trigger] rows[i]).state == state ==> labels_in(
                rows,
                state,
            ).contains(label_of(rows[i])),
    decreases rows.len(),
{
    reveal(Seq::filter);
    let f = |r: Row| r.state == state;
    let g = |r: Row| label_of(r);
    if rows.len() > 0 {
        let head = rows.drop_last();
        lemma_labels_hold(head, state);
        let before = labels_in(head, state);
        let all = labels_in(rows, state);
        if rows.last().state == state {
            assert(rows.filter(f) =~= head.filter(f).push(rows.last()));
            assert(rows.filter(f).map_values(g) =~= before.push(label_of(rows.last())));
        }
        assert forall|i: int| 0 <= i < rows.len() && (#[trigger] rows[i]).state == state implies
            all.contains(label_of(rows[i])) by {
            if i < head.len() {
                assert(head[i] == rows[i]);
                let k = choose|k: int| 0 <= k < before.len() && before[k] == label_of(rows[i]);
                assert(all[k] == label_of(rows[i]));
            } else {
                assert(all.last() == label_of(rows[i]));
            }
        }
    } else {
        assert(rows.filter(f).map_values(g) =~= Seq::<Seq<char>>::empty());
    }
}

/// Every row is summed up by its own state: the healthy ones are counted, and
/// the failing, degraded and stale ones are each in the list of that name, in
/// their order, and in no other.
pub proof fn every_row_is_in_the_list_of_its_state(rows: Seq<Row>, s: Summary, i: int)
    requires
        classifies(rows, s),
        0 <= i < rows.len(),
    ensures
        s.ok == rows.filter(|r: Row| r.state == HealthState::Healthy).len(),
        views(s.failing@) == rows.filter(|r: Row| r.state == HealthState::Failing).map_values(
            |r: Row| label_of(r),
        ),
        views(s.degraded@) == rows.filter(|r: Row| r.state == HealthState::Degraded).map_values(
            |r: Row| label_of(r),
        ),
        views(s.stale@) == rows.filter(|r: Row| r.state == HealthState::Stale).map_values(
            |r: Row| label_of(r),
        ),
        rows[i].state == HealthState::Failing ==> views(s.failing@).contains(label_of(rows[i])),
        rows[i].state == HealthState::Degraded ==> views(s.degraded@).contains(label_of(rows[i])),
        rows[i].state == HealthState::Stale ==> views(s.stale@).contains(label_of(rows[i])),
{
    lemma_labels_hold(rows, HealthState::Failing);
    lemma_labels_hold(rows, HealthState::Degraded);
    lemma_labels_hold(rows, HealthState::Stale);
    a_count_is_of_the_rows_in_that_state(rows, HealthState::Healthy);
}

/// A line of the summary says whose it is and why.
pub proof fn a_label_says_whose_it_is_and_why(r: Row)
    ensures
        has_prefix(label_of(r), r.agent@ + "/"@ + r.schedule@),
        has_suffix(label_of(r), r.reason@),
{
    lemma_ends(r.agent@ + "/"@ + r.schedule@, " — "@ + r.reason@);
    assert(label_of(r) =~= (r.agent@ + "/"@ + r.schedule@) + (" — "@ + r.reason@));
    lemma_ends(r.agent@ + "/"@ + r.schedule@ + " — "@, r.reason@);
}

proof fn lemma_bullets(lines: Seq<Seq<char>>, i: int)
    requires
        0 <= i < lines.len(),
    ensures
        holds_text(bullets(lines), "  · "@ + lines[i] + "\n"@),
    decreases lines.len(),
{
    let before = bullets(lines.drop_last());
    let none = Seq::<char>::empty();
    if i < lines.len() - 1 {
        lemma_bullets(lines.drop_last(), i);
        let more = "  · "@ + lines.last() + "\n"@;
        assert(bullets(lines) =~= before + more);
        lemma_holds_more(before, "  · "@ + lines[i] + "\n"@, more);
    } else {
        let part = "  · "@ + lines.last() + "\n"@;
        assert(bullets(lines) =~= before + part + none);
        lemma_holds_part(bullets(lines), before, part, none);
    }
}

/// What is shown opens with the day, then how many of all schedules are well.
/// Every failing one stands below the heading for those that fail, and likewise
/// for the degraded and the stale; a heading without lines is left out.
pub proof fn a_summary_shows_each_list_under_its_heading(s: Summary, date: Seq<char>, i: int)
    ensures
        holds_text(
            summary_text(s, date),
            date + "\n"@ + dec(s.ok as int) + "/"@ + dec(
                s.ok + s.failing@.len() + s.degraded@.len() + s.stale@.len(),
            ) + " ok\n"@,
        ),
        0 <= i < s.failing@.len() ==> holds_text(
            summary_text(s, date),
            "\n❌ Failing:\n"@ + bullets(views(s.failing@)),
        ) && holds_text(bullets(views(s.failing@)), "  · "@ + s.failing@[i]@ + "\n"@),
        0 <= i < s.degraded@.len() ==> holds_text(
            summary_text(s, date),
            "\n⚠️ Degraded:\n"@ + bullets(views(s.degraded@)),
        ) && holds_text(bullets(views(s.degraded@)), "  · "@ + s.degraded@[i]@ + "\n"@),
        0 <= i < s.stale@.len() ==> holds_text(
            summary_text(s, date),
            "\n🕑 Stale:\n"@ + bullets(views(s.stale@)),
        ) && holds_text(bullets(views(s.stale@)), "  · "@ + s.stale@[i]@ + "\n"@),
{
    let said = summary_text(s, date);
    let lead = "📊 Agents · "@;
    let total = dec(total_of(s) as int);
    let part = date + "\n"@ + dec(s.ok as int) + "/"@ + total + " ok\n"@;
    let top = lead + date + "\n"@ + dec(s.ok as int) + "/"@ + total + " ok\n"@;
    let failing = bucket_text("\n❌ Failing:\n"@, views(s.failing@));
    let degraded = bucket_text("\n⚠️ Degraded:\n"@, views(s.degraded@));
    let stale = bucket_text("\n🕑 Stale:\n"@, views(s.stale@));
    let none = Seq::<char>::empty();
    assert(said == top + failing + degraded + stale);
    assert(top =~= lead + part + none);
    lemma_holds_part(top, lead, part, none);
    lemma_holds_more(top, part, failing);
    lemma_holds_more(top + failing, part, degraded);
    lemma_holds_more(top + failing + degraded, part, stale);
    assert(top + failing =~= top + failing + none);
    lemma_holds_part(top + failing, top, failing, none);
    lemma_holds_more(top + failing, failing, degraded);
    lemma_holds_more(top + failing + degraded, failing, stale);
    lemma_holds_part(said, top + failing, degraded, stale);
    assert(said =~= (top + failing + degraded) + stale + none);
    lemma_holds_part(said, top + failing + degraded, stale, none);
    if 0 <= i < s.failing@.len() {
        lemma_bullets(views(s.failing@), i);
    }
    if 0 <= i < s.degraded@.len() {
        lemma_bullets(views(s.degraded@), i);
    }
    if 0 <= i < s.stale@.len() {
        lemma_bullets(views(s.stale@), i);
    }
}

/// A preview opens with what would be sent and names every driver that would
/// get it. Each configured notifier keeps its driver.
pub proof fn a_preview_names_every_driver(
    body: Seq<char>,
    configured: Seq<NotifierEntry>,
    r: Seq<NotifierEntry>,
    i: int,
)
    requires
        resolved(configured, r),
        0 <= i < r.len(),
    ensures
        has_prefix(preview_text(body, drivers(r)), body),
        holds_text(preview_text(body, drivers(r)), r[i].driver@),
        configured.len() > 0 ==> r.len() == configured.len() && r[i].driver@
            == configured[i].driver@,
        configured.len() == 0 ==> r[i].driver@ == "desktop"@,
{
    let to = joined(drivers(r), ", "@);
    let said = preview_text(body, drivers(r));
    lemma_joined_holds(drivers(r), ", "@, i);
    lemma_holds_part(said, body + "\n→ would deliver to: "@, to, "\n"@);
    lemma_holds_through(said, to, r[i].driver@);
    assert(said =~= body + ("\n→ would deliver to: "@ + to + "\n"@));
    lemma_ends(body, "\n→ would deliver to: "@ + to + "\n"@);
    if configured.len() > 0 {
        assert(is_unfiltered(configured[i], r[i]));
    }
}

} // verus!
