//! Utility commands: `logs`, `inspect`, `reload`, `plugin list`, `install`,
//! `uninstall`.

use crate::daemon::dispatch::WindowState;
use crate::daemon::lifecycle::{lemma_nothing_to_trim, lemma_number_of_digits, number_of};
use crate::discovery::DiscoveredAgent;
use crate::manifest::{AgentManifest, NotifierEntry, PluginRef};
use crate::output::{indented, print_block};
use crate::text::{
    before_or_same, chars_of, copy_all, dec, dec_i64, dec_u64, dec_usize, ends_with, has_prefix,
    has_suffix, holds_text, in_order, join, joined, lemma_ends, lemma_holds_last,
    lemma_holds_more, lemma_holds_part, lemma_holds_through, lemma_in_two, lemma_joined_holds,
    lines_of, same, sorted_unique, starts_with, trim, trimmed, views,
};
use vstd::prelude::*;

verus! {

broadcast use vstd::string::group_string_axioms;

// ---------------------------------------------------------------------
// `dotagent logs`
// ---------------------------------------------------------------------

/// Whether a file is one of an agent's logs that can be followed: the active
/// one or a rolled one, but no compressed one.
pub open spec fn is_agent_log(agent: Seq<char>, file: Seq<char>) -> bool {
    has_prefix(file, agent + ".log"@) && !has_suffix(file, ".gz"@)
}

/// The file an agent logs to now.
pub open spec fn active_log(agent: Seq<char>) -> Seq<char> {
    agent + ".log"@
}

/// Whether one log of an agent stands strictly before another: rolled logs
/// carry their date, so the oldest comes first; the active log comes last.
pub open spec fn older(agent: Seq<char>, f: Seq<char>, g: Seq<char>) -> bool {
    f != active_log(agent) && (g == active_log(agent) || (before_or_same(f, g) && f != g))
}

/// Whether a list holds logs of an agent oldest first, each once.
pub open spec fn oldest_first(agent: Seq<char>, files: Seq<Seq<char>>) -> bool {
    forall|i: int, j: int|
        0 <= i < j < files.len() ==> older(agent, #[trigger] files[i], #[trigger] files[j])
}

/// The logs among the files of an agent's log directory: the rolled ones oldest
/// first, then the active one, so that following the list follows the most
/// recent.
pub fn collect_agent_logs(agent: &str, files: &Vec<String>) -> (r: Vec<String>)
    ensures
        oldest_first(agent@, views(r@)),
        forall|f: Seq<char>| #[trigger]
            views(r@).contains(f) <==> views(files@).contains(f) && is_agent_log(agent@, f),
        views(files@).contains(active_log(agent@)) ==> views(r@).len() > 0 && views(r@).last()
            == active_log(agent@),
{
    let mut prefix = agent.to_owned();
    prefix.append(".log");
    let ghost active = prefix@;
    let mut kept: Vec<String> = Vec::new();
    let mut running = false;
    let mut i: usize = 0;
    proof {
        assert(active_log(agent@) == active);
        lemma_active_is_a_log(agent@);
    }
    while i < files.len()
        invariant
            i <= files@.len(),
            prefix@ == active,
            active == agent@ + ".log"@,
            is_agent_log(agent@, active),
            running == views(files@).take(i as int).contains(active),
            forall|f: Seq<char>| #[trigger]
                views(kept@).contains(f) <==> views(files@).take(i as int).contains(f)
                    && is_agent_log(agent@, f) && f != active,
        decreases files@.len() - i,
    {
        let ghost before = views(kept@);
        let ghost done = views(files@).take(i as int);
        let ghost grown = views(files@).take(i as int + 1);
        let file = &files[i];
        if same(file.as_str(), prefix.as_str()) {
            running = true;
        } else if starts_with(file.as_str(), prefix.as_str()) && !ends_with(
            file.as_str(),
            ".gz",
        ) {
            kept.push(file.clone());
            proof {
                assert(views(kept@) =~= before.push(file@));
            }
        }
        proof {
            assert(grown =~= done.push(file@));
            lemma_push_contains(done, file@, active);
            assert forall|f: Seq<char>| #[trigger]
                views(kept@).contains(f) <==> grown.contains(f) && is_agent_log(agent@, f) && f
                    != active by {
                lemma_push_contains(done, file@, f);
                lemma_push_contains(before, file@, f);
            }
        }
        i = i + 1;
    }
    proof {
        assert(views(files@).take(files@.len() as int) =~= views(files@));
    }
    let mut out = sorted_unique(&kept);
    let ghost rolled = views(out@);
    proof {
        assert forall|k: int| 0 <= k < rolled.len() implies #[trigger] rolled[k] != active by {
            assert(rolled.contains(rolled[k]));
            assert(views(kept@).contains(rolled[k]));
        }
    }
    if running {
        out.push(prefix);
        proof {
            assert(views(out@) =~= rolled.push(active));
        }
    }
    proof {
        assert forall|f: Seq<char>| #[trigger]
            views(out@).contains(f) <==> views(files@).contains(f) && is_agent_log(
                agent@,
                f,
            ) by {
            lemma_push_contains(rolled, active, f);
            assert(rolled.contains(f) <==> views(kept@).contains(f));
        }
        assert forall|m: int, l: int| 0 <= m < l < views(out@).len() implies older(
            agent@,
            #[trigger] views(out@)[m],
            #[trigger] views(out@)[l],
        ) by {
            assert(views(out@)[m] == rolled[m]);
            if l < rolled.len() {
                assert(views(out@)[l] == rolled[l]);
                assert(before_or_same(rolled[m], rolled[l]));
            }
        }
    }
    out
}

proof fn lemma_active_is_a_log(agent: Seq<char>)
    ensures
        is_agent_log(agent, active_log(agent)),
{
    reveal_strlit(".log");
    reveal_strlit(".gz");
    let file = active_log(agent);
    assert(file.subrange(0, file.len() as int) =~= file);
    assert(file.subrange(file.len() - 3, file.len() as int).last() == 'g');
}

proof fn lemma_push_contains(s: Seq<Seq<char>>, x: Seq<char>, f: Seq<char>)
    ensures
        s.push(x).contains(f) <==> s.contains(f) || f == x,
{
    let t = s.push(x);
    if s.contains(f) {
        let i = choose|i: int| 0 <= i < s.len() && s[i] == f;
        assert(t[i] == f);
    }
    if f == x {
        assert(t[s.len() as int] == f);
    }
    if t.contains(f) && f != x {
        let i = choose|i: int| 0 <= i < t.len() && t[i] == f;
        assert(s[i] == f);
    }
}

/// The log directory of one agent.
#[derive(Debug, PartialEq, Eq)]
pub struct LogDir {
    pub agent: String,
    pub files: Vec<String>,
}

/// One log file of one agent.
#[derive(Debug, PartialEq, Eq)]
pub struct LogFile {
    pub agent: String,
    pub file: String,
}

/// Whether `f` stands strictly before `g`: by agent, then oldest first.
pub open spec fn log_before(f: LogFile, g: LogFile) -> bool {
    if f.agent@ == g.agent@ {
        older(f.agent@, f.file@, g.file@)
    } else {
        before_or_same(f.agent@, g.agent@)
    }
}

/// Whether some directory of the list holds this log.
pub open spec fn has_log(dirs: Seq<LogDir>, agent: Seq<char>, file: Seq<char>) -> bool {
    is_agent_log(agent, file) && exists|d: int|
        0 <= d < dirs.len() && (#[trigger] dirs[d]).agent@ == agent && views(
            dirs[d].files@,
        ).contains(file)
}

/// Whether this log is listed.
pub open spec fn lists(logs: Seq<LogFile>, agent: Seq<char>, file: Seq<char>) -> bool {
    exists|i: int|
        0 <= i < logs.len() && (#[trigger] logs[i]).agent@ == agent && logs[i].file@ == file
}

fn files_of(dirs: &Vec<LogDir>, agent: &str) -> (r: Vec<String>)
    ensures
        forall|f: Seq<char>| #[trigger]
            views(r@).contains(f) <==> exists|d: int|
                0 <= d < dirs@.len() && (#[trigger] dirs@[d]).agent@ == agent@ && views(
                    dirs@[d].files@,
                ).contains(f),
{
    let mut out: Vec<String> = Vec::new();
    let mut i: usize = 0;
    while i < dirs.len()
        invariant
            i <= dirs@.len(),
            forall|f: Seq<char>| #[trigger]
                views(out@).contains(f) <==> exists|d: int|
                    0 <= d < i && (#[trigger] dirs@[d]).agent@ == agent@ && views(
                        dirs@[d].files@,
                    ).contains(f),
        decreases dirs@.len() - i,
    {
        let ghost before = views(out@);
        let ghost more = views(dirs@[i as int].files@);
        if same(dirs[i].agent.as_str(), agent) {
            let mut files = copy_all(dirs[i].files.as_slice());
            out.append(&mut files);
            proof {
                assert(views(out@) =~= before + more);
                assert forall|f: Seq<char>| #[trigger]
                    views(out@).contains(f) <==> exists|d: int|
                        0 <= d < i + 1 && (#[trigger] dirs@[d]).agent@ == agent@ && views(
                            dirs@[d].files@,
                        ).contains(f) by {
                    lemma_concat_contains(before, more, f);
                    if more.contains(f) {
                        assert(dirs@[i as int].agent@ == agent@);
                    }
                }
            }
        }
        i = i + 1;
    }
    out
}

proof fn lemma_concat_contains(a: Seq<Seq<char>>, b: Seq<Seq<char>>, f: Seq<char>)
    ensures
        (a + b).contains(f) <==> a.contains(f) || b.contains(f),
{
    let t = a + b;
    if a.contains(f) {
        let i = choose|i: int| 0 <= i < a.len() && a[i] == f;
        assert(t[i] == f);
    }
    if b.contains(f) {
        let i = choose|i: int| 0 <= i < b.len() && b[i] == f;
        assert(t[a.len() + i] == f);
    }
    if t.contains(f) {
        let i = choose|i: int| 0 <= i < t.len() && t[i] == f;
        if i < a.len() {
            assert(a[i] == f);
        } else {
            assert(b[i - a.len()] == f);
        }
    }
}

fn agents_of(dirs: &Vec<LogDir>) -> (r: Vec<String>)
    ensures
        views(r@) == dirs@.map_values(|d: LogDir| d.agent@),
{
    let mut out: Vec<String> = Vec::new();
    let mut i: usize = 0;
    while i < dirs.len()
        invariant
            i <= dirs@.len(),
            out@.len() == i,
            forall|k: int| 0 <= k < i ==> #[trigger] out@[k]@ == dirs@[k].agent@,
        decreases dirs@.len() - i,
    {
        out.push(dirs[i].agent.clone());
        i = i + 1;
    }
    proof {
        assert(views(out@) =~= dirs@.map_values(|d: LogDir| d.agent@));
    }
    out
}

/// Every agent's logs in one list, each once: agent by agent, and of each agent
/// oldest first.
pub fn collect_all_agent_logs(dirs: &Vec<LogDir>) -> (r: Vec<LogFile>)
    ensures
        forall|i: int, j: int|
            0 <= i < j < r@.len() ==> log_before(#[trigger] r@[i], #[trigger] r@[j]),
        forall|a: Seq<char>, f: Seq<char>| #[trigger] lists(r@, a, f) <==> has_log(dirs@, a, f),
{
    let all = agents_of(dirs);
    let names = sorted_unique(&all);
    let ghost sorted = views(names@);
    let mut out: Vec<LogFile> = Vec::new();
    let mut i: usize = 0;
    while i < names.len()
        invariant
            i <= names@.len(),
            sorted == views(names@),
            in_order(sorted),
            sorted.no_duplicates(),
            forall|k: int, l: int|
                0 <= k < l < out@.len() ==> log_before(#[trigger] out@[k], #[trigger] out@[l]),
            forall|k: int|
                0 <= k < out@.len() ==> sorted.take(i as int).contains(
                    #[trigger] out@[k].agent@,
                ),
            forall|a: Seq<char>, f: Seq<char>| #[trigger]
                lists(out@, a, f) <==> sorted.take(i as int).contains(a) && has_log(dirs@, a, f),
        decreases names@.len() - i,
    {
        let name = &names[i];
        let files = collect_agent_logs(name.as_str(), &files_of(dirs, name.as_str()));
        let ghost done = sorted.take(i as int);
        let ghost start = out@;
        proof {
            assert(sorted[i as int] == name@);
            assert(sorted.take(i as int + 1) =~= done.push(name@));
            assert(!done.contains(name@)) by {
                if done.contains(name@) {
                    let k = choose|k: int| 0 <= k < done.len() && done[k] == name@;
                    assert(sorted[k] == sorted[i as int]);
                }
            }
        }
        let mut k: usize = 0;
        while k < files.len()
            invariant
                k <= files@.len(),
                i < names@.len(),
                sorted == views(names@),
                sorted[i as int] == name@,
                in_order(sorted),
                done == sorted.take(i as int),
                !done.contains(name@),
                oldest_first(name@, views(files@)),
                out@.len() == start.len() + k,
                forall|m: int| 0 <= m < start.len() ==> #[trigger] out@[m] == start[m],
                forall|m: int|
                    0 <= m < k ==> (#[trigger] out@[start.len() + m]).agent@ == name@
                        && out@[start.len() + m].file@ == views(files@)[m],
                forall|m: int| 0 <= m < start.len() ==> done.contains(#[trigger] start[m].agent@),
                forall|m: int, l: int|
                    0 <= m < l < start.len() ==> log_before(
                        #[trigger] start[m],
                        #[trigger] start[l],
                    ),
                forall|m: int, l: int|
                    0 <= m < l < out@.len() ==> log_before(#[trigger] out@[m], #[trigger] out@[l]),
            decreases files@.len() - k,
        {
            let ghost before = out@;
            out.push(LogFile { agent: name.clone(), file: files[k].clone() });
            proof {
                let at = start.len() + k;
                assert(views(files@)[k as int] == files@[k as int]@);
                assert forall|m: int| 0 <= m < at implies log_before(
                    #[trigger] out@[m],
                    out@[at as int],
                ) by {
                    if m < start.len() {
                        assert(out@[m] == start[m]);
                        let p = choose|p: int| 0 <= p < done.len() && done[p] == start[m].agent@;
                        assert(before_or_same(sorted[p], sorted[i as int]));
                    } else {
                        let p = m - start.len();
                        assert(out@[start.len() + p].file@ == views(files@)[p]);
                        assert(older(name@, views(files@)[p], views(files@)[k as int]));
                    }
                }
                assert forall|m: int, l: int| 0 <= m < l < out@.len() implies log_before(
                    #[trigger] out@[m],
                    #[trigger] out@[l],
                ) by {
                    if l < at {
                        assert(out@[m] == before[m] && out@[l] == before[l]);
                    }
                }
            }
            k = k + 1;
        }
        proof {
            let grown = sorted.take(i as int + 1);
            assert forall|m: int| 0 <= m < out@.len() implies grown.contains(
                #[trigger] out@[m].agent@,
            ) by {
                lemma_push_contains(done, name@, out@[m].agent@);
                if m < start.len() {
                    assert(out@[m] == start[m]);
                } else {
                    assert(out@[start.len() + (m - start.len())].agent@ == name@);
                }
            }
            assert forall|a: Seq<char>, f: Seq<char>| #[trigger]
                lists(out@, a, f) <==> grown.contains(a) && has_log(dirs@, a, f) by {
                lemma_push_contains(done, name@, a);
                if lists(out@, a, f) {
                    let m = choose|m: int|
                        0 <= m < out@.len() && (#[trigger] out@[m]).agent@ == a && out@[m].file@
                            == f;
                    if m < start.len() {
                        assert(start[m] == out@[m]);
                        assert(lists(start, a, f));
                    } else {
                        let p = m - start.len();
                        assert(out@[start.len() + p].file@ == views(files@)[p]);
                        assert(views(files@).contains(f));
                    }
                }
                if grown.contains(a) && has_log(dirs@, a, f) {
                    if a == name@ {
                        assert(views(files@).contains(f));
                        let p = choose|p: int| 0 <= p < files@.len() && views(files@)[p] == f;
                        assert(out@[start.len() + p].agent@ == a);
                    } else {
                        assert(lists(start, a, f));
                        let m = choose|m: int|
                            0 <= m < start.len() && (#[trigger] start[m]).agent@ == a
                                && start[m].file@ == f;
                        assert(out@[m] == start[m]);
                    }
                }
            }
        }
        i = i + 1;
    }
    proof {
        assert(sorted.take(sorted.len() as int) =~= sorted);
        assert forall|a: Seq<char>, f: Seq<char>| #[trigger]
            lists(out@, a, f) <==> has_log(dirs@, a, f) by {
            if has_log(dirs@, a, f) {
                let d = choose|d: int|
                    0 <= d < dirs@.len() && (#[trigger] dirs@[d]).agent@ == a && views(
                        dirs@[d].files@,
                    ).contains(f);
                assert(views(all@)[d] == a);
                assert(views(all@).contains(a));
                assert(sorted.contains(a));
            }
        }
    }
    out
}

/// The arguments that show the end of files.
pub open spec fn tail_command(lines: int, follow: bool, files: Seq<Seq<char>>) -> Seq<Seq<char>> {
    seq!["-n"@, dec(lines)] + (if follow {
        seq!["-F"@]
    } else {
        Seq::empty()
    }) + files
}

/// The arguments of the `tail` that shows these files, following the last one
/// when asked to.
pub fn tail_args(lines: usize, follow: bool, files: &Vec<String>) -> (r: Vec<String>)
    ensures
        views(r@) == tail_command(lines as int, follow, views(files@)),
{
    let mut out: Vec<String> = Vec::new();
    out.push("-n".to_owned());
    out.push(dec_usize(lines));
    if follow {
        out.push("-F".to_owned());
    }
    let ghost head = views(out@);
    let mut rest = copy_all(files.as_slice());
    out.append(&mut rest);
    proof {
        assert(head =~= seq!["-n"@, dec(lines as int)] + (if follow {
            seq!["-F"@]
        } else {
            Seq::empty()
        }));
        assert(views(out@) =~= head + views(files@));
    }
    out
}

/// What is said where there are no logs.
pub open spec fn missing_logs(agent: Option<Seq<char>>, dir: Seq<char>) -> Seq<char> {
    match agent {
        Some(name) => "no logs for "@ + name + " in "@ + dir,
        None => "no agent logs found under "@ + dir,
    }
}

/// What is said when there is nothing to tail. `dir` is where it was looked
/// for.
pub fn no_logs(agent: Option<&str>, dir: &str) -> (r: String)
    ensures
        r@ == match agent {
            Some(name) => missing_logs(Some(name@), dir@),
            None => missing_logs(None, dir@),
        },
{
    let mut out = match agent {
        Some(name) => {
            let mut head = "no logs for ".to_owned();
            head.append(name);
            head.append(" in ");
            head
        },
        None => "no agent logs found under ".to_owned(),
    };
    out.append(dir);
    out
}

// ---------------------------------------------------------------------
// `dotagent inspect`
// ---------------------------------------------------------------------

/// What is known of one schedule: its slug, its heartbeat as printed JSON, and
/// its current window, where one was attempted.
#[derive(Debug, PartialEq, Eq)]
pub struct ScheduleFacts {
    pub id: String,
    pub slug: String,
    pub heartbeat: Option<String>,
    pub window: Option<WindowState>,
}

/// What is known of one agent.
#[derive(Debug, PartialEq, Eq)]
pub struct AgentFacts {
    pub name: String,
    pub dir: String,
    /// The hash of its manifest and when that was first seen.
    pub known: Option<(String, String)>,
    pub monitor: bool,
    pub timeout_seconds: u64,
    pub schedules: Vec<ScheduleFacts>,
}

/// A line for a number that may be missing, in which case there is none.
pub open spec fn number_line(label: Seq<char>, n: Option<int>) -> Seq<char> {
    match n {
        Some(n) => label + dec(n) + "\n"@,
        None => Seq::empty(),
    }
}

/// What is printed of a window: when it was expected, how many attempts it has
/// used, how the last one ended, and whether it was given up.
pub open spec fn window_text(w: WindowState) -> Seq<char> {
    "  window:\n    expected_at: "@ + dec(w.expected_at as int) + "\n    attempts: "@ + dec(
        w.attempts as int,
    ) + "\n"@ + number_line(
        "    last_attempt_at: "@,
        match w.last_attempt_at {
            Some(t) => Some(t as int),
            None => None,
        },
    ) + number_line(
        "    last_attempt_exit_code: "@,
        match w.last_attempt_exit_code {
            Some(c) => Some(c as int),
            None => None,
        },
    ) + (match w.last_attempt_stderr {
        Some(e) => "    last_attempt_stderr:\n"@ + indented(
            lines_of(indented(lines_of(indented(lines_of(e@))))),
        ),
        None => Seq::empty(),
    }) + "    given_up: "@ + (if w.given_up {
        "true\n"@
    } else {
        "false\n"@
    }) + number_line(
        "    given_up_at: "@,
        match w.given_up_at {
            Some(t) => Some(t as int),
            None => None,
        },
    )
}

/// What is printed of one schedule.
pub open spec fn schedule_text(s: ScheduleFacts) -> Seq<char> {
    "─── schedule '"@ + s.id@ + "' (slug="@ + s.slug@ + ") ───\n"@ + (match s.heartbeat {
        Some(hb) => indented(lines_of(hb@)),
        None => "  (no heartbeat)\n"@,
    }) + match s.window {
        Some(w) => window_text(w),
        None => "  (no window)\n"@,
    }
}

/// What is printed of the schedules.
pub open spec fn schedules_text(schedules: Seq<ScheduleFacts>) -> Seq<char>
    decreases schedules.len(),
{
    if schedules.len() == 0 {
        Seq::empty()
    } else {
        schedules_text(schedules.drop_last()) + schedule_text(schedules.last())
    }
}

/// What `inspect` prints.
pub open spec fn inspect_text(a: AgentFacts) -> Seq<char> {
    "agent:        "@ + a.name@ + "\nmanifest_dir: "@ + a.dir@ + "\n"@ + (match a.known {
        Some(k) => "manifest_sha: "@ + k.0@ + " (first seen "@ + k.1@ + ")\n"@,
        None => Seq::empty(),
    }) + "monitor:      "@ + (if a.monitor {
        "true"@
    } else {
        "false"@
    }) + "\ntimeout:      "@ + dec(a.timeout_seconds as int) + "s\n\n"@ + schedules_text(
        a.schedules@,
    )
}

fn print_number(label: &str, n: Option<i64>) -> (r: String)
    ensures
        r@ == number_line(
            label@,
            match n {
                Some(n) => Some(n as int),
                None => None,
            },
        ),
{
    match n {
        Some(n) => {
            let mut line = label.to_owned();
            line.append(dec_i64(n).as_str());
            line.append("\n");
            line
        },
        None => String::new(),
    }
}

fn inspect_window(w: &WindowState) -> (r: String)
    ensures
        r@ == window_text(*w),
{
    let code: Option<i64> = match w.last_attempt_exit_code {
        Some(c) => Some(c as i64),
        None => None,
    };
    let stderr = match &w.last_attempt_stderr {
        Some(e) => {
            let once = print_block(e.as_str());
            let twice = print_block(once.as_str());
            let mut block = "    last_attempt_stderr:\n".to_owned();
            block.append(print_block(twice.as_str()).as_str());
            block
        },
        None => String::new(),
    };
    let mut out = "  window:\n    expected_at: ".to_owned();
    out.append(dec_i64(w.expected_at).as_str());
    out.append("\n    attempts: ");
    out.append(dec_u64(w.attempts as u64).as_str());
    out.append("\n");
    out.append(print_number("    last_attempt_at: ", w.last_attempt_at).as_str());
    out.append(print_number("    last_attempt_exit_code: ", code).as_str());
    out.append(stderr.as_str());
    out.append("    given_up: ");
    out.append(
        if w.given_up {
            "true\n"
        } else {
            "false\n"
        },
    );
    out.append(print_number("    given_up_at: ", w.given_up_at).as_str());
    out
}

fn inspect_schedule(s: &ScheduleFacts) -> (r: String)
    ensures
        r@ == schedule_text(*s),
{
    let window = match &s.window {
        Some(w) => inspect_window(w),
        None => "  (no window)\n".to_owned(),
    };
    let body = match &s.heartbeat {
        Some(hb) => print_block(hb.as_str()),
        None => "  (no heartbeat)\n".to_owned(),
    };
    let mut out = "─── schedule '".to_owned();
    out.append(s.id.as_str());
    out.append("' (slug=");
    out.append(s.slug.as_str());
    out.append(") ───\n");
    out.append(body.as_str());
    out.append(window.as_str());
    out
}

/// Print heartbeat, window state and manifest hash of an agent.
pub fn inspect(a: &AgentFacts) -> (r: String)
    ensures
        r@ == inspect_text(*a),
{
    let known = match &a.known {
        Some(k) => {
            let mut line = "manifest_sha: ".to_owned();
            line.append(k.0.as_str());
            line.append(" (first seen ");
            line.append(k.1.as_str());
            line.append(")\n");
            line
        },
        None => String::new(),
    };
    let mut schedules = String::new();
    let mut i: usize = 0;
    proof {
        assert(a.schedules@.take(0) =~= Seq::<ScheduleFacts>::empty());
    }
    while i < a.schedules.len()
        invariant
            i <= a.schedules@.len(),
            schedules@ == schedules_text(a.schedules@.take(i as int)),
        decreases a.schedules@.len() - i,
    {
        proof {
            assert(a.schedules@.take(i as int + 1).drop_last() =~= a.schedules@.take(i as int));
        }
        schedules.append(inspect_schedule(&a.schedules[i]).as_str());
        i = i + 1;
    }
    proof {
        assert(a.schedules@.take(a.schedules@.len() as int) =~= a.schedules@);
    }
    let mut out = "agent:        ".to_owned();
    out.append(a.name.as_str());
    out.append("\nmanifest_dir: ");
    out.append(a.dir.as_str());
    out.append("\n");
    out.append(known.as_str());
    out.append("monitor:      ");
    out.append(
        if a.monitor {
            "true"
        } else {
            "false"
        },
    );
    out.append("\ntimeout:      ");
    out.append(dec_u64(a.timeout_seconds).as_str());
    out.append("s\n\n");
    out.append(schedules.as_str());
    out
}

// ---------------------------------------------------------------------
// `dotagent reload`
// ---------------------------------------------------------------------

/// The pid a pidfile names, as std's `i32::from_str` reads a number: an
/// optional sign, then at least one digit, nothing else, and no more than 32
/// bits hold.
pub open spec fn parsed_pid(raw: Seq<char>) -> Option<int> {
    let s = trimmed(raw);
    if s.len() > 1 && s[0] == '-' {
        match number_of(s, 1, 0, 2_147_483_648) {
            Some(n) => Some(-(n as int)),
            None => None,
        }
    } else {
        let start: int = if s.len() > 0 && s[0] == '+' {
            1
        } else {
            0
        };
        if start >= s.len() {
            None
        } else {
            match number_of(s, start, 0, 2_147_483_647) {
                Some(n) => Some(n as int),
                None => None,
            }
        }
    }
}

fn digits_from(v: &Vec<char>, start: usize, max: u64) -> (r: Option<u64>)
    requires
        start <= v@.len(),
        max <= 2_147_483_648,
    ensures
        match number_of(v@, start as int, 0, max as nat) {
            Some(n) => r matches Some(m) && m == n && m <= max,
            None => r is None,
        },
{
    let mut at: usize = start;
    let mut acc: u64 = 0;
    while at < v.len()
        invariant
            start <= at <= v@.len(),
            max <= 2_147_483_648,
            acc <= max,
            number_of(v@, at as int, acc as nat, max as nat) == number_of(
                v@,
                start as int,
                0,
                max as nat,
            ),
        decreases v@.len() - at,
    {
        let c = v[at];
        if !('0' <= c && c <= '9') {
            return None;
        }
        let next: u64 = acc * 10 + (c as u32 - 48) as u64;
        if next > max {
            return None;
        }
        acc = next;
        at = at + 1;
    }
    Some(acc)
}

/// The pid of the daemon to reload, out of its pidfile.
pub fn reload_pid(raw: &str) -> (r: Option<i32>)
    ensures
        match parsed_pid(raw@) {
            Some(n) => r matches Some(pid) && pid == n,
            None => r is None,
        },
{
    let text = trim(raw);
    let v = chars_of(text.as_str());
    if v.len() > 1 && v[0] == '-' {
        return match digits_from(&v, 1, 2_147_483_648) {
            Some(n) => Some((0i64 - n as i64) as i32),
            None => None,
        };
    }
    let start: usize = if v.len() > 0 && v[0] == '+' {
        1
    } else {
        0
    };
    if start >= v.len() {
        return None;
    }
    match digits_from(&v, start, 2_147_483_647) {
        Some(n) => Some(n as i32),
        None => None,
    }
}

// ---------------------------------------------------------------------
// `dotagent plugin list`
// ---------------------------------------------------------------------

/// Whether a list of references names a plugin.
pub open spec fn refers_to(refs: Seq<PluginRef>, name: Seq<char>) -> bool {
    exists|i: int| 0 <= i < refs.len() && (#[trigger] refs[i]).plugin@ == name
}

/// Whether a list of notifiers goes through a plugin.
pub open spec fn notifies_through(notifiers: Seq<NotifierEntry>, name: Seq<char>) -> bool {
    exists|i: int|
        0 <= i < notifiers.len() && ((#[trigger] notifiers[i]).plugin matches Some(p) && p.name@
            == name)
}

/// Whether an agent needs a plugin's binary: for a preflight check, for a hook
/// or for a notifier.
pub open spec fn needs_plugin(m: AgentManifest, name: Seq<char>) -> bool {
    refers_to(m.preflight@, name) || refers_to(m.on_success@, name) || refers_to(
        m.on_failure@,
        name,
    ) || notifies_through(m.notifiers@, name)
}

fn push_refs(out: &mut Vec<String>, refs: &Vec<PluginRef>)
    ensures
        forall|n: Seq<char>| #[trigger]
            views(final(out)@).contains(n) <==> views(old(out)@).contains(n) || refers_to(
                refs@,
                n,
            ),
{
    let ghost start = views(out@);
    let mut i: usize = 0;
    while i < refs.len()
        invariant
            i <= refs@.len(),
            forall|n: Seq<char>| #[trigger]
                views(out@).contains(n) <==> start.contains(n) || refers_to(
                    refs@.take(i as int),
                    n,
                ),
        decreases refs@.len() - i,
    {
        let ghost before = views(out@);
        let ghost done = refs@.take(i as int);
        let ghost grown = refs@.take(i as int + 1);
        let item = &refs[i];
        out.push(item.plugin.clone());
        proof {
            assert(views(out@) =~= before.push(item.plugin@));
            assert forall|n: Seq<char>| #[trigger]
                views(out@).contains(n) <==> start.contains(n) || refers_to(grown, n) by {
                lemma_push_contains(before, item.plugin@, n);
                if refers_to(done, n) {
                    let k = choose|k: int|
                        0 <= k < done.len() && (#[trigger] done[k]).plugin@ == n;
                    assert(grown[k] == done[k]);
                }
                if n == item.plugin@ {
                    assert(grown[i as int].plugin@ == n);
                }
                if refers_to(grown, n) && n != item.plugin@ {
                    let k = choose|k: int|
                        0 <= k < grown.len() && (#[trigger] grown[k]).plugin@ == n;
                    assert(done[k] == grown[k]);
                }
            }
        }
        i = i + 1;
    }
    proof {
        assert(refs@.take(refs@.len() as int) =~= refs@);
    }
}

fn push_notifiers(out: &mut Vec<String>, notifiers: &Vec<NotifierEntry>)
    ensures
        forall|n: Seq<char>| #[trigger]
            views(final(out)@).contains(n) <==> views(old(out)@).contains(n) || notifies_through(
                notifiers@,
                n,
            ),
{
    let ghost start = views(out@);
    let mut i: usize = 0;
    while i < notifiers.len()
        invariant
            i <= notifiers@.len(),
            forall|n: Seq<char>| #[trigger]
                views(out@).contains(n) <==> start.contains(n) || notifies_through(
                    notifiers@.take(i as int),
                    n,
                ),
        decreases notifiers@.len() - i,
    {
        let ghost before = views(out@);
        let ghost done = notifiers@.take(i as int);
        let ghost grown = notifiers@.take(i as int + 1);
        let ghost item = notifiers@[i as int];
        if let Some(p) = &notifiers[i].plugin {
            out.push(p.name.clone());
            proof {
                assert(views(out@) =~= before.push(p.name@));
            }
        }
        proof {
            assert forall|n: Seq<char>| #[trigger]
                views(out@).contains(n) <==> start.contains(n) || notifies_through(grown, n) by {
                if let Some(p) = item.plugin {
                    lemma_push_contains(before, p.name@, n);
                    if n == p.name@ {
                        assert(grown[i as int] == item);
                    }
                }
                if notifies_through(done, n) {
                    let k = choose|k: int|
                        0 <= k < done.len() && ((#[trigger] done[k]).plugin matches Some(p)
                            && p.name@ == n);
                    assert(grown[k] == done[k]);
                }
                if notifies_through(grown, n) {
                    let k = choose|k: int|
                        0 <= k < grown.len() && ((#[trigger] grown[k]).plugin matches Some(p)
                            && p.name@ == n);
                    if k < done.len() {
                        assert(done[k] == grown[k]);
                    } else {
                        assert(grown[k] == item);
                    }
                }
            }
        }
        i = i + 1;
    }
    proof {
        assert(notifiers@.take(notifiers@.len() as int) =~= notifiers@);
    }
}

/// Whether some agent needs a plugin.
pub open spec fn some_agent_needs(agents: Seq<DiscoveredAgent>, name: Seq<char>) -> bool {
    exists|i: int| 0 <= i < agents.len() && needs_plugin((#[trigger] agents[i]).manifest, name)
}

/// The plugins the agents need, each once, in order.
pub fn plugin_names(agents: &Vec<DiscoveredAgent>) -> (r: Vec<String>)
    ensures
        in_order(views(r@)),
        views(r@).no_duplicates(),
        forall|n: Seq<char>| #[trigger]
            views(r@).contains(n) <==> some_agent_needs(agents@, n),
{
    let mut all: Vec<String> = Vec::new();
    let mut i: usize = 0;
    while i < agents.len()
        invariant
            i <= agents@.len(),
            forall|n: Seq<char>| #[trigger]
                views(all@).contains(n) <==> some_agent_needs(agents@.take(i as int), n),
        decreases agents@.len() - i,
    {
        let ghost before = views(all@);
        let ghost done = agents@.take(i as int);
        let ghost grown = agents@.take(i as int + 1);
        let m = &agents[i].manifest;
        push_refs(&mut all, &m.preflight);
        push_refs(&mut all, &m.on_success);
        push_refs(&mut all, &m.on_failure);
        push_notifiers(&mut all, &m.notifiers);
        proof {
            assert forall|n: Seq<char>| #[trigger]
                views(all@).contains(n) <==> some_agent_needs(grown, n) by {
                if some_agent_needs(done, n) {
                    let k = choose|k: int|
                        0 <= k < done.len() && needs_plugin((#[trigger] done[k]).manifest, n);
                    assert(grown[k] == done[k]);
                }
                if needs_plugin(*m, n) {
                    assert(grown[i as int].manifest == *m);
                }
                if some_agent_needs(grown, n) {
                    let k = choose|k: int|
                        0 <= k < grown.len() && needs_plugin((#[trigger] grown[k]).manifest, n);
                    if k < done.len() {
                        assert(done[k] == grown[k]);
                    }
                }
            }
        }
        i = i + 1;
    }
    proof {
        assert(agents@.take(agents@.len() as int) =~= agents@);
    }
    sorted_unique(&all)
}

/// What asking a plugin came to.
#[derive(Debug, PartialEq, Eq)]
pub enum PluginFacts {
    NotFound { error: String },
    InfoFailed { error: String, path: String },
    /// The kinds are printed JSON.
    Known { version: Option<String>, kinds: Vec<String>, path: String },
}

/// The line of a plugin.
pub open spec fn plugin_text(name: Seq<char>, facts: PluginFacts) -> Seq<char> {
    match facts {
        PluginFacts::NotFound { error } => name + "\t(not found: "@ + error@ + ")"@,
        PluginFacts::InfoFailed { error, path } => name + "\t(info failed: "@ + error@ + ")\t"@
            + path@,
        PluginFacts::Known { version, kinds, path } => name + "\t"@ + (match version {
            Some(v) => v@,
            None => Seq::empty(),
        }) + "\t"@ + joined(views(kinds@), ","@) + "\t"@ + path@,
    }
}

/// One line of the plugin list.
pub fn plugin_line(name: &str, facts: &PluginFacts) -> (r: String)
    ensures
        r@ == plugin_text(name@, *facts),
{
    let mut out = name.to_owned();
    match facts {
        PluginFacts::NotFound { error } => {
            out.append("\t(not found: ");
            out.append(error.as_str());
            out.append(")");
        },
        PluginFacts::InfoFailed { error, path } => {
            out.append("\t(info failed: ");
            out.append(error.as_str());
            out.append(")\t");
            out.append(path.as_str());
        },
        PluginFacts::Known { version, kinds, path } => {
            let shown = match version {
                Some(v) => v.clone(),
                None => String::new(),
            };
            out.append("\t");
            out.append(shown.as_str());
            out.append("\t");
            out.append(join(kinds.as_slice(), ",").as_str());
            out.append("\t");
            out.append(path.as_str());
        },
    }
    out
}

// ---------------------------------------------------------------------
// `dotagent install` and `uninstall`
// ---------------------------------------------------------------------

/// What starts the daemon.
#[derive(Debug, Clone, Copy, PartialEq, Eq, Structural)]
pub enum ServiceManager {
    Launchd,
    Systemd,
    /// None that a unit can be handed to.
    Unknown,
}

/// Said when `install` names agents: there is one unit, and the daemon runs
/// every agent.
pub fn install_note(all: bool, name: Option<&str>) -> (r: Option<&'static str>)
    ensures
        r is Some <==> all || name is Some,
        r matches Some(t) ==> t@
            == "[install] note: dotagent now uses ONE daemon unit (run.avelino.dotagent). --all and per-agent install are no-ops; the daemon manages every discovered manifest internally."@,
{
    if all || name.is_some() {
        Some(
            "[install] note: dotagent now uses ONE daemon unit (run.avelino.dotagent). --all and per-agent install are no-ops; the daemon manages every discovered manifest internally.",
        )
    } else {
        None
    }
}

/// Said when `uninstall` names agents.
pub fn uninstall_note(all: bool, name: Option<&str>) -> (r: Option<&'static str>)
    ensures
        r is Some <==> all || name is Some,
        r matches Some(t) ==> t@
            == "[uninstall] note: dotagent now uses ONE daemon unit (run.avelino.dotagent). --all and per-agent uninstall are no-ops."@,
{
    if all || name.is_some() {
        Some(
            "[uninstall] note: dotagent now uses ONE daemon unit (run.avelino.dotagent). --all and per-agent uninstall are no-ops.",
        )
    } else {
        None
    }
}

/// What is said of a unit that was written.
pub open spec fn installed_text(
    path: Seq<char>,
    label: Seq<char>,
    manager: ServiceManager,
) -> Seq<char> {
    "wrote "@ + path + "\n\nNext steps:\n"@ + match manager {
        ServiceManager::Launchd => "  launchctl bootstrap \"gui/$(id -u)\" "@ + path + "\n"@,
        ServiceManager::Systemd =>
            "  systemctl --user daemon-reload && systemctl --user enable --now "@ + label + "\n"@,
        ServiceManager::Unknown => Seq::empty(),
    }
}

/// What `install` prints once the unit at `path` is written: how to start it.
pub fn install_text(path: &str, label: &str, manager: ServiceManager) -> (r: String)
    ensures
        r@ == installed_text(path@, label@, manager),
{
    let mut next = String::new();
    match manager {
        ServiceManager::Launchd => {
            next.append("  launchctl bootstrap \"gui/$(id -u)\" ");
            next.append(path);
            next.append("\n");
        },
        ServiceManager::Systemd => {
            next.append("  systemctl --user daemon-reload && systemctl --user enable --now ");
            next.append(label);
            next.append("\n");
        },
        ServiceManager::Unknown => {},
    }
    let mut out = "wrote ".to_owned();
    out.append(path);
    out.append("\n\nNext steps:\n");
    out.append(next.as_str());
    out
}

/// What is said of a unit that was removed, or was not there.
pub open spec fn removed_text(removed: Option<Seq<char>>) -> Seq<char> {
    match removed {
        Some(path) => "removed "@ + path,
        None => "nothing to remove (daemon unit not found)"@,
    }
}

/// What `uninstall` prints: the unit that was removed, if there was one.
pub fn uninstall_text(removed: Option<&str>) -> (r: String)
    ensures
        r@ == match removed {
            Some(path) => removed_text(Some(path@)),
            None => removed_text(None),
        },
{
    match removed {
        Some(path) => {
            let mut out = "removed ".to_owned();
            out.append(path);
            out
        },
        None => "nothing to remove (daemon unit not found)".to_owned(),
    }
}

// ---------------------------------------------------------------------
// Laws of the small commands
// ---------------------------------------------------------------------

/// The end of every file is shown, in their order, as many lines of it as were
/// asked for; it is followed exactly where that was asked for.
pub proof fn every_log_is_shown(lines: int, follow: bool, files: Seq<Seq<char>>, i: int)
    requires
        0 <= i < files.len(),
    ensures
        ({
            let args = tail_command(lines, follow, files);
            &&& args[0] == "-n"@ && args[1] == dec(lines)
            &&& follow ==> args.len() == files.len() + 3 && args[2] == "-F"@ && args[i + 3]
                == files[i]
            &&& !follow ==> args.len() == files.len() + 2 && args[i + 2] == files[i]
        }),
{
}

/// Where there are no logs the message names the agent and where they were looked
/// for.
pub proof fn missing_logs_are_named(name: Seq<char>, dir: Seq<char>)
    ensures
        holds_text(missing_logs(Some(name), dir), " "@ + name + " "@),
        has_suffix(missing_logs(Some(name), dir), dir),
        has_suffix(missing_logs(None, dir), dir),
{
    reveal_strlit("no logs for ");
    reveal_strlit(" in ");
    reveal_strlit(" ");
    let a = "no logs for "@.drop_last();
    let b = " in "@.skip(1);
    let part = " "@ + name + " "@;
    let said = missing_logs(Some(name), dir);
    assert(said =~= a + part + (b + dir));
    lemma_holds_part(said, a, part, b + dir);
    lemma_ends("no logs for "@ + name + " in "@, dir);
    lemma_ends("no agent logs found under "@, dir);
}

/// A window is shown with each of its numbers behind its own name; what it does
/// not have is not shown.
pub proof fn a_window_is_shown_as_it_is(w: WindowState)
    ensures
        has_prefix(
            window_text(w),
            "  window:\n    expected_at: "@ + dec(w.expected_at as int) + "\n    attempts: "@ + dec(
                w.attempts as int,
            ) + "\n"@,
        ),
        w.last_attempt_at is Some ==> holds_text(
            window_text(w),
            "    last_attempt_at: "@ + dec(w.last_attempt_at->0 as int) + "\n"@,
        ),
        w.last_attempt_exit_code is Some ==> holds_text(
            window_text(w),
            "    last_attempt_exit_code: "@ + dec(w.last_attempt_exit_code->0 as int) + "\n"@,
        ),
        w.given_up ==> holds_text(window_text(w), "    given_up: true\n"@),
        !w.given_up ==> holds_text(window_text(w), "    given_up: false\n"@),
        w.given_up_at is Some ==> has_suffix(
            window_text(w),
            "    given_up_at: "@ + dec(w.given_up_at->0 as int) + "\n"@,
        ),
{
    let top = "  window:\n    expected_at: "@ + dec(w.expected_at as int) + "\n    attempts: "@
        + dec(w.attempts as int) + "\n"@;
    let at = number_line(
        "    last_attempt_at: "@,
        match w.last_attempt_at {
            Some(t) => Some(t as int),
            None => None,
        },
    );
    let code = number_line(
        "    last_attempt_exit_code: "@,
        match w.last_attempt_exit_code {
            Some(c) => Some(c as int),
            None => None,
        },
    );
    let words = match w.last_attempt_stderr {
        Some(e) => "    last_attempt_stderr:\n"@ + indented(
            lines_of(indented(lines_of(indented(lines_of(e@))))),
        ),
        None => Seq::empty(),
    };
    let label = "    given_up: "@;
    let flag = if w.given_up {
        "true\n"@
    } else {
        "false\n"@
    };
    let since = number_line(
        "    given_up_at: "@,
        match w.given_up_at {
            Some(t) => Some(t as int),
            None => None,
        },
    );
    lemma_parts_of_a_window(top, at, code, words, label, flag, since);
    assert(window_text(w) == top + at + code + words + label + flag + since);
    if w.given_up {
        assert(label + flag =~= "    given_up: true\n"@) by {
            reveal_strlit("    given_up: ");
            reveal_strlit("true\n");
            reveal_strlit("    given_up: true\n");
        }
    } else {
        assert(label + flag =~= "    given_up: false\n"@) by {
            reveal_strlit("    given_up: ");
            reveal_strlit("false\n");
            reveal_strlit("    given_up: false\n");
        }
    }
}

proof fn lemma_parts_of_a_window(
    top: Seq<char>,
    at: Seq<char>,
    code: Seq<char>,
    words: Seq<char>,
    label: Seq<char>,
    flag: Seq<char>,
    since: Seq<char>,
)
    ensures
        ({
            let said = top + at + code + words + label + flag + since;
            &&& has_prefix(said, top)
            &&& holds_text(said, at)
            &&& holds_text(said, code)
            &&& holds_text(said, label + flag)
            &&& has_suffix(said, since)
        }),
{
    let said = top + at + code + words + label + flag + since;
    let up = label + flag;
    let rest = words + up + since;
    lemma_in_two(top + at + code + words, label, flag);
    lemma_in_two(top + at + code, words, up);
    lemma_in_two(top + at + code, words + up, since);
    assert(said == top + at + code + rest);
    lemma_in_two(top + at, code, rest);
    lemma_in_two(top, at, code + rest);
    lemma_ends(top, at + (code + rest));
    lemma_holds_part(top + at + (code + rest), top, at, code + rest);
    lemma_holds_part(said, top + at, code, rest);
    lemma_holds_part(said, top + at + code + words, up, since);
    lemma_ends(top + at + code + words + up, since);
}

proof fn lemma_schedules_shown(schedules: Seq<ScheduleFacts>, i: int)
    requires
        0 <= i < schedules.len(),
    ensures
        holds_text(schedules_text(schedules), schedule_text(schedules[i])),
    decreases schedules.len(),
{
    let before = schedules_text(schedules.drop_last());
    let last = schedule_text(schedules.last());
    if i < schedules.len() - 1 {
        lemma_schedules_shown(schedules.drop_last(), i);
        lemma_holds_more(before, schedule_text(schedules[i]), last);
    } else {
        lemma_holds_last(before, last);
    }
}

/// A schedule is shown under its own id, with its own heartbeat and window.
pub proof fn a_schedule_is_shown_as_it_is(s: ScheduleFacts)
    ensures
        has_prefix(schedule_text(s), "─── schedule '"@ + s.id@ + "' (slug="@ + s.slug@),
        s.heartbeat is Some ==> holds_text(schedule_text(s), indented(lines_of(s.heartbeat->0@))),
        s.window is Some ==> has_suffix(schedule_text(s), window_text(s.window->0)),
        s.heartbeat is None ==> holds_text(schedule_text(s), "(no heartbeat)"@),
        s.window is None ==> has_suffix(schedule_text(s), "  (no window)\n"@),
{
    let head = "─── schedule '"@ + s.id@ + "' (slug="@ + s.slug@;
    let close = ") ───\n"@;
    let beat = match s.heartbeat {
        Some(hb) => indented(lines_of(hb@)),
        None => "  (no heartbeat)\n"@,
    };
    let window = match s.window {
        Some(w) => window_text(w),
        None => "  (no window)\n"@,
    };
    let said = schedule_text(s);
    assert(said == head + close + beat + window);
    lemma_holds_part(said, head + close, beat, window);
    lemma_ends(head + close + beat, window);
    lemma_in_two(head + close, beat, window);
    lemma_in_two(head, close, beat + window);
    lemma_ends(head, close + (beat + window));
    if s.heartbeat is None {
        reveal_strlit("  (no heartbeat)\n");
        reveal_strlit("(no heartbeat)");
        let none = "  (no heartbeat)\n"@;
        assert(none =~= none.take(2) + "(no heartbeat)"@ + none.skip(16));
        lemma_holds_part(none, none.take(2), "(no heartbeat)"@, none.skip(16));
        lemma_holds_through(said, beat, "(no heartbeat)"@);
    }
}

/// An agent is shown with its name, where it is, the hash of its manifest and
/// when that was first seen, whether it is monitored, its timeout, and every one
/// of its schedules.
#[verifier::rlimit(30)]
pub proof fn an_agent_is_shown_whole(a: AgentFacts, i: int)
    ensures
        has_prefix(
            inspect_text(a),
            "agent:        "@ + a.name@ + "\nmanifest_dir: "@ + a.dir@ + "\n"@,
        ),
        a.known is Some ==> holds_text(
            inspect_text(a),
            "manifest_sha: "@ + (a.known->0).0@ + " (first seen "@ + (a.known->0).1@ + ")\n"@,
        ),
        a.monitor ==> holds_text(inspect_text(a), "monitor:      true"@),
        !a.monitor ==> holds_text(inspect_text(a), "monitor:      false"@),
        holds_text(
            inspect_text(a),
            "\ntimeout:      "@ + dec(a.timeout_seconds as int) + "s\n\n"@,
        ),
        has_suffix(inspect_text(a), schedules_text(a.schedules@)),
        0 <= i < a.schedules@.len() ==> holds_text(
            inspect_text(a),
            schedule_text(a.schedules@[i]),
        ),
{
    let top = "agent:        "@ + a.name@ + "\nmanifest_dir: "@ + a.dir@ + "\n"@;
    let sha = match a.known {
        Some(k) => "manifest_sha: "@ + k.0@ + " (first seen "@ + k.1@ + ")\n"@,
        None => Seq::empty(),
    };
    let label = "monitor:      "@;
    let flag = if a.monitor {
        "true"@
    } else {
        "false"@
    };
    let watched = label + flag;
    let time = "\ntimeout:      "@ + dec(a.timeout_seconds as int) + "s\n\n"@;
    let list = schedules_text(a.schedules@);
    let said = inspect_text(a);
    lemma_in_two(top + sha, label, flag);
    let mid = top + sha + watched;
    lemma_in_two(mid, "\ntimeout:      "@, dec(a.timeout_seconds as int));
    lemma_in_two(mid, "\ntimeout:      "@ + dec(a.timeout_seconds as int), "s\n\n"@);
    assert(said == top + sha + watched + time + list);
    lemma_ends(mid + time, list);
    lemma_holds_part(said, mid, time, list);
    lemma_in_two(mid, time, list);
    lemma_holds_part(mid + (time + list), top + sha, watched, time + list);
    lemma_in_two(top + sha, watched, time + list);
    lemma_holds_part(top + sha + (watched + (time + list)), top, sha, watched + (time + list));
    lemma_in_two(top, sha, watched + (time + list));
    lemma_ends(top, sha + (watched + (time + list)));
    reveal_strlit("monitor:      ");
    reveal_strlit("true");
    reveal_strlit("false");
    reveal_strlit("monitor:      true");
    reveal_strlit("monitor:      false");
    if a.monitor {
        assert(watched =~= "monitor:      true"@);
    } else {
        assert(watched =~= "monitor:      false"@);
    }
    if 0 <= i < a.schedules@.len() {
        lemma_schedules_shown(a.schedules@, i);
        lemma_holds_last(mid + time, list);
        lemma_holds_through(said, list, schedule_text(a.schedules@[i]));
    }
}

/// A pid that is written in decimals is read back as it is.
pub proof fn a_daemons_pid_is_read_back(pid: i32)
    requires
        pid >= 0,
    ensures
        parsed_pid(dec(pid as int)) == Some(pid as int),
        parsed_pid(Seq::empty()) is None,
{
    lemma_number_of_digits(pid as nat, 2_147_483_647);
    let s = dec(pid as int);
    assert('0' <= s[0] <= '9');
    assert('0' <= s[s.len() - 1] <= '9');
    lemma_nothing_to_trim(s);
    assert(trimmed(Seq::<char>::empty()) =~= Seq::<char>::empty());
}

/// The line of a plugin opens with its name. One that is known ends with where it
/// is and has its version and each of its kinds; any other says why.
pub proof fn a_plugin_is_listed_as_it_is(
    name: Seq<char>,
    error: String,
    path: String,
    version: String,
    kinds: Vec<String>,
    i: int,
)
    ensures
        ({
            let lost = plugin_text(name, PluginFacts::NotFound { error });
            let failed = plugin_text(name, PluginFacts::InfoFailed { error, path });
            let known = plugin_text(
                name,
                PluginFacts::Known { version: Some(version), kinds, path },
            );
            &&& has_prefix(lost, name) && holds_text(lost, "not found: "@ + error@)
            &&& has_prefix(failed, name) && holds_text(failed, "info failed: "@ + error@)
                && has_suffix(failed, "\t"@ + path@)
            &&& has_prefix(known, name + "\t"@ + version@ + "\t"@) && has_suffix(
                known,
                "\t"@ + path@,
            )
            &&& 0 <= i < kinds@.len() ==> holds_text(known, kinds@[i]@)
        }),
{
    reveal_strlit("\t(not found: ");
    reveal_strlit("not found: ");
    reveal_strlit("\t(info failed: ");
    reveal_strlit("info failed: ");
    reveal_strlit(")\t");
    reveal_strlit("\t");
    let a = "\t(not found: "@;
    assert(a =~= a.take(2) + "not found: "@);
    let lost = name + a + error@ + ")"@;
    assert(lost =~= (name + a.take(2)) + ("not found: "@ + error@) + ")"@);
    lemma_holds_part(lost, name + a.take(2), "not found: "@ + error@, ")"@);
    assert(lost =~= name + (a + error@ + ")"@));
    lemma_ends(name, a + error@ + ")"@);
    let b = "\t(info failed: "@;
    assert(b =~= b.take(2) + "info failed: "@);
    let c = ")\t"@;
    assert(c =~= c.take(1) + "\t"@);
    let failed = name + b + error@ + c + path@;
    assert(failed =~= (name + b.take(2)) + ("info failed: "@ + error@) + (c + path@));
    lemma_holds_part(failed, name + b.take(2), "info failed: "@ + error@, c + path@);
    assert(failed =~= name + (b + error@ + c + path@));
    lemma_ends(name, b + error@ + c + path@);
    assert(failed =~= (name + b + error@ + c.take(1)) + ("\t"@ + path@));
    lemma_ends(name + b + error@ + c.take(1), "\t"@ + path@);
    let list = joined(views(kinds@), ","@);
    let head = name + "\t"@ + version@ + "\t"@;
    let known = head + list + "\t"@ + path@;
    lemma_in_two(head + list, "\t"@, path@);
    lemma_ends(head + list, "\t"@ + path@);
    lemma_in_two(head, list, "\t"@ + path@);
    lemma_ends(head, list + ("\t"@ + path@));
    if 0 <= i < kinds@.len() {
        lemma_joined_holds(views(kinds@), ","@, i);
        lemma_holds_part(head + list + ("\t"@ + path@), head, list, "\t"@ + path@);
        lemma_holds_through(known, list, kinds@[i]@);
    }
}

/// What was written is named, and the next step is that of the machine's own
/// service manager: for the file where it takes one, and for the label otherwise.
pub proof fn the_next_step_is_the_managers_own(path: Seq<char>, label: Seq<char>)
    ensures
        has_prefix(installed_text(path, label, ServiceManager::Launchd), "wrote "@ + path),
        has_prefix(installed_text(path, label, ServiceManager::Systemd), "wrote "@ + path),
        has_suffix(installed_text(path, label, ServiceManager::Launchd), path + "\n"@),
        has_suffix(installed_text(path, label, ServiceManager::Systemd), label + "\n"@),
{
    let head = "wrote "@ + path;
    let next = "\n\nNext steps:\n"@;
    let a = "  launchctl bootstrap \"gui/$(id -u)\" "@;
    let b = "  systemctl --user daemon-reload && systemctl --user enable --now "@;
    lemma_in_two(head, next, a + path + "\n"@);
    lemma_ends(head, next + (a + path + "\n"@));
    lemma_in_two(head, next, b + label + "\n"@);
    lemma_ends(head, next + (b + label + "\n"@));
    assert(head + next + (a + path + "\n"@) =~= (head + next + a) + (path + "\n"@));
    lemma_ends(head + next + a, path + "\n"@);
    assert(head + next + (b + label + "\n"@) =~= (head + next + b) + (label + "\n"@));
    lemma_ends(head + next + b, label + "\n"@);
}

/// A plugin is needed by an agent that names it in a check, in a hook of either
/// kind or in a notifier.
pub proof fn a_named_plugin_is_needed(m: AgentManifest, i: int)
    ensures
        0 <= i < m.preflight@.len() ==> needs_plugin(m, m.preflight@[i].plugin@),
        0 <= i < m.on_success@.len() ==> needs_plugin(m, m.on_success@[i].plugin@),
        0 <= i < m.on_failure@.len() ==> needs_plugin(m, m.on_failure@[i].plugin@),
        0 <= i < m.notifiers@.len() && m.notifiers@[i].plugin is Some ==> needs_plugin(
            m,
            m.notifiers@[i].plugin->0.name@,
        ),
{
}

/// The log that an agent writes to is one of its logs and comes after all older
/// ones; a compressed one is not shown, and neither is a log of another agent's
/// name.
pub proof fn the_log_in_use_comes_last(agent: Seq<char>, file: Seq<char>, path: Seq<char>)
    ensures
        has_prefix(active_log(agent), agent) && has_suffix(active_log(agent), ".log"@),
        !has_suffix(active_log(agent), ".gz"@) ==> is_agent_log(agent, active_log(agent)),
        has_suffix(file, ".gz"@) ==> !is_agent_log(agent, file),
        is_agent_log(agent, file) ==> has_prefix(file, active_log(agent)),
        file != active_log(agent) ==> older(agent, file, active_log(agent)) && !older(
            agent,
            active_log(agent),
            file,
        ),
        has_suffix(removed_text(Some(path)), path),
{
    lemma_ends(agent, ".log"@);
    lemma_ends("removed "@, path);
    let active = active_log(agent);
    let none = Seq::<char>::empty();
    assert(active + none =~= active);
    lemma_ends(active, none);
}

} // verus!
