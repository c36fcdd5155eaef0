//! Human- and machine-friendly rendering of a run's outcome.
//!
//! - Color is applied only when stdout is a terminal and `NO_COLOR` is unset.
//! - Status icons are always there; scripts that need structured fields use
//!   JSON.
//! - Truncated tails say how many lines were dropped and where the full log is.

use crate::discovery::{a_path_is_joined_by_one_slash, join_path, path_joined};
use crate::json::{
    JsonView, bool_value, integer, json_text, json_view, member_of, no_members, object_value,
    optional_text, print_value, put_member, signed_value, text_member, text_value,
    unsigned_value,
};
use crate::outcome::{OrchestratedOutcome, RunOutcome, append_hint, hint_text};
use crate::text::{
    dec, dec_i64, dec_usize, has_prefix, has_suffix, holds_text, lemma_ends, lemma_holds_last,
    lemma_holds_more, lemma_holds_part, lemma_holds_through, lemma_in_two, lines_of,
    split_lines, views,
};
use serde_json::Value;
use vstd::prelude::*;

verus! {

broadcast use vstd::string::group_string_axioms;

/// Output format selected by the caller.
#[derive(Clone, Copy, Debug, PartialEq, Eq, Structural)]
pub enum Format {
    Human,
    Json,
}

impl Default for Format {
    fn default() -> (r: Self)
        ensures
            r == Format::Human,
    {
        Format::Human
    }
}

// ---------------------------------------------------------------------
// Color
// ---------------------------------------------------------------------

/// A terminal color.
#[derive(Clone, Copy, Debug, PartialEq, Eq, Structural)]
pub enum Color {
    Red,
    Green,
    Yellow,
}

/// The number of a color in an escape sequence.
pub open spec fn color_code(c: Color) -> Seq<char> {
    match c {
        Color::Red => "31"@,
        Color::Green => "32"@,
        Color::Yellow => "33"@,
    }
}

impl Color {
    /// The number of the color in an escape sequence.
    pub fn code(self) -> (r: &'static str)
        ensures
            r@ == color_code(self),
    {
        match self {
            Color::Red => "31",
            Color::Green => "32",
            Color::Yellow => "33",
        }
    }
}

/// Whether text is painted.
#[derive(Clone, Copy, Debug, PartialEq, Eq, Structural)]
pub struct Style {
    pub enabled: bool,
}

/// `text` in a color, when painting is on.
pub open spec fn painted(style: Style, text: Seq<char>, color: Color, bold: bool) -> Seq<char> {
    if style.enabled {
        "\x1b["@ + (if bold {
            "1;"@
        } else {
            ""@
        }) + color_code(color) + "m"@ + text + "\x1b[0m"@
    } else {
        text
    }
}

/// `text` dimmed, when painting is on.
pub open spec fn dimmed(style: Style, text: Seq<char>) -> Seq<char> {
    if style.enabled {
        "\x1b[2m"@ + text + "\x1b[0m"@
    } else {
        text
    }
}

impl Style {
    /// Paint only on a terminal, and never against `NO_COLOR`.
    pub fn detect(terminal: bool, no_color: bool) -> (r: Self)
        ensures
            r.enabled == (terminal && !no_color),
    {
        Style { enabled: terminal && !no_color }
    }

    /// `text` in a color.
    pub fn paint(&self, text: &str, color: Color, bold: bool) -> (r: String)
        ensures
            r@ == painted(*self, text@, color, bold),
    {
        if !self.enabled {
            return text.to_owned();
        }
        let weight = if bold {
            "1;"
        } else {
            ""
        };
        let mut out = "\x1b[".to_owned();
        out.append(weight);
        out.append(color.code());
        out.append("m");
        out.append(text);
        out.append("\x1b[0m");
        out
    }

    /// `text` dimmed.
    pub fn dim(&self, text: &str) -> (r: String)
        ensures
            r@ == dimmed(*self, text@),
    {
        if !self.enabled {
            return text.to_owned();
        }
        let mut out = "\x1b[2m".to_owned();
        out.append(text);
        out.append("\x1b[0m");
        out
    }
}

// ---------------------------------------------------------------------
// JSON
// ---------------------------------------------------------------------

/// The result block of the envelope.
pub open spec fn result_view(outcome: OrchestratedOutcome) -> JsonView {
    let none = Map::<Seq<char>, JsonView>::empty();
    JsonView::Table(
        match outcome {
            OrchestratedOutcome::Ran(run) => none.insert("kind"@, JsonView::Text("ran"@)).insert(
                "exit_code"@,
                integer(run.exit_code as int),
            ).insert("timed_out"@, JsonView::Bool(run.timed_out)).insert(
                "duration_seconds"@,
                integer(run.duration_seconds as int),
            ).insert("stdout_tail"@, JsonView::Text(run.stdout_tail@)).insert(
                "stderr_tail"@,
                JsonView::Text(run.stderr_tail@),
            ).insert(
                "stdout_truncated_lines"@,
                integer(run.stdout_truncated_lines as int),
            ).insert("stderr_truncated_lines"@, integer(run.stderr_truncated_lines as int)),
            OrchestratedOutcome::PreflightFailed { plugin, suggest } => none.insert(
                "kind"@,
                JsonView::Text("preflight_failed"@),
            ).insert("plugin"@, JsonView::Text(plugin@)).insert(
                "suggest"@,
                match suggest {
                    Some(s) => JsonView::Text(s@),
                    None => JsonView::Null,
                },
            ),
        },
    )
}

/// The envelope of an outcome. The wall-clock duration stands at the top; the
/// run's own stands inside the result, so that consumers can tell them apart.
pub open spec fn envelope_view(
    agent: Seq<char>,
    schedule: Seq<char>,
    outcome: OrchestratedOutcome,
    wall_duration_seconds: i64,
) -> JsonView {
    JsonView::Table(
        Map::<Seq<char>, JsonView>::empty().insert("agent"@, JsonView::Text(agent)).insert(
            "schedule"@,
            JsonView::Text(schedule),
        ).insert("wall_duration_seconds"@, integer(wall_duration_seconds as int)).insert(
            "result"@,
            result_view(outcome),
        ),
    )
}

fn result_value(outcome: &OrchestratedOutcome) -> (r: Value)
    ensures
        json_view(r) == result_view(*outcome),
{
    let mut members = no_members();
    match outcome {
        OrchestratedOutcome::Ran(run) => {
            put_member(&mut members, "kind", text_value("ran"));
            put_member(&mut members, "exit_code", signed_value(run.exit_code as i64));
            put_member(&mut members, "timed_out", bool_value(run.timed_out));
            put_member(&mut members, "duration_seconds", signed_value(run.duration_seconds));
            put_member(&mut members, "stdout_tail", text_value(run.stdout_tail.as_str()));
            put_member(&mut members, "stderr_tail", text_value(run.stderr_tail.as_str()));
            put_member(
                &mut members,
                "stdout_truncated_lines",
                unsigned_value(run.stdout_truncated_lines as u64),
            );
            put_member(
                &mut members,
                "stderr_truncated_lines",
                unsigned_value(run.stderr_truncated_lines as u64),
            );
        },
        OrchestratedOutcome::PreflightFailed { plugin, suggest } => {
            put_member(&mut members, "kind", text_value("preflight_failed"));
            put_member(&mut members, "plugin", text_value(plugin.as_str()));
            put_member(&mut members, "suggest", optional_text(suggest));
        },
    }
    object_value(members)
}

/// Build the JSON envelope of an outcome.
pub fn build_envelope(
    agent: &str,
    schedule: &str,
    outcome: &OrchestratedOutcome,
    wall_duration_seconds: i64,
) -> (r: Value)
    ensures
        json_view(r) == envelope_view(agent@, schedule@, *outcome, wall_duration_seconds),
{
    let mut members = no_members();
    put_member(&mut members, "agent", text_value(agent));
    put_member(&mut members, "schedule", text_value(schedule));
    put_member(&mut members, "wall_duration_seconds", signed_value(wall_duration_seconds));
    put_member(&mut members, "result", result_value(outcome));
    object_value(members)
}

// ---------------------------------------------------------------------
// Text
// ---------------------------------------------------------------------

/// `lines`, each indented by two spaces and ended.
pub open spec fn indented(lines: Seq<Seq<char>>) -> Seq<char>
    decreases lines.len(),
{
    if lines.len() == 0 {
        Seq::empty()
    } else {
        indented(lines.drop_last()) + "  "@ + lines.last() + "\n"@
    }
}

/// The lines of a text, indented by two spaces.
pub fn print_block(text: &str) -> (r: String)
    ensures
        r@ == indented(lines_of(text@)),
{
    let lines = split_lines(text);
    let ghost all = views(lines@);
    let mut out = String::new();
    let mut i: usize = 0;
    proof {
        assert(all.take(0) =~= Seq::<Seq<char>>::empty());
    }
    while i < lines.len()
        invariant
            i <= lines@.len(),
            all == views(lines@),
            out@ == indented(all.take(i as int)),
        decreases lines@.len() - i,
    {
        proof {
            assert(all.take(i as int + 1).drop_last() =~= all.take(i as int));
            assert(all.take(i as int + 1).last() == lines@[i as int]@);
        }
        out.append("  ");
        out.append(lines[i].as_str());
        out.append("\n");
        i = i + 1;
    }
    proof {
        assert(all.take(all.len() as int) =~= all);
    }
    out
}

/// Where the full log of an agent is.
pub open spec fn full_log(log_dir: Seq<char>, agent: Seq<char>) -> Seq<char> {
    path_joined(log_dir, agent + ".log"@)
}

/// The line that says how much of a stream is missing.
pub open spec fn truncation_notice(
    agent: Seq<char>,
    log_dir: Seq<char>,
    dropped: int,
    style: Style,
) -> Seq<char> {
    "  "@ + dimmed(
        style,
        "… "@ + dec(dropped) + " earlier line(s) truncated — full log: "@ + full_log(
            log_dir,
            agent,
        ),
    ) + "\n"@
}

/// One stream of a run: nothing when it is empty.
pub open spec fn stream_block(
    agent: Seq<char>,
    log_dir: Seq<char>,
    label: Seq<char>,
    tail: Seq<char>,
    dropped: int,
    style: Style,
) -> Seq<char> {
    if tail.len() == 0 {
        Seq::empty()
    } else {
        "\n"@ + dimmed(style, label) + "\n"@ + indented(lines_of(tail)) + if dropped > 0 {
            truncation_notice(agent, log_dir, dropped, style)
        } else {
            Seq::empty()
        }
    }
}

/// How a run is marked: its icon, what it says, and the color of both.
pub open spec fn run_mark(run: RunOutcome) -> (Seq<char>, Seq<char>, Color) {
    if run.timed_out {
        ("✗"@, "timed out (exit "@ + dec(run.exit_code as int) + ")"@, Color::Red)
    } else if run.exit_code == 0 {
        ("✓"@, "ok"@, Color::Green)
    } else {
        ("✗"@, "failed (exit "@ + dec(run.exit_code as int) + ")"@, Color::Red)
    }
}

/// The headline of a report.
pub open spec fn headline(
    icon: Seq<char>,
    agent: Seq<char>,
    schedule: Seq<char>,
    label: Seq<char>,
    color: Color,
    seconds: int,
    style: Style,
) -> Seq<char> {
    painted(style, icon, color, true) + " "@ + agent + "/"@ + schedule + "  "@ + painted(
        style,
        label,
        color,
        true,
    ) + "  "@ + dimmed(style, dec(seconds) + "s"@) + "\n"@
}

/// What is printed of an outcome.
pub open spec fn human_text(
    agent: Seq<char>,
    schedule: Seq<char>,
    outcome: OrchestratedOutcome,
    seconds: int,
    style: Style,
    log_dir: Seq<char>,
) -> Seq<char> {
    match outcome {
        OrchestratedOutcome::Ran(run) => {
            let (icon, label, color) = run_mark(run);
            headline(icon, agent, schedule, label, color, seconds, style) + stream_block(
                agent,
                log_dir,
                "stdout:"@,
                run.stdout_tail@,
                run.stdout_truncated_lines as int,
                style,
            ) + stream_block(
                agent,
                log_dir,
                "stderr:"@,
                run.stderr_tail@,
                run.stderr_truncated_lines as int,
                style,
            )
        },
        OrchestratedOutcome::PreflightFailed { plugin, suggest } => {
            let head = headline(
                "⊘"@,
                agent,
                schedule,
                "aborted by preflight"@,
                Color::Yellow,
                seconds,
                style,
            ) + "  "@ + dimmed(style, "plugin:"@) + " "@ + plugin@ + "\n"@;
            match suggest {
                Some(s) => head + "  "@ + dimmed(style, "suggest:"@) + " "@ + s@ + "\n"@,
                None => head,
            }
        },
    }
}

fn print_headline(
    icon: &str,
    agent: &str,
    schedule: &str,
    label: &str,
    color: Color,
    seconds: i64,
    style: &Style,
) -> (r: String)
    ensures
        r@ == headline(icon@, agent@, schedule@, label@, color, seconds as int, *style),
{
    let mut duration = dec_i64(seconds);
    duration.append("s");
    let mut out = style.paint(icon, color, true);
    out.append(" ");
    out.append(agent);
    out.append("/");
    out.append(schedule);
    out.append("  ");
    out.append(style.paint(label, color, true).as_str());
    out.append("  ");
    out.append(style.dim(duration.as_str()).as_str());
    out.append("\n");
    out
}

fn print_truncation_notice(agent: &str, log_dir: &str, dropped: usize, style: &Style) -> (r: String)
    ensures
        r@ == truncation_notice(agent@, log_dir@, dropped as int, *style),
{
    let mut file = agent.to_owned();
    file.append(".log");
    let mut note = "… ".to_owned();
    note.append(dec_usize(dropped).as_str());
    note.append(" earlier line(s) truncated — full log: ");
    note.append(join_path(log_dir, file.as_str()).as_str());
    let mut out = "  ".to_owned();
    out.append(style.dim(note.as_str()).as_str());
    out.append("\n");
    out
}

fn print_stream(
    agent: &str,
    log_dir: &str,
    label: &str,
    tail: &str,
    dropped: usize,
    style: &Style,
) -> (r: String)
    ensures
        r@ == stream_block(agent@, log_dir@, label@, tail@, dropped as int, *style),
{
    if tail.is_empty() {
        return String::new();
    }
    let mut out = "\n".to_owned();
    out.append(style.dim(label).as_str());
    out.append("\n");
    out.append(print_block(tail).as_str());
    let notice = if dropped > 0 {
        print_truncation_notice(agent, log_dir, dropped, style)
    } else {
        String::new()
    };
    out.append(notice.as_str());
    out
}

fn print_run(
    agent: &str,
    schedule: &str,
    run: &RunOutcome,
    seconds: i64,
    style: &Style,
    log_dir: &str,
) -> (r: String)
    ensures
        r@ == human_text(
            agent@,
            schedule@,
            OrchestratedOutcome::Ran(*run),
            seconds as int,
            *style,
            log_dir@,
        ),
{
    let code = dec_i64(run.exit_code as i64);
    let (icon, label, color): (&str, String, Color) = if run.timed_out {
        let mut label = "timed out (exit ".to_owned();
        label.append(code.as_str());
        label.append(")");
        ("✗", label, Color::Red)
    } else if run.exit_code == 0 {
        ("✓", "ok".to_owned(), Color::Green)
    } else {
        let mut label = "failed (exit ".to_owned();
        label.append(code.as_str());
        label.append(")");
        ("✗", label, Color::Red)
    };
    let mut out = print_headline(icon, agent, schedule, label.as_str(), color, seconds, style);
    out.append(
        print_stream(
            agent,
            log_dir,
            "stdout:",
            run.stdout_tail.as_str(),
            run.stdout_truncated_lines,
            style,
        ).as_str(),
    );
    out.append(
        print_stream(
            agent,
            log_dir,
            "stderr:",
            run.stderr_tail.as_str(),
            run.stderr_truncated_lines,
            style,
        ).as_str(),
    );
    out
}

fn print_human(
    agent: &str,
    schedule: &str,
    outcome: &OrchestratedOutcome,
    seconds: i64,
    style: &Style,
    log_dir: &str,
) -> (r: String)
    ensures
        r@ == human_text(agent@, schedule@, *outcome, seconds as int, *style, log_dir@),
{
    match outcome {
        OrchestratedOutcome::Ran(run) => print_run(agent, schedule, run, seconds, style, log_dir),
        OrchestratedOutcome::PreflightFailed { plugin, suggest } => {
            let mut out = print_headline(
                "⊘",
                agent,
                schedule,
                "aborted by preflight",
                Color::Yellow,
                seconds,
                style,
            );
            out.append("  ");
            out.append(style.dim("plugin:").as_str());
            out.append(" ");
            out.append(plugin.as_str());
            out.append("\n");
            if let Some(s) = suggest {
                out.append("  ");
                out.append(style.dim("suggest:").as_str());
                out.append(" ");
                out.append(s.as_str());
                out.append("\n");
            }
            out
        },
    }
}

/// What is printed of a run.
pub open spec fn outcome_text(
    agent: Seq<char>,
    schedule: Seq<char>,
    outcome: OrchestratedOutcome,
    wall_duration_seconds: i64,
    format: Format,
    style: Style,
    log_dir: Seq<char>,
) -> Seq<char> {
    match format {
        Format::Json => json_text(envelope_view(agent, schedule, outcome, wall_duration_seconds))
            + "\n"@,
        Format::Human => human_text(
            agent,
            schedule,
            outcome,
            wall_duration_seconds as int,
            style,
            log_dir,
        ),
    }
}

/// Render an outcome of an agent's schedule: the text to print, line ends
/// included. The wall-clock duration may hold preflight time the run itself
/// does not see. `log_dir` is the directory of the agent's logs.
pub fn render_outcome(
    agent: &str,
    schedule: &str,
    outcome: &OrchestratedOutcome,
    wall_duration_seconds: i64,
    format: Format,
    style: &Style,
    log_dir: &str,
) -> (r: String)
    ensures
        r@ == outcome_text(
            agent@,
            schedule@,
            *outcome,
            wall_duration_seconds,
            format,
            *style,
            log_dir@,
        ),
{
    match format {
        Format::Json => {
            let envelope = build_envelope(agent, schedule, outcome, wall_duration_seconds);
            let mut out = print_value(&envelope);
            out.append("\n");
            out
        },
        Format::Human => print_human(
            agent,
            schedule,
            outcome,
            wall_duration_seconds,
            style,
            log_dir,
        ),
    }
}

// ---------------------------------------------------------------------
// `dotagent run`
// ---------------------------------------------------------------------

/// What a foreground run prints and exits with.
#[derive(Debug, PartialEq, Eq)]
pub struct Foreground {
    pub stdout: String,
    pub stderr: String,
    pub exit_code: i32,
}

/// Whether `r` is what a run in the foreground leaves on the terminal.
pub open spec fn foreground_of(
    name: Seq<char>,
    schedule: Seq<char>,
    outcome: OrchestratedOutcome,
    r: Foreground,
) -> bool {
    match outcome {
        OrchestratedOutcome::Ran(run) => {
            &&& r.exit_code == run.exit_code
            &&& r.stdout@ == if run.stdout_tail@.len() == 0 {
                Seq::empty()
            } else {
                run.stdout_tail@ + "\n"@
            }
            &&& r.stderr@ == if run.timed_out {
                "[dotagent] "@ + name + "/"@ + schedule + ": timeout (exit "@ + dec(
                    run.exit_code as int,
                ) + ")\n"@
            } else {
                Seq::empty()
            }
        },
        OrchestratedOutcome::PreflightFailed { plugin, suggest } => {
            &&& r.exit_code == 1
            &&& r.stdout@ == Seq::<char>::empty()
            &&& r.stderr@ == "[dotagent] "@ + name + "/"@ + schedule + ": preflight "@ + plugin@
                + " aborted the run"@ + hint_text(suggest) + "\n"@
        },
    }
}

/// Report a foreground run: the output the agent left, a line for a timeout or
/// a preflight abort, and the agent's own exit code.
pub fn foreground_report(name: &str, schedule: &str, outcome: &OrchestratedOutcome) -> (r:
    Foreground)
    ensures
        foreground_of(name@, schedule@, *outcome, r),
{
    let mut line = "[dotagent] ".to_owned();
    line.append(name);
    line.append("/");
    line.append(schedule);
    match outcome {
        OrchestratedOutcome::Ran(run) => {
            let mut stdout = String::new();
            if !run.stdout_tail.as_str().is_empty() {
                stdout = run.stdout_tail.clone();
                stdout.append("\n");
            }
            let mut stderr = String::new();
            if run.timed_out {
                line.append(": timeout (exit ");
                line.append(dec_i64(run.exit_code as i64).as_str());
                line.append(")\n");
                stderr = line;
            }
            Foreground { stdout, stderr, exit_code: run.exit_code }
        },
        OrchestratedOutcome::PreflightFailed { plugin, suggest } => {
            line.append(": preflight ");
            line.append(plugin.as_str());
            line.append(" aborted the run");
            append_hint(&mut line, suggest);
            line.append("\n");
            Foreground { stdout: String::new(), stderr: line, exit_code: 1 }
        },
    }
}

// ---------------------------------------------------------------------
// `dotagent tick`
// ---------------------------------------------------------------------

/// What is said of a tick.
pub open spec fn tick_text(
    dry_run: bool,
    scanned: int,
    dispatched: int,
    next_event: Option<String>,
) -> Seq<char> {
    (if dry_run {
        "(dry-run) scanned "@ + dec(scanned) + " agent(s); would dispatch "@
    } else {
        "scanned "@ + dec(scanned) + " agent(s); dispatched "@
    }) + dec(dispatched) + "; next event: "@ + match next_event {
        Some(t) => t@,
        None => "—"@,
    }
}

/// The line a tick ends with. `next_event` is the time of the next event, as
/// it is printed.
pub fn tick_line(dry_run: bool, scanned: usize, dispatched: usize, next_event: &Option<String>) -> (r:
    String)
    ensures
        r@ == tick_text(dry_run, scanned as int, dispatched as int, *next_event),
{
    let mut out = if dry_run {
        "(dry-run) scanned ".to_owned()
    } else {
        "scanned ".to_owned()
    };
    out.append(dec_usize(scanned).as_str());
    out.append(
        if dry_run {
            " agent(s); would dispatch "
        } else {
            " agent(s); dispatched "
        },
    );
    out.append(dec_usize(dispatched).as_str());
    out.append("; next event: ");
    let at = match next_event {
        Some(t) => t.as_str(),
        None => "—",
    };
    out.append(at);
    out
}

/// Color never changes what is said: without it the text is untouched.
pub proof fn without_color_text_is_untouched(text: Seq<char>, color: Color, bold: bool)
    ensures
        painted(Style { enabled: false }, text, color, bold) == text,
        dimmed(Style { enabled: false }, text) == text,
{
}

// ---------------------------------------------------------------------
// Laws of what is printed
// ---------------------------------------------------------------------

proof fn lemma_run_names()
    ensures
        "kind"@ != "exit_code"@ && "kind"@ != "timed_out"@ && "kind"@ != "duration_seconds"@
            && "kind"@ != "stdout_tail"@ && "kind"@ != "stderr_tail"@ && "kind"@
            != "stdout_truncated_lines"@ && "kind"@ != "stderr_truncated_lines"@,
        "exit_code"@ != "timed_out"@ && "exit_code"@ != "duration_seconds"@ && "exit_code"@
            != "stdout_tail"@ && "exit_code"@ != "stderr_tail"@ && "exit_code"@
            != "stdout_truncated_lines"@ && "exit_code"@ != "stderr_truncated_lines"@,
        "timed_out"@ != "duration_seconds"@ && "timed_out"@ != "stdout_tail"@ && "timed_out"@
            != "stderr_tail"@ && "timed_out"@ != "stdout_truncated_lines"@ && "timed_out"@
            != "stderr_truncated_lines"@,
        "duration_seconds"@ != "stdout_tail"@ && "duration_seconds"@ != "stderr_tail"@
            && "duration_seconds"@ != "stdout_truncated_lines"@ && "duration_seconds"@
            != "stderr_truncated_lines"@,
        "stdout_tail"@ != "stderr_tail"@ && "stdout_tail"@ != "stdout_truncated_lines"@
            && "stdout_tail"@ != "stderr_truncated_lines"@,
        "stderr_tail"@ != "stdout_truncated_lines"@ && "stderr_tail"@ != "stderr_truncated_lines"@,
        "stdout_truncated_lines"@ != "stderr_truncated_lines"@,
        "kind"@ != "plugin"@ && "kind"@ != "suggest"@ && "plugin"@ != "suggest"@,
        "agent"@ != "schedule"@ && "agent"@ != "wall_duration_seconds"@ && "agent"@ != "result"@,
        "schedule"@ != "wall_duration_seconds"@ && "schedule"@ != "result"@,
        "wall_duration_seconds"@ != "result"@,
{
    reveal_strlit("kind");
    reveal_strlit("exit_code");
    reveal_strlit("timed_out");
    reveal_strlit("duration_seconds");
    reveal_strlit("stdout_tail");
    reveal_strlit("stderr_tail");
    reveal_strlit("stdout_truncated_lines");
    reveal_strlit("stderr_truncated_lines");
    reveal_strlit("plugin");
    reveal_strlit("suggest");
    reveal_strlit("agent");
    reveal_strlit("schedule");
    reveal_strlit("wall_duration_seconds");
    reveal_strlit("result");
    assert("kind"@.len() == 4 && "exit_code"@.len() == 9 && "timed_out"@.len() == 9
        && "duration_seconds"@.len() == 16 && "stdout_tail"@.len() == 11 && "stderr_tail"@.len()
        == 11 && "stdout_truncated_lines"@.len() == 22 && "stderr_truncated_lines"@.len() == 22);
    assert("exit_code"@[0] == 'e' && "timed_out"@[0] == 't');
    assert("stdout_tail"@[3] == 'o' && "stderr_tail"@[3] == 'e');
    assert("stdout_truncated_lines"@[3] == 'o' && "stderr_truncated_lines"@[3] == 'e');
    assert("plugin"@.len() == 6 && "suggest"@.len() == 7);
    assert("agent"@.len() == 5 && "schedule"@.len() == 8 && "wall_duration_seconds"@.len() == 21
        && "result"@.len() == 6);
}

/// As a value a run has each of its parts under that part's own name: what it
/// printed is never what it logged, and how long it took is not how long was
/// waited for it.
pub proof fn every_part_of_a_run_has_its_name(
    agent: Seq<char>,
    schedule: Seq<char>,
    run: RunOutcome,
    seconds: i64,
)
    ensures
        ({
            let e = envelope_view(agent, schedule, OrchestratedOutcome::Ran(run), seconds);
            &&& text_member(e, "agent"@) == Some(agent)
            &&& text_member(e, "schedule"@) == Some(schedule)
            &&& member_of(e, "wall_duration_seconds"@) == Some(integer(seconds as int))
            &&& member_of(e, "result"@) matches Some(r) && ({
                &&& text_member(r, "kind"@) == Some("ran"@)
                &&& member_of(r, "exit_code"@) == Some(integer(run.exit_code as int))
                &&& member_of(r, "timed_out"@) == Some(JsonView::Bool(run.timed_out))
                &&& member_of(r, "duration_seconds"@) == Some(integer(run.duration_seconds as int))
                &&& text_member(r, "stdout_tail"@) == Some(run.stdout_tail@)
                &&& text_member(r, "stderr_tail"@) == Some(run.stderr_tail@)
                &&& member_of(r, "stdout_truncated_lines"@) == Some(
                    integer(run.stdout_truncated_lines as int),
                )
                &&& member_of(r, "stderr_truncated_lines"@) == Some(
                    integer(run.stderr_truncated_lines as int),
                )
            })
        }),
{
    lemma_run_names();
}

/// A run that a check stopped has the check and what it suggests, under their own
/// names, and none of what a run has.
pub proof fn a_stopped_run_names_its_check(
    agent: Seq<char>,
    schedule: Seq<char>,
    plugin: String,
    suggest: Option<String>,
    seconds: i64,
)
    ensures
        ({
            let e = envelope_view(
                agent,
                schedule,
                OrchestratedOutcome::PreflightFailed { plugin, suggest },
                seconds,
            );
            &&& text_member(e, "agent"@) == Some(agent)
            &&& text_member(e, "schedule"@) == Some(schedule)
            &&& member_of(e, "result"@) matches Some(r) && ({
                &&& text_member(r, "kind"@) == Some("preflight_failed"@)
                &&& text_member(r, "plugin"@) == Some(plugin@)
                &&& suggest is Some ==> text_member(r, "suggest"@) == Some(suggest->0@)
                &&& suggest is None ==> member_of(r, "suggest"@) == Some(JsonView::Null)
                &&& member_of(r, "exit_code"@) is None
            })
        }),
{
    lemma_run_names();
    reveal_strlit("plugin");
    reveal_strlit("suggest");
    reveal_strlit("kind");
    reveal_strlit("exit_code");
    assert("plugin"@.len() == 6 && "suggest"@.len() == 7 && "kind"@.len() == 4 && "exit_code"@.len()
        == 9);
}

proof fn lemma_indented(lines: Seq<Seq<char>>, i: int)
    requires
        0 <= i < lines.len(),
    ensures
        holds_text(indented(lines), "  "@ + lines[i] + "\n"@),
    decreases lines.len(),
{
    let before = indented(lines.drop_last());
    let last = "  "@ + lines.last() + "\n"@;
    assert(indented(lines) =~= before + last);
    if i < lines.len() - 1 {
        lemma_indented(lines.drop_last(), i);
        lemma_holds_more(before, "  "@ + lines[i] + "\n"@, last);
    } else {
        lemma_holds_last(before, last);
    }
}

/// A stream is shown below its own label, line for line; where lines are missing
/// it is said how many and where the rest is. A stream without anything in it is
/// not shown.
pub proof fn a_stream_is_shown_line_by_line(
    agent: Seq<char>,
    log_dir: Seq<char>,
    label: Seq<char>,
    tail: Seq<char>,
    dropped: int,
    style: Style,
    i: int,
)
    requires
        tail.len() > 0,
    ensures
        ({
            let said = stream_block(agent, log_dir, label, tail, dropped, style);
            &&& has_prefix(said, "\n"@ + dimmed(style, label) + "\n"@)
            &&& 0 <= i < lines_of(tail).len() ==> holds_text(
                said,
                "  "@ + lines_of(tail)[i] + "\n"@,
            )
            &&& dropped > 0 ==> has_suffix(
                said,
                truncation_notice(agent, log_dir, dropped, style),
            )
            &&& dropped <= 0 ==> has_suffix(said, indented(lines_of(tail)))
        }),
        stream_block(agent, log_dir, label, Seq::empty(), dropped, style).len() == 0,
{
    let top = "\n"@ + dimmed(style, label) + "\n"@;
    let body = indented(lines_of(tail));
    let none = Seq::<char>::empty();
    let end = if dropped > 0 {
        truncation_notice(agent, log_dir, dropped, style)
    } else {
        none
    };
    let said = stream_block(agent, log_dir, label, tail, dropped, style);
    assert(said == top + body + end);
    lemma_in_two(top, body, end);
    lemma_ends(top, body + end);
    lemma_ends(top + body, end);
    lemma_holds_part(said, top, body, end);
    if 0 <= i < lines_of(tail).len() {
        lemma_indented(lines_of(tail), i);
        lemma_holds_through(said, body, "  "@ + lines_of(tail)[i] + "\n"@);
    }
    assert(top + body + none =~= top + body);
    lemma_ends(top, body);
}

/// What is missing is counted, and the file that has all of it is named.
pub proof fn a_notice_names_the_full_log(
    agent: Seq<char>,
    log_dir: Seq<char>,
    dropped: int,
)
    ensures
        ({
            let said = truncation_notice(agent, log_dir, dropped, Style { enabled: false });
            &&& holds_text(said, " "@ + dec(dropped) + " earlier line(s)"@)
            &&& has_suffix(said, full_log(log_dir, agent) + "\n"@)
        }),
        has_suffix(full_log(log_dir, agent), agent + ".log"@),
        has_prefix(full_log(log_dir, agent), log_dir),
{
    a_path_is_joined_by_one_slash(log_dir, agent + ".log"@);
    reveal_strlit("… ");
    reveal_strlit(" ");
    reveal_strlit(" earlier line(s) truncated — full log: ");
    reveal_strlit(" earlier line(s)");
    let lead = "… "@.take(1);
    let mid = " earlier line(s) truncated — full log: "@;
    let log = full_log(log_dir, agent);
    let n = dec(dropped);
    let part = " "@ + n + " earlier line(s)"@;
    let rest = mid.skip(16);
    assert("… "@ =~= lead + " "@);
    assert(mid =~= " earlier line(s)"@ + rest);
    let inner = "… "@ + n + mid + log;
    assert(inner =~= lead + part + (rest + log));
    let said = "  "@ + inner + "\n"@;
    assert(said =~= ("  "@ + lead) + part + (rest + log + "\n"@));
    lemma_holds_part(said, "  "@ + lead, part, rest + log + "\n"@);
    assert(said =~= ("  "@ + "… "@ + n + mid) + (log + "\n"@));
    lemma_ends("  "@ + "… "@ + n + mid, log + "\n"@);
}

/// A run is marked as well exactly when it exited zero in time; every other mark
/// gives the exit code.
pub proof fn only_a_good_run_is_marked_well(run: RunOutcome)
    ensures
        run_mark(run).2 == Color::Green <==> run.exit_code == 0 && !run.timed_out,
        run_mark(run).2 == Color::Green ==> run_mark(run).0 == "✓"@ && run_mark(run).1 == "ok"@,
        run_mark(run).2 != Color::Green ==> run_mark(run).0 == "✗"@ && has_suffix(
            run_mark(run).1,
            "(exit "@ + dec(run.exit_code as int) + ")"@,
        ),
        run.timed_out ==> has_prefix(run_mark(run).1, "timed out"@),
{
    reveal_strlit("timed out (exit ");
    reveal_strlit("timed out");
    reveal_strlit("failed (exit ");
    reveal_strlit("(exit ");
    let end = "(exit "@ + dec(run.exit_code as int) + ")"@;
    let a = "timed out (exit "@.take(10);
    let b = "failed (exit "@.take(7);
    assert("timed out (exit "@ =~= a + "(exit "@);
    assert("failed (exit "@ =~= b + "(exit "@);
    assert("timed out (exit "@ + dec(run.exit_code as int) + ")"@ =~= a + end);
    assert("failed (exit "@ + dec(run.exit_code as int) + ")"@ =~= b + end);
    lemma_ends(a, end);
    lemma_ends(b, end);
    let gap = a.skip(9);
    assert(a =~= "timed out"@ + gap);
    assert(a + end =~= "timed out"@ + (gap + end));
    lemma_ends("timed out"@, gap + end);
}

/// What is printed for people opens with the agent, the schedule and how it went,
/// and then has what the run printed and what it logged, each in its own block.
pub proof fn a_run_is_shown_with_both_streams(
    agent: Seq<char>,
    schedule: Seq<char>,
    run: RunOutcome,
    seconds: int,
    style: Style,
    log_dir: Seq<char>,
)
    ensures
        ({
            let said = human_text(
                agent,
                schedule,
                OrchestratedOutcome::Ran(run),
                seconds,
                style,
                log_dir,
            );
            let mark = run_mark(run);
            let out = stream_block(
                agent,
                log_dir,
                "stdout:"@,
                run.stdout_tail@,
                run.stdout_truncated_lines as int,
                style,
            );
            let err = stream_block(
                agent,
                log_dir,
                "stderr:"@,
                run.stderr_tail@,
                run.stderr_truncated_lines as int,
                style,
            );
            &&& has_prefix(
                said,
                headline(mark.0, agent, schedule, mark.1, mark.2, seconds, style),
            )
            &&& has_suffix(said, out + err)
        }),
        ({
            let line = headline(
                run_mark(run).0,
                agent,
                schedule,
                run_mark(run).1,
                run_mark(run).2,
                seconds,
                style,
            );
            &&& holds_text(line, " "@ + agent + "/"@ + schedule + "  "@)
            &&& has_suffix(line, dimmed(style, dec(seconds) + "s"@) + "\n"@)
        }),
{
    let mark = run_mark(run);
    let head = headline(mark.0, agent, schedule, mark.1, mark.2, seconds, style);
    let out = stream_block(
        agent,
        log_dir,
        "stdout:"@,
        run.stdout_tail@,
        run.stdout_truncated_lines as int,
        style,
    );
    let err = stream_block(
        agent,
        log_dir,
        "stderr:"@,
        run.stderr_tail@,
        run.stderr_truncated_lines as int,
        style,
    );
    lemma_in_two(head, out, err);
    lemma_ends(head, out + err);
    let icon = painted(style, mark.0, mark.2, true);
    let label = painted(style, mark.1, mark.2, true);
    let time = dimmed(style, dec(seconds) + "s"@);
    let who = " "@ + agent + "/"@ + schedule + "  "@;
    lemma_in_two(icon, " "@, agent);
    lemma_in_two(icon, " "@ + agent, "/"@);
    lemma_in_two(icon, " "@ + agent + "/"@, schedule);
    lemma_in_two(icon, " "@ + agent + "/"@ + schedule, "  "@);
    lemma_holds_last(icon, who);
    lemma_holds_more(icon + who, who, label);
    lemma_holds_more(icon + who + label, who, "  "@);
    lemma_holds_more(icon + who + label + "  "@, who, time);
    lemma_holds_more(icon + who + label + "  "@ + time, who, "\n"@);
    lemma_in_two(icon + who + label + "  "@, time, "\n"@);
    lemma_ends(icon + who + label + "  "@, time + "\n"@);
}

/// In the foreground a run leaves what it printed and its own exit code, and a
/// word of its own only where it ran out of time; a run that a check stopped
/// fails, and says which check.
pub proof fn the_foreground_shows_the_run(
    name: Seq<char>,
    schedule: Seq<char>,
    run: RunOutcome,
    plugin: String,
    suggest: Option<String>,
    ran: Foreground,
    stopped: Foreground,
)
    requires
        foreground_of(name, schedule, OrchestratedOutcome::Ran(run), ran),
        foreground_of(
            name,
            schedule,
            OrchestratedOutcome::PreflightFailed { plugin, suggest },
            stopped,
        ),
    ensures
        ran.exit_code == run.exit_code,
        has_prefix(ran.stdout@, run.stdout_tail@),
        run.stdout_tail@.len() == 0 ==> ran.stdout@.len() == 0,
        ran.stderr@.len() > 0 <==> run.timed_out,
        run.timed_out ==> holds_text(ran.stderr@, name + "/"@ + schedule) && holds_text(
            ran.stderr@,
            dec(run.exit_code as int),
        ),
        stopped.exit_code == 1 && stopped.stdout@.len() == 0,
        holds_text(stopped.stderr@, name + "/"@ + schedule),
        holds_text(stopped.stderr@, plugin@),
{
    let none = Seq::<char>::empty();
    lemma_ends(run.stdout_tail@, "\n"@);
    assert(run.stdout_tail@ + none =~= run.stdout_tail@);
    lemma_ends(run.stdout_tail@, none);
    let lead = "[dotagent] "@;
    let who = name + "/"@ + schedule;
    reveal_strlit("[dotagent] ");
    if run.timed_out {
        let n = dec(run.exit_code as int);
        let said = ran.stderr@;
        assert(said =~= lead + who + (": timeout (exit "@ + n + ")\n"@));
        lemma_holds_part(said, lead, who, ": timeout (exit "@ + n + ")\n"@);
        assert(said =~= (lead + who + ": timeout (exit "@) + n + ")\n"@);
        lemma_holds_part(said, lead + who + ": timeout (exit "@, n, ")\n"@);
    }
    let end = " aborted the run"@ + hint_text(suggest) + "\n"@;
    let said = stopped.stderr@;
    assert(said =~= lead + who + (": preflight "@ + plugin@ + end));
    lemma_holds_part(said, lead, who, ": preflight "@ + plugin@ + end);
    assert(said =~= (lead + who + ": preflight "@) + plugin@ + end);
    lemma_holds_part(said, lead + who + ": preflight "@, plugin@, end);
}

/// A tick says how many agents it looked at and how many it dispatched, in that
/// order, and when the next event is; a dry run says that it is one.
pub proof fn a_tick_tells_both_numbers(
    scanned: int,
    dispatched: int,
    next: String,
)
    ensures
        has_prefix(
            tick_text(false, scanned, dispatched, Some(next)),
            "scanned "@ + dec(scanned) + " agent(s); dispatched "@ + dec(dispatched),
        ),
        has_prefix(
            tick_text(true, scanned, dispatched, Some(next)),
            "(dry-run) scanned "@ + dec(scanned) + " agent(s); would dispatch "@ + dec(dispatched),
        ),
        has_suffix(tick_text(false, scanned, dispatched, Some(next)), next@),
        has_suffix(tick_text(true, scanned, dispatched, Some(next)), next@),
{
    let a = "scanned "@ + dec(scanned) + " agent(s); dispatched "@ + dec(dispatched);
    let b = "(dry-run) scanned "@ + dec(scanned) + " agent(s); would dispatch "@ + dec(dispatched);
    lemma_in_two(a, "; next event: "@, next@);
    lemma_in_two(b, "; next event: "@, next@);
    lemma_ends(a, "; next event: "@ + next@);
    lemma_ends(b, "; next event: "@ + next@);
    lemma_ends(a + "; next event: "@, next@);
    lemma_ends(b + "; next event: "@, next@);
}

/// A run is printed as a value exactly where that was asked for.
pub proof fn a_format_is_what_was_asked_for(
    agent: Seq<char>,
    schedule: Seq<char>,
    outcome: OrchestratedOutcome,
    seconds: i64,
    style: Style,
    log_dir: Seq<char>,
)
    ensures
        has_prefix(
            outcome_text(agent, schedule, outcome, seconds, Format::Json, style, log_dir),
            json_text(envelope_view(agent, schedule, outcome, seconds)),
        ),
        outcome_text(agent, schedule, outcome, seconds, Format::Human, style, log_dir)
            == human_text(agent, schedule, outcome, seconds as int, style, log_dir),
{
    lemma_ends(json_text(envelope_view(agent, schedule, outcome, seconds)), "\n"@);
}

/// A run that a check stopped is shown with the check and, below it, what the
/// check suggests.
pub proof fn a_stopped_run_shows_its_check(
    agent: Seq<char>,
    schedule: Seq<char>,
    plugin: String,
    suggest: Option<String>,
    seconds: int,
    style: Style,
    log_dir: Seq<char>,
)
    ensures
        ({
            let said = human_text(
                agent,
                schedule,
                OrchestratedOutcome::PreflightFailed { plugin, suggest },
                seconds,
                style,
                log_dir,
            );
            &&& holds_text(said, dimmed(style, "plugin:"@) + " "@ + plugin@ + "\n"@)
            &&& suggest is Some ==> has_suffix(
                said,
                dimmed(style, "suggest:"@) + " "@ + suggest->0@ + "\n"@,
            )
            &&& has_prefix(
                said,
                headline(
                    "⊘"@,
                    agent,
                    schedule,
                    "aborted by preflight"@,
                    Color::Yellow,
                    seconds,
                    style,
                ),
            )
        }),
{
    let top = headline(
        "⊘"@,
        agent,
        schedule,
        "aborted by preflight"@,
        Color::Yellow,
        seconds,
        style,
    );
    let p = dimmed(style, "plugin:"@);
    let q = dimmed(style, "suggest:"@);
    let part = p + " "@ + plugin@ + "\n"@;
    let gap = top + "  "@;
    lemma_in_two(gap, p, " "@);
    lemma_in_two(gap, p + " "@, plugin@);
    lemma_in_two(gap, p + " "@ + plugin@, "\n"@);
    lemma_holds_last(gap, part);
    lemma_in_two(top, "  "@, part);
    lemma_ends(top, "  "@ + part);
    if suggest is Some {
        let s = suggest->0@;
        let hint = q + " "@ + s + "\n"@;
        let head = gap + part + "  "@;
        lemma_in_two(head, q, " "@);
        lemma_in_two(head, q + " "@, s);
        lemma_in_two(head, q + " "@ + s, "\n"@);
        lemma_ends(head, hint);
        lemma_holds_more(gap + part, part, "  "@);
        lemma_holds_more(head, part, hint);
        lemma_in_two(gap + part, "  "@, hint);
        lemma_in_two(gap, part, "  "@ + hint);
        lemma_in_two(top, "  "@, part + ("  "@ + hint));
        lemma_ends(top, "  "@ + (part + ("  "@ + hint)));
    }
}

/// A text in color is all there, behind the code of its own color; it is bold
/// exactly where that was asked for.
pub proof fn a_color_is_its_own(text: Seq<char>, color: Color)
    ensures
        ({
            let on = Style { enabled: true };
            let bold = painted(on, text, color, true);
            let plain = painted(on, text, color, false);
            &&& has_prefix(bold, "\x1b[1;"@ + color_code(color) + "m"@)
            &&& has_prefix(plain, "\x1b["@ + color_code(color) + "m"@)
            &&& has_suffix(bold, text + "\x1b[0m"@)
            &&& has_suffix(plain, text + "\x1b[0m"@)
            &&& holds_text(dimmed(on, text), text)
        }),
        color_code(Color::Red) == "31"@ && color_code(Color::Green) == "32"@ && color_code(
            Color::Yellow,
        ) == "33"@,
{
    let code = color_code(color);
    let end = "\x1b[0m"@;
    reveal_strlit("\x1b[1;");
    reveal_strlit("\x1b[");
    reveal_strlit("1;");
    reveal_strlit("");
    assert("\x1b["@ + "1;"@ =~= "\x1b[1;"@);
    assert("\x1b["@ + ""@ =~= "\x1b["@);
    let a = "\x1b[1;"@ + code + "m"@;
    let b = "\x1b["@ + code + "m"@;
    lemma_in_two(a, text, end);
    lemma_ends(a, text + end);
    lemma_in_two(b, text, end);
    lemma_ends(b, text + end);
    lemma_holds_part("\x1b[2m"@ + text + end, "\x1b[2m"@, text, end);
}

} // verus!
