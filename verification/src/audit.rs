//! `dotagent audit verify`: say out loud what the hash chain establishes.
//!
//! "No break found" would hide whether verification reached the first entry or
//! stopped at a seam three segments back. The four verdicts draw exactly those
//! distinctions.

use crate::json::{
    JsonView, bool_value, integer, json_text, json_view, member_of, no_members, object_value,
    optional_text, print_value, put_member, text_member, text_value, texts_value,
    unsigned_value,
};
use crate::text::{
    dec, dec_u64, dec_usize, has_prefix, has_suffix, holds_text, join, joined, lemma_ends,
    lemma_holds_last, lemma_holds_more, lemma_holds_part, lemma_holds_through, lemma_in_two,
    lemma_joined_holds, views,
};
use serde_json::Value;
use vstd::prelude::*;

verus! {

broadcast use vstd::string::group_string_axioms;

/// Where the chain breaks.
#[derive(Debug, PartialEq, Eq)]
pub struct ChainBreak {
    pub position: u64,
    pub expected: String,
    pub actual: String,
    /// The rotated segment it is in; none stands for the live file.
    pub segment: Option<String>,
}

/// What verification established.
#[derive(Debug, PartialEq, Eq)]
pub enum ChainStatus {
    IntactFromGenesis,
    IntactSinceRotation {
        since_ts: String,
        segment: String,
        entries_before: u64,
        segment_present: bool,
    },
    UnexplainedTruncation { orphan_prev_hash: String },
    Broken(ChainBreak),
}

/// Whether nothing on disk contradicts the chain.
pub open spec fn trustworthy(status: ChainStatus) -> bool {
    status is IntactFromGenesis || status is IntactSinceRotation
}

/// Whether the verdict means "nothing on disk contradicts the chain". A pruned
/// history counts: it is a legitimate state, and the text still names what is
/// missing.
pub fn is_trustworthy(status: &ChainStatus) -> (r: bool)
    ensures
        r == trustworthy(*status),
{
    match status {
        ChainStatus::IntactFromGenesis => true,
        ChainStatus::IntactSinceRotation { .. } => true,
        ChainStatus::UnexplainedTruncation { .. } => false,
        ChainStatus::Broken(_) => false,
    }
}

/// What was walked.
pub fn scope_label(full: bool) -> (r: &'static str)
    ensures
        r@ == scope_text(full),
{
    if full {
        "full — following seams back through every segment on disk"
    } else {
        "current segment — the live audit.log only"
    }
}

/// What was walked.
pub open spec fn scope_text(full: bool) -> Seq<char> {
    if full {
        "full — following seams back through every segment on disk"@
    } else {
        "current segment — the live audit.log only"@
    }
}

// ---------------------------------------------------------------------
// Color
// ---------------------------------------------------------------------

/// Whether the verdict is painted.
#[derive(Clone, Copy, Debug, PartialEq, Eq, Structural)]
pub struct Style {
    pub enabled: bool,
}

/// `text` in a bold color, when painting is on.
pub open spec fn painted(style: Style, text: Seq<char>, code: Seq<char>) -> Seq<char> {
    if style.enabled {
        "\x1b[1;"@ + code + "m"@ + text + "\x1b[0m"@
    } else {
        text
    }
}

impl Style {
    /// Paint only on a terminal, and never against `NO_COLOR`.
    pub fn detect(terminal: bool, no_color: bool) -> (r: Self)
        ensures
            r.enabled == (terminal && !no_color),
    {
        Style { enabled: terminal && !no_color }
    }

    /// No paint.
    pub fn plain() -> (r: Self)
        ensures
            !r.enabled,
    {
        Style { enabled: false }
    }

    /// Green.
    pub fn ok(&self, text: &str) -> (r: String)
        ensures
            r@ == painted(*self, text@, "32"@),
    {
        self.paint(text, "32")
    }

    /// Red.
    pub fn bad(&self, text: &str) -> (r: String)
        ensures
            r@ == painted(*self, text@, "31"@),
    {
        self.paint(text, "31")
    }

    /// `text` in a bold color.
    pub fn paint(&self, text: &str, code: &str) -> (r: String)
        ensures
            r@ == painted(*self, text@, code@),
    {
        if !self.enabled {
            return text.to_owned();
        }
        let mut out = "\x1b[1;".to_owned();
        out.append(code);
        out.append("m");
        out.append(text);
        out.append("\x1b[0m");
        out
    }
}

// ---------------------------------------------------------------------
// Text
// ---------------------------------------------------------------------

/// What the verdict says.
pub open spec fn verdict_text(status: ChainStatus, style: Style) -> Seq<char> {
    match status {
        ChainStatus::IntactFromGenesis => painted(style, "✓"@, "32"@)
            + " chain intact from GENESIS\n  every entry that is still on disk was checked\n"@,
        ChainStatus::IntactSinceRotation { since_ts, segment, entries_before, segment_present } => {
            painted(style, "✓"@, "32"@) + " chain intact since "@ + since_ts@ + "\n  "@ + dec(
                entries_before as int,
            ) + " earlier entries lived in "@ + segment@ + "\n"@ + if segment_present {
                "  that segment is on disk and was not walked — re-run with --full\n"@
            } else {
                "  that segment is gone: retention, or evidence removed. The chain\n  cannot tell those apart — only that the seam explaining it survived\n"@
            }
        },
        ChainStatus::UnexplainedTruncation { orphan_prev_hash } => painted(style, "✗"@, "31"@)
            + " unexplained truncation — the head of the log was removed\n  the oldest entry links to "@
            + orphan_prev_hash@
            + ", and nothing accounts for it\n  no seam survived, so this was not a rotation\n"@,
        ChainStatus::Broken(brk) => painted(style, "✗"@, "31"@) + " chain broken at position "@
            + dec(brk.position as int) + "\n  in:       "@ + (match brk.segment {
            Some(s) => s@,
            None => "the live audit.log"@,
        }) + "\n  expected: "@ + brk.expected@ + "\n  actual:   "@ + brk.actual@ + "\n"@,
    }
}

/// What is said of the rotated segments.
pub open spec fn segments_text(segments: Seq<String>) -> Seq<char> {
    if segments.len() == 0 {
        "none — the log has never rotated"@
    } else {
        dec(segments.len() as int) + " on disk ("@ + joined(views(segments), ", "@) + ")"@
    }
}

/// The report: the verdict, and a footer that always names the file, the scope
/// and the segments.
pub open spec fn report_text(
    path: Seq<char>,
    full: bool,
    status: ChainStatus,
    segments: Seq<String>,
    style: Style,
) -> Seq<char> {
    verdict_text(status, style) + "  file:     "@ + path + "\n  scope:    "@ + scope_text(full)
        + "\n  segments: "@ + segments_text(segments) + "\n"@
}

fn render_verdict(status: &ChainStatus, style: Style) -> (r: String)
    ensures
        r@ == verdict_text(*status, style),
{
    match status {
        ChainStatus::IntactFromGenesis => {
            let mut out = style.ok("✓");
            out.append(
                " chain intact from GENESIS\n  every entry that is still on disk was checked\n",
            );
            out
        },
        ChainStatus::IntactSinceRotation { since_ts, segment, entries_before, segment_present } => {
            let mut out = style.ok("✓");
            out.append(" chain intact since ");
            out.append(since_ts.as_str());
            out.append("\n  ");
            out.append(dec_u64(*entries_before).as_str());
            out.append(" earlier entries lived in ");
            out.append(segment.as_str());
            out.append("\n");
            out.append(
                if *segment_present {
                    "  that segment is on disk and was not walked — re-run with --full\n"
                } else {
                    "  that segment is gone: retention, or evidence removed. The chain\n  cannot tell those apart — only that the seam explaining it survived\n"
                },
            );
            out
        },
        ChainStatus::UnexplainedTruncation { orphan_prev_hash } => {
            let mut out = style.bad("✗");
            out.append(
                " unexplained truncation — the head of the log was removed\n  the oldest entry links to ",
            );
            out.append(orphan_prev_hash.as_str());
            out.append(
                ", and nothing accounts for it\n  no seam survived, so this was not a rotation\n",
            );
            out
        },
        ChainStatus::Broken(brk) => {
            let mut out = style.bad("✗");
            out.append(" chain broken at position ");
            out.append(dec_u64(brk.position).as_str());
            out.append("\n  in:       ");
            let place = match &brk.segment {
                Some(s) => s.as_str(),
                None => "the live audit.log",
            };
            out.append(place);
            out.append("\n  expected: ");
            out.append(brk.expected.as_str());
            out.append("\n  actual:   ");
            out.append(brk.actual.as_str());
            out.append("\n");
            out
        },
    }
}

/// Render the report.
pub fn render(
    path: &str,
    full: bool,
    status: &ChainStatus,
    segments: &[String],
    style: Style,
) -> (r: String)
    ensures
        r@ == report_text(path@, full, *status, segments@, style),
{
    let rotated = if segments.len() == 0 {
        "none — the log has never rotated".to_owned()
    } else {
        let mut text = dec_usize(segments.len());
        text.append(" on disk (");
        text.append(join(segments, ", ").as_str());
        text.append(")");
        text
    };
    let mut out = render_verdict(status, style);
    out.append("  file:     ");
    out.append(path);
    out.append("\n  scope:    ");
    out.append(scope_label(full));
    out.append("\n  segments: ");
    out.append(rotated.as_str());
    out.append("\n");
    out
}

// ---------------------------------------------------------------------
// JSON
// ---------------------------------------------------------------------

/// What is particular to a verdict.
pub open spec fn verdict_members(status: ChainStatus) -> Map<Seq<char>, JsonView> {
    let none = Map::<Seq<char>, JsonView>::empty();
    match status {
        ChainStatus::IntactFromGenesis => none.insert(
            "status"@,
            JsonView::Text("intact_from_genesis"@),
        ),
        ChainStatus::IntactSinceRotation { since_ts, segment, entries_before, segment_present } =>
            none.insert("status"@, JsonView::Text("intact_since_rotation"@)).insert(
            "since_ts"@,
            JsonView::Text(since_ts@),
        ).insert("segment"@, JsonView::Text(segment@)).insert(
            "entries_before"@,
            integer(entries_before as int),
        ).insert("segment_present"@, JsonView::Bool(segment_present)),
        ChainStatus::UnexplainedTruncation { orphan_prev_hash } => none.insert(
            "status"@,
            JsonView::Text("unexplained_truncation"@),
        ).insert("orphan_prev_hash"@, JsonView::Text(orphan_prev_hash@)),
        ChainStatus::Broken(brk) => none.insert("status"@, JsonView::Text("broken"@)).insert(
            "position"@,
            integer(brk.position as int),
        ).insert("expected"@, JsonView::Text(brk.expected@)).insert(
            "actual"@,
            JsonView::Text(brk.actual@),
        ).insert(
            "segment"@,
            match brk.segment {
                Some(s) => JsonView::Text(s@),
                None => JsonView::Null,
            },
        ),
    }
}

/// The envelope of a verdict.
pub open spec fn envelope_members(
    path: Seq<char>,
    full: bool,
    status: ChainStatus,
    segments: Seq<String>,
) -> Map<Seq<char>, JsonView> {
    verdict_members(status).insert("ok"@, JsonView::Bool(trustworthy(status))).insert(
        "scope"@,
        JsonView::Text(
            if full {
                "full"@
            } else {
                "current_segment"@
            },
        ),
    ).insert("file"@, JsonView::Text(path)).insert(
        "segments"@,
        JsonView::List(segments.map_values(|s: String| JsonView::Text(s@))),
    )
}

/// The envelope of a verdict.
pub fn envelope(path: &str, full: bool, status: &ChainStatus, segments: &[String]) -> (r: Value)
    ensures
        json_view(r) == JsonView::Table(envelope_members(path@, full, *status, segments@)),
{
    let mut members = no_members();
    match status {
        ChainStatus::IntactFromGenesis => {
            put_member(&mut members, "status", text_value("intact_from_genesis"));
        },
        ChainStatus::IntactSinceRotation { since_ts, segment, entries_before, segment_present } => {
            put_member(&mut members, "status", text_value("intact_since_rotation"));
            put_member(&mut members, "since_ts", text_value(since_ts.as_str()));
            put_member(&mut members, "segment", text_value(segment.as_str()));
            put_member(&mut members, "entries_before", unsigned_value(*entries_before));
            put_member(&mut members, "segment_present", bool_value(*segment_present));
        },
        ChainStatus::UnexplainedTruncation { orphan_prev_hash } => {
            put_member(&mut members, "status", text_value("unexplained_truncation"));
            put_member(&mut members, "orphan_prev_hash", text_value(orphan_prev_hash.as_str()));
        },
        ChainStatus::Broken(brk) => {
            put_member(&mut members, "status", text_value("broken"));
            put_member(&mut members, "position", unsigned_value(brk.position));
            put_member(&mut members, "expected", text_value(brk.expected.as_str()));
            put_member(&mut members, "actual", text_value(brk.actual.as_str()));
            put_member(&mut members, "segment", optional_text(&brk.segment));
        },
    }
    put_member(&mut members, "ok", bool_value(is_trustworthy(status)));
    let scope = if full {
        "full"
    } else {
        "current_segment"
    };
    put_member(&mut members, "scope", text_value(scope));
    put_member(&mut members, "file", text_value(path));
    put_member(&mut members, "segments", texts_value(segments));
    object_value(members)
}

/// Whether `r` is what is printed of a verdict, and the exit code.
pub open spec fn verified(
    path: Seq<char>,
    full: bool,
    status: ChainStatus,
    segments: Seq<String>,
    json_output: bool,
    style: Style,
    r: (String, i32),
) -> bool {
    &&& r.0@ == if json_output {
        json_text(JsonView::Table(envelope_members(path, full, status, segments))) + "\n"@
    } else {
        report_text(path, full, status, segments, style)
    }
    &&& r.1 == if trustworthy(status) {
        0int
    } else {
        1int
    }
}

/// What the command prints, and what it exits with: zero exactly when the
/// chain is trustworthy, so that it is usable in a `&&` chain.
pub fn verify(
    path: &str,
    full: bool,
    status: &ChainStatus,
    segments: &[String],
    json_output: bool,
    style: Style,
) -> (r: (String, i32))
    ensures
        verified(path@, full, *status, segments@, json_output, style, r),
{
    let code: i32 = if is_trustworthy(status) {
        0
    } else {
        1
    };
    if json_output {
        let mut out = print_value(&envelope(path, full, status, segments));
        out.append("\n");
        return (out, code);
    }
    (render(path, full, status, segments, style), code)
}

/// Every verdict serializes with a status and with a flag that says whether
/// the chain is trustworthy, and no two verdicts share a status.
pub proof fn every_verdict_has_a_status_and_a_flag(
    path: Seq<char>,
    full: bool,
    status: ChainStatus,
    segments: Seq<String>,
)
    ensures
        ({
            let e = envelope_members(path, full, status, segments);
            &&& e.dom().contains("status"@) && e["status"@] is Text
            &&& e.dom().contains("ok"@) && e["ok"@] == JsonView::Bool(trustworthy(status))
            &&& (e["status"@] == JsonView::Text("intact_from_genesis"@)
                <==> status is IntactFromGenesis)
            &&& (e["status"@] == JsonView::Text("intact_since_rotation"@)
                <==> status is IntactSinceRotation)
            &&& (e["status"@] == JsonView::Text("unexplained_truncation"@)
                <==> status is UnexplainedTruncation)
            &&& (e["status"@] == JsonView::Text("broken"@) <==> status is Broken)
        }),
{
    reveal_strlit("status");
    reveal_strlit("ok");
    reveal_strlit("scope");
    reveal_strlit("file");
    reveal_strlit("segments");
    reveal_strlit("since_ts");
    reveal_strlit("segment");
    reveal_strlit("entries_before");
    reveal_strlit("segment_present");
    reveal_strlit("orphan_prev_hash");
    reveal_strlit("position");
    reveal_strlit("expected");
    reveal_strlit("actual");
    reveal_strlit("intact_from_genesis");
    reveal_strlit("intact_since_rotation");
    reveal_strlit("unexplained_truncation");
    reveal_strlit("broken");
    assert("status"@.len() == 6);
    assert("ok"@.len() == 2);
    assert("scope"@.len() == 5);
    assert("file"@.len() == 4);
    assert("segments"@.len() == 8);
    assert("since_ts"@.len() == 8);
    assert("segment"@.len() == 7);
    assert("entries_before"@.len() == 14);
    assert("segment_present"@.len() == 15);
    assert("orphan_prev_hash"@.len() == 16);
    assert("position"@.len() == 8);
    assert("expected"@.len() == 8);
    assert("intact_from_genesis"@.len() == 19);
    assert("intact_since_rotation"@.len() == 21);
    assert("unexplained_truncation"@.len() == 22);
    assert("broken"@.len() == 6);
    assert("status"@[1] == 't');
    assert("actual"@[1] == 'c');
}

// ---------------------------------------------------------------------
// Laws of a verdict
// ---------------------------------------------------------------------

/// The exit code is zero exactly for a chain that is intact; a chain that is
/// broken, or whose head is gone unexplained, is never trusted. Both ways of
/// printing it end with the same code.
pub proof fn only_an_intact_chain_is_trusted(
    path: Seq<char>,
    full: bool,
    status: ChainStatus,
    segments: Seq<String>,
    style: Style,
    human: (String, i32),
    json: (String, i32),
)
    requires
        verified(path, full, status, segments, false, style, human),
        verified(path, full, status, segments, true, style, json),
    ensures
        human.1 == json.1,
        human.1 == 0 || human.1 == 1,
        human.1 == 0 <==> !(status is Broken) && !(status is UnexplainedTruncation),
        human.0@ == report_text(path, full, status, segments, style),
        has_prefix(
            json.0@,
            json_text(JsonView::Table(envelope_members(path, full, status, segments))),
        ),
{
    lemma_ends(json_text(JsonView::Table(envelope_members(path, full, status, segments))), "\n"@);
}

proof fn lemma_member_names()
    ensures
        "status"@ != "ok"@ && "status"@ != "scope"@ && "status"@ != "file"@ && "status"@
            != "segments"@ && "status"@ != "segment"@ && "status"@ != "since_ts"@ && "status"@
            != "entries_before"@ && "status"@ != "segment_present"@ && "status"@
            != "orphan_prev_hash"@ && "status"@ != "position"@ && "status"@ != "expected"@
            && "status"@ != "actual"@,
        "ok"@ != "scope"@ && "ok"@ != "file"@ && "ok"@ != "segments"@ && "ok"@ != "segment"@
            && "ok"@ != "since_ts"@ && "ok"@ != "entries_before"@ && "ok"@ != "segment_present"@
            && "ok"@ != "orphan_prev_hash"@ && "ok"@ != "position"@ && "ok"@ != "expected"@
            && "ok"@ != "actual"@,
        "scope"@ != "file"@ && "scope"@ != "segments"@ && "scope"@ != "segment"@ && "scope"@
            != "since_ts"@ && "scope"@ != "entries_before"@ && "scope"@ != "segment_present"@
            && "scope"@ != "orphan_prev_hash"@ && "scope"@ != "position"@ && "scope"@
            != "expected"@ && "scope"@ != "actual"@,
        "file"@ != "segments"@ && "file"@ != "segment"@ && "file"@ != "since_ts"@ && "file"@
            != "entries_before"@ && "file"@ != "segment_present"@ && "file"@
            != "orphan_prev_hash"@ && "file"@ != "position"@ && "file"@ != "expected"@ && "file"@
            != "actual"@,
        "segments"@ != "segment"@ && "segments"@ != "since_ts"@ && "segments"@
            != "entries_before"@ && "segments"@ != "segment_present"@ && "segments"@
            != "orphan_prev_hash"@ && "segments"@ != "position"@ && "segments"@ != "expected"@
            && "segments"@ != "actual"@,
        "segment"@ != "since_ts"@ && "segment"@ != "entries_before"@ && "segment"@
            != "segment_present"@ && "segment"@ != "position"@ && "segment"@ != "expected"@
            && "segment"@ != "actual"@,
        "since_ts"@ != "entries_before"@ && "since_ts"@ != "segment_present"@,
        "entries_before"@ != "segment_present"@,
        "position"@ != "expected"@ && "position"@ != "actual"@ && "expected"@ != "actual"@,
{
    reveal_strlit("status");
    reveal_strlit("ok");
    reveal_strlit("scope");
    reveal_strlit("file");
    reveal_strlit("segments");
    reveal_strlit("segment");
    reveal_strlit("since_ts");
    reveal_strlit("entries_before");
    reveal_strlit("segment_present");
    reveal_strlit("orphan_prev_hash");
    reveal_strlit("position");
    reveal_strlit("expected");
    reveal_strlit("actual");
    assert("status"@.len() == 6 && "ok"@.len() == 2 && "scope"@.len() == 5 && "file"@.len() == 4
        && "segments"@.len() == 8 && "segment"@.len() == 7 && "since_ts"@.len() == 8);
    assert("entries_before"@.len() == 14 && "segment_present"@.len() == 15
        && "orphan_prev_hash"@.len() == 16 && "position"@.len() == 8 && "expected"@.len() == 8
        && "actual"@.len() == 6);
    assert("status"@[0] == 's' && "actual"@[0] == 'a');
    assert("segments"@[1] == 'e' && "since_ts"@[1] == 'i' && "position"@[1] == 'o'
        && "expected"@[1] == 'x');
}

/// As a value a verdict has each of its parts under that part's own name: the
/// flag, the file, how much was looked at, what is on disk, and what was found.
pub proof fn every_part_of_a_verdict_has_its_name(
    path: Seq<char>,
    full: bool,
    status: ChainStatus,
    segments: Seq<String>,
)
    ensures
        ({
            let e = JsonView::Table(envelope_members(path, full, status, segments));
            &&& member_of(e, "ok"@) == Some(
                JsonView::Bool(!(status is Broken) && !(status is UnexplainedTruncation)),
            )
            &&& text_member(e, "file"@) == Some(path)
            &&& text_member(e, "scope"@) == Some(
                if full {
                    "full"@
                } else {
                    "current_segment"@
                },
            )
            &&& member_of(e, "segments"@) matches Some(JsonView::List(l)) && l.len()
                == segments.len() && forall|i: int|
                0 <= i < l.len() ==> l[i] == JsonView::Text((#[trigger] segments[i])@)
        }),
        ({
            let e = JsonView::Table(envelope_members(path, full, status, segments));
            match status {
                ChainStatus::IntactFromGenesis => true,
                ChainStatus::IntactSinceRotation {
                    since_ts,
                    segment,
                    entries_before,
                    segment_present,
                } => {
                    &&& text_member(e, "since_ts"@) == Some(since_ts@)
                    &&& text_member(e, "segment"@) == Some(segment@)
                    &&& member_of(e, "entries_before"@) == Some(integer(entries_before as int))
                    &&& member_of(e, "segment_present"@) == Some(JsonView::Bool(segment_present))
                },
                ChainStatus::UnexplainedTruncation { orphan_prev_hash } => text_member(
                    e,
                    "orphan_prev_hash"@,
                ) == Some(orphan_prev_hash@),
                ChainStatus::Broken(brk) => {
                    &&& text_member(e, "expected"@) == Some(brk.expected@)
                    &&& text_member(e, "actual"@) == Some(brk.actual@)
                    &&& member_of(e, "position"@) == Some(integer(brk.position as int))
                    &&& brk.segment is Some ==> text_member(e, "segment"@) == Some(
                        brk.segment->0@,
                    )
                    &&& brk.segment is None ==> member_of(e, "segment"@) == Some(JsonView::Null)
                },
            }
        }),
{
    lemma_member_names();
}

/// A break is shown with its place, the segment it is in, and the hash that was
/// expected and the one that was found, each behind its own label.
pub proof fn a_break_is_shown_where_it_is(brk: ChainBreak, style: Style)
    ensures
        ({
            let said = verdict_text(ChainStatus::Broken(brk), style);
            &&& has_suffix(
                said,
                "\n  expected: "@ + brk.expected@ + "\n  actual:   "@ + brk.actual@ + "\n"@,
            )
            &&& holds_text(said, " position "@ + dec(brk.position as int))
            &&& brk.segment is Some ==> holds_text(said, "\n  in:       "@ + brk.segment->0@)
            &&& has_prefix(said, painted(style, "✗"@, "31"@))
        }),
{
    let mark = painted(style, "✗"@, "31"@);
    let n = dec(brk.position as int);
    let place = match brk.segment {
        Some(s) => s@,
        None => "the live audit.log"@,
    };
    let top = mark + " chain broken at position "@ + n;
    let inside = "\n  in:       "@ + place;
    let e = "\n  expected: "@;
    let a = "\n  actual:   "@;
    let hashes = e + brk.expected@ + a + brk.actual@ + "\n"@;
    let said = verdict_text(ChainStatus::Broken(brk), style);
    lemma_in_two(top, "\n  in:       "@, place);
    let head = top + inside;
    lemma_in_two(head, e, brk.expected@);
    lemma_in_two(head, e + brk.expected@, a);
    lemma_in_two(head, e + brk.expected@ + a, brk.actual@);
    lemma_in_two(head, e + brk.expected@ + a + brk.actual@, "\n"@);
    assert(said == head + hashes);
    lemma_ends(head, hashes);
    lemma_holds_last(top, inside);
    lemma_holds_more(head, inside, hashes);
    reveal_strlit(" chain broken at position ");
    reveal_strlit(" position ");
    let cut = " chain broken at position "@.take(16);
    assert(" chain broken at position "@ =~= cut + " position "@);
    let part = " position "@ + n;
    assert(top =~= (mark + cut) + part);
    lemma_holds_last(mark + cut, part);
    lemma_holds_more(top, part, inside);
    lemma_holds_more(head, part, hashes);
    assert(said =~= mark + (" chain broken at position "@ + n + inside + hashes));
    lemma_ends(mark, " chain broken at position "@ + n + inside + hashes);
}

/// A chain that is intact since a rotation says since when, how many entries lie
/// before it and where they were.
pub proof fn what_lies_before_a_rotation_is_told(
    since_ts: String,
    segment: String,
    entries_before: u64,
    segment_present: bool,
    style: Style,
)
    ensures
        ({
            let said = verdict_text(
                ChainStatus::IntactSinceRotation {
                    since_ts,
                    segment,
                    entries_before,
                    segment_present,
                },
                style,
            );
            &&& holds_text(said, " since "@ + since_ts@ + "\n"@)
            &&& holds_text(
                said,
                dec(entries_before as int) + " earlier entries lived in "@ + segment@ + "\n"@,
            )
            &&& has_prefix(said, painted(style, "✓"@, "32"@))
        }),
{
    let ok = painted(style, "✓"@, "32"@);
    let n = dec(entries_before as int);
    let lived = n + " earlier entries lived in "@ + segment@ + "\n"@;
    let end = if segment_present {
        "  that segment is on disk and was not walked — re-run with --full\n"@
    } else {
        "  that segment is gone: retention, or evidence removed. The chain\n  cannot tell those apart — only that the seam explaining it survived\n"@
    };
    let since = " since "@ + since_ts@ + "\n"@;
    let top = ok + " chain intact since "@ + since_ts@ + "\n  "@;
    lemma_since(ok, since_ts@);
    lemma_in_two(top, n, " earlier entries lived in "@);
    lemma_in_two(top, n + " earlier entries lived in "@, segment@);
    lemma_in_two(top, n + " earlier entries lived in "@ + segment@, "\n"@);
    lemma_holds_last(top, lived);
    lemma_holds_more(top + lived, lived, end);
    lemma_holds_more(top, since, lived);
    lemma_holds_more(top + lived, since, end);
    lemma_in_two(top, lived, end);
    lemma_in_two(ok, " chain intact since "@, since_ts@);
    lemma_in_two(ok, " chain intact since "@ + since_ts@, "\n  "@);
    lemma_in_two(ok, " chain intact since "@ + since_ts@ + "\n  "@, lived + end);
    lemma_ends(ok, " chain intact since "@ + since_ts@ + "\n  "@ + (lived + end));
}

proof fn lemma_since(ok: Seq<char>, ts: Seq<char>)
    ensures
        holds_text(ok + " chain intact since "@ + ts + "\n  "@, " since "@ + ts + "\n"@),
{
    reveal_strlit(" chain intact since ");
    reveal_strlit(" since ");
    reveal_strlit("\n  ");
    reveal_strlit("\n");
    let cut = " chain intact since "@.take(13);
    let gap = "\n  "@.skip(1);
    let part = " since "@ + ts + "\n"@;
    let top = ok + " chain intact since "@ + ts + "\n  "@;
    assert(" chain intact since "@ =~= cut + " since "@);
    assert("\n  "@ =~= "\n"@ + gap);
    assert(top =~= (ok + cut) + part + gap);
    lemma_holds_part(top, ok + cut, part, gap);
}

/// A truncation that nothing explains says which hash is orphaned.
pub proof fn an_orphaned_hash_is_told(orphan: String, style: Style)
    ensures
        ({
            let said = verdict_text(
                ChainStatus::UnexplainedTruncation { orphan_prev_hash: orphan },
                style,
            );
            &&& holds_text(said, "links to "@ + orphan@)
            &&& has_prefix(said, painted(style, "✗"@, "31"@))
        }),
{
    let bad = painted(style, "✗"@, "31"@);
    let lead =
        " unexplained truncation — the head of the log was removed\n  the oldest entry links to "@;
    let tail =
        ", and nothing accounts for it\n  no seam survived, so this was not a rotation\n"@;
    let before = lead.take(lead.len() - 9);
    assert(lead =~= before + "links to "@) by {
        reveal_strlit(
            " unexplained truncation — the head of the log was removed\n  the oldest entry links to ",
        );
        reveal_strlit("links to ");
    }
    let part = "links to "@ + orphan@;
    lemma_in_two(bad, before, "links to "@);
    lemma_in_two(bad + before, "links to "@, orphan@);
    lemma_holds_part(bad + lead + orphan@ + tail, bad + before, part, tail);
    lemma_in_two(bad, lead, orphan@);
    lemma_in_two(bad, lead + orphan@, tail);
    lemma_ends(bad, lead + orphan@ + tail);
}

/// Below the verdict stand the file, how much was looked at, and every segment
/// that is on disk, each behind its own label.
pub proof fn a_report_says_what_was_looked_at(
    path: Seq<char>,
    full: bool,
    status: ChainStatus,
    segments: Seq<String>,
    style: Style,
    i: int,
)
    ensures
        ({
            let said = report_text(path, full, status, segments, style);
            &&& has_prefix(said, verdict_text(status, style))
            &&& holds_text(said, "  file:     "@ + path + "\n  scope:    "@ + scope_text(full))
            &&& has_suffix(said, "\n  segments: "@ + segments_text(segments) + "\n"@)
            &&& 0 <= i < segments.len() ==> holds_text(said, segments[i]@)
        }),
{
    let v = verdict_text(status, style);
    let middle = "  file:     "@ + path + "\n  scope:    "@ + scope_text(full);
    let end = "\n  segments: "@ + segments_text(segments) + "\n"@;
    let said = report_text(path, full, status, segments, style);
    lemma_in_two(v, "  file:     "@, path);
    lemma_in_two(v, "  file:     "@ + path, "\n  scope:    "@);
    lemma_in_two(v, "  file:     "@ + path + "\n  scope:    "@, scope_text(full));
    lemma_in_two(v + middle, "\n  segments: "@, segments_text(segments));
    lemma_in_two(v + middle, "\n  segments: "@ + segments_text(segments), "\n"@);
    assert(said == v + middle + end);
    lemma_ends(v + middle, end);
    lemma_holds_part(said, v, middle, end);
    lemma_in_two(v, middle, end);
    lemma_ends(v, middle + end);
    if 0 <= i < segments.len() {
        let list = joined(views(segments), ", "@);
        let count = dec(segments.len() as int) + " on disk ("@;
        lemma_joined_holds(views(segments), ", "@, i);
        lemma_holds_part(segments_text(segments), count, list, ")"@);
        lemma_holds_through(segments_text(segments), list, segments[i]@);
        lemma_holds_part(end, "\n  segments: "@, segments_text(segments), "\n"@);
        lemma_holds_through(end, segments_text(segments), segments[i]@);
        lemma_holds_last(v + middle, end);
        lemma_holds_through(said, end, segments[i]@);
    }
}

/// Color is all that a style adds: with it off a text is as it is, and with it on
/// the text is still all there.
pub proof fn a_style_adds_only_color(text: Seq<char>, code: Seq<char>)
    ensures
        painted(Style { enabled: false }, text, code) == text,
        holds_text(painted(Style { enabled: true }, text, code), text),
{
    let lead = "\x1b[1;"@ + code + "m"@;
    lemma_holds_part(lead + text + "\x1b[0m"@, lead, text, "\x1b[0m"@);
}

/// A verdict on every segment says that it is full, and one on the live file that
/// it is of the current segment.
pub proof fn a_scope_says_how_much_was_checked()
    ensures
        has_prefix(scope_text(true), "full"@),
        has_prefix(scope_text(false), "current segment"@),
{
    reveal_strlit("full");
    reveal_strlit("current segment");
    reveal_strlit("full — following seams back through every segment on disk");
    reveal_strlit("current segment — the live audit.log only");
    assert(scope_text(true).subrange(0, 4) =~= "full"@);
    assert(scope_text(false).subrange(0, 15) =~= "current segment"@);
}

} // verus!
