use dotagent::outcome::{OrchestratedOutcome, RunOutcome};
use dotagent::output::{
    build_envelope, foreground_report, print_block, render_outcome, tick_line, Color, Format, Style,
};

fn no_color_style() -> Style {
    Style { enabled: false }
}

fn failed() -> OrchestratedOutcome {
    OrchestratedOutcome::Ran(RunOutcome {
        exit_code: 1,
        timed_out: false,
        duration_seconds: 12,
        stdout_tail: String::new(),
        stderr_tail: "boom".into(),
        stdout_truncated_lines: 0,
        stderr_truncated_lines: 200,
    })
}

fn blocked() -> OrchestratedOutcome {
    OrchestratedOutcome::PreflightFailed {
        plugin: "preflight-warp".into(),
        suggest: Some("install warp first".into()),
    }
}

#[test]
fn paint_disabled_returns_plain_text() {
    let s = no_color_style();
    assert_eq!(s.paint("hello", Color::Red, true), "hello");
    assert_eq!(s.dim("hello"), "hello");
}

#[test]
fn paint_enabled_wraps_with_ansi() {
    let s = Style { enabled: true };
    assert!(s.paint("hello", Color::Red, true).contains("\x1b[1;31m"));
    assert!(s.dim("hello").starts_with("\x1b[2m"));
}

#[test]
fn json_envelope_for_ran_locks_the_schema() {
    let outcome = failed();
    let envelope = build_envelope("smoke", "morning", &outcome, 13);

    // Top-level envelope
    assert_eq!(envelope["agent"], "smoke");
    assert_eq!(envelope["schedule"], "morning");
    assert_eq!(envelope["wall_duration_seconds"], 13);
    assert!(envelope.get("duration_seconds").is_none());

    // Result block
    let result = &envelope["result"];
    assert_eq!(result["kind"], "ran");
    assert_eq!(result["exit_code"], 1);
    assert_eq!(result["timed_out"], false);
    assert_eq!(result["duration_seconds"], 12);
    assert_eq!(result["stderr_tail"], "boom");
    assert_eq!(result["stderr_truncated_lines"], 200);
    assert_eq!(result["stdout_truncated_lines"], 0);

    let serialized = serde_json::to_string(&envelope).expect("must serialize");
    let reparsed: serde_json::Value = serde_json::from_str(&serialized).unwrap();
    assert_eq!(reparsed, envelope);
}

#[test]
fn json_envelope_for_preflight_failed_includes_plugin_and_suggest() {
    let envelope = build_envelope("smoke", "morning", &blocked(), 0);
    assert_eq!(envelope["result"]["kind"], "preflight_failed");
    assert_eq!(envelope["result"]["plugin"], "preflight-warp");
    assert_eq!(envelope["result"]["suggest"], "install warp first");
}

#[test]
fn both_formats_tell_the_same_outcome() {
    let style = no_color_style();
    let human = render_outcome("smoke", "morning", &failed(), 13, Format::Human, &style, "/logs");
    assert!(human.contains("smoke") && human.contains("boom"), "{human}");
    assert!(!human.contains('\x1b'), "{human}");
    let json = render_outcome("smoke", "morning", &failed(), 13, Format::Json, &style, "/logs");
    let back: serde_json::Value = serde_json::from_str(&json).unwrap();
    assert_eq!(back, build_envelope("smoke", "morning", &failed(), 13));
    let human = render_outcome("smoke", "morning", &blocked(), 0, Format::Human, &style, "/logs");
    assert!(human.contains("preflight-warp") && human.contains("install warp first"), "{human}");
    assert_eq!(Format::default(), Format::Human);
}

#[test]
fn a_foreground_run_exits_as_the_agent_did() {
    assert_eq!(foreground_report("smoke", "morning", &failed()).exit_code, 1);
    let r = foreground_report("smoke", "morning", &blocked());
    assert_ne!(r.exit_code, 0);
    assert!(r.stderr.contains("preflight-warp") || r.stdout.contains("preflight-warp"));
}

#[test]
fn a_block_is_indented_line_by_line() {
    assert_eq!(print_block("a"), "  a\n");
    assert_eq!(print_block("a\n\nb\n"), "  a\n  \n  b\n");
    assert_eq!(print_block(""), "");
}

#[test]
fn a_tick_says_what_it_did() {
    let line = tick_line(true, 5, 2, &None);
    assert!(line.contains('5') && line.contains('2'), "{line}");
    let line = tick_line(false, 5, 2, &Some("2026-05-19T08:00".into()));
    assert!(line.contains("2026-05-19T08:00"), "{line}");
}
