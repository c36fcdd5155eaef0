use dotagent::audit::{
    envelope, is_trustworthy, render, scope_label, verify, ChainBreak, ChainStatus, Style,
};
use serde_json::Value;

fn broken() -> ChainStatus {
    ChainStatus::Broken(ChainBreak {
        position: 42,
        expected: "aaaa".into(),
        actual: "bbbb".into(),
        segment: Some("audit.log.20260806T101500".into()),
    })
}

fn rotated(segment_present: bool) -> ChainStatus {
    ChainStatus::IntactSinceRotation {
        since_ts: "2026-05-19T08:31:07-0300".into(),
        segment: "audit.log.20260806T101500".into(),
        entries_before: 38513,
        segment_present,
    }
}

#[test]
fn only_the_two_intact_verdicts_exit_zero() {
    assert!(is_trustworthy(&ChainStatus::IntactFromGenesis));
    assert!(is_trustworthy(&rotated(false)));
    assert!(!is_trustworthy(&broken()));
    assert!(!is_trustworthy(&ChainStatus::UnexplainedTruncation { orphan_prev_hash: "cccc".into() }));
}

#[test]
fn a_break_names_the_position_the_segment_and_both_hashes() {
    let out = render("/x/audit.log", true, &broken(), &[], Style::plain());
    assert!(out.contains("broken at position 42"), "{out}");
    assert!(out.contains("audit.log.20260806T101500"), "{out}");
    assert!(out.contains("aaaa") && out.contains("bbbb"), "{out}");
}

#[test]
fn a_break_in_the_live_file_says_so_instead_of_printing_none() {
    let status = ChainStatus::Broken(ChainBreak {
        position: 1,
        expected: "aaaa".into(),
        actual: "bbbb".into(),
        segment: None,
    });
    let out = render("/x/audit.log", false, &status, &[], Style::plain());
    assert!(out.contains("the live audit.log"), "{out}");
    assert!(!out.contains("None"), "{out}");
}

#[test]
fn a_missing_segment_is_described_as_indistinguishable_not_as_fine() {
    let out = render("/x/audit.log", true, &rotated(false), &[], Style::plain());
    assert!(out.contains("38513 earlier entries"), "{out}");
    assert!(out.contains("evidence removed"), "{out}");

    // Present but unwalked is a different sentence: it points at --full.
    let out = render("/x/audit.log", false, &rotated(true), &[], Style::plain());
    assert!(out.contains("--full"), "{out}");
}

#[test]
fn truncation_names_the_orphan_hash() {
    let status = ChainStatus::UnexplainedTruncation { orphan_prev_hash: "c8d2beef".into() };
    let out = render("/x/audit.log", true, &status, &[], Style::plain());
    assert!(out.contains("c8d2beef"), "{out}");
    assert!(out.contains("not a rotation"), "{out}");
}

#[test]
fn the_footer_always_names_the_file_the_scope_and_the_segments() {
    let segs = vec!["audit.log.20260806T101500".to_string()];
    let out = render(
        "/x/audit.log",
        false,
        &ChainStatus::IntactFromGenesis,
        &segs,
        Style::plain(),
    );
    assert!(out.contains("file:     /x/audit.log"), "{out}");
    assert!(out.contains("current segment"), "{out}");
    assert!(out.contains("1 on disk"), "{out}");

    let out = render(
        "/x/audit.log",
        true,
        &ChainStatus::IntactFromGenesis,
        &[],
        Style::plain(),
    );
    assert!(out.contains("never rotated"), "{out}");
    assert!(out.contains("full —"), "{out}");
    assert_ne!(scope_label(true), scope_label(false));
}

#[test]
fn plain_style_emits_no_escape_sequences() {
    for status in [
        ChainStatus::IntactFromGenesis,
        rotated(true),
        broken(),
        ChainStatus::UnexplainedTruncation { orphan_prev_hash: "c".into() },
    ] {
        let out = render("/x/audit.log", false, &status, &[], Style::plain());
        assert!(!out.contains('\x1b'), "{out}");
    }
}

#[test]
fn the_json_envelope_locks_the_schema() {
    let segs = vec!["audit.log.20260806T101500".to_string()];
    let e = envelope("/x/audit.log", true, &rotated(false), &segs);
    assert_eq!(e["status"], "intact_since_rotation");
    assert_eq!(e["ok"], true);
    assert_eq!(e["scope"], "full");
    assert_eq!(e["file"], "/x/audit.log");
    assert_eq!(e["segments"][0], "audit.log.20260806T101500");
    assert_eq!(e["entries_before"], 38513);
    assert_eq!(e["segment_present"], false);

    let e = envelope("/x/audit.log", false, &broken(), &[]);
    assert_eq!(e["status"], "broken");
    assert_eq!(e["ok"], false);
    assert_eq!(e["scope"], "current_segment");
    assert_eq!(e["position"], 42);
    assert_eq!(e["expected"], "aaaa");
    assert_eq!(e["actual"], "bbbb");

    // Round-trips through the same path `verify` prints.
    let raw = serde_json::to_string(&e).unwrap();
    assert_eq!(serde_json::from_str::<Value>(&raw).unwrap(), e);
}

#[test]
fn every_verdict_serializes_with_a_status_and_an_ok_flag() {
    for status in [
        ChainStatus::IntactFromGenesis,
        rotated(true),
        broken(),
        ChainStatus::UnexplainedTruncation { orphan_prev_hash: "c".into() },
    ] {
        let e = envelope("/x/audit.log", false, &status, &[]);
        assert!(e["status"].is_string());
        assert!(e["ok"].is_boolean());
    }
}

#[test]
fn the_exit_code_is_the_verdict_in_both_forms() {
    for json in [false, true] {
        let (text, code) = verify("/x", false, &broken(), &[], json, Style::plain());
        assert_eq!(code, 1);
        assert!(text.contains("42"), "{text}");
        let (_, code) = verify("/x", false, &ChainStatus::IntactFromGenesis, &[], json, Style::plain());
        assert_eq!(code, 0);
    }
}

#[test]
fn color_needs_a_terminal_and_no_refusal() {
    assert!(Style::detect(true, false).enabled);
    assert!(!Style::detect(true, true).enabled);
    assert!(!Style::detect(false, false).enabled);
    let s = Style::detect(true, false);
    assert_eq!(s.ok("x"), "\x1b[1;32mx\x1b[0m");
    assert_eq!(s.bad("x"), "\x1b[1;31mx\x1b[0m");
}
