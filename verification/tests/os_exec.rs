use dotagent::os_exec::{
    cap, confirmation_prompt, finish_run, is_confirmation, parse_bang, refusal, refusal_typed,
    run_allowed, split_tokens, Confirmations, OsDecision, RunStep,
};
use dotagent::process::ProcessEnd;

const SECOND: u128 = 1_000_000_000;

fn v(args: &[&str]) -> Vec<String> {
    args.iter().map(|s| s.to_string()).collect()
}

#[test]
fn a_bang_line_splits_into_a_binary_and_arguments() {
    assert_eq!(parse_bang("!ls -la"), Some(("ls".into(), v(&["-la"]))));
    assert_eq!(parse_bang("! ls -la"), Some(("ls".into(), v(&["-la"]))));
    assert_eq!(parse_bang("!   ls"), Some(("ls".into(), v(&[]))));
}

#[test]
fn text_without_the_prefix_is_not_a_bang_line() {
    assert_eq!(parse_bang("ls -la"), None);
    assert_eq!(parse_bang("what does ! mean"), None);
    assert_eq!(parse_bang(""), None);
}

#[test]
fn a_bare_bang_is_not_a_command() {
    assert_eq!(parse_bang("!"), None);
    assert_eq!(parse_bang("!   "), None);
}

#[test]
fn quotes_hold_a_phrase_together() {
    assert_eq!(
        parse_bang(r#"!rg "hello world" src"#),
        Some(("rg".into(), v(&["hello world", "src"])))
    );
    assert_eq!(
        parse_bang("!rg 'hello world'"),
        Some(("rg".into(), v(&["hello world"])))
    );
}

#[test]
fn an_empty_quoted_argument_survives() {
    assert_eq!(
        parse_bang(r#"!rg "" x"#),
        Some(("rg".into(), v(&["", "x"])))
    );
}

#[test]
fn shell_operators_are_ordinary_characters() {
    assert_eq!(
        parse_bang("!rg foo && rm -rf /"),
        Some(("rg".into(), v(&["foo", "&&", "rm", "-rf", "/"])))
    );
    assert_eq!(
        parse_bang("!echo hi | sh"),
        Some(("echo".into(), v(&["hi", "|", "sh"])))
    );
    assert_eq!(
        parse_bang("!echo $(whoami)"),
        Some(("echo".into(), v(&["$(whoami)"])))
    );
}

#[test]
fn a_semicolon_does_not_start_a_second_command() {
    assert_eq!(
        parse_bang("!ls; rm x"),
        Some(("ls;".into(), v(&["rm", "x"])))
    );
}

#[test]
fn only_a_bare_double_bang_confirms() {
    assert!(is_confirmation("!!"));
    assert!(is_confirmation("  !!  "));
    assert!(!is_confirmation("!!rm"));
    assert!(!is_confirmation("!! rm"));
    assert!(!is_confirmation("sim"));
    assert!(!is_confirmation("yes"));
    assert!(!is_confirmation("!"));
    assert!(!is_confirmation(""));
}

#[test]
fn a_parked_command_comes_back_once() {
    let mut c = Confirmations::default();
    c.park("chat-1", "rm", &v(&["-rf", "/tmp/x"]), 5 * SECOND);
    let taken = c.take("chat-1", 120, 6 * SECOND).expect("should be pending");
    assert_eq!(taken.0, "rm");
    assert_eq!(taken.1, v(&["-rf", "/tmp/x"]));
    // Taken means gone: a second `!!` must not re-run it.
    assert!(c.take("chat-1", 120, 6 * SECOND).is_none());
}

#[test]
fn a_confirmation_cannot_cross_conversations() {
    let mut c = Confirmations::default();
    c.park("chat-1", "rm", &v(&["/tmp/x"]), 0);
    assert!(c.take("chat-2", 120, 1).is_none());
    assert!(c.take("chat-1", 120, 1).is_some());
}

#[test]
fn an_expired_confirmation_is_not_answerable() {
    let mut c = Confirmations::default();
    c.park("chat-1", "rm", &v(&["/tmp/x"]), 10);
    // Zero ttl: anything already parked is older than that.
    assert!(c.take("chat-1", 0, 11).is_none());
}

#[test]
fn a_confirmation_is_answerable_up_to_its_last_nanosecond() {
    let mut c = Confirmations::default();
    c.park("s", "rm", &v(&[]), 7);
    assert!(c.take("s", 2, 7 + 2 * SECOND).is_some());
    c.park("s", "rm", &v(&[]), 7);
    assert!(c.take("s", 2, 8 + 2 * SECOND).is_none());
    // An expired command is gone all the same.
    assert!(c.take("s", 1000, 8 + 2 * SECOND).is_none());
}

#[test]
fn parking_again_replaces_rather_than_queues() {
    let mut c = Confirmations::default();
    c.park("chat-1", "rm", &v(&["/tmp/first"]), 0);
    c.park("chat-1", "rm", &v(&["/tmp/second"]), 0);
    let (_, args) = c.take("chat-1", 120, 0).unwrap();
    assert_eq!(args, v(&["/tmp/second"]));
    assert!(c.take("chat-1", 120, 0).is_none());
}

#[test]
fn the_prompt_quotes_the_command_it_will_run() {
    let p = confirmation_prompt("rm", &v(&["-rf", "/tmp/x"]), 120);
    assert!(p.contains("rm -rf /tmp/x"));
    assert!(p.contains("!!"));
    assert!(p.contains("120"));
}

#[test]
fn cap_marks_what_it_removed() {
    let long = "x".repeat(100);
    let out = cap(&long, 10);
    assert!(out.starts_with("xxxxxxxxxx"));
    assert!(out.contains("truncated"));
    assert_eq!(out, "xxxxxxxxxx\n… truncated at 10 bytes.");
}

#[test]
fn cap_leaves_short_output_alone() {
    assert_eq!(cap("hi", 10), "hi");
}

#[test]
fn cap_does_not_split_a_multibyte_character() {
    let s = "áááááá";
    let out = cap(s, 5);
    assert!(out.contains("truncated"));
    assert!(out.starts_with("áá\n"));
}

#[test]
fn a_mixed_quote_stays_in_its_token() {
    assert_eq!(split_tokens("a'b c'd \"e'f\""), v(&["ab cd", "e'f"]));
    assert_eq!(split_tokens("   "), v(&[]));
}

#[test]
fn the_two_refusals_name_the_binary() {
    assert!(refusal("rm").contains("rm"));
    assert!(refusal_typed("rm").contains("rm"));
}

#[test]
fn a_denied_binary_never_reaches_a_child() {
    match run_allowed(OsDecision::Deny, "rm", &v(&["x"]), 30, "no".to_string()) {
        RunStep::Refused(o) => {
            assert_eq!(o.text, "no");
            assert!(o.is_error);
        }
        RunStep::Spawn(_) => panic!("a denied binary was spawned"),
    }
    match run_allowed(OsDecision::Allow, "ls", &v(&["-l"]), 30, "no".to_string()) {
        RunStep::Spawn(s) => {
            assert_eq!(s.program, "ls");
            assert_eq!(s.args, v(&["-l"]));
            assert_eq!(s.deadline_seconds, 30);
        }
        RunStep::Refused(_) => panic!("an allowed binary was refused"),
    }
}

#[test]
fn every_way_a_command_ends_is_told_apart() {
    let args = v(&["-l"]);
    let (o, entry) = finish_run(
        "ls",
        &args,
        ProcessEnd::Finished { code: Some(0), stdout: "a\n".into(), stderr: "".into() },
    );
    assert!(!o.is_error);
    assert!(o.text.contains('a'));
    assert_eq!(entry.unwrap().exit_code, 0);

    let (o, entry) = finish_run(
        "ls",
        &args,
        ProcessEnd::Finished { code: None, stdout: "".into(), stderr: "boom".into() },
    );
    assert!(o.is_error);
    assert_eq!(entry.unwrap().exit_code, -1);

    let (o, entry) = finish_run("ls", &args, ProcessEnd::TimedOut { seconds: 9 });
    assert!(o.is_error && o.text.contains('9'));
    assert!(entry.unwrap().timed_out);

    let (o, entry) = finish_run("ls", &args, ProcessEnd::NotStarted { error: "ENOENT".into() });
    assert!(o.is_error && o.text.contains("ENOENT"));
    assert!(entry.is_none());

    let (o, _) = finish_run("ls", &args, ProcessEnd::Failed { error: "EIO".into() });
    assert!(o.is_error && o.text.contains("EIO"));
}
