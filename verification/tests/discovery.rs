use dotagent::discovery::{
    agent_names, discover, find_by_name, join_path, plan_run, plan_run_now, schedule_by_id,
    search_roots, unknown_trigger_agent, Discovery, ManifestLoad, ScanEntry,
};
use dotagent::manifest::{AgentManifest, Lifecycle, ScheduleDecl};

fn manifest(name: &str) -> AgentManifest {
    AgentManifest {
        name: name.into(),
        tool: format!("run-{name}"),
        description: None,
        monitor: true,
        schedules: Vec::new(),
        preflight: Vec::new(),
        on_success: Vec::new(),
        on_failure: Vec::new(),
        notifiers: Vec::new(),
        lifecycle: Lifecycle {
            persistent: false,
            key: None,
            max_instances: 1,
            idle_timeout_seconds: 60,
            max_invocations: 0,
        },
        security_explicit: true,
        memory: None,
        assistant: None,
    }
}

fn loaded(dir: &str, name: &str) -> ScanEntry {
    ScanEntry { dir: dir.into(), load: ManifestLoad::Loaded(manifest(name)) }
}

fn failed(dir: &str, error: &str) -> ScanEntry {
    ScanEntry { dir: dir.into(), load: ManifestLoad::Failed(error.into()) }
}

fn names(d: &Discovery) -> Vec<&str> {
    d.agents.iter().map(|a| a.manifest.name.as_str()).collect()
}

#[test]
fn one_broken_manifest_does_not_hide_the_healthy_ones() {
    let found = discover(vec![
        loaded("/r/a", "a"),
        failed("/r/b", "expected `=`"),
        loaded("/r/c", "c"),
    ]);
    assert_eq!(names(&found), vec!["a", "c"]);
    assert_eq!(found.invalid.len(), 1);
}

#[test]
fn a_manifest_that_fails_validation_counts_as_invalid() {
    let found = discover(vec![failed("/r/a", "validation: name is empty")]);
    assert!(found.agents.is_empty());
    assert_eq!(found.invalid.len(), 1);
}

#[test]
fn invalid_entry_carries_path_and_a_readable_error() {
    let found = discover(vec![failed("/r/broken", "expected `=`")]);
    assert_eq!(found.invalid[0].path, "/r/broken/agent.toml");
    assert!(!found.invalid[0].error.is_empty());
}

#[test]
fn all_broken_yields_no_agents_but_a_populated_error_list() {
    let found = discover(vec![failed("/r/a", "x"), failed("/r/b", "y")]);
    assert!(found.agents.is_empty());
    assert_eq!(found.invalid.len(), 2);
}

#[test]
fn empty_root_is_not_an_error() {
    let found = discover(Vec::new());
    assert!(found.agents.is_empty());
    assert!(found.invalid.is_empty());
}

#[test]
fn directories_without_a_manifest_are_skipped_silently() {
    let found = discover(vec![
        ScanEntry { dir: "/r/empty".into(), load: ManifestLoad::Absent },
        loaded("/r/a", "a"),
    ]);
    assert_eq!(names(&found), vec!["a"]);
    assert!(found.invalid.is_empty());
}

#[test]
fn duplicate_names_keep_the_first_and_do_not_error() {
    let found = discover(vec![loaded("/r/one", "dup"), loaded("/r/two", "dup")]);
    assert_eq!(names(&found), vec!["dup"]);
    assert_eq!(found.agents[0].dir, "/r/one");
    assert!(found.invalid.is_empty());
}

#[test]
fn a_missing_name_points_at_what_failed_to_load() {
    let healthy = discover(vec![loaded("/r/a", "a")]);
    assert!(find_by_name(&healthy, "a").is_ok());
    assert_eq!(find_by_name(&healthy, "b").unwrap_err(), "agent not found: b");
    let broken = discover(vec![failed("/r/b", "x")]);
    assert_eq!(
        find_by_name(&broken, "b").unwrap_err(),
        "agent not found: b (1 manifest(s) failed to load and may be the one you meant: /r/b/agent.toml)"
    );
}

#[test]
fn roots_come_in_order_and_empty_parts_are_dropped() {
    assert_eq!(
        search_roots(Some("/x::/y"), "/home/agents", Some("/cwd")),
        vec!["/x", "/y", "/home/agents", "/cwd/agents", "/cwd"]
    );
    assert_eq!(search_roots(None, "/home/agents", None), vec!["/home/agents"]);
    assert_eq!(join_path("/a/", "b"), "/a/b");
}

#[test]
fn a_run_uses_the_named_schedule_or_the_first_or_none() {
    let mut m = manifest("a");
    let more = vec!["x".to_string()];
    let none = plan_run(&m, &None, &more, "trigger").unwrap();
    assert_eq!((none.schedule_id.as_str(), none.args), ("trigger", more.clone()));
    assert!(plan_run_now("a", &m, &None).unwrap_err().contains("declares no schedules"));
    for (id, arg) in [("morning", "-m"), ("night", "-n")] {
        m.schedules.push(ScheduleDecl { id: id.into(), args: vec![arg.into()] });
    }
    let first = plan_run(&m, &None, &more, "trigger").unwrap();
    assert_eq!(first.schedule_id, "morning");
    assert_eq!(first.args, vec!["-m".to_string(), "x".to_string()]);
    let named = plan_run_now("a", &m, &Some("night".into())).unwrap();
    assert_eq!(named.args, vec!["-n".to_string()]);
    assert_eq!(
        schedule_by_id(&m, "noon").unwrap_err(),
        "schedule id not found: noon"
    );
    assert!(unknown_trigger_agent("ghost").contains("ghost"));
}

#[test]
fn agent_names_are_sorted_for_a_shell() {
    let found = discover(vec![loaded("/r/1", "b"), loaded("/r/2", "a"), loaded("/r/3", "b2")]);
    assert_eq!(agent_names(&found.agents), vec!["a", "b", "b2"]);
}
