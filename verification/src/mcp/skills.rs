//! Skills: written procedures, the files beside them and the scripts they
//! package.

use crate::json::{JsonView, json_view, text_member};
use crate::mcp::remediation::{ended_well, recorded_code};
use crate::mcp::rpc::skill_claims;
use crate::mcp::tools::{is_first, resolve_skill, skill_tool_names};
use crate::mcp::{
    CallToolResult, SKILL_BODY_MAX_BYTES, SKILL_FILE_MAX_BYTES, SKILL_OUTPUT_MAX_BYTES, cap,
    capped, says, str_arg, string_array, string_list, text_arg,
};
use crate::process::{ProcessEnd, SpawnRequest, exit_code_of, reported_code};
use crate::text::{
    byte_len, dec, dec_i64, dec_u64, has_prefix, has_suffix, holds_text, lemma_ends,
    lemma_holds_more, lemma_holds_part, lemma_holds_through, same, starts_with, trim, trimmed,
    views,
};
use serde_json::Value;
use vstd::prelude::*;

verus! {

broadcast use vstd::string::group_string_axioms;

/// A file of a skill's directory.
#[derive(Debug, PartialEq, Eq)]
pub struct SkillFile {
    pub path: String,
    /// Whether `skill-run` would run it.
    pub runnable: bool,
}

/// An installed skill.
#[derive(Debug, PartialEq, Eq)]
pub struct Skill {
    pub name: String,
    /// The name the skill goes by in the tool catalog.
    pub tool: String,
    pub description: String,
    pub body: String,
    pub timeout_seconds: u64,
    pub files: Vec<SkillFile>,
}

// ---------------------------------------------------------------------
// Loading a procedure
// ---------------------------------------------------------------------

/// One line per file of a skill, marking what would actually run.
pub open spec fn file_lines(files: Seq<SkillFile>) -> Seq<char>
    decreases files.len(),
{
    if files.len() == 0 {
        Seq::empty()
    } else {
        let f = files.last();
        let line = file_lines(files.drop_last()) + "  "@ + f.path@;
        (if f.runnable {
            line + "  (executable — run with skill-run)"@
        } else {
            line
        }) + "\n"@
    }
}

/// What loading a skill returns: the procedure, and an index of what sits next
/// to it.
pub open spec fn skill_text(s: Skill) -> Seq<char> {
    let body = capped(s.body@, SKILL_BODY_MAX_BYTES as nat);
    if s.files@.len() == 0 {
        body
    } else {
        body + "\n\n---\nFiles in this skill (fetch with skill-read, passing skill=\""@ + s.name@
            + "\"):\n"@ + file_lines(s.files@)
    }
}

/// Return the procedure, followed by an index of what sits next to it. Without
/// the index, a procedure that says "see references/x.md" is a dead end for a
/// caller with no filesystem tool.
pub fn load_skill(skill: &Skill) -> (r: CallToolResult)
    ensures
        says(r, skill_text(*skill), false),
{
    let mut body = cap(skill.body.as_str(), SKILL_BODY_MAX_BYTES);
    if skill.files.len() > 0 {
        body.append("\n\n---\nFiles in this skill (fetch with skill-read, passing skill=\"");
        body.append(skill.name.as_str());
        body.append("\"):\n");
        let mut lines = String::new();
        let mut i: usize = 0;
        proof {
            assert(skill.files@.take(0) =~= Seq::<SkillFile>::empty());
        }
        while i < skill.files.len()
            invariant
                i <= skill.files@.len(),
                lines@ == file_lines(skill.files@.take(i as int)),
            decreases skill.files@.len() - i,
        {
            proof {
                assert(skill.files@.take(i as int + 1).drop_last() =~= skill.files@.take(i as int));
            }
            lines.append("  ");
            lines.append(skill.files[i].path.as_str());
            if skill.files[i].runnable {
                lines.append("  (executable — run with skill-run)");
            }
            lines.append("\n");
            i = i + 1;
        }
        proof {
            assert(skill.files@.take(skill.files@.len() as int) =~= skill.files@);
        }
        body.append(lines.as_str());
    }
    CallToolResult { text: body, is_error: false }
}

// ---------------------------------------------------------------------
// Files and scripts
// ---------------------------------------------------------------------

/// What a call that reaches inside a skill comes to, before the skill is
/// looked up.
#[derive(Debug, PartialEq, Eq)]
pub enum Inside {
    Answer(CallToolResult),
    /// Look the skill up, resolve the path below it, and go on.
    LookUp { skill: String, path: String, args: Vec<String> },
}

/// Whether `r` is what a call with these arguments comes to. Both arguments
/// are required.
pub open spec fn looked_inside(args: JsonView, key: Seq<char>, with_args: bool, r: Inside) -> bool {
    let name = trimmed(text_arg(args, "skill"@));
    let rel = trimmed(text_arg(args, key));
    if name.len() == 0 || rel.len() == 0 {
        r matches Inside::Answer(a) && says(a, "Both skill and "@ + key + " are required."@, true)
    } else {
        r matches Inside::LookUp { skill, path, args: extra } && skill@ == name && path@ == rel
            && views(extra@) == if with_args {
            string_list(args, "args"@)
        } else {
            Seq::empty()
        }
    }
}

fn look_inside(args: &Value, key: &str, with_args: bool) -> (r: Inside)
    ensures
        looked_inside(json_view(*args), key@, with_args, r),
{
    let name = str_arg(args, "skill");
    let rel = str_arg(args, key);
    if name.as_str().is_empty() || rel.as_str().is_empty() {
        let mut text = "Both skill and ".to_owned();
        text.append(key);
        text.append(" are required.");
        return Inside::Answer(CallToolResult { text, is_error: true });
    }
    let extra = if with_args {
        string_array(args, "args")
    } else {
        Vec::new()
    };
    proof {
        if !with_args {
            assert(views(extra@) =~= Seq::<Seq<char>>::empty());
        }
    }
    Inside::LookUp { skill: name, path: rel, args: extra }
}

/// Which file `skill-read` asks for.
pub fn read_skill_file(args: &Value) -> (r: Inside)
    ensures
        looked_inside(json_view(*args), "path"@, false, r),
{
    look_inside(args, "path", false)
}

/// What reading a file of a skill came to.
#[derive(Debug, PartialEq, Eq)]
pub enum SkillRead {
    /// No such skill, or no such path inside it.
    Refused(String),
    Unreadable(String),
    Text(String),
}

/// Whether `r` is what reading a file of a skill is answered with.
pub open spec fn file_answered(rel: Seq<char>, read: SkillRead, r: CallToolResult) -> bool {
    match read {
        SkillRead::Refused(e) => says(r, e@, true),
        SkillRead::Unreadable(e) => says(r, "Could not read "@ + rel + ": "@ + e@, true),
        SkillRead::Text(t) => says(r, capped(t@, SKILL_FILE_MAX_BYTES as nat), false),
    }
}

/// What `skill-read` returns.
pub fn skill_file_text(rel: &str, read: &SkillRead) -> (r: CallToolResult)
    ensures
        file_answered(rel@, *read, r),
{
    match read {
        SkillRead::Refused(e) => CallToolResult::text(e.as_str(), true),
        SkillRead::Unreadable(e) => {
            let mut text = "Could not read ".to_owned();
            text.append(rel);
            text.append(": ");
            text.append(e.as_str());
            CallToolResult { text, is_error: true }
        },
        SkillRead::Text(t) => CallToolResult {
            text: cap(t.as_str(), SKILL_FILE_MAX_BYTES),
            is_error: false,
        },
    }
}

/// Which script `skill-run` asks for, and with which arguments.
pub fn run_skill_script(args: &Value) -> (r: Inside)
    ensures
        looked_inside(json_view(*args), "script"@, true, r),
{
    look_inside(args, "script", true)
}

/// Whether `r` starts a script of a skill.
pub open spec fn runs_script(
    skill: Skill,
    script: Seq<char>,
    rel: Seq<char>,
    args: Seq<String>,
    r: SpawnRequest,
) -> bool {
    &&& r.program@ == script
    &&& r.args@ == args
    &&& r.owner_agent@ == skill.name@
    &&& r.owner_plugin is None
    &&& r.deadline_seconds == skill.timeout_seconds
    &&& r.label@ == "skill-run:"@ + rel
}

/// The child a script runs as, under the deadline its skill declares. `script`
/// is the resolved path; arguments are a list, never a shell line.
pub fn script_request(skill: &Skill, script: &str, rel: &str, args: Vec<String>) -> (r: SpawnRequest)
    ensures
        runs_script(*skill, script@, rel@, args@, r),
{
    let mut label = "skill-run:".to_owned();
    label.append(rel);
    SpawnRequest {
        program: script.to_owned(),
        args,
        owner_agent: skill.name.clone(),
        owner_plugin: None,
        deadline_seconds: skill.timeout_seconds,
        label,
    }
}

/// Whether `env` is what a script sees of its skill.
pub open spec fn script_sees(skill: Skill, dir: Seq<char>, env: Seq<(String, String)>) -> bool {
    &&& env.len() == 2
    &&& env[0].0@ == "SKILL_NAME"@ && env[0].1@ == skill.name@
    &&& env[1].0@ == "SKILL_DIR"@ && env[1].1@ == dir
}

/// What a script sees of its skill.
pub fn script_env(skill: &Skill, dir: &str) -> (r: Vec<(String, String)>)
    ensures
        script_sees(*skill, dir@, r@),
{
    let mut out: Vec<(String, String)> = Vec::new();
    out.push(("SKILL_NAME".to_owned(), skill.name.clone()));
    out.push(("SKILL_DIR".to_owned(), dir.to_owned()));
    out
}

/// The record of a script that ran.
#[derive(Debug, PartialEq, Eq)]
pub struct SkillInvoked {
    pub skill: String,
    pub script: String,
    pub exit_code: i32,
    pub timed_out: bool,
}

/// What a model is told of a script that came to an end. On failure the error
/// stream is the part that explains.
pub open spec fn script_text(rel: Seq<char>, end: ProcessEnd) -> Seq<char> {
    match end {
        ProcessEnd::NotStarted { error } => "Could not start "@ + rel + ": "@ + error@,
        ProcessEnd::Finished { code, stdout, stderr } => if reported_code(code) == 0 {
            if trimmed(stdout@).len() == 0 {
                rel + " finished with no output."@
            } else {
                capped(trimmed(stdout@), SKILL_OUTPUT_MAX_BYTES as nat)
            }
        } else {
            rel + " exited "@ + dec(reported_code(code)) + ".\n"@ + capped(
                trimmed(stderr@),
                SKILL_OUTPUT_MAX_BYTES as nat,
            )
        },
        ProcessEnd::TimedOut { seconds } => rel + " timed out after "@ + dec(seconds as int)
            + "s and was killed."@,
        ProcessEnd::Failed { error } => rel + " could not run: "@ + error@,
    }
}

/// Whether `r` is the report of a script and the audit entry it leaves.
pub open spec fn script_finished(
    skill: Seq<char>,
    rel: Seq<char>,
    end: ProcessEnd,
    r: (CallToolResult, Option<SkillInvoked>),
) -> bool {
    &&& says(r.0, script_text(rel, end), !ended_well(end))
    &&& r.1 is Some <==> !(end is NotStarted)
    &&& r.1 matches Some(entry) ==> {
        &&& entry.skill@ == skill
        &&& entry.script@ == rel
        &&& entry.exit_code == recorded_code(end)
        &&& entry.timed_out == (end is TimedOut)
    }
}

/// Report a script, and say what goes into the audit log: everything that
/// started, since it is code executing outside any manifest.
pub fn finish_script(skill: &Skill, rel: &str, end: &ProcessEnd) -> (r: (
    CallToolResult,
    Option<SkillInvoked>,
))
    ensures
        script_finished(skill.name@, rel@, *end, r),
{
    let (text, is_error, exit_code, timed_out): (String, bool, i32, bool) = match end {
        ProcessEnd::NotStarted { error } => {
            let mut text = "Could not start ".to_owned();
            text.append(rel);
            text.append(": ");
            text.append(error.as_str());
            return (CallToolResult { text, is_error: true }, None);
        },
        ProcessEnd::Finished { code, stdout, stderr } => {
            let code: i32 = exit_code_of(*code);
            if code == 0 {
                let out = trim(stdout.as_str());
                if out.as_str().is_empty() {
                    let mut text = rel.to_owned();
                    text.append(" finished with no output.");
                    (text, false, code, false)
                } else {
                    (cap(out.as_str(), SKILL_OUTPUT_MAX_BYTES), false, code, false)
                }
            } else {
                let mut text = rel.to_owned();
                text.append(" exited ");
                text.append(dec_i64(code as i64).as_str());
                text.append(".\n");
                text.append(cap(trim(stderr.as_str()).as_str(), SKILL_OUTPUT_MAX_BYTES).as_str());
                (text, true, code, false)
            }
        },
        ProcessEnd::TimedOut { seconds } => {
            let mut text = rel.to_owned();
            text.append(" timed out after ");
            text.append(dec_u64(*seconds).as_str());
            text.append("s and was killed.");
            (text, true, -1, true)
        },
        ProcessEnd::Failed { error } => {
            let mut text = rel.to_owned();
            text.append(" could not run: ");
            text.append(error.as_str());
            (text, true, -1, false)
        },
    };
    let entry = SkillInvoked {
        skill: skill.name.clone(),
        script: rel.to_owned(),
        exit_code,
        timed_out,
    };
    (CallToolResult { text, is_error }, Some(entry))
}

// ---------------------------------------------------------------------
// Dispatch
// ---------------------------------------------------------------------

/// What a call of a skill tool comes to.
#[derive(Debug, PartialEq, Eq)]
pub enum SkillStep {
    /// Not a skill tool.
    NotMine,
    Answer(CallToolResult),
    Read { skill: String, path: String },
    Run { skill: String, script: String, args: Vec<String> },
}

/// Whether `step` is what a call of `tool` comes to.
pub open spec fn skill_called(
    tool: Seq<char>,
    args: JsonView,
    enabled: bool,
    skills: Seq<Skill>,
    step: SkillStep,
) -> bool {
    if !skill_claims(tool, enabled, skill_tool_names(skills).contains(tool)) {
        step is NotMine
    } else if tool == "skill-read"@ {
        exists|inside: Inside| #[trigger]
            looked_inside(args, "path"@, false, inside) && match inside {
                Inside::Answer(a) => step == SkillStep::Answer(a),
                Inside::LookUp { skill, path, .. } => step == (SkillStep::Read { skill, path }),
            }
    } else if tool == "skill-run"@ {
        exists|inside: Inside| #[trigger]
            looked_inside(args, "script"@, true, inside) && match inside {
                Inside::Answer(a) => step == SkillStep::Answer(a),
                Inside::LookUp { skill, path, args } => step == (SkillStep::Run {
                    skill,
                    script: path,
                    args,
                }),
            }
    } else {
        exists|i: int| #[trigger]
            is_first(skill_tool_names(skills), i) && skills[i].tool@ == tool && (
            step matches SkillStep::Answer(a) && says(a, skill_text(skills[i]), false))
    }
}

/// Serve a skill tool.
pub fn call_skill(tool: &str, args: &Value, enabled: bool, skills: &Vec<Skill>) -> (step: SkillStep)
    ensures
        skill_called(tool@, json_view(*args), enabled, skills@, step),
{
    if !starts_with(tool, "skill-") || !enabled {
        return SkillStep::NotMine;
    }
    if same(tool, "skill-read") {
        let inside = read_skill_file(args);
        return match inside {
            Inside::Answer(a) => SkillStep::Answer(a),
            Inside::LookUp { skill, path, .. } => SkillStep::Read { skill, path },
        };
    }
    if same(tool, "skill-run") {
        let inside = run_skill_script(args);
        return match inside {
            Inside::Answer(a) => SkillStep::Answer(a),
            Inside::LookUp { skill, path, args } => SkillStep::Run { skill, script: path, args },
        };
    }
    match resolve_skill(skills, tool) {
        Some(skill) => {
            proof {
                let i = choose|i: int|
                    #[trigger] is_first(skill_tool_names(skills@), i) && skills@[i].tool@ == tool@
                        && skills@[i] == *skill;
                assert(skill_tool_names(skills@)[i] == tool@);
            }
            SkillStep::Answer(load_skill(skill))
        },
        None => SkillStep::NotMine,
    }
}

// ---------------------------------------------------------------------
// Laws of a skill
// ---------------------------------------------------------------------

/// What is read or run is the path that the caller names inside the skill that
/// the caller names; a script gets the arguments of the call, in their order.
pub proof fn a_call_reaches_the_named_skill(
    args: JsonView,
    skills: Seq<Skill>,
    read: SkillStep,
    run: SkillStep,
    name: Seq<char>,
    path: Seq<char>,
    script: Seq<char>,
)
    requires
        skill_called("skill-read"@, args, true, skills, read),
        skill_called("skill-run"@, args, true, skills, run),
        text_member(args, "skill"@) == Some(name),
        text_member(args, "path"@) == Some(path),
        text_member(args, "script"@) == Some(script),
        trimmed(name).len() > 0,
    ensures
        trimmed(path).len() > 0 ==> read is Read && read->Read_skill@ == trimmed(name)
            && read->Read_path@ == trimmed(path),
        trimmed(path).len() == 0 ==> read is Answer && read->Answer_0.is_error,
        trimmed(script).len() > 0 ==> run is Run && run->Run_skill@ == trimmed(name)
            && run->Run_script@ == trimmed(script) && views(run->Run_args@) == string_list(
            args,
            "args"@,
        ),
        trimmed(script).len() == 0 ==> run is Answer && run->Answer_0.is_error,
{
    lemma_skill_tools();
    let a = choose|inside: Inside| #[trigger]
        looked_inside(args, "path"@, false, inside) && match inside {
            Inside::Answer(a) => read == SkillStep::Answer(a),
            Inside::LookUp { skill, path, .. } => read == (SkillStep::Read { skill, path }),
        };
    assert(looked_inside(args, "path"@, false, a));
    let b = choose|inside: Inside| #[trigger]
        looked_inside(args, "script"@, true, inside) && match inside {
            Inside::Answer(a) => run == SkillStep::Answer(a),
            Inside::LookUp { skill, path, args } => run == (SkillStep::Run {
                skill,
                script: path,
                args,
            }),
        };
    assert(looked_inside(args, "script"@, true, b));
}

proof fn lemma_skill_tools()
    ensures
        has_prefix("skill-read"@, "skill-"@),
        has_prefix("skill-run"@, "skill-"@),
        "skill-read"@ != "skill-run"@,
{
    reveal_strlit("skill-read");
    reveal_strlit("skill-run");
    reveal_strlit("skill-");
    assert("skill-read"@.subrange(0, 6) =~= "skill-"@);
    assert("skill-run"@.subrange(0, 6) =~= "skill-"@);
    assert("skill-read"@.len() == 10 && "skill-run"@.len() == 9);
}

proof fn lemma_file_lines(files: Seq<SkillFile>, i: int)
    requires
        0 <= i < files.len(),
    ensures
        files[i].runnable ==> holds_text(
            file_lines(files),
            "  "@ + files[i].path@ + "  (executable — run with skill-run)\n"@,
        ),
        !files[i].runnable ==> holds_text(file_lines(files), "  "@ + files[i].path@ + "\n"@),
    decreases files.len(),
{
    reveal_strlit("  (executable — run with skill-run)\n");
    reveal_strlit("  (executable — run with skill-run)");
    reveal_strlit("\n");
    let head = files.drop_last();
    let before = file_lines(head);
    let f = files.last();
    let mark = "  (executable — run with skill-run)"@;
    let all = file_lines(files);
    let none = Seq::<char>::empty();
    assert("  (executable — run with skill-run)\n"@ =~= mark + "\n"@);
    if i < head.len() {
        lemma_file_lines(head, i);
        assert(head[i] == files[i]);
        let part = if files[i].runnable {
            "  "@ + files[i].path@ + "  (executable — run with skill-run)\n"@
        } else {
            "  "@ + files[i].path@ + "\n"@
        };
        let more = if f.runnable {
            "  "@ + f.path@ + mark + "\n"@
        } else {
            "  "@ + f.path@ + "\n"@
        };
        assert(all =~= before + more);
        lemma_holds_more(before, part, more);
    } else if f.runnable {
        let part = "  "@ + f.path@ + "  (executable — run with skill-run)\n"@;
        assert(all =~= before + part + none);
        lemma_holds_part(all, before, part, none);
    } else {
        let part = "  "@ + f.path@ + "\n"@;
        assert(all =~= before + part + none);
        lemma_holds_part(all, before, part, none);
    }
}

/// A skill is given with its body first, and then every file in it, marked as
/// one to run exactly when it is one.
pub proof fn a_skill_is_given_with_its_files(s: Skill, i: int)
    requires
        0 <= i < s.files@.len(),
        byte_len(s.body@) <= SKILL_BODY_MAX_BYTES,
    ensures
        has_prefix(skill_text(s), s.body@),
        holds_text(skill_text(s), "skill=\""@ + s.name@ + "\""@),
        s.files@[i].runnable ==> holds_text(
            skill_text(s),
            "  "@ + s.files@[i].path@ + "  (executable — run with skill-run)\n"@,
        ),
        !s.files@[i].runnable ==> holds_text(skill_text(s), "  "@ + s.files@[i].path@ + "\n"@),
{
    let said = skill_text(s);
    let lead = "\n\n---\nFiles in this skill (fetch with skill-read, passing skill=\""@;
    let close = "\"):\n"@;
    let files = file_lines(s.files@);
    let none = Seq::<char>::empty();
    assert(said =~= s.body@ + (lead + s.name@ + close + files));
    lemma_ends(s.body@, lead + s.name@ + close + files);
    assert(said =~= (s.body@ + lead + s.name@ + close) + files + none);
    lemma_holds_part(said, s.body@ + lead + s.name@ + close, files, none);
    lemma_file_lines(s.files@, i);
    if s.files@[i].runnable {
        lemma_holds_through(
            said,
            files,
            "  "@ + s.files@[i].path@ + "  (executable — run with skill-run)\n"@,
        );
    } else {
        lemma_holds_through(said, files, "  "@ + s.files@[i].path@ + "\n"@);
    }
    reveal_strlit("\n\n---\nFiles in this skill (fetch with skill-read, passing skill=\"");
    reveal_strlit("skill=\"");
    reveal_strlit("\"):\n");
    reveal_strlit("\"");
    let cut = lead.len() - "skill=\""@.len();
    assert(lead =~= lead.take(cut) + "skill=\""@);
    let part = "skill=\""@ + s.name@ + "\""@;
    assert(said =~= (s.body@ + lead.take(cut)) + part + (close.skip(1) + files));
    lemma_holds_part(said, s.body@ + lead.take(cut), part, close.skip(1) + files);
}

/// What a file holds is given as it is where it fits; a file that is refused or
/// cannot be read is an error that says why.
pub proof fn a_file_is_given_as_it_is(
    rel: Seq<char>,
    text: String,
    error: String,
    given: CallToolResult,
    refused: CallToolResult,
    unreadable: CallToolResult,
)
    requires
        file_answered(rel, SkillRead::Text(text), given),
        file_answered(rel, SkillRead::Refused(error), refused),
        file_answered(rel, SkillRead::Unreadable(error), unreadable),
    ensures
        !given.is_error && refused.is_error && unreadable.is_error,
        byte_len(text@) <= SKILL_FILE_MAX_BYTES ==> given.text@ == text@,
        refused.text@ == error@,
        holds_text(unreadable.text@, rel) && has_suffix(unreadable.text@, error@),
{
    let lead = "Could not read "@;
    assert(unreadable.text@ =~= lead + rel + (": "@ + error@));
    lemma_holds_part(unreadable.text@, lead, rel, ": "@ + error@);
    lemma_ends(lead + rel + ": "@, error@);
}

/// A script is started as it was resolved, with the arguments of the call, as
/// its skill's own child and under its skill's deadline; it is told its skill's
/// name and directory.
pub proof fn a_script_runs_as_its_skills_own(
    skill: Skill,
    script: Seq<char>,
    rel: Seq<char>,
    args: Seq<String>,
    dir: Seq<char>,
    r: SpawnRequest,
    env: Seq<(String, String)>,
)
    requires
        runs_script(skill, script, rel, args, r),
        script_sees(skill, dir, env),
    ensures
        r.program@ == script,
        r.args@ == args,
        r.owner_agent@ == skill.name@ && r.deadline_seconds == skill.timeout_seconds,
        has_suffix(r.label@, rel),
        forall|i: int|
            0 <= i < env.len() ==> {
                let v = #[trigger] env[i];
                ||| v.0@ == "SKILL_NAME"@ && v.1@ == skill.name@
                ||| v.0@ == "SKILL_DIR"@ && v.1@ == dir
            },
        exists|i: int| 0 <= i < env.len() && (#[trigger] env[i]).0@ == "SKILL_NAME"@,
        exists|i: int| 0 <= i < env.len() && (#[trigger] env[i]).0@ == "SKILL_DIR"@,
{
    lemma_ends("skill-run:"@, rel);
    assert(env[0].0@ == "SKILL_NAME"@);
    assert(env[1].0@ == "SKILL_DIR"@);
}

/// A script that exits zero is answered with what it printed, whatever it wrote
/// to its error stream; any other exit is an error that gives the code and what
/// the script wrote there, whatever it printed. Both are audited with that code.
pub proof fn a_script_answers_with_the_right_stream(
    skill: Seq<char>,
    rel: Seq<char>,
    code: i32,
    stdout: String,
    stderr: String,
    r: (CallToolResult, Option<SkillInvoked>),
)
    requires
        script_finished(skill, rel, ProcessEnd::Finished { code: Some(code), stdout, stderr }, r),
    ensures
        r.0.is_error <==> code != 0,
        code == 0 && trimmed(stdout@).len() > 0 && byte_len(trimmed(stdout@))
            <= SKILL_OUTPUT_MAX_BYTES ==> r.0.text@ == trimmed(stdout@),
        code == 0 && trimmed(stdout@).len() == 0 ==> has_prefix(r.0.text@, rel),
        code != 0 ==> has_prefix(r.0.text@, rel + " exited "@ + dec(code as int) + "."@),
        code != 0 && byte_len(trimmed(stderr@)) <= SKILL_OUTPUT_MAX_BYTES ==> has_suffix(
            r.0.text@,
            "\n"@ + trimmed(stderr@),
        ),
        r.1 is Some && r.1->0.skill@ == skill && r.1->0.script@ == rel && r.1->0.exit_code == code
            && !r.1->0.timed_out,
{
    reveal_strlit(".");
    reveal_strlit("\n");
    reveal_strlit(".\n");
    assert(".\n"@ =~= "."@ + "\n"@);
    lemma_ends(rel, " finished with no output."@);
    let shown = capped(trimmed(stderr@), SKILL_OUTPUT_MAX_BYTES as nat);
    let lead = rel + " exited "@ + dec(code as int) + "."@;
    if code != 0 {
        assert(r.0.text@ =~= lead + ("\n"@ + shown));
        lemma_ends(lead, "\n"@ + shown);
    }
}

/// A script that was killed or could not run is an error that names it and says
/// after how long, or why. One that never started leaves no audit entry.
pub proof fn a_script_that_did_not_end_is_an_error(
    skill: Seq<char>,
    rel: Seq<char>,
    seconds: u64,
    error: String,
    killed: (CallToolResult, Option<SkillInvoked>),
    failed: (CallToolResult, Option<SkillInvoked>),
    unstarted: (CallToolResult, Option<SkillInvoked>),
)
    requires
        script_finished(skill, rel, ProcessEnd::TimedOut { seconds }, killed),
        script_finished(skill, rel, ProcessEnd::Failed { error }, failed),
        script_finished(skill, rel, ProcessEnd::NotStarted { error }, unstarted),
    ensures
        killed.0.is_error && failed.0.is_error && unstarted.0.is_error,
        has_prefix(killed.0.text@, rel) && has_prefix(failed.0.text@, rel),
        holds_text(killed.0.text@, dec(seconds as int) + "s and was killed."@),
        holds_text(unstarted.0.text@, rel),
        has_suffix(failed.0.text@, error@) && has_suffix(unstarted.0.text@, error@),
        killed.1 is Some && killed.1->0.timed_out && killed.1->0.exit_code != 0,
        failed.1 is Some && !failed.1->0.timed_out && failed.1->0.exit_code != 0,
        unstarted.1 is None,
{
    let none = Seq::<char>::empty();
    let lead = rel + " timed out after "@;
    let part = dec(seconds as int) + "s and was killed."@;
    assert(killed.0.text@ =~= lead + part + none);
    lemma_holds_part(killed.0.text@, lead, part, none);
    assert(killed.0.text@ =~= rel + (" timed out after "@ + part));
    lemma_ends(rel, " timed out after "@ + part);
    assert(failed.0.text@ =~= rel + (" could not run: "@ + error@));
    lemma_ends(rel, " could not run: "@ + error@);
    lemma_ends(rel + " could not run: "@, error@);
    let start = "Could not start "@;
    assert(unstarted.0.text@ =~= start + rel + (": "@ + error@));
    lemma_holds_part(unstarted.0.text@, start, rel, ": "@ + error@);
    lemma_ends(start + rel + ": "@, error@);
}

} // verus!
