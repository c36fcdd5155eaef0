//! `dotagent doctor`: validate every manifest, check that plugins resolve, and
//! say what is misconfigured.
//!
//! The report is a list of lines, each marked. What is counted is what is
//! marked, so the summary can never disagree with the lines above it.

use crate::daemon::lifecycle::{is_absolute, path_is_absolute};
use crate::daemon::screen::TelegramIngressConfig;
use crate::discovery::{maybe_text, DiscoveredAgent, InvalidManifest};
use crate::manifest::{AgentManifest, Lifecycle, PluginRef};
use crate::mcp::skills::Skill;
use crate::mcp::tools::skill_tool_names;
use crate::status::LiveProcess;
use crate::text::{
    dec, dec_u64, dec_usize, fit, fitting, has_prefix, has_suffix, holds_text, in_base, join,
    joined, lemma_ends, lemma_holds_part, lemma_holds_through, lemma_in_two, lemma_joined_holds,
    octal_u64, same, views,
};
use vstd::prelude::*;

verus! {

broadcast use vstd::string::group_string_axioms;

/// What a line of the report is.
#[derive(Debug, Clone, Copy, PartialEq, Eq, Structural)]
pub enum Mark {
    Note,
    Warning,
    Error,
}

/// One line of the report.
#[derive(Debug, PartialEq, Eq)]
pub struct Line {
    pub mark: Mark,
    pub text: String,
}

/// What a line says.
#[verifier::ext_equal]
pub struct LineView {
    pub mark: Mark,
    pub text: Seq<char>,
}

impl View for Line {
    type V = LineView;

    open spec fn view(&self) -> LineView {
        LineView { mark: self.mark, text: self.text@ }
    }
}

/// What a list of lines says.
pub open spec fn said(lines: Seq<Line>) -> Seq<LineView> {
    lines.map_values(|l: Line| l@)
}

/// A line that is counted nowhere.
pub open spec fn note(text: Seq<char>) -> LineView {
    LineView { mark: Mark::Note, text }
}

/// A line that counts as a warning.
pub open spec fn warning(text: Seq<char>) -> LineView {
    LineView { mark: Mark::Warning, text }
}

/// A line that counts as an error.
pub open spec fn error(text: Seq<char>) -> LineView {
    LineView { mark: Mark::Error, text }
}

fn say(lines: &mut Vec<Line>, mark: Mark, text: String)
    ensures
        said(final(lines)@) == said(old(lines)@).push(LineView { mark, text: text@ }),
{
    let ghost before = said(lines@);
    lines.push(Line { mark, text });
    proof {
        assert(said(lines@) =~= before.push(LineView { mark, text: text@ }));
    }
}

fn no_lines() -> (r: Vec<Line>)
    ensures
        said(r@) == Seq::<LineView>::empty(),
{
    let r: Vec<Line> = Vec::new();
    proof {
        assert(said(r@) =~= Seq::<LineView>::empty());
    }
    r
}

fn extend(lines: &mut Vec<Line>, more: Vec<Line>)
    ensures
        said(final(lines)@) == said(old(lines)@) + said(more@),
{
    let ghost before = said(lines@);
    let ghost tail = said(more@);
    let mut more = more;
    lines.append(&mut more);
    proof {
        assert(said(lines@) =~= before + tail);
    }
}

/// How many lines are marked so.
pub open spec fn marked(lines: Seq<LineView>, mark: Mark) -> nat
    decreases lines.len(),
{
    if lines.len() == 0 {
        0
    } else {
        marked(lines.drop_last(), mark) + if lines.last().mark == mark {
            1nat
        } else {
            0nat
        }
    }
}

/// How many lines are marked so.
pub fn count_marked(lines: &Vec<Line>, mark: Mark) -> (r: usize)
    ensures
        r == marked(said(lines@), mark),
{
    let ghost all = said(lines@);
    let mut n: usize = 0;
    let mut i: usize = 0;
    proof {
        assert(all.take(0) =~= Seq::<LineView>::empty());
    }
    while i < lines.len()
        invariant
            i <= lines@.len(),
            n <= i,
            all == said(lines@),
            n == marked(all.take(i as int), mark),
        decreases lines@.len() - i,
    {
        proof {
            assert(all.take(i as int + 1).drop_last() =~= all.take(i as int));
            assert(all.take(i as int + 1).last() == lines@[i as int]@);
        }
        if lines[i].mark == mark {
            n = n + 1;
        }
        i = i + 1;
    }
    proof {
        assert(all.take(all.len() as int) =~= all);
    }
    n
}

// ---------------------------------------------------------------------
// Secrets
// ---------------------------------------------------------------------

/// What the secrets file is found to be.
#[derive(Debug, PartialEq, Eq)]
pub enum SecretsState {
    /// Loaded. The mode is absent when the file could not be looked at.
    Loaded { keys: usize, mode: Option<u32>, unresolved: usize },
    Absent,
    /// Others may read it, so it is refused.
    Insecure { permissions: u32 },
    Failed { error: String },
}

/// Where the path of the secrets file comes from. Empty and relative overrides
/// are ignored, as they are when the file is loaded: reporting one would tell
/// the operator a lie.
pub open spec fn secrets_source(configured: Seq<char>, env: Option<Seq<char>>) -> Seq<char> {
    if is_absolute(configured) {
        " (from config.toml [secrets].file)"@
    } else if env matches Some(v) && is_absolute(v) {
        " (from DOTAGENT_SECRETS_FILE)"@
    } else {
        " (default)"@
    }
}

/// What is said of the secrets file. Never a key and never a value.
pub open spec fn secrets_lines(path: Seq<char>, source: Seq<char>, state: SecretsState) -> Seq<
    LineView,
> {
    let head = seq![note("secrets file: "@ + path + source)];
    let found = match state {
        SecretsState::Loaded { keys, mode, unresolved } => {
            let loaded = head.push(
                note(
                    "    ✓ loaded — "@ + dec(keys as int) + " key(s), mode "@ + match mode {
                        Some(m) => in_base((m % 512) as nat, 8),
                        None => "?"@,
                    },
                ),
            );
            if unresolved > 0 {
                loaded.push(
                    warning(
                        "    ⚠ "@ + dec(unresolved as int)
                            + " secret reference(s) failed to resolve (e.g. `op://...`). Affected keys are unset; check daemon logs for which reference failed."@,
                    ),
                )
            } else {
                loaded
            }
        },
        SecretsState::Absent => head.push(note("    (not present — secrets are optional)"@)),
        SecretsState::Insecure { permissions } => head.push(
            warning(
                "    ⚠ insecure permissions (mode "@ + in_base(permissions as nat, 8)
                    + ") — daemon will refuse to load. Fix with: chmod 600 "@ + path,
            ),
        ),
        SecretsState::Failed { error: e } => head.push(error("    ✗ "@ + e@)),
    };
    found.push(note(""@))
}

/// Report the secrets file: path, presence, permission state and key count.
/// `configured` is the path of the configuration file, `env` the one of the
/// environment.
pub fn report_secrets_status(
    path: &str,
    configured: &str,
    env: Option<&str>,
    state: &SecretsState,
) -> (r: Vec<Line>)
    ensures
        said(r@) == secrets_lines(path@, secrets_source(configured@, maybe_text(env)), *state),
{
    let from_env = match env {
        Some(v) => path_is_absolute(v),
        None => false,
    };
    let source = if path_is_absolute(configured) {
        " (from config.toml [secrets].file)"
    } else if from_env {
        " (from DOTAGENT_SECRETS_FILE)"
    } else {
        " (default)"
    };
    let mut lines = no_lines();
    let mut head = "secrets file: ".to_owned();
    head.append(path);
    head.append(source);
    say(&mut lines, Mark::Note, head);
    proof {
        assert(said(lines@) =~= seq![note("secrets file: "@ + path@ + source@)]);
    }
    match state {
        SecretsState::Loaded { keys, mode, unresolved } => {
            let shown = match mode {
                Some(m) => octal_u64((*m % 512) as u64),
                None => "?".to_owned(),
            };
            let mut text = "    ✓ loaded — ".to_owned();
            text.append(dec_usize(*keys).as_str());
            text.append(" key(s), mode ");
            text.append(shown.as_str());
            say(&mut lines, Mark::Note, text);
            if *unresolved > 0 {
                let mut text = "    ⚠ ".to_owned();
                text.append(dec_usize(*unresolved).as_str());
                text.append(
                    " secret reference(s) failed to resolve (e.g. `op://...`). Affected keys are unset; check daemon logs for which reference failed.",
                );
                say(&mut lines, Mark::Warning, text);
            }
        },
        SecretsState::Absent => {
            say(&mut lines, Mark::Note, "    (not present — secrets are optional)".to_owned());
        },
        SecretsState::Insecure { permissions } => {
            let mut text = "    ⚠ insecure permissions (mode ".to_owned();
            text.append(octal_u64(*permissions as u64).as_str());
            text.append(") — daemon will refuse to load. Fix with: chmod 600 ");
            text.append(path);
            say(&mut lines, Mark::Warning, text);
        },
        SecretsState::Failed { error } => {
            let mut text = "    ✗ ".to_owned();
            text.append(error.as_str());
            say(&mut lines, Mark::Error, text);
        },
    }
    say(&mut lines, Mark::Note, "".to_owned());
    lines
}

// ---------------------------------------------------------------------
// Memory
// ---------------------------------------------------------------------

/// What is said of long-term memory. `exists` says that there is a workspace
/// at the path that is used.
pub open spec fn memory_status(
    enabled: bool,
    configured: Option<Seq<char>>,
    default_path: Seq<char>,
    exists: bool,
) -> Seq<LineView> {
    if !enabled {
        seq![note("memory: off ([memory] enabled = false)"@)]
    } else {
        match configured {
            Some(path) => {
                let head = seq![note("memory: "@ + path + " (from config.toml)"@)];
                if exists {
                    head
                } else {
                    head.push(
                        warning(
                            "    ⚠ no outl workspace there — run `outl init` in it, or clear the setting to use the default"@,
                        ),
                    )
                }
            },
            None => seq![
                note(
                    "memory: "@ + default_path + " (default)"@ + if exists {
                        ""@
                    } else {
                        " — created on first use"@
                    },
                ),
            ],
        }
    }
}

/// Report where long-term memory lives.
pub fn report_memory_status(
    enabled: bool,
    configured: Option<&str>,
    default_path: &str,
    exists: bool,
) -> (r: Vec<Line>)
    ensures
        said(r@) == memory_status(enabled, maybe_text(configured), default_path@, exists),
{
    let mut lines = no_lines();
    if !enabled {
        say(&mut lines, Mark::Note, "memory: off ([memory] enabled = false)".to_owned());
        proof {
            assert(said(lines@) =~= memory_status(
                enabled,
                maybe_text(configured),
                default_path@,
                exists,
            ));
        }
        return lines;
    }
    let mut text = "memory: ".to_owned();
    match configured {
        Some(path) => {
            text.append(path);
            text.append(" (from config.toml)");
            say(&mut lines, Mark::Note, text);
            if !exists {
                say(
                    &mut lines,
                    Mark::Warning,
                    "    ⚠ no outl workspace there — run `outl init` in it, or clear the setting to use the default".to_owned(),
                );
            }
        },
        None => {
            text.append(default_path);
            text.append(" (default)");
            text.append(
                if exists {
                    ""
                } else {
                    " — created on first use"
                },
            );
            say(&mut lines, Mark::Note, text);
        },
    }
    proof {
        assert(said(lines@) =~= memory_status(
            enabled,
            maybe_text(configured),
            default_path@,
            exists,
        ));
    }
    lines
}

// ---------------------------------------------------------------------
// Skills and commands
// ---------------------------------------------------------------------

/// One warning per file that failed to load.
pub open spec fn broken_file_lines(invalid: Seq<InvalidManifest>) -> Seq<LineView> {
    invalid.map_values(
        |bad: InvalidManifest| warning("    ⚠ "@ + bad.path@ + ": "@ + bad.error@),
    )
}

fn report_broken_files(invalid: &Vec<InvalidManifest>) -> (r: Vec<Line>)
    ensures
        said(r@) == broken_file_lines(invalid@),
{
    let mut lines: Vec<Line> = Vec::new();
    let mut i: usize = 0;
    while i < invalid.len()
        invariant
            i <= invalid@.len(),
            lines@.len() == i,
            forall|k: int| 0 <= k < i ==> #[trigger] lines@[k]@ == broken_file_lines(invalid@)[k],
        decreases invalid@.len() - i,
    {
        let mut text = "    ⚠ ".to_owned();
        text.append(invalid[i].path.as_str());
        text.append(": ");
        text.append(invalid[i].error.as_str());
        lines.push(Line { mark: Mark::Warning, text });
        i = i + 1;
    }
    proof {
        assert(said(lines@) =~= broken_file_lines(invalid@));
    }
    lines
}

/// The place of the first entry of a name among the first `n`, or -1.
pub open spec fn first_place(names: Seq<Seq<char>>, name: Seq<char>, n: nat) -> int
    decreases n,
{
    if n == 0 {
        -1
    } else {
        let before = first_place(names, name, (n - 1) as nat);
        if before >= 0 {
            before
        } else if names[n - 1] == name {
            n - 1
        } else {
            -1
        }
    }
}

/// One warning per skill whose tool name is taken.
pub open spec fn taken_lines(skills: Seq<Skill>, n: nat) -> Seq<LineView>
    decreases n,
{
    if n == 0 {
        Seq::empty()
    } else {
        let before = taken_lines(skills, (n - 1) as nat);
        let s = skills[n - 1];
        let first = first_place(skill_tool_names(skills), s.tool@, (n - 1) as nat);
        if first >= 0 {
            before.push(
                warning(
                    "    ⚠ "@ + s.name@ + " maps to the same tool as "@ + skills[first].name@
                        + " ("@ + s.tool@ + ") — only the first is callable"@,
                ),
            )
        } else {
            before
        }
    }
}

/// What is said of a directory shared with another program, when it is
/// searched too.
pub open spec fn shared_text(shared: Option<Seq<char>>) -> Seq<char> {
    match shared {
        Some(dir) => ", including "@ + dir,
        None => Seq::empty(),
    }
}

fn shared_note(shared: Option<&str>) -> (r: String)
    ensures
        r@ == shared_text(maybe_text(shared)),
{
    match shared {
        Some(dir) => {
            let mut out = ", including ".to_owned();
            out.append(dir);
            out
        },
        None => String::new(),
    }
}

/// What is said of the skills.
pub open spec fn skills_lines(
    enabled: bool,
    shared: Option<Seq<char>>,
    skills: Seq<Skill>,
    invalid: Seq<InvalidManifest>,
) -> Seq<LineView> {
    if !enabled {
        seq![note("skills: off ([skills] enabled = false)"@)]
    } else {
        seq![
            note(
                "skills: "@ + dec(skills.len() as int) + " found"@ + shared_text(shared),
            ),
        ] + broken_file_lines(invalid) + taken_lines(skills, skills.len())
    }
}

fn report_taken(skills: &Vec<Skill>) -> (r: Vec<Line>)
    ensures
        said(r@) == taken_lines(skills@, skills@.len()),
{
    let mut lines = no_lines();
    let mut i: usize = 0;
    while i < skills.len()
        invariant
            i <= skills@.len(),
            said(lines@) == taken_lines(skills@, i as nat),
        decreases skills@.len() - i,
    {
        let ghost names = skill_tool_names(skills@);
        let mut k: usize = 0;
        let mut first: Option<usize> = None;
        while k < i
            invariant
                k <= i < skills@.len(),
                names == skill_tool_names(skills@),
                match first {
                    Some(f) => f < k && first_place(names, skills@[i as int].tool@, k as nat) == f,
                    None => first_place(names, skills@[i as int].tool@, k as nat) == -1,
                },
            decreases i - k,
        {
            proof {
                assert(names[k as int] == skills@[k as int].tool@);
            }
            if first.is_none() && same(skills[k].tool.as_str(), skills[i].tool.as_str()) {
                first = Some(k);
            }
            k = k + 1;
        }
        if let Some(f) = first {
            let mut text = "    ⚠ ".to_owned();
            text.append(skills[i].name.as_str());
            text.append(" maps to the same tool as ");
            text.append(skills[f].name.as_str());
            text.append(" (");
            text.append(skills[i].tool.as_str());
            text.append(") — only the first is callable");
            say(&mut lines, Mark::Warning, text);
        }
        i = i + 1;
    }
    lines
}

/// Report the skill catalog. Collisions are silent in the catalog, so they are
/// said out loud here: a skill you wrote and cannot call is otherwise a
/// mystery.
pub fn report_skills_status(
    enabled: bool,
    shared: Option<&str>,
    skills: &Vec<Skill>,
    invalid: &Vec<InvalidManifest>,
) -> (r: Vec<Line>)
    ensures
        said(r@) == skills_lines(enabled, maybe_text(shared), skills@, invalid@),
{
    let mut lines = no_lines();
    if !enabled {
        say(&mut lines, Mark::Note, "skills: off ([skills] enabled = false)".to_owned());
        proof {
            assert(said(lines@) =~= skills_lines(enabled, maybe_text(shared), skills@, invalid@));
        }
        return lines;
    }
    let mut text = "skills: ".to_owned();
    text.append(dec_usize(skills.len()).as_str());
    text.append(" found");
    text.append(shared_note(shared).as_str());
    let ghost head = note(text@);
    say(&mut lines, Mark::Note, text);
    proof {
        assert(said(lines@) =~= seq![head]);
    }
    extend(&mut lines, report_broken_files(invalid));
    extend(&mut lines, report_taken(skills));
    lines
}

/// Commands that want the same entry of the chat menu: the entry, and the name
/// and the file of each.
#[derive(Debug, PartialEq, Eq)]
pub struct MenuCollision {
    pub entry: String,
    pub commands: Vec<(String, String)>,
}

/// The commands of a collision, with the file to rename.
pub open spec fn colliding(c: MenuCollision) -> Seq<Seq<char>> {
    c.commands@.map_values(|p: (String, String)| p.0@ + " ("@ + p.1@ + ")"@)
}

/// One warning per collision.
pub open spec fn collision_lines(collisions: Seq<MenuCollision>) -> Seq<LineView> {
    collisions.map_values(
        |c: MenuCollision|
            warning(
                "    ⚠ "@ + joined(colliding(c), ", "@) + " all want /"@ + c.entry@
                    + " — only the first is in the menu"@,
            ),
    )
}

/// What is said of the commands.
pub open spec fn commands_lines(
    enabled: bool,
    shared: Option<Seq<char>>,
    count: int,
    invalid: Seq<InvalidManifest>,
    collisions: Seq<MenuCollision>,
    telegram: bool,
) -> Seq<LineView> {
    if !enabled {
        seq![note("commands: off ([commands] enabled = false)"@)]
    } else {
        let lines = seq![
            note(
                "commands: "@ + dec(count) + " found"@ + shared_text(shared),
            ),
        ] + broken_file_lines(invalid) + collision_lines(collisions);
        if count > 0 && !telegram {
            lines.push(note("    ℹ no Telegram ingress configured — no menu is published"@))
        } else {
            lines
        }
    }
}

fn report_collisions(collisions: &Vec<MenuCollision>) -> (r: Vec<Line>)
    ensures
        said(r@) == collision_lines(collisions@),
{
    let mut lines: Vec<Line> = Vec::new();
    let mut i: usize = 0;
    while i < collisions.len()
        invariant
            i <= collisions@.len(),
            lines@.len() == i,
            forall|k: int|
                0 <= k < i ==> #[trigger] lines@[k]@ == collision_lines(collisions@)[k],
        decreases collisions@.len() - i,
    {
        let c = &collisions[i];
        let mut parts: Vec<String> = Vec::new();
        let mut k: usize = 0;
        while k < c.commands.len()
            invariant
                k <= c.commands@.len(),
                parts@.len() == k,
                forall|m: int| 0 <= m < k ==> #[trigger] parts@[m]@ == colliding(*c)[m],
            decreases c.commands@.len() - k,
        {
            let mut part = c.commands[k].0.clone();
            part.append(" (");
            part.append(c.commands[k].1.as_str());
            part.append(")");
            parts.push(part);
            k = k + 1;
        }
        proof {
            assert(views(parts@) =~= colliding(*c));
        }
        let mut text = "    ⚠ ".to_owned();
        text.append(join(parts.as_slice(), ", ").as_str());
        text.append(" all want /");
        text.append(c.entry.as_str());
        text.append(" — only the first is in the menu");
        lines.push(Line { mark: Mark::Warning, text });
        i = i + 1;
    }
    proof {
        assert(said(lines@) =~= collision_lines(collisions@));
    }
    lines
}

/// Report the command catalog. A command shadowed in the chat menu is
/// invisible: it is in the catalog, and the menu never offers it.
pub fn report_commands_status(
    enabled: bool,
    shared: Option<&str>,
    count: usize,
    invalid: &Vec<InvalidManifest>,
    collisions: &Vec<MenuCollision>,
    telegram: bool,
) -> (r: Vec<Line>)
    ensures
        said(r@) == commands_lines(
            enabled,
            maybe_text(shared),
            count as int,
            invalid@,
            collisions@,
            telegram,
        ),
{
    let mut lines = no_lines();
    if !enabled {
        say(&mut lines, Mark::Note, "commands: off ([commands] enabled = false)".to_owned());
        proof {
            assert(said(lines@) =~= seq![
                note("commands: off ([commands] enabled = false)"@),
            ]);
        }
        return lines;
    }
    let mut text = "commands: ".to_owned();
    text.append(dec_usize(count).as_str());
    text.append(" found");
    text.append(shared_note(shared).as_str());
    let ghost head = note(text@);
    say(&mut lines, Mark::Note, text);
    proof {
        assert(said(lines@) =~= seq![head]);
    }
    extend(&mut lines, report_broken_files(invalid));
    extend(&mut lines, report_collisions(collisions));
    if count > 0 && !telegram {
        say(
            &mut lines,
            Mark::Note,
            "    ℹ no Telegram ingress configured — no menu is published".to_owned(),
        );
    }
    lines
}

// ---------------------------------------------------------------------
// Inbound chat
// ---------------------------------------------------------------------

/// The first agent of a name, or -1.
pub open spec fn agent_at(agents: Seq<DiscoveredAgent>, name: Seq<char>, n: nat) -> int
    decreases n,
{
    if n == 0 {
        -1
    } else {
        let before = agent_at(agents, name, (n - 1) as nat);
        if before >= 0 {
            before
        } else if agents[n - 1].manifest.name@ == name {
            n - 1
        } else {
            -1
        }
    }
}

fn find_agent(agents: &Vec<DiscoveredAgent>, name: &str) -> (r: Option<usize>)
    ensures
        match r {
            Some(i) => i < agents@.len() && agent_at(agents@, name@, agents@.len()) == i,
            None => agent_at(agents@, name@, agents@.len()) == -1,
        },
{
    let mut found: Option<usize> = None;
    let mut i: usize = 0;
    while i < agents.len()
        invariant
            i <= agents@.len(),
            match found {
                Some(f) => f < i && agent_at(agents@, name@, i as nat) == f,
                None => agent_at(agents@, name@, i as nat) == -1,
            },
        decreases agents@.len() - i,
    {
        if found.is_none() && same(agents[i].manifest.name.as_str(), name) {
            found = Some(i);
        }
        i = i + 1;
    }
    found
}

/// What is said of the dispatcher: that no agent has its name, or that one
/// process would serve every conversation.
pub open spec fn dispatcher_lines(agents: Seq<DiscoveredAgent>, name: Seq<char>) -> Seq<LineView> {
    let at = agent_at(agents, name, agents.len());
    if at < 0 {
        seq![
            warning(
                "    ⚠ dispatcher agent '"@ + name + "' not found — every message will fail"@,
            ),
        ]
    } else if agents[at].manifest.lifecycle.persistent && agents[at].manifest.lifecycle.key is None {
        seq![
            warning(
                "    ⚠ dispatcher '"@ + name
                    + "' is persistent with no [lifecycle] key — every conversation shares one process, and whatever it holds. Set key = \"chat_id\"."@,
            ),
        ]
    } else {
        Seq::empty()
    }
}

/// What is said of inbound chat: nothing when it is not configured at all.
pub open spec fn telegram_lines(tg: TelegramIngressConfig, agents: Seq<DiscoveredAgent>) -> Seq<
    LineView,
> {
    if tg.bot_token@.len() == 0 && tg.allowed_user_ids@.len() == 0 {
        Seq::empty()
    } else if tg.bot_token@.len() > 0 && tg.allowed_user_ids@.len() > 0 {
        seq![
            note(
                "telegram ingress: on — "@ + dec(tg.allowed_user_ids@.len() as int)
                    + " allowed user(s), dispatcher '"@ + tg.dispatcher_agent@ + "'"@,
            ),
        ] + dispatcher_lines(agents, tg.dispatcher_agent@)
    } else if tg.allowed_user_ids@.len() == 0 {
        seq![
            note("telegram ingress: OFF — bot_token set but allowed_user_ids is empty"@),
            warning(
                "    ⚠ an empty allowlist means nobody, never everybody. Add your numeric user id."@,
            ),
        ]
    } else {
        seq![warning("telegram ingress: OFF — allowed_user_ids set but bot_token is empty"@)]
    }
}

/// Report inbound chat. It speaks up in the cases an operator needs to hear
/// about: a half-configured section that silently does nothing, a dispatcher
/// that does not resolve, and one that mixes conversations.
pub fn report_telegram_status(tg: &TelegramIngressConfig, agents: &Vec<DiscoveredAgent>) -> (r: Vec<
    Line,
>)
    ensures
        said(r@) == telegram_lines(*tg, agents@),
{
    let mut lines = no_lines();
    if tg.bot_token.as_str().is_empty() && tg.allowed_user_ids.len() == 0 {
        return lines;
    }
    if tg.is_enabled() {
        let mut text = "telegram ingress: on — ".to_owned();
        text.append(dec_usize(tg.allowed_user_ids.len()).as_str());
        text.append(" allowed user(s), dispatcher '");
        text.append(tg.dispatcher_agent.as_str());
        text.append("'");
        let ghost head = note(text@);
        say(&mut lines, Mark::Note, text);
        match find_agent(agents, tg.dispatcher_agent.as_str()) {
            None => {
                let mut text = "    ⚠ dispatcher agent '".to_owned();
                text.append(tg.dispatcher_agent.as_str());
                text.append("' not found — every message will fail");
                say(&mut lines, Mark::Warning, text);
            },
            Some(i) => {
                let lifecycle = &agents[i].manifest.lifecycle;
                if lifecycle.persistent && lifecycle.key.is_none() {
                    let mut text = "    ⚠ dispatcher '".to_owned();
                    text.append(tg.dispatcher_agent.as_str());
                    text.append(
                        "' is persistent with no [lifecycle] key — every conversation shares one process, and whatever it holds. Set key = \"chat_id\".",
                    );
                    say(&mut lines, Mark::Warning, text);
                }
            },
        }
        proof {
            assert(said(lines@) =~= seq![head] + dispatcher_lines(
                agents@,
                tg.dispatcher_agent@,
            ));
        }
        return lines;
    }
    if tg.allowed_user_ids.len() == 0 {
        say(
            &mut lines,
            Mark::Note,
            "telegram ingress: OFF — bot_token set but allowed_user_ids is empty".to_owned(),
        );
        say(
            &mut lines,
            Mark::Warning,
            "    ⚠ an empty allowlist means nobody, never everybody. Add your numeric user id.".to_owned(),
        );
    } else {
        say(
            &mut lines,
            Mark::Warning,
            "telegram ingress: OFF — allowed_user_ids set but bot_token is empty".to_owned(),
        );
    }
    proof {
        assert(said(lines@) =~= telegram_lines(*tg, agents@));
    }
    lines
}

// ---------------------------------------------------------------------
// Agents
// ---------------------------------------------------------------------

/// A plugin that was looked for: where it is, or why it was not found.
#[derive(Debug, PartialEq, Eq)]
pub struct PluginCheck {
    pub plugin: String,
    pub found: Result<String, String>,
}

/// A notifier that was looked at. The plugin behind it has to be found.
#[derive(Debug, PartialEq, Eq)]
pub struct NotifierCheck {
    pub driver: String,
    pub plugin: Option<PluginCheck>,
}

/// What is found out about one agent.
#[derive(Debug, PartialEq, Eq)]
pub struct AgentCheck {
    pub valid: Result<(), String>,
    /// The plugins of its checks and hooks, in the order of
    /// [`plugins_to_check`].
    pub plugins: Vec<PluginCheck>,
    pub notifiers: Vec<NotifierCheck>,
    /// The hash the daemon last saw, and the one of the manifest now.
    pub hashes: Option<(String, String)>,
}

/// The names of a list of references.
pub open spec fn ref_names(refs: Seq<PluginRef>) -> Seq<Seq<char>> {
    refs.map_values(|r: PluginRef| r.plugin@)
}

fn push_names(out: &mut Vec<String>, refs: &Vec<PluginRef>)
    ensures
        views(final(out)@) == views(old(out)@) + ref_names(refs@),
{
    let ghost start = views(out@);
    let mut i: usize = 0;
    proof {
        assert(ref_names(refs@).take(0) =~= Seq::<Seq<char>>::empty());
        assert(start + Seq::<Seq<char>>::empty() =~= start);
    }
    while i < refs.len()
        invariant
            i <= refs@.len(),
            views(out@) == start + ref_names(refs@).take(i as int),
        decreases refs@.len() - i,
    {
        let ghost before = views(out@);
        out.push(refs[i].plugin.clone());
        i = i + 1;
        proof {
            assert(views(out@) =~= before.push(refs@[i as int - 1].plugin@));
            assert(ref_names(refs@).take(i as int) =~= ref_names(refs@).take(i as int - 1).push(
                refs@[i as int - 1].plugin@,
            ));
            assert(views(out@) =~= start + ref_names(refs@).take(i as int));
        }
    }
    proof {
        assert(ref_names(refs@).take(refs@.len() as int) =~= ref_names(refs@));
    }
}

/// The plugins an agent's checks and hooks refer to, in the order they are
/// looked for.
pub fn plugins_to_check(manifest: &AgentManifest) -> (r: Vec<String>)
    ensures
        views(r@) == ref_names(manifest.preflight@) + ref_names(manifest.on_success@) + ref_names(
            manifest.on_failure@,
        ),
{
    let mut out: Vec<String> = Vec::new();
    proof {
        assert(views(out@) + ref_names(manifest.preflight@) =~= ref_names(manifest.preflight@));
    }
    push_names(&mut out, &manifest.preflight);
    push_names(&mut out, &manifest.on_success);
    push_names(&mut out, &manifest.on_failure);
    out
}

/// What is said of a plugin.
pub open spec fn plugin_line_of(p: PluginCheck) -> LineView {
    match p.found {
        Ok(path) => note("    plugin "@ + p.plugin@ + " → "@ + path@),
        Err(e) => error("    ✗ plugin "@ + p.plugin@ + " not found: "@ + e@),
    }
}

/// What is said of a notifier.
pub open spec fn notifier_line(n: NotifierCheck) -> LineView {
    match n.plugin {
        Some(p) => match p.found {
            Ok(path) => note("    notifier driver=plugin name="@ + p.plugin@ + " → "@ + path@),
            Err(e) => error("    ✗ notifier plugin "@ + p.plugin@ + " not found: "@ + e@),
        },
        None => note("    notifier driver="@ + n.driver@ + " (built-in)"@),
    }
}

/// What is said of an agent's lifecycle, when it is not the default.
pub open spec fn lifecycle_lines(lc: Lifecycle) -> Seq<LineView> {
    if !lc.persistent {
        Seq::empty()
    } else {
        seq![
            note(
                "    lifecycle=persistent key="@ + (match lc.key {
                    Some(k) => k@,
                    None => "(single instance)"@,
                }) + " max_instances="@ + dec(lc.max_instances as int) + " idle="@ + dec(
                    lc.idle_timeout_seconds as int,
                ) + "s max_invocations="@ + if lc.max_invocations == 0 {
                    "unlimited"@
                } else {
                    dec(lc.max_invocations as int)
                },
            ),
        ]
    }
}

/// What is said of an agent with no security section.
pub open spec fn security_lines(name: Seq<char>, explicit: bool) -> Seq<LineView> {
    if explicit {
        Seq::empty()
    } else {
        seq![
            warning(
                "    ⚠ "@ + name
                    + ": no [security] section — blast radius is unbounded. See docs/security/threat-model.md."@,
            ),
        ]
    }
}

/// What is said of a manifest that changed since the daemon last saw it.
pub open spec fn drift_lines(name: Seq<char>, hashes: Option<(String, String)>) -> Seq<LineView> {
    match hashes {
        Some((cached, now)) => if cached@ == now@ {
            Seq::empty()
        } else {
            seq![
                warning(
                    "    ⚠ "@ + name + ": manifest drift since last daemon run (cached "@ + fitting(
                        cached@,
                        12,
                    ) + " → now "@ + fitting(now@, 12) + ")"@,
                ),
            ]
        },
        None => Seq::empty(),
    }
}

/// What is said of an agent. One whose manifest is invalid gets no further.
pub open spec fn agent_lines(m: AgentManifest, c: AgentCheck) -> Seq<LineView> {
    match c.valid {
        Err(e) => seq![error("✗ "@ + m.name@ + ": "@ + e@)],
        Ok(()) => seq![note("✓ "@ + m.name@ + ": manifest ok"@)] + c.plugins@.map_values(
            |p: PluginCheck| plugin_line_of(p),
        ) + c.notifiers@.map_values(|n: NotifierCheck| notifier_line(n)) + lifecycle_lines(
            m.lifecycle,
        ) + security_lines(m.name@, m.security_explicit) + drift_lines(m.name@, c.hashes),
    }
}

fn report_plugin(p: &PluginCheck) -> (r: Line)
    ensures
        r@ == plugin_line_of(*p),
{
    match &p.found {
        Ok(path) => {
            let mut text = "    plugin ".to_owned();
            text.append(p.plugin.as_str());
            text.append(" → ");
            text.append(path.as_str());
            Line { mark: Mark::Note, text }
        },
        Err(e) => {
            let mut text = "    ✗ plugin ".to_owned();
            text.append(p.plugin.as_str());
            text.append(" not found: ");
            text.append(e.as_str());
            Line { mark: Mark::Error, text }
        },
    }
}

fn report_notifier(n: &NotifierCheck) -> (r: Line)
    ensures
        r@ == notifier_line(*n),
{
    match &n.plugin {
        Some(p) => match &p.found {
            Ok(path) => {
                let mut text = "    notifier driver=plugin name=".to_owned();
                text.append(p.plugin.as_str());
                text.append(" → ");
                text.append(path.as_str());
                Line { mark: Mark::Note, text }
            },
            Err(e) => {
                let mut text = "    ✗ notifier plugin ".to_owned();
                text.append(p.plugin.as_str());
                text.append(" not found: ");
                text.append(e.as_str());
                Line { mark: Mark::Error, text }
            },
        },
        None => {
            let mut text = "    notifier driver=".to_owned();
            text.append(n.driver.as_str());
            text.append(" (built-in)");
            Line { mark: Mark::Note, text }
        },
    }
}

fn report_plugins(plugins: &Vec<PluginCheck>) -> (r: Vec<Line>)
    ensures
        said(r@) == plugins@.map_values(|p: PluginCheck| plugin_line_of(p)),
{
    let mut lines: Vec<Line> = Vec::new();
    let mut i: usize = 0;
    while i < plugins.len()
        invariant
            i <= plugins@.len(),
            lines@.len() == i,
            forall|k: int| 0 <= k < i ==> #[trigger] lines@[k]@ == plugin_line_of(plugins@[k]),
        decreases plugins@.len() - i,
    {
        lines.push(report_plugin(&plugins[i]));
        i = i + 1;
    }
    proof {
        assert(said(lines@) =~= plugins@.map_values(|p: PluginCheck| plugin_line_of(p)));
    }
    lines
}

fn report_notifiers(notifiers: &Vec<NotifierCheck>) -> (r: Vec<Line>)
    ensures
        said(r@) == notifiers@.map_values(|n: NotifierCheck| notifier_line(n)),
{
    let mut lines: Vec<Line> = Vec::new();
    let mut i: usize = 0;
    while i < notifiers.len()
        invariant
            i <= notifiers@.len(),
            lines@.len() == i,
            forall|k: int| 0 <= k < i ==> #[trigger] lines@[k]@ == notifier_line(notifiers@[k]),
        decreases notifiers@.len() - i,
    {
        lines.push(report_notifier(&notifiers[i]));
        i = i + 1;
    }
    proof {
        assert(said(lines@) =~= notifiers@.map_values(|n: NotifierCheck| notifier_line(n)));
    }
    lines
}

fn report_lifecycle(lc: &Lifecycle) -> (r: Vec<Line>)
    ensures
        said(r@) == lifecycle_lines(*lc),
{
    let mut lines = no_lines();
    if !lc.persistent {
        return lines;
    }
    let key = match &lc.key {
        Some(k) => k.as_str(),
        None => "(single instance)",
    };
    let invocations = if lc.max_invocations == 0 {
        "unlimited".to_owned()
    } else {
        dec_u64(lc.max_invocations)
    };
    let mut text = "    lifecycle=persistent key=".to_owned();
    text.append(key);
    text.append(" max_instances=");
    text.append(dec_u64(lc.max_instances).as_str());
    text.append(" idle=");
    text.append(dec_u64(lc.idle_timeout_seconds).as_str());
    text.append("s max_invocations=");
    text.append(invocations.as_str());
    say(&mut lines, Mark::Note, text);
    proof {
        assert(said(lines@) =~= lifecycle_lines(*lc));
    }
    lines
}

fn report_drift(name: &str, hashes: &Option<(String, String)>) -> (r: Vec<Line>)
    ensures
        said(r@) == drift_lines(name@, *hashes),
{
    let mut lines = no_lines();
    if let Some((cached, now)) = hashes {
        if !same(cached.as_str(), now.as_str()) {
            let mut text = "    ⚠ ".to_owned();
            text.append(name);
            text.append(": manifest drift since last daemon run (cached ");
            text.append(fit(cached.as_str(), 12).as_str());
            text.append(" → now ");
            text.append(fit(now.as_str(), 12).as_str());
            text.append(")");
            say(&mut lines, Mark::Warning, text);
        }
    }
    proof {
        assert(said(lines@) =~= drift_lines(name@, *hashes));
    }
    lines
}

/// Report one agent.
pub fn report_agent(manifest: &AgentManifest, check: &AgentCheck) -> (r: Vec<Line>)
    ensures
        said(r@) == agent_lines(*manifest, *check),
{
    let mut lines = no_lines();
    if let Err(e) = &check.valid {
        let mut text = "✗ ".to_owned();
        text.append(manifest.name.as_str());
        text.append(": ");
        text.append(e.as_str());
        say(&mut lines, Mark::Error, text);
        proof {
            assert(said(lines@) =~= agent_lines(*manifest, *check));
        }
        return lines;
    }
    let mut text = "✓ ".to_owned();
    text.append(manifest.name.as_str());
    text.append(": manifest ok");
    let ghost head = note(text@);
    say(&mut lines, Mark::Note, text);
    proof {
        assert(said(lines@) =~= seq![head]);
    }
    extend(&mut lines, report_plugins(&check.plugins));
    extend(&mut lines, report_notifiers(&check.notifiers));
    extend(&mut lines, report_lifecycle(&manifest.lifecycle));
    let mut security = no_lines();
    if !manifest.security_explicit {
        let mut text = "    ⚠ ".to_owned();
        text.append(manifest.name.as_str());
        text.append(
            ": no [security] section — blast radius is unbounded. See docs/security/threat-model.md.",
        );
        say(&mut security, Mark::Warning, text);
    }
    proof {
        assert(said(security@) =~= security_lines(manifest.name@, manifest.security_explicit));
    }
    extend(&mut lines, security);
    extend(&mut lines, report_drift(manifest.name.as_str(), &check.hashes));
    lines
}

// ---------------------------------------------------------------------
// Children near their deadline
// ---------------------------------------------------------------------

/// What is said of a child: past its deadline it is an error.
pub open spec fn hot_line(p: LiveProcess) -> LineView {
    let late = p.deadline_pct >= 100;
    LineView {
        mark: if late {
            Mark::Error
        } else {
            Mark::Warning
        },
        text: "    "@ + (if late {
            "✗"@
        } else {
            "⚠"@
        }) + " "@ + p.kind@ + "."@ + p.label@ + " pid="@ + dec(p.pid as int) + " agent="@ + p.owner@
            + " age="@ + dec(p.age_seconds as int) + "s deadline="@ + dec(p.deadline_seconds as int)
            + "s ("@ + dec(p.deadline_pct as int) + "%)"@,
    }
}

/// One line per child past four fifths of its deadline.
pub open spec fn hot_list(snap: Seq<LiveProcess>) -> Seq<LineView>
    decreases snap.len(),
{
    if snap.len() == 0 {
        Seq::empty()
    } else if snap.last().deadline_pct >= 80 {
        hot_list(snap.drop_last()).push(hot_line(snap.last()))
    } else {
        hot_list(snap.drop_last())
    }
}

/// What is said of the children: nothing while none is near its deadline.
pub open spec fn hot_lines(snap: Seq<LiveProcess>) -> Seq<LineView> {
    if hot_list(snap).len() == 0 {
        Seq::empty()
    } else {
        seq![note(""@), note("supervisor: subprocess(es) approaching deadline"@)] + hot_list(snap)
    }
}

fn report_process(p: &LiveProcess) -> (r: Line)
    ensures
        r@ == hot_line(*p),
{
    let late = p.deadline_pct >= 100;
    let mut text = "    ".to_owned();
    text.append(
        if late {
            "✗"
        } else {
            "⚠"
        },
    );
    text.append(" ");
    text.append(p.kind.as_str());
    text.append(".");
    text.append(p.label.as_str());
    text.append(" pid=");
    text.append(dec_u64(p.pid as u64).as_str());
    text.append(" agent=");
    text.append(p.owner.as_str());
    text.append(" age=");
    text.append(dec_u64(p.age_seconds).as_str());
    text.append("s deadline=");
    text.append(dec_u64(p.deadline_seconds).as_str());
    text.append("s (");
    text.append(dec_u64(p.deadline_pct).as_str());
    text.append("%)");
    let mark = if late {
        Mark::Error
    } else {
        Mark::Warning
    };
    Line { mark, text }
}

/// Flag every child near its deadline or past it.
pub fn report_processes(snap: &Vec<LiveProcess>) -> (r: Vec<Line>)
    ensures
        said(r@) == hot_lines(snap@),
{
    let mut hot = no_lines();
    let mut i: usize = 0;
    proof {
        assert(snap@.take(0) =~= Seq::<LiveProcess>::empty());
    }
    while i < snap.len()
        invariant
            i <= snap@.len(),
            said(hot@) == hot_list(snap@.take(i as int)),
        decreases snap@.len() - i,
    {
        proof {
            assert(snap@.take(i as int + 1).drop_last() =~= snap@.take(i as int));
        }
        if snap[i].deadline_pct >= 80 {
            let line = report_process(&snap[i]);
            say(&mut hot, line.mark, line.text);
        }
        i = i + 1;
    }
    proof {
        assert(snap@.take(snap@.len() as int) =~= snap@);
        assert(said(hot@).len() == hot@.len());
    }
    if hot.len() == 0 {
        return hot;
    }
    let mut lines = no_lines();
    say(&mut lines, Mark::Note, "".to_owned());
    say(
        &mut lines,
        Mark::Note,
        "supervisor: subprocess(es) approaching deadline".to_owned(),
    );
    proof {
        assert(said(lines@) =~= seq![
            note(""@),
            note("supervisor: subprocess(es) approaching deadline"@),
        ]);
    }
    extend(&mut lines, hot);
    lines
}

// ---------------------------------------------------------------------
// The whole report
// ---------------------------------------------------------------------

/// One error per manifest that failed to load.
pub open spec fn unloadable_lines(invalid: Seq<InvalidManifest>) -> Seq<LineView> {
    invalid.map_values(|bad: InvalidManifest| error("✗ "@ + bad.path@ + ": "@ + bad.error@))
}

/// An agent that was looked into.
#[derive(Debug)]
pub struct CheckedAgent {
    pub manifest: AgentManifest,
    pub check: AgentCheck,
}

/// What is said of the agents, in order.
pub open spec fn checked_lines(agents: Seq<CheckedAgent>) -> Seq<LineView>
    decreases agents.len(),
{
    if agents.len() == 0 {
        Seq::empty()
    } else {
        checked_lines(agents.drop_last()) + agent_lines(
            agents.last().manifest,
            agents.last().check,
        )
    }
}

/// The report up to the agents: the sections above them, and the manifests
/// that failed to load.
pub open spec fn upper_lines(sections: Seq<LineView>, invalid: Seq<InvalidManifest>) -> Seq<LineView> {
    sections + unloadable_lines(invalid)
}

/// The summary a report ends with.
pub open spec fn summary_line(lines: Seq<LineView>, agents: nat) -> LineView {
    note(
        "summary: "@ + dec(agents as int) + " agent(s), "@ + dec(marked(lines, Mark::Error) as int)
            + " error(s), "@ + dec(marked(lines, Mark::Warning) as int) + " warning(s)"@,
    )
}

/// The whole report. Without agents it ends early, and says so unless
/// something failed.
pub open spec fn doctor_lines(
    sections: Seq<LineView>,
    invalid: Seq<InvalidManifest>,
    agents: Seq<CheckedAgent>,
    snap: Seq<LiveProcess>,
) -> Seq<LineView> {
    let upper = upper_lines(sections, invalid);
    if agents.len() == 0 {
        if marked(upper, Mark::Error) == 0 {
            upper.push(note("no agents discovered"@))
        } else {
            upper
        }
    } else {
        let body = upper + checked_lines(agents) + hot_lines(snap);
        body.push(note(""@)).push(summary_line(body, agents.len()))
    }
}

/// What a doctor run comes to.
#[derive(Debug, PartialEq, Eq)]
pub struct DoctorReport {
    pub lines: Vec<Line>,
    /// The error the command ends with, if any.
    pub failure: Option<String>,
}

fn report_unloadable(invalid: &Vec<InvalidManifest>) -> (r: Vec<Line>)
    ensures
        said(r@) == unloadable_lines(invalid@),
{
    let mut lines: Vec<Line> = Vec::new();
    let mut i: usize = 0;
    while i < invalid.len()
        invariant
            i <= invalid@.len(),
            lines@.len() == i,
            forall|k: int| 0 <= k < i ==> #[trigger] lines@[k]@ == unloadable_lines(invalid@)[k],
        decreases invalid@.len() - i,
    {
        let mut text = "✗ ".to_owned();
        text.append(invalid[i].path.as_str());
        text.append(": ");
        text.append(invalid[i].error.as_str());
        lines.push(Line { mark: Mark::Error, text });
        i = i + 1;
    }
    proof {
        assert(said(lines@) =~= unloadable_lines(invalid@));
    }
    lines
}

fn report_checked(agents: &Vec<CheckedAgent>) -> (r: Vec<Line>)
    ensures
        said(r@) == checked_lines(agents@),
{
    let mut checked = no_lines();
    let mut i: usize = 0;
    proof {
        assert(agents@.take(0) =~= Seq::<CheckedAgent>::empty());
    }
    while i < agents.len()
        invariant
            i <= agents@.len(),
            said(checked@) == checked_lines(agents@.take(i as int)),
        decreases agents@.len() - i,
    {
        proof {
            assert(agents@.take(i as int + 1).drop_last() =~= agents@.take(i as int));
        }
        extend(&mut checked, report_agent(&agents[i].manifest, &agents[i].check));
        i = i + 1;
    }
    proof {
        assert(agents@.take(agents@.len() as int) =~= agents@);
    }
    checked
}

/// End a report with its summary, and say how many errors it names.
fn summarize(lines: &mut Vec<Line>, agents: usize) -> (errors: usize)
    ensures
        said(final(lines)@) == said(old(lines)@).push(note(""@)).push(
            summary_line(said(old(lines)@), agents as nat),
        ),
        errors == marked(said(final(lines)@), Mark::Error),
{
    let ghost body = said(lines@);
    let errors = count_marked(lines, Mark::Error);
    let warnings = count_marked(lines, Mark::Warning);
    let mut text = "summary: ".to_owned();
    text.append(dec_usize(agents).as_str());
    text.append(" agent(s), ");
    text.append(dec_usize(errors).as_str());
    text.append(" error(s), ");
    text.append(dec_usize(warnings).as_str());
    text.append(" warning(s)");
    let ghost last = note(text@);
    say(lines, Mark::Note, "".to_owned());
    say(lines, Mark::Note, text);
    proof {
        lemma_notes_do_not_count(body, note(""@), Mark::Error);
        lemma_notes_do_not_count(body.push(note(""@)), last, Mark::Error);
    }
    errors
}

proof fn lemma_notes_do_not_count(lines: Seq<LineView>, line: LineView, mark: Mark)
    requires
        line.mark == Mark::Note,
        mark != Mark::Note,
    ensures
        marked(lines.push(line), mark) == marked(lines, mark),
{
    assert(lines.push(line).drop_last() =~= lines);
}

/// Put the report together: the sections, the manifests that failed to load,
/// every agent, the children near their deadline, and the summary. The command
/// fails exactly when the report holds an error, be there agents or not.
pub fn doctor(
    sections: Vec<Line>,
    invalid: &Vec<InvalidManifest>,
    agents: &Vec<CheckedAgent>,
    snap: &Vec<LiveProcess>,
) -> (r: DoctorReport)
    ensures
        said(r.lines@) == doctor_lines(said(sections@), invalid@, agents@, snap@),
        r.failure is Some <==> marked(said(r.lines@), Mark::Error) > 0,
        r.failure matches Some(e) ==> e@ == dec(marked(said(r.lines@), Mark::Error) as int)
            + " issue(s) found"@,
{
    let mut lines = sections;
    extend(&mut lines, report_unloadable(invalid));
    let errors = if agents.len() == 0 {
        let ghost upper = said(lines@);
        let errors = count_marked(&lines, Mark::Error);
        if errors == 0 {
            say(&mut lines, Mark::Note, "no agents discovered".to_owned());
            proof {
                lemma_notes_do_not_count(upper, note("no agents discovered"@), Mark::Error);
            }
        }
        errors
    } else {
        extend(&mut lines, report_checked(agents));
        extend(&mut lines, report_processes(snap));
        summarize(&mut lines, agents.len())
    };
    DoctorReport { lines, failure: failure_of(errors) }
}

fn failure_of(errors: usize) -> (r: Option<String>)
    ensures
        r is Some <==> errors > 0,
        r matches Some(e) ==> e@ == dec(errors as int) + " issue(s) found"@,
{
    if errors > 0 {
        let mut text = dec_usize(errors);
        text.append(" issue(s) found");
        Some(text)
    } else {
        None
    }
}

proof fn lemma_marked_concat(a: Seq<LineView>, b: Seq<LineView>, mark: Mark)
    ensures
        marked(a + b, mark) == marked(a, mark) + marked(b, mark),
    decreases b.len(),
{
    if b.len() == 0 {
        assert(a + b =~= a);
    } else {
        lemma_marked_concat(a, b.drop_last(), mark);
        assert((a + b).drop_last() =~= a + b.drop_last());
    }
}

/// The summary never disagrees with the report: the errors and warnings it
/// names are the ones among the lines, section by section.
pub proof fn what_is_printed_is_what_is_counted(
    sections: Seq<LineView>,
    invalid: Seq<InvalidManifest>,
    agents: Seq<CheckedAgent>,
    snap: Seq<LiveProcess>,
    mark: Mark,
)
    requires
        agents.len() > 0,
        mark != Mark::Note,
    ensures
        ({
            let lines = doctor_lines(sections, invalid, agents, snap);
            &&& marked(lines, mark) == marked(sections, mark) + marked(
                unloadable_lines(invalid),
                mark,
            ) + marked(checked_lines(agents), mark) + marked(hot_lines(snap), mark)
            &&& lines.last() == summary_line(lines, agents.len())
        }),
{
    let upper = upper_lines(sections, invalid);
    let checked = checked_lines(agents);
    let body = upper + checked + hot_lines(snap);
    lemma_marked_concat(sections, unloadable_lines(invalid), mark);
    lemma_marked_concat(upper, checked, mark);
    lemma_marked_concat(upper + checked, hot_lines(snap), mark);
    let one = body.push(note(""@));
    let last = summary_line(body, agents.len());
    lemma_notes_do_not_count(body, note(""@), Mark::Error);
    lemma_notes_do_not_count(body, note(""@), Mark::Warning);
    lemma_notes_do_not_count(one, last, Mark::Error);
    lemma_notes_do_not_count(one, last, Mark::Warning);
}

// ---------------------------------------------------------------------
// Laws of the sections
// ---------------------------------------------------------------------

/// The configured file wins over the environment, and both only where they are
/// absolute.
pub proof fn the_source_of_secrets_is_told(configured: Seq<char>, env: Seq<char>)
    ensures
        configured.len() > 0 && configured[0] == '/' ==> secrets_source(configured, Some(env))
            == " (from config.toml [secrets].file)"@,
        (configured.len() == 0 || configured[0] != '/') && env.len() > 0 && env[0] == '/'
            ==> secrets_source(configured, Some(env)) == " (from DOTAGENT_SECRETS_FILE)"@,
        (configured.len() == 0 || configured[0] != '/') && (env.len() == 0 || env[0] != '/')
            ==> secrets_source(configured, Some(env)) == " (default)"@,
        configured.len() == 0 || configured[0] != '/' ==> secrets_source(configured, None)
            == " (default)"@,
{
}

/// The secrets are named first. They are an error exactly when they could not be
/// read, which says why; a warning where others may read them, or where a
/// reference in them did not resolve; and nothing else of them counts.
pub proof fn the_state_of_secrets_is_told(
    path: Seq<char>,
    source: Seq<char>,
    state: SecretsState,
)
    ensures
        ({
            let lines = secrets_lines(path, source, state);
            &&& lines[0] == note("secrets file: "@ + path + source)
            &&& marked(lines, Mark::Error) == if state is Failed {
                1nat
            } else {
                0nat
            }
            &&& marked(lines, Mark::Warning) == if state is Insecure || (state matches
                SecretsState::Loaded { unresolved, .. } && unresolved > 0) {
                1nat
            } else {
                0nat
            }
            &&& state matches SecretsState::Failed { error: e } ==> has_suffix(lines[1].text, e@)
            &&& state matches SecretsState::Insecure { permissions } ==> holds_text(
                lines[1].text,
                "(mode "@ + in_base(permissions as nat, 8) + ")"@,
            ) && has_suffix(lines[1].text, "chmod 600 "@ + path)
            &&& state matches SecretsState::Loaded { keys, unresolved, .. } ==> holds_text(
                lines[1].text,
                " "@ + dec(keys as int) + " key(s)"@,
            ) && (unresolved > 0 ==> holds_text(lines[2].text, " "@ + dec(unresolved as int) + " "@))
        }),
{
    reveal_with_fuel(marked, 5);
    let lines = secrets_lines(path, source, state);
    match state {
        SecretsState::Failed { error: e } => {
            assert(lines.drop_last().drop_last() =~= seq![lines[0]]);
            lemma_ends("    ✗ "@, e@);
        },
        SecretsState::Insecure { permissions } => {
            assert(lines.drop_last().drop_last() =~= seq![lines[0]]);
            lemma_insecure(in_base(permissions as nat, 8), path);
        },
        SecretsState::Absent => {
            assert(lines.drop_last().drop_last() =~= seq![lines[0]]);
        },
        SecretsState::Loaded { keys, mode, unresolved } => {
            let shown = match mode {
                Some(m) => in_base((m % 512) as nat, 8),
                None => "?"@,
            };
            lemma_loaded(dec(keys as int), shown);
            lemma_unresolved(dec(unresolved as int));
            assert(lines[1].text == "    ✓ loaded — "@ + dec(keys as int) + " key(s), mode "@
                + shown);
            if unresolved > 0 {
                assert(lines.drop_last().drop_last().drop_last() =~= seq![lines[0]]);
            } else {
                assert(lines.drop_last().drop_last() =~= seq![lines[0]]);
            }
        },
    }
}

proof fn lemma_insecure(mode: Seq<char>, path: Seq<char>)
    ensures
        holds_text(
            "    ⚠ insecure permissions (mode "@ + mode
                + ") — daemon will refuse to load. Fix with: chmod 600 "@ + path,
            "(mode "@ + mode + ")"@,
        ),
        has_suffix(
            "    ⚠ insecure permissions (mode "@ + mode
                + ") — daemon will refuse to load. Fix with: chmod 600 "@ + path,
            "chmod 600 "@ + path,
        ),
{
    reveal_strlit("    ⚠ insecure permissions (mode ");
    reveal_strlit("(mode ");
    reveal_strlit(") — daemon will refuse to load. Fix with: chmod 600 ");
    reveal_strlit(")");
    reveal_strlit("chmod 600 ");
    let a = "    ⚠ insecure permissions (mode "@;
    let b = ") — daemon will refuse to load. Fix with: chmod 600 "@;
    let whole = a + mode + b + path;
    let x = a.take(a.len() - 6);
    let y = b.take(b.len() - 10);
    assert(a =~= x + "(mode "@);
    assert(b =~= ")"@ + b.skip(1));
    assert(b =~= y + "chmod 600 "@);
    assert(whole =~= x + ("(mode "@ + mode + ")"@) + (b.skip(1) + path));
    lemma_holds_part(whole, x, "(mode "@ + mode + ")"@, b.skip(1) + path);
    assert(whole =~= (a + mode + y) + ("chmod 600 "@ + path));
    lemma_ends(a + mode + y, "chmod 600 "@ + path);
}

proof fn lemma_loaded(keys: Seq<char>, mode: Seq<char>)
    ensures
        holds_text(
            "    ✓ loaded — "@ + keys + " key(s), mode "@ + mode,
            " "@ + keys + " key(s)"@,
        ),
{
    reveal_strlit("    ✓ loaded — ");
    reveal_strlit(" ");
    reveal_strlit(" key(s), mode ");
    reveal_strlit(" key(s)");
    let a = "    ✓ loaded — "@;
    let b = " key(s), mode "@;
    let whole = a + keys + b + mode;
    assert(a =~= a.drop_last() + " "@);
    assert(b =~= " key(s)"@ + b.skip(7));
    assert(whole =~= a.drop_last() + (" "@ + keys + " key(s)"@) + (b.skip(7) + mode));
    lemma_holds_part(whole, a.drop_last(), " "@ + keys + " key(s)"@, b.skip(7) + mode);
}

proof fn lemma_unresolved(n: Seq<char>)
    ensures
        holds_text(
            "    ⚠ "@ + n
                + " secret reference(s) failed to resolve (e.g. `op://...`). Affected keys are unset; check daemon logs for which reference failed."@,
            " "@ + n + " "@,
        ),
{
    reveal_strlit("    ⚠ ");
    reveal_strlit(" ");
    reveal_strlit(
        " secret reference(s) failed to resolve (e.g. `op://...`). Affected keys are unset; check daemon logs for which reference failed.",
    );
    let a = "    ⚠ "@;
    let b =
        " secret reference(s) failed to resolve (e.g. `op://...`). Affected keys are unset; check daemon logs for which reference failed."@;
    assert(a =~= a.drop_last() + " "@);
    assert(b =~= " "@ + b.skip(1));
    assert(a + n + b =~= a.drop_last() + (" "@ + n + " "@) + b.skip(1));
    lemma_holds_part(a + n + b, a.drop_last(), " "@ + n + " "@, b.skip(1));
}

/// Memory is named by where it is: where it was configured, and otherwise the
/// default. Only a configured place without a workspace is worth a warning.
pub proof fn the_state_of_memory_is_told(
    enabled: bool,
    configured: Option<Seq<char>>,
    default_path: Seq<char>,
    exists: bool,
)
    ensures
        ({
            let lines = memory_status(enabled, configured, default_path, exists);
            &&& marked(lines, Mark::Error) == 0
            &&& marked(lines, Mark::Warning) == if enabled && configured is Some && !exists {
                1nat
            } else {
                0nat
            }
            &&& enabled && configured is Some ==> has_prefix(
                lines[0].text,
                "memory: "@ + configured->0,
            )
            &&& enabled && configured is None ==> has_prefix(
                lines[0].text,
                "memory: "@ + default_path,
            )
        }),
{
    reveal_with_fuel(marked, 3);
    let lines = memory_status(enabled, configured, default_path, exists);
    if enabled {
        match configured {
            Some(path) => {
                lemma_ends("memory: "@ + path, " (from config.toml)"@);
                if !exists {
                    assert(lines.drop_last() =~= seq![lines[0]]);
                }
            },
            None => {
                let end = if exists {
                    ""@
                } else {
                    " — created on first use"@
                };
                lemma_in_two("memory: "@ + default_path, " (default)"@, end);
                lemma_ends("memory: "@ + default_path, " (default)"@ + end);
            },
        }
    }
}

/// Every file that did not load has a warning with its path and its error, among
/// the skills and among the commands.
pub proof fn every_broken_file_is_named(
    shared: Option<Seq<char>>,
    skills: Seq<Skill>,
    invalid: Seq<InvalidManifest>,
    count: int,
    collisions: Seq<MenuCollision>,
    telegram: bool,
    i: int,
)
    requires
        0 <= i < invalid.len(),
    ensures
        ({
            let line = skills_lines(true, shared, skills, invalid)[i + 1];
            &&& line.mark == Mark::Warning
            &&& has_suffix(line.text, invalid[i].path@ + ": "@ + invalid[i].error@)
        }),
        ({
            let line = commands_lines(true, shared, count, invalid, collisions, telegram)[i + 1];
            &&& line.mark == Mark::Warning
            &&& has_suffix(line.text, invalid[i].path@ + ": "@ + invalid[i].error@)
        }),
        skills_lines(false, shared, skills, invalid).len() == 1,
        commands_lines(false, shared, count, invalid, collisions, telegram).len() == 1,
{
    let lead = "    ⚠ "@;
    let bad = invalid[i].path@ + ": "@ + invalid[i].error@;
    lemma_in_two(lead, invalid[i].path@, ": "@);
    lemma_in_two(lead, invalid[i].path@ + ": "@, invalid[i].error@);
    lemma_ends(lead, bad);
    let files = broken_file_lines(invalid);
    assert(files[i] == warning(lead + invalid[i].path@ + ": "@ + invalid[i].error@));
    assert(skills_lines(true, shared, skills, invalid)[i + 1] == files[i]);
    assert(commands_lines(true, shared, count, invalid, collisions, telegram)[i + 1] == files[i]);
}

proof fn lemma_first_place_is(names: Seq<Seq<char>>, name: Seq<char>, n: nat)
    requires
        n <= names.len(),
    ensures
        ({
            let at = first_place(names, name, n);
            &&& at < n
            &&& at >= 0 ==> names[at] == name && forall|j: int|
                0 <= j < at ==> #[trigger] names[j] != name
            &&& at < 0 ==> forall|j: int| 0 <= j < n ==> #[trigger] names[j] != name
        }),
    decreases n,
{
    if n > 0 {
        lemma_first_place_is(names, name, (n - 1) as nat);
    }
}

proof fn lemma_taken(skills: Seq<Skill>, n: nat, i: int, first: int)
    requires
        n <= skills.len(),
        0 <= first < i < n,
        skills[first].tool@ == skills[i].tool@,
        forall|j: int| 0 <= j < first ==> (#[trigger] skills[j]).tool@ != skills[i].tool@,
    ensures
        taken_lines(skills, n).contains(
            warning(
                "    ⚠ "@ + skills[i].name@ + " maps to the same tool as "@ + skills[first].name@
                    + " ("@ + skills[i].tool@ + ") — only the first is callable"@,
            ),
        ),
    decreases n,
{
    let line = warning(
        "    ⚠ "@ + skills[i].name@ + " maps to the same tool as "@ + skills[first].name@ + " ("@
            + skills[i].tool@ + ") — only the first is callable"@,
    );
    let before = taken_lines(skills, (n - 1) as nat);
    let all = taken_lines(skills, n);
    if i < n - 1 {
        lemma_taken(skills, (n - 1) as nat, i, first);
        let k = choose|k: int| 0 <= k < before.len() && before[k] == line;
        assert(all[k] == line);
    } else {
        let names = skill_tool_names(skills);
        lemma_first_place_is(names, skills[i].tool@, (n - 1) as nat);
        let at = first_place(names, skills[i].tool@, (n - 1) as nat);
        assert(names[first] == skills[i].tool@);
        if at >= 0 && at < first {
            assert(names[at] == skills[at].tool@);
        }
        assert(at == first);
        assert(all.last() == line);
    }
}

/// A skill whose tool an earlier one has is named with the first that has it.
pub proof fn a_skill_that_cannot_be_called_is_named(
    shared: Option<Seq<char>>,
    skills: Seq<Skill>,
    invalid: Seq<InvalidManifest>,
    i: int,
    first: int,
)
    requires
        0 <= first < i < skills.len(),
        skills[first].tool@ == skills[i].tool@,
        forall|j: int| 0 <= j < first ==> (#[trigger] skills[j]).tool@ != skills[i].tool@,
    ensures
        skills_lines(true, shared, skills, invalid).contains(
            warning(
                "    ⚠ "@ + skills[i].name@ + " maps to the same tool as "@ + skills[first].name@
                    + " ("@ + skills[i].tool@ + ") — only the first is callable"@,
            ),
        ),
{
    let line = warning(
        "    ⚠ "@ + skills[i].name@ + " maps to the same tool as "@ + skills[first].name@ + " ("@
            + skills[i].tool@ + ") — only the first is callable"@,
    );
    lemma_taken(skills, skills.len(), i, first);
    let taken = taken_lines(skills, skills.len());
    let all = skills_lines(true, shared, skills, invalid);
    let k = choose|k: int| 0 <= k < taken.len() && taken[k] == line;
    assert(all[1 + invalid.len() + k] == line);
}

/// How many there are is told for skills and for commands, each of its own.
pub proof fn what_was_found_is_counted(
    shared: Option<Seq<char>>,
    skills: Seq<Skill>,
    invalid: Seq<InvalidManifest>,
    count: int,
    collisions: Seq<MenuCollision>,
    telegram: bool,
)
    ensures
        skills_lines(true, shared, skills, invalid)[0].mark == Mark::Note,
        has_prefix(
            skills_lines(true, shared, skills, invalid)[0].text,
            "skills: "@ + dec(skills.len() as int) + " found"@,
        ),
        has_prefix(
            commands_lines(true, shared, count, invalid, collisions, telegram)[0].text,
            "commands: "@ + dec(count) + " found"@,
        ),
        shared is Some ==> has_suffix(
            skills_lines(true, shared, skills, invalid)[0].text,
            shared->0,
        ),
        commands_lines(true, shared, count, invalid, collisions, telegram).len() == 1
            + invalid.len() + collisions.len() + if count > 0 && !telegram {
            1nat
        } else {
            0nat
        },
{
    let a = "skills: "@ + dec(skills.len() as int) + " found"@;
    let b = "commands: "@ + dec(count) + " found"@;
    lemma_ends(a, shared_text(shared));
    lemma_ends(b, shared_text(shared));
    if shared is Some {
        lemma_in_two(a, ", including "@, shared->0);
        lemma_ends(a + ", including "@, shared->0);
    }
}

/// Commands that want one entry of the menu are all named, with the entry.
pub proof fn colliding_commands_are_named(
    shared: Option<Seq<char>>,
    invalid: Seq<InvalidManifest>,
    count: int,
    collisions: Seq<MenuCollision>,
    telegram: bool,
    i: int,
    k: int,
)
    requires
        0 <= i < collisions.len(),
        0 <= k < collisions[i].commands@.len(),
    ensures
        ({
            let line = commands_lines(
                true,
                shared,
                count,
                invalid,
                collisions,
                telegram,
            )[invalid.len() + i + 1];
            &&& line.mark == Mark::Warning
            &&& holds_text(line.text, collisions[i].commands@[k].0@)
            &&& holds_text(line.text, " /"@ + collisions[i].entry@)
        }),
{
    let c = collisions[i];
    let list = joined(colliding(c), ", "@);
    let lead = "    ⚠ "@;
    let want = " all want /"@;
    let end = " — only the first is in the menu"@;
    let said = lead + list + want + c.entry@ + end;
    assert(collision_lines(collisions)[i] == warning(said));
    let line = commands_lines(
        true,
        shared,
        count,
        invalid,
        collisions,
        telegram,
    )[invalid.len() + i + 1];
    assert(line == collision_lines(collisions)[i]);
    assert(said =~= lead + list + (want + c.entry@ + end));
    lemma_holds_part(said, lead, list, want + c.entry@ + end);
    lemma_joined_holds(colliding(c), ", "@, k);
    let p = c.commands@[k];
    let one = p.0@ + " ("@ + p.1@ + ")"@;
    assert(colliding(c)[k] == one);
    lemma_holds_through(said, list, one);
    let none = Seq::<char>::empty();
    assert(one =~= none + p.0@ + (" ("@ + p.1@ + ")"@));
    lemma_holds_part(one, none, p.0@, " ("@ + p.1@ + ")"@);
    lemma_holds_through(said, one, p.0@);
    reveal_strlit(" all want /");
    reveal_strlit(" /");
    let cut = want.take(9);
    assert(want =~= cut + " /"@);
    assert(said =~= (lead + list + cut) + (" /"@ + c.entry@) + end);
    lemma_holds_part(said, lead + list + cut, " /"@ + c.entry@, end);
}

/// Chat is on exactly when there is a token and a user, and then says how many
/// users and which dispatcher; with one but not the other it is off, with a
/// warning; and with neither nothing is said.
pub proof fn the_state_of_chat_is_told(tg: TelegramIngressConfig, agents: Seq<DiscoveredAgent>)
    ensures
        ({
            let lines = telegram_lines(tg, agents);
            let token = tg.bot_token@.len() > 0;
            let users = tg.allowed_user_ids@.len() > 0;
            &&& lines.len() == 0 <==> !token && !users
            &&& token && users ==> has_prefix(
                lines[0].text,
                "telegram ingress: on — "@ + dec(tg.allowed_user_ids@.len() as int),
            ) && has_suffix(lines[0].text, "'"@ + tg.dispatcher_agent@ + "'"@)
            &&& token != users ==> marked(lines, Mark::Warning) == 1 && has_prefix(
                lines[0].text,
                "telegram ingress: OFF"@,
            )
        }),
{
    reveal_with_fuel(marked, 3);
    let lines = telegram_lines(tg, agents);
    let n = dec(tg.allowed_user_ids@.len() as int);
    let on = "telegram ingress: on — "@ + n;
    let mid = " allowed user(s), dispatcher '"@;
    let who = "'"@ + tg.dispatcher_agent@ + "'"@;
    reveal_strlit(" allowed user(s), dispatcher '");
    reveal_strlit("'");
    let said = on + mid + tg.dispatcher_agent@ + "'"@;
    assert(said =~= on + (mid + tg.dispatcher_agent@ + "'"@));
    lemma_ends(on, mid + tg.dispatcher_agent@ + "'"@);
    assert(said =~= (on + mid.drop_last()) + who);
    lemma_ends(on + mid.drop_last(), who);
    if tg.bot_token@.len() > 0 && tg.allowed_user_ids@.len() == 0 {
        assert(lines.drop_last() =~= seq![lines[0]]);
    }
    reveal_strlit("telegram ingress: OFF");
    reveal_strlit("telegram ingress: OFF — bot_token set but allowed_user_ids is empty");
    reveal_strlit("telegram ingress: OFF — allowed_user_ids set but bot_token is empty");
    let off = "telegram ingress: OFF"@;
    let x = "telegram ingress: OFF — bot_token set but allowed_user_ids is empty"@;
    let y = "telegram ingress: OFF — allowed_user_ids set but bot_token is empty"@;
    assert(x.subrange(0, 21) =~= off);
    assert(y.subrange(0, 21) =~= off);
}

proof fn lemma_agent_at(agents: Seq<DiscoveredAgent>, name: Seq<char>, n: nat)
    requires
        n <= agents.len(),
    ensures
        ({
            let at = agent_at(agents, name, n);
            &&& at < n
            &&& at >= 0 ==> agents[at].manifest.name@ == name && forall|j: int|
                0 <= j < at ==> (#[trigger] agents[j]).manifest.name@ != name
            &&& at < 0 ==> forall|j: int|
                0 <= j < n ==> (#[trigger] agents[j]).manifest.name@ != name
        }),
    decreases n,
{
    if n > 0 {
        lemma_agent_at(agents, name, (n - 1) as nat);
    }
}

/// A dispatcher is warned of exactly when it is not there, or when it is one
/// process for every conversation: persistent, and without a key.
pub proof fn a_dispatcher_that_cannot_serve_is_told(
    agents: Seq<DiscoveredAgent>,
    name: Seq<char>,
    i: int,
)
    ensures
        dispatcher_lines(agents, name).len() <= 1,
        (forall|j: int| 0 <= j < agents.len() ==> (#[trigger] agents[j]).manifest.name@ != name)
            ==> dispatcher_lines(agents, name).len() == 1,
        0 <= i < agents.len() && agents[i].manifest.name@ == name && (forall|j: int|
            0 <= j < i ==> (#[trigger] agents[j]).manifest.name@ != name) ==> (dispatcher_lines(
            agents,
            name,
        ).len() == 1 <==> agents[i].manifest.lifecycle.persistent
            && agents[i].manifest.lifecycle.key is None),
        dispatcher_lines(agents, name).len() == 1 ==> dispatcher_lines(agents, name)[0].mark
            == Mark::Warning && holds_text(
            dispatcher_lines(agents, name)[0].text,
            "'"@ + name + "'"@,
        ),
{
    lemma_agent_at(agents, name, agents.len());
    reveal_strlit("'");
    reveal_strlit("    ⚠ dispatcher agent '");
    reveal_strlit("' not found — every message will fail");
    reveal_strlit("    ⚠ dispatcher '");
    reveal_strlit(
        "' is persistent with no [lifecycle] key — every conversation shares one process, and whatever it holds. Set key = \"chat_id\".",
    );
    let quoted = "'"@ + name + "'"@;
    let a = "    ⚠ dispatcher agent '"@;
    let b = "' not found — every message will fail"@;
    assert(a + name + b =~= a.drop_last() + quoted + b.skip(1));
    lemma_holds_part(a + name + b, a.drop_last(), quoted, b.skip(1));
    let c = "    ⚠ dispatcher '"@;
    let d =
        "' is persistent with no [lifecycle] key — every conversation shares one process, and whatever it holds. Set key = \"chat_id\"."@;
    assert(c + name + d =~= c.drop_last() + quoted + d.skip(1));
    lemma_holds_part(c + name + d, c.drop_last(), quoted, d.skip(1));
}

/// A plugin that is not found is an error with its name and why; one that is
/// found, and every built-in notifier, is not.
pub proof fn a_missing_plugin_is_an_error(
    p: PluginCheck,
    driver: String,
)
    ensures
        plugin_line_of(p).mark == Mark::Error <==> p.found is Err,
        notifier_line(NotifierCheck { driver, plugin: Some(p) }).mark == Mark::Error <==> p.found
            is Err,
        notifier_line(NotifierCheck { driver, plugin: None }).mark == Mark::Note,
        p.found matches Err(e) ==> holds_text(plugin_line_of(p).text, p.plugin@) && has_suffix(
            plugin_line_of(p).text,
            e@,
        ),
        p.found matches Ok(path) ==> holds_text(plugin_line_of(p).text, p.plugin@) && has_suffix(
            plugin_line_of(p).text,
            path@,
        ),
        holds_text(notifier_line(NotifierCheck { driver, plugin: None }).text, driver@),
        holds_text(notifier_line(NotifierCheck { driver, plugin: Some(p) }).text, p.plugin@),
{
    let end = match p.found {
        Ok(path) => path@,
        Err(e) => e@,
    };
    let a = if p.found is Ok {
        "    plugin "@
    } else {
        "    ✗ plugin "@
    };
    let b = if p.found is Ok {
        "    notifier driver=plugin name="@
    } else {
        "    ✗ notifier plugin "@
    };
    let mid = if p.found is Ok {
        " → "@
    } else {
        " not found: "@
    };
    let said = a + p.plugin@ + mid + end;
    lemma_ends(a + p.plugin@ + mid, end);
    lemma_in_two(a + p.plugin@, mid, end);
    lemma_holds_part(said, a, p.plugin@, mid + end);
    let other = b + p.plugin@ + mid + end;
    lemma_in_two(b + p.plugin@, mid, end);
    lemma_holds_part(other, b, p.plugin@, mid + end);
    lemma_holds_part(
        "    notifier driver="@ + driver@ + " (built-in)"@,
        "    notifier driver="@,
        driver@,
        " (built-in)"@,
    );
}

proof fn lemma_marked_at_least(lines: Seq<LineView>, i: int)
    requires
        0 <= i < lines.len(),
    ensures
        marked(lines, lines[i].mark) >= 1,
    decreases lines.len(),
{
    if i < lines.len() - 1 {
        lemma_marked_at_least(lines.drop_last(), i);
    }
}

/// An agent whose manifest is not valid has one line, an error that names it and
/// says why; a valid one has a line for every plugin and notifier that it uses,
/// and a missing plugin counts as an error.
pub proof fn an_agent_is_checked_in_full(m: AgentManifest, c: AgentCheck, i: int)
    ensures
        c.valid matches Err(e) ==> agent_lines(m, c) == seq![error("✗ "@ + m.name@ + ": "@ + e@)],
        c.valid is Ok ==> agent_lines(m, c)[0] == note("✓ "@ + m.name@ + ": manifest ok"@),
        c.valid is Ok && 0 <= i < c.plugins@.len() ==> agent_lines(m, c)[i + 1] == plugin_line_of(
            c.plugins@[i],
        ),
        c.valid is Ok && 0 <= i < c.notifiers@.len() ==> agent_lines(m, c)[c.plugins@.len() + i + 1]
            == notifier_line(c.notifiers@[i]),
        c.valid is Ok && 0 <= i < c.plugins@.len() && c.plugins@[i].found is Err ==> marked(
            agent_lines(m, c),
            Mark::Error,
        ) >= 1,
{
    let all = agent_lines(m, c);
    if c.valid is Ok && 0 <= i < c.plugins@.len() {
        assert(all[i + 1] == plugin_line_of(c.plugins@[i]));
        if c.plugins@[i].found is Err {
            lemma_marked_at_least(all, i + 1);
        }
    }
}

/// An agent without limits is warned of, and so is a manifest that is not the one
/// the daemon last saw; a manifest that is the same is not.
pub proof fn what_changed_or_is_unbounded_is_warned_of(
    name: Seq<char>,
    cached: String,
    now: String,
)
    ensures
        security_lines(name, true).len() == 0,
        security_lines(name, false).len() == 1 && security_lines(name, false)[0].mark
            == Mark::Warning && holds_text(security_lines(name, false)[0].text, name),
        drift_lines(name, None).len() == 0,
        drift_lines(name, Some((cached, now))).len() == 0 <==> cached@ == now@,
        cached@ != now@ ==> drift_lines(name, Some((cached, now)))[0].mark == Mark::Warning
            && has_suffix(
            drift_lines(name, Some((cached, now)))[0].text,
            "(cached "@ + fitting(cached@, 12) + " → now "@ + fitting(now@, 12) + ")"@,
        ) && holds_text(drift_lines(name, Some((cached, now)))[0].text, name),
{
    let lead = "    ⚠ "@;
    let end =
        ": no [security] section — blast radius is unbounded. See docs/security/threat-model.md."@;
    lemma_holds_part(lead + name + end, lead, name, end);
    let mid = ": manifest drift since last daemon run (cached "@;
    let a = fitting(cached@, 12);
    let b = fitting(now@, 12);
    let said = lead + name + mid + a + " → now "@ + b + ")"@;
    reveal_strlit(": manifest drift since last daemon run (cached ");
    reveal_strlit("(cached ");
    let cut = mid.take(mid.len() - 8);
    assert(mid =~= cut + "(cached "@);
    let hashes = "(cached "@ + a + " → now "@ + b + ")"@;
    assert(said =~= (lead + name + cut) + hashes);
    lemma_ends(lead + name + cut, hashes);
    assert(said =~= lead + name + (cut + hashes));
    lemma_holds_part(said, lead, name, cut + hashes);
}

proof fn lemma_hot(snap: Seq<LiveProcess>, i: int)
    requires
        0 <= i < snap.len(),
        snap[i].deadline_pct >= 80,
    ensures
        hot_list(snap).contains(hot_line(snap[i])),
    decreases snap.len(),
{
    let head = snap.drop_last();
    let before = hot_list(head);
    let all = hot_list(snap);
    if i < head.len() {
        lemma_hot(head, i);
        assert(head[i] == snap[i]);
        let k = choose|k: int| 0 <= k < before.len() && before[k] == hot_line(snap[i]);
        assert(all[k] == hot_line(snap[i]));
    } else {
        assert(all.last() == hot_line(snap[i]));
    }
}

proof fn lemma_hot_marks(snap: Seq<LiveProcess>)
    ensures
        marked(hot_list(snap), Mark::Error) == snap.filter(
            |p: LiveProcess| p.deadline_pct >= 100,
        ).len(),
        marked(hot_list(snap), Mark::Warning) == snap.filter(
            |p: LiveProcess| 80 <= p.deadline_pct < 100,
        ).len(),
    decreases snap.len(),
{
    reveal(Seq::filter);
    let late = |p: LiveProcess| p.deadline_pct >= 100;
    let near = |p: LiveProcess| 80 <= p.deadline_pct < 100;
    if snap.len() > 0 {
        let head = snap.drop_last();
        lemma_hot_marks(head);
        let before = hot_list(head);
        if snap.last().deadline_pct >= 80 {
            let all = hot_list(snap);
            assert(all.drop_last() =~= before);
            assert(all.last() == hot_line(snap.last()));
        }
    }
}

/// A child that used up its deadline is an error, one that used four fifths of it
/// a warning, and no other child is listed: each of them counts once.
pub proof fn a_late_child_is_told(snap: Seq<LiveProcess>, i: int)
    requires
        0 <= i < snap.len(),
    ensures
        snap[i].deadline_pct >= 80 ==> hot_lines(snap).contains(hot_line(snap[i])),
        hot_line(snap[i]).mark == Mark::Error <==> snap[i].deadline_pct >= 100,
        marked(hot_list(snap), Mark::Error) == snap.filter(
            |p: LiveProcess| p.deadline_pct >= 100,
        ).len(),
        marked(hot_list(snap), Mark::Warning) == snap.filter(
            |p: LiveProcess| 80 <= p.deadline_pct < 100,
        ).len(),
{
    lemma_hot_marks(snap);
    if snap[i].deadline_pct >= 80 {
        lemma_hot(snap, i);
        let list = hot_list(snap);
        let k = choose|k: int| 0 <= k < list.len() && list[k] == hot_line(snap[i]);
        assert(hot_lines(snap)[k + 2] == hot_line(snap[i]));
    }
}

/// Every manifest that did not load is an error with its path and why.
pub proof fn an_unloadable_manifest_is_an_error(invalid: Seq<InvalidManifest>, i: int)
    requires
        0 <= i < invalid.len(),
    ensures
        unloadable_lines(invalid).len() == invalid.len(),
        unloadable_lines(invalid)[i].mark == Mark::Error,
        has_suffix(
            unloadable_lines(invalid)[i].text,
            invalid[i].path@ + ": "@ + invalid[i].error@,
        ),
{
    let lead = "✗ "@;
    lemma_in_two(lead, invalid[i].path@, ": "@);
    lemma_in_two(lead, invalid[i].path@ + ": "@, invalid[i].error@);
    lemma_ends(lead, invalid[i].path@ + ": "@ + invalid[i].error@);
}

/// The summary tells the agents, then the errors, then the warnings: as many as
/// there are lines with that mark.
pub proof fn the_summary_counts_each_mark(lines: Seq<LineView>, agents: nat)
    ensures
        marked(lines, Mark::Error) == lines.filter(|l: LineView| l.mark == Mark::Error).len(),
        marked(lines, Mark::Warning) == lines.filter(|l: LineView| l.mark == Mark::Warning).len(),
        has_prefix(
            summary_line(lines, agents).text,
            "summary: "@ + dec(agents as int) + " agent(s), "@ + dec(
                lines.filter(|l: LineView| l.mark == Mark::Error).len() as int,
            ) + " error(s)"@,
        ),
        has_suffix(
            summary_line(lines, agents).text,
            ", "@ + dec(lines.filter(|l: LineView| l.mark == Mark::Warning).len() as int)
                + " warning(s)"@,
        ),
{
    lemma_marked_is(lines, Mark::Error);
    lemma_marked_is(lines, Mark::Warning);
    let e = dec(marked(lines, Mark::Error) as int);
    let w = dec(marked(lines, Mark::Warning) as int);
    let top = "summary: "@ + dec(agents as int) + " agent(s), "@ + e;
    reveal_strlit(" error(s), ");
    reveal_strlit(" error(s)");
    reveal_strlit(", ");
    assert(" error(s), "@ =~= " error(s)"@ + ", "@);
    let said = top + " error(s), "@ + w + " warning(s)"@;
    let end = ", "@ + w + " warning(s)"@;
    assert(said =~= (top + " error(s)"@) + end);
    lemma_ends(top + " error(s)"@, end);
}

proof fn lemma_marked_is(lines: Seq<LineView>, mark: Mark)
    ensures
        marked(lines, mark) == lines.filter(|l: LineView| l.mark == mark).len(),
    decreases lines.len(),
{
    reveal(Seq::filter);
    if lines.len() > 0 {
        lemma_marked_is(lines.drop_last(), mark);
    }
}

/// A persistent agent is shown with what tells its processes apart and each of its
/// limits behind that limit's own name; any other has no such line.
pub proof fn a_persistent_agent_shows_its_limits(lc: Lifecycle)
    requires
        lc.persistent,
        lc.key is Some,
        lc.max_invocations > 0,
    ensures
        lifecycle_lines(lc).len() == 1 && lifecycle_lines(lc)[0].mark == Mark::Note,
        has_prefix(lifecycle_lines(lc)[0].text, "    lifecycle=persistent key="@ + lc.key->0@),
        holds_text(
            lifecycle_lines(lc)[0].text,
            " max_instances="@ + dec(lc.max_instances as int) + " idle="@ + dec(
                lc.idle_timeout_seconds as int,
            ) + "s"@,
        ),
        has_suffix(
            lifecycle_lines(lc)[0].text,
            " max_invocations="@ + dec(lc.max_invocations as int),
        ),
        lifecycle_lines(Lifecycle { persistent: false, ..lc }).len() == 0,
{
    let head = "    lifecycle=persistent key="@ + lc.key->0@;
    let m = " max_instances="@;
    let a = dec(lc.max_instances as int);
    let i = " idle="@;
    let b = dec(lc.idle_timeout_seconds as int);
    let s = "s max_invocations="@;
    let c = dec(lc.max_invocations as int);
    let said = head + m + a + i + b + s + c;
    assert(s =~= "s"@ + " max_invocations="@) by {
        reveal_strlit("s max_invocations=");
        reveal_strlit("s");
        reveal_strlit(" max_invocations=");
    }
    let limits = m + a + i + b + "s"@;
    let end = " max_invocations="@ + c;
    lemma_in_two(head, m, a);
    lemma_in_two(head, m + a, i);
    lemma_in_two(head, m + a + i, b);
    lemma_in_two(head, m + a + i + b, "s"@);
    lemma_in_two(head + (m + a + i + b), "s"@, " max_invocations="@);
    lemma_in_two(head + limits, " max_invocations="@, c);
    assert(said == head + limits + end);
    lemma_ends(head + limits, end);
    lemma_holds_part(said, head, limits, end);
    lemma_in_two(head, limits, end);
    lemma_ends(head, limits + end);
}

/// A late child is named by its kind and label, its pid and its agent, and told
/// with its age, its deadline and how much of that it used.
pub proof fn a_late_child_is_named(p: LiveProcess)
    ensures
        holds_text(
            hot_line(p).text,
            " "@ + p.kind@ + "."@ + p.label@ + " pid="@ + dec(p.pid as int) + " agent="@ + p.owner@,
        ),
        has_suffix(
            hot_line(p).text,
            " age="@ + dec(p.age_seconds as int) + "s deadline="@ + dec(p.deadline_seconds as int)
                + "s ("@ + dec(p.deadline_pct as int) + "%)"@,
        ),
{
    let flag = if p.deadline_pct >= 100 {
        "✗"@
    } else {
        "⚠"@
    };
    let top = "    "@ + flag;
    let pid = dec(p.pid as int);
    let age = dec(p.age_seconds as int);
    let most = dec(p.deadline_seconds as int);
    let pct = dec(p.deadline_pct as int);
    let who = " "@ + p.kind@ + "."@ + p.label@ + " pid="@ + pid + " agent="@ + p.owner@;
    let how = " age="@ + age + "s deadline="@ + most + "s ("@ + pct + "%)"@;
    lemma_in_two(top, " "@, p.kind@);
    lemma_in_two(top, " "@ + p.kind@, "."@);
    lemma_in_two(top, " "@ + p.kind@ + "."@, p.label@);
    lemma_in_two(top, " "@ + p.kind@ + "."@ + p.label@, " pid="@);
    lemma_in_two(top, " "@ + p.kind@ + "."@ + p.label@ + " pid="@, pid);
    lemma_in_two(top, " "@ + p.kind@ + "."@ + p.label@ + " pid="@ + pid, " agent="@);
    lemma_in_two(top, " "@ + p.kind@ + "."@ + p.label@ + " pid="@ + pid + " agent="@, p.owner@);
    let head = top + who;
    lemma_in_two(head, " age="@, age);
    lemma_in_two(head, " age="@ + age, "s deadline="@);
    lemma_in_two(head, " age="@ + age + "s deadline="@, most);
    lemma_in_two(head, " age="@ + age + "s deadline="@ + most, "s ("@);
    lemma_in_two(head, " age="@ + age + "s deadline="@ + most + "s ("@, pct);
    lemma_in_two(head, " age="@ + age + "s deadline="@ + most + "s ("@ + pct, "%)"@);
    assert(hot_line(p).text == head + how);
    lemma_ends(head, how);
    lemma_holds_part(head + how, top, who, how);
}

} // verus!
