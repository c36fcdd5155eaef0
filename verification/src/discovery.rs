//! Manifest discovery.
//!
//! `agent.toml` files are searched for in `$DOTAGENT_ROOT` (a colon-separated
//! list), in the standard agents directory, in `./agents` and in the working
//! directory. What is found in those directories comes in as a list of
//! [`ScanEntry`]; which agents that makes, and which failures, is decided
//! here.

use crate::manifest::{AgentManifest, ScheduleDecl};
use crate::text::{
    chars_of, copy_all, dec, dec_usize, has_prefix, has_suffix, holds_text, in_order, join,
    joined, lemma_ends, lemma_holds_part, lemma_holds_through, lemma_joined_holds, same,
    sorted_unique, views,
};
use vstd::prelude::*;

verus! {

broadcast use vstd::string::group_string_axioms;

/// A loaded manifest paired with the directory it came from.
#[derive(Debug)]
pub struct DiscoveredAgent {
    pub manifest: AgentManifest,
    pub dir: String,
}

/// A manifest that exists on disk but could not be loaded.
#[derive(Debug, Clone, PartialEq, Eq)]
pub struct InvalidManifest {
    pub path: String,
    /// Human-readable parse or validation failure.
    pub error: String,
}

/// Everything a scan found: the agents that loaded, and the ones that didn't.
#[derive(Debug)]
pub struct Discovery {
    pub agents: Vec<DiscoveredAgent>,
    pub invalid: Vec<InvalidManifest>,
}

/// What loading a directory's manifest came to.
#[derive(Debug)]
pub enum ManifestLoad {
    /// The directory has none.
    Absent,
    Loaded(AgentManifest),
    Failed(String),
}

/// One directory of a search root.
#[derive(Debug)]
pub struct ScanEntry {
    pub dir: String,
    pub load: ManifestLoad,
}

/// Whether an agent of this name is among `agents`.
pub open spec fn has_agent(agents: Seq<DiscoveredAgent>, name: Seq<char>) -> bool {
    exists|i: int| 0 <= i < agents.len() && #[trigger] agents[i].manifest.name@ == name
}

/// The agents of a list of directories: of two with one name, the first.
pub open spec fn agents_in(entries: Seq<ScanEntry>) -> Seq<DiscoveredAgent>
    decreases entries.len(),
{
    if entries.len() == 0 {
        Seq::empty()
    } else {
        let before = agents_in(entries.drop_last());
        match entries.last().load {
            ManifestLoad::Loaded(m) => if has_agent(before, m.name@) {
                before
            } else {
                before.push(DiscoveredAgent { manifest: m, dir: entries.last().dir })
            },
            _ => before,
        }
    }
}

/// The path of a directory's manifest.
pub open spec fn manifest_path(dir: Seq<char>) -> Seq<char> {
    path_joined(dir, "agent.toml"@)
}

/// What is wrong in a list of directories: every manifest that failed, with
/// its path and its error.
pub open spec fn failures_in(entries: Seq<ScanEntry>) -> Seq<(Seq<char>, Seq<char>)>
    decreases entries.len(),
{
    if entries.len() == 0 {
        Seq::empty()
    } else {
        let before = failures_in(entries.drop_last());
        match entries.last().load {
            ManifestLoad::Failed(e) => before.push((manifest_path(entries.last().dir@), e@)),
            _ => before,
        }
    }
}

/// What a list of invalid manifests says.
pub open spec fn invalid_views(invalid: Seq<InvalidManifest>) -> Seq<(Seq<char>, Seq<char>)> {
    invalid.map_values(|i: InvalidManifest| (i.path@, i.error@))
}

/// `part` below `base`, as `Path::join` puts it for a relative `part`.
pub open spec fn path_joined(base: Seq<char>, part: Seq<char>) -> Seq<char> {
    if base.len() == 0 || base.last() == '/' {
        base + part
    } else {
        base + "/"@ + part
    }
}

/// `part` below `base`.
pub fn join_path(base: &str, part: &str) -> (r: String)
    ensures
        r@ == path_joined(base@, part@),
{
    let v = chars_of(base);
    let mut out = base.to_owned();
    if v.len() > 0 && v[v.len() - 1] != '/' {
        out.append("/");
    }
    out.append(part);
    out
}

fn position_of(agents: &Vec<DiscoveredAgent>, name: &str) -> (r: Option<usize>)
    ensures
        match r {
            Some(i) => {
                &&& i < agents@.len()
                &&& agents@[i as int].manifest.name@ == name@
                &&& forall|k: int| 0 <= k < i ==> #[trigger] agents@[k].manifest.name@ != name@
            },
            None => !has_agent(agents@, name@),
        },
{
    let mut i: usize = 0;
    while i < agents.len()
        invariant
            i <= agents@.len(),
            forall|k: int| 0 <= k < i ==> #[trigger] agents@[k].manifest.name@ != name@,
        decreases agents@.len() - i,
    {
        if same(agents[i].manifest.name.as_str(), name) {
            return Some(i);
        }
        i = i + 1;
    }
    None
}

/// Sort what the search roots hold into agents and failures, keeping going
/// past a broken manifest: one bad `agent.toml` must not take the others down
/// with it.
pub fn discover(entries: Vec<ScanEntry>) -> (r: Discovery)
    ensures
        r.agents@ == agents_in(entries@),
        invalid_views(r.invalid@) == failures_in(entries@),
{
    let mut agents: Vec<DiscoveredAgent> = Vec::new();
    let mut invalid: Vec<InvalidManifest> = Vec::new();
    let ghost all = entries@;
    proof {
        assert(invalid_views(invalid@) =~= Seq::<(Seq<char>, Seq<char>)>::empty());
    }
    for entry in it: entries
        invariant
            it.seq() == all,
            agents@ == agents_in(all.take(it.index() as int)),
            invalid_views(invalid@) == failures_in(all.take(it.index() as int)),
    {
        let ghost n = it.index() as int;
        let ghost failed = invalid_views(invalid@);
        proof {
            assert(all.take(n + 1).drop_last() =~= all.take(n));
            assert(all.take(n + 1).last() == entry);
        }
        match entry.load {
            ManifestLoad::Absent => {},
            ManifestLoad::Loaded(manifest) => {
                let known = position_of(&agents, manifest.name.as_str()).is_some();
                proof {
                    if known {
                        assert(has_agent(agents@, manifest.name@));
                    }
                }
                if !known {
                    agents.push(DiscoveredAgent { manifest, dir: entry.dir });
                }
            },
            ManifestLoad::Failed(error) => {
                let path = join_path(entry.dir.as_str(), "agent.toml");
                invalid.push(InvalidManifest { path, error });
                proof {
                    assert(invalid_views(invalid@) =~= failed.push(
                        (manifest_path(entry.dir@), error@),
                    ));
                }
            },
        }
    }
    proof {
        assert(all.take(all.len() as int) =~= all);
    }
    Discovery { agents, invalid }
}

/// No two discovered agents share a name.
pub proof fn discovered_names_are_unique(entries: Seq<ScanEntry>)
    ensures
        forall|i: int, j: int|
            0 <= i < j < agents_in(entries).len() ==> (#[trigger] agents_in(
                entries,
            )[i]).manifest.name@ != (#[trigger] agents_in(entries)[j]).manifest.name@,
    decreases entries.len(),
{
    if entries.len() > 0 {
        discovered_names_are_unique(entries.drop_last());
        let before = agents_in(entries.drop_last());
        let all = agents_in(entries);
        assert forall|i: int, j: int| 0 <= i < j < all.len() implies (
        #[trigger] all[i]).manifest.name@ != (#[trigger] all[j]).manifest.name@ by {
            assert(all[i] == before[i]);
            if j < before.len() {
                assert(all[j] == before[j]);
            }
        }
    }
}

/// A broken manifest hides nothing: every agent that loads is found, whatever
/// else fails.
pub proof fn a_broken_manifest_hides_nothing(entries: Seq<ScanEntry>, i: int)
    requires
        0 <= i < entries.len(),
        entries[i].load is Loaded,
    ensures
        has_agent(agents_in(entries), entries[i].load->Loaded_0.name@),
    decreases entries.len(),
{
    let before = agents_in(entries.drop_last());
    let all = agents_in(entries);
    let name = entries[i].load->Loaded_0.name@;
    if i < entries.len() - 1 {
        assert(entries.drop_last()[i] == entries[i]);
        a_broken_manifest_hides_nothing(entries.drop_last(), i);
        let k = choose|k: int| 0 <= k < before.len() && #[trigger] before[k].manifest.name@ == name;
        assert(all[k].manifest.name@ == name);
    } else {
        if !has_agent(before, name) {
            assert(all[before.len() as int].manifest.name@ == name);
        }
    }
}

/// Every manifest that fails is reported: none is dropped in silence.
pub proof fn every_failure_is_reported(entries: Seq<ScanEntry>, i: int)
    requires
        0 <= i < entries.len(),
        entries[i].load is Failed,
    ensures
        failures_in(entries).contains(
            (manifest_path(entries[i].dir@), entries[i].load->Failed_0@),
        ),
    decreases entries.len(),
{
    let before = failures_in(entries.drop_last());
    let all = failures_in(entries);
    let f = (manifest_path(entries[i].dir@), entries[i].load->Failed_0@);
    if i < entries.len() - 1 {
        assert(entries.drop_last()[i] == entries[i]);
        every_failure_is_reported(entries.drop_last(), i);
        let k = choose|k: int| 0 <= k < before.len() && before[k] == f;
        assert(all[k] == f);
    } else {
        assert(all[before.len() as int] == f);
    }
}

/// The paths of a list of invalid manifests.
pub open spec fn invalid_paths(invalid: Seq<InvalidManifest>) -> Seq<Seq<char>> {
    invalid.map_values(|i: InvalidManifest| i.path@)
}

/// The error for a name no agent has.
pub open spec fn not_found_text(name: Seq<char>, invalid: Seq<InvalidManifest>) -> Seq<char> {
    if invalid.len() == 0 {
        "agent not found: "@ + name
    } else {
        "agent not found: "@ + name + " ("@ + dec(invalid.len() as int)
            + " manifest(s) failed to load and may be the one you meant: "@ + joined(
            invalid_paths(invalid),
            ", "@,
        ) + ")"@
    }
}

/// Find a single agent by name.
///
/// If the name is nowhere to be found and something failed to parse, the error
/// says so: otherwise "agent not found" sends you looking in the wrong place.
pub fn find_by_name<'a>(found: &'a Discovery, name: &str) -> (r: Result<&'a DiscoveredAgent, String>)
    ensures
        r is Ok <==> has_agent(found.agents@, name@),
        r matches Ok(a) ==> exists|i: int|
            0 <= i < found.agents@.len() && (#[trigger] found.agents@[i]) == *a
                && a.manifest.name@ == name@ && forall|k: int|
                0 <= k < i ==> (#[trigger] found.agents@[k]).manifest.name@ != name@,
        r matches Err(e) ==> e@ == not_found_text(name@, found.invalid@),
{
    match position_of(&found.agents, name) {
        Some(i) => {
            proof {
                assert(has_agent(found.agents@, name@));
            }
            Ok(&found.agents[i])
        },
        None => {
            let mut out = "agent not found: ".to_owned();
            out.append(name);
            if found.invalid.len() == 0 {
                return Err(out);
            }
            let mut paths: Vec<String> = Vec::new();
            let mut i: usize = 0;
            while i < found.invalid.len()
                invariant
                    i <= found.invalid@.len(),
                    views(paths@) == invalid_paths(found.invalid@.take(i as int)),
                decreases found.invalid@.len() - i,
            {
                let ghost before = views(paths@);
                paths.push(found.invalid[i].path.clone());
                i = i + 1;
                proof {
                    assert(views(paths@) =~= before.push(found.invalid@[i as int - 1].path@));
                    assert(invalid_paths(found.invalid@.take(i as int)) =~= invalid_paths(
                        found.invalid@.take(i as int - 1),
                    ).push(found.invalid@[i as int - 1].path@));
                }
            }
            proof {
                assert(found.invalid@.take(found.invalid@.len() as int) =~= found.invalid@);
            }
            out.append(" (");
            out.append(dec_usize(paths.len()).as_str());
            out.append(" manifest(s) failed to load and may be the one you meant: ");
            out.append(join(paths.as_slice(), ", ").as_str());
            out.append(")");
            proof {
                assert(paths@.len() == views(paths@).len());
            }
            Err(out)
        },
    }
}

/// The parts of `s[at..]` between colons, empty ones left out, with `part`
/// already begun.
pub open spec fn roots_from(s: Seq<char>, at: int, part: Seq<char>) -> Seq<Seq<char>>
    decreases s.len() - at,
{
    if at < 0 || at >= s.len() {
        if part.len() > 0 {
            seq![part]
        } else {
            Seq::empty()
        }
    } else if s[at] == ':' {
        if part.len() > 0 {
            seq![part] + roots_from(s, at + 1, Seq::empty())
        } else {
            roots_from(s, at + 1, Seq::empty())
        }
    } else {
        roots_from(s, at + 1, part.push(s[at]))
    }
}

/// The roots that are searched, in order.
pub open spec fn roots(
    overrides: Option<Seq<char>>,
    agents_dir: Seq<char>,
    cwd: Option<Seq<char>>,
) -> Seq<Seq<char>> {
    let first = match overrides {
        Some(o) => roots_from(o, 0, Seq::empty()),
        None => Seq::empty(),
    };
    let standard = first.push(agents_dir);
    match cwd {
        Some(c) => standard.push(path_joined(c, "agents"@)).push(c),
        None => standard,
    }
}

fn split_roots(text: &str) -> (r: Vec<String>)
    ensures
        views(r@) == roots_from(text@, 0, Seq::empty()),
{
    let v = chars_of(text);
    let mut out: Vec<String> = Vec::new();
    let mut part = String::new();
    let mut at: usize = 0;
    proof {
        assert(views(out@) + roots_from(v@, 0, Seq::empty()) =~= roots_from(v@, 0, Seq::empty()));
    }
    while at < v.len()
        invariant
            at <= v@.len(),
            views(out@) + roots_from(v@, at as int, part@) == roots_from(v@, 0, Seq::empty()),
        decreases v@.len() - at,
    {
        let ghost before = views(out@);
        let ghost rest = roots_from(v@, at as int + 1, Seq::empty());
        if v[at] == ':' {
            if !part.as_str().is_empty() {
                let ghost done = part@;
                out.push(part);
                part = String::new();
                proof {
                    assert(views(out@) =~= before.push(done));
                    assert(before.push(done) + rest =~= before + (seq![done] + rest));
                }
            } else {
                proof {
                    assert(part@ =~= Seq::<char>::empty());
                }
            }
        } else {
            part.push(v[at]);
        }
        at = at + 1;
    }
    let ghost before = views(out@);
    if !part.as_str().is_empty() {
        let ghost done = part@;
        out.push(part);
        proof {
            assert(views(out@) =~= before + seq![done]);
        }
    } else {
        proof {
            assert(before + Seq::<Seq<char>>::empty() =~= before);
        }
    }
    out
}

/// The view of an optional text.
pub open spec fn maybe_text(s: Option<&str>) -> Option<Seq<char>> {
    match s {
        Some(t) => Some(t@),
        None => None,
    }
}

/// The directories that are searched, in order: those of the override list,
/// the standard one, `agents` below the working directory, and the working
/// directory.
pub fn search_roots(overrides: Option<&str>, agents_dir: &str, cwd: Option<&str>) -> (r: Vec<String>)
    ensures
        views(r@) == roots(maybe_text(overrides), agents_dir@, maybe_text(cwd)),
{
    let mut out: Vec<String> = match overrides {
        Some(o) => split_roots(o),
        None => Vec::new(),
    };
    proof {
        if overrides is None {
            assert(views(out@) =~= Seq::<Seq<char>>::empty());
        }
    }
    let ghost first = views(out@);
    out.push(agents_dir.to_owned());
    proof {
        assert(views(out@) =~= first.push(agents_dir@));
    }
    if let Some(c) = cwd {
        let ghost standard = views(out@);
        out.push(join_path(c, "agents"));
        out.push(c.to_owned());
        proof {
            assert(views(out@) =~= standard.push(path_joined(c@, "agents"@)).push(c@));
        }
    }
    out
}

// ---------------------------------------------------------------------
// Schedules
// ---------------------------------------------------------------------

/// Where the first schedule of this id stands, or the length when there is
/// none.
pub open spec fn schedule_at(schedules: Seq<ScheduleDecl>, id: Seq<char>) -> int
    decreases schedules.len(),
{
    if schedules.len() == 0 || schedules[0].id@ == id {
        0
    } else {
        1 + schedule_at(schedules.skip(1), id)
    }
}

/// Whether a manifest declares a schedule of this id.
pub open spec fn has_schedule(m: AgentManifest, id: Seq<char>) -> bool {
    schedule_at(m.schedules@, id) < m.schedules@.len()
}

/// Resolve an id to a schedule within a manifest.
pub fn schedule_by_id<'a>(manifest: &'a AgentManifest, schedule_id: &str) -> (r: Result<
    &'a ScheduleDecl,
    String,
>)
    ensures
        r is Ok <==> has_schedule(*manifest, schedule_id@),
        r matches Ok(s) ==> *s == manifest.schedules@[schedule_at(
            manifest.schedules@,
            schedule_id@,
        )] && s.id@ == schedule_id@,
        r matches Err(e) ==> e@ == "schedule id not found: "@ + schedule_id@,
{
    let mut i: usize = 0;
    proof {
        assert(manifest.schedules@.skip(0) =~= manifest.schedules@);
    }
    while i < manifest.schedules.len()
        invariant
            i <= manifest.schedules@.len(),
            schedule_at(manifest.schedules@, schedule_id@) == i + schedule_at(
                manifest.schedules@.skip(i as int),
                schedule_id@,
            ),
        decreases manifest.schedules@.len() - i,
    {
        if same(manifest.schedules[i].id.as_str(), schedule_id) {
            return Ok(&manifest.schedules[i]);
        }
        i = i + 1;
        proof {
            assert(manifest.schedules@.skip(i as int - 1).skip(1)
                =~= manifest.schedules@.skip(i as int));
        }
    }
    let mut out = "schedule id not found: ".to_owned();
    out.append(schedule_id);
    Err(out)
}

/// What a run that was asked for uses: a schedule id and its arguments.
#[derive(Debug, PartialEq, Eq)]
pub struct RunPlan {
    pub schedule_id: String,
    pub args: Vec<String>,
}

/// Whether `p` is the plan for a schedule with more arguments behind its own.
pub open spec fn plan_of(p: RunPlan, id: Seq<char>, args: Seq<String>, more: Seq<String>) -> bool {
    p.schedule_id@ == id && p.args@ == args + more
}

/// Whether `r` is what a run that was asked for uses: the schedule that was
/// named, else the first one declared, else the trigger pseudo-schedule with
/// no arguments of its own.
pub open spec fn planned(
    m: AgentManifest,
    requested: Option<String>,
    more: Seq<String>,
    trigger_id: Seq<char>,
    r: Result<RunPlan, String>,
) -> bool {
    match requested {
        Some(id) => if has_schedule(m, id@) {
            r matches Ok(p) && plan_of(
                p,
                id@,
                m.schedules@[schedule_at(m.schedules@, id@)].args@,
                more,
            )
        } else {
            r matches Err(e) && e@ == "schedule id not found: "@ + id@
        },
        None => if m.schedules@.len() > 0 {
            r matches Ok(p) && plan_of(p, m.schedules@[0].id@, m.schedules@[0].args@, more)
        } else {
            r matches Ok(p) && plan_of(p, trigger_id, Seq::empty(), more)
        },
    }
}

fn make_plan(id: &str, args: &Vec<String>, more: &Vec<String>) -> (p: RunPlan)
    ensures
        plan_of(p, id@, args@, more@),
{
    let mut all = copy_all(args.as_slice());
    let mut extra = copy_all(more.as_slice());
    all.append(&mut extra);
    RunPlan { schedule_id: id.to_owned(), args: all }
}

/// What a triggered or on-demand run of an agent uses. An agent that exists
/// only to be asked for needs no schedule.
pub fn plan_run(
    manifest: &AgentManifest,
    requested: &Option<String>,
    more: &Vec<String>,
    trigger_schedule_id: &str,
) -> (r: Result<RunPlan, String>)
    ensures
        planned(*manifest, *requested, more@, trigger_schedule_id@, r),
{
    match requested {
        Some(id) => match schedule_by_id(manifest, id.as_str()) {
            Ok(s) => Ok(make_plan(s.id.as_str(), &s.args, more)),
            Err(e) => Err(e),
        },
        None => {
            if manifest.schedules.len() > 0 {
                let s = &manifest.schedules[0];
                Ok(make_plan(s.id.as_str(), &s.args, more))
            } else {
                let none: Vec<String> = Vec::new();
                proof {
                    assert(none@ =~= Seq::<String>::empty());
                }
                Ok(make_plan(trigger_schedule_id, &none, more))
            }
        },
    }
}

/// Whether `r` is the plan of a run that is asked for by hand.
pub open spec fn planned_now(
    agent: Seq<char>,
    m: AgentManifest,
    requested: Option<String>,
    r: Result<RunPlan, String>,
) -> bool {
    if requested is None && m.schedules@.len() == 0 {
        r matches Err(e) && e@ == "agent "@ + agent + " declares no schedules"@
    } else {
        planned(m, requested, Seq::empty(), Seq::empty(), r)
    }
}

/// What `run-now` uses: the schedule that was named, else the first one
/// declared. An agent with none cannot be run this way.
pub fn plan_run_now(agent_name: &str, manifest: &AgentManifest, requested: &Option<String>) -> (r:
    Result<RunPlan, String>)
    ensures
        planned_now(agent_name@, *manifest, *requested, r),
{
    if requested.is_none() && manifest.schedules.len() == 0 {
        let mut out = "agent ".to_owned();
        out.append(agent_name);
        out.append(" declares no schedules");
        return Err(out);
    }
    let none: Vec<String> = Vec::new();
    proof {
        assert(none@ =~= Seq::<String>::empty());
        reveal_strlit("");
        assert(""@ =~= Seq::<char>::empty());
    }
    plan_run(manifest, requested, &none, "")
}

/// What is said of a trigger for an agent that is not there.
pub open spec fn unknown_agent_text(agent: Seq<char>) -> Seq<char> {
    "trigger names unknown agent '"@ + agent + "'"@
}

/// What a trigger for an unknown agent fails with.
pub fn unknown_trigger_agent(agent: &str) -> (r: String)
    ensures
        r@ == unknown_agent_text(agent@),
{
    let mut out = "trigger names unknown agent '".to_owned();
    out.append(agent);
    out.append("'");
    out
}

// ---------------------------------------------------------------------
// Names
// ---------------------------------------------------------------------

/// The names of discovered agents, each once, in order.
pub fn agent_names(agents: &Vec<DiscoveredAgent>) -> (r: Vec<String>)
    ensures
        in_order(views(r@)),
        views(r@).no_duplicates(),
        forall|n: Seq<char>| #[trigger] views(r@).contains(n) <==> has_agent(agents@, n),
{
    let mut names: Vec<String> = Vec::new();
    let mut i: usize = 0;
    while i < agents.len()
        invariant
            i <= agents@.len(),
            views(names@).len() == i,
            forall|k: int| 0 <= k < i ==> views(names@)[k] == #[trigger] agents@[k].manifest.name@,
        decreases agents@.len() - i,
    {
        let ghost before = views(names@);
        names.push(agents[i].manifest.name.clone());
        proof {
            assert(views(names@) =~= before.push(agents@[i as int].manifest.name@));
        }
        i = i + 1;
    }
    let r = sorted_unique(&names);
    proof {
        let all = views(names@);
        assert forall|n: Seq<char>| #[trigger] views(r@).contains(n) <==> has_agent(agents@, n) by {
            if all.contains(n) {
                let k = choose|k: int| 0 <= k < all.len() && all[k] == n;
                assert(agents@[k].manifest.name@ == n);
            }
            if has_agent(agents@, n) {
                let k = choose|k: int|
                    0 <= k < agents@.len() && #[trigger] agents@[k].manifest.name@ == n;
                assert(all[k] == n);
            }
        }
    }
    r
}

// ---------------------------------------------------------------------
// Laws of finding and planning
// ---------------------------------------------------------------------

proof fn lemma_found_was_loaded(entries: Seq<ScanEntry>, name: Seq<char>)
    requires
        has_agent(agents_in(entries), name),
    ensures
        exists|j: int|
            0 <= j < entries.len() && (#[trigger] entries[j]).load is Loaded
                && entries[j].load->Loaded_0.name@ == name,
    decreases entries.len(),
{
    if entries.len() > 0 {
        let head = entries.drop_last();
        let before = agents_in(head);
        let all = agents_in(entries);
        let k = choose|k: int| 0 <= k < all.len() && #[trigger] all[k].manifest.name@ == name;
        if k < before.len() {
            assert(before[k].manifest.name@ == name);
            lemma_found_was_loaded(head, name);
            let j = choose|j: int|
                0 <= j < head.len() && (#[trigger] head[j]).load is Loaded
                    && head[j].load->Loaded_0.name@ == name;
            assert(entries[j].load is Loaded);
        } else {
            let j = entries.len() - 1;
            assert(entries[j].load is Loaded);
        }
    }
}

/// The first manifest of a name is the agent of that name, in the directory where
/// it was found; a later one of the same name never takes its place.
pub proof fn the_first_of_a_name_wins(entries: Seq<ScanEntry>, i: int)
    requires
        0 <= i < entries.len(),
        entries[i].load is Loaded,
        forall|j: int|
            0 <= j < i && (#[trigger] entries[j]).load is Loaded ==> entries[j].load->Loaded_0.name@
                != entries[i].load->Loaded_0.name@,
    ensures
        agents_in(entries).contains(
            DiscoveredAgent { manifest: entries[i].load->Loaded_0, dir: entries[i].dir },
        ),
    decreases entries.len(),
{
    let head = entries.drop_last();
    let before = agents_in(head);
    let all = agents_in(entries);
    let found = DiscoveredAgent { manifest: entries[i].load->Loaded_0, dir: entries[i].dir };
    if i < head.len() {
        assert(head[i] == entries[i]);
        assert forall|j: int| 0 <= j < i && (#[trigger] head[j]).load is Loaded implies
            head[j].load->Loaded_0.name@ != head[i].load->Loaded_0.name@ by {
            assert(entries[j].load is Loaded);
        }
        the_first_of_a_name_wins(head, i);
        let k = choose|k: int| 0 <= k < before.len() && before[k] == found;
        assert(all[k] == found);
    } else {
        let name = entries[i].load->Loaded_0.name@;
        if has_agent(before, name) {
            lemma_found_was_loaded(head, name);
            let j = choose|j: int|
                0 <= j < head.len() && (#[trigger] head[j]).load is Loaded
                    && head[j].load->Loaded_0.name@ == name;
            assert(entries[j].load is Loaded);
        }
        assert(all.last() == found);
    }
}

/// A path below another begins with it and ends with its own part, with exactly
/// one slash where they meet.
pub proof fn a_path_is_joined_by_one_slash(base: Seq<char>, part: Seq<char>)
    ensures
        has_prefix(path_joined(base, part), base),
        has_suffix(path_joined(base, part), part),
        base.len() > 0 && base.last() != '/' ==> path_joined(base, part).len() == base.len() + 1
            + part.len() && path_joined(base, part)[base.len() as int] == '/',
        base.len() > 0 && base.last() == '/' ==> path_joined(base, part).len() == base.len()
            + part.len(),
        path_joined(Seq::empty(), part) == part,
{
    reveal_strlit("/");
    let none = Seq::<char>::empty();
    assert(none + part =~= part);
    lemma_ends(base, part);
    lemma_ends(base + "/"@, part);
    assert(base + "/"@ + part =~= base + ("/"@ + part));
    lemma_ends(base, "/"@ + part);
}

proof fn lemma_roots_walk(s: Seq<char>, at: int, part: Seq<char>, to: int)
    requires
        0 <= at <= to <= s.len(),
        forall|i: int| at <= i < to ==> #[trigger] s[i] != ':',
    ensures
        roots_from(s, at, part) == roots_from(s, to, part + s.subrange(at, to)),
    decreases to - at,
{
    if at < to {
        assert(s[at] != ':');
        lemma_roots_walk(s, at + 1, part.push(s[at]), to);
        assert(part.push(s[at]) + s.subrange(at + 1, to) =~= part + s.subrange(at, to));
    } else {
        assert(part + s.subrange(at, to) =~= part);
    }
}

proof fn lemma_roots_shift(a: Seq<char>, b: Seq<char>, at: int, part: Seq<char>)
    requires
        0 <= at <= b.len(),
    ensures
        roots_from(a + b, a.len() + at, part) == roots_from(b, at, part),
    decreases b.len() - at,
{
    let s = a + b;
    if at < b.len() {
        assert(s[a.len() + at] == b[at]);
        if b[at] == ':' {
            lemma_roots_shift(a, b, at + 1, Seq::empty());
        } else {
            lemma_roots_shift(a, b, at + 1, part.push(b[at]));
        }
    }
}

/// Agents are looked for in the places that the operator names first, one after
/// another as they are written, then in the standard place, and last below and in
/// the working directory.
pub proof fn named_places_are_searched_first(
    first: Seq<char>,
    rest: Seq<char>,
    agents_dir: Seq<char>,
    cwd: Seq<char>,
)
    requires
        first.len() > 0,
        !first.contains(':'),
    ensures
        ({
            let named = roots_from(rest, 0, Seq::empty());
            let all = roots(Some(first + seq![':'] + rest), agents_dir, Some(cwd));
            &&& roots_from(first, 0, Seq::empty()) == seq![first]
            &&& all.len() == named.len() + 4
            &&& all[0] == first
            &&& forall|k: int| 0 <= k < named.len() ==> all[k + 1] == #[trigger] named[k]
            &&& all[(named.len() + 1) as int] == agents_dir
            &&& all[(named.len() + 2) as int] == path_joined(cwd, "agents"@)
            &&& all[(named.len() + 3) as int] == cwd
        }),
        roots(None, agents_dir, None) == seq![agents_dir],
{
    let none = Seq::<char>::empty();
    let s = first + seq![':'] + rest;
    let n = first.len() as int;
    assert forall|i: int| 0 <= i < n implies #[trigger] s[i] != ':' by {
        assert(s[i] == first[i]);
    }
    lemma_roots_walk(s, 0, none, n);
    assert(none + s.subrange(0, n) =~= first);
    assert(s[n] == ':');
    let head = first + seq![':'];
    assert(s =~= head + rest);
    lemma_roots_shift(head, rest, 0, none);
    assert(roots_from(s, 0, none) == seq![first] + roots_from(rest, 0, none));
    lemma_roots_walk(first, 0, none, n);
    assert(none + first.subrange(0, n) =~= first);
    assert(roots(None, agents_dir, None) =~= seq![agents_dir]);
}

proof fn lemma_schedule_at(schedules: Seq<ScheduleDecl>, id: Seq<char>)
    ensures
        0 <= schedule_at(schedules, id) <= schedules.len(),
        schedule_at(schedules, id) < schedules.len() ==> schedules[schedule_at(
            schedules,
            id,
        )].id@ == id,
        forall|j: int|
            0 <= j < schedule_at(schedules, id) && j < schedules.len() ==> (
            #[trigger] schedules[j]).id@ != id,
    decreases schedules.len(),
{
    if schedules.len() > 0 && schedules[0].id@ != id {
        let rest = schedules.skip(1);
        lemma_schedule_at(rest, id);
        let at = schedule_at(rest, id);
        assert forall|j: int| 0 <= j < 1 + at && j < schedules.len() implies (
        #[trigger] schedules[j]).id@ != id by {
            if j > 0 {
                assert(rest[j - 1] == schedules[j]);
            }
        }
        if at < rest.len() {
            assert(rest[at] == schedules[at + 1]);
        }
    }
}

/// A run is of the schedule that is asked for: with the arguments of the first
/// schedule of that id, and those of the call behind them. Where none is asked
/// for it is of the first schedule, and of the triggers' own where there is none.
/// Only a schedule that is not there cannot be planned, and is named.
pub proof fn a_run_is_of_the_schedule_asked_for(
    m: AgentManifest,
    requested: Option<String>,
    more: Seq<String>,
    trigger_id: Seq<char>,
    r: Result<RunPlan, String>,
    i: int,
)
    requires
        planned(m, requested, more, trigger_id, r),
        0 <= i < m.schedules@.len(),
        forall|j: int|
            0 <= j < i ==> (#[trigger] m.schedules@[j]).id@ != m.schedules@[i].id@,
    ensures
        requested is Some && requested->0@ == m.schedules@[i].id@ ==> r is Ok
            && r->Ok_0.schedule_id@ == m.schedules@[i].id@ && r->Ok_0.args@
            == m.schedules@[i].args@ + more,
        requested is None ==> r is Ok && r->Ok_0.schedule_id@ == m.schedules@[0].id@
            && r->Ok_0.args@ == m.schedules@[0].args@ + more,
        r is Err ==> requested is Some && has_suffix(r->Err_0@, requested->0@) && forall|j: int|
            0 <= j < m.schedules@.len() ==> (#[trigger] m.schedules@[j]).id@ != requested->0@,
{
    if requested is Some {
        let id = requested->0@;
        lemma_schedule_at(m.schedules@, id);
        lemma_ends("schedule id not found: "@, id);
        let at = schedule_at(m.schedules@, id);
        if id == m.schedules@[i].id@ {
            if at < i {
                assert(m.schedules@[at].id@ != m.schedules@[i].id@);
            }
        }
    }
}

/// A trigger for an agent without schedules runs under the triggers' own id with
/// its own arguments; asked for by hand, such an agent has nothing to run. A
/// message about an agent that is not there names it.
pub proof fn an_agent_without_schedules_runs_on_triggers_only(
    agent: Seq<char>,
    m: AgentManifest,
    more: Seq<String>,
    trigger_id: Seq<char>,
    r: Result<RunPlan, String>,
    by_hand: Result<RunPlan, String>,
)
    requires
        m.schedules@.len() == 0,
        planned(m, None, more, trigger_id, r),
        planned_now(agent, m, None, by_hand),
    ensures
        r is Ok && r->Ok_0.schedule_id@ == trigger_id && r->Ok_0.args@ == more,
        by_hand is Err && holds_text(by_hand->Err_0@, agent),
        holds_text(unknown_agent_text(agent), agent),
{
    assert(Seq::<String>::empty() + more =~= more);
    lemma_holds_part(
        "agent "@ + agent + " declares no schedules"@,
        "agent "@,
        agent,
        " declares no schedules"@,
    );
    lemma_holds_part(unknown_agent_text(agent), "trigger names unknown agent '"@, agent, "'"@);
}

/// A run by hand is planned like any other, with nothing added to it.
pub proof fn a_run_by_hand_adds_nothing(
    agent: Seq<char>,
    m: AgentManifest,
    requested: Option<String>,
    r: Result<RunPlan, String>,
)
    requires
        m.schedules@.len() > 0,
        planned_now(agent, m, requested, r),
    ensures
        planned(m, requested, Seq::empty(), Seq::empty(), r),
        requested is None ==> r is Ok && r->Ok_0.args@ == m.schedules@[0].args@,
{
    assert(m.schedules@[0].args@ + Seq::<String>::empty() =~= m.schedules@[0].args@);
}

/// A name that is not there is named in the message, and so is every manifest
/// that did not load.
pub proof fn what_was_not_found_may_be_broken(
    name: Seq<char>,
    invalid: Seq<InvalidManifest>,
    i: int,
)
    ensures
        has_prefix(not_found_text(name, invalid), "agent not found: "@ + name),
        0 <= i < invalid.len() ==> holds_text(not_found_text(name, invalid), invalid[i].path@)
            && holds_text(not_found_text(name, invalid), " ("@ + dec(invalid.len() as int)),
{
    let head = "agent not found: "@ + name;
    let none = Seq::<char>::empty();
    if invalid.len() == 0 {
        assert(head =~= head + none);
        lemma_ends(head, none);
    } else {
        let list = joined(invalid_paths(invalid), ", "@);
        let count = " ("@ + dec(invalid.len() as int);
        let mid = " manifest(s) failed to load and may be the one you meant: "@;
        let said = not_found_text(name, invalid);
        assert(said =~= head + (count + mid + list + ")"@));
        lemma_ends(head, count + mid + list + ")"@);
        assert(said =~= head + count + (mid + list + ")"@));
        lemma_holds_part(said, head, count, mid + list + ")"@);
        assert(said =~= (head + count + mid) + list + ")"@);
        lemma_holds_part(said, head + count + mid, list, ")"@);
        if 0 <= i < invalid.len() {
            lemma_joined_holds(invalid_paths(invalid), ", "@, i);
            lemma_holds_through(said, list, invalid[i].path@);
        }
    }
}

/// A schedule that an agent does not have is never run: to ask for it is an error
/// that names it, whatever else is asked for.
pub proof fn a_schedule_that_is_not_there_is_an_error(
    m: AgentManifest,
    id: String,
    more: Seq<String>,
    trigger_id: Seq<char>,
    r: Result<RunPlan, String>,
)
    requires
        planned(m, Some(id), more, trigger_id, r),
        forall|j: int| 0 <= j < m.schedules@.len() ==> (#[trigger] m.schedules@[j]).id@ != id@,
    ensures
        r is Err,
        has_suffix(r->Err_0@, id@),
{
    lemma_schedule_at(m.schedules@, id@);
    lemma_ends("schedule id not found: "@, id@);
}

} // verus!
