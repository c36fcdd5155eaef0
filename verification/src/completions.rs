//! `dotagent completions`: a shell completion script.
//!
//! The generated script is cleaned of the hidden helper subcommand, and a tail
//! is added that asks that helper for agent names at completion time, so the
//! candidates always reflect the manifests on disk right now.

use crate::text::{
    contains, has_prefix, has_suffix, holds_text, join, joined, lemma_ends, lemma_holds_last,
    lemma_holds_more, lemma_holds_part, lemma_holds_through, lemma_in_two, lines_of, remove_all,
    split_lines, starts_with, trim_start, trimmed_start, views, without_from,
};
use vstd::prelude::*;

verus! {

broadcast use vstd::string::group_string_axioms;

/// A shell.
#[derive(Clone, Copy, Debug, PartialEq, Eq, Structural)]
pub enum Shell {
    Bash,
    Elvish,
    Fish,
    PowerShell,
    Zsh,
}

/// Subcommands whose first positional argument is an agent name.
pub open spec fn agent_name_subcommands() -> Seq<Seq<char>> {
    seq!["run"@, "inspect"@, "run-now"@, "logs"@, "install"@, "uninstall"@]
}

fn subcommands() -> (r: Vec<String>)
    ensures
        views(r@) == agent_name_subcommands(),
{
    let mut out: Vec<String> = Vec::new();
    out.push("run".to_owned());
    out.push("inspect".to_owned());
    out.push("run-now".to_owned());
    out.push("logs".to_owned());
    out.push("install".to_owned());
    out.push("uninstall".to_owned());
    proof {
        assert(views(out@) =~= agent_name_subcommands());
    }
    out
}

/// Whether a line offers the hidden helper as a candidate, as the generated
/// scripts of fish and zsh do.
pub open spec fn is_suggestion(line: Seq<char>) -> bool {
    let t = trimmed_start(line);
    ||| has_prefix(t, "complete "@) && holds_text(t, "-a \"_list-agents\""@)
    ||| has_prefix(t, "'_list-agents:"@)
    ||| has_prefix(t, "\"_list-agents:"@)
}

/// True when this line is a candidate suggestion for the hidden helper.
pub fn is_list_agents_suggestion(line: &str) -> (r: bool)
    ensures
        r == is_suggestion(line@),
{
    let t = trim_start(line);
    if starts_with(t.as_str(), "complete ") && contains(t.as_str(), "-a \"_list-agents\"") {
        return true;
    }
    starts_with(t.as_str(), "'_list-agents:") || starts_with(t.as_str(), "\"_list-agents:")
}

/// A line without the helper, when it is a list of options.
pub open spec fn stripped(line: Seq<char>) -> Seq<char> {
    if holds_text(line, "opts="@) {
        without_from(line, " _list-agents"@, 0)
    } else {
        line
    }
}

/// Bash lists subcommands as `opts="run tick ..."`. Strip the helper from
/// those; leave it elsewhere, so that a manual call still works.
pub fn strip_list_agents_from_opts(line: &str) -> (r: String)
    ensures
        r@ == stripped(line@),
{
    if !contains(line, "opts=") {
        return line.to_owned();
    }
    proof {
        reveal_strlit(" _list-agents");
    }
    remove_all(line, " _list-agents")
}

/// The lines of a script without the helper.
pub open spec fn cleaned(lines: Seq<Seq<char>>) -> Seq<Seq<char>>
    decreases lines.len(),
{
    if lines.len() == 0 {
        Seq::empty()
    } else if is_suggestion(lines.last()) {
        cleaned(lines.drop_last())
    } else {
        cleaned(lines.drop_last()).push(stripped(lines.last()))
    }
}

/// A generated script without the helper.
pub fn without_helper(script: &str) -> (r: String)
    ensures
        r@ == joined(cleaned(lines_of(script@)), "\n"@),
{
    let lines = split_lines(script);
    let ghost all = views(lines@);
    let mut kept: Vec<String> = Vec::new();
    let mut i: usize = 0;
    proof {
        assert(all.take(0) =~= Seq::<Seq<char>>::empty());
        assert(views(kept@) =~= Seq::<Seq<char>>::empty());
    }
    while i < lines.len()
        invariant
            i <= lines@.len(),
            all == views(lines@),
            views(kept@) == cleaned(all.take(i as int)),
        decreases lines@.len() - i,
    {
        let ghost before = views(kept@);
        proof {
            assert(all.take(i as int + 1).drop_last() =~= all.take(i as int));
            assert(all.take(i as int + 1).last() == lines@[i as int]@);
        }
        if !is_list_agents_suggestion(lines[i].as_str()) {
            kept.push(strip_list_agents_from_opts(lines[i].as_str()));
            proof {
                assert(views(kept@) =~= before.push(stripped(lines@[i as int]@)));
            }
        }
        i = i + 1;
    }
    proof {
        assert(all.take(all.len() as int) =~= all);
    }
    join(kept.as_slice(), "\n")
}

// ---------------------------------------------------------------------
// Tails
// ---------------------------------------------------------------------

/// One line of the fish tail per subcommand.
pub open spec fn fish_lines(bin: Seq<char>, subs: Seq<Seq<char>>) -> Seq<char>
    decreases subs.len(),
{
    if subs.len() == 0 {
        Seq::empty()
    } else {
        fish_lines(bin, subs.drop_last()) + "complete -c "@ + bin
            + " -n \"__fish_seen_subcommand_from "@ + subs.last() + "\" -f -a \"(__"@ + bin
            + "_list_agents)\"\n"@
    }
}

/// The tail for fish, where completions are additive.
pub open spec fn fish_text(bin: Seq<char>) -> Seq<char> {
    "\n# --- dotagent: dynamic agent-name completion ---\nfunction __"@ + bin
        + "_list_agents\n    command "@ + bin + " _list-agents 2>/dev/null\nend\n"@ + fish_lines(
        bin,
        agent_name_subcommands(),
    )
}

/// The tail for fish.
pub fn fish_tail(bin: &str) -> (r: String)
    ensures
        r@ == fish_text(bin@),
{
    let subs = subcommands();
    let ghost all = views(subs@);
    let mut lines = String::new();
    let mut i: usize = 0;
    proof {
        assert(all.take(0) =~= Seq::<Seq<char>>::empty());
    }
    while i < subs.len()
        invariant
            i <= subs@.len(),
            all == views(subs@),
            lines@ == fish_lines(bin@, all.take(i as int)),
        decreases subs@.len() - i,
    {
        proof {
            assert(all.take(i as int + 1).drop_last() =~= all.take(i as int));
            assert(all.take(i as int + 1).last() == subs@[i as int]@);
        }
        lines.append("complete -c ");
        lines.append(bin);
        lines.append(" -n \"__fish_seen_subcommand_from ");
        lines.append(subs[i].as_str());
        lines.append("\" -f -a \"(__");
        lines.append(bin);
        lines.append("_list_agents)\"\n");
        i = i + 1;
    }
    proof {
        assert(all.take(all.len() as int) =~= all);
    }
    let mut s = "\n# --- dotagent: dynamic agent-name completion ---\nfunction __".to_owned();
    s.append(bin);
    s.append("_list_agents\n    command ");
    s.append(bin);
    s.append(" _list-agents 2>/dev/null\nend\n");
    s.append(lines.as_str());
    s
}

/// The tail for zsh: a wrapper that runs the generated completer first and
/// layers agent names on top.
pub open spec fn zsh_text(bin: Seq<char>) -> Seq<char> {
    let subs = joined(agent_name_subcommands(), "|"@);
    "\n# --- dotagent: dynamic agent-name completion ---\n_"@ + bin + "_dynamic_agents() {\n    local -a agents\n    agents=(\"${(@f)$("@ + bin + " _list-agents 2>/dev/null)}\")\n    _describe 'agent' agents\n}\n\n_"@ + bin + "_dynamic_wrap() {\n    local prev_func=\"_"@ + bin + "\"\n    # Call the clap-generated completer first.\n    \"$prev_func\" \"$@\"\n    # If we are positioned on the first positional of an agent-name\n    # subcommand, layer agent names on top.\n    local words=( ${(z)BUFFER} )\n    local subcmd=\"${words[2]}\"\n    case \"$subcmd\" in\n      "@ + subs + ")\n        _"@ + bin + "_dynamic_agents\n        ;;\n    esac\n}\n\ncompdef _"@ + bin + "_dynamic_wrap "@ + bin + "\n"@
}

/// The tail for zsh.
pub fn zsh_tail(bin: &str) -> (r: String)
    ensures
        r@ == zsh_text(bin@),
{
    let subs = join(subcommands().as_slice(), "|");
    let mut s = "\n# --- dotagent: dynamic agent-name completion ---\n_".to_owned();
    s.append(bin);
    s.append("_dynamic_agents() {\n    local -a agents\n    agents=(\"${(@f)$(");
    s.append(bin);
    s.append(" _list-agents 2>/dev/null)}\")\n    _describe 'agent' agents\n}\n\n_");
    s.append(bin);
    s.append("_dynamic_wrap() {\n    local prev_func=\"_");
    s.append(bin);
    s.append("\"\n    # Call the clap-generated completer first.\n    \"$prev_func\" \"$@\"\n    # If we are positioned on the first positional of an agent-name\n    # subcommand, layer agent names on top.\n    local words=( ${(z)BUFFER} )\n    local subcmd=\"${words[2]}\"\n    case \"$subcmd\" in\n      ");
    s.append(subs.as_str());
    s.append(")\n        _");
    s.append(bin);
    s.append("_dynamic_agents\n        ;;\n    esac\n}\n\ncompdef _");
    s.append(bin);
    s.append("_dynamic_wrap ");
    s.append(bin);
    s.append("\n");
    s
}

/// The tail for bash: the generated function is wrapped, and agent names are
/// spliced in after it.
pub open spec fn bash_text(bin: Seq<char>) -> Seq<char> {
    let subs = joined(agent_name_subcommands(), "|"@);
    "\n# --- dotagent: dynamic agent-name completion ---\n_"@ + bin + "_dynamic_agents() {\n    local cur=\"${COMP_WORDS[COMP_CWORD]}\"\n    local subcmd=\"${COMP_WORDS[1]}\"\n    case \"$subcmd\" in\n        "@ + subs + ")\n            local agents\n            agents=\"$("@ + bin + " _list-agents 2>/dev/null)\"\n            local additions\n            additions=($(compgen -W \"$agents\" -- \"$cur\"))\n            if [ \"${#additions[@]}\" -gt 0 ]; then\n                COMPREPLY+=(\"${additions[@]}\")\n            fi\n            ;;\n    esac\n}\n\n_"@ + bin + "_orig=$(declare -f _"@ + bin + ")\nif [ -n \"$_"@ + bin + "_orig\" ]; then\n    eval \"_"@ + bin + "_clap() ${_"@ + bin + "_orig#*\\(\\) }\"\n    _"@ + bin + "() {\n        _"@ + bin + "_clap \"$@\"\n        _"@ + bin + "_dynamic_agents\n    }\n    complete -F _"@ + bin + " -o bashdefault -o default "@ + bin + "\nfi\n"@
}

/// The tail for bash.
pub fn bash_tail(bin: &str) -> (r: String)
    ensures
        r@ == bash_text(bin@),
{
    let subs = join(subcommands().as_slice(), "|");
    let mut s = "\n# --- dotagent: dynamic agent-name completion ---\n_".to_owned();
    s.append(bin);
    s.append("_dynamic_agents() {\n    local cur=\"${COMP_WORDS[COMP_CWORD]}\"\n    local subcmd=\"${COMP_WORDS[1]}\"\n    case \"$subcmd\" in\n        ");
    s.append(subs.as_str());
    s.append(")\n            local agents\n            agents=\"$(");
    s.append(bin);
    s.append(" _list-agents 2>/dev/null)\"\n            local additions\n            additions=($(compgen -W \"$agents\" -- \"$cur\"))\n            if [ \"${#additions[@]}\" -gt 0 ]; then\n                COMPREPLY+=(\"${additions[@]}\")\n            fi\n            ;;\n    esac\n}\n\n_");
    s.append(bin);
    s.append("_orig=$(declare -f _");
    s.append(bin);
    s.append(")\nif [ -n \"$_");
    s.append(bin);
    s.append("_orig\" ]; then\n    eval \"_");
    s.append(bin);
    s.append("_clap() ${_");
    s.append(bin);
    s.append("_orig#*\\(\\) }\"\n    _");
    s.append(bin);
    s.append("() {\n        _");
    s.append(bin);
    s.append("_clap \"$@\"\n        _");
    s.append(bin);
    s.append("_dynamic_agents\n    }\n    complete -F _");
    s.append(bin);
    s.append(" -o bashdefault -o default ");
    s.append(bin);
    s.append("\nfi\n");
    s
}

/// The tail for a shell: none where names are not completed dynamically.
pub open spec fn tail_text(shell: Shell, bin: Seq<char>) -> Seq<char> {
    match shell {
        Shell::Fish => fish_text(bin),
        Shell::Zsh => zsh_text(bin),
        Shell::Bash => bash_text(bin),
        Shell::Elvish => Seq::empty(),
        Shell::PowerShell => Seq::empty(),
    }
}

/// The script that is printed for a shell.
pub open spec fn printed(shell: Shell, script: Seq<char>, bin: Seq<char>) -> Seq<char> {
    joined(cleaned(lines_of(script)), "\n"@) + "\n"@ + tail_text(shell, bin)
}

/// The whole completion script: the generated part without the helper, and the
/// shell's tail.
pub fn print(shell: Shell, script: &str, bin: &str) -> (r: String)
    ensures
        r@ == printed(shell, script@, bin@),
{
    let mut out = without_helper(script);
    out.append("\n");
    let tail = match shell {
        Shell::Fish => fish_tail(bin),
        Shell::Zsh => zsh_tail(bin),
        Shell::Bash => bash_tail(bin),
        Shell::Elvish => String::new(),
        Shell::PowerShell => String::new(),
    };
    out.append(tail.as_str());
    out
}

/// Every line that suggests the helper is dropped, and every other line is
/// kept, in order, with the helper taken out of its options.
pub proof fn only_lines_that_suggest_the_helper_are_dropped(lines: Seq<Seq<char>>)
    ensures
        cleaned(lines) == lines.filter(|l: Seq<char>| !is_suggestion(l)).map_values(
            |l: Seq<char>| stripped(l),
        ),
    decreases lines.len(),
{
    let kept = |l: Seq<char>| !is_suggestion(l);
    let f = |l: Seq<char>| stripped(l);
    reveal(Seq::filter);
    if lines.len() == 0 {
        assert(cleaned(lines) =~= lines.filter(kept).map_values(f));
    } else {
        let head = lines.drop_last();
        only_lines_that_suggest_the_helper_are_dropped(head);
        if is_suggestion(lines.last()) {
            assert(lines.filter(kept) == head.filter(kept));
        } else {
            assert(lines.filter(kept) == head.filter(kept).push(lines.last()));
            assert(head.filter(kept).push(lines.last()).map_values(f) =~= head.filter(
                kept,
            ).map_values(f).push(stripped(lines.last())));
        }
    }
}

/// What is printed is the generated script without the helper, and behind it what
/// completes the names of agents in the shell that was asked for.
pub proof fn a_script_ends_with_the_names_of_agents(
    shell: Shell,
    script: Seq<char>,
    bin: Seq<char>,
)
    ensures
        has_prefix(printed(shell, script, bin), joined(cleaned(lines_of(script)), "\n"@)),
        shell is Fish ==> has_suffix(printed(shell, script, bin), fish_text(bin)),
        shell is Zsh ==> has_suffix(printed(shell, script, bin), zsh_text(bin)),
        shell is Bash ==> has_suffix(printed(shell, script, bin), bash_text(bin)),
        shell is Elvish || shell is PowerShell ==> printed(shell, script, bin) == joined(
            cleaned(lines_of(script)),
            "\n"@,
        ) + "\n"@,
{
    let body = joined(cleaned(lines_of(script)), "\n"@);
    let tail = tail_text(shell, bin);
    lemma_in_two(body, "\n"@, tail);
    lemma_ends(body, "\n"@ + tail);
    lemma_ends(body + "\n"@, tail);
    assert(body + "\n"@ + Seq::<char>::empty() =~= body + "\n"@);
}

proof fn lemma_fish_lines(bin: Seq<char>, subs: Seq<Seq<char>>, i: int)
    requires
        0 <= i < subs.len(),
    ensures
        holds_text(
            fish_lines(bin, subs),
            "complete -c "@ + bin + " -n \"__fish_seen_subcommand_from "@ + subs[i]
                + "\" -f -a \"(__"@ + bin + "_list_agents)\"\n"@,
        ),
    decreases subs.len(),
{
    let before = fish_lines(bin, subs.drop_last());
    let s = subs.last();
    let c = "complete -c "@;
    let seen = " -n \"__fish_seen_subcommand_from "@;
    let list = "\" -f -a \"(__"@;
    let end = "_list_agents)\"\n"@;
    let last = c + bin + seen + s + list + bin + end;
    lemma_in_two(before, c, bin);
    lemma_in_two(before, c + bin, seen);
    lemma_in_two(before, c + bin + seen, s);
    lemma_in_two(before, c + bin + seen + s, list);
    lemma_in_two(before, c + bin + seen + s + list, bin);
    lemma_in_two(before, c + bin + seen + s + list + bin, end);
    assert(fish_lines(bin, subs) == before + last);
    if i < subs.len() - 1 {
        lemma_fish_lines(bin, subs.drop_last(), i);
        lemma_holds_more(before, c + bin + seen + subs[i] + list + bin + end, last);
    } else {
        lemma_holds_last(before, last);
    }
}

/// The names of agents are completed behind each of the six subcommands that take
/// one, and behind no other.
pub proof fn every_subcommand_with_an_agent_completes_it(bin: Seq<char>, sub: Seq<char>)
    ensures
        agent_name_subcommands().contains(sub) <==> sub == "run"@ || sub == "inspect"@ || sub
            == "run-now"@ || sub == "logs"@ || sub == "install"@ || sub == "uninstall"@,
        agent_name_subcommands().contains(sub) ==> holds_text(
            fish_text(bin),
            " -n \"__fish_seen_subcommand_from "@ + sub + "\" -f"@,
        ),
{
    let subs = agent_name_subcommands();
    assert(subs[0] == "run"@ && subs[1] == "inspect"@ && subs[2] == "run-now"@ && subs[3]
        == "logs"@ && subs[4] == "install"@ && subs[5] == "uninstall"@);
    if subs.contains(sub) {
        let i = choose|i: int| 0 <= i < subs.len() && subs[i] == sub;
        lemma_fish_lines(bin, subs, i);
        let c = "complete -c "@ + bin;
        let seen = " -n \"__fish_seen_subcommand_from "@;
        let list = "\" -f -a \"(__"@;
        let end = "_list_agents)\"\n"@;
        let line = c + seen + sub + list + bin + end;
        reveal_strlit("\" -f -a \"(__");
        reveal_strlit("\" -f");
        let cut = list.skip(4);
        assert(list =~= "\" -f"@ + cut);
        let part = seen + sub + "\" -f"@;
        assert(line =~= c + part + (cut + bin + end));
        lemma_holds_part(line, c, part, cut + bin + end);
        lemma_holds_through(fish_lines(bin, subs), line, part);
        let head = "\n# --- dotagent: dynamic agent-name completion ---\nfunction __"@ + bin
            + "_list_agents\n    command "@ + bin + " _list-agents 2>/dev/null\nend\n"@;
        lemma_holds_last(head, fish_lines(bin, subs));
        lemma_holds_through(fish_text(bin), fish_lines(bin, subs), part);
    }
}

} // verus!
