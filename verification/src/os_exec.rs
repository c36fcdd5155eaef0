//! Running an installed binary, for the two paths that may ask.
//!
//! `[os] allow` is the policy. Two things consult it: `os-run`, where a model
//! chose the binary and the arguments, and a `!` message, where a person
//! typed them. Both go through the same list.
//!
//! Nothing here reaches a shell. Arguments are a token list from the first
//! character to the last.

use crate::process::{ProcessEnd, SpawnRequest, exit_code_of, reported_code};
use crate::table::Table;
use crate::text::{
    byte_count, byte_len, chars_of, copy_all, dec, dec_i64, dec_u64, dec_usize, fit, fitting,
    has_prefix, has_suffix, holds_text, is_blank_text, is_space, is_white, join, joined,
    lemma_ends, lemma_holds_part, lemma_holds_through, lemma_joined_holds, lemma_trimmed_shape,
    same, strip_prefix, trim, trimmed, views, words, words_from,
};
use vstd::prelude::*;

verus! {

broadcast use vstd::string::group_string_axioms;

/// Cap on what one invocation returns, so that a large listing cannot evict
/// the conversation it was called from.
pub const OUTPUT_MAX_BYTES: usize = 8000;

/// What running one binary produced.
#[derive(Debug, PartialEq, Eq)]
pub struct Outcome {
    pub text: String,
    pub is_error: bool,
}

// ---------------------------------------------------------------------
// Bang lines
// ---------------------------------------------------------------------

/// The tokens of `s[at..]`, given the token being built, the quote it is
/// inside of, and whether a quote opened it.
pub open spec fn tokens_from(
    s: Seq<char>,
    at: int,
    current: Seq<char>,
    quote: Option<char>,
    started: bool,
) -> Seq<Seq<char>>
    decreases s.len() - at,
{
    if at < 0 || at >= s.len() {
        if started || current.len() > 0 {
            seq![current]
        } else {
            Seq::empty()
        }
    } else {
        match quote {
            Some(q) => if s[at] == q {
                tokens_from(s, at + 1, current, None, started)
            } else {
                tokens_from(s, at + 1, current.push(s[at]), quote, started)
            },
            None => if s[at] == '\'' || s[at] == '"' {
                tokens_from(s, at + 1, current, Some(s[at]), true)
            } else if is_space(s[at]) {
                if started || current.len() > 0 {
                    seq![current] + tokens_from(s, at + 1, Seq::empty(), None, false)
                } else {
                    tokens_from(s, at + 1, current, None, started)
                }
            } else {
                tokens_from(s, at + 1, current.push(s[at]), None, started)
            },
        }
    }
}

/// White-space separated tokens, with single and double quotes holding a
/// phrase together.
pub open spec fn tokens(s: Seq<char>) -> Seq<Seq<char>> {
    tokens_from(s, 0, Seq::empty(), None, false)
}

/// The binary and the arguments of a `!` line.
pub open spec fn bang(text: Seq<char>) -> Option<(Seq<char>, Seq<Seq<char>>)> {
    if text.len() == 0 || text[0] != '!' {
        None
    } else {
        let t = tokens(trimmed(text.skip(1)));
        if t.len() == 0 {
            None
        } else {
            Some((t[0], t.skip(1)))
        }
    }
}

/// The `!` prefix, split into a binary and its arguments.
///
/// `!` and `! ` are both accepted, so `!ls` and `! ls` mean the same thing.
/// Returns `None` when the text is not a bang line.
pub fn parse_bang(text: &str) -> (r: Option<(String, Vec<String>)>)
    ensures
        match bang(text@) {
            Some(b) => r matches Some(p) && p.0@ == b.0 && views(p.1@) == b.1,
            None => r is None,
        },
{
    proof {
        reveal_strlit("!");
    }
    let rest = match strip_prefix(text, "!") {
        Some(rest) => rest,
        None => {
            proof {
                if text@.len() > 0 && text@[0] == '!' {
                    assert(text@.subrange(0, 1) =~= "!"@);
                }
            }
            return None;
        },
    };
    proof {
        assert(text@.subrange(0, 1)[0] == '!');
    }
    let rest = trim(rest.as_str());
    let mut found = split_tokens(rest.as_str());
    if found.len() == 0 {
        proof {
            assert(views(found@).len() == 0);
        }
        return None;
    }
    let ghost all = found@;
    let bin = found.remove(0);
    proof {
        assert(views(all)[0] == bin@);
        assert(views(found@) =~= views(all).skip(1));
    }
    Some((bin, found))
}

/// Split on white space, honoring single and double quotes.
///
/// Quotes are the one shell habit worth keeping: `! rg "hello world"` is what
/// a person types. Nothing else from a shell is interpreted, because there is
/// no shell to interpret it.
pub fn split_tokens(input: &str) -> (r: Vec<String>)
    ensures
        views(r@) == tokens(input@),
{
    let v = chars_of(input);
    let mut out: Vec<String> = Vec::new();
    let mut current = String::new();
    let mut quote: Option<char> = None;
    let mut started = false;
    let mut at: usize = 0;
    proof {
        assert(views(out@) + tokens(v@) =~= tokens(v@));
    }
    while at < v.len()
        invariant
            at <= v@.len(),
            views(out@) + tokens_from(v@, at as int, current@, quote, started) == tokens(v@),
        decreases v@.len() - at,
    {
        let ch = v[at];
        let ghost before = views(out@);
        match quote {
            Some(q) => {
                if ch == q {
                    quote = None;
                } else {
                    current.push(ch);
                }
            },
            None => {
                if ch == '\'' || ch == '"' {
                    quote = Some(ch);
                    started = true;
                } else if is_white(ch) {
                    if started || !current.as_str().is_empty() {
                        let ghost done = current@;
                        out.push(current);
                        current = String::new();
                        started = false;
                        proof {
                            let rest = tokens_from(v@, at as int + 1, Seq::empty(), None, false);
                            assert(views(out@) =~= before.push(done));
                            assert(before.push(done) + rest =~= before + (seq![done] + rest));
                        }
                    }
                } else {
                    current.push(ch);
                }
            },
        }
        at = at + 1;
    }
    let ghost before = views(out@);
    if started || !current.as_str().is_empty() {
        let ghost done = current@;
        out.push(current);
        proof {
            assert(views(out@) =~= before + seq![done]);
        }
    } else {
        proof {
            assert(before + Seq::<Seq<char>>::empty() =~= before);
        }
    }
    out
}

proof fn lemma_tokens_without_quotes(s: Seq<char>, at: int, current: Seq<char>)
    requires
        forall|i: int| 0 <= i < s.len() ==> #[trigger] s[i] != '\'' && s[i] != '"',
        0 <= at <= s.len(),
    ensures
        tokens_from(s, at, current, None, false) == words_from(s, at, current),
    decreases s.len() - at,
{
    if at < s.len() {
        if is_space(s[at]) {
            lemma_tokens_without_quotes(s, at + 1, Seq::empty());
            if current.len() == 0 {
                assert(current =~= Seq::<char>::empty());
            }
        } else {
            lemma_tokens_without_quotes(s, at + 1, current.push(s[at]));
        }
    }
}

/// Shell operators are ordinary characters: a line without quotes splits on
/// white space and on nothing else.
pub proof fn only_quotes_and_space_are_special(s: Seq<char>)
    requires
        forall|i: int| 0 <= i < s.len() ==> #[trigger] s[i] != '\'' && s[i] != '"',
    ensures
        tokens(s) == words(s),
{
    lemma_tokens_without_quotes(s, 0, Seq::empty());
}

proof fn lemma_tokens_none(
    s: Seq<char>,
    at: int,
    current: Seq<char>,
    quote: Option<char>,
    started: bool,
)
    requires
        0 <= at <= s.len(),
        quote is Some ==> started,
    ensures
        tokens_from(s, at, current, quote, started).len() == 0 <==> !started && current.len() == 0
            && forall|i: int| at <= i < s.len() ==> is_space(#[trigger] s[i]),
    decreases s.len() - at,
{
    if at < s.len() {
        let c = s[at];
        match quote {
            Some(q) => if c == q {
                lemma_tokens_none(s, at + 1, current, None, started);
            } else {
                lemma_tokens_none(s, at + 1, current.push(c), quote, started);
            },
            None => if c == '\'' || c == '"' {
                lemma_tokens_none(s, at + 1, current, Some(c), true);
                assert(!is_space(s[at]));
            } else if is_space(c) {
                if started || current.len() > 0 {
                } else {
                    lemma_tokens_none(s, at + 1, current, None, started);
                    assert forall|i: int|
                        (forall|k: int| at + 1 <= k < s.len() ==> is_space(#[trigger] s[k])) && at
                            <= i < s.len() implies is_space(#[trigger] s[i]) by {
                        if i > at {
                        }
                    }
                }
            } else {
                lemma_tokens_none(s, at + 1, current.push(c), None, started);
                assert(!is_space(s[at]));
            },
        }
    }
}

/// A line is a command exactly when it opens with `!` and something other
/// than white space follows.
pub proof fn bang_needs_a_prefix_and_a_body(text: Seq<char>)
    ensures
        bang(text) is Some <==> text.len() > 0 && text[0] == '!' && !is_blank_text(text.skip(1)),
{
    if text.len() > 0 && text[0] == '!' {
        let rest = text.skip(1);
        let t = trimmed(rest);
        lemma_trimmed_shape(rest);
        lemma_tokens_none(t, 0, Seq::empty(), None, false);
        if t.len() > 0 {
            assert(!is_space(t[0]));
        }
    }
}

// ---------------------------------------------------------------------
// Confirmations
// ---------------------------------------------------------------------

/// A command waiting for someone to say yes. Held in memory only: a restart
/// forgets it, which is the safe direction to fail.
struct Pending {
    bin: String,
    args: Vec<String>,
    asked_at: u128,
}

/// What a pending command is: the pair that would run, and when it was asked
/// for, in nanoseconds of the monotonic clock.
#[verifier::ext_equal]
pub struct PendingView {
    pub bin: Seq<char>,
    pub args: Seq<Seq<char>>,
    pub asked_at: nat,
}

impl View for Pending {
    type V = PendingView;

    closed spec fn view(&self) -> PendingView {
        PendingView { bin: self.bin@, args: views(self.args@), asked_at: self.asked_at as nat }
    }
}

/// Pending confirmations, one per conversation.
///
/// Keyed by session so a `!!` in one chat can never confirm what was asked in
/// another. One slot per session, because a queue of pending destructive
/// commands answered by a bare `!!` is a way to confirm the wrong one.
pub struct Confirmations {
    rows: Table<Pending>,
}

impl View for Confirmations {
    type V = Map<Seq<char>, PendingView>;

    closed spec fn view(&self) -> Map<Seq<char>, PendingView> {
        self.rows@.map_values(|p: Pending| p@)
    }
}

/// Whether a command asked for at `asked_at` may still be confirmed at `now`.
/// A clock that reads earlier than `asked_at` counts as no time passed.
pub open spec fn still_answerable(asked_at: nat, now: nat, ttl_seconds: nat) -> bool {
    now - asked_at <= ttl_seconds * 1_000_000_000
}

/// What is pending once `session` has asked for `bin` with `args` at `now`.
pub open spec fn parked(
    before: Map<Seq<char>, PendingView>,
    session: Seq<char>,
    bin: Seq<char>,
    args: Seq<Seq<char>>,
    now: nat,
) -> Map<Seq<char>, PendingView> {
    before.insert(session, PendingView { bin, args, asked_at: now })
}

/// What a confirmation by `session` runs, if anything.
pub open spec fn confirmed(
    before: Map<Seq<char>, PendingView>,
    session: Seq<char>,
    ttl_seconds: nat,
    now: nat,
) -> Option<(Seq<char>, Seq<Seq<char>>)> {
    if before.dom().contains(session) && still_answerable(
        before[session].asked_at,
        now,
        ttl_seconds,
    ) {
        Some((before[session].bin, before[session].args))
    } else {
        None
    }
}

/// What is pending once `session` has confirmed.
pub open spec fn after_confirming(
    before: Map<Seq<char>, PendingView>,
    session: Seq<char>,
) -> Map<Seq<char>, PendingView> {
    before.remove(session)
}

impl Default for Confirmations {
    fn default() -> (r: Self)
        ensures
            r@ == Map::<Seq<char>, PendingView>::empty(),
    {
        let r = Confirmations { rows: Table::new() };
        proof {
            assert(r@ =~= Map::<Seq<char>, PendingView>::empty());
        }
        r
    }
}

impl Confirmations {
    /// Record what `session` will run if it confirms, replacing anything it
    /// had pending. `now_nanos` is the monotonic clock.
    pub fn park(&mut self, session: &str, bin: &str, args: &[String], now_nanos: u128)
        ensures
            final(self)@ == parked(
                old(self)@,
                session@,
                bin@,
                views(args@),
                now_nanos as nat,
            ),
    {
        let ghost before = self@;
        let pending = Pending { bin: bin.to_owned(), args: copy_all(args), asked_at: now_nanos };
        self.rows.insert(session, pending);
        proof {
            assert(self@ =~= before.insert(session@, pending@));
        }
    }

    /// Take what `session` had pending, if it has not aged out. The slot is
    /// empty afterwards either way.
    pub fn take(&mut self, session: &str, ttl_seconds: u64, now_nanos: u128) -> (r: Option<
        (String, Vec<String>),
    >)
        ensures
            final(self)@ == after_confirming(old(self)@, session@),
            match confirmed(old(self)@, session@, ttl_seconds as nat, now_nanos as nat) {
                Some(c) => r matches Some(p) && p.0@ == c.0 && views(p.1@) == c.1,
                None => r is None,
            },
    {
        let ghost before = self@;
        let taken = self.rows.remove(session);
        proof {
            assert(self@ =~= before.remove(session@));
        }
        match taken {
            None => None,
            Some(pending) => {
                let limit: u128 = (ttl_seconds as u128) * 1_000_000_000u128;
                if now_nanos > pending.asked_at && now_nanos - pending.asked_at > limit {
                    None
                } else {
                    Some((pending.bin, pending.args))
                }
            },
        }
    }
}

/// A parked command comes back once, and once only, while it is fresh: to the
/// last nanosecond of its seconds, and not one later.
pub proof fn parked_commands_come_back_once(
    before: Map<Seq<char>, PendingView>,
    session: Seq<char>,
    bin: Seq<char>,
    args: Seq<Seq<char>>,
    asked_at: nat,
    ttl_seconds: nat,
    now: nat,
    later: nat,
)
    ensures
        ({
            let pending = parked(before, session, bin, args, asked_at);
            &&& now <= asked_at + ttl_seconds * 1_000_000_000 ==> confirmed(
                pending,
                session,
                ttl_seconds,
                now,
            ) == Some((bin, args))
            &&& now > asked_at + ttl_seconds * 1_000_000_000 ==> confirmed(
                pending,
                session,
                ttl_seconds,
                now,
            ) is None
            &&& confirmed(after_confirming(pending, session), session, ttl_seconds, later) is None
        }),
{
}

/// Parking again replaces: only the last command asked for can be confirmed.
pub proof fn parking_again_keeps_only_the_last(
    before: Map<Seq<char>, PendingView>,
    session: Seq<char>,
    first: Seq<char>,
    first_args: Seq<Seq<char>>,
    second: Seq<char>,
    second_args: Seq<Seq<char>>,
    asked_at: nat,
    again_at: nat,
)
    ensures
        parked(parked(before, session, first, first_args, asked_at), session, second, second_args,
            again_at) == parked(before, session, second, second_args, again_at),
{
    assert(parked(
        parked(before, session, first, first_args, asked_at),
        session,
        second,
        second_args,
        again_at,
    ) =~= parked(before, session, second, second_args, again_at));
}

/// What one conversation asks for or confirms leaves every other one as it was.
pub proof fn confirmations_never_cross_sessions(
    before: Map<Seq<char>, PendingView>,
    session: Seq<char>,
    other: Seq<char>,
    bin: Seq<char>,
    args: Seq<Seq<char>>,
    asked_at: nat,
    ttl_seconds: nat,
    now: nat,
)
    requires
        session != other,
    ensures
        confirmed(after_confirming(before, session), other, ttl_seconds, now) == confirmed(
            before,
            other,
            ttl_seconds,
            now,
        ),
        confirmed(parked(before, session, bin, args, asked_at), other, ttl_seconds, now)
            == confirmed(before, other, ttl_seconds, now),
{
}

/// Whether a line is the confirmation token: `!!` and nothing else.
pub open spec fn confirms(text: Seq<char>) -> bool {
    trimmed(text) == "!!"@
}

/// Is this the confirmation token?
///
/// `!!` and nothing else. A yes has to be unambiguous.
pub fn is_confirmation(text: &str) -> (r: bool)
    ensures
        r == confirms(text@),
{
    same(trim(text).as_str(), "!!")
}

/// The command as it is quoted back.
pub open spec fn command_line(bin: Seq<char>, args: Seq<Seq<char>>) -> Seq<char> {
    if args.len() == 0 {
        bin
    } else {
        bin + " "@ + joined(args, " "@)
    }
}

/// How a parked command is quoted back.
pub open spec fn prompt_text(
    bin: Seq<char>,
    args: Seq<Seq<char>>,
    ttl_seconds: int,
) -> Seq<char> {
    "This will run:\n\n    "@ + command_line(bin, args)
        + "\n\nSend `!!` to confirm. It expires in "@ + dec(ttl_seconds) + "s."@
}

/// How the parked command is quoted back before it runs.
pub fn confirmation_prompt(bin: &str, args: &[String], ttl_seconds: u64) -> (r: String)
    ensures
        r@ == prompt_text(bin@, views(args@), ttl_seconds as int),
{
    let mut rendered = bin.to_owned();
    if args.len() > 0 {
        rendered.append(" ");
        rendered.append(join(args, " ").as_str());
    }
    let mut out = "This will run:\n\n    ".to_owned();
    out.append(rendered.as_str());
    out.append("\n\nSend `!!` to confirm. It expires in ");
    out.append(dec_u64(ttl_seconds).as_str());
    out.append("s.");
    out
}

// ---------------------------------------------------------------------
// Refusals
// ---------------------------------------------------------------------

/// The refusal for a model that asked.
pub open spec fn refusal_text(bin: Seq<char>) -> Seq<char> {
    "`"@ + bin
        + "` is not allowed here. Call os-list for what is, and tell whoever asked that it is the machine's config that says no — not you."@
}

/// The refusal for a person who typed the line.
pub open spec fn refusal_typed_text(bin: Seq<char>) -> Seq<char> {
    "`"@ + bin + "` is not allowed. Add it to `[os] allow` in config.toml to change that."@
}

/// Refusal text for a binary the allowlist does not admit.
///
/// Worded so that an assistant relaying it does not sound like it decided.
pub fn refusal(bin: &str) -> (r: String)
    ensures
        r@ == refusal_text(bin@),
{
    let mut out = "`".to_owned();
    out.append(bin);
    out.append(
        "` is not allowed here. Call os-list for what is, and tell whoever asked that it is the machine's config that says no — not you.",
    );
    out
}

/// Same refusal for someone who typed the line themselves. They are not
/// asking an assistant to relay anything, so it names the file to edit.
pub fn refusal_typed(bin: &str) -> (r: String)
    ensures
        r@ == refusal_typed_text(bin@),
{
    let mut out = "`".to_owned();
    out.append(bin);
    out.append("` is not allowed. Add it to `[os] allow` in config.toml to change that.");
    out
}

// ---------------------------------------------------------------------
// Running
// ---------------------------------------------------------------------

/// What `[os]` says about one binary with its arguments.
#[derive(Clone, Copy, Debug, PartialEq, Eq, Structural)]
pub enum OsDecision {
    Allow,
    Confirm,
    Deny,
}

/// What to do with a pair that asked to run.
#[derive(Debug, PartialEq, Eq)]
pub enum RunStep {
    /// Answer with this and start nothing.
    Refused(Outcome),
    /// Start this child, then hand its end to [`finish_run`].
    Spawn(SpawnRequest),
}

/// The audit entry an invocation leaves.
#[derive(Debug, PartialEq, Eq)]
pub struct OsCommandInvoked {
    pub bin: String,
    pub args: Vec<String>,
    pub exit_code: i32,
    pub timed_out: bool,
}

/// Whether `r` is what becomes of a pair that asked to run.
pub open spec fn run_decided(
    decision: OsDecision,
    bin: Seq<char>,
    args: Seq<String>,
    timeout_seconds: u64,
    refused: String,
    r: RunStep,
) -> bool {
    match r {
        RunStep::Refused(o) => decision == OsDecision::Deny && o == (Outcome {
            text: refused,
            is_error: true,
        }),
        RunStep::Spawn(s) => {
            &&& decision != OsDecision::Deny
            &&& s.program@ == bin
            &&& s.args@ == args
            &&& s.owner_agent@ == "os"@
            &&& s.owner_plugin is None
            &&& s.deadline_seconds == timeout_seconds
            &&& s.label@ == "os:"@ + bin
        },
    }
}

/// Start `bin` with `args` unless the policy denies the pair.
///
/// The test is "not denied" rather than "allowed", because a caller reaching
/// this point with a `Confirm` verdict has already collected the
/// confirmation, and a denial must still refuse a command someone confirmed.
/// `refused` is the wording of the refusal.
pub fn run_allowed(
    decision: OsDecision,
    bin: &str,
    args: &[String],
    timeout_seconds: u64,
    refused: String,
) -> (r: RunStep)
    ensures
        run_decided(decision, bin@, args@, timeout_seconds, refused, r),
{
    if decision == OsDecision::Deny {
        return RunStep::Refused(Outcome { text: refused, is_error: true });
    }
    let mut label = "os:".to_owned();
    label.append(bin);
    RunStep::Spawn(
        SpawnRequest {
            program: bin.to_owned(),
            args: copy_all(args),
            owner_agent: "os".to_owned(),
            owner_plugin: None,
            deadline_seconds: timeout_seconds,
            label,
        },
    )
}

/// What is said of a child that ended.
pub open spec fn run_report(bin: Seq<char>, end: ProcessEnd) -> Seq<char> {
    match end {
        ProcessEnd::NotStarted { error } => "Could not start `"@ + bin + "`: "@ + error@,
        ProcessEnd::Finished { code, stdout, stderr } => {
            let out = trimmed(stdout@);
            let err = trimmed(stderr@);
            if reported_code(code) == 0 {
                if out.len() == 0 {
                    "`"@ + bin + "` exited 0 and printed nothing."@
                } else {
                    capped(out, OUTPUT_MAX_BYTES as nat)
                }
            } else {
                "`"@ + bin + "` exited "@ + dec(reported_code(code)) + ".\n"@ + capped(
                    if err.len() == 0 {
                        out
                    } else {
                        err
                    },
                    OUTPUT_MAX_BYTES as nat,
                )
            }
        },
        ProcessEnd::TimedOut { seconds } => "`"@ + bin + "` was still running after "@ + dec(
            seconds as int,
        ) + "s and was killed."@,
        ProcessEnd::Failed { error } => "`"@ + bin + "` could not run: "@ + error@,
    }
}

/// Whether a child's end is a success.
pub open spec fn ended_well(end: ProcessEnd) -> bool {
    end matches ProcessEnd::Finished { code, .. } && reported_code(code) == 0
}

/// The exit code that is audited for a child's end.
pub open spec fn audited_code(end: ProcessEnd) -> int {
    match end {
        ProcessEnd::Finished { code, .. } => reported_code(code),
        _ => -1,
    }
}

/// Whether `r` is the report of a child's end and the audit entry it leaves.
pub open spec fn run_finished(
    bin: Seq<char>,
    args: Seq<String>,
    end: ProcessEnd,
    r: (Outcome, Option<OsCommandInvoked>),
) -> bool {
    &&& r.0.text@ == run_report(bin, end)
    &&& r.0.is_error == !ended_well(end)
    &&& r.1 is None <==> end is NotStarted
    &&& r.1 matches Some(a) ==> a.bin@ == bin && a.args@ == args && a.exit_code == audited_code(
        end,
    ) && a.timed_out == (end is TimedOut)
}

/// Report how the child ended, and the audit entry it leaves. A child that
/// never started leaves none; every other one does, arguments in full.
pub fn finish_run(bin: &str, args: &[String], end: ProcessEnd) -> (r: (
    Outcome,
    Option<OsCommandInvoked>,
))
    ensures
        run_finished(bin@, args@, end, r),
{
    let mut text = String::new();
    let mut is_error = true;
    let mut exit_code: i32 = -1;
    let mut timed_out = false;
    match end {
        ProcessEnd::NotStarted { error } => {
            let mut out = "Could not start `".to_owned();
            out.append(bin);
            out.append("`: ");
            out.append(error.as_str());
            return (Outcome { text: out, is_error: true }, None);
        },
        ProcessEnd::Finished { code, stdout, stderr } => {
            exit_code = exit_code_of(code);
            let out = trim(stdout.as_str());
            let err = trim(stderr.as_str());
            if exit_code == 0 {
                is_error = false;
                if out.as_str().is_empty() {
                    text = "`".to_owned();
                    text.append(bin);
                    text.append("` exited 0 and printed nothing.");
                } else {
                    text = cap(out.as_str(), OUTPUT_MAX_BYTES);
                }
            } else {
                let detail = if err.as_str().is_empty() {
                    cap(out.as_str(), OUTPUT_MAX_BYTES)
                } else {
                    cap(err.as_str(), OUTPUT_MAX_BYTES)
                };
                text = "`".to_owned();
                text.append(bin);
                text.append("` exited ");
                text.append(dec_i64(exit_code as i64).as_str());
                text.append(".\n");
                text.append(detail.as_str());
            }
        },
        ProcessEnd::TimedOut { seconds } => {
            timed_out = true;
            text = "`".to_owned();
            text.append(bin);
            text.append("` was still running after ");
            text.append(dec_u64(seconds).as_str());
            text.append("s and was killed.");
        },
        ProcessEnd::Failed { error } => {
            text = "`".to_owned();
            text.append(bin);
            text.append("` could not run: ");
            text.append(error.as_str());
        },
    }
    let audit = OsCommandInvoked {
        bin: bin.to_owned(),
        args: copy_all(args),
        exit_code,
        timed_out,
    };
    (Outcome { text, is_error }, Some(audit))
}

// ---------------------------------------------------------------------
// Capping
// ---------------------------------------------------------------------

/// `s`, cut on a character boundary when it takes more than `max` bytes, with
/// a line saying so.
pub open spec fn capped(s: Seq<char>, max: nat) -> Seq<char> {
    if byte_len(s) <= max {
        s
    } else {
        fitting(s, max) + "\n… truncated at "@ + dec(max as int) + " bytes."@
    }
}

/// Truncate on a char boundary, saying so.
pub fn cap(s: &str, max: usize) -> (r: String)
    ensures
        r@ == capped(s@, max as nat),
{
    if byte_count(s) <= max {
        return s.to_owned();
    }
    let mut out = fit(s, max);
    out.append("\n… truncated at ");
    out.append(dec_usize(max).as_str());
    out.append(" bytes.");
    out
}

/// Capping keeps the beginning: what comes back opens with the longest prefix
/// that fits, whether or not anything was cut.
pub proof fn capping_keeps_the_beginning(s: Seq<char>, max: nat)
    ensures
        has_prefix(capped(s, max), fitting(s, max)),
        byte_len(s) <= max ==> capped(s, max) == s,
{
    let f = fitting(s, max);
    let c = capped(s, max);
    if byte_len(s) <= max {
        assert(c.subrange(0, f.len() as int) =~= f);
    } else {
        assert(c.subrange(0, f.len() as int) =~= f);
    }
}

// ---------------------------------------------------------------------
// Laws of a run
// ---------------------------------------------------------------------

/// A clean exit is answered with what the binary printed, trimmed, whatever it
/// wrote to its error stream. Output over the limit is cut at its end.
pub proof fn a_clean_exit_answers_with_the_output(
    bin: Seq<char>,
    args: Seq<String>,
    stdout: String,
    stderr: String,
    other_stderr: String,
    r: (Outcome, Option<OsCommandInvoked>),
    other: (Outcome, Option<OsCommandInvoked>),
)
    requires
        run_finished(bin, args, ProcessEnd::Finished { code: Some(0), stdout, stderr }, r),
        run_finished(
            bin,
            args,
            ProcessEnd::Finished { code: Some(0), stdout, stderr: other_stderr },
            other,
        ),
    ensures
        !r.0.is_error,
        r.0.text@ == other.0.text@,
        trimmed(stdout@).len() > 0 && byte_len(trimmed(stdout@)) <= OUTPUT_MAX_BYTES
            ==> r.0.text@ == trimmed(stdout@),
        trimmed(stdout@).len() > 0 ==> has_prefix(
            r.0.text@,
            fitting(trimmed(stdout@), OUTPUT_MAX_BYTES as nat),
        ),
        trimmed(stdout@).len() == 0 ==> has_prefix(r.0.text@, "`"@ + bin + "`"@),
{
    if trimmed(stdout@).len() > 0 {
        capping_keeps_the_beginning(trimmed(stdout@), OUTPUT_MAX_BYTES as nat);
    } else {
        reveal_strlit("`");
        reveal_strlit("` exited 0 and printed nothing.");
        let rest = "` exited 0 and printed nothing."@.skip(1);
        assert(r.0.text@ =~= ("`"@ + bin + "`"@) + rest);
        lemma_ends("`"@ + bin + "`"@, rest);
    }
}

/// Any other exit is an error that names the binary and the code, and ends with
/// what the binary wrote to its error stream; with its output only where it
/// wrote nothing there.
pub proof fn a_failed_exit_answers_with_the_errors(
    bin: Seq<char>,
    args: Seq<String>,
    code: i32,
    stdout: String,
    stderr: String,
    r: (Outcome, Option<OsCommandInvoked>),
)
    requires
        code != 0,
        run_finished(bin, args, ProcessEnd::Finished { code: Some(code), stdout, stderr }, r),
    ensures
        r.0.is_error,
        has_prefix(r.0.text@, "`"@ + bin + "` exited "@ + dec(code as int) + "."@),
        trimmed(stderr@).len() > 0 && byte_len(trimmed(stderr@)) <= OUTPUT_MAX_BYTES
            ==> has_suffix(r.0.text@, "\n"@ + trimmed(stderr@)),
        trimmed(stderr@).len() == 0 && byte_len(trimmed(stdout@)) <= OUTPUT_MAX_BYTES
            ==> has_suffix(r.0.text@, "\n"@ + trimmed(stdout@)),
{
    reveal_strlit(".");
    reveal_strlit("\n");
    reveal_strlit(".\n");
    assert(".\n"@ =~= "."@ + "\n"@);
    let shown = capped(
        if trimmed(stderr@).len() == 0 {
            trimmed(stdout@)
        } else {
            trimmed(stderr@)
        },
        OUTPUT_MAX_BYTES as nat,
    );
    let lead = "`"@ + bin + "` exited "@ + dec(code as int) + "."@;
    assert(r.0.text@ =~= lead + ("\n"@ + shown));
    lemma_ends(lead, "\n"@ + shown);
}

/// A child that did not exit by itself is an error that names the binary: after
/// how many seconds it was killed, or why it could not run.
pub proof fn a_run_that_did_not_end_is_an_error(
    bin: Seq<char>,
    args: Seq<String>,
    seconds: u64,
    error: String,
    killed: (Outcome, Option<OsCommandInvoked>),
    failed: (Outcome, Option<OsCommandInvoked>),
    unstarted: (Outcome, Option<OsCommandInvoked>),
)
    requires
        run_finished(bin, args, ProcessEnd::TimedOut { seconds }, killed),
        run_finished(bin, args, ProcessEnd::Failed { error }, failed),
        run_finished(bin, args, ProcessEnd::NotStarted { error }, unstarted),
    ensures
        killed.0.is_error && failed.0.is_error && unstarted.0.is_error,
        holds_text(killed.0.text@, " "@ + dec(seconds as int) + "s"@),
        has_suffix(failed.0.text@, error@),
        has_suffix(unstarted.0.text@, error@),
        holds_text(killed.0.text@, "`"@ + bin + "`"@),
        holds_text(failed.0.text@, "`"@ + bin + "`"@),
        holds_text(unstarted.0.text@, "`"@ + bin + "`"@),
{
    reveal_strlit(" ");
    reveal_strlit("s");
    reveal_strlit("`");
    reveal_strlit("` was still running after ");
    reveal_strlit("s and was killed.");
    reveal_strlit("` could not run: ");
    reveal_strlit("Could not start `");
    reveal_strlit("`: ");
    let none = Seq::<char>::empty();
    let quoted = "`"@ + bin + "`"@;
    let n = dec(seconds as int);
    let still = "` was still running after "@;
    let k = killed.0.text@;
    let mid = still.subrange(1, still.len() - 1);
    let killed_end = "s and was killed."@.skip(1);
    assert(k =~= (quoted + mid) + (" "@ + n + "s"@) + killed_end);
    lemma_holds_part(k, quoted + mid, " "@ + n + "s"@, killed_end);
    assert(k =~= none + quoted + (mid + (" "@ + n + "s"@) + killed_end));
    lemma_holds_part(k, none, quoted, mid + (" "@ + n + "s"@) + killed_end);
    let f = failed.0.text@;
    let could = "` could not run: "@;
    assert(f =~= none + quoted + (could.skip(1) + error@));
    lemma_holds_part(f, none, quoted, could.skip(1) + error@);
    lemma_ends("`"@ + bin + could, error@);
    let u = unstarted.0.text@;
    let start = "Could not start `"@;
    assert(u =~= start.drop_last() + quoted + ("`: "@.skip(1) + error@));
    lemma_holds_part(u, start.drop_last(), quoted, "`: "@.skip(1) + error@);
    lemma_ends(start + bin + "`: "@, error@);
}

/// Every child that started is audited with the binary, every argument in order
/// and its own exit code; a timeout is marked as one, and only a timeout.
pub proof fn a_run_is_audited_as_it_was(
    bin: Seq<char>,
    args: Seq<String>,
    code: i32,
    stdout: String,
    stderr: String,
    seconds: u64,
    finished: (Outcome, Option<OsCommandInvoked>),
    killed: (Outcome, Option<OsCommandInvoked>),
)
    requires
        run_finished(
            bin,
            args,
            ProcessEnd::Finished { code: Some(code), stdout, stderr },
            finished,
        ),
        run_finished(bin, args, ProcessEnd::TimedOut { seconds }, killed),
    ensures
        finished.1 is Some && killed.1 is Some,
        finished.1->0.bin@ == bin && finished.1->0.args@ == args,
        finished.1->0.exit_code == code && !finished.1->0.timed_out,
        finished.0.is_error <==> finished.1->0.exit_code != 0,
        killed.1->0.bin@ == bin && killed.1->0.args@ == args && killed.1->0.timed_out,
        killed.1->0.exit_code != 0,
{
}

/// A pair is refused exactly when the policy denies it, with the words it was
/// given; otherwise exactly that pair is started, whether or not it had to be
/// confirmed, and killed no later than the timeout.
pub proof fn only_a_denied_pair_is_refused(
    bin: Seq<char>,
    args: Seq<String>,
    timeout_seconds: u64,
    refused: String,
    denied: RunStep,
    allowed: RunStep,
    asked: RunStep,
)
    requires
        run_decided(OsDecision::Deny, bin, args, timeout_seconds, refused, denied),
        run_decided(OsDecision::Allow, bin, args, timeout_seconds, refused, allowed),
        run_decided(OsDecision::Confirm, bin, args, timeout_seconds, refused, asked),
    ensures
        denied is Refused && denied->Refused_0.is_error && denied->Refused_0.text == refused,
        allowed is Spawn && asked is Spawn,
        allowed->Spawn_0.program@ == bin && asked->Spawn_0.program@ == bin,
        allowed->Spawn_0.args@ == args && asked->Spawn_0.args@ == args,
        allowed->Spawn_0.deadline_seconds == timeout_seconds,
        asked->Spawn_0.deadline_seconds == timeout_seconds,
        has_suffix(allowed->Spawn_0.label@, bin),
{
    lemma_ends("os:"@, bin);
}

/// What is quoted back is the whole command, every argument of it, and the
/// seconds in which it can be confirmed. A refusal names the binary.
pub proof fn a_prompt_shows_the_whole_command(
    bin: Seq<char>,
    args: Seq<Seq<char>>,
    ttl_seconds: int,
    i: int,
)
    requires
        0 <= i < args.len(),
    ensures
        has_prefix(command_line(bin, args), bin),
        holds_text(prompt_text(bin, args, ttl_seconds), command_line(bin, args)),
        holds_text(prompt_text(bin, args, ttl_seconds), args[i]),
        has_suffix(prompt_text(bin, args, ttl_seconds), dec(ttl_seconds) + "s."@),
        command_line(bin, Seq::empty()) == bin,
        has_prefix(refusal_text(bin), "`"@ + bin + "`"@),
        has_prefix(refusal_typed_text(bin), "`"@ + bin + "`"@),
{
    let said = prompt_text(bin, args, ttl_seconds);
    let line = command_line(bin, args);
    let lead = "This will run:\n\n    "@;
    let mid = "\n\nSend `!!` to confirm. It expires in "@;
    let end = dec(ttl_seconds) + "s."@;
    assert(said =~= lead + line + (mid + end));
    lemma_holds_part(said, lead, line, mid + end);
    assert(said =~= (lead + line + mid) + end);
    lemma_ends(lead + line + mid, end);
    let list = joined(args, " "@);
    let none = Seq::<char>::empty();
    lemma_joined_holds(args, " "@, i);
    assert(line =~= (bin + " "@) + list + none);
    lemma_holds_part(line, bin + " "@, list, none);
    lemma_holds_through(said, line, list);
    lemma_holds_through(said, list, args[i]);
    assert(line =~= bin + (" "@ + list));
    lemma_ends(bin, " "@ + list);
    reveal_strlit("`");
    let model =
        "` is not allowed here. Call os-list for what is, and tell whoever asked that it is the machine's config that says no — not you."@;
    let typed = "` is not allowed. Add it to `[os] allow` in config.toml to change that."@;
    reveal_strlit(
        "` is not allowed here. Call os-list for what is, and tell whoever asked that it is the machine's config that says no — not you.",
    );
    reveal_strlit("` is not allowed. Add it to `[os] allow` in config.toml to change that.");
    assert(refusal_text(bin) =~= ("`"@ + bin + "`"@) + model.skip(1));
    lemma_ends("`"@ + bin + "`"@, model.skip(1));
    assert(refusal_typed_text(bin) =~= ("`"@ + bin + "`"@) + typed.skip(1));
    lemma_ends("`"@ + bin + "`"@, typed.skip(1));
}

/// Two exclamation marks confirm, with or without white space round them, and
/// nothing else does.
pub proof fn only_two_marks_confirm(text: Seq<char>)
    ensures
        confirms(text) <==> trimmed(text).len() == 2 && trimmed(text)[0] == '!' && trimmed(text)[1]
            == '!',
        text == seq!['!', '!'] ==> confirms(text),
{
    reveal_strlit("!!");
    let t = trimmed(text);
    if t.len() == 2 && t[0] == '!' && t[1] == '!' {
        assert(t =~= "!!"@);
    }
    if text == seq!['!', '!'] {
        assert(text =~= "!!"@);
        assert(!is_space(text[0]) && !is_space(text[1]));
        assert(trimmed(text) == text);
    }
}

proof fn lemma_phrase(s: Seq<char>, at: int, current: Seq<char>, q: char)
    requires
        q == '\'' || q == '"',
        0 < at < s.len(),
        s.last() == q,
        forall|i: int| at <= i < s.len() - 1 ==> #[trigger] s[i] != q,
    ensures
        tokens_from(s, at, current, Some(q), true) == seq![
            current + s.subrange(at, s.len() - 1),
        ],
    decreases s.len() - at,
{
    if at == s.len() - 1 {
        assert(current + s.subrange(at, s.len() - 1) =~= current);
        assert(tokens_from(s, at + 1, current, None, true) == seq![current]);
    } else {
        assert(s[at] != q);
        lemma_phrase(s, at + 1, current.push(s[at]), q);
        assert(current.push(s[at]) + s.subrange(at + 1, s.len() - 1) =~= current + s.subrange(
            at,
            s.len() - 1,
        ));
    }
}

/// A phrase in quotes is one token, white space and the other kind of quote
/// included, and the quotes round it are not part of it.
pub proof fn a_quoted_phrase_is_one_token(phrase: Seq<char>, q: char)
    requires
        q == '\'' || q == '"',
        !phrase.contains(q),
    ensures
        tokens(seq![q] + phrase + seq![q]) == seq![phrase],
{
    let s = seq![q] + phrase + seq![q];
    assert forall|i: int| 1 <= i < s.len() - 1 implies #[trigger] s[i] != q by {
        assert(s[i] == phrase[i - 1]);
    }
    lemma_phrase(s, 1, Seq::empty(), q);
    assert(Seq::<char>::empty() + s.subrange(1, s.len() - 1) =~= phrase);
    assert(tokens(s) == tokens_from(s, 1, Seq::empty(), Some(q), true));
}

} // verus!
