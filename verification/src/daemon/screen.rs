//! Screening one inbound chat message.
//!
//! The whole authorization decision lives here, away from IO: the allowlist is
//! the only thing standing between a bot token and local execution.

use crate::gateway::{
    SubmitRejected, TriggerRejected, TriggerRequest, TriggerSource, rejection_reason, source_text,
};
use crate::json::{
    JsonView, integer, json_text, json_view, member_of, no_members, null_value, object_value,
    optional_text, print_value, put_member, signed_value, text_value,
};
use crate::local_api::protocol::optional;
use crate::os_exec::{
    Confirmations, OsDecision, PendingView, RunStep, after_confirming, bang, command_line,
    confirmation_prompt, confirmed, is_confirmation, parked, parse_bang, prompt_text,
    refusal_typed, refusal_typed_text, run_allowed,
};
use crate::text::{
    dec, dec_i64, holds_text, lemma_holds_more, lemma_holds_part, occurs_at, same, trimmed, views,
};
use serde_json::Value;
use vstd::prelude::*;

verus! {

broadcast use vstd::string::group_string_axioms;

/// One chat message.
#[derive(Debug, Clone, PartialEq, Eq)]
pub struct InboundMessage {
    pub update_id: i64,
    pub user_id: i64,
    pub chat_id: i64,
    pub message_id: i64,
    pub text: String,
    pub reply_to_text: Option<String>,
    pub reply_to_message_id: Option<i64>,
}

/// `[telegram]`.
#[derive(Debug, Clone, PartialEq, Eq)]
pub struct TelegramIngressConfig {
    pub bot_token: String,
    pub allowed_user_ids: Vec<i64>,
    pub dispatcher_agent: String,
}

impl TelegramIngressConfig {
    /// Whether a user may talk to the bot. An empty list means nobody.
    pub fn allows(&self, user_id: i64) -> (r: bool)
        ensures
            r == self.allowed_user_ids@.contains(user_id),
    {
        let mut i: usize = 0;
        while i < self.allowed_user_ids.len()
            invariant
                i <= self.allowed_user_ids@.len(),
                forall|k: int| 0 <= k < i ==> self.allowed_user_ids@[k] != user_id,
            decreases self.allowed_user_ids@.len() - i,
        {
            if self.allowed_user_ids[i] == user_id {
                return true;
            }
            i = i + 1;
        }
        false
    }

    /// Whether inbound chat is on: a token, and at least one user.
    pub fn is_enabled(&self) -> (r: bool)
        ensures
            r == (self.bot_token@.len() > 0 && self.allowed_user_ids@.len() > 0),
    {
        !self.bot_token.as_str().is_empty() && self.allowed_user_ids.len() > 0
    }
}

/// A `/name args` line, with the command its name resolves to.
#[derive(Debug, Clone, PartialEq, Eq)]
pub struct Invocation {
    pub name: String,
    pub args: String,
    /// The catalog name, when a command of that name is installed.
    pub resolved: Option<String>,
}

/// What is installed: one menu line per command, and their names in one line.
#[derive(Debug, Clone, PartialEq, Eq)]
pub struct Catalog {
    pub menu: Vec<String>,
    pub installed: String,
}

/// The run a notification came from.
#[derive(Debug, Clone, PartialEq, Eq)]
pub struct SentMessage {
    pub agent: String,
    pub schedule: String,
    pub event: String,
}

/// What screening decided about one inbound message.
#[derive(Debug)]
pub enum Screened {
    /// Hand it to the dispatcher.
    Run(TriggerRequest),
    /// Answer from the daemon without running anything: only ever about which
    /// commands exist.
    Answer(String),
    /// A `!` line: run this binary, do not involve the dispatcher.
    Bang { bin: String, args: Vec<String> },
    /// `!!`: run what this conversation parked, if anything.
    Confirm,
    /// Refuse it, for this reason.
    Reject(&'static str),
}

// ---------------------------------------------------------------------
// Catalog answers
// ---------------------------------------------------------------------

/// The lines of a menu, each ended by a newline.
pub open spec fn menu_text(menu: Seq<String>) -> Seq<char>
    decreases menu.len(),
{
    if menu.len() == 0 {
        Seq::empty()
    } else {
        menu_text(menu.drop_last()) + menu.last()@ + "\n"@
    }
}

/// The built-in `/help`.
pub open spec fn help_answer(catalog: Catalog) -> Seq<char> {
    if catalog.menu@.len() == 0 {
        "No commands installed. Just say what you need in plain words."@
    } else {
        "Commands:\n"@ + menu_text(catalog.menu@) + "\nOr just say what you need in plain words."@
    }
}

/// The answer to a name nothing is installed under.
pub open spec fn unknown_answer(name: Seq<char>, catalog: Catalog) -> Seq<char> {
    if catalog.installed@.len() == 0 {
        "No command named /"@ + name + ", and none are installed. Try plain words."@
    } else {
        "No command named /"@ + name + ". Installed: "@ + catalog.installed@ + ". Or /help."@
    }
}

/// The built-in `/help`: what is installed, nothing about what any of it
/// means.
pub fn help_text(catalog: &Catalog) -> (r: String)
    ensures
        r@ == help_answer(*catalog),
{
    if catalog.menu.len() == 0 {
        return "No commands installed. Just say what you need in plain words.".to_owned();
    }
    let mut lines = String::new();
    let mut i: usize = 0;
    while i < catalog.menu.len()
        invariant
            i <= catalog.menu@.len(),
            lines@ == menu_text(catalog.menu@.take(i as int)),
        decreases catalog.menu@.len() - i,
    {
        lines.append(catalog.menu[i].as_str());
        lines.append("\n");
        i = i + 1;
        proof {
            assert(catalog.menu@.take(i as int).drop_last() =~= catalog.menu@.take(i as int - 1));
        }
    }
    proof {
        assert(catalog.menu@.take(catalog.menu@.len() as int) =~= catalog.menu@);
    }
    let mut out = "Commands:\n".to_owned();
    out.append(lines.as_str());
    out.append("\nOr just say what you need in plain words.");
    out
}

/// The answer to a name nothing is installed under.
pub fn unknown_command_text(name: &str, catalog: &Catalog) -> (r: String)
    ensures
        r@ == unknown_answer(name@, *catalog),
{
    let mut out = "No command named /".to_owned();
    out.append(name);
    if catalog.installed.as_str().is_empty() {
        out.append(", and none are installed. Try plain words.");
    } else {
        out.append(". Installed: ");
        out.append(catalog.installed.as_str());
        out.append(". Or /help.");
    }
    out
}

// ---------------------------------------------------------------------
// The payload
// ---------------------------------------------------------------------

/// A run as the payload names it.
pub open spec fn run_view(run: Option<SentMessage>) -> JsonView {
    match run {
        Some(s) => JsonView::Table(
            Map::<Seq<char>, JsonView>::empty().insert("agent"@, JsonView::Text(s.agent@)).insert(
                "schedule"@,
                JsonView::Text(s.schedule@),
            ).insert("event"@, JsonView::Text(s.event@)),
        ),
        None => JsonView::Null,
    }
}

/// A command as the payload names it.
pub open spec fn command_view(command: Option<(Seq<char>, Seq<char>)>) -> JsonView {
    match command {
        Some((name, args)) => JsonView::Table(
            Map::<Seq<char>, JsonView>::empty().insert("name"@, JsonView::Text(name)).insert(
                "args"@,
                JsonView::Text(args),
            ),
        ),
        None => JsonView::Null,
    }
}

/// What the dispatcher is told of a message.
pub open spec fn payload_view(
    msg: InboundMessage,
    run: Option<SentMessage>,
    command: Option<(Seq<char>, Seq<char>)>,
) -> JsonView {
    JsonView::Table(
        Map::<Seq<char>, JsonView>::empty().insert("text"@, JsonView::Text(msg.text@)).insert(
            "session_id"@,
            JsonView::Text(dec(msg.chat_id as int)),
        ).insert("chat_id"@, integer(msg.chat_id as int)).insert(
            "user_id"@,
            integer(msg.user_id as int),
        ).insert("message_id"@, integer(msg.message_id as int)).insert(
            "reply_to_text"@,
            match msg.reply_to_text {
                Some(t) => JsonView::Text(t@),
                None => JsonView::Null,
            },
        ).insert("reply_to_run"@, run_view(run)).insert("command"@, command_view(command)),
    )
}

fn run_value(run: &Option<SentMessage>) -> (r: Value)
    ensures
        json_view(r) == run_view(*run),
{
    match run {
        Some(s) => {
            let mut members = no_members();
            put_member(&mut members, "agent", text_value(s.agent.as_str()));
            put_member(&mut members, "schedule", text_value(s.schedule.as_str()));
            put_member(&mut members, "event", text_value(s.event.as_str()));
            object_value(members)
        },
        None => null_value(),
    }
}

fn command_value(command: &Option<(String, String)>) -> (r: Value)
    ensures
        json_view(r) == command_view(
            match *command {
                Some(c) => Some((c.0@, c.1@)),
                None => None,
            },
        ),
{
    match command {
        Some(c) => {
            let mut members = no_members();
            put_member(&mut members, "name", text_value(c.0.as_str()));
            put_member(&mut members, "args", text_value(c.1.as_str()));
            object_value(members)
        },
        None => null_value(),
    }
}

// ---------------------------------------------------------------------
// Screening
// ---------------------------------------------------------------------

/// The command a message that goes to the dispatcher carries.
pub open spec fn carried(invocation: Option<Invocation>) -> Option<(Seq<char>, Seq<char>)> {
    match invocation {
        Some(i) => match i.resolved {
            Some(name) => Some((name@, i.args@)),
            None => None,
        },
        None => None,
    }
}

/// Whether `req` is the request that hands `msg` to the dispatcher. Nothing of
/// the message chooses the agent, and its body travels in the payload only.
pub open spec fn hands_over(
    req: TriggerRequest,
    msg: InboundMessage,
    cfg: TelegramIngressConfig,
    run: Option<SentMessage>,
    invocation: Option<Invocation>,
) -> bool {
    &&& req.source == TriggerSource::Telegram
    &&& req.agent@ == cfg.dispatcher_agent@
    &&& req.schedule is None
    &&& req.args@.len() == 0
    &&& req.payload matches Some(p) && json_view(p) == payload_view(msg, run, carried(invocation))
    &&& req.actor matches Some(a) && a@ == dec(msg.user_id as int)
    &&& req.reply_to matches Some(t) && t@ == dec(msg.chat_id as int)
    &&& req.session_id matches Some(s) && s@ == dec(msg.chat_id as int)
}

/// Whether screening decided right. In order: the allowlist, the rate limit,
/// `!!`, a `!` line, the catalog, and otherwise the dispatcher.
pub open spec fn screened_right(
    msg: InboundMessage,
    cfg: TelegramIngressConfig,
    within_rate: bool,
    invocation: Option<Invocation>,
    catalog: Catalog,
    run: Option<SentMessage>,
    s: Screened,
) -> bool {
    if !cfg.allowed_user_ids@.contains(msg.user_id) {
        s matches Screened::Reject(r) && r@ == "user id not in allowed_user_ids"@
    } else if !within_rate {
        s matches Screened::Reject(r) && r@ == "rate limit exceeded"@
    } else if trimmed(msg.text@) == "!!"@ {
        s is Confirm
    } else if bang(msg.text@) is Some {
        s matches Screened::Bang { bin, args } && bang(msg.text@) == Some((bin@, views(args@)))
    } else {
        match invocation {
            Some(i) if i.resolved is None => s matches Screened::Answer(t) && t@ == if i.name@
                == "help"@ {
                help_answer(catalog)
            } else {
                unknown_answer(i.name@, catalog)
            },
            _ => s matches Screened::Run(req) && hands_over(req, msg, cfg, run, invocation),
        }
    }
}

/// Whether the rate limiter is asked about a message: only for users on the
/// allowlist, so that an unlisted flooder cannot spend anyone's quota.
pub fn asks_limiter(msg: &InboundMessage, cfg: &TelegramIngressConfig) -> (r: bool)
    ensures
        r == cfg.allowed_user_ids@.contains(msg.user_id),
{
    cfg.allows(msg.user_id)
}

/// Decide what to do with one inbound message.
///
/// `within_rate` is the limiter's verdict where [`asks_limiter`] says it is
/// asked. `invocation` is the `/name args` reading of the text, with the name
/// looked up in the catalog. `run` is the run behind the message that is being
/// replied to, when that was a notification.
pub fn screen(
    msg: &InboundMessage,
    cfg: &TelegramIngressConfig,
    within_rate: bool,
    invocation: &Option<Invocation>,
    catalog: &Catalog,
    run: &Option<SentMessage>,
) -> (r: Screened)
    ensures
        screened_right(*msg, *cfg, within_rate, *invocation, *catalog, *run, r),
{
    if !cfg.allows(msg.user_id) {
        return Screened::Reject("user id not in allowed_user_ids");
    }
    if !within_rate {
        return Screened::Reject("rate limit exceeded");
    }
    if is_confirmation(msg.text.as_str()) {
        return Screened::Confirm;
    }
    if let Some((bin, args)) = parse_bang(msg.text.as_str()) {
        return Screened::Bang { bin, args };
    }
    let command: Option<(String, String)> = match invocation {
        Some(i) => match &i.resolved {
            Some(name) => Some((name.clone(), i.args.clone())),
            None => {
                if same(i.name.as_str(), "help") {
                    return Screened::Answer(help_text(catalog));
                }
                return Screened::Answer(unknown_command_text(i.name.as_str(), catalog));
            },
        },
        None => None,
    };
    let chat = dec_i64(msg.chat_id);
    let mut members = no_members();
    put_member(&mut members, "text", text_value(msg.text.as_str()));
    put_member(&mut members, "session_id", text_value(chat.as_str()));
    put_member(&mut members, "chat_id", signed_value(msg.chat_id));
    put_member(&mut members, "user_id", signed_value(msg.user_id));
    put_member(&mut members, "message_id", signed_value(msg.message_id));
    put_member(&mut members, "reply_to_text", optional_text(&msg.reply_to_text));
    put_member(&mut members, "reply_to_run", run_value(run));
    put_member(&mut members, "command", command_value(&command));
    Screened::Run(
        TriggerRequest {
            agent: cfg.dispatcher_agent.clone(),
            source: TriggerSource::Telegram,
            actor: Some(dec_i64(msg.user_id)),
            session_id: Some(chat.clone()),
            reply_to: Some(chat),
            schedule: None,
            args: Vec::new(),
            payload: Some(object_value(members)),
        },
    )
}

/// Nothing an unlisted sender writes makes a difference: whatever the text,
/// the catalog or the limiter, the answer is the refusal.
pub proof fn an_unlisted_sender_reaches_nothing(
    msg: InboundMessage,
    cfg: TelegramIngressConfig,
    within_rate: bool,
    invocation: Option<Invocation>,
    catalog: Catalog,
    run: Option<SentMessage>,
    s: Screened,
)
    requires
        !cfg.allowed_user_ids@.contains(msg.user_id),
        screened_right(msg, cfg, within_rate, invocation, catalog, run, s),
    ensures
        s is Reject,
{
}

/// An empty allowlist means nobody.
pub proof fn an_empty_allowlist_means_nobody(
    msg: InboundMessage,
    cfg: TelegramIngressConfig,
    within_rate: bool,
    invocation: Option<Invocation>,
    catalog: Catalog,
    run: Option<SentMessage>,
    s: Screened,
)
    requires
        cfg.allowed_user_ids@.len() == 0,
        screened_right(msg, cfg, within_rate, invocation, catalog, run, s),
    ensures
        s is Reject,
{
}

/// The message never chooses what runs: a run goes to the configured
/// dispatcher, with no arguments.
pub proof fn the_message_never_chooses_the_agent(
    msg: InboundMessage,
    cfg: TelegramIngressConfig,
    within_rate: bool,
    invocation: Option<Invocation>,
    catalog: Catalog,
    run: Option<SentMessage>,
    s: Screened,
)
    requires
        screened_right(msg, cfg, within_rate, invocation, catalog, run, s),
        s is Run,
    ensures
        s->Run_0.agent@ == cfg.dispatcher_agent@,
        s->Run_0.args@.len() == 0,
{
}

/// The audit entry of a `/name` line.
#[derive(Debug, PartialEq, Eq)]
pub struct CommandDispatched {
    pub command: String,
    pub actor: String,
    pub known: bool,
}

/// Whether `r` is what is audited of a `/name` line.
pub open spec fn command_audited(
    msg: InboundMessage,
    invocation: Option<Invocation>,
    r: Option<CommandDispatched>,
) -> bool {
    match invocation {
        Some(i) => r matches Some(e) && e.command@ == i.name@ && e.actor@ == dec(
            msg.user_id as int,
        ) && e.known == (i.resolved is Some),
        None => r is None,
    }
}

/// What is audited of a message before it is screened: the name of the command
/// it invokes, whether or not one is installed. Repeated misses from one sender
/// are what probing looks like. The arguments are content, and stay out.
pub fn command_entry(msg: &InboundMessage, invocation: &Option<Invocation>) -> (r: Option<
    CommandDispatched,
>)
    ensures
        command_audited(*msg, *invocation, r),
{
    match invocation {
        Some(i) => Some(
            CommandDispatched {
                command: i.name.clone(),
                actor: dec_i64(msg.user_id),
                known: i.resolved.is_some(),
            },
        ),
        None => None,
    }
}

/// Whether `r` is what is audited of a message that was refused.
pub open spec fn refusal_audited(msg: InboundMessage, reason: Seq<char>, r: TriggerRejected) -> bool {
    &&& r.source@ == source_text(TriggerSource::Telegram)
    &&& r.actor@ == dec(msg.user_id as int)
    &&& r.reason@ == reason
}

/// What is audited of a message that was refused.
pub fn refused_entry(msg: &InboundMessage, reason: &str) -> (r: TriggerRejected)
    ensures
        refusal_audited(*msg, reason@, r),
{
    TriggerRejected {
        source: TriggerSource::Telegram.name().to_owned(),
        actor: dec_i64(msg.user_id),
        reason: reason.to_owned(),
    }
}

/// The chats the command menu is published to.
pub open spec fn menu_audience(commands_enabled: bool, cfg: TelegramIngressConfig) -> Seq<i64> {
    if commands_enabled {
        cfg.allowed_user_ids@
    } else {
        Seq::empty()
    }
}

/// The chats the command menu is published to: those of the allowed users, one
/// by one. Publishing it to everyone would show every command to anyone who
/// finds the bot.
pub fn menu_chats(commands_enabled: bool, cfg: &TelegramIngressConfig) -> (r: Vec<i64>)
    ensures
        r@ == menu_audience(commands_enabled, *cfg),
{
    let mut out: Vec<i64> = Vec::new();
    if !commands_enabled {
        return out;
    }
    let mut i: usize = 0;
    while i < cfg.allowed_user_ids.len()
        invariant
            i <= cfg.allowed_user_ids@.len(),
            out@ == cfg.allowed_user_ids@.take(i as int),
        decreases cfg.allowed_user_ids@.len() - i,
    {
        out.push(cfg.allowed_user_ids[i]);
        i = i + 1;
        assert(out@ =~= cfg.allowed_user_ids@.take(i as int));
    }
    assert(out@ =~= cfg.allowed_user_ids@);
    out
}

/// What the sender of a trigger is told that was refused for `reason`.
pub open spec fn turned_down(reason: Seq<char>) -> Seq<char> {
    "Request not accepted: "@ + reason + "."@
}

/// What the sender of a trigger the gateway refused is told.
pub fn not_accepted_text(rejection: &SubmitRejected) -> (r: String)
    ensures
        r@ == turned_down(rejection_reason(*rejection)),
{
    let mut out = "Request not accepted: ".to_owned();
    out.append(rejection.reason());
    out.append(".");
    out
}

// ---------------------------------------------------------------------
// Typed commands
// ---------------------------------------------------------------------

/// What to do about a typed command.
#[derive(Debug, PartialEq, Eq)]
pub enum TypedStep {
    /// Answer with this.
    Answer(String),
    /// Run it, and answer with how it ended.
    Run(RunStep),
}

/// Whether a typed line is resolved right: what is pending `before` and `after`
/// it, and what is done about it.
pub open spec fn typed_right(
    before: Map<Seq<char>, PendingView>,
    after: Map<Seq<char>, PendingView>,
    session: Seq<char>,
    bin: Seq<char>,
    args: Seq<String>,
    decision: OsDecision,
    confirm_ttl_seconds: u64,
    timeout_seconds: u64,
    now: nat,
    r: TypedStep,
) -> bool {
    match decision {
        OsDecision::Deny => after == before && (r matches TypedStep::Answer(t) && t@
            == refusal_typed_text(bin)),
        OsDecision::Confirm => after == parked(before, session, bin, views(args), now) && (
        r matches TypedStep::Answer(t) && t@ == prompt_text(
            bin,
            views(args),
            confirm_ttl_seconds as int,
        )),
        OsDecision::Allow => after == before && (r matches TypedStep::Run(RunStep::Spawn(s))
            && s.program@ == bin && s.args@ == args && s.owner_agent@ == "os"@
            && s.owner_plugin is None && s.deadline_seconds == timeout_seconds && s.label@
            == "os:"@ + bin),
    }
}

/// Resolve a typed line: refuse it, park it and ask first, or run it.
///
/// Shared by every transport: the same line means the same thing whichever one
/// carried it.
pub fn handle_typed_command(
    confirmations: &mut Confirmations,
    session: &str,
    bin: &str,
    args: &[String],
    decision: OsDecision,
    confirm_ttl_seconds: u64,
    timeout_seconds: u64,
    now_nanos: u128,
) -> (r: TypedStep)
    ensures
        typed_right(
            old(confirmations)@,
            final(confirmations)@,
            session@,
            bin@,
            args@,
            decision,
            confirm_ttl_seconds,
            timeout_seconds,
            now_nanos as nat,
            r,
        ),
{
    match decision {
        OsDecision::Deny => TypedStep::Answer(refusal_typed(bin)),
        OsDecision::Confirm => {
            confirmations.park(session, bin, args, now_nanos);
            TypedStep::Answer(confirmation_prompt(bin, args, confirm_ttl_seconds))
        },
        OsDecision::Allow => TypedStep::Run(
            run_allowed(decision, bin, args, timeout_seconds, refusal_typed(bin)),
        ),
    }
}

/// Whether `!!` is answered right.
pub open spec fn confirmation_right(
    before: Map<Seq<char>, PendingView>,
    after: Map<Seq<char>, PendingView>,
    session: Seq<char>,
    confirm_ttl_seconds: nat,
    now: nat,
    r: Result<(String, Vec<String>), String>,
) -> bool {
    &&& after == after_confirming(before, session)
    &&& match r {
        Ok(p) => confirmed(before, session, confirm_ttl_seconds, now) == Some((p.0@, views(p.1@))),
        Err(t) => confirmed(before, session, confirm_ttl_seconds, now) is None && t@
            == "Nothing is waiting for confirmation here (or it expired)."@,
    }
}

/// Answer `!!`: the command this conversation had parked, to be run under the
/// policy as it stands now, or the answer that nothing is waiting.
pub fn handle_confirmation(
    confirmations: &mut Confirmations,
    session: &str,
    confirm_ttl_seconds: u64,
    now_nanos: u128,
) -> (r: Result<(String, Vec<String>), String>)
    ensures
        confirmation_right(
            old(confirmations)@,
            final(confirmations)@,
            session@,
            confirm_ttl_seconds as nat,
            now_nanos as nat,
            r,
        ),
{
    match confirmations.take(session, confirm_ttl_seconds, now_nanos) {
        Some(p) => Ok(p),
        None => Err("Nothing is waiting for confirmation here (or it expired).".to_owned()),
    }
}

// ---------------------------------------------------------------------
// The environment of a triggered run
// ---------------------------------------------------------------------

/// The views of a list of variables.
pub open spec fn env_view(env: Seq<(String, String)>) -> Seq<(Seq<char>, Seq<char>)> {
    env.map_values(|p: (String, String)| (p.0@, p.1@))
}

/// `env`, with a variable where it has a value.
pub open spec fn with_var(
    env: Seq<(Seq<char>, Seq<char>)>,
    key: Seq<char>,
    value: Option<String>,
) -> Seq<(Seq<char>, Seq<char>)> {
    match value {
        Some(v) => env.push((key, v@)),
        None => env,
    }
}

/// The variables a triggered agent sees: the source always, the rest where it
/// is set, the payload as JSON.
pub open spec fn trigger_vars(req: TriggerRequest) -> Seq<(Seq<char>, Seq<char>)> {
    let base = seq![("AGENT_TRIGGER_SOURCE"@, source_text(req.source))];
    let env = with_var(
        with_var(
            with_var(base, "AGENT_SESSION_ID"@, req.session_id),
            "AGENT_TRIGGER_ACTOR"@,
            req.actor,
        ),
        "AGENT_TRIGGER_REPLY_TO"@,
        req.reply_to,
    );
    match req.payload {
        Some(p) => env.push(("AGENT_TRIGGER_PAYLOAD"@, json_text(json_view(p)))),
        None => env,
    }
}

fn push_var(env: &mut Vec<(String, String)>, key: &str, value: &Option<String>)
    ensures
        env_view(final(env)@) == with_var(env_view(old(env)@), key@, *value),
{
    let ghost before = env_view(env@);
    if let Some(v) = value {
        env.push((key.to_owned(), v.clone()));
        proof {
            assert(env_view(env@) =~= before.push((key@, v@)));
        }
    }
}

/// Trigger context handed to the agent process. A variable whose field is
/// absent is missing rather than empty.
pub fn trigger_env(req: &TriggerRequest) -> (r: Vec<(String, String)>)
    ensures
        env_view(r@) == trigger_vars(*req),
{
    let mut env: Vec<(String, String)> = Vec::new();
    env.push(("AGENT_TRIGGER_SOURCE".to_owned(), req.source.name().to_owned()));
    proof {
        assert(env_view(env@) =~= seq![("AGENT_TRIGGER_SOURCE"@, source_text(req.source))]);
    }
    push_var(&mut env, "AGENT_SESSION_ID", &req.session_id);
    push_var(&mut env, "AGENT_TRIGGER_ACTOR", &req.actor);
    push_var(&mut env, "AGENT_TRIGGER_REPLY_TO", &req.reply_to);
    let ghost before = env_view(env@);
    if let Some(p) = &req.payload {
        let text = print_value(p);
        let ghost shown = text@;
        env.push(("AGENT_TRIGGER_PAYLOAD".to_owned(), text));
        proof {
            assert(env_view(env@) =~= before.push(("AGENT_TRIGGER_PAYLOAD"@, shown)));
        }
    }
    env
}

/// The variables a triggered agent sees, with those of its harness.
pub open spec fn triggered_vars(
    req: TriggerRequest,
    harness: Seq<(Seq<char>, Seq<char>)>,
) -> Seq<(Seq<char>, Seq<char>)> {
    trigger_vars(req) + harness
}

/// What a triggered agent sees: the trigger's own variables, then the
/// harness's. What comes later wins, so no trigger overrides the harness.
pub fn triggered_env(req: &TriggerRequest, harness: Vec<(String, String)>) -> (r: Vec<
    (String, String),
>)
    ensures
        env_view(r@) == triggered_vars(*req, env_view(harness@)),
{
    let mut env = trigger_env(req);
    let ghost own = env@;
    let ghost theirs = harness@;
    let mut more = harness;
    env.append(&mut more);
    proof {
        assert(env_view(env@) =~= env_view(own) + env_view(theirs));
    }
    env
}

/// A trigger sets no variable but its own five: the source first, and each of
/// the others only with the value of its field.
pub proof fn a_trigger_sets_only_its_own_variables(req: TriggerRequest)
    ensures
        trigger_vars(req).len() > 0,
        trigger_vars(req)[0] == ("AGENT_TRIGGER_SOURCE"@, source_text(req.source)),
        forall|i: int|
            0 <= i < trigger_vars(req).len() ==> {
                let v = #[trigger] trigger_vars(req)[i];
                ||| v == ("AGENT_TRIGGER_SOURCE"@, source_text(req.source))
                ||| req.session_id is Some && v == ("AGENT_SESSION_ID"@, req.session_id->0@)
                ||| req.actor is Some && v == ("AGENT_TRIGGER_ACTOR"@, req.actor->0@)
                ||| req.reply_to is Some && v == ("AGENT_TRIGGER_REPLY_TO"@, req.reply_to->0@)
                ||| req.payload is Some && v == (
                    "AGENT_TRIGGER_PAYLOAD"@,
                    json_text(json_view(req.payload->0)),
                )
            },
{
}

// ---------------------------------------------------------------------
// Laws of a message that is handed over
// ---------------------------------------------------------------------

proof fn lemma_payload_names()
    ensures
        "text"@ != "session_id"@ && "text"@ != "chat_id"@ && "text"@ != "user_id"@,
        "text"@ != "message_id"@ && "text"@ != "reply_to_text"@ && "text"@ != "reply_to_run"@,
        "text"@ != "command"@,
        "session_id"@ != "chat_id"@ && "session_id"@ != "user_id"@ && "session_id"@
            != "message_id"@,
        "session_id"@ != "reply_to_text"@ && "session_id"@ != "reply_to_run"@ && "session_id"@
            != "command"@,
        "chat_id"@ != "user_id"@ && "chat_id"@ != "message_id"@ && "chat_id"@ != "reply_to_text"@,
        "chat_id"@ != "reply_to_run"@ && "chat_id"@ != "command"@,
        "user_id"@ != "message_id"@ && "user_id"@ != "reply_to_text"@ && "user_id"@
            != "reply_to_run"@ && "user_id"@ != "command"@,
        "message_id"@ != "reply_to_text"@ && "message_id"@ != "reply_to_run"@ && "message_id"@
            != "command"@,
        "reply_to_text"@ != "reply_to_run"@ && "reply_to_text"@ != "command"@,
        "reply_to_run"@ != "command"@,
        "agent"@ != "schedule"@ && "agent"@ != "event"@ && "schedule"@ != "event"@,
        "name"@ != "args"@,
{
    reveal_strlit("text");
    reveal_strlit("session_id");
    reveal_strlit("chat_id");
    reveal_strlit("user_id");
    reveal_strlit("message_id");
    reveal_strlit("reply_to_text");
    reveal_strlit("reply_to_run");
    reveal_strlit("command");
    reveal_strlit("agent");
    reveal_strlit("schedule");
    reveal_strlit("event");
    reveal_strlit("name");
    reveal_strlit("args");
    assert("text"@.len() == 4 && "session_id"@.len() == 10 && "chat_id"@.len() == 7);
    assert("user_id"@.len() == 7 && "message_id"@.len() == 10 && "reply_to_text"@.len() == 13);
    assert("reply_to_run"@.len() == 12 && "command"@.len() == 7);
    assert("session_id"@[0] == 's' && "message_id"@[0] == 'm');
    assert("chat_id"@[1] == 'h' && "user_id"@[1] == 's' && "command"@[1] == 'o');
    assert("agent"@.len() == 5 && "schedule"@.len() == 8 && "event"@.len() == 5);
    assert("agent"@[0] == 'a' && "event"@[0] == 'e');
    assert("name"@[0] == 'n' && "args"@[0] == 'a');
}

/// What the dispatcher is told, member by member: what was said and by whom,
/// where and as which message, and which message it answers. Each member is
/// that part of the message and depends on no other.
pub proof fn every_part_of_a_message_has_its_own_member(
    msg: InboundMessage,
    cfg: TelegramIngressConfig,
    within_rate: bool,
    invocation: Option<Invocation>,
    catalog: Catalog,
    run: Option<SentMessage>,
    s: Screened,
)
    requires
        screened_right(msg, cfg, within_rate, invocation, catalog, run, s),
        s is Run,
    ensures
        s->Run_0.payload is Some,
        ({
            let p = json_view(s->Run_0.payload->0);
            &&& member_of(p, "text"@) == Some(JsonView::Text(msg.text@))
            &&& member_of(p, "session_id"@) == Some(JsonView::Text(dec(msg.chat_id as int)))
            &&& member_of(p, "chat_id"@) == Some(integer(msg.chat_id as int))
            &&& member_of(p, "user_id"@) == Some(integer(msg.user_id as int))
            &&& member_of(p, "message_id"@) == Some(integer(msg.message_id as int))
            &&& msg.reply_to_text is Some ==> member_of(p, "reply_to_text"@) == Some(
                JsonView::Text(msg.reply_to_text->0@),
            )
            &&& msg.reply_to_text is None ==> member_of(p, "reply_to_text"@) == Some(JsonView::Null)
        }),
        s->Run_0.actor is Some && s->Run_0.actor->0@ == dec(msg.user_id as int),
        s->Run_0.session_id is Some && s->Run_0.session_id->0@ == dec(msg.chat_id as int),
        s->Run_0.reply_to is Some && s->Run_0.reply_to->0@ == dec(msg.chat_id as int),
{
    lemma_payload_names();
}

/// The dispatcher is told which notification a message answers, and which
/// installed command it invokes with which arguments: null where there is none.
pub proof fn a_payload_names_the_run_and_the_command(
    msg: InboundMessage,
    cfg: TelegramIngressConfig,
    within_rate: bool,
    invocation: Option<Invocation>,
    catalog: Catalog,
    run: Option<SentMessage>,
    s: Screened,
)
    requires
        screened_right(msg, cfg, within_rate, invocation, catalog, run, s),
        s is Run,
    ensures
        s->Run_0.payload is Some,
        ({
            let p = json_view(s->Run_0.payload->0);
            &&& run is None ==> member_of(p, "reply_to_run"@) == Some(JsonView::Null)
            &&& run is Some ==> member_of(p, "reply_to_run"@) is Some && ({
                let m = member_of(p, "reply_to_run"@)->0;
                &&& member_of(m, "agent"@) == Some(JsonView::Text(run->0.agent@))
                &&& member_of(m, "schedule"@) == Some(JsonView::Text(run->0.schedule@))
                &&& member_of(m, "event"@) == Some(JsonView::Text(run->0.event@))
            })
            &&& invocation is None ==> member_of(p, "command"@) == Some(JsonView::Null)
            &&& invocation is Some ==> invocation->0.resolved is Some && member_of(
                p,
                "command"@,
            ) is Some && ({
                let m = member_of(p, "command"@)->0;
                &&& member_of(m, "name"@) == Some(JsonView::Text(invocation->0.resolved->0@))
                &&& member_of(m, "args"@) == Some(JsonView::Text(invocation->0.args@))
            })
        }),
{
    lemma_payload_names();
}

/// Two replies to the same text carry the same quote, whoever sends them and
/// whatever they say; and two messages with different quotes carry different
/// ones.
pub proof fn a_quote_is_what_was_quoted(
    a: InboundMessage,
    b: InboundMessage,
    run: Option<SentMessage>,
    other_run: Option<SentMessage>,
    command: Option<(Seq<char>, Seq<char>)>,
    other_command: Option<(Seq<char>, Seq<char>)>,
)
    requires
        a.reply_to_text is Some,
        b.reply_to_text is Some,
    ensures
        member_of(payload_view(a, run, command), "reply_to_text"@) == member_of(
            payload_view(b, other_run, other_command),
            "reply_to_text"@,
        ) <==> a.reply_to_text->0@ == b.reply_to_text->0@,
{
    lemma_payload_names();
    assert(member_of(payload_view(a, run, command), "reply_to_text"@) == Some(
        JsonView::Text(a.reply_to_text->0@),
    ));
    assert(member_of(payload_view(b, other_run, other_command), "reply_to_text"@) == Some(
        JsonView::Text(b.reply_to_text->0@),
    ));
    if a.reply_to_text->0@ != b.reply_to_text->0@ {
        assert(JsonView::Text(a.reply_to_text->0@)->Text_0 == a.reply_to_text->0@);
        assert(JsonView::Text(b.reply_to_text->0@)->Text_0 == b.reply_to_text->0@);
    }
}

/// What a message comes to, from the sender outwards: the dispatcher sees it
/// only when the sender is listed and within the rate, the line is no `!` line,
/// and the command it names, if any, is installed.
pub proof fn the_dispatcher_sees_only_what_nobody_else_answers(
    msg: InboundMessage,
    cfg: TelegramIngressConfig,
    within_rate: bool,
    invocation: Option<Invocation>,
    catalog: Catalog,
    run: Option<SentMessage>,
    s: Screened,
)
    requires
        screened_right(msg, cfg, within_rate, invocation, catalog, run, s),
    ensures
        s is Run <==> cfg.allowed_user_ids@.contains(msg.user_id) && within_rate && trimmed(
            msg.text@,
        ) != "!!"@ && bang(msg.text@) is None && (invocation is Some
            ==> invocation->0.resolved is Some),
        cfg.allowed_user_ids@.contains(msg.user_id) && within_rate ==> !(s is Reject),
        !within_rate ==> s is Reject,
        s is Bang ==> msg.text@.len() > 0 && msg.text@[0] == '!',
        s is Confirm ==> trimmed(msg.text@) == "!!"@,
        s is Answer ==> invocation is Some && invocation->0.resolved is None,
{
}

/// The help names every installed command, and the answer to an unknown one
/// names it and what is installed instead.
pub proof fn answers_name_the_commands(name: Seq<char>, catalog: Catalog, i: int)
    requires
        0 <= i < catalog.menu@.len(),
    ensures
        holds_text(help_answer(catalog), catalog.menu@[i]@ + "\n"@),
        holds_text(unknown_answer(name, catalog), "/"@ + name),
        catalog.installed@.len() > 0 ==> holds_text(unknown_answer(name, catalog), catalog.installed@),
{
    reveal_strlit("/");
    reveal_strlit("No command named /");
    lemma_menu_holds(catalog.menu@, i);
    let line = catalog.menu@[i]@ + "\n"@;
    let body = menu_text(catalog.menu@);
    let at = choose|at: int| #[trigger] occurs_at(body, line, at);
    let help = "Commands:\n"@ + body;
    let p = "Commands:\n"@.len() + at;
    assert(help.subrange(p, p + line.len()) =~= body.subrange(at, at + line.len()));
    assert(occurs_at(help, line, p));
    lemma_holds_more(help, line, "\nOr just say what you need in plain words."@);
    let head = "No command named /"@.take(17);
    assert("No command named /"@ =~= head + "/"@);
    let none = Seq::<char>::empty();
    let said = "No command named /"@ + name;
    assert(said =~= head + ("/"@ + name) + none);
    lemma_holds_part(said, head, "/"@ + name, none);
    lemma_holds_more(said, "/"@ + name, ", and none are installed. Try plain words."@);
    lemma_holds_more(said, "/"@ + name, ". Installed: "@);
    let so_far = said + ". Installed: "@;
    lemma_holds_more(so_far, "/"@ + name, catalog.installed@);
    lemma_holds_more(so_far + catalog.installed@, "/"@ + name, ". Or /help."@);
    lemma_holds_part(
        so_far + catalog.installed@ + ". Or /help."@,
        so_far,
        catalog.installed@,
        ". Or /help."@,
    );
}

proof fn lemma_menu_holds(menu: Seq<String>, i: int)
    requires
        0 <= i < menu.len(),
    ensures
        holds_text(menu_text(menu), menu[i]@ + "\n"@),
    decreases menu.len(),
{
    let head = menu.drop_last();
    let before = menu_text(head);
    let line = menu[i]@ + "\n"@;
    if i < head.len() {
        lemma_menu_holds(head, i);
        assert(head[i] == menu[i]);
        lemma_holds_more(before, line, menu.last()@);
        lemma_holds_more(before + menu.last()@, line, "\n"@);
    } else {
        let none = Seq::<char>::empty();
        assert(menu_text(menu) =~= before + line + none);
        lemma_holds_part(menu_text(menu), before, line, none);
    }
}

/// Each field of a trigger that is set reaches the agent under its own name, and
/// one that is not set has no variable.
pub proof fn every_field_has_its_own_variable(req: TriggerRequest, i: int)
    requires
        0 <= i < trigger_vars(req).len(),
    ensures
        req.session_id is Some ==> trigger_vars(req).contains(
            ("AGENT_SESSION_ID"@, req.session_id->0@),
        ),
        req.actor is Some ==> trigger_vars(req).contains(("AGENT_TRIGGER_ACTOR"@, req.actor->0@)),
        req.reply_to is Some ==> trigger_vars(req).contains(
            ("AGENT_TRIGGER_REPLY_TO"@, req.reply_to->0@),
        ),
        req.payload is Some ==> trigger_vars(req).contains(
            ("AGENT_TRIGGER_PAYLOAD"@, json_text(json_view(req.payload->0))),
        ),
        trigger_vars(req)[i].0 == "AGENT_SESSION_ID"@ ==> optional(req.session_id) == Some(
            trigger_vars(req)[i].1,
        ),
        trigger_vars(req)[i].0 == "AGENT_TRIGGER_ACTOR"@ ==> optional(req.actor) == Some(
            trigger_vars(req)[i].1,
        ),
        trigger_vars(req)[i].0 == "AGENT_TRIGGER_REPLY_TO"@ ==> optional(req.reply_to) == Some(
            trigger_vars(req)[i].1,
        ),
{
    reveal_strlit("AGENT_TRIGGER_SOURCE");
    reveal_strlit("AGENT_SESSION_ID");
    reveal_strlit("AGENT_TRIGGER_ACTOR");
    reveal_strlit("AGENT_TRIGGER_REPLY_TO");
    reveal_strlit("AGENT_TRIGGER_PAYLOAD");
    assert("AGENT_TRIGGER_SOURCE"@.len() == 20 && "AGENT_SESSION_ID"@.len() == 16);
    assert("AGENT_TRIGGER_ACTOR"@.len() == 19 && "AGENT_TRIGGER_REPLY_TO"@.len() == 22);
    assert("AGENT_TRIGGER_PAYLOAD"@.len() == 21);
    let base = seq![("AGENT_TRIGGER_SOURCE"@, source_text(req.source))];
    let e1 = with_var(base, "AGENT_SESSION_ID"@, req.session_id);
    let e2 = with_var(e1, "AGENT_TRIGGER_ACTOR"@, req.actor);
    let e3 = with_var(e2, "AGENT_TRIGGER_REPLY_TO"@, req.reply_to);
    let all = trigger_vars(req);
    if req.session_id is Some {
        assert(all[1] == ("AGENT_SESSION_ID"@, req.session_id->0@));
    }
    if req.actor is Some {
        assert(all[e1.len() as int] == ("AGENT_TRIGGER_ACTOR"@, req.actor->0@));
    }
    if req.reply_to is Some {
        assert(all[e2.len() as int] == ("AGENT_TRIGGER_REPLY_TO"@, req.reply_to->0@));
    }
    if req.payload is Some {
        assert(all[e3.len() as int] == (
            "AGENT_TRIGGER_PAYLOAD"@,
            json_text(json_view(req.payload->0)),
        ));
    }
}

/// No trigger overrides the harness: what the harness sets stands behind
/// everything the trigger sets, and what stands later wins.
pub proof fn the_harness_has_the_last_word(
    req: TriggerRequest,
    harness: Seq<(Seq<char>, Seq<char>)>,
    i: int,
    j: int,
)
    requires
        0 <= i < trigger_vars(req).len(),
        0 <= j < harness.len(),
    ensures
        exists|a: int, b: int|
            0 <= a < b < triggered_vars(req, harness).len() && #[trigger] triggered_vars(
                req,
                harness,
            )[a] == trigger_vars(req)[i] && #[trigger] triggered_vars(req, harness)[b]
                == harness[j],
        triggered_vars(req, harness).len() == trigger_vars(req).len() + harness.len(),
{
    let all = triggered_vars(req, harness);
    let b = trigger_vars(req).len() + j;
    assert(all[i] == trigger_vars(req)[i]);
    assert(all[b] == harness[j]);
}

// ---------------------------------------------------------------------
// Laws of what is typed
// ---------------------------------------------------------------------

/// What is typed and must be confirmed runs on the next `!!` of the same
/// conversation, exactly as it was typed, once, and only while it is fresh.
pub proof fn what_is_confirmed_is_what_was_typed(
    before: Map<Seq<char>, PendingView>,
    asked: Map<Seq<char>, PendingView>,
    after: Map<Seq<char>, PendingView>,
    session: Seq<char>,
    bin: Seq<char>,
    args: Seq<String>,
    ttl: u64,
    timeout_seconds: u64,
    now: nat,
    later: nat,
    step: TypedStep,
    r: Result<(String, Vec<String>), String>,
)
    requires
        typed_right(
            before,
            asked,
            session,
            bin,
            args,
            OsDecision::Confirm,
            ttl,
            timeout_seconds,
            now,
            step,
        ),
        confirmation_right(asked, after, session, ttl as nat, later, r),
    ensures
        step is Answer,
        later <= now + ttl * 1_000_000_000 ==> r is Ok && r->Ok_0.0@ == bin && views(r->Ok_0.1@)
            == views(args),
        later > now + ttl * 1_000_000_000 ==> r is Err,
        !after.dom().contains(session),
        forall|other: Seq<char>|
            other != session ==> #[trigger] after.dom().contains(other) == before.dom().contains(
                other,
            ) && (before.dom().contains(other) ==> after[other] == before[other]),
{
}

/// A typed line runs at once exactly when the policy allows it: what runs is
/// that line, and nothing is left waiting. A denied one runs nothing and says
/// which binary was denied.
pub proof fn only_what_is_allowed_runs_at_once(
    before: Map<Seq<char>, PendingView>,
    after: Map<Seq<char>, PendingView>,
    session: Seq<char>,
    bin: Seq<char>,
    args: Seq<String>,
    decision: OsDecision,
    ttl: u64,
    timeout_seconds: u64,
    now: nat,
    step: TypedStep,
)
    requires
        typed_right(
            before,
            after,
            session,
            bin,
            args,
            decision,
            ttl,
            timeout_seconds,
            now,
            step,
        ),
    ensures
        step is Run <==> decision == OsDecision::Allow,
        step is Run ==> step->Run_0 is Spawn && step->Run_0->Spawn_0.program@ == bin
            && step->Run_0->Spawn_0.args@ == args && step->Run_0->Spawn_0.deadline_seconds
            == timeout_seconds,
        decision != OsDecision::Confirm ==> after == before,
        decision == OsDecision::Deny ==> holds_text(step->Answer_0@, bin),
        decision == OsDecision::Confirm ==> holds_text(
            step->Answer_0@,
            command_line(bin, views(args)),
        ),
{
    if decision == OsDecision::Deny {
        let end = "` is not allowed. Add it to `[os] allow` in config.toml to change that."@;
        lemma_holds_part("`"@ + bin + end, "`"@, bin, end);
    }
    if decision == OsDecision::Confirm {
        let lead = "This will run:\n\n    "@;
        let line = command_line(bin, views(args));
        let end = "\n\nSend `!!` to confirm. It expires in "@ + dec(ttl as int) + "s."@;
        assert(step->Answer_0@ =~= lead + line + end);
        lemma_holds_part(step->Answer_0@, lead, line, end);
    }
}

/// A command that is invoked is audited under the name that was typed, whether
/// or not it is installed, and as the sender's: two senders are told apart.
pub proof fn an_invocation_is_audited_as_it_was_typed(
    msg: InboundMessage,
    invocation: Option<Invocation>,
    reason: Seq<char>,
    entry: Option<CommandDispatched>,
    refused: TriggerRejected,
)
    requires
        command_audited(msg, invocation, entry),
        refusal_audited(msg, reason, refused),
    ensures
        entry is Some <==> invocation is Some,
        invocation is Some ==> entry->0.command@ == invocation->0.name@,
        invocation is Some ==> (entry->0.known <==> invocation->0.resolved is Some),
        invocation is Some ==> entry->0.actor@ == refused.actor@,
        refused.actor@ == dec(msg.user_id as int),
        refused.reason@ == reason,
        refused.source@ == source_text(TriggerSource::Telegram),
{
}

/// Only allowed users get the menu, and where commands are on each of them does.
/// Whoever is turned down is told the reason.
pub proof fn only_allowed_users_get_the_menu(
    commands_enabled: bool,
    cfg: TelegramIngressConfig,
    user: i64,
    reason: Seq<char>,
)
    ensures
        menu_audience(commands_enabled, cfg).contains(user) <==> commands_enabled
            && cfg.allowed_user_ids@.contains(user),
        holds_text(turned_down(reason), reason),
{
    lemma_holds_part(turned_down(reason), "Request not accepted: "@, reason, "."@);
}

/// A variable is seen as its name and its value, in that order.
pub proof fn a_variable_is_a_name_and_a_value(env: Seq<(String, String)>, i: int)
    requires
        0 <= i < env.len(),
    ensures
        env_view(env).len() == env.len(),
        env_view(env)[i].0 == env[i].0@ && env_view(env)[i].1 == env[i].1@,
{
}

} // verus!
