//! The daemon behind the local API: wire requests become triggers, and the
//! output of a run becomes events, in order.

use crate::daemon::screen::{
    Catalog, InboundMessage, Invocation, Screened, SentMessage, TelegramIngressConfig,
    screened_right,
};
use crate::gateway::sink::Delivery;
use crate::gateway::{SubmitRejected, TriggerRequest, TriggerSource, rejection_reason};
use crate::json::{
    JsonView, json_view, json_views, list_value, no_members, object_value, optional_text,
    put_member, text_member, text_value,
};
use crate::local_api::error_code;
use crate::local_api::protocol::{
    MessageSendParams, ServerError, ServerEvent, optional, session_id_ok,
};
use crate::local_api::server::{
    EventSendError, EventTx, PeerInfo, QueueSlot, actor_name, after_event, event_sent,
    response_sent,
};
use crate::os_exec::{bang, is_confirmation, parse_bang};
use crate::text::{byte_len, is_blank_text, trimmed, views};
use serde_json::Value;
use vstd::prelude::*;

verus! {

broadcast use vstd::string::group_string_axioms;

// ---------------------------------------------------------------------
// The reply gate between the response and the run's events
// ---------------------------------------------------------------------

/// Holds a run's events back until the accepted response has been queued.
///
/// `run.started` is known before the response can be queued, so it is kept
/// here; everything later waits for the reply gate to open.
#[derive(Debug, PartialEq, Eq)]
pub struct LocalReplyGate {
    pub released: bool,
    pub releasing: bool,
    pub started: Option<ServerEvent>,
}

/// What opening the reply gate asks for.
#[derive(Debug, PartialEq, Eq)]
pub enum Release {
    /// It is open, or being opened by someone else: nothing to do.
    AlreadyOpen,
    /// Queue this event first, if there is one, then call
    /// [`LocalReplyGate::finish_release`], whether or not it could be queued.
    Enqueue(Option<ServerEvent>),
}

impl LocalReplyGate {
    /// A closed gate that holds nothing.
    pub fn new() -> (r: Self)
        ensures
            !r.released,
            !r.releasing,
            r.started is None,
    {
        LocalReplyGate { released: false, releasing: false, started: None }
    }

    /// Hold `run.started` until the accepted response has been queued. Once
    /// the reply gate is open, or opening, the event is handed back to be sent.
    pub fn defer_started(&mut self, event: ServerEvent) -> (r: Option<ServerEvent>)
        ensures
            r == passed_on(*old(self), event),
            *final(self) == gate_after(*old(self), GateOp::Defer(event)),
    {
        if self.released || self.releasing {
            Some(event)
        } else {
            self.started = Some(event);
            None
        }
    }

    /// Begin to open the reply gate: take the held event out, to be queued before
    /// anything that waits.
    pub fn begin_release(&mut self) -> (r: Release)
        ensures
            r == let_out(*old(self)),
            *final(self) == gate_after(*old(self), GateOp::BeginRelease),
    {
        if self.released || self.releasing {
            return Release::AlreadyOpen;
        }
        self.releasing = true;
        let started = self.started.take();
        Release::Enqueue(started)
    }

    /// The held event was queued, or could not be: open the reply gate. A failed
    /// enqueue has given the connection up, so later sends find it closed.
    pub fn finish_release(&mut self)
        ensures
            *final(self) == gate_after(*old(self), GateOp::FinishRelease),
    {
        self.releasing = false;
        self.released = true;
    }

    /// Unblock a worker after the response itself failed to queue. Nothing can
    /// be delivered any more, so what was held is dropped.
    pub fn cancel(&mut self)
        ensures
            *final(self) == gate_after(*old(self), GateOp::Cancel),
    {
        self.started = None;
        self.releasing = false;
        self.released = true;
    }

    /// The accepted response was queued, or could not be: begin to open the reply
    /// gate, or give up what it holds.
    pub fn answered(&mut self, queued: bool) -> (r: Release)
        ensures
            r == if queued {
                let_out(*old(self))
            } else {
                Release::AlreadyOpen
            },
            *final(self) == gate_after(
                *old(self),
                if queued {
                    GateOp::BeginRelease
                } else {
                    GateOp::Cancel
                },
            ),
    {
        if queued {
            self.begin_release()
        } else {
            self.cancel();
            Release::AlreadyOpen
        }
    }

    /// Whether what waits at the reply gate may go on.
    pub fn is_released(&self) -> (r: bool)
        ensures
            r == self.released,
    {
        self.released
    }

    /// Open the reply gate on a connection: queue the held event of `len` bytes, then
    /// let the rest through. `slot` is what the connection's queue has for it.
    pub fn release(&mut self, events: &mut EventTx, len: usize, slot: QueueSlot) -> (r: Result<
        (),
        EventSendError,
    >)
        ensures
            old(self).released || old(self).releasing ==> r is Ok && *final(self) == *old(self)
                && *final(events) == *old(events),
            !old(self).released && !old(self).releasing ==> {
                &&& *final(self) == (LocalReplyGate {
                    released: true,
                    releasing: false,
                    started: None,
                })
                &&& old(self).started is None ==> r is Ok && *final(events) == *old(events)
                &&& old(self).started is Some ==> r == event_sent(*old(events), len as nat, slot)
                    && *final(events) == after_event(*old(events), len as nat, slot)
            },
    {
        match self.begin_release() {
            Release::AlreadyOpen => Ok(()),
            Release::Enqueue(started) => {
                let result = match started {
                    Some(_) => events.send(len, slot),
                    None => Ok(()),
                };
                self.finish_release();
                result
            },
        }
    }
}

/// Queue the response that a run waits behind, then tell its reply gate what came
/// of that. `slot` is what the connection's queue has for the response. A failure
/// is told too, so that nothing waits for a response that never comes.
pub fn send_response_after(
    events: &mut EventTx,
    slot: QueueSlot,
    gate: &mut LocalReplyGate,
) -> (r: (Result<(), EventSendError>, Release))
    ensures
        r.0 == response_sent(*old(events), slot),
        r.0 is Ok ==> *final(events) == *old(events),
        r.0 is Err ==> *final(events) == (EventTx { poisoned: true, ..*old(events) }),
        r.1 == if r.0 is Ok {
            let_out(*old(gate))
        } else {
            Release::AlreadyOpen
        },
        *final(gate) == gate_after(
            *old(gate),
            if r.0 is Ok {
                GateOp::BeginRelease
            } else {
                GateOp::Cancel
            },
        ),
{
    let sent = events.send_response(slot);
    let release = gate.answered(sent.is_ok());
    (sent, release)
}

/// What is held goes out only behind its response: an event is handed out, and
/// the reply gate begins to open, only where the response was queued.
pub proof fn nothing_goes_out_before_the_response(events: EventTx, slot: QueueSlot, g: LocalReplyGate)
    requires
        !g.released,
    ensures
        ({
            let queued = response_sent(events, slot) is Ok;
            let after = gate_after(
                g,
                if queued {
                    GateOp::BeginRelease
                } else {
                    GateOp::Cancel
                },
            );
            &&& after.releasing ==> queued || g.releasing
            &&& !queued ==> after.released && after.started is None
            &&& queued ==> !after.released
        }),
{
}

/// What opening a reply gate asks for.
pub open spec fn let_out(g: LocalReplyGate) -> Release {
    if g.released || g.releasing {
        Release::AlreadyOpen
    } else {
        Release::Enqueue(g.started)
    }
}

/// The event that goes out at once when a run starts, if any.
pub open spec fn passed_on(g: LocalReplyGate, event: ServerEvent) -> Option<ServerEvent> {
    if g.released || g.releasing {
        Some(event)
    } else {
        None
    }
}

/// What can be done to a gate.
pub enum GateOp {
    Defer(ServerEvent),
    BeginRelease,
    FinishRelease,
    Cancel,
}

/// The reply gate after one operation.
pub open spec fn gate_after(g: LocalReplyGate, op: GateOp) -> LocalReplyGate {
    match op {
        GateOp::Defer(event) => if g.released || g.releasing {
            g
        } else {
            LocalReplyGate { started: Some(event), ..g }
        },
        GateOp::BeginRelease => if g.released || g.releasing {
            g
        } else {
            LocalReplyGate { released: false, releasing: true, started: None }
        },
        GateOp::FinishRelease => LocalReplyGate { released: true, releasing: false, ..g },
        GateOp::Cancel => LocalReplyGate { released: true, releasing: false, started: None },
    }
}

/// Whether every release is begun before it is finished.
pub open spec fn in_sequence(g: LocalReplyGate, ops: Seq<GateOp>) -> bool
    decreases ops.len(),
{
    ops.len() == 0 || (in_sequence(g, ops.drop_last()) && (ops.last() is FinishRelease
        ==> gate_after_all(g, ops.drop_last()).releasing))
}

/// The reply gate after a list of operations.
pub open spec fn gate_after_all(g: LocalReplyGate, ops: Seq<GateOp>) -> LocalReplyGate
    decreases ops.len(),
{
    if ops.len() == 0 {
        g
    } else {
        gate_after(gate_after_all(g, ops.drop_last()), ops.last())
    }
}

/// `run.started` goes out before anything that waits: whatever is done to a
/// fresh gate, once it is open it holds no event back. The event it held was
/// handed out to be queued first, or dropped with the connection.
pub proof fn an_open_gate_holds_nothing_back(g: LocalReplyGate, ops: Seq<GateOp>)
    requires
        !g.released,
        !g.releasing,
        g.started is None,
        in_sequence(g, ops),
    ensures
        ({
            let after = gate_after_all(g, ops);
            after.released || after.releasing ==> after.started is None
        }),
    decreases ops.len(),
{
    if ops.len() > 0 {
        an_open_gate_holds_nothing_back(g, ops.drop_last());
    }
}

/// An open gate stays open.
pub proof fn an_open_gate_stays_open(g: LocalReplyGate, op: GateOp)
    requires
        g.released,
    ensures
        gate_after(g, op).released,
{
}

// ---------------------------------------------------------------------
// Events of a run
// ---------------------------------------------------------------------

/// The session an event names.
pub open spec fn event_session(session: Option<String>) -> Seq<char> {
    match session {
        Some(s) => s@,
        None => "default"@,
    }
}

fn session_name(session: &Option<String>) -> (r: String)
    ensures
        r@ == event_session(*session),
{
    match session {
        Some(s) => s.clone(),
        None => "default".to_owned(),
    }
}

/// The session a delivery belongs to.
pub open spec fn delivery_session(d: Delivery) -> Option<String> {
    match d {
        Delivery::Started { session, .. } => session,
        Delivery::Typing { session } => session,
        Delivery::Delta { session, .. } => session,
        Delivery::Reply { session, .. } => session,
    }
}

/// Whether `e` is the event of a delivery.
pub open spec fn is_event_of(e: ServerEvent, d: Delivery) -> bool {
    &&& optional(e.session_id) == Some(event_session(delivery_session(d)))
    &&& match d {
        Delivery::Started { agent, .. } => e.event@ == "run.started"@ && optional(e.agent) == Some(
            agent@,
        ) && e.line is None && e.text is None,
        Delivery::Typing { .. } => e.event@ == "typing"@ && e.agent is None && e.line is None
            && e.text is None,
        Delivery::Delta { line, .. } => e.event@ == "reply.delta"@ && e.agent is None && optional(
            e.line,
        ) == Some(line@) && e.text is None,
        Delivery::Reply { text, .. } => e.event@ == "reply"@ && e.agent is None && e.line is None
            && optional(e.text) == Some(text@),
    }
}

/// The event a local client is sent for a delivery.
pub fn local_event(delivery: &Delivery) -> (e: ServerEvent)
    ensures
        is_event_of(e, *delivery),
{
    match delivery {
        Delivery::Started { session, agent } => ServerEvent::run_started(
            session_name(session).as_str(),
            agent.as_str(),
        ),
        Delivery::Typing { session } => ServerEvent::typing(session_name(session).as_str()),
        Delivery::Delta { session, line } => ServerEvent::reply_delta(
            session_name(session).as_str(),
            line.as_str(),
        ),
        Delivery::Reply { session, text } => ServerEvent::reply(
            session_name(session).as_str(),
            text.as_str(),
        ),
    }
}

// ---------------------------------------------------------------------
// Requests
// ---------------------------------------------------------------------

/// What a `message.send` asks for.
#[derive(Debug)]
pub enum LocalRequest {
    /// `!!` in this session.
    Confirm { session: String },
    /// A `!` line in this session.
    Typed { session: String, bin: String, args: Vec<String> },
    /// A trigger for the gateway.
    Submit(TriggerRequest),
}

/// What a trigger from the local API carries.
pub open spec fn local_payload(text: Seq<char>, session: Seq<char>) -> JsonView {
    JsonView::Table(
        Map::<Seq<char>, JsonView>::empty().insert("text"@, JsonView::Text(text)).insert(
            "session_id"@,
            JsonView::Text(session),
        ),
    )
}

/// Whether `r` is what valid params ask for.
pub open spec fn asks_for(
    params: MessageSendParams,
    peer: PeerInfo,
    dispatcher: Seq<char>,
    r: LocalRequest,
) -> bool {
    let session = params.session();
    if trimmed(params.text@) == "!!"@ {
        r matches LocalRequest::Confirm { session: s } && s@ == session
    } else if bang(params.text@) is Some {
        r matches LocalRequest::Typed { session: s, bin, args } && s@ == session && bang(
            params.text@,
        ) == Some((bin@, views(args@)))
    } else {
        &&& r matches LocalRequest::Submit(req)
        &&& req.source == TriggerSource::Local
        &&& req.agent@ == dispatcher
        &&& req.schedule is None
        &&& req.args@.len() == 0
        &&& req.payload matches Some(p) && json_view(p) == local_payload(params.text@, session)
        &&& optional(req.actor) == Some(actor_name(peer))
        &&& optional(req.reply_to) == Some(session)
        &&& optional(req.session_id) == Some(session)
    }
}

/// Whether `r` is what a message comes to.
pub open spec fn message_taken(
    params: MessageSendParams,
    peer: PeerInfo,
    dispatcher: Seq<char>,
    r: Result<LocalRequest, ServerError>,
) -> bool {
    match params.rejection() {
        Some((code, message)) => r matches Err(e) && e.code@ == code && e.message@ == message,
        None => r matches Ok(q) && asks_for(params, peer, dispatcher, q),
    }
}

/// Turn a `message.send` into what it asks for. Same prefix and same policy as
/// over chat: a typed command means the same thing whichever socket carried
/// it.
pub fn handle_message(params: &MessageSendParams, peer: &PeerInfo, dispatcher_agent: &str) -> (r:
    Result<LocalRequest, ServerError>)
    ensures
        message_taken(*params, *peer, dispatcher_agent@, r),
{
    match params.validate() {
        Ok(()) => {},
        Err(e) => {
            return Err(e);
        },
    }
    let session = params.effective_session_id().to_owned();
    if is_confirmation(params.text.as_str()) {
        return Ok(LocalRequest::Confirm { session });
    }
    if let Some((bin, args)) = parse_bang(params.text.as_str()) {
        return Ok(LocalRequest::Typed { session, bin, args });
    }
    let mut members = no_members();
    put_member(&mut members, "text", text_value(params.text.as_str()));
    put_member(&mut members, "session_id", text_value(session.as_str()));
    Ok(
        LocalRequest::Submit(
            TriggerRequest {
                agent: dispatcher_agent.to_owned(),
                source: TriggerSource::Local,
                actor: Some(peer.actor()),
                session_id: Some(session.clone()),
                reply_to: Some(session),
                schedule: None,
                args: Vec::new(),
                payload: Some(object_value(members)),
            },
        ),
    )
}

/// The wire code of a rejection.
pub open spec fn rejection_code(r: SubmitRejected) -> Seq<char> {
    match r {
        SubmitRejected::RateLimited { .. } => "rate_limited"@,
        SubmitRejected::InvalidSessionId => "session_id_invalid"@,
        _ => "internal"@,
    }
}

/// Whether `e` says why a trigger was not admitted.
pub open spec fn submit_refused(rejection: SubmitRejected, e: ServerError) -> bool {
    e.code@ == rejection_code(rejection) && e.message@ == rejection_reason(rejection)
}

/// What a client is told of a trigger the gateway refused.
pub fn local_submit_error(rejection: SubmitRejected) -> (r: ServerError)
    ensures
        submit_refused(rejection, r),
{
    let code = match rejection {
        SubmitRejected::RateLimited { .. } => error_code::RATE_LIMITED,
        SubmitRejected::InvalidSessionId => error_code::SESSION_ID_INVALID,
        SubmitRejected::CapExceeded { .. } => error_code::INTERNAL,
        SubmitRejected::QueueFull { .. } => error_code::INTERNAL,
        SubmitRejected::Unavailable => error_code::INTERNAL,
    };
    ServerError::new(code, rejection.reason())
}

/// A command as `commands.list` names it.
#[derive(Debug, Clone, PartialEq, Eq)]
pub struct CommandEntry {
    pub name: String,
    pub telegram_name: String,
    pub description: String,
    pub argument_hint: Option<String>,
}

/// A command on the wire.
pub open spec fn command_entry_view(c: CommandEntry) -> JsonView {
    JsonView::Table(
        Map::<Seq<char>, JsonView>::empty().insert("name"@, JsonView::Text(c.name@)).insert(
            "telegram_name"@,
            JsonView::Text(c.telegram_name@),
        ).insert("description"@, JsonView::Text(c.description@)).insert(
            "argument_hint"@,
            match c.argument_hint {
                Some(h) => JsonView::Text(h@),
                None => JsonView::Null,
            },
        ),
    )
}

/// The installed commands as a client sees them.
pub open spec fn commands_view(commands: Seq<CommandEntry>) -> JsonView {
    JsonView::List(commands.map_values(|c: CommandEntry| command_entry_view(c)))
}

/// Answer `commands.list`: the catalog, one object per command.
pub fn commands_list(commands: &Vec<CommandEntry>) -> (r: Value)
    ensures
        json_view(r) == commands_view(commands@),
{
    let mut list: Vec<Value> = Vec::new();
    let mut i: usize = 0;
    while i < commands.len()
        invariant
            i <= commands@.len(),
            json_views(list@) == commands@.take(i as int).map_values(
                |c: CommandEntry| command_entry_view(c),
            ),
        decreases commands@.len() - i,
    {
        let c = &commands[i];
        let ghost before = json_views(list@);
        let mut members = no_members();
        put_member(&mut members, "name", text_value(c.name.as_str()));
        put_member(&mut members, "telegram_name", text_value(c.telegram_name.as_str()));
        put_member(&mut members, "description", text_value(c.description.as_str()));
        put_member(&mut members, "argument_hint", optional_text(&c.argument_hint));
        list.push(object_value(members));
        i = i + 1;
        proof {
            assert(json_views(list@) =~= before.push(command_entry_view(commands@[i as int - 1])));
            assert(commands@.take(i as int).map_values(|c: CommandEntry| command_entry_view(c))
                =~= commands@.take(i as int - 1).map_values(
                |c: CommandEntry| command_entry_view(c),
            ).push(command_entry_view(commands@[i as int - 1])));
        }
    }
    proof {
        assert(commands@.take(commands@.len() as int) =~= commands@);
    }
    list_value(list)
}

/// The status as a client sees it.
pub open spec fn status_view(dispatcher: Seq<char>) -> JsonView {
    JsonView::Table(
        Map::<Seq<char>, JsonView>::empty().insert("daemon"@, JsonView::Text("ok"@)).insert(
            "gateway"@,
            JsonView::Text("ok"@),
        ).insert("dispatcher_agent"@, JsonView::Text(dispatcher)),
    )
}

/// Answer `status.get`.
pub fn status_get(dispatcher_agent: &str) -> (r: Value)
    ensures
        json_view(r) == status_view(dispatcher_agent@),
{
    let mut members = no_members();
    put_member(&mut members, "daemon", text_value("ok"));
    put_member(&mut members, "gateway", text_value("ok"));
    put_member(&mut members, "dispatcher_agent", text_value(dispatcher_agent));
    object_value(members)
}

// ---------------------------------------------------------------------
// Laws of a local conversation
// ---------------------------------------------------------------------

/// What a run announces before its response is queued is kept, and comes out with
/// the response, once; what it announces after that goes out at once.
pub proof fn what_is_held_back_comes_out_once(g: LocalReplyGate, event: ServerEvent)
    requires
        !g.released,
        !g.releasing,
    ensures
        ({
            let held = gate_after(g, GateOp::Defer(event));
            let opening = gate_after(held, GateOp::BeginRelease);
            let open = gate_after(opening, GateOp::FinishRelease);
            &&& passed_on(g, event) is None
            &&& let_out(held) == Release::Enqueue(Some(event))
            &&& let_out(opening) == Release::AlreadyOpen
            &&& let_out(open) == Release::AlreadyOpen && open.started is None
            &&& passed_on(opening, event) == Some(event)
            &&& passed_on(open, event) == Some(event)
            &&& let_out(gate_after(held, GateOp::Cancel)) == Release::AlreadyOpen
        }),
{
}

/// An event is of the session it happened in, and carries what was delivered and
/// nothing else: the agent of a start, the line of a delta, the text of a reply.
pub proof fn an_event_carries_what_was_delivered(e: ServerEvent, d: Delivery)
    requires
        is_event_of(e, d),
    ensures
        delivery_session(d) is Some ==> e.session_id is Some && e.session_id->0@
            == delivery_session(d)->0@,
        d is Started <==> e.event@ == "run.started"@,
        d is Typing <==> e.event@ == "typing"@,
        d is Delta <==> e.event@ == "reply.delta"@,
        d is Reply <==> e.event@ == "reply"@,
        d matches Delivery::Started { agent, .. } ==> e.agent is Some && e.agent->0@ == agent@,
        d matches Delivery::Delta { line, .. } ==> e.line is Some && e.line->0@ == line@,
        d matches Delivery::Reply { text, .. } ==> e.text is Some && e.text->0@ == text@,
        e.agent is Some <==> d is Started,
        e.line is Some <==> d is Delta,
        e.text is Some <==> d is Reply,
{
    reveal_strlit("run.started");
    reveal_strlit("typing");
    reveal_strlit("reply.delta");
    reveal_strlit("reply");
    assert("run.started"@.len() == 11 && "typing"@.len() == 6 && "reply.delta"@.len() == 11
        && "reply"@.len() == 5);
    assert("run.started"@[1] == 'u' && "reply.delta"@[1] == 'e');
}

/// A message that is handed to the dispatcher carries its own text and its own
/// session, is answered in that session, and is its sender's. Nothing of it
/// chooses the agent.
pub proof fn a_local_message_is_handed_over_whole(
    params: MessageSendParams,
    peer: PeerInfo,
    dispatcher: Seq<char>,
    r: Result<LocalRequest, ServerError>,
)
    requires
        message_taken(params, peer, dispatcher, r),
        r is Ok,
        r->Ok_0 is Submit,
    ensures
        ({
            let req = r->Ok_0->Submit_0;
            &&& req.agent@ == dispatcher
            &&& req.source == TriggerSource::Local
            &&& req.args@.len() == 0 && req.schedule is None
            &&& req.payload is Some
            &&& text_member(json_view(req.payload->0), "text"@) == Some(params.text@)
            &&& text_member(json_view(req.payload->0), "session_id"@) == Some(params.session())
            &&& req.session_id is Some && req.session_id->0@ == params.session()
            &&& req.reply_to is Some && req.reply_to->0@ == params.session()
            &&& req.actor is Some && req.actor->0@ == actor_name(peer)
            &&& params.session_id is Some ==> params.session() == params.session_id->0@
        }),
{
    reveal_strlit("text");
    reveal_strlit("session_id");
    assert("text"@.len() == 4 && "session_id"@.len() == 10);
}

/// A line means the same whichever way it comes: what a listed sender's message
/// confirms or types over chat, the same line confirms or types here, in the
/// session it was sent in.
pub proof fn a_line_means_the_same_on_every_transport(
    params: MessageSendParams,
    peer: PeerInfo,
    dispatcher: Seq<char>,
    r: Result<LocalRequest, ServerError>,
    msg: InboundMessage,
    cfg: TelegramIngressConfig,
    invocation: Option<Invocation>,
    catalog: Catalog,
    run: Option<SentMessage>,
    s: Screened,
)
    requires
        message_taken(params, peer, dispatcher, r),
        r is Ok,
        screened_right(msg, cfg, true, invocation, catalog, run, s),
        cfg.allowed_user_ids@.contains(msg.user_id),
        msg.text@ == params.text@,
    ensures
        s is Confirm <==> r->Ok_0 is Confirm,
        s is Bang <==> r->Ok_0 is Typed,
        r->Ok_0 matches LocalRequest::Confirm { session } ==> session@ == params.session(),
        r->Ok_0 matches LocalRequest::Typed { session, bin, args } ==> session@ == params.session()
            && (s matches Screened::Bang { bin: b, args: a } && b@ == bin@ && views(a@) == views(
            args@,
        )),
{
}

/// A message is refused exactly when it is blank, too long, or of a session
/// whose id is none.
pub proof fn only_a_bad_message_is_refused(
    params: MessageSendParams,
    peer: PeerInfo,
    dispatcher: Seq<char>,
    r: Result<LocalRequest, ServerError>,
)
    requires
        message_taken(params, peer, dispatcher, r),
    ensures
        r is Err <==> is_blank_text(params.text@) || byte_len(params.text@) > 32768
            || !session_id_ok(params.session()),
        r is Err ==> (r->Err_0.code@ == "session_id_invalid"@ <==> !is_blank_text(params.text@)
            && byte_len(params.text@) <= 32768),
        r is Err ==> (r->Err_0.code@ == "invalid_request"@ <==> is_blank_text(params.text@)
            || byte_len(params.text@) > 32768),
{
    reveal_strlit("session_id_invalid");
    reveal_strlit("invalid_request");
    assert("session_id_invalid"@.len() == 18 && "invalid_request"@.len() == 15);
}

/// A client can tell why it was turned away: too many messages, a bad session
/// id, and everything else have their own codes, and the reason is the gateway's.
pub proof fn a_refusal_has_its_own_code(rejection: SubmitRejected, e: ServerError)
    requires
        submit_refused(rejection, e),
    ensures
        e.code@ == "rate_limited"@ <==> rejection is RateLimited,
        e.code@ == "session_id_invalid"@ <==> rejection is InvalidSessionId,
        e.message@ == rejection_reason(rejection),
{
    reveal_strlit("rate_limited");
    reveal_strlit("session_id_invalid");
    reveal_strlit("internal");
    assert("rate_limited"@.len() == 12 && "session_id_invalid"@.len() == 18 && "internal"@.len()
        == 8);
}

/// The list of commands has each of them in its place, with its own names, what
/// it does and what it takes; the status names the dispatcher.
pub proof fn a_client_sees_the_commands_as_they_are(
    commands: Seq<CommandEntry>,
    i: int,
    dispatcher: Seq<char>,
)
    requires
        0 <= i < commands.len(),
    ensures
        commands_view(commands) matches JsonView::List(list) && list.len() == commands.len()
            && text_member(list[i], "name"@) == Some(commands[i].name@) && text_member(
            list[i],
            "telegram_name"@,
        ) == Some(commands[i].telegram_name@) && text_member(list[i], "description"@) == Some(
            commands[i].description@,
        ) && text_member(list[i], "argument_hint"@) == optional(commands[i].argument_hint),
        text_member(status_view(dispatcher), "dispatcher_agent"@) == Some(dispatcher),
        text_member(status_view(dispatcher), "daemon"@) == Some("ok"@),
        text_member(status_view(dispatcher), "gateway"@) == Some("ok"@),
{
    reveal_strlit("name");
    reveal_strlit("telegram_name");
    reveal_strlit("description");
    reveal_strlit("argument_hint");
    reveal_strlit("daemon");
    reveal_strlit("gateway");
    reveal_strlit("dispatcher_agent");
    assert("name"@.len() == 4 && "telegram_name"@.len() == 13 && "description"@.len() == 11
        && "argument_hint"@.len() == 13);
    assert("telegram_name"@[0] == 't' && "argument_hint"@[0] == 'a');
    assert("daemon"@.len() == 6 && "gateway"@.len() == 7 && "dispatcher_agent"@.len() == 16);
}

} // verus!
