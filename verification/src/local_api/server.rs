//! What the server does with a connection: who may connect, what one frame is
//! answered, and how much output may wait for a client.
//!
//! Sockets, tasks and timers stay outside. Each function here takes what they
//! reported and says what to do next.

use crate::json::{
    JsonView, bool_value, json_view, member_of, no_members, object_value, parse_value,
    parsed_json, put_member,
};
use crate::local_api::error_code;
use crate::local_api::framing::{
    BoundedLine, MAX_LINE_BYTES, salvage_id_from_bytes, salvage_id_from_line, salvaged_from_bytes,
    salvaged_from_line, utf8_text,
};
use crate::local_api::protocol::{
    ClientMessage, MAX_CONNECTIONS, MAX_EVENT_QUEUE_BYTES, MessageSendParams, RATE_PER_MINUTE,
    ServerError, ServerResponse, is_error_response, is_ok_response, salvage_id, salvaged,
};
use crate::text::{
    dec, dec_u64, dec_usize, has_prefix, has_suffix, holds_text, lemma_ends, lemma_holds_part,
    same,
};
use serde_json::Value;
use vstd::prelude::*;
use vstd::utf8::*;

verus! {

broadcast use vstd::string::group_string_axioms;

/// Event frames allowed to sit in the per-connection channel before the byte
/// budget becomes the binding limit.
pub const EVENT_QUEUE_SLOTS: usize = 512;

/// How long one frame gets to reach the client before it counts as a zombie.
pub const DEFAULT_WRITE_TIMEOUT_SECONDS: u64 = 10;

// ---------------------------------------------------------------------
// Peers
// ---------------------------------------------------------------------

/// Kernel-provided identity of the peer: the actor an audit line names. `None`
/// means the platform could not provide the field.
#[derive(Debug, Clone, Copy, Default, PartialEq, Eq)]
pub struct PeerInfo {
    pub pid: Option<u32>,
    pub uid: Option<u32>,
}

/// How a peer is named in logs and audit entries.
pub open spec fn actor_name(peer: PeerInfo) -> Seq<char> {
    match (peer.pid, peer.uid) {
        (Some(pid), Some(uid)) => "pid="@ + dec(pid as int) + " uid="@ + dec(uid as int),
        (Some(pid), None) => "pid="@ + dec(pid as int),
        (None, Some(uid)) => "uid="@ + dec(uid as int),
        (None, None) => "local"@,
    }
}

impl PeerInfo {
    /// Stable rendering for logs and audit entries. It degrades to `"local"`
    /// rather than inventing an identity.
    pub fn actor(&self) -> (r: String)
        ensures
            r@ == actor_name(*self),
    {
        match (self.pid, self.uid) {
            (Some(pid), Some(uid)) => {
                let mut out = "pid=".to_owned();
                out.append(dec_u64(pid as u64).as_str());
                out.append(" uid=");
                out.append(dec_u64(uid as u64).as_str());
                out
            },
            (Some(pid), None) => {
                let mut out = "pid=".to_owned();
                out.append(dec_u64(pid as u64).as_str());
                out
            },
            (None, Some(uid)) => {
                let mut out = "uid=".to_owned();
                out.append(dec_u64(uid as u64).as_str());
                out
            },
            (None, None) => "local".to_owned(),
        }
    }
}

/// Whether a peer may be served by a daemon that runs as `euid`: its uid is
/// the daemon's, or the platform did not provide one.
pub open spec fn peer_ok(peer: PeerInfo, euid: u32) -> bool {
    match peer.uid {
        Some(uid) => uid == euid,
        None => true,
    }
}

/// Whether `r` is what checking a peer comes to.
pub open spec fn peer_checked(peer: PeerInfo, euid: u32, r: Result<(), ServerResponse>) -> bool {
    &&& r is Ok <==> peer_ok(peer, euid)
    &&& r matches Err(resp) ==> is_error_response(
        resp,
        Seq::empty(),
        "internal"@,
        "peer credentials do not match the daemon uid"@,
    )
}

/// Refuse a peer of another user: the response to send before dropping it.
pub fn check_peer(peer: &PeerInfo, euid: u32) -> (r: Result<(), ServerResponse>)
    ensures
        peer_checked(*peer, euid, r),
{
    match peer.uid {
        Some(uid) => if uid != euid {
            proof {
                reveal_strlit("");
                assert(""@ =~= Seq::<char>::empty());
            }
            Err(
                ServerResponse::err(
                    "",
                    error_code::INTERNAL,
                    "peer credentials do not match the daemon uid",
                ),
            )
        } else {
            Ok(())
        },
        None => Ok(()),
    }
}

// ---------------------------------------------------------------------
// Connection slots
// ---------------------------------------------------------------------

/// How many connections are being served, and how many may be.
#[derive(Debug, PartialEq, Eq)]
pub struct ConnectionSlots {
    live: usize,
    max: usize,
}

/// Whether `r` is what asking for a connection comes to, and `after` how many are
/// live then.
pub open spec fn slot_asked(
    live: nat,
    max: nat,
    after: nat,
    r: Result<(), ServerResponse>,
) -> bool {
    &&& r is Ok <==> live < max
    &&& r is Ok ==> after == live + 1
    &&& r matches Err(resp) ==> after == live && is_error_response(
        resp,
        Seq::empty(),
        "too_many_connections"@,
        "connection limit ("@ + dec(max as int) + ") reached; try again later"@,
    )
}

impl ConnectionSlots {
    /// How many connections are being served.
    pub closed spec fn live(&self) -> nat {
        self.live as nat
    }

    /// How many connections may be served.
    pub closed spec fn max(&self) -> nat {
        self.max as nat
    }

    #[verifier::type_invariant]
    spec fn within_the_cap(self) -> bool {
        self.live <= self.max
    }

    /// No connection yet.
    pub fn new(max: usize) -> (r: Self)
        ensures
            r.live() == 0,
            r.max() == max,
    {
        ConnectionSlots { live: 0, max }
    }

    /// Take a slot for a client that connected, or say why it is dropped. Over
    /// the cap a client is still accepted so that it learns why.
    pub fn accept(&mut self) -> (r: Result<(), ServerResponse>)
        ensures
            final(self).max() == old(self).max(),
            final(self).live() <= final(self).max(),
            slot_asked(old(self).live(), old(self).max(), final(self).live(), r),
    {
        proof {
            use_type_invariant(&*self);
        }
        if self.live >= self.max {
            let mut message = "connection limit (".to_owned();
            message.append(dec_usize(self.max).as_str());
            message.append(") reached; try again later");
            proof {
                reveal_strlit("");
                assert(""@ =~= Seq::<char>::empty());
            }
            return Err(ServerResponse::err("", error_code::TOO_MANY_CONNECTIONS, message.as_str()));
        }
        self.live = self.live + 1;
        Ok(())
    }

    /// A served connection ended.
    pub fn release(&mut self)
        requires
            old(self).live() > 0,
        ensures
            final(self).max() == old(self).max(),
            final(self).live() == old(self).live() - 1,
    {
        proof {
            use_type_invariant(&*self);
        }
        self.live = self.live - 1;
    }
}

// ---------------------------------------------------------------------
// The socket path
// ---------------------------------------------------------------------

/// What stands at the socket path. Links are not followed.
#[derive(Debug, PartialEq, Eq)]
pub enum PathState {
    Missing,
    /// Looking at it failed.
    Unreadable { error: String },
    /// Something that is not a socket.
    NotASocket,
    /// A socket that answered.
    Live,
    /// A socket nobody answers on, and who owns it.
    Stale { owner: u32 },
}

/// Why the path may not be bound.
#[derive(Clone, Copy, Debug, PartialEq, Eq, Structural)]
pub enum BindRefusal {
    Unreadable,
    Occupied,
    AddrInUse,
    PermissionDenied,
}

/// What to do about the socket path.
#[derive(Debug, PartialEq, Eq)]
pub enum BindDecision {
    /// Nothing is in the way.
    Bind,
    /// Remove the leftover of a crashed daemon first.
    Sweep,
    /// Leave it alone and fail.
    Refuse { kind: BindRefusal, message: String },
}

/// What is decided about a socket path.
pub open spec fn bind_decided(path: Seq<char>, state: PathState, euid: u32, d: BindDecision) -> bool {
    match state {
        PathState::Missing => d is Bind,
        PathState::Unreadable { error } => d matches BindDecision::Refuse { kind, message } && kind
            == BindRefusal::Unreadable && message@ == error@,
        PathState::NotASocket => d matches BindDecision::Refuse { kind, message } && kind
            == BindRefusal::Occupied && message@ == path + " exists and is not a unix socket"@,
        PathState::Live => d matches BindDecision::Refuse { kind, message } && kind
            == BindRefusal::AddrInUse && message@ == "another server is listening on "@ + path,
        PathState::Stale { owner } => if owner == euid {
            d is Sweep
        } else {
            d matches BindDecision::Refuse { kind, message } && kind
                == BindRefusal::PermissionDenied && message@ == "stale socket "@ + path
                + " belongs to uid "@ + dec(owner as int) + "; refusing to remove it"@
        },
    }
}

/// Only a dead socket of the daemon's own user is ever removed.
pub proof fn only_our_own_dead_socket_is_swept(
    path: Seq<char>,
    state: PathState,
    euid: u32,
    d: BindDecision,
)
    requires
        bind_decided(path, state, euid, d),
    ensures
        d is Sweep ==> state == (PathState::Stale { owner: euid }),
{
}

/// Decide whether the socket path is safe to bind on, sweeping what is ours
/// and refusing what is not.
pub fn ensure_bindable(path: &str, state: PathState, euid: u32) -> (d: BindDecision)
    ensures
        bind_decided(path@, state, euid, d),
{
    match state {
        PathState::Missing => BindDecision::Bind,
        PathState::Unreadable { error } => BindDecision::Refuse {
            kind: BindRefusal::Unreadable,
            message: error,
        },
        PathState::NotASocket => {
            let mut message = path.to_owned();
            message.append(" exists and is not a unix socket");
            BindDecision::Refuse { kind: BindRefusal::Occupied, message }
        },
        PathState::Live => {
            let mut message = "another server is listening on ".to_owned();
            message.append(path);
            BindDecision::Refuse { kind: BindRefusal::AddrInUse, message }
        },
        PathState::Stale { owner } => {
            if owner == euid {
                return BindDecision::Sweep;
            }
            let mut message = "stale socket ".to_owned();
            message.append(path);
            message.append(" belongs to uid ");
            message.append(dec_u64(owner as u64).as_str());
            message.append("; refusing to remove it");
            BindDecision::Refuse { kind: BindRefusal::PermissionDenied, message }
        },
    }
}

// ---------------------------------------------------------------------
// Output waiting for a client
// ---------------------------------------------------------------------

/// Why an event could not be queued for a client.
#[derive(Debug, Clone, Copy, PartialEq, Eq, Structural)]
pub enum EventSendError {
    /// The per-connection byte budget was blown. The client is disconnected: a
    /// consumer that far behind never catches up, and buffering forever would
    /// pin daemon memory.
    Overflow,
    /// The connection is already gone.
    Closed,
}

/// What the bounded frame queue has for one more frame.
#[derive(Debug, Clone, Copy, PartialEq, Eq, Structural)]
pub enum QueueSlot {
    Free,
    Full,
    Closed,
}

/// One line headed to the client. Event frames count against the connection
/// byte budget; responses stay exempt but share the bounded frame queue.
#[derive(Debug, Clone, Copy, PartialEq, Eq, Structural)]
pub enum FrameKind {
    Event,
    Response,
    ResponseAndClose,
}

/// What became of writing one frame.
#[derive(Debug, Clone, Copy, PartialEq, Eq, Structural)]
pub enum WriteOutcome {
    Written,
    Failed,
    TimedOut,
}

/// The output side of one client connection: how many event bytes wait, how
/// many may, and whether the connection was given up.
#[derive(Debug, PartialEq, Eq)]
pub struct EventTx {
    pub queued_bytes: usize,
    pub max_queued_bytes: usize,
    pub poisoned: bool,
}

/// Whether `len` more bytes fit in the budget.
pub open spec fn fits_budget(tx: EventTx, len: nat) -> bool {
    tx.queued_bytes + len <= tx.max_queued_bytes
}

/// What queueing an event of `len` bytes returns, given what the queue has.
pub open spec fn event_sent(tx: EventTx, len: nat, slot: QueueSlot) -> Result<
    (),
    EventSendError,
> {
    if tx.poisoned {
        Err(EventSendError::Closed)
    } else if !fits_budget(tx, len) {
        Err(EventSendError::Overflow)
    } else {
        match slot {
            QueueSlot::Free => Ok(()),
            QueueSlot::Full => Err(EventSendError::Overflow),
            QueueSlot::Closed => Err(EventSendError::Closed),
        }
    }
}

/// The connection after queueing an event of `len` bytes.
pub open spec fn after_event(tx: EventTx, len: nat, slot: QueueSlot) -> EventTx {
    if event_sent(tx, len, slot) is Ok {
        EventTx { queued_bytes: (tx.queued_bytes + len) as usize, ..tx }
    } else {
        EventTx { poisoned: true, ..tx }
    }
}

/// What queueing a response returns, given what the queue has.
pub open spec fn response_sent(tx: EventTx, slot: QueueSlot) -> Result<(), EventSendError> {
    if tx.poisoned {
        Err(EventSendError::Closed)
    } else {
        match slot {
            QueueSlot::Free => Ok(()),
            QueueSlot::Full => Err(EventSendError::Overflow),
            QueueSlot::Closed => Err(EventSendError::Closed),
        }
    }
}

/// The queue once a frame of `len` bytes was written, or was not.
pub open spec fn after_frame(
    tx: EventTx,
    kind: FrameKind,
    len: nat,
    outcome: WriteOutcome,
) -> EventTx {
    if outcome == WriteOutcome::Written && kind == FrameKind::Event {
        EventTx { queued_bytes: (tx.queued_bytes - len) as usize, ..tx }
    } else {
        tx
    }
}

/// Whether the writer goes on after a frame.
pub open spec fn writes_on(kind: FrameKind, outcome: WriteOutcome) -> bool {
    outcome == WriteOutcome::Written && kind != FrameKind::ResponseAndClose
}

impl EventTx {
    /// Nothing waits for a fresh connection.
    pub fn new(max_queued_bytes: usize) -> (r: Self)
        ensures
            r == (EventTx { queued_bytes: 0, max_queued_bytes, poisoned: false }),
    {
        EventTx { queued_bytes: 0, max_queued_bytes, poisoned: false }
    }

    /// Give the connection up: every later send finds it closed.
    pub fn poison_connection(&mut self)
        ensures
            *final(self) == (EventTx { poisoned: true, ..*old(self) }),
    {
        self.poisoned = true;
    }

    /// Count `len` bytes against the budget, if they fit.
    pub fn reserve_bytes(&mut self, len: usize) -> (r: bool)
        ensures
            r == fits_budget(*old(self), len as nat),
            r ==> *final(self) == (EventTx {
                queued_bytes: (old(self).queued_bytes + len) as usize,
                ..*old(self)
            }),
            !r ==> *final(self) == *old(self),
    {
        if self.queued_bytes > self.max_queued_bytes || len > self.max_queued_bytes
            - self.queued_bytes {
            return false;
        }
        self.queued_bytes = self.queued_bytes + len;
        true
    }

    /// Queue one event line of `len` bytes, newline included. `slot` is what
    /// the bounded frame queue has for it. On `Ok` the caller puts the frame
    /// there; otherwise the bytes are not counted and the connection is given
    /// up.
    pub fn send(&mut self, len: usize, slot: QueueSlot) -> (r: Result<(), EventSendError>)
        ensures
            r == event_sent(*old(self), len as nat, slot),
            *final(self) == after_event(*old(self), len as nat, slot),
    {
        if self.poisoned {
            return Err(EventSendError::Closed);
        }
        if !self.reserve_bytes(len) {
            self.poison_connection();
            return Err(EventSendError::Overflow);
        }
        match slot {
            QueueSlot::Free => Ok(()),
            QueueSlot::Full => {
                self.queued_bytes = self.queued_bytes - len;
                self.poison_connection();
                Err(EventSendError::Overflow)
            },
            QueueSlot::Closed => {
                self.queued_bytes = self.queued_bytes - len;
                self.poison_connection();
                Err(EventSendError::Closed)
            },
        }
    }

    /// Queue one response. Responses do not count against the byte budget. A
    /// full or closed queue gives the connection up, so that the reader cannot
    /// keep its slot alive.
    pub fn send_response(&mut self, slot: QueueSlot) -> (r: Result<(), EventSendError>)
        ensures
            r == response_sent(*old(self), slot),
            r is Ok ==> *final(self) == *old(self),
            r is Err ==> *final(self) == (EventTx { poisoned: true, ..*old(self) }),
    {
        if self.poisoned {
            return Err(EventSendError::Closed);
        }
        match slot {
            QueueSlot::Free => Ok(()),
            QueueSlot::Full => {
                self.poison_connection();
                Err(EventSendError::Overflow)
            },
            QueueSlot::Closed => {
                self.poison_connection();
                Err(EventSendError::Closed)
            },
        }
    }

    /// Queue a response that is written before the connection closes. Nothing
    /// can be queued after it.
    pub fn send_response_and_close(&mut self, slot: QueueSlot) -> (r: Result<(), EventSendError>)
        ensures
            r == response_sent(*old(self), slot),
            *final(self) == (EventTx { poisoned: true, ..*old(self) }),
    {
        let r = self.send_response(slot);
        self.poisoned = true;
        r
    }

    /// One frame of `len` bytes left the queue: count an event that was
    /// written out of the budget, and say whether the writer goes on.
    pub fn frame_done(&mut self, kind: FrameKind, len: usize, outcome: WriteOutcome) -> (r: bool)
        requires
            kind == FrameKind::Event ==> len <= old(self).queued_bytes,
        ensures
            r == writes_on(kind, outcome),
            *final(self) == after_frame(*old(self), kind, len as nat, outcome),
    {
        match outcome {
            WriteOutcome::Written => {
                if kind == FrameKind::Event {
                    self.queued_bytes = self.queued_bytes - len;
                }
                kind != FrameKind::ResponseAndClose
            },
            WriteOutcome::Failed => false,
            WriteOutcome::TimedOut => false,
        }
    }
}

/// The events that are queued on a connection, one after the other.
pub open spec fn after_events(tx: EventTx, events: Seq<(nat, QueueSlot)>) -> EventTx
    decreases events.len(),
{
    if events.len() == 0 {
        tx
    } else {
        after_event(
            after_events(tx, events.drop_last()),
            events.last().0,
            events.last().1,
        )
    }
}

/// The budget is never exceeded and the count never wraps, whatever is sent:
/// at most the budget waits, and the first event that is refused is the last
/// one that is looked at.
pub proof fn the_budget_is_never_exceeded(tx: EventTx, events: Seq<(nat, QueueSlot)>)
    requires
        tx.queued_bytes <= tx.max_queued_bytes,
    ensures
        after_events(tx, events).queued_bytes <= tx.max_queued_bytes,
        after_events(tx, events).max_queued_bytes == tx.max_queued_bytes,
        after_events(tx, events).queued_bytes >= tx.queued_bytes,
        tx.poisoned ==> after_events(tx, events) == tx,
    decreases events.len(),
{
    if events.len() > 0 {
        the_budget_is_never_exceeded(tx, events.drop_last());
    }
}

/// A connection that was given up stays closed: no event and no response is
/// ever queued on it again.
pub proof fn a_poisoned_connection_stays_closed(tx: EventTx, len: nat, slot: QueueSlot)
    requires
        tx.poisoned,
    ensures
        event_sent(tx, len, slot) == Err::<(), EventSendError>(EventSendError::Closed),
        response_sent(tx, slot) == Err::<(), EventSendError>(EventSendError::Closed),
{
}

// ---------------------------------------------------------------------
// Frames
// ---------------------------------------------------------------------

/// What a frame is answered.
#[derive(Debug)]
pub enum FrameStep {
    /// Nothing.
    Skip,
    /// This response; `close` says whether the connection ends with it.
    Respond { response: ServerResponse, close: bool },
    /// The line is a JSON value: turn it into a [`ClientMessage`] and go on
    /// with [`typed_request`]. `id` is the id it carries.
    Request { id: String, raw: Value },
}

/// The bytes of a frame.
pub open spec fn frame_bytes(frame: BoundedLine) -> Seq<u8> {
    match frame {
        BoundedLine::Complete(l) => l@,
        BoundedLine::Oversized(l) => l@,
    }
}

/// Whether a frame counts against the request rate: every one but an empty
/// line does, before any parse or size check.
pub open spec fn uses_quota(frame: BoundedLine) -> bool {
    frame is Oversized || frame_bytes(frame).len() > 0
}

/// Whether a frame counts against the request rate.
pub fn consumes_quota(frame: &BoundedLine) -> (r: bool)
    ensures
        r == uses_quota(*frame),
{
    match frame {
        BoundedLine::Complete(l) => l.len() > 0,
        BoundedLine::Oversized(_) => true,
    }
}

/// Whether `step` is the right answer to a frame.
pub open spec fn frame_answered(
    frame: BoundedLine,
    within_rate: bool,
    rate_per_minute: u32,
    step: FrameStep,
) -> bool {
    let bytes = frame_bytes(frame);
    let id = salvaged_from_bytes(bytes);
    if !uses_quota(frame) {
        step is Skip
    } else if !within_rate {
        step matches FrameStep::Respond { response, close } && close == (frame is Oversized)
            && is_error_response(
            response,
            id,
            "rate_limited"@,
            "more than "@ + dec(rate_per_minute as int) + " requests per minute; slow down"@,
        )
    } else if frame is Oversized {
        step matches FrameStep::Respond { response, close } && close && is_error_response(
            response,
            id,
            "invalid_request"@,
            "request line exceeds "@ + dec(MAX_LINE_BYTES as int) + " bytes"@,
        )
    } else if !valid_utf8(bytes) {
        step matches FrameStep::Respond { response, close } && !close && is_error_response(
            response,
            id,
            "invalid_request"@,
            "request line is not valid UTF-8"@,
        )
    } else {
        match parsed_json(decode_utf8(bytes)) {
            Err(e) => step matches FrameStep::Respond { response, close } && !close
                && is_error_response(
                response,
                id,
                "invalid_request"@,
                "invalid JSON: "@ + e,
            ),
            Ok(j) => step matches FrameStep::Request { id: found, raw } && found@ == salvaged(j)
                && json_view(raw) == j,
        }
    }
}

/// Decide what to do with one frame. `within_rate` is the verdict of the
/// connection's rate limiter, asked only for frames that consume quota.
pub fn on_frame(frame: BoundedLine, within_rate: bool, rate_per_minute: u32) -> (step: FrameStep)
    ensures
        frame_answered(frame, within_rate, rate_per_minute, step),
{
    if !consumes_quota(&frame) {
        return FrameStep::Skip;
    }
    let (line, oversized) = match frame {
        BoundedLine::Complete(line) => (line, false),
        BoundedLine::Oversized(prefix) => (prefix, true),
    };
    let id = salvage_id_from_bytes(&line);
    if !within_rate {
        let mut message = "more than ".to_owned();
        message.append(dec_u64(rate_per_minute as u64).as_str());
        message.append(" requests per minute; slow down");
        return FrameStep::Respond {
            response: ServerResponse::err(id.as_str(), error_code::RATE_LIMITED, message.as_str()),
            close: oversized,
        };
    }
    if oversized {
        let mut message = "request line exceeds ".to_owned();
        message.append(dec_usize(MAX_LINE_BYTES).as_str());
        message.append(" bytes");
        return FrameStep::Respond {
            response: ServerResponse::err(
                id.as_str(),
                error_code::INVALID_REQUEST,
                message.as_str(),
            ),
            close: true,
        };
    }
    match utf8_text(line) {
        None => FrameStep::Respond {
            response: ServerResponse::err(
                id.as_str(),
                error_code::INVALID_REQUEST,
                "request line is not valid UTF-8",
            ),
            close: false,
        },
        Some(text) => match parse_request(text.as_str()) {
            Ok((id, raw)) => FrameStep::Request { id, raw },
            Err(response) => FrameStep::Respond { response, close: false },
        },
    }
}

/// Whether `r` is what a line is read as.
pub open spec fn line_parsed(line: Seq<char>, r: Result<(String, Value), ServerResponse>) -> bool {
    match parsed_json(line) {
        Ok(j) => r matches Ok(p) && p.0@ == salvaged(j) && json_view(p.1) == j,
        Err(e) => r matches Err(resp) && is_error_response(
            resp,
            salvaged_from_line(line),
            "invalid_request"@,
            "invalid JSON: "@ + e,
        ),
    }
}

/// The first half of the lenient two-step parse: the line becomes a value, so
/// that a request that fails the typed shape still gets its id echoed back.
pub fn parse_request(line: &str) -> (r: Result<(String, Value), ServerResponse>)
    ensures
        line_parsed(line@, r),
{
    match parse_value(line) {
        Ok(raw) => {
            let id = salvage_id(&raw);
            Ok((id, raw))
        },
        Err(e) => {
            let mut message = "invalid JSON: ".to_owned();
            message.append(e.as_str());
            let id = salvage_id_from_line(line);
            Err(ServerResponse::err(id.as_str(), error_code::INVALID_REQUEST, message.as_str()))
        },
    }
}

/// Whether `r` is what a request comes to.
pub open spec fn request_typed(
    id: Seq<char>,
    typed: Result<ClientMessage, String>,
    r: Result<ClientMessage, ServerResponse>,
) -> bool {
    match typed {
        Ok(m) => r == Ok::<ClientMessage, ServerResponse>(m),
        Err(e) => r matches Err(resp) && is_error_response(
            resp,
            id,
            "invalid_request"@,
            "invalid request: "@ + e@,
        ),
    }
}

/// The second half: a value that did not fit the typed shape is answered under
/// the id it carried.
pub fn typed_request(id: &str, typed: Result<ClientMessage, String>) -> (r: Result<
    ClientMessage,
    ServerResponse,
>)
    ensures
        request_typed(id@, typed, r),
{
    match typed {
        Ok(m) => Ok(m),
        Err(e) => {
            let mut message = "invalid request: ".to_owned();
            message.append(e.as_str());
            Err(ServerResponse::err(id, error_code::INVALID_REQUEST, message.as_str()))
        },
    }
}

/// Whether the reader goes on after an answer was queued: it stops once a
/// queue refused it or the answer was the last one.
pub fn reads_on(close: bool, sent: Result<(), EventSendError>) -> (r: bool)
    ensures
        r == (!close && sent is Ok),
{
    match sent {
        Ok(()) => !close,
        Err(_) => false,
    }
}

// ---------------------------------------------------------------------
// Routing
// ---------------------------------------------------------------------

/// Where a request goes.
#[derive(Debug)]
pub enum Route {
    /// `message.send`: turn `params` into [`MessageSendParams`] and go on with
    /// [`message_params`].
    Message { id: String, params: Value },
    /// `commands.list`.
    CommandsList { id: String },
    /// `status.get`.
    StatusGet { id: String },
    /// No handler is involved.
    Respond(ServerResponse),
}

/// Whether `r` is where a request goes.
pub open spec fn dispatched(msg: ClientMessage, r: Route) -> bool {
    if msg.method@ == "message.send"@ {
        match msg.params {
            Some(p) => r matches Route::Message { id, params } && id@ == msg.id@ && params == p,
            None => r matches Route::Respond(resp) && is_error_response(
                resp,
                msg.id@,
                "invalid_request"@,
                "message.send requires params"@,
            ),
        }
    } else if msg.method@ == "commands.list"@ {
        r matches Route::CommandsList { id } && id@ == msg.id@
    } else if msg.method@ == "status.get"@ {
        r matches Route::StatusGet { id } && id@ == msg.id@
    } else {
        r matches Route::Respond(resp) && is_error_response(
            resp,
            msg.id@,
            "invalid_request"@,
            "unknown method '"@ + msg.method@ + "'"@,
        )
    }
}

/// Route one parsed request.
pub fn dispatch(msg: ClientMessage) -> (r: Route)
    ensures
        dispatched(msg, r),
{
    if same(msg.method.as_str(), "message.send") {
        match msg.params {
            Some(params) => Route::Message { id: msg.id, params },
            None => Route::Respond(
                ServerResponse::err(
                    msg.id.as_str(),
                    error_code::INVALID_REQUEST,
                    "message.send requires params",
                ),
            ),
        }
    } else if same(msg.method.as_str(), "commands.list") {
        Route::CommandsList { id: msg.id }
    } else if same(msg.method.as_str(), "status.get") {
        Route::StatusGet { id: msg.id }
    } else {
        let mut message = "unknown method '".to_owned();
        message.append(msg.method.as_str());
        message.append("'");
        Route::Respond(
            ServerResponse::err(msg.id.as_str(), error_code::INVALID_REQUEST, message.as_str()),
        )
    }
}

/// Whether `r` is what the parameters of a message come to.
pub open spec fn params_typed(
    id: Seq<char>,
    typed: Result<MessageSendParams, String>,
    r: Result<MessageSendParams, ServerResponse>,
) -> bool {
    match typed {
        Err(e) => r matches Err(resp) && is_error_response(
            resp,
            id,
            "invalid_request"@,
            "invalid params for message.send: "@ + e@,
        ),
        Ok(p) => match p.rejection() {
            None => r == Ok::<MessageSendParams, ServerResponse>(p),
            Some((code, message)) => r matches Err(resp) && is_error_response(
                resp,
                id,
                code,
                message,
            ),
        },
    }
}

/// Check the params of a `message.send` before the handler sees them.
pub fn message_params(id: &str, typed: Result<MessageSendParams, String>) -> (r: Result<
    MessageSendParams,
    ServerResponse,
>)
    ensures
        params_typed(id@, typed, r),
{
    match typed {
        Err(e) => {
            let mut message = "invalid params for message.send: ".to_owned();
            message.append(e.as_str());
            Err(ServerResponse::err(id, error_code::INVALID_REQUEST, message.as_str()))
        },
        Ok(p) => match p.validate() {
            Ok(()) => Ok(p),
            Err(e) => Err(ServerResponse::err(id, e.code.as_str(), e.message.as_str())),
        },
    }
}

/// What accepting a trigger is answered.
pub open spec fn accepted() -> JsonView {
    JsonView::Table(Map::<Seq<char>, JsonView>::empty().insert("accepted"@, JsonView::Bool(true)))
}

/// Whether `r` answers a message that was handled so.
pub open spec fn message_answered(
    id: Seq<char>,
    handled: Result<(), ServerError>,
    r: ServerResponse,
) -> bool {
    match handled {
        Ok(_) => is_ok_response(r, id, accepted()),
        Err(e) => is_error_response(r, id, e.code@, e.message@),
    }
}

/// Shape what the handler said of a `message.send`. Success means queued: the
/// real reply arrives later as events.
pub fn message_answer(id: &str, handled: Result<(), ServerError>) -> (r: ServerResponse)
    ensures
        message_answered(id@, handled, r),
{
    match handled {
        Ok(()) => {
            let mut members = no_members();
            put_member(&mut members, "accepted", bool_value(true));
            ServerResponse::ok(id, object_value(members))
        },
        Err(e) => ServerResponse::err(id, e.code.as_str(), e.message.as_str()),
    }
}

/// Whether `r` answers a request for a value that was handled so.
pub open spec fn value_answered(
    id: Seq<char>,
    handled: Result<Value, ServerError>,
    r: ServerResponse,
) -> bool {
    match handled {
        Ok(v) => is_ok_response(r, id, json_view(v)),
        Err(e) => is_error_response(r, id, e.code@, e.message@),
    }
}

/// Shape what the handler said of `commands.list` or `status.get`.
pub fn value_answer(id: &str, handled: Result<Value, ServerError>) -> (r: ServerResponse)
    ensures
        value_answered(id@, handled, r),
{
    match handled {
        Ok(v) => ServerResponse::ok(id, v),
        Err(e) => ServerResponse::err(id, e.code.as_str(), e.message.as_str()),
    }
}

// ---------------------------------------------------------------------
// Server limits
// ---------------------------------------------------------------------

/// The limits a server enforces and the path it listens on.
#[derive(Debug, PartialEq, Eq)]
pub struct LocalApiServer {
    pub socket_path: String,
    pub rate_per_minute: u32,
    pub max_connections: usize,
    pub max_event_queue_bytes: usize,
    pub write_timeout_seconds: u64,
}

impl LocalApiServer {
    /// Server with the default limits.
    pub fn new(socket_path: &str) -> (r: Self)
        ensures
            r.socket_path@ == socket_path@,
            r.rate_per_minute == RATE_PER_MINUTE,
            r.max_connections == MAX_CONNECTIONS,
            r.max_event_queue_bytes == MAX_EVENT_QUEUE_BYTES,
            r.write_timeout_seconds == DEFAULT_WRITE_TIMEOUT_SECONDS,
    {
        LocalApiServer {
            socket_path: socket_path.to_owned(),
            rate_per_minute: RATE_PER_MINUTE,
            max_connections: MAX_CONNECTIONS,
            max_event_queue_bytes: MAX_EVENT_QUEUE_BYTES,
            write_timeout_seconds: DEFAULT_WRITE_TIMEOUT_SECONDS,
        }
    }

    /// Override the per-connection request rate.
    pub fn with_rate_per_minute(self, per_minute: u32) -> (r: Self)
        ensures
            r == (LocalApiServer { rate_per_minute: per_minute, ..self }),
    {
        LocalApiServer { rate_per_minute: per_minute, ..self }
    }

    /// Override the concurrent-connection cap.
    pub fn with_max_connections(self, max: usize) -> (r: Self)
        ensures
            r == (LocalApiServer { max_connections: max, ..self }),
    {
        LocalApiServer { max_connections: max, ..self }
    }

    /// Override the per-connection pending-event byte budget.
    pub fn with_max_event_queue_bytes(self, max_bytes: usize) -> (r: Self)
        ensures
            r == (LocalApiServer { max_event_queue_bytes: max_bytes, ..self }),
    {
        LocalApiServer { max_event_queue_bytes: max_bytes, ..self }
    }

    /// Override how long one write to a client may stall.
    pub fn with_write_timeout(self, seconds: u64) -> (r: Self)
        ensures
            r == (LocalApiServer { write_timeout_seconds: seconds, ..self }),
    {
        LocalApiServer { write_timeout_seconds: seconds, ..self }
    }
}

// ---------------------------------------------------------------------
// Laws of a connection
// ---------------------------------------------------------------------

/// Only a peer of the daemon's own user is served, and one whose user is not
/// known; whoever is turned away is answered under no id.
pub proof fn another_user_is_turned_away(
    peer: PeerInfo,
    euid: u32,
    r: Result<(), ServerResponse>,
)
    requires
        peer_checked(peer, euid, r),
    ensures
        r is Err <==> peer.uid is Some && peer.uid->0 != euid,
        r is Err ==> r->Err_0.id@.len() == 0 && r->Err_0.error is Some && r->Err_0.result is None,
{
}

/// A sender goes by the process and the user that are known of it.
pub proof fn a_sender_goes_by_what_is_known(peer: PeerInfo)
    ensures
        peer.pid is Some ==> has_prefix(actor_name(peer), "pid="@ + dec(peer.pid->0 as int)),
        peer.uid is Some ==> has_suffix(actor_name(peer), "uid="@ + dec(peer.uid->0 as int)),
        peer.pid is None && peer.uid is None ==> actor_name(peer) == "local"@,
{
    let none = Seq::<char>::empty();
    if peer.pid is Some {
        let who = "pid="@ + dec(peer.pid->0 as int);
        if peer.uid is Some {
            reveal_strlit(" uid=");
            reveal_strlit("uid=");
            let user = "uid="@ + dec(peer.uid->0 as int);
            let gap = " uid="@.take(1);
            assert(" uid="@ =~= gap + "uid="@);
            assert(actor_name(peer) =~= who + (gap + user));
            lemma_ends(who, gap + user);
            assert(actor_name(peer) =~= (who + gap) + user);
            lemma_ends(who + gap, user);
        } else {
            assert(who =~= who + none);
            lemma_ends(who, none);
        }
    } else if peer.uid is Some {
        let user = "uid="@ + dec(peer.uid->0 as int);
        assert(user =~= none + user);
        lemma_ends(none, user);
    }
}

/// A connection is accepted exactly while there is room, and counts once; one
/// that is turned away is told the limit, and counts for nothing.
pub proof fn only_a_full_house_turns_away(
    live: nat,
    max: nat,
    after: nat,
    r: Result<(), ServerResponse>,
)
    requires
        slot_asked(live, max, after, r),
        live <= max,
    ensures
        r is Err <==> live == max,
        after <= max,
        r is Ok ==> after == live + 1,
        r is Err ==> after == live && r->Err_0.error is Some && holds_text(
            r->Err_0.error->0.message@,
            "("@ + dec(max as int) + ")"@,
        ),
{
    if r is Err {
        reveal_strlit("connection limit (");
        reveal_strlit("(");
        reveal_strlit(")");
        reveal_strlit(") reached; try again later");
        let lead = "connection limit ("@.drop_last();
        let rest = ") reached; try again later"@.skip(1);
        let part = "("@ + dec(max as int) + ")"@;
        let said = r->Err_0.error->0.message@;
        assert(said =~= lead + part + rest);
        lemma_holds_part(said, lead, part, rest);
    }
}

/// What is in the way of the socket is swept exactly when it is a dead socket of
/// our own; with nothing in the way the socket is bound; everything else is left
/// alone, for its own kind of reason.
pub proof fn what_is_in_the_way_is_told_apart(
    path: Seq<char>,
    state: PathState,
    euid: u32,
    d: BindDecision,
)
    requires
        bind_decided(path, state, euid, d),
    ensures
        d is Bind <==> state is Missing,
        d is Sweep <==> state == (PathState::Stale { owner: euid }),
        d matches BindDecision::Refuse { kind, message } ==> ({
            &&& kind == BindRefusal::AddrInUse <==> state is Live
            &&& kind == BindRefusal::Occupied <==> state is NotASocket
            &&& kind == BindRefusal::PermissionDenied <==> state is Stale
            &&& state matches PathState::Unreadable { error } ==> message@ == error@
            &&& state is Live ==> has_suffix(message@, path)
            &&& state is NotASocket ==> has_prefix(message@, path)
            &&& state matches PathState::Stale { owner } ==> holds_text(message@, path)
                && holds_text(message@, " uid "@ + dec(owner as int))
        }),
{
    lemma_ends("another server is listening on "@, path);
    lemma_ends(path, " exists and is not a unix socket"@);
    if let PathState::Stale { owner } = state {
        let n = dec(owner as int);
        let lead = "stale socket "@;
        let end = "; refusing to remove it"@;
        let said = lead + path + " belongs to uid "@ + n + end;
        assert(said =~= lead + path + (" belongs to uid "@ + n + end));
        lemma_holds_part(said, lead, path, " belongs to uid "@ + n + end);
        reveal_strlit(" belongs to uid ");
        reveal_strlit(" uid ");
        let mid = " belongs to uid "@.take(11);
        assert(" belongs to uid "@ =~= mid + " uid "@);
        assert(said =~= (lead + path + mid) + (" uid "@ + n) + end);
        lemma_holds_part(said, lead + path + mid, " uid "@ + n, end);
    }
}

/// Bytes are counted while they wait and no longer: an event that is queued and
/// then written leaves the budget as it was. Responses never count.
pub proof fn written_bytes_are_given_back(tx: EventTx, len: nat, slot: QueueSlot)
    requires
        event_sent(tx, len, slot) is Ok,
        tx.queued_bytes <= tx.max_queued_bytes,
    ensures
        after_event(tx, len, slot).queued_bytes == tx.queued_bytes + len,
        after_frame(
            after_event(tx, len, slot),
            FrameKind::Event,
            len,
            WriteOutcome::Written,
        ) == tx,
        after_frame(tx, FrameKind::Response, len, WriteOutcome::Written) == tx,
        after_frame(tx, FrameKind::ResponseAndClose, len, WriteOutcome::Written) == tx,
{
}

/// An event is queued exactly when the connection is open, its bytes fit and
/// there is a slot; otherwise the connection is given up. The budget is for
/// events only.
pub proof fn an_event_is_queued_while_it_fits(tx: EventTx, len: nat, slot: QueueSlot)
    ensures
        event_sent(tx, len, slot) is Ok <==> !tx.poisoned && tx.queued_bytes + len
            <= tx.max_queued_bytes && slot == QueueSlot::Free,
        event_sent(tx, len, slot) is Err ==> after_event(tx, len, slot).poisoned,
        !tx.poisoned && tx.queued_bytes + len > tx.max_queued_bytes ==> event_sent(tx, len, slot)
            == Err::<(), EventSendError>(EventSendError::Overflow),
        response_sent(tx, slot) is Ok <==> !tx.poisoned && slot == QueueSlot::Free,
        !tx.poisoned && slot == QueueSlot::Full ==> response_sent(tx, slot) == Err::<
            (),
            EventSendError,
        >(EventSendError::Overflow),
{
}

/// The writer stops at the first frame that it cannot write, and after a response
/// that closes the connection.
pub proof fn a_writer_stops_at_an_end(kind: FrameKind, outcome: WriteOutcome)
    ensures
        writes_on(kind, outcome) <==> outcome == WriteOutcome::Written && kind
            != FrameKind::ResponseAndClose,
        !writes_on(kind, WriteOutcome::TimedOut) && !writes_on(kind, WriteOutcome::Failed),
{
}

/// An empty line is no request. Only a line that is too long ends its
/// connection; a line over the rate is answered with the limit; and a line that
/// is a value goes on as that value, under its own id.
pub proof fn a_line_is_answered_for_what_it_is(
    frame: BoundedLine,
    within_rate: bool,
    rate_per_minute: u32,
    step: FrameStep,
)
    requires
        frame_answered(frame, within_rate, rate_per_minute, step),
    ensures
        step is Skip <==> frame is Complete && frame_bytes(frame).len() == 0,
        step matches FrameStep::Respond { response, close } ==> (close <==> frame is Oversized)
            && response.result is None && response.id@ == salvaged_from_bytes(frame_bytes(frame)),
        step is Request ==> within_rate && frame is Complete && valid_utf8(frame_bytes(frame)),
        step matches FrameStep::Request { id, raw } ==> parsed_json(
            decode_utf8(frame_bytes(frame)),
        ) == Ok::<JsonView, Seq<char>>(json_view(raw)) && id@ == salvaged(json_view(raw)),
        !(step is Skip) && !within_rate ==> (step matches FrameStep::Respond { response, .. }
            && response.error is Some && response.error->0.code@ == "rate_limited"@ && holds_text(
            response.error->0.message@,
            dec(rate_per_minute as int),
        )),
        step matches FrameStep::Respond { response, .. } ==> (within_rate ==> response.error is Some
            && response.error->0.code@ == "invalid_request"@),
{
    let n = dec(rate_per_minute as int);
    lemma_holds_part(
        "more than "@ + n + " requests per minute; slow down"@,
        "more than "@,
        n,
        " requests per minute; slow down"@,
    );
}

/// Every step of a request keeps its id: what could not be read, is of an unknown
/// method or lacks what it needs is answered under it with an error, and goes on
/// under it otherwise.
pub proof fn a_request_keeps_its_id(
    msg: ClientMessage,
    route: Route,
    id: Seq<char>,
    typed: Result<ClientMessage, String>,
    request: Result<ClientMessage, ServerResponse>,
    given: Result<MessageSendParams, String>,
    params: Result<MessageSendParams, ServerResponse>,
)
    requires
        dispatched(msg, route),
        request_typed(id, typed, request),
        params_typed(id, given, params),
    ensures
        route matches Route::Message { id: i, params: p } ==> i@ == msg.id@ && msg.params == Some(
            p,
        ) && msg.method@ == "message.send"@,
        route matches Route::CommandsList { id: i } ==> i@ == msg.id@,
        route matches Route::StatusGet { id: i } ==> i@ == msg.id@,
        route matches Route::Respond(r) ==> r.id@ == msg.id@ && r.error is Some && r.result is None,
        route is CommandsList <==> msg.method@ == "commands.list"@,
        route is StatusGet <==> msg.method@ == "status.get"@,
        route is Message <==> msg.method@ == "message.send"@ && msg.params is Some,
        typed is Ok ==> request is Ok && request->Ok_0 == typed->Ok_0,
        typed is Err ==> request is Err && request->Err_0.id@ == id && request->Err_0.error
            is Some && has_suffix(request->Err_0.error->0.message@, typed->Err_0@),
        given is Err ==> params is Err && params->Err_0.id@ == id && params->Err_0.error is Some
            && has_suffix(params->Err_0.error->0.message@, given->Err_0@),
        given is Ok ==> (params is Ok <==> given->Ok_0.rejection() is None),
        params is Ok ==> given == Ok::<MessageSendParams, String>(params->Ok_0),
        params is Err ==> params->Err_0.id@ == id && params->Err_0.error is Some,
{
    reveal_strlit("message.send");
    reveal_strlit("commands.list");
    reveal_strlit("status.get");
    assert("message.send"@.len() == 12 && "commands.list"@.len() == 13 && "status.get"@.len()
        == 10);
    if let Err(e) = typed {
        lemma_ends("invalid request: "@, e@);
    }
    if let Err(e) = given {
        lemma_ends("invalid params for message.send: "@, e@);
    }
}

/// What was handled is answered under its id: a message that was taken is said to
/// be accepted, a value is given as it is, and an error keeps its code and words.
pub proof fn an_answer_is_what_was_handled(
    id: Seq<char>,
    handled: Result<(), ServerError>,
    value: Result<Value, ServerError>,
    message: ServerResponse,
    answer: ServerResponse,
)
    requires
        message_answered(id, handled, message),
        value_answered(id, value, answer),
    ensures
        message.id@ == id && answer.id@ == id,
        handled is Ok <==> message.error is None,
        handled is Ok ==> message.result is Some && member_of(
            json_view(message.result->0),
            "accepted"@,
        ) == Some(JsonView::Bool(true)),
        handled is Err ==> message.error->0.code@ == handled->Err_0.code@
            && message.error->0.message@ == handled->Err_0.message@ && message.result is None,
        value is Ok <==> answer.error is None,
        value is Ok ==> answer.result is Some && json_view(answer.result->0) == json_view(
            value->Ok_0,
        ),
        value is Err ==> answer.error->0.code@ == value->Err_0.code@ && answer.error->0.message@
            == value->Err_0.message@ && answer.result is None,
{
}

/// A line that is a value is read as it, under the id in it; any other is an error
/// that says why.
pub proof fn a_line_is_read_as_its_value(
    line: Seq<char>,
    r: Result<(String, Value), ServerResponse>,
)
    requires
        line_parsed(line, r),
    ensures
        r is Ok <==> parsed_json(line) is Ok,
        r is Ok ==> json_view((r->Ok_0).1) == parsed_json(line)->Ok_0 && (r->Ok_0).0@ == salvaged(
            parsed_json(line)->Ok_0,
        ),
        r is Err ==> r->Err_0.id@ == salvaged_from_line(line) && r->Err_0.error is Some
            && has_suffix(r->Err_0.error->0.message@, parsed_json(line)->Err_0),
{
    if let Err(e) = parsed_json(line) {
        lemma_ends("invalid JSON: "@, e);
    }
}

/// A line that is too long is told how long one may be, and a line that is not
/// JSON is told why.
pub proof fn a_bad_line_is_told_what_is_wrong(
    long: BoundedLine,
    broken: BoundedLine,
    rate_per_minute: u32,
    too_long: FrameStep,
    unread: FrameStep,
)
    requires
        frame_answered(long, true, rate_per_minute, too_long),
        long is Oversized,
        frame_answered(broken, true, rate_per_minute, unread),
        broken is Complete,
        frame_bytes(broken).len() > 0,
        valid_utf8(frame_bytes(broken)),
        parsed_json(decode_utf8(frame_bytes(broken))) is Err,
    ensures
        too_long matches FrameStep::Respond { response, close } && close && response.error is Some
            && holds_text(response.error->0.message@, dec(65536)),
        unread matches FrameStep::Respond { response, close } && !close && response.error is Some
            && has_suffix(
            response.error->0.message@,
            parsed_json(decode_utf8(frame_bytes(broken)))->Err_0,
        ),
{
    lemma_holds_part(
        "request line exceeds "@ + dec(65536) + " bytes"@,
        "request line exceeds "@,
        dec(65536),
        " bytes"@,
    );
    lemma_ends("invalid JSON: "@, parsed_json(decode_utf8(frame_bytes(broken)))->Err_0);
}

} // verus!
