//! Wire types for the local API socket.
//!
//! No IO lives here. Parsing is lenient where the protocol allows it (request
//! ids may be strings or numbers) and strict where safety demands it (session
//! ids, text bounds).

use crate::json::{
    JsonView, held, json_view, member, member_of, named, no_members, number_text, object_text,
    object_value, print_object, push_named, put_member, text_member, text_value,
};
use crate::local_api::error_code;
use crate::text::{
    byte_count, byte_len, chars_of, dec, dec_usize, is_blank, is_blank_text, is_space,
};
use serde_json::Value;
use vstd::prelude::*;

verus! {

broadcast use vstd::string::group_string_axioms;

/// Ceiling for the `text` field of a `message.send`, far beyond a human-sized
/// prompt and far below anything that could pressure the daemon.
pub const MAX_TEXT_BYTES: usize = 32768;

/// Concurrent client connections the server will actually serve.
pub const MAX_CONNECTIONS: usize = 16;

/// Per-connection budget for events queued but not yet written to the client.
pub const MAX_EVENT_QUEUE_BYTES: usize = 1048576;

/// Requests per minute, per connection.
pub const RATE_PER_MINUTE: u32 = 30;

/// Session used when a `message.send` carries no explicit one.
pub const DEFAULT_SESSION_ID: &'static str = "default";

// ---------------------------------------------------------------------
// Session ids
// ---------------------------------------------------------------------

/// A character a session id may hold: `[A-Za-z0-9_-]`.
pub open spec fn session_char(c: char) -> bool {
    'A' <= c <= 'Z' || 'a' <= c <= 'z' || '0' <= c <= '9' || c == '_' || c == '-'
}

/// A session id: 1 to 64 characters of `[A-Za-z0-9_-]`.
pub open spec fn session_id_ok(id: Seq<char>) -> bool {
    1 <= id.len() <= 64 && forall|i: int| 0 <= i < id.len() ==> session_char(#[trigger] id[i])
}

/// Whether `id` is a valid session id.
pub fn is_valid_session_id(id: &str) -> (r: bool)
    ensures
        r == session_id_ok(id@),
{
    let v = chars_of(id);
    if v.len() < 1 || v.len() > 64 {
        return false;
    }
    let mut i: usize = 0;
    while i < v.len()
        invariant
            i <= v@.len(),
            v@ == id@,
            forall|k: int| 0 <= k < i ==> session_char(#[trigger] v@[k]),
        decreases v@.len() - i,
    {
        let c = v[i];
        let ok = ('A' <= c && c <= 'Z') || ('a' <= c && c <= 'z') || ('0' <= c && c <= '9') || c
            == '_' || c == '-';
        if !ok {
            return false;
        }
        i = i + 1;
    }
    true
}

/// A valid session id cannot smuggle a path: it holds no separator, no dot and
/// no white space.
pub proof fn session_ids_hold_no_path(id: Seq<char>)
    requires
        session_id_ok(id),
    ensures
        forall|i: int|
            0 <= i < id.len() ==> #[trigger] id[i] != '/' && id[i] != '.' && id[i] != '\\'
                && !is_space(id[i]),
{
    assert forall|i: int| 0 <= i < id.len() implies #[trigger] id[i] != '/' && id[i] != '.'
        && id[i] != '\\' && !is_space(id[i]) by {
        assert(session_char(id[i]));
    }
}

// ---------------------------------------------------------------------
// Requests
// ---------------------------------------------------------------------

/// One request line from a client. Ids are correlation tokens, nothing more:
/// the wire takes a string or a number and the response echoes a string.
#[derive(Debug)]
pub struct ClientMessage {
    pub id: String,
    pub method: String,
    pub params: Option<Value>,
}

/// A request id as text: a string is itself, a number is what it prints.
pub open spec fn id_text(v: JsonView) -> Option<Seq<char>> {
    match v {
        JsonView::Text(t) => Some(t),
        JsonView::Number { text, .. } => Some(text),
        _ => None,
    }
}

/// The id that can be recovered from a value that is not a valid request.
pub open spec fn salvaged(v: JsonView) -> Seq<char> {
    match member_of(v, "id"@) {
        Some(m) => match id_text(m) {
            Some(t) => t,
            None => Seq::empty(),
        },
        None => Seq::empty(),
    }
}

/// A request id as text: a string or a number, normalized to a string.
/// Anything else is no id.
pub fn normalize_id(v: &Value) -> (r: Option<String>)
    ensures
        match id_text(json_view(*v)) {
            Some(t) => r matches Some(s) && s@ == t,
            None => r is None,
        },
{
    match v.as_str() {
        Some(s) => Some(s.to_owned()),
        None => number_text(v),
    }
}

/// Best-effort id recovery from a line that failed typed parsing, so an error
/// response can still be correlated. Anything that is not a string or a number
/// yields `""`.
pub fn salvage_id(raw: &Value) -> (r: String)
    ensures
        r@ == salvaged(json_view(*raw)),
{
    match member(raw, "id") {
        Some(m) => match normalize_id(m) {
            Some(id) => id,
            None => String::new(),
        },
        None => String::new(),
    }
}

// ---------------------------------------------------------------------
// Responses
// ---------------------------------------------------------------------

/// The error half of a response.
#[derive(Debug, Clone, PartialEq, Eq)]
pub struct ServerError {
    pub code: String,
    pub message: String,
}

impl ServerError {
    /// An error with a code from [`error_code`] and a sentence.
    pub fn new(code: &str, message: &str) -> (r: Self)
        ensures
            r.code@ == code@,
            r.message@ == message@,
    {
        ServerError { code: code.to_owned(), message: message.to_owned() }
    }
}

/// One response line to a client. Exactly one of `result` / `error` is set;
/// the other is absent from the wire.
#[derive(Debug)]
pub struct ServerResponse {
    pub id: String,
    pub result: Option<Value>,
    pub error: Option<ServerError>,
}

/// Whether `r` is the error response with this id, code and message.
pub open spec fn is_error_response(
    r: ServerResponse,
    id: Seq<char>,
    code: Seq<char>,
    message: Seq<char>,
) -> bool {
    &&& r.id@ == id
    &&& r.result is None
    &&& r.error matches Some(e) && e.code@ == code && e.message@ == message
}

/// Whether `r` is the success response with this id and result.
pub open spec fn is_ok_response(r: ServerResponse, id: Seq<char>, result: JsonView) -> bool {
    &&& r.id@ == id
    &&& r.error is None
    &&& r.result matches Some(v) && json_view(v) == result
}

impl ServerResponse {
    /// A success.
    pub fn ok(id: &str, result: Value) -> (r: Self)
        ensures
            is_ok_response(r, id@, json_view(result)),
            r.result == Some(result),
    {
        ServerResponse { id: id.to_owned(), result: Some(result), error: None }
    }

    /// A failure.
    pub fn err(id: &str, code: &str, message: &str) -> (r: Self)
        ensures
            is_error_response(r, id@, code@, message@),
    {
        ServerResponse {
            id: id.to_owned(),
            result: None,
            error: Some(ServerError::new(code, message)),
        }
    }

    /// What goes on the wire: the id and the half that is set.
    pub open spec fn wire(&self) -> JsonView {
        let base = Map::<Seq<char>, JsonView>::empty().insert("id"@, JsonView::Text(self.id@));
        let with_result = match self.result {
            Some(v) => base.insert("result"@, json_view(v)),
            None => base,
        };
        JsonView::Table(
            match self.error {
                Some(e) => with_result.insert(
                    "error"@,
                    JsonView::Table(
                        Map::<Seq<char>, JsonView>::empty().insert(
                            "code"@,
                            JsonView::Text(e.code@),
                        ).insert("message"@, JsonView::Text(e.message@)),
                    ),
                ),
                None => with_result,
            },
        )
    }

    /// The response as one JSON value.
    pub fn to_json(self) -> (r: Value)
        ensures
            json_view(r) == self.wire(),
    {
        let mut members = no_members();
        put_member(&mut members, "id", text_value(self.id.as_str()));
        if let Some(v) = self.result {
            put_member(&mut members, "result", v);
        }
        if let Some(e) = self.error {
            let mut inner = no_members();
            put_member(&mut inner, "code", text_value(e.code.as_str()));
            put_member(&mut inner, "message", text_value(e.message.as_str()));
            put_member(&mut members, "error", object_value(inner));
        }
        object_value(members)
    }

    /// The members on the wire, in order.
    pub open spec fn fields(&self) -> Seq<(Seq<char>, JsonView)> {
        let head = seq![("id"@, JsonView::Text(self.id@))];
        let with_result = match self.result {
            Some(v) => head.push(("result"@, json_view(v))),
            None => head,
        };
        match self.error {
            Some(e) => with_result.push(
                (
                    "error"@,
                    JsonView::Table(
                        Map::<Seq<char>, JsonView>::empty().insert(
                            "code"@,
                            JsonView::Text(e.code@),
                        ).insert("message"@, JsonView::Text(e.message@)),
                    ),
                ),
            ),
            None => with_result,
        }
    }

    /// The response as it goes on the wire.
    pub fn to_text(self) -> (r: String)
        ensures
            r@ == object_text(self.fields()),
    {
        let ghost fields = self.fields();
        let mut members: Vec<(&str, Value)> = Vec::new();
        push_named(&mut members, "id", text_value(self.id.as_str()));
        if let Some(v) = self.result {
            push_named(&mut members, "result", v);
        }
        if let Some(e) = self.error {
            let mut inner = no_members();
            put_member(&mut inner, "code", text_value(e.code.as_str()));
            put_member(&mut inner, "message", text_value(e.message.as_str()));
            push_named(&mut members, "error", object_value(inner));
        }
        proof {
            assert(named(members@) =~= fields);
        }
        print_object(&members)
    }
}

// ---------------------------------------------------------------------
// Events
// ---------------------------------------------------------------------

/// One server-initiated event line. Constructors cover the four kinds the
/// daemon emits; extra fields stay off the wire when unset.
#[derive(Debug, Clone, PartialEq, Eq)]
pub struct ServerEvent {
    pub event: &'static str,
    pub session_id: Option<String>,
    pub agent: Option<String>,
    pub line: Option<String>,
    pub text: Option<String>,
}

/// The view of an optional text.
pub open spec fn optional(s: Option<String>) -> Option<Seq<char>> {
    match s {
        Some(t) => Some(t@),
        None => None,
    }
}

/// `m`, with an optional text under `key`.
pub open spec fn put(
    m: Map<Seq<char>, JsonView>,
    key: Seq<char>,
    value: Option<String>,
) -> Map<Seq<char>, JsonView> {
    match value {
        Some(t) => m.insert(key, JsonView::Text(t@)),
        None => m,
    }
}

fn push_optional(
    members: &mut serde_json::Map<String, Value>,
    key: &str,
    value: &Option<String>,
)
    ensures
        held(*final(members)) == put(held(*old(members)), key@, *value),
{
    if let Some(t) = value {
        put_member(members, key, text_value(t.as_str()));
    }
}

impl ServerEvent {
    /// The run behind this session started thinking. Cosmetic, but it is what
    /// keeps a client from looking dead during a long agent run.
    pub fn typing(session_id: &str) -> (r: Self)
        ensures
            r.event@ == "typing"@,
            optional(r.session_id) == Some(session_id@),
            r.agent is None,
            r.line is None,
            r.text is None,
    {
        ServerEvent {
            event: "typing",
            session_id: Some(session_id.to_owned()),
            agent: None,
            line: None,
            text: None,
        }
    }

    /// An agent run was dispatched for this session.
    pub fn run_started(session_id: &str, agent: &str) -> (r: Self)
        ensures
            r.event@ == "run.started"@,
            optional(r.session_id) == Some(session_id@),
            optional(r.agent) == Some(agent@),
            r.line is None,
            r.text is None,
    {
        ServerEvent {
            event: "run.started",
            session_id: Some(session_id.to_owned()),
            agent: Some(agent.to_owned()),
            line: None,
            text: None,
        }
    }

    /// One line of streaming output.
    pub fn reply_delta(session_id: &str, line: &str) -> (r: Self)
        ensures
            r.event@ == "reply.delta"@,
            optional(r.session_id) == Some(session_id@),
            r.agent is None,
            optional(r.line) == Some(line@),
            r.text is None,
    {
        ServerEvent {
            event: "reply.delta",
            session_id: Some(session_id.to_owned()),
            agent: None,
            line: Some(line.to_owned()),
            text: None,
        }
    }

    /// The complete reply. Terminal for a request's event stream.
    pub fn reply(session_id: &str, text: &str) -> (r: Self)
        ensures
            r.event@ == "reply"@,
            optional(r.session_id) == Some(session_id@),
            r.agent is None,
            r.line is None,
            optional(r.text) == Some(text@),
    {
        ServerEvent {
            event: "reply",
            session_id: Some(session_id.to_owned()),
            agent: None,
            line: None,
            text: Some(text.to_owned()),
        }
    }

    /// What goes on the wire: the kind, and the fields that are set.
    pub open spec fn wire(&self) -> JsonView {
        let base = Map::<Seq<char>, JsonView>::empty().insert(
            "event"@,
            JsonView::Text(self.event@),
        );
        JsonView::Table(
            put(
                put(
                    put(put(base, "session_id"@, self.session_id), "agent"@, self.agent),
                    "line"@,
                    self.line,
                ),
                "text"@,
                self.text,
            ),
        )
    }

    /// The event as one JSON value.
    pub fn to_json(&self) -> (r: Value)
        ensures
            json_view(r) == self.wire(),
    {
        let mut members = no_members();
        put_member(&mut members, "event", text_value(self.event));
        push_optional(&mut members, "session_id", &self.session_id);
        push_optional(&mut members, "agent", &self.agent);
        push_optional(&mut members, "line", &self.line);
        push_optional(&mut members, "text", &self.text);
        object_value(members)
    }

    /// The members on the wire, in order.
    pub open spec fn fields(&self) -> Seq<(Seq<char>, JsonView)> {
        seq![("event"@, JsonView::Text(self.event@))] + field("session_id"@, self.session_id)
            + field("agent"@, self.agent) + field("line"@, self.line) + field("text"@, self.text)
    }

    /// The event as it goes on the wire.
    pub fn to_text(&self) -> (r: String)
        ensures
            r@ == object_text(self.fields()),
    {
        let mut members: Vec<(&str, Value)> = Vec::new();
        push_named(&mut members, "event", text_value(self.event));
        push_field(&mut members, "session_id", &self.session_id);
        push_field(&mut members, "agent", &self.agent);
        push_field(&mut members, "line", &self.line);
        push_field(&mut members, "text", &self.text);
        proof {
            assert(named(members@) =~= self.fields());
        }
        print_object(&members)
    }
}

/// A field that is set, as a list of one member.
pub open spec fn field(key: Seq<char>, value: Option<String>) -> Seq<(Seq<char>, JsonView)> {
    match value {
        Some(t) => seq![(key, JsonView::Text(t@))],
        None => Seq::empty(),
    }
}

fn push_field<'a>(members: &mut Vec<(&'a str, Value)>, key: &'a str, value: &Option<String>)
    ensures
        named(final(members)@) == named(old(members)@) + field(key@, *value),
{
    let ghost before = named(members@);
    if let Some(t) = value {
        push_named(members, key, text_value(t.as_str()));
    }
    proof {
        assert(named(members@) =~= before + field(key@, *value));
    }
}

/// On the wire an event has its kind and exactly the fields that are set.
pub proof fn unset_fields_stay_off_the_wire(e: ServerEvent)
    ensures
        e.wire() is Table,
        text_member(e.wire(), "event"@) == Some(e.event@),
        text_member(e.wire(), "session_id"@) == optional(e.session_id),
        text_member(e.wire(), "agent"@) == optional(e.agent),
        text_member(e.wire(), "line"@) == optional(e.line),
        text_member(e.wire(), "text"@) == optional(e.text),
        forall|k: Seq<char>| #[trigger]
            member_of(e.wire(), k) is Some ==> k == "event"@ || k == "session_id"@ || k == "agent"@
                || k == "line"@ || k == "text"@,
{
    reveal_strlit("event");
    reveal_strlit("session_id");
    reveal_strlit("agent");
    reveal_strlit("line");
    reveal_strlit("text");
    assert("event"@.len() != "session_id"@.len());
    assert("event"@[0] != "agent"@[0]);
    assert("line"@[0] != "text"@[0]);
    assert("event"@.len() != "line"@.len());
    assert("event"@.len() != "text"@.len());
    assert("agent"@.len() != "line"@.len());
    assert("agent"@.len() != "text"@.len());
    assert("session_id"@.len() != "agent"@.len());
    assert("session_id"@.len() != "line"@.len());
    assert("session_id"@.len() != "text"@.len());
}

// ---------------------------------------------------------------------
// message.send
// ---------------------------------------------------------------------

/// Params of `message.send`.
#[derive(Debug, Clone, PartialEq, Eq)]
pub struct MessageSendParams {
    pub session_id: Option<String>,
    pub text: String,
}

/// How `{:?}` prints a text.
pub uninterp spec fn debug_text(s: Seq<char>) -> Seq<char>;

/// The `Debug` of std's `str`: the text in double quotes, with escapes.
#[verifier::external_body]
fn quoted(s: &str) -> (r: String)
    ensures
        r@ == debug_text(s@),
{
    format!("{s:?}")
}

impl MessageSendParams {
    /// The session a trigger belongs to.
    pub open spec fn session(&self) -> Seq<char> {
        match self.session_id {
            Some(s) => s@,
            None => "default"@,
        }
    }

    /// Why the params are refused, as code and message, or `None`: the text is
    /// not blank and bounded, and the session id is valid, checked in that
    /// order.
    pub open spec fn rejection(&self) -> Option<(Seq<char>, Seq<char>)> {
        if is_blank_text(self.text@) {
            Some(("invalid_request"@, "text must not be empty"@))
        } else if byte_len(self.text@) > MAX_TEXT_BYTES {
            Some(
                (
                    "invalid_request"@,
                    "text exceeds "@ + dec(MAX_TEXT_BYTES as int) + " bytes"@,
                ),
            )
        } else if !session_id_ok(self.session()) {
            Some(
                (
                    "session_id_invalid"@,
                    "session_id must match ^[A-Za-z0-9_-]{1,64}$, got: "@ + debug_text(
                        self.session(),
                    ),
                ),
            )
        } else {
            None
        }
    }

    /// The session a trigger belongs to: the explicit one, or `"default"`.
    pub fn effective_session_id(&self) -> (r: &str)
        ensures
            r@ == self.session(),
    {
        match &self.session_id {
            Some(s) => s.as_str(),
            None => DEFAULT_SESSION_ID,
        }
    }

    /// Enforce the bounds the threat model cares about before the text travels
    /// any further: non-empty, bounded, and keyed to a session id that cannot
    /// smuggle path characters into a filename, a label or a log line.
    pub fn validate(&self) -> (r: Result<(), ServerError>)
        ensures
            match self.rejection() {
                None => r is Ok,
                Some((code, message)) => r matches Err(e) && e.code@ == code && e.message@
                    == message,
            },
    {
        if is_blank(self.text.as_str()) {
            return Err(ServerError::new(error_code::INVALID_REQUEST, "text must not be empty"));
        }
        if byte_count(self.text.as_str()) > MAX_TEXT_BYTES {
            let mut message = "text exceeds ".to_owned();
            message.append(dec_usize(MAX_TEXT_BYTES).as_str());
            message.append(" bytes");
            return Err(ServerError::new(error_code::INVALID_REQUEST, message.as_str()));
        }
        if !is_valid_session_id(self.effective_session_id()) {
            let mut message = "session_id must match ^[A-Za-z0-9_-]{1,64}$, got: ".to_owned();
            message.append(quoted(self.effective_session_id()).as_str());
            return Err(ServerError::new(error_code::SESSION_ID_INVALID, message.as_str()));
        }
        Ok(())
    }
}

// ---------------------------------------------------------------------
// Laws of the wire
// ---------------------------------------------------------------------

/// A response has its id, and its result or its error under that name; an error
/// has its code and its message. What is written in order is the same members.
pub proof fn a_response_is_on_the_wire_as_it_is(r: ServerResponse, i: int)
    requires
        0 <= i < r.fields().len(),
    ensures
        text_member(r.wire(), "id"@) == Some(r.id@),
        r.result is Some ==> member_of(r.wire(), "result"@) == Some(json_view(r.result->0)),
        r.result is None ==> member_of(r.wire(), "result"@) is None,
        r.error is None ==> member_of(r.wire(), "error"@) is None,
        r.error is Some ==> (member_of(r.wire(), "error"@) matches Some(e) && text_member(
            e,
            "code"@,
        ) == Some(r.error->0.code@) && text_member(e, "message"@) == Some(r.error->0.message@)),
        member_of(r.wire(), r.fields()[i].0) == Some(r.fields()[i].1),
        r.fields()[0].0 == "id"@,
{
    reveal_strlit("id");
    reveal_strlit("result");
    reveal_strlit("error");
    reveal_strlit("code");
    reveal_strlit("message");
    assert("id"@.len() == 2 && "result"@.len() == 6 && "error"@.len() == 5);
    assert("code"@.len() == 4 && "message"@.len() == 7);
}

/// An event has its name and each of its parts under that part's own name; a part
/// that is not set is not there. What is written in order is the same members.
pub proof fn an_event_is_on_the_wire_as_it_is(e: ServerEvent, i: int)
    requires
        0 <= i < e.fields().len(),
    ensures
        text_member(e.wire(), "event"@) == Some(e.event@),
        text_member(e.wire(), "session_id"@) == optional(e.session_id),
        text_member(e.wire(), "agent"@) == optional(e.agent),
        text_member(e.wire(), "line"@) == optional(e.line),
        text_member(e.wire(), "text"@) == optional(e.text),
        member_of(e.wire(), e.fields()[i].0) == Some(e.fields()[i].1),
        e.fields()[0].0 == "event"@,
{
    reveal_strlit("event");
    reveal_strlit("session_id");
    reveal_strlit("agent");
    reveal_strlit("line");
    reveal_strlit("text");
    assert("event"@.len() == 5 && "session_id"@.len() == 10 && "agent"@.len() == 5 && "line"@.len()
        == 4 && "text"@.len() == 4);
    assert("event"@[0] == 'e' && "agent"@[0] == 'a' && "line"@[0] == 'l' && "text"@[0] == 't');
}

/// The id of a request that could not be read is given back where it has one: a
/// string as it is, and a number as it was written; anything else is no id.
pub proof fn an_id_is_given_back_as_it_was_written(raw: JsonView, id: JsonView)
    requires
        member_of(raw, "id"@) == Some(id),
    ensures
        id matches JsonView::Text(t) ==> salvaged(raw) == t,
        id matches JsonView::Number { text, .. } ==> salvaged(raw) == text,
        !(id is Text) && !(id is Number) ==> salvaged(raw).len() == 0,
{
}

/// A session id is from one to sixty-four letters, digits, dashes and
/// underscores: the default is one, and an id with anything else in it is none.
pub proof fn a_session_id_is_plain(id: Seq<char>, i: int)
    requires
        session_id_ok(id),
        0 <= i < id.len(),
    ensures
        1 <= id.len() <= 64,
        id[i] == '_' || id[i] == '-' || 'a' <= id[i] <= 'z' || 'A' <= id[i] <= 'Z' || '0' <= id[i]
            <= '9',
        session_id_ok("default"@),
        session_id_ok(id.push('x')) <==> id.len() < 64,
{
    reveal_strlit("default");
    assert forall|k: int| 0 <= k < "default"@.len() implies session_char(
        #[trigger] "default"@[k],
    ) by {
    }
    let more = id.push('x');
    if id.len() < 64 {
        assert forall|k: int| 0 <= k < more.len() implies session_char(#[trigger] more[k]) by {
            if k < id.len() {
                assert(more[k] == id[k]);
            }
        }
    }
}

/// A message is taken exactly when it is not blank, takes no more than 32768
/// bytes, and has an id that is one: its own, or the default where it has none.
pub proof fn only_what_fits_is_taken(p: MessageSendParams)
    ensures
        p.rejection() is None <==> !is_blank_text(p.text@) && byte_len(p.text@) <= 32768
            && session_id_ok(p.session()),
        p.session_id is Some ==> p.session() == p.session_id->0@,
        p.session_id is None ==> p.session() == "default"@,
        p.rejection() matches Some((code, _)) ==> (code == "session_id_invalid"@ <==>
            !is_blank_text(p.text@) && byte_len(p.text@) <= 32768),
{
    reveal_strlit("session_id_invalid");
    reveal_strlit("invalid_request");
    assert("session_id_invalid"@.len() == 18 && "invalid_request"@.len() == 15);
}

} // verus!
