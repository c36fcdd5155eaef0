//! Delivery sinks: where a conversation's answer goes.
//!
//! A worker shapes a reply and hands it to whatever sink the submitter
//! provided. Sinks are transport only: they hold no conversation state, know
//! nothing about agents, and never interpret the session id beyond passing it
//! along. A delivery failure is a sink's own business and never reaches the
//! worker.

use crate::text::{dec, dec_i64};
use vstd::prelude::*;

verus! {

broadcast use vstd::string::group_string_axioms;

/// One thing handed to a sink.
#[derive(Debug, PartialEq, Eq)]
pub enum Delivery {
    /// Admission and trigger auditing succeeded.
    Started { session: Option<String>, agent: String },
    /// The final reply of one run.
    Reply { session: Option<String>, text: String },
    /// A "working on it" indicator.
    Typing { session: Option<String> },
    /// One raw line of output, in arrival order.
    Delta { session: Option<String>, line: String },
}

/// What a delivery says.
#[verifier::ext_equal]
pub enum DeliveryView {
    Started { session: Option<Seq<char>>, agent: Seq<char> },
    Reply { session: Option<Seq<char>>, text: Seq<char> },
    Typing { session: Option<Seq<char>> },
    Delta { session: Option<Seq<char>>, line: Seq<char> },
}

/// The view of an optional text.
pub open spec fn opt(s: Option<String>) -> Option<Seq<char>> {
    match s {
        Some(t) => Some(t@),
        None => None,
    }
}

/// The view of an optional text.
pub open spec fn opt_str(s: Option<&str>) -> Option<Seq<char>> {
    match s {
        Some(t) => Some(t@),
        None => None,
    }
}

impl View for Delivery {
    type V = DeliveryView;

    open spec fn view(&self) -> DeliveryView {
        match *self {
            Delivery::Started { session, agent } => DeliveryView::Started {
                session: opt(session),
                agent: agent@,
            },
            Delivery::Reply { session, text } => DeliveryView::Reply {
                session: opt(session),
                text: text@,
            },
            Delivery::Typing { session } => DeliveryView::Typing { session: opt(session) },
            Delivery::Delta { session, line } => DeliveryView::Delta {
                session: opt(session),
                line: line@,
            },
        }
    }
}

fn owned(s: Option<&str>) -> (r: Option<String>)
    ensures
        opt(r) == opt_str(s),
{
    match s {
        Some(t) => Some(t.to_owned()),
        None => None,
    }
}

fn borrowed(s: &Option<String>) -> (r: Option<&str>)
    ensures
        opt_str(r) == opt(*s),
{
    match s {
        Some(t) => Some(t.as_str()),
        None => None,
    }
}

/// Where a worker delivers typing indicators, streamed lines and the final
/// reply.
///
/// `session` is the trigger's opaque session id when present. A sink with no
/// concept of sessions may ignore it.
pub trait ReplySink: Sized {
    /// Everything handed to the sink so far, in order. What becomes of it is
    /// the transport's business.
    spec fn handed(&self) -> Seq<DeliveryView>;

    /// Tell the transport that admission and trigger auditing succeeded.
    fn started(&mut self, session: Option<&str>, agent: &str)
        ensures
            final(self).handed() == old(self).handed().push(
                (DeliveryView::Started { session: opt_str(session), agent: agent@ }),
            ),
    ;

    /// Deliver the final reply for one run.
    fn reply(&mut self, session: Option<&str>, text: &str)
        ensures
            final(self).handed() == old(self).handed().push(
                (DeliveryView::Reply { session: opt_str(session), text: text@ }),
            ),
    ;

    /// Show a "working on it" indicator.
    fn typing(&mut self, session: Option<&str>)
        ensures
            final(self).handed() == old(self).handed().push(
                (DeliveryView::Typing { session: opt_str(session) }),
            ),
    ;

    /// One raw line of output, in arrival order. The client interprets it;
    /// store-and-forward transports ignore it.
    fn delta(&mut self, session: Option<&str>, line: &str)
        ensures
            final(self).handed() == old(self).handed().push(
                (DeliveryView::Delta { session: opt_str(session), line: line@ }),
            ),
    ;
}

/// A sink that keeps what it is handed, for a transport to send.
#[derive(Debug, PartialEq, Eq)]
pub struct QueueSink {
    pub queue: Vec<Delivery>,
}

impl Default for QueueSink {
    fn default() -> (r: Self)
        ensures
            r.queue@.len() == 0,
    {
        QueueSink { queue: Vec::new() }
    }
}

impl QueueSink {
    fn keep(&mut self, d: Delivery)
        ensures
            final(self).handed() == old(self).handed().push(d@),
    {
        let ghost before = self.handed();
        self.queue.push(d);
        proof {
            assert(self.handed() =~= before.push(d@));
        }
    }
}

impl ReplySink for QueueSink {
    open spec fn handed(&self) -> Seq<DeliveryView> {
        self.queue@.map_values(|d: Delivery| d@)
    }

    fn started(&mut self, session: Option<&str>, agent: &str) {
        self.keep(Delivery::Started { session: owned(session), agent: agent.to_owned() });
    }

    fn reply(&mut self, session: Option<&str>, text: &str) {
        self.keep(Delivery::Reply { session: owned(session), text: text.to_owned() });
    }

    fn typing(&mut self, session: Option<&str>) {
        self.keep(Delivery::Typing { session: owned(session) });
    }

    fn delta(&mut self, session: Option<&str>, line: &str) {
        self.keep(Delivery::Delta { session: owned(session), line: line.to_owned() });
    }
}

/// Fan one conversation out to several sinks, in registration order.
pub struct FanoutSink<S> {
    pub sinks: Vec<S>,
    /// What was handed to the whole.
    pub log: Ghost<Seq<DeliveryView>>,
}

/// Whether every sink of `now` was handed `d` on top of what `before` was
/// handed.
pub open spec fn all_handed<S: ReplySink>(before: Seq<S>, now: Seq<S>, d: DeliveryView) -> bool {
    now.len() == before.len() && forall|i: int|
        0 <= i < now.len() ==> (#[trigger] now[i]).handed() == before[i].handed().push(d)
}

/// Hand one delivery to one sink.
fn hand<S: ReplySink>(sink: &mut S, d: &Delivery)
    ensures
        final(sink).handed() == old(sink).handed().push(d@),
{
    match d {
        Delivery::Started { session, agent } => {
            sink.started(borrowed(session), agent.as_str());
        },
        Delivery::Typing { session } => {
            sink.typing(borrowed(session));
        },
        Delivery::Delta { session, line } => {
            sink.delta(borrowed(session), line.as_str());
        },
        Delivery::Reply { session, text } => {
            sink.reply(borrowed(session), text.as_str());
        },
    }
}

impl<S: ReplySink> FanoutSink<S> {
    /// Fan out to these sinks.
    pub fn new(sinks: Vec<S>) -> (r: Self)
        ensures
            r.sinks@ == sinks@,
            r.handed() == Seq::<DeliveryView>::empty(),
    {
        FanoutSink { sinks, log: Ghost(Seq::empty()) }
    }

    /// Hand one delivery to every sink.
    fn hand_all(&mut self, d: &Delivery)
        ensures
            all_handed(old(self).sinks@, final(self).sinks@, d@),
            final(self).handed() == old(self).handed().push(d@),
    {
        let mut i: usize = 0;
        while i < self.sinks.len()
            invariant
                i <= self.sinks@.len(),
                self.sinks@.len() == old(self).sinks@.len(),
                self.log == old(self).log,
                forall|k: int|
                    0 <= k < i ==> (#[trigger] self.sinks@[k]).handed() == old(
                        self,
                    ).sinks@[k].handed().push(d@),
                forall|k: int|
                    i <= k < self.sinks@.len() ==> (#[trigger] self.sinks@[k]) == old(
                        self,
                    ).sinks@[k],
            decreases self.sinks@.len() - i,
        {
            hand(&mut self.sinks[i], d);
            i = i + 1;
        }
        self.log = Ghost(self.log@.push(d@));
    }
}

impl<S: ReplySink> ReplySink for FanoutSink<S> {
    open spec fn handed(&self) -> Seq<DeliveryView> {
        self.log@
    }

    fn started(&mut self, session: Option<&str>, agent: &str)
        ensures
            all_handed(
                old(self).sinks@,
                final(self).sinks@,
                (DeliveryView::Started { session: opt_str(session), agent: agent@ }),
            ),
    {
        self.hand_all(&Delivery::Started { session: owned(session), agent: agent.to_owned() });
    }

    fn reply(&mut self, session: Option<&str>, text: &str)
        ensures
            all_handed(
                old(self).sinks@,
                final(self).sinks@,
                (DeliveryView::Reply { session: opt_str(session), text: text@ }),
            ),
    {
        self.hand_all(&Delivery::Reply { session: owned(session), text: text.to_owned() });
    }

    fn typing(&mut self, session: Option<&str>)
        ensures
            all_handed(
                old(self).sinks@,
                final(self).sinks@,
                (DeliveryView::Typing { session: opt_str(session) }),
            ),
    {
        self.hand_all(&Delivery::Typing { session: owned(session) });
    }

    fn delta(&mut self, session: Option<&str>, line: &str)
        ensures
            all_handed(
                old(self).sinks@,
                final(self).sinks@,
                (DeliveryView::Delta { session: opt_str(session), line: line@ }),
            ),
    {
        self.hand_all(&Delivery::Delta { session: owned(session), line: line.to_owned() });
    }
}

// ---------------------------------------------------------------------
// Telegram
// ---------------------------------------------------------------------

/// Telegram transport.
///
/// Replies quote the message being answered, so a chat with several questions
/// in flight shows which answer belongs to which. Typing maps to the chat
/// action. Deltas are not sent: the Bot API has no streaming.
#[derive(Debug, Clone, PartialEq, Eq)]
pub struct TelegramSink {
    pub bot_token: String,
    pub chat_id: i64,
    pub message_id: Option<i64>,
    pub message_thread_id: Option<i64>,
    /// Whether posted answers are bound to their conversation.
    pub binds_threads: bool,
}

/// A call of the Bot API.
#[derive(Debug, PartialEq, Eq)]
pub enum TelegramCall {
    Reply {
        bot_token: String,
        chat_id: i64,
        message_id: Option<i64>,
        text: String,
        thread_id: Option<i64>,
    },
    Typing { bot_token: String, chat_id: i64 },
}

/// A posted answer, bound to the conversation it belongs to.
#[derive(Debug, PartialEq, Eq)]
pub struct ThreadBinding {
    pub chat_id: String,
    pub message_id: i64,
    pub session: String,
}

/// Whether `r` is what a sink posts for a delivery.
pub open spec fn posts(sink: TelegramSink, d: Delivery, r: Option<TelegramCall>) -> bool {
    match d {
        Delivery::Reply { text, .. } => r matches Some(
            TelegramCall::Reply { bot_token, chat_id, message_id, text: t, thread_id },
        ) && bot_token@ == sink.bot_token@ && chat_id == sink.chat_id && message_id
            == sink.message_id && t@ == text@ && thread_id == sink.message_thread_id,
        Delivery::Typing { .. } => r matches Some(TelegramCall::Typing { bot_token, chat_id })
            && bot_token@ == sink.bot_token@ && chat_id == sink.chat_id,
        Delivery::Started { .. } => r is None,
        Delivery::Delta { .. } => r is None,
    }
}

/// Whether `r` is the binding of a posted answer to its conversation.
pub open spec fn binds(
    sink: TelegramSink,
    session: Option<Seq<char>>,
    sent: Option<i64>,
    r: Option<ThreadBinding>,
) -> bool {
    &&& r is Some <==> sink.binds_threads && session is Some && sent is Some
    &&& r matches Some(b) ==> b.chat_id@ == dec(sink.chat_id as int) && Some(b.message_id) == sent
        && Some(b.session@) == session
}

impl TelegramSink {
    /// `message_id` is the inbound message a reply quotes. With none the answer
    /// goes out unquoted rather than being dropped.
    pub fn new(bot_token: &str, chat_id: i64, message_id: Option<i64>) -> (r: Self)
        ensures
            r.bot_token@ == bot_token@,
            r.chat_id == chat_id,
            r.message_id == message_id,
            r.message_thread_id is None,
            !r.binds_threads,
    {
        TelegramSink {
            bot_token: bot_token.to_owned(),
            chat_id,
            message_id,
            message_thread_id: None,
            binds_threads: false,
        }
    }

    /// Bind posted answers to their conversation, and target the forum topic
    /// the question came from. Only meaningful in a group.
    pub fn with_threads(self, message_thread_id: Option<i64>) -> (r: Self)
        ensures
            r == (TelegramSink { message_thread_id, binds_threads: true, ..self }),
    {
        TelegramSink { message_thread_id, binds_threads: true, ..self }
    }

    /// The call a delivery makes: a reply and the indicator reach the chat,
    /// nothing else does.
    pub fn call_for(&self, d: &Delivery) -> (r: Option<TelegramCall>)
        ensures
            posts(*self, *d, r),
    {
        match d {
            Delivery::Reply { text, .. } => Some(
                TelegramCall::Reply {
                    bot_token: self.bot_token.clone(),
                    chat_id: self.chat_id,
                    message_id: self.message_id,
                    text: text.clone(),
                    thread_id: self.message_thread_id,
                },
            ),
            Delivery::Typing { .. } => Some(
                TelegramCall::Typing { bot_token: self.bot_token.clone(), chat_id: self.chat_id },
            ),
            Delivery::Started { .. } => None,
            Delivery::Delta { .. } => None,
        }
    }

    /// What is recorded once a reply was posted: its conversation, when the
    /// chat has threads and the trigger a session. Losing the binding costs
    /// continuity on the next reply, never the answer just delivered.
    pub fn binding(&self, session: Option<&str>, sent: Option<i64>) -> (r: Option<ThreadBinding>)
        ensures
            binds(*self, opt_str(session), sent, r),
    {
        if !self.binds_threads {
            return None;
        }
        match (session, sent) {
            (Some(session), Some(message_id)) => Some(
                ThreadBinding {
                    chat_id: dec_i64(self.chat_id),
                    message_id,
                    session: session.to_owned(),
                },
            ),
            _ => None,
        }
    }
}

// ---------------------------------------------------------------------
// Laws of a chat
// ---------------------------------------------------------------------

/// A reply is posted word for word, into the chat and thread that asked, as an
/// answer to the message that asked. Only replies and the indicator are posted:
/// a start and raw lines are not.
pub proof fn a_reply_goes_back_where_it_was_asked(
    sink: TelegramSink,
    session: Option<String>,
    text: String,
    agent: String,
    reply: Option<TelegramCall>,
    typing: Option<TelegramCall>,
    started: Option<TelegramCall>,
    delta: Option<TelegramCall>,
)
    requires
        posts(sink, Delivery::Reply { session, text }, reply),
        posts(sink, Delivery::Typing { session }, typing),
        posts(sink, Delivery::Started { session, agent }, started),
        posts(sink, Delivery::Delta { session, line: text }, delta),
    ensures
        reply is Some && reply->0 is Reply,
        reply->0->Reply_chat_id == sink.chat_id && reply->0->message_id == sink.message_id
            && reply->0->thread_id == sink.message_thread_id && reply->0->text@ == text@
            && reply->0->Reply_bot_token@ == sink.bot_token@,
        typing is Some && typing->0 is Typing && typing->0->Typing_chat_id == sink.chat_id,
        started is None && delta is None,
{
}

/// A posted answer is bound to the conversation it is of, under its own chat and
/// message; without a conversation, or where nothing was posted, nothing is.
pub proof fn an_answer_is_bound_to_its_conversation(
    sink: TelegramSink,
    session: Seq<char>,
    sent: i64,
    r: Option<ThreadBinding>,
    unposted: Option<ThreadBinding>,
    loose: Option<ThreadBinding>,
)
    requires
        sink.binds_threads,
        binds(sink, Some(session), Some(sent), r),
        binds(sink, Some(session), None, unposted),
        binds(sink, None, Some(sent), loose),
    ensures
        r is Some && r->0.session@ == session && r->0.message_id == sent && r->0.chat_id@ == dec(
            sink.chat_id as int,
        ),
        unposted is None && loose is None,
{
}

} // verus!
