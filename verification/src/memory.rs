//! Long-term memory: what `dotagent memory` prints, and which facts of a run
//! or of a conversation turn are kept.

use crate::json::{
    JsonView, integer, json_text, json_view, member_of, named, no_members, object_text,
    object_value, optional_text, print_object, print_value, push_named, put_member, text_member,
    text_value, texts_value, unsigned_value,
};
use crate::manifest::{AgentManifest, ExtractorDecl};
use crate::process::{ProcessEnd, SpawnRequest};
use crate::text::{
    copy_all, dec, dec_u64, has_prefix, has_suffix, holds_text, join, joined, lemma_ends,
    lemma_holds_last, lemma_holds_more, lemma_holds_part, lemma_holds_through, lemma_in_two,
    lemma_joined_holds, one_of, same, views,
};
use serde_json::Value;
use vstd::prelude::*;

verus! {

broadcast use vstd::string::group_string_axioms;

// ---------------------------------------------------------------------
// `dotagent memory`
// ---------------------------------------------------------------------

/// A stored fact.
#[derive(Debug, PartialEq, Eq)]
pub struct Fact {
    pub id: String,
    /// The day it was written, empty for a fact that has none.
    pub date: String,
    pub text: String,
    pub topics: Vec<String>,
    /// How often it was stated.
    pub seen: u64,
    /// Which agent wrote it, and from where.
    pub agent: Option<String>,
    pub source: Option<String>,
}

/// An optional text as JSON.
pub open spec fn optional_view(s: Option<String>) -> JsonView {
    match s {
        Some(t) => JsonView::Text(t@),
        None => JsonView::Null,
    }
}

/// A fact as JSON.
pub open spec fn fact_view(m: Fact) -> JsonView {
    JsonView::Table(
        Map::<Seq<char>, JsonView>::empty().insert("id"@, JsonView::Text(m.id@)).insert(
            "date"@,
            JsonView::Text(m.date@),
        ).insert("text"@, JsonView::Text(m.text@)).insert(
            "topics"@,
            JsonView::List(m.topics@.map_values(|t: String| JsonView::Text(t@))),
        ).insert("seen"@, integer(m.seen as int)).insert("agent"@, optional_view(m.agent)).insert(
            "source"@,
            optional_view(m.source),
        ),
    )
}

/// A fact as a line. The id leads, because the follow-up move takes it.
pub open spec fn fact_line(m: Fact) -> Seq<char> {
    let head = "["@ + m.id@ + "] "@;
    let dated = if m.date@.len() == 0 {
        head
    } else {
        head + m.date@ + ": "@
    };
    let text = dated + m.text@;
    let topics = if m.topics@.len() == 0 {
        text
    } else {
        text + " ("@ + joined(views(m.topics@), ", "@) + ")"@
    };
    if m.seen > 1 {
        topics + " ×"@ + dec(m.seen as int)
    } else {
        topics
    }
}

/// What is printed of a fact.
pub open spec fn fact_text(m: Fact, json: bool) -> Seq<char> {
    if json {
        json_text(fact_view(m))
    } else {
        fact_line(m)
    }
}

/// A fact as a JSON value.
pub fn fact_value(m: &Fact) -> (r: Value)
    ensures
        json_view(r) == fact_view(*m),
{
    let mut members = no_members();
    put_member(&mut members, "id", text_value(m.id.as_str()));
    put_member(&mut members, "date", text_value(m.date.as_str()));
    put_member(&mut members, "text", text_value(m.text.as_str()));
    put_member(&mut members, "topics", texts_value(m.topics.as_slice()));
    put_member(&mut members, "seen", unsigned_value(m.seen));
    put_member(&mut members, "agent", optional_text(&m.agent));
    put_member(&mut members, "source", optional_text(&m.source));
    object_value(members)
}

/// One fact as a line: JSON is a stable contract for scripting, the other form
/// is for reading.
pub fn render(m: &Fact, json: bool) -> (r: String)
    ensures
        r@ == fact_text(*m, json),
{
    if json {
        return print_value(&fact_value(m));
    }
    let mut line = "[".to_owned();
    line.append(m.id.as_str());
    line.append("] ");
    if !m.date.as_str().is_empty() {
        line.append(m.date.as_str());
        line.append(": ");
    }
    line.append(m.text.as_str());
    if m.topics.len() > 0 {
        line.append(" (");
        line.append(join(m.topics.as_slice(), ", ").as_str());
        line.append(")");
    }
    if m.seen > 1 {
        line.append(" ×");
        line.append(dec_u64(m.seen).as_str());
    }
    line
}

/// What is printed of a list of facts.
pub open spec fn fact_lines(hits: Seq<Fact>, json: bool) -> Seq<char>
    decreases hits.len(),
{
    if hits.len() == 0 {
        Seq::empty()
    } else {
        fact_lines(hits.drop_last(), json) + fact_text(hits.last(), json) + "\n"@
    }
}

/// The facts that are shown. A search asks the store for no more than `limit`;
/// a topic gives back every fact linked to it, of which the first are shown.
pub open spec fn shown(hits: Seq<Fact>, by_topic: bool, limit: nat) -> Seq<Fact> {
    if by_topic && hits.len() > limit {
        hits.take(limit as int)
    } else {
        hits
    }
}

/// What a search shows.
pub open spec fn recalled(kept: Seq<Fact>, json: bool) -> Seq<char> {
    if kept.len() == 0 && !json {
        "Nothing remembered about that.\n"@
    } else {
        fact_lines(kept, json)
    }
}

/// What `recall` prints: one line per fact. With none, a person is told so;
/// a script gets no line.
pub fn recall(hits: Vec<Fact>, by_topic: bool, limit: usize, json: bool) -> (r: String)
    ensures
        r@ == recalled(shown(hits@, by_topic, limit as nat), json),
{
    let ghost kept = shown(hits@, by_topic, limit as nat);
    let mut hits = hits;
    if by_topic {
        hits.truncate(limit);
    }
    assert(hits@ =~= kept);
    if hits.len() == 0 && !json {
        return "Nothing remembered about that.\n".to_owned();
    }
    let mut out = String::new();
    let mut i: usize = 0;
    proof {
        assert(hits@.take(0) =~= Seq::<Fact>::empty());
    }
    while i < hits.len()
        invariant
            i <= hits@.len(),
            out@ == fact_lines(hits@.take(i as int), json),
        decreases hits@.len() - i,
    {
        proof {
            assert(hits@.take(i as int + 1).drop_last() =~= hits@.take(i as int));
        }
        out.append(render(&hits[i], json).as_str());
        out.append("\n");
        i = i + 1;
    }
    proof {
        assert(hits@.take(hits@.len() as int) =~= hits@);
    }
    out
}

/// What is said of a fact that was stored.
pub open spec fn stored_text(m: Fact) -> Seq<char> {
    (if m.seen > 1 {
        "Reinforced"@
    } else {
        "Remembered"@
    }) + " ["@ + m.id@ + "]: "@ + m.text@ + "\n"@
}

/// What is said of a fact that replaced another.
pub open spec fn replaced_text(m: Fact) -> Seq<char> {
    "Replaced ["@ + m.id@ + "]: "@ + m.text@ + "\n"@
}

/// Whether `r` is what deleting a fact comes to.
pub open spec fn forgot(id: Seq<char>, forgotten: bool, r: Result<String, String>) -> bool {
    match r {
        Ok(t) => forgotten && t@ == "Forgotten.\n"@,
        Err(e) => !forgotten && e@ == "no memory with id "@ + id,
    }
}

/// The list of topics.
pub open spec fn topics_text(names: Seq<Seq<char>>) -> Seq<char> {
    if names.len() == 0 {
        "No topics yet.\n"@
    } else {
        joined(names, "\n"@) + "\n"@
    }
}

/// What `remember` prints. A fact stated before was reinforced: saying
/// "remembered" there would be a small lie.
pub fn remember(m: &Fact) -> (r: String)
    ensures
        r@ == stored_text(*m),
{
    let mut out = if m.seen > 1 {
        "Reinforced".to_owned()
    } else {
        "Remembered".to_owned()
    };
    out.append(" [");
    out.append(m.id.as_str());
    out.append("]: ");
    out.append(m.text.as_str());
    out.append("\n");
    out
}

/// What `supersede` prints.
pub fn supersede(m: &Fact) -> (r: String)
    ensures
        r@ == replaced_text(*m),
{
    let mut out = "Replaced [".to_owned();
    out.append(m.id.as_str());
    out.append("]: ");
    out.append(m.text.as_str());
    out.append("\n");
    out
}

/// What `forget` prints, or the error it ends with.
pub fn forget(id: &str, forgotten: bool) -> (r: Result<String, String>)
    ensures
        forgot(id@, forgotten, r),
{
    if forgotten {
        return Ok("Forgotten.\n".to_owned());
    }
    let mut out = "no memory with id ".to_owned();
    out.append(id);
    Err(out)
}

/// What `topics` prints.
pub fn topics(names: &Vec<String>) -> (r: String)
    ensures
        r@ == topics_text(views(names@)),
{
    if names.len() == 0 {
        return "No topics yet.\n".to_owned();
    }
    let mut out = join(names.as_slice(), "\n");
    out.append("\n");
    out
}

/// How much there is in the store.
#[derive(Debug, Clone, Copy, PartialEq, Eq, Structural)]
pub struct Stats {
    pub live: u64,
    pub reinforced: u64,
    pub superseded: u64,
    pub topics: u64,
}

/// The numbers of a store, one to a line.
pub open spec fn stats_text(s: Stats) -> Seq<char> {
    "facts:      "@ + dec(s.live as int) + "\nreinforced: "@ + dec(s.reinforced as int)
        + "\nsuperseded: "@ + dec(s.superseded as int) + "\ntopics:     "@ + dec(s.topics as int)
        + "\n"@
}

/// What `stats` prints.
pub fn stats(s: Stats) -> (r: String)
    ensures
        r@ == stats_text(s),
{
    let mut out = "facts:      ".to_owned();
    out.append(dec_u64(s.live).as_str());
    out.append("\nreinforced: ");
    out.append(dec_u64(s.reinforced).as_str());
    out.append("\nsuperseded: ");
    out.append(dec_u64(s.superseded).as_str());
    out.append("\ntopics:     ");
    out.append(dec_u64(s.topics).as_str());
    out.append("\n");
    out
}

// ---------------------------------------------------------------------
// Capture
// ---------------------------------------------------------------------

/// A fact an output asked to store.
#[derive(Debug, Clone, PartialEq, Eq)]
pub struct CapturedMemo {
    pub text: String,
    pub topics: Vec<String>,
}

/// What a captured fact says.
#[verifier::ext_equal]
pub struct MemoView {
    pub text: Seq<char>,
    pub topics: Seq<Seq<char>>,
}

impl View for CapturedMemo {
    type V = MemoView;

    open spec fn view(&self) -> MemoView {
        MemoView { text: self.text@, topics: views(self.topics@) }
    }
}

/// What a list of captured facts says.
pub open spec fn memo_views(memos: Seq<CapturedMemo>) -> Seq<MemoView> {
    memos.map_values(|m: CapturedMemo| m@)
}

/// Whether a run's facts are filed: the manifest opted in, the harness does
/// not already capture from the reply, and the run succeeded. A failing run's
/// output is a symptom, not a durable fact.
pub open spec fn files_facts(m: AgentManifest, exit_code: i32) -> bool {
    &&& m.memory matches Some(d) && d.capture
    &&& !(m.assistant matches Some(a) && a.enabled && a.memory)
    &&& exit_code == 0
}

/// `topics`, with those of `more` that are not in it yet.
pub open spec fn with_topics(topics: Seq<Seq<char>>, more: Seq<Seq<char>>) -> Seq<Seq<char>>
    decreases more.len(),
{
    if more.len() == 0 {
        topics
    } else {
        let before = with_topics(topics, more.drop_last());
        if before.contains(more.last()) {
            before
        } else {
            before.push(more.last())
        }
    }
}

/// The topics a manifest gives to every fact of its agent.
pub open spec fn manifest_topics(m: AgentManifest) -> Seq<Seq<char>> {
    match m.memory {
        Some(d) => views(d.topics@),
        None => Seq::empty(),
    }
}

/// `memos`, each with the manifest's topics.
pub open spec fn tagged(m: AgentManifest, memos: Seq<MemoView>) -> Seq<MemoView> {
    memos.map_values(
        |memo: MemoView|
            MemoView { text: memo.text, topics: with_topics(memo.topics, manifest_topics(m)) },
    )
}

/// What is filed of what a run's output asked to store.
pub open spec fn captured(m: AgentManifest, exit_code: i32, memos: Seq<MemoView>) -> Seq<MemoView> {
    if !files_facts(m, exit_code) {
        Seq::empty()
    } else {
        tagged(m, memos)
    }
}

fn append_topics(topics: &mut Vec<String>, more: &Vec<String>)
    ensures
        views(final(topics)@) == with_topics(views(old(topics)@), views(more@)),
{
    let ghost start = views(topics@);
    let ghost all = views(more@);
    let mut i: usize = 0;
    proof {
        assert(all.take(0) =~= Seq::<Seq<char>>::empty());
    }
    while i < more.len()
        invariant
            i <= more@.len(),
            all == views(more@),
            views(topics@) == with_topics(start, all.take(i as int)),
        decreases more@.len() - i,
    {
        let ghost before = views(topics@);
        proof {
            assert(all.take(i as int + 1).drop_last() =~= all.take(i as int));
            assert(all.take(i as int + 1).last() == more@[i as int]@);
        }
        if !one_of(topics.as_slice(), more[i].as_str()) {
            topics.push(more[i].clone());
            proof {
                assert(views(topics@) =~= before.push(more@[i as int]@));
            }
        }
        i = i + 1;
    }
    proof {
        assert(all.take(all.len() as int) =~= all);
    }
}

/// `memos`, each with the manifest's topics.
pub fn add_topics(manifest: &AgentManifest, memos: Vec<CapturedMemo>) -> (r: Vec<CapturedMemo>)
    ensures
        memo_views(r@) == tagged(*manifest, memo_views(memos@)),
{
    let ghost all = memos@;
    let ghost wanted = tagged(*manifest, memo_views(all));
    let mut out: Vec<CapturedMemo> = Vec::new();
    let mut left = memos;
    assert(left@ =~= all.skip(0));
    while left.len() > 0
        invariant
            left@.len() + out@.len() == all.len(),
            left@ == all.skip(out@.len() as int),
            wanted == tagged(*manifest, memo_views(all)),
            wanted.len() == all.len(),
            forall|k: int| 0 <= k < out@.len() ==> #[trigger] out@[k]@ == wanted[k],
        decreases left@.len(),
    {
        let memo = left.remove(0);
        let ghost at = out@.len() as int;
        proof {
            assert(memo == all[at]);
            assert(memo_views(all)[at] == all[at]@);
        }
        let mut topics = memo.topics;
        if let Some(decl) = &manifest.memory {
            append_topics(&mut topics, &decl.topics);
        }
        out.push(CapturedMemo { text: memo.text, topics });
        proof {
            assert(left@ =~= all.skip(out@.len() as int));
            assert(out@[at]@ == wanted[at]);
        }
    }
    proof {
        assert(memo_views(out@) =~= wanted);
    }
    out
}

/// The facts a run files, out of the ones its output asked to store.
pub fn capture(manifest: &AgentManifest, memos: Vec<CapturedMemo>, exit_code: i32) -> (r: Vec<
    CapturedMemo,
>)
    ensures
        memo_views(r@) == captured(*manifest, exit_code, memo_views(memos@)),
{
    let opted_in = match &manifest.memory {
        Some(d) => d.capture,
        None => false,
    };
    let harness = match &manifest.assistant {
        Some(a) => a.enabled && a.memory,
        None => false,
    };
    if !opted_in || harness || exit_code != 0 {
        let none: Vec<CapturedMemo> = Vec::new();
        proof {
            assert(memo_views(none@) =~= Seq::<MemoView>::empty());
        }
        return none;
    }
    add_topics(manifest, memos)
}

/// Every fact a run files carries the manifest's topics, names none of them
/// twice on that account, and keeps its own in front.
pub proof fn topics_are_added_once(topics: Seq<Seq<char>>, more: Seq<Seq<char>>)
    ensures
        topics.len() <= with_topics(topics, more).len(),
        with_topics(topics, more).take(topics.len() as int) == topics,
        forall|t: Seq<char>| more.contains(t) ==> #[trigger] with_topics(topics, more).contains(t),
        topics.no_duplicates() ==> with_topics(topics, more).no_duplicates(),
    decreases more.len(),
{
    let all = with_topics(topics, more);
    if more.len() > 0 {
        let head = more.drop_last();
        let before = with_topics(topics, head);
        topics_are_added_once(topics, head);
        if !before.contains(more.last()) {
            assert(all.take(topics.len() as int) =~= before.take(topics.len() as int));
            assert(all[before.len() as int] == more.last());
        }
        assert forall|t: Seq<char>| more.contains(t) implies #[trigger] all.contains(t) by {
            let i = choose|i: int| 0 <= i < more.len() && more[i] == t;
            if i < head.len() {
                assert(head[i] == t);
                assert(before.contains(t));
                let k = choose|k: int| 0 <= k < before.len() && before[k] == t;
                assert(all[k] == t);
            }
        }
    } else {
        assert(all.take(topics.len() as int) =~= topics);
    }
}

// ---------------------------------------------------------------------
// Extraction
// ---------------------------------------------------------------------

/// The turn handed to the extractor: just the turn, so that the prompt does
/// not grow without bound.
pub open spec fn turn_members(
    message: Seq<char>,
    reply: Seq<char>,
    source: Seq<char>,
    session: Option<String>,
) -> Seq<(Seq<char>, JsonView)> {
    seq![
        ("message"@, JsonView::Text(message)),
        ("reply"@, JsonView::Text(reply)),
        ("source"@, JsonView::Text(source)),
        (
            "session"@,
            match session {
                Some(s) => JsonView::Text(s@),
                None => JsonView::Null,
            },
        ),
    ]
}

/// The turn handed to the extractor, as one JSON object.
pub fn turn_json(message: &str, reply: &str, source: &str, session: &Option<String>) -> (r: String)
    ensures
        r@ == object_text(turn_members(message@, reply@, source@, *session)),
{
    let mut members: Vec<(&str, Value)> = Vec::new();
    push_named(&mut members, "message", text_value(message));
    push_named(&mut members, "reply", text_value(reply));
    push_named(&mut members, "source", text_value(source));
    push_named(&mut members, "session", optional_text(session));
    proof {
        assert(named(members@) =~= turn_members(message@, reply@, source@, *session));
    }
    print_object(&members)
}

/// Whether `r` starts the extractor that was declared.
pub open spec fn runs_extractor(cfg: ExtractorDecl, r: SpawnRequest) -> bool {
    &&& r.program@ == cfg.command@
    &&& r.args@ == cfg.args@
    &&& r.owner_agent@ == "memory-extractor"@
    &&& r.owner_plugin is None
    &&& r.deadline_seconds == cfg.timeout_seconds
    &&& r.label@ == "memory:extract"@
}

/// The child an extractor runs as.
pub fn extractor_request(cfg: &ExtractorDecl) -> (r: SpawnRequest)
    ensures
        runs_extractor(*cfg, r),
{
    SpawnRequest {
        program: cfg.command.clone(),
        args: copy_all(cfg.args.as_slice()),
        owner_agent: "memory-extractor".to_owned(),
        owner_plugin: None,
        deadline_seconds: cfg.timeout_seconds,
        label: "memory:extract".to_owned(),
    }
}

/// The facts that an extractor found, given how it ended.
pub open spec fn extracted_by(
    wrote: bool,
    end: ProcessEnd,
    memos: Seq<CapturedMemo>,
) -> Seq<CapturedMemo> {
    if wrote && (end matches ProcessEnd::Finished { code, .. } && code == Some(0i32)) {
        memos
    } else {
        Seq::empty()
    }
}

/// What an extractor's run adds: the facts its output asked to store, when the
/// turn reached it and it succeeded, otherwise none. An extractor that is
/// missing, slow or broken costs no reply.
pub fn extract(wrote: bool, end: &ProcessEnd, memos: Vec<CapturedMemo>) -> (r: Vec<CapturedMemo>)
    ensures
        r@ == extracted_by(wrote, *end, memos@),
{
    if wrote {
        if let ProcessEnd::Finished { code: Some(code), .. } = end {
            if *code == 0 {
                return memos;
            }
        }
    }
    Vec::new()
}

/// A captured fact, with the key the store tells facts apart by.
#[derive(Debug, PartialEq, Eq)]
pub struct KeyedMemo {
    pub memo: CapturedMemo,
    pub key: String,
}

/// The keys of a list of facts.
pub open spec fn keys_of(memos: Seq<KeyedMemo>) -> Seq<Seq<char>> {
    memos.map_values(|m: KeyedMemo| m.key@)
}

/// What was volunteered, then what was extracted and is not in it yet.
pub open spec fn merged(volunteered: Seq<KeyedMemo>, extracted: Seq<KeyedMemo>) -> Seq<KeyedMemo>
    decreases extracted.len(),
{
    if extracted.len() == 0 {
        volunteered
    } else {
        let before = merged(volunteered, extracted.drop_last());
        if keys_of(before).contains(extracted.last().key@) {
            before
        } else {
            before.push(extracted.last())
        }
    }
}

fn has_key(memos: &Vec<KeyedMemo>, key: &str) -> (r: bool)
    ensures
        r == keys_of(memos@).contains(key@),
{
    let mut i: usize = 0;
    while i < memos.len()
        invariant
            i <= memos@.len(),
            forall|k: int| 0 <= k < i ==> #[trigger] keys_of(memos@)[k] != key@,
        decreases memos@.len() - i,
    {
        if same(memos[i].key.as_str(), key) {
            proof {
                assert(keys_of(memos@)[i as int] == key@);
            }
            return true;
        }
        proof {
            assert(keys_of(memos@)[i as int] == memos@[i as int].key@);
        }
        i = i + 1;
    }
    false
}

/// Merge what the model volunteered with what the extractor found. Two sources
/// that describe the same thing collapse to one, by the store's own key.
pub fn merge(volunteered: Vec<KeyedMemo>, extracted: Vec<KeyedMemo>) -> (r: Vec<KeyedMemo>)
    ensures
        r@ == merged(volunteered@, extracted@),
{
    let ghost start = volunteered@;
    let ghost all = extracted@;
    let mut out = volunteered;
    let mut left = extracted;
    let ghost mut done: int = 0;
    proof {
        assert(all.take(0) =~= Seq::<KeyedMemo>::empty());
        assert(all.skip(0) =~= all);
    }
    while left.len() > 0
        invariant
            0 <= done <= all.len(),
            left@.len() == all.len() - done,
            left@ == all.skip(done),
            out@ == merged(start, all.take(done)),
        decreases left@.len(),
    {
        let item = left.remove(0);
        proof {
            assert(item == all[done]);
            assert(all.take(done + 1).drop_last() =~= all.take(done));
            assert(all.take(done + 1).last() == item);
        }
        if !has_key(&out, item.key.as_str()) {
            out.push(item);
        }
        proof {
            done = done + 1;
            assert(left@ =~= all.skip(done));
        }
    }
    proof {
        assert(all.take(all.len() as int) =~= all);
    }
    out
}

/// Nothing the model volunteered is lost, nothing extracted is lost unless a
/// fact of the same key is kept, and what is added never repeats a key.
pub proof fn merging_keeps_every_fact_once(volunteered: Seq<KeyedMemo>, extracted: Seq<KeyedMemo>)
    ensures
        volunteered.len() <= merged(volunteered, extracted).len(),
        merged(volunteered, extracted).take(volunteered.len() as int) == volunteered,
        forall|i: int|
            0 <= i < extracted.len() ==> keys_of(merged(volunteered, extracted)).contains(
                #[trigger] extracted[i].key@,
            ),
        keys_of(volunteered).no_duplicates() ==> keys_of(
            merged(volunteered, extracted),
        ).no_duplicates(),
    decreases extracted.len(),
{
    let all = merged(volunteered, extracted);
    if extracted.len() > 0 {
        let head = extracted.drop_last();
        let before = merged(volunteered, head);
        merging_keeps_every_fact_once(volunteered, head);
        let new = extracted.last();
        if !keys_of(before).contains(new.key@) {
            assert(keys_of(all) =~= keys_of(before).push(new.key@));
            assert(all.take(volunteered.len() as int) =~= before.take(volunteered.len() as int));
            assert(keys_of(all)[before.len() as int] == new.key@);
        }
        assert forall|i: int| 0 <= i < extracted.len() implies keys_of(all).contains(
            #[trigger] extracted[i].key@,
        ) by {
            if i < head.len() {
                assert(head[i] == extracted[i]);
                assert(keys_of(before).contains(head[i].key@));
                let k = choose|k: int|
                    0 <= k < keys_of(before).len() && keys_of(before)[k] == head[i].key@;
                assert(keys_of(all)[k] == head[i].key@);
            }
        }
    } else {
        assert(all.take(volunteered.len() as int) =~= volunteered);
    }
}

// ---------------------------------------------------------------------
// Laws of memory
// ---------------------------------------------------------------------

proof fn lemma_fact_names()
    ensures
        "id"@ != "date"@ && "id"@ != "text"@ && "id"@ != "topics"@ && "id"@ != "seen"@ && "id"@
            != "agent"@ && "id"@ != "source"@,
        "date"@ != "text"@ && "date"@ != "topics"@ && "date"@ != "seen"@ && "date"@ != "agent"@
            && "date"@ != "source"@,
        "text"@ != "topics"@ && "text"@ != "seen"@ && "text"@ != "agent"@ && "text"@ != "source"@,
        "topics"@ != "seen"@ && "topics"@ != "agent"@ && "topics"@ != "source"@,
        "seen"@ != "agent"@ && "seen"@ != "source"@ && "agent"@ != "source"@,
{
    reveal_strlit("id");
    reveal_strlit("date");
    reveal_strlit("text");
    reveal_strlit("topics");
    reveal_strlit("seen");
    reveal_strlit("agent");
    reveal_strlit("source");
    assert("id"@.len() == 2 && "date"@.len() == 4 && "text"@.len() == 4 && "topics"@.len() == 6
        && "seen"@.len() == 4 && "agent"@.len() == 5 && "source"@.len() == 6);
    assert("date"@[0] == 'd' && "text"@[0] == 't' && "seen"@[0] == 's');
    assert("topics"@[0] == 't' && "source"@[0] == 's');
}

/// A fact as a value has every part of it under that part's own name.
pub proof fn a_fact_is_given_part_by_part(m: Fact)
    ensures
        text_member(fact_view(m), "id"@) == Some(m.id@),
        text_member(fact_view(m), "date"@) == Some(m.date@),
        text_member(fact_view(m), "text"@) == Some(m.text@),
        member_of(fact_view(m), "topics"@) matches Some(JsonView::List(l)) && l.len()
            == m.topics@.len() && forall|i: int|
            0 <= i < l.len() ==> l[i] == JsonView::Text((#[trigger] m.topics@[i])@),
        member_of(fact_view(m), "seen"@) == Some(integer(m.seen as int)),
        m.agent is Some ==> text_member(fact_view(m), "agent"@) == Some(m.agent->0@),
        m.agent is None ==> member_of(fact_view(m), "agent"@) == Some(JsonView::Null),
        m.source is Some ==> text_member(fact_view(m), "source"@) == Some(m.source->0@),
        m.source is None ==> member_of(fact_view(m), "source"@) == Some(JsonView::Null),
        fact_text(m, true) == json_text(fact_view(m)),
        fact_text(m, false) == fact_line(m),
{
    lemma_fact_names();
}

/// A fact as a line has its id first, then its words, each of its topics, and how
/// often it was stated where that was more than once.
#[verifier::rlimit(30)]
pub proof fn a_fact_is_written_on_one_line(m: Fact, i: int)
    ensures
        has_prefix(fact_line(m), "["@ + m.id@ + "] "@),
        holds_text(fact_line(m), m.text@),
        m.date@.len() > 0 ==> holds_text(fact_line(m), m.date@ + ": "@ + m.text@),
        0 <= i < m.topics@.len() ==> holds_text(fact_line(m), m.topics@[i]@),
        m.seen > 1 ==> has_suffix(fact_line(m), " ×"@ + dec(m.seen as int)),
{
    let head = "["@ + m.id@ + "] "@;
    let dated = if m.date@.len() == 0 {
        head
    } else {
        head + m.date@ + ": "@
    };
    let none = Seq::<char>::empty();
    let list = joined(views(m.topics@), ", "@);
    let topics = if m.topics@.len() == 0 {
        none
    } else {
        " ("@ + list + ")"@
    };
    let seen = if m.seen > 1 {
        " ×"@ + dec(m.seen as int)
    } else {
        none
    };
    let line = fact_line(m);
    assert(line =~= dated + m.text@ + (topics + seen));
    lemma_holds_part(line, dated, m.text@, topics + seen);
    assert(line =~= head + line.skip(head.len() as int));
    lemma_ends(head, line.skip(head.len() as int));
    if m.date@.len() > 0 {
        let part = m.date@ + ": "@ + m.text@;
        assert(line =~= head + part + (topics + seen));
        lemma_holds_part(line, head, part, topics + seen);
    }
    if 0 <= i < m.topics@.len() {
        let before = dated + m.text@ + " ("@;
        assert(line =~= before + list + (")"@ + seen));
        lemma_holds_part(line, before, list, ")"@ + seen);
        lemma_joined_holds(views(m.topics@), ", "@, i);
        lemma_holds_through(line, list, m.topics@[i]@);
    }
    if m.seen > 1 {
        assert(line =~= (dated + m.text@ + topics) + seen);
        lemma_ends(dated + m.text@ + topics, seen);
    }
}

proof fn lemma_lines_hold(hits: Seq<Fact>, json: bool, i: int)
    requires
        0 <= i < hits.len(),
    ensures
        holds_text(fact_lines(hits, json), fact_text(hits[i], json) + "\n"@),
    decreases hits.len(),
{
    let head = hits.drop_last();
    let before = fact_lines(head, json);
    let last = fact_text(hits.last(), json) + "\n"@;
    let all = fact_lines(hits, json);
    assert(all =~= before + last);
    if i < head.len() {
        lemma_lines_hold(head, json, i);
        assert(head[i] == hits[i]);
        lemma_holds_more(before, fact_text(hits[i], json) + "\n"@, last);
    } else {
        lemma_holds_last(before, last);
    }
}

/// A search shows what it found, each fact on its own line. A search by topic
/// shows the first ones up to the limit; a search by words, which is limited where
/// it is made, all of them.
pub proof fn a_search_shows_what_it_found(
    hits: Seq<Fact>,
    by_topic: bool,
    limit: nat,
    json: bool,
    i: int,
)
    requires
        0 <= i < shown(hits, by_topic, limit).len(),
    ensures
        shown(hits, by_topic, limit)[i] == hits[i],
        !by_topic ==> shown(hits, by_topic, limit) == hits,
        by_topic && hits.len() > limit ==> shown(hits, by_topic, limit).len() == limit,
        by_topic && hits.len() <= limit ==> shown(hits, by_topic, limit) == hits,
        holds_text(
            recalled(shown(hits, by_topic, limit), json),
            fact_text(hits[i], json) + "\n"@,
        ),
        recalled(Seq::empty(), true).len() == 0,
{
    lemma_lines_hold(shown(hits, by_topic, limit), json, i);
}

/// What is said of a fact has its id and its words; a fact that was known before
/// is said to be reinforced, and no other is.
pub proof fn what_is_said_of_a_fact_names_it(
    m: Fact,
    other: Fact,
    id: Seq<char>,
    forgotten: bool,
    r: Result<String, String>,
)
    requires
        forgot(id, forgotten, r),
        m.seen > 1,
        other.seen <= 1,
    ensures
        has_prefix(stored_text(m), "Reinforced"@) && has_prefix(stored_text(other), "Remembered"@),
        holds_text(stored_text(m), "["@ + m.id@ + "]: "@ + m.text@),
        holds_text(stored_text(other), "["@ + other.id@ + "]: "@ + other.text@),
        holds_text(replaced_text(m), "["@ + m.id@ + "]: "@ + m.text@),
        r is Ok <==> forgotten,
        r is Err ==> has_suffix(r->Err_0@, id),
{
    lemma_stored("Reinforced"@, m.id@, m.text@);
    lemma_stored("Remembered"@, other.id@, other.text@);
    reveal_strlit("Replaced [");
    reveal_strlit("[");
    let lead = "Replaced ["@.drop_last();
    let part = "["@ + m.id@ + "]: "@ + m.text@;
    assert(replaced_text(m) =~= lead + part + "\n"@);
    lemma_holds_part(replaced_text(m), lead, part, "\n"@);
    lemma_ends("no memory with id "@, id);
}

proof fn lemma_stored(verb: Seq<char>, id: Seq<char>, text: Seq<char>)
    ensures
        has_prefix(verb + " ["@ + id + "]: "@ + text + "\n"@, verb),
        holds_text(verb + " ["@ + id + "]: "@ + text + "\n"@, "["@ + id + "]: "@ + text),
{
    let said = verb + " ["@ + id + "]: "@ + text + "\n"@;
    assert(said =~= verb + (" ["@ + id + "]: "@ + text + "\n"@));
    lemma_ends(verb, " ["@ + id + "]: "@ + text + "\n"@);
    reveal_strlit(" [");
    reveal_strlit("[");
    let gap = " ["@.drop_last();
    let part = "["@ + id + "]: "@ + text;
    assert(said =~= (verb + gap) + part + "\n"@);
    lemma_holds_part(said, verb + gap, part, "\n"@);
}

/// Every topic is listed.
pub proof fn every_topic_is_listed(names: Seq<Seq<char>>, i: int)
    requires
        0 <= i < names.len(),
    ensures
        holds_text(topics_text(names), names[i]),
{
    lemma_joined_holds(names, "\n"@, i);
    lemma_holds_more(joined(names, "\n"@), names[i], "\n"@);
}

/// Each number stands behind its own name.
pub proof fn every_number_has_its_own_line(s: Stats)
    ensures
        has_prefix(stats_text(s), "facts:      "@ + dec(s.live as int) + "\n"@),
        holds_text(stats_text(s), "\nreinforced: "@ + dec(s.reinforced as int) + "\n"@),
        holds_text(stats_text(s), "\nsuperseded: "@ + dec(s.superseded as int) + "\n"@),
        has_suffix(stats_text(s), "\ntopics:     "@ + dec(s.topics as int) + "\n"@),
{
    reveal_strlit("\n");
    reveal_strlit("\nreinforced: ");
    reveal_strlit("\nsuperseded: ");
    reveal_strlit("\ntopics:     ");
    let a = "facts:      "@ + dec(s.live as int);
    let b = "\nreinforced: "@ + dec(s.reinforced as int);
    let c = "\nsuperseded: "@ + dec(s.superseded as int);
    let d = "\ntopics:     "@ + dec(s.topics as int) + "\n"@;
    let said = stats_text(s);
    lemma_in_two(a, "\nreinforced: "@, dec(s.reinforced as int));
    lemma_in_two(a + b, "\nsuperseded: "@, dec(s.superseded as int));
    lemma_in_two(a + b + c, "\ntopics:     "@, dec(s.topics as int));
    lemma_in_two(a + b + c, "\ntopics:     "@ + dec(s.topics as int), "\n"@);
    assert(said == a + b + c + d);
    lemma_ends(a + b + c, d);
    let one = "\n"@;
    assert(b =~= one + b.skip(1));
    assert(c =~= one + c.skip(1));
    assert(d =~= one + d.skip(1));
    assert(said =~= (a + one) + (b.skip(1) + c + d));
    lemma_ends(a + one, b.skip(1) + c + d);
    assert(said =~= a + (b + one) + (c.skip(1) + d));
    lemma_holds_part(said, a, b + one, c.skip(1) + d);
    assert(said =~= (a + b) + (c + one) + d.skip(1));
    lemma_holds_part(said, a + b, c + one, d.skip(1));
}

/// Facts are filed only of a run that succeeded, of an agent whose manifest asks
/// for it and whose harness does not do it; each keeps its words and its own
/// topics, and gets every topic of the manifest.
pub proof fn a_fact_is_filed_with_its_topics(
    m: AgentManifest,
    exit_code: i32,
    memos: Seq<MemoView>,
    i: int,
    topic: Seq<char>,
)
    requires
        0 <= i < memos.len(),
    ensures
        exit_code != 0 || m.memory is None || !m.memory->0.capture ==> captured(
            m,
            exit_code,
            memos,
        ).len() == 0,
        m.assistant is Some && m.assistant->0.enabled && m.assistant->0.memory ==> captured(
            m,
            exit_code,
            memos,
        ).len() == 0,
        files_facts(m, exit_code) ==> captured(m, exit_code, memos).len() == memos.len()
            && captured(m, exit_code, memos)[i].text == memos[i].text && (captured(
            m,
            exit_code,
            memos,
        )[i].topics.contains(topic) <==> memos[i].topics.contains(topic) || manifest_topics(
            m,
        ).contains(topic)),
{
    lemma_with_topics(memos[i].topics, manifest_topics(m), topic);
}

proof fn lemma_with_topics(topics: Seq<Seq<char>>, more: Seq<Seq<char>>, t: Seq<char>)
    ensures
        with_topics(topics, more).contains(t) <==> topics.contains(t) || more.contains(t),
    decreases more.len(),
{
    if more.len() > 0 {
        let head = more.drop_last();
        let before = with_topics(topics, head);
        let all = with_topics(topics, more);
        lemma_with_topics(topics, head, t);
        if more.contains(t) {
            let k = choose|k: int| 0 <= k < more.len() && more[k] == t;
            if k < head.len() {
                assert(head[k] == t);
            } else if !before.contains(t) {
                assert(all.last() == t);
            }
        }
        if head.contains(t) {
            let k = choose|k: int| 0 <= k < head.len() && head[k] == t;
            assert(more[k] == t);
        }
        if before.contains(t) {
            let k = choose|k: int| 0 <= k < before.len() && before[k] == t;
            assert(all[k] == t);
        }
        if all.contains(t) {
            let k = choose|k: int| 0 <= k < all.len() && all[k] == t;
            if k < before.len() {
                assert(before[k] == t);
            } else {
                assert(more.last() == t);
            }
        }
    }
}

/// An extractor is handed the turn with what was said and what was replied, each
/// under its own name, and where it came from.
pub proof fn a_turn_is_handed_over_part_by_part(
    message: Seq<char>,
    reply: Seq<char>,
    source: Seq<char>,
    session: Option<String>,
    i: int,
)
    requires
        0 <= i < turn_members(message, reply, source, session).len(),
    ensures
        ({
            let all = turn_members(message, reply, source, session);
            &&& all.contains(("message"@, JsonView::Text(message)))
            &&& all.contains(("reply"@, JsonView::Text(reply)))
            &&& all.contains(("source"@, JsonView::Text(source)))
            &&& all[i].0 == "message"@ ==> all[i].1 == JsonView::Text(message)
            &&& all[i].0 == "reply"@ ==> all[i].1 == JsonView::Text(reply)
            &&& all[i].0 == "session"@ ==> all[i].1 == optional_view(session)
            &&& all.len() == 4
        }),
{
    reveal_strlit("message");
    reveal_strlit("reply");
    reveal_strlit("source");
    reveal_strlit("session");
    assert("message"@.len() == 7 && "reply"@.len() == 5 && "source"@.len() == 6 && "session"@.len()
        == 7);
    assert("message"@[0] == 'm' && "session"@[0] == 's');
    let all = turn_members(message, reply, source, session);
    assert(all[0] == ("message"@, JsonView::Text(message)));
    assert(all[1] == ("reply"@, JsonView::Text(reply)));
    assert(all[2] == ("source"@, JsonView::Text(source)));
}

/// An extractor is started as it was declared, and what it found counts only where
/// it read the whole turn and exited zero.
pub proof fn only_a_good_extractor_counts(
    cfg: ExtractorDecl,
    r: SpawnRequest,
    wrote: bool,
    code: Option<i32>,
    stdout: String,
    stderr: String,
    memos: Seq<CapturedMemo>,
)
    requires
        runs_extractor(cfg, r),
    ensures
        r.program@ == cfg.command@ && r.args@ == cfg.args@ && r.deadline_seconds
            == cfg.timeout_seconds,
        wrote && code == Some(0i32) ==> extracted_by(
            wrote,
            ProcessEnd::Finished { code, stdout, stderr },
            memos,
        ) == memos,
        !wrote || code != Some(0i32) ==> extracted_by(
            wrote,
            ProcessEnd::Finished { code, stdout, stderr },
            memos,
        ).len() == 0,
        forall|end: ProcessEnd|
            !(end is Finished) ==> #[trigger] extracted_by(wrote, end, memos).len() == 0,
{
}

} // verus!
