//! JSON values.
//!
//! `serde_json` parses, holds and prints them. This module declares its value
//! type, names what a value holds, and states of each call what it does to
//! that.

use crate::text::{
    dec, has_prefix, has_suffix, holds_text, lemma_ends, lemma_holds_last, lemma_holds_more,
    lemma_holds_part, lemma_holds_through, lemma_in_two,
};
use serde_json::Value;
use vstd::prelude::*;

verus! {

/// A `serde_json::Value`. What it holds is [`json_view`].
#[verifier::external_type_specification]
#[verifier::external_body]
pub struct ExValue(serde_json::Value);

/// A `serde_json::Map`, the members of an object. What it holds is
/// [`held`].
#[verifier::external_type_specification]
#[verifier::external_body]
#[verifier::reject_recursive_types(K)]
#[verifier::reject_recursive_types(V)]
pub struct ExMap<K, V>(serde_json::Map<K, V>);

/// What a JSON value is: one of the six kinds, an object being a map from
/// names to values. A number is known by the way it prints and, when it is a
/// non-negative integer of 64 bits, by its value.
#[verifier::ext_equal]
pub enum JsonView {
    Null,
    Bool(bool),
    Number { text: Seq<char>, unsigned: Option<u64> },
    Text(Seq<char>),
    List(Seq<JsonView>),
    Table(Map<Seq<char>, JsonView>),
}

/// What a `serde_json::Value` holds.
pub uninterp spec fn json_view(v: Value) -> JsonView;

/// What the members of an object under construction are, by name.
pub uninterp spec fn held(m: serde_json::Map<String, Value>) -> Map<Seq<char>, JsonView>;

/// What `serde_json::from_str::<Value>` makes of a text: the value, or the
/// error it reports.
pub uninterp spec fn parsed_json(text: Seq<char>) -> Result<JsonView, Seq<char>>;

/// What the `Display` of `serde_json::Value` prints for a value.
pub uninterp spec fn json_text(v: JsonView) -> Seq<char>;

/// What the members of a list of values hold.
pub open spec fn json_views(list: Seq<Value>) -> Seq<JsonView> {
    list.map_values(|v: Value| json_view(v))
}

/// The member `key` of an object.
pub open spec fn member_of(v: JsonView, key: Seq<char>) -> Option<JsonView> {
    match v {
        JsonView::Table(m) => if m.dom().contains(key) {
            Some(m[key])
        } else {
            None
        },
        _ => None,
    }
}

/// The member `key` of an object, when it is a text.
pub open spec fn text_member(v: JsonView, key: Seq<char>) -> Option<Seq<char>> {
    match member_of(v, key) {
        Some(JsonView::Text(t)) => Some(t),
        _ => None,
    }
}

/// The member `key` of an object, when it is a non-negative integer.
pub open spec fn unsigned_member(v: JsonView, key: Seq<char>) -> Option<u64> {
    match member_of(v, key) {
        Some(JsonView::Number { unsigned, .. }) => unsigned,
        _ => None,
    }
}

/// An integer as a JSON number.
pub open spec fn integer(n: int) -> JsonView {
    JsonView::Number {
        text: dec(n),
        unsigned: if 0 <= n <= u64::MAX {
            Some(n as u64)
        } else {
            None
        },
    }
}

/// The texts of a list, in order; members of any other kind are left out.
pub open spec fn texts_of(list: Seq<JsonView>) -> Seq<Seq<char>>
    decreases list.len(),
{
    if list.len() == 0 {
        Seq::empty()
    } else {
        let rest = texts_of(list.drop_last());
        match list.last() {
            JsonView::Text(t) => rest.push(t),
            _ => rest,
        }
    }
}

/// `serde_json::from_str::<Value>`: parses one JSON text. The error is the
/// text of the `serde_json::Error` it reports.
#[verifier::external_body]
pub(crate) fn parse_value(text: &str) -> (r: Result<Value, String>)
    ensures
        match r {
            Ok(v) => parsed_json(text@) matches Ok(j) && j == json_view(v),
            Err(e) => parsed_json(text@) matches Err(t) && t == e@,
        },
{
    serde_json::from_str::<Value>(text).map_err(|e| e.to_string())
}

/// The `Display` of `Value`, which cannot fail: the compact JSON text of what
/// the value holds.
#[verifier::external_body]
pub(crate) fn print_value(v: &Value) -> (r: String)
    ensures
        r@ == json_text(json_view(*v)),
{
    v.to_string()
}

/// `Value::get` with a name: the member of an object, `None` for a name it
/// does not have and for anything that is not an object.
#[verifier::external_body]
pub(crate) fn member<'a>(v: &'a Value, key: &str) -> (r: Option<&'a Value>)
    ensures
        r is Some <==> member_of(json_view(*v), key@) is Some,
        r matches Some(m) ==> member_of(json_view(*v), key@) == Some(json_view(*m)),
{
    v.get(key)
}

/// `Value::as_str`: the characters of a text, `None` for any other kind.
pub assume_specification[ Value::as_str ](v: &Value) -> (r: Option<&str>)
    ensures
        r is Some <==> json_view(*v) is Text,
        r matches Some(t) ==> json_view(*v) == JsonView::Text(t@),
;

/// `Value::as_u64`: the value of a number that is a non-negative integer of 64
/// bits, `None` otherwise.
pub assume_specification[ Value::as_u64 ](v: &Value) -> (r: Option<u64>)
    ensures
        r == match json_view(*v) {
            JsonView::Number { unsigned, .. } => unsigned,
            _ => None,
        },
;

/// `Value::as_array`: the members of a list, `None` for any other kind.
pub assume_specification[ Value::as_array ](v: &Value) -> (r: Option<&Vec<Value>>)
    ensures
        r is Some <==> json_view(*v) is List,
        r matches Some(l) ==> json_view(*v) == JsonView::List(json_views(l@)),
;

/// `Value::as_number` and the `Display` of `serde_json::Number`: how a number
/// prints, `None` for any other kind.
#[verifier::external_body]
pub(crate) fn number_text(v: &Value) -> (r: Option<String>)
    ensures
        r is Some <==> json_view(*v) is Number,
        r matches Some(t) ==> json_view(*v)->Number_text == t@,
{
    v.as_number().map(|n| n.to_string())
}

/// `Value::is_null`.
pub assume_specification[ Value::is_null ](v: &Value) -> (r: bool)
    ensures
        r == (json_view(*v) is Null),
;

/// `Value::clone`: a value that holds the same.
#[verifier::external_body]
pub(crate) fn copy_value(v: &Value) -> (r: Value)
    ensures
        json_view(r) == json_view(*v),
{
    v.clone()
}

/// `Value::Null`.
#[verifier::external_body]
pub(crate) fn null_value() -> (r: Value)
    ensures
        json_view(r) == JsonView::Null,
{
    Value::Null
}

/// `Value::Bool`.
#[verifier::external_body]
pub(crate) fn bool_value(b: bool) -> (r: Value)
    ensures
        json_view(r) == JsonView::Bool(b),
{
    Value::Bool(b)
}

/// `Value::String`.
#[verifier::external_body]
pub(crate) fn text_value(s: &str) -> (r: Value)
    ensures
        json_view(r) == JsonView::Text(s@),
{
    Value::String(s.to_string())
}

/// `Value::from(i64)`: an integer, which prints in decimal.
#[verifier::external_body]
pub(crate) fn signed_value(n: i64) -> (r: Value)
    ensures
        json_view(r) == integer(n as int),
{
    Value::from(n)
}

/// `Value::from(u64)`: an integer, which prints in decimal.
#[verifier::external_body]
pub(crate) fn unsigned_value(n: u64) -> (r: Value)
    ensures
        json_view(r) == integer(n as int),
{
    Value::from(n)
}

/// `Value::Array`.
#[verifier::external_body]
pub(crate) fn list_value(list: Vec<Value>) -> (r: Value)
    ensures
        json_view(r) == JsonView::List(json_views(list@)),
{
    Value::Array(list)
}

/// `serde_json::Map::new`: no members yet.
#[verifier::external_body]
pub(crate) fn no_members() -> (r: serde_json::Map<String, Value>)
    ensures
        held(r) =~= Map::empty(),
{
    serde_json::Map::new()
}

/// `serde_json::Map::insert`: one more named member, in place of one that has
/// the name already.
#[verifier::external_body]
pub(crate) fn put_member(m: &mut serde_json::Map<String, Value>, key: &str, value: Value)
    ensures
        held(*final(m)) == held(*old(m)).insert(key@, json_view(value)),
{
    m.insert(key.to_string(), value);
}

/// `Value::Object`: an object with these members.
#[verifier::external_body]
pub(crate) fn object_value(m: serde_json::Map<String, Value>) -> (r: Value)
    ensures
        json_view(r) == JsonView::Table(held(m)),
{
    Value::Object(m)
}

// ---------------------------------------------------------------------
// Objects printed in an order of their own
// ---------------------------------------------------------------------

/// What named values hold, in order.
pub open spec fn named(members: Seq<(&str, Value)>) -> Seq<(Seq<char>, JsonView)> {
    members.map_values(|m: (&str, Value)| (m.0@, json_view(m.1)))
}

/// The members of an object, printed in this order.
pub open spec fn members_text(members: Seq<(Seq<char>, JsonView)>) -> Seq<char>
    decreases members.len(),
{
    if members.len() == 0 {
        Seq::empty()
    } else {
        members_text(members.drop_last()) + (if members.len() > 1 {
            ","@
        } else {
            Seq::empty()
        }) + json_text(JsonView::Text(members.last().0)) + ":"@ + json_text(members.last().1)
    }
}

/// An object, its members printed in this order.
pub open spec fn object_text(members: Seq<(Seq<char>, JsonView)>) -> Seq<char> {
    "{"@ + members_text(members) + "}"@
}

/// One more named value.
pub(crate) fn push_named<'a>(members: &mut Vec<(&'a str, Value)>, key: &'a str, value: Value)
    ensures
        named(final(members)@) == named(old(members)@).push((key@, json_view(value))),
{
    let ghost before = named(members@);
    members.push((key, value));
    proof {
        assert(named(members@) =~= before.push((key@, json_view(value))));
    }
}

/// Print an object, its members in the order of the list.
pub fn print_object(members: &Vec<(&str, Value)>) -> (r: String)
    ensures
        r@ == object_text(named(members@)),
{
    let ghost all = named(members@);
    let mut body = String::new();
    let mut i: usize = 0;
    proof {
        assert(all.take(0) =~= Seq::empty());
    }
    while i < members.len()
        invariant
            i <= members@.len(),
            all == named(members@),
            body@ == members_text(all.take(i as int)),
        decreases members@.len() - i,
    {
        proof {
            assert(all.take(i as int + 1).drop_last() =~= all.take(i as int));
        }
        if i > 0 {
            body.append(",");
        } else {
            assert(body@ + Seq::<char>::empty() =~= body@);
        }
        body.append(print_value(&text_value(members[i].0)).as_str());
        body.append(":");
        body.append(print_value(&members[i].1).as_str());
        i = i + 1;
    }
    proof {
        assert(all.take(all.len() as int) =~= all);
    }
    let mut out = "{".to_owned();
    out.append(body.as_str());
    out.append("}");
    out
}

/// The text member `key` of an object, `None` when it is absent or of another
/// kind.
pub fn text_at(v: &Value, key: &str) -> (r: Option<String>)
    ensures
        match text_member(json_view(*v), key@) {
            Some(t) => r matches Some(s) && s@ == t,
            None => r is None,
        },
{
    match member(v, key) {
        Some(m) => match m.as_str() {
            Some(s) => Some(s.to_owned()),
            None => None,
        },
        None => None,
    }
}

/// The non-negative integer member `key` of an object.
pub fn unsigned_at(v: &Value, key: &str) -> (r: Option<u64>)
    ensures
        r == unsigned_member(json_view(*v), key@),
{
    match member(v, key) {
        Some(m) => m.as_u64(),
        None => None,
    }
}

/// A list of texts as a JSON list.
pub fn texts_value(parts: &[String]) -> (r: Value)
    ensures
        json_view(r) == JsonView::List(parts@.map_values(|p: String| JsonView::Text(p@))),
{
    let mut list: Vec<Value> = Vec::new();
    let mut i: usize = 0;
    while i < parts.len()
        invariant
            i <= parts@.len(),
            json_views(list@) == parts@.take(i as int).map_values(
                |p: String| JsonView::Text(p@),
            ),
        decreases parts@.len() - i,
    {
        let ghost before = list@;
        list.push(text_value(parts[i].as_str()));
        i = i + 1;
        proof {
            assert(json_views(list@) =~= json_views(before).push(
                JsonView::Text(parts@[i as int - 1]@),
            ));
            assert(parts@.take(i as int).map_values(|p: String| JsonView::Text(p@))
                =~= parts@.take(i as int - 1).map_values(|p: String| JsonView::Text(p@)).push(
                JsonView::Text(parts@[i as int - 1]@),
            ));
        }
    }
    proof {
        assert(parts@.take(parts@.len() as int) =~= parts@);
    }
    list_value(list)
}

/// An optional text: the text, or `null`.
pub fn optional_text(s: &Option<String>) -> (r: Value)
    ensures
        json_view(r) == match *s {
            Some(t) => JsonView::Text(t@),
            None => JsonView::Null,
        },
{
    match s {
        Some(t) => text_value(t.as_str()),
        None => null_value(),
    }
}

// ---------------------------------------------------------------------
// Laws of members
// ---------------------------------------------------------------------

proof fn lemma_members_hold(members: Seq<(Seq<char>, JsonView)>, i: int)
    requires
        0 <= i < members.len(),
    ensures
        holds_text(
            members_text(members),
            json_text(JsonView::Text(members[i].0)) + ":"@ + json_text(members[i].1),
        ),
    decreases members.len(),
{
    let head = members.drop_last();
    let before = members_text(head) + (if members.len() > 1 {
        ","@
    } else {
        Seq::empty()
    });
    let name = json_text(JsonView::Text(members.last().0));
    let value = json_text(members.last().1);
    let last = name + ":"@ + value;
    lemma_in_two(before, name, ":"@);
    lemma_in_two(before, name + ":"@, value);
    assert(members_text(members) == before + last);
    if i < head.len() {
        lemma_members_hold(head, i);
        let part = json_text(JsonView::Text(members[i].0)) + ":"@ + json_text(members[i].1);
        lemma_holds_more(members_text(head), part, ","@);
        lemma_holds_more(before, part, last);
    } else {
        lemma_holds_last(before, last);
    }
}

/// An object is printed in braces with every member in it, the name in front of
/// its own value.
pub proof fn every_member_is_printed(members: Seq<(Seq<char>, JsonView)>, i: int)
    requires
        0 <= i < members.len(),
    ensures
        holds_text(
            object_text(members),
            json_text(JsonView::Text(members[i].0)) + ":"@ + json_text(members[i].1),
        ),
        has_prefix(object_text(members), "{"@),
        has_suffix(object_text(members), "}"@),
        object_text(Seq::empty()) == "{"@ + "}"@,
{
    let body = members_text(members);
    let part = json_text(JsonView::Text(members[i].0)) + ":"@ + json_text(members[i].1);
    lemma_members_hold(members, i);
    lemma_holds_part(object_text(members), "{"@, body, "}"@);
    lemma_holds_through(object_text(members), body, part);
    lemma_ends("{"@ + body, "}"@);
    lemma_in_two("{"@, body, "}"@);
    lemma_ends("{"@, body + "}"@);
    assert("{"@ + Seq::<char>::empty() + "}"@ =~= "{"@ + "}"@);
}

/// A number is written in decimals, and is unsigned exactly when it is from zero
/// up to the largest there is.
pub proof fn a_number_is_written_in_decimals(n: int)
    ensures
        integer(n) matches JsonView::Number { text, unsigned } && text == dec(n) && (unsigned
            is Some <==> 0 <= n <= u64::MAX) && (unsigned is Some ==> unsigned->0 == n),
{
}

} // verus!
