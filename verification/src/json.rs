//! JSON values, parsed and printed by `serde_json`.

use serde_json::Value;
use vstd::prelude::*;

verus! {

/// `serde_json::Value`.
#[verifier::external_type_specification]
#[verifier::external_body]
pub struct ExValue(Value);

/// A JSON value as a tree. A number is told by the text that it prints as.
pub enum Json {
    Null,
    Bool(bool),
    Number(Seq<char>),
    Text(Seq<char>),
    Array(Seq<Json>),
    Object(Map<Seq<char>, Json>),
}

/// The tree that a value holds.
pub uninterp spec fn json_view(value: Value) -> Json;

/// The tree that `bytes` spell, when they spell one.
pub uninterp spec fn json_document(bytes: Seq<u8>) -> Option<Json>;

/// The text that a tree prints as.
pub uninterp spec fn json_printed(json: Json) -> Option<Seq<char>>;

/// The member `key` of an object.
pub open spec fn json_member(json: Json, key: Seq<char>) -> Option<Json> {
    match json {
        Json::Object(members) => if members.contains_key(key) {
            Some(members[key])
        } else {
            None
        },
        _ => None,
    }
}

/// The text of a JSON string.
pub open spec fn json_string(json: Json) -> Option<Seq<char>> {
    match json {
        Json::Text(text) => Some(text),
        _ => None,
    }
}

/// The text of the member `key`, when it is a string.
pub open spec fn json_string_at(json: Json, key: Seq<char>) -> Option<Seq<char>> {
    match json_member(json, key) {
        Some(member) => json_string(member),
        None => None,
    }
}

/// No two of the members have the same key.
pub open spec fn distinct_keys(members: Seq<(String, Value)>) -> bool {
    forall|i: int, j: int|
        #![trigger members[i], members[j]]
        0 <= i < j < members.len() ==> members[i].0@ != members[j].0@
}

/// The object with these members.
pub open spec fn json_members(members: Seq<(String, Value)>) -> Map<Seq<char>, Json>
    decreases members.len(),
{
    if members.len() == 0 {
        Map::empty()
    } else {
        json_members(members.drop_last()).insert(
            members.last().0@,
            json_view(members.last().1),
        )
    }
}

/// The trees that the values hold.
pub open spec fn json_items(items: Seq<Value>) -> Seq<Json> {
    Seq::new(items.len(), |i: int| json_view(items[i]))
}

/// `serde_json::from_slice`: the value that the bytes spell; an error when they spell none.
#[verifier::external_body]
pub(crate) fn parse(bytes: &Vec<u8>) -> (r: Option<Value>)
    ensures
        match r {
            Some(value) => json_document(bytes@) == Some(json_view(value)),
            None => json_document(bytes@) is None,
        },
{
    serde_json::from_slice(bytes).ok()
}

/// `serde_json::to_string`: the text that the value prints as.
#[verifier::external_body]
pub(crate) fn print(value: &Value) -> (r: Option<String>)
    ensures
        match r {
            Some(text) => json_printed(json_view(*value)) == Some(text@),
            None => json_printed(json_view(*value)) is None,
        },
{
    serde_json::to_string(value).ok()
}

/// `Value::get` with a string: the member under that key, on an object that has it.
#[verifier::external_body]
pub(crate) fn member<'a>(value: &'a Value, key: &str) -> (r: Option<&'a Value>)
    ensures
        match r {
            Some(found) => json_member(json_view(*value), key@) == Some(json_view(*found)),
            None => json_member(json_view(*value), key@) is None,
        },
{
    value.get(key)
}

/// `Value::as_str`: the text of a JSON string; nothing on any other value.
#[verifier::external_body]
pub(crate) fn as_str<'a>(value: &'a Value) -> (r: Option<&'a str>)
    ensures
        match r {
            Some(text) => json_string(json_view(*value)) == Some(text@),
            None => json_string(json_view(*value)) is None,
        },
{
    value.as_str()
}

/// `Value::from` on a string: the JSON string with that text.
#[verifier::external_body]
pub(crate) fn from_text(text: &str) -> (r: Value)
    ensures
        json_view(r) == Json::Text(text@),
{
    Value::from(text)
}

/// `Value::from` on a truth value.
#[verifier::external_body]
pub(crate) fn from_bool(b: bool) -> (r: Value)
    ensures
        json_view(r) == Json::Bool(b),
{
    Value::from(b)
}

/// `Value::from` on values: the array of them, in order.
#[verifier::external_body]
pub(crate) fn from_items(items: Vec<Value>) -> (r: Value)
    ensures
        json_view(r) == Json::Array(json_items(items@)),
{
    Value::from(items)
}

/// `Value::from_iter` on keys and values: the object of them. Of two values under the same key
/// one is dropped, and it is not documented which, so the keys are to differ.
#[verifier::external_body]
pub(crate) fn from_members(members: Vec<(String, Value)>) -> (r: Value)
    requires
        distinct_keys(members@),
    ensures
        json_view(r) == Json::Object(json_members(members@)),
{
    Value::from_iter(members)
}

/// The text of the member `key` of `value`, when it is a string.
pub fn string_at(value: &Value, key: &str) -> (r: Option<String>)
    ensures
        crate::text::opt_text(r) == json_string_at(json_view(*value), key@),
{
    match member(value, key) {
        Some(found) => match as_str(found) {
            Some(text) => Some(text.to_owned()),
            None => None,
        },
        None => None,
    }
}

/// Every key is one of the object.
proof fn lemma_members_keys(members: Seq<(String, Value)>, i: int)
    requires
        0 <= i < members.len(),
    ensures
        json_members(members).contains_key(members[i].0@),
    decreases members.len(),
{
    if i < members.len() - 1 {
        lemma_members_keys(members.drop_last(), i);
    }
}

/// One more member of an object in the making, under a key that it does not have yet.
pub(crate) fn add_member(members: &mut Vec<(String, Value)>, key: &str, value: Value)
    requires
        distinct_keys(old(members)@),
        !json_members(old(members)@).contains_key(key@),
    ensures
        distinct_keys(final(members)@),
        json_members(final(members)@) == json_members(old(members)@).insert(
            key@,
            json_view(value),
        ),
{
    members.push((key.to_owned(), value));
    proof {
        let before = old(members)@;
        assert(members@.drop_last() =~= before);
        assert forall|i: int, j: int| 0 <= i < j < members@.len() implies members@[i].0@
            != members@[j].0@ by {
            lemma_members_keys(before, i);
        }
    }
}

} // verus!
