//! JSON values as `serde_json` holds them: what a value contains, and what the calls into
//! `serde_json` do to it.

use crate::text::ascending;
use vstd::prelude::*;

verus! {

/// A JSON number: a natural number, a negative integer, or a float given by its bits.
pub enum JsonNumber {
    Natural(u64),
    Negative(i64),
    Float(u64),
}

/// The members of a JSON object: its keys, each with the value it has.
pub type Members = Map<Seq<char>, Json>;

/// What a JSON value holds.
pub enum Json {
    Null,
    Bool(bool),
    Number(JsonNumber),
    Text(Seq<char>),
    Array(Seq<Json>),
    Object(Members),
}

/// The deepest nesting of arrays and objects that `serde_json` reads back.
pub const MAX_NESTING: u64 = 127;

/// `json` nests arrays and objects at most `depth` deep and holds no number but natural ones.
pub open spec fn plain(json: Json, depth: nat) -> bool
    decreases depth,
{
    match json {
        Json::Number(number) => number is Natural,
        Json::Array(items) => depth > 0 && forall|i: int|
            0 <= i < items.len() ==> plain(#[trigger] items[i], (depth - 1) as nat),
        Json::Object(members) => depth > 0 && forall|key: Seq<char>|
            members.contains_key(key) ==> plain(#[trigger] members[key], (depth - 1) as nat),
        _ => true,
    }
}

#[verifier::external_type_specification]
#[verifier::external_body]
pub struct ExValue(serde_json::Value);

#[verifier::external_type_specification]
#[verifier::external_body]
#[verifier::reject_recursive_types(K)]
#[verifier::reject_recursive_types(V)]
pub struct ExMembers<K, V>(serde_json::Map<K, V>);

#[verifier::external_type_specification]
#[verifier::external_body]
pub struct ExError(serde_json::Error);

/// What a `serde_json::Value` holds.
pub uninterp spec fn json_of(value: serde_json::Value) -> Json;

/// What a `serde_json::Map` holds: its keys, each with what its value holds.
pub uninterp spec fn members_of(members: serde_json::Map<String, serde_json::Value>) -> Members;

/// The bytes that `serde_json::to_vec` writes for a value that holds `json`.
pub uninterp spec fn json_text(json: Json) -> Seq<u8>;

/// What `serde_json::from_slice` reads from `bytes`, `None` where they are no JSON text.
pub uninterp spec fn json_parse(bytes: Seq<u8>) -> Option<Json>;

/// `serde_json::Map::new` makes a map without members.
pub assume_specification[ serde_json::Map::<String, serde_json::Value>::new ]() -> (members:
    serde_json::Map<String, serde_json::Value>)
    ensures
        members_of(members) == Members::empty(),
;

/// `serde_json::Map::insert` sets the value of a key, replacing the one it had.
pub assume_specification[ serde_json::Map::<String, serde_json::Value>::insert ](
    members: &mut serde_json::Map<String, serde_json::Value>,
    k: String,
    v: serde_json::Value,
) -> (replaced: Option<serde_json::Value>)
    ensures
        members_of(*final(members)) == members_of(*old(members)).insert(k@, json_of(v)),
        match replaced {
            Some(value) => members_of(*old(members)).contains_key(k@) && json_of(value)
                == members_of(*old(members))[k@],
            None => !members_of(*old(members)).contains_key(k@),
        },
;

/// `serde_json::Map::is_empty` tells whether a map has no members.
pub assume_specification[ serde_json::Map::<String, serde_json::Value>::is_empty ](
    members: &serde_json::Map<String, serde_json::Value>,
) -> (empty: bool)
    ensures
        empty == (members_of(*members) == Members::empty()),
;

/// Gives what `serde_json::Map::get` finds under a key.
#[verifier::external_body]
pub(crate) fn member<'a>(
    members: &'a serde_json::Map<String, serde_json::Value>,
    key: &str,
) -> (found: Option<&'a serde_json::Value>)
    ensures
        match found {
            Some(value) => members_of(*members).contains_key(key@) && json_of(*value)
                == members_of(*members)[key@],
            None => !members_of(*members).contains_key(key@),
        },
{
    members.get(key)
}

/// The keys of members that were handed out.
pub open spec fn keys(entries: Seq<(&String, &serde_json::Value)>) -> Seq<Seq<char>> {
    entries.map_values(|entry: (&String, &serde_json::Value)| entry.0@)
}

/// Gives the members over which `serde_json::Map::iter` walks. The map is kept sorted, so they
/// come in the order of their keys, each once.
#[verifier::external_body]
pub(crate) fn entries(members: &serde_json::Map<String, serde_json::Value>) -> (listed: Vec<
    (&String, &serde_json::Value),
>)
    ensures
        ascending(keys(listed@)),
        keys(listed@).to_set() == members_of(*members).dom(),
        forall|i: int|
            0 <= i < listed@.len() ==> json_of(*(#[trigger] listed@[i]).1) == members_of(
                *members,
            )[listed@[i].0@],
{
    members.iter().collect()
}

/// `serde_json::Value::as_object` gives the members of an object and nothing for any other value.
pub assume_specification[ serde_json::Value::as_object ](value: &serde_json::Value) -> (members:
    Option<&serde_json::Map<String, serde_json::Value>>)
    ensures
        match members {
            Some(members) => json_of(*value) == Json::Object(members_of(*members)),
            None => !(json_of(*value) is Object),
        },
;

/// `serde_json::Value::as_str` gives the text of a text value and nothing for any other.
pub assume_specification[ serde_json::Value::as_str ](value: &serde_json::Value) -> (text: Option<
    &str,
>)
    ensures
        match text {
            Some(text) => json_of(*value) == Json::Text(text@),
            None => !(json_of(*value) is Text),
        },
;

/// Makes a `serde_json::Value::Null`.
#[verifier::external_body]
pub(crate) fn null_value() -> (value: serde_json::Value)
    ensures
        json_of(value) == Json::Null,
{
    serde_json::Value::Null
}

/// Makes a `serde_json::Value::String`.
#[verifier::external_body]
pub(crate) fn text_value(text: String) -> (value: serde_json::Value)
    ensures
        json_of(value) == Json::Text(text@),
{
    serde_json::Value::String(text)
}

/// Makes a `serde_json::Value::Number` of a natural number with `From<u64>`.
#[verifier::external_body]
pub(crate) fn natural_value(number: u64) -> (value: serde_json::Value)
    ensures
        json_of(value) == Json::Number(JsonNumber::Natural(number)),
{
    serde_json::Value::from(number)
}

/// What a sequence of values holds.
pub open spec fn jsons(values: Seq<serde_json::Value>) -> Seq<Json> {
    values.map_values(|value: serde_json::Value| json_of(value))
}

/// Makes a `serde_json::Value::Array`.
#[verifier::external_body]
pub(crate) fn array_value(items: Vec<serde_json::Value>) -> (value: serde_json::Value)
    ensures
        json_of(value) == Json::Array(jsons(items@)),
{
    serde_json::Value::Array(items)
}

/// Makes a `serde_json::Value::Object`.
#[verifier::external_body]
pub(crate) fn object_value(
    members: serde_json::Map<String, serde_json::Value>,
) -> (value: serde_json::Value)
    ensures
        json_of(value) == Json::Object(members_of(members)),
{
    serde_json::Value::Object(members)
}

/// Assigns to a key of an object by the `IndexMut` of `serde_json::Value`: the member is added,
/// or replaced where the key was there.
#[verifier::external_body]
pub(crate) fn set_member(object: &mut serde_json::Value, key: &str, value: serde_json::Value)
    requires
        json_of(*old(object)) is Object,
    ensures
        json_of(*final(object)) == Json::Object(
            json_of(*old(object))->Object_0.insert(key@, json_of(value)),
        ),
{
    object[key] = value;
}

/// Gives the bytes that `serde_json::to_vec` writes for a value. It writes every value that nests
/// no deeper than it can be read back, at least one byte of it, and `serde_json::from_slice`
/// reads a plain one back as it was.
#[verifier::external_body]
pub(crate) fn to_vec(value: &serde_json::Value) -> (written: Result<Vec<u8>, serde_json::Error>)
    requires
        plain(json_of(*value), MAX_NESTING as nat),
    ensures
        written is Ok,
        written->Ok_0@ == json_text(json_of(*value)),
        written->Ok_0@.len() > 0,
        json_parse(written->Ok_0@) == Some(json_of(*value)),
{
    serde_json::to_vec(value)
}

/// Gives what `serde_json::from_slice` reads from bytes as a `serde_json::Value`.
#[verifier::external_body]
pub(crate) fn from_slice(bytes: &[u8]) -> (read: Result<serde_json::Value, serde_json::Error>)
    ensures
        match read {
            Ok(value) => json_parse(bytes@) == Some(json_of(value)),
            Err(_) => json_parse(bytes@) is None,
        },
{
    serde_json::from_slice(bytes)
}

} // verus!
