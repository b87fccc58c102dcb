//! Queries and append conditions, as messages and as JSON.

use crate::adapter::BoomerangAdapter;
use crate::event::{optional_condition, ConditionModel, EsbAppendCondition, QueryItemModel};
use crate::json::{
    array_value, json_of, json_parse, json_text, jsons, natural_value, object_value, plain,
    set_member, text_value, to_vec, Json, JsonNumber, Members, MAX_NESTING,
};
use crate::proto::{optional_query, QueryItemProto, QueryProto};
use crate::text::{optional_str, texts};
use vstd::prelude::*;

verus! {

/// The tag of an append without a condition. No event carries it.
pub const UNCONDITIONAL_TAG: &'static str = "__esb_unconditional__";

/// The item that asks for a tag and a type: an empty tag asks for none.
pub open spec fn requested_item(tag: Seq<char>, event_type: Option<Seq<char>>) -> QueryItemModel {
    QueryItemModel {
        types: match event_type {
            Some(event_type) => seq![event_type],
            None => seq![],
        },
        tags: if tag.len() > 0 {
            seq![tag]
        } else {
            seq![]
        },
    }
}

/// The items that a read asks for: none where it asks for all events.
pub open spec fn requested_items(tag: Seq<char>, event_type: Option<Seq<char>>) -> Option<
    Seq<QueryItemModel>,
> {
    if event_type is None && tag.len() == 0 {
        None
    } else {
        Some(seq![requested_item(tag, event_type)])
    }
}

/// An array of texts.
pub open spec fn text_array(texts: Seq<Seq<char>>) -> Json {
    Json::Array(texts.map_values(|text: Seq<char>| Json::Text(text)))
}

/// A query item as JSON: a part without entries is left out, not written empty.
pub open spec fn item_json(item: QueryItemModel) -> Json {
    let typed = if item.types.len() == 0 {
        Members::empty()
    } else {
        Members::empty().insert("Types"@, text_array(item.types))
    };
    Json::Object(
        if item.tags.len() == 0 {
            typed
        } else {
            typed.insert("Tags"@, text_array(item.tags))
        },
    )
}

/// An object with the single member `Items`.
pub open spec fn items_json(items: Seq<Json>) -> Json {
    Json::Object(Members::empty().insert("Items"@, Json::Array(items)))
}

/// The item that no event matches: no type is allowed.
pub open spec fn unconditional_item() -> Json {
    Json::Object(
        Members::empty().insert("Types"@, text_array(seq![])).insert(
            "Tags"@,
            text_array(seq![UNCONDITIONAL_TAG@]),
        ),
    )
}

/// An append condition as JSON. Without one the append fails on events that match the
/// unconditional item, which none does.
pub open spec fn condition_as_json(condition: Option<ConditionModel>) -> Json {
    match condition {
        None => Json::Object(
            Members::empty().insert("FailIfEventsMatch"@, items_json(seq![unconditional_item()])),
        ),
        Some(condition) => {
            let items = condition.items.map_values(|item: QueryItemModel| item_json(item));
            let unbounded = Members::empty().insert("FailIfEventsMatch"@, items_json(items));
            Json::Object(
                match condition.after {
                    Some(after) => unbounded.insert(
                        "After"@,
                        Json::Number(JsonNumber::Natural(after)),
                    ),
                    None => unbounded,
                },
            )
        },
    }
}

/// The query of a read by tag and type as JSON bytes: none where it asks for all events.
pub open spec fn query_bytes(tag: Seq<char>, event_type: Option<Seq<char>>) -> Seq<u8> {
    if event_type is None && tag.len() == 0 {
        seq![]
    } else {
        json_text(items_json(seq![item_json(requested_item(tag, event_type))]))
    }
}

proof fn lemma_text_array_plain(texts: Seq<Seq<char>>, depth: nat)
    requires
        depth >= 1,
    ensures
        plain(text_array(texts), depth),
{
    reveal_with_fuel(plain, 2);
}

proof fn lemma_item_plain(item: QueryItemModel, depth: nat)
    requires
        depth >= 2,
    ensures
        plain(item_json(item), depth),
{
    lemma_text_array_plain(item.types, (depth - 1) as nat);
    lemma_text_array_plain(item.tags, (depth - 1) as nat);
}

proof fn lemma_items_plain(items: Seq<Json>, depth: nat)
    requires
        depth >= 2,
        forall|i: int| 0 <= i < items.len() ==> plain(#[trigger] items[i], (depth - 2) as nat),
    ensures
        plain(items_json(items), depth),
{
    assert(plain(Json::Array(items), (depth - 1) as nat));
}

proof fn lemma_condition_plain(condition: Option<ConditionModel>)
    ensures
        plain(condition_as_json(condition), MAX_NESTING as nat),
{
    reveal_with_fuel(plain, 2);
    let depth = (MAX_NESTING - 1) as nat;
    match condition {
        None => {
            lemma_text_array_plain(seq![], (depth - 3) as nat);
            lemma_text_array_plain(seq![UNCONDITIONAL_TAG@], (depth - 3) as nat);
            assert(plain(unconditional_item(), (depth - 2) as nat));
            lemma_items_plain(seq![unconditional_item()], depth);
        },
        Some(condition) => {
            let items = condition.items.map_values(|item: QueryItemModel| item_json(item));
            assert forall|i: int| 0 <= i < items.len() implies plain(
                #[trigger] items[i],
                (depth - 2) as nat,
            ) by {
                lemma_item_plain(condition.items[i], (depth - 2) as nat);
            }
            lemma_items_plain(items, depth);
        },
    }
}

/// The query that a read by tag and type sends, `None` where it asks for all events.
pub fn query_proto(tag: &str, event_type: Option<&str>) -> (query: Option<QueryProto>)
    ensures
        optional_query(query) == requested_items(tag@, optional_str(event_type)),
{
    let has_type = event_type.is_some();
    let has_tag = !tag.is_empty();
    if !has_type && !has_tag {
        return None;
    }
    let item = QueryItemProto { types: type_list(event_type), tags: tag_list(tag) };
    let ghost asked = item@;
    let mut items: Vec<QueryItemProto> = Vec::new();
    items.push(item);
    let query = QueryProto { items };
    assert(query@ =~= seq![asked]);
    Some(query)
}

/// The type to ask for, as a list.
fn type_list(event_type: Option<&str>) -> (types: Vec<String>)
    ensures
        texts(types@) == requested_item(seq![], optional_str(event_type)).types,
{
    let mut types: Vec<String> = Vec::new();
    if let Some(event_type) = event_type {
        types.push(event_type.to_string());
    }
    assert(texts(types@) =~= requested_item(seq![], optional_str(event_type)).types);
    types
}

/// The tag to ask for, as a list: an empty tag asks for none.
fn tag_list(tag: &str) -> (tags: Vec<String>)
    ensures
        texts(tags@) == requested_item(tag@, None).tags,
{
    let mut tags: Vec<String> = Vec::new();
    if !tag.is_empty() {
        tags.push(tag.to_string());
    }
    assert(texts(tags@) =~= requested_item(tag@, None).tags);
    tags
}

/// An array of texts.
fn text_array_value(strings: &[String]) -> (value: serde_json::Value)
    ensures
        json_of(value) == text_array(texts(strings@)),
{
    let mut items: Vec<serde_json::Value> = Vec::new();
    for i in 0..strings.len()
        invariant
            items@.len() == i,
            forall|j: int| 0 <= j < i ==> json_of(#[trigger] items@[j]) == Json::Text(strings@[j]@),
    {
        items.push(text_value(strings[i].clone()));
    }
    assert(jsons(items@) =~= texts(strings@).map_values(|text: Seq<char>| Json::Text(text)));
    array_value(items)
}

/// A query item as JSON, with PascalCase keys. Empty types and tags are left out: the store takes
/// a part that is missing for unrestricted, and an empty one for a list that allows nothing.
pub fn query_item_json(types: &[String], tags: &[String]) -> (value: serde_json::Value)
    ensures
        json_of(value) == item_json(QueryItemModel { types: texts(types@), tags: texts(tags@) }),
{
    let mut item = serde_json::Map::new();
    if types.len() > 0 {
        item.insert("Types".to_string(), text_array_value(types));
    }
    if tags.len() > 0 {
        item.insert("Tags".to_string(), text_array_value(tags));
    }
    object_value(item)
}

/// An object with the single member `Items`.
fn items_value(items: Vec<serde_json::Value>) -> (value: serde_json::Value)
    ensures
        json_of(value) == items_json(jsons(items@)),
{
    let mut members = serde_json::Map::new();
    members.insert("Items".to_string(), array_value(items));
    object_value(members)
}

impl BoomerangAdapter {
    /// An append condition as a JSON value.
    pub fn condition_value(condition: &Option<EsbAppendCondition>) -> (value: serde_json::Value)
        ensures
            json_of(value) == condition_as_json(optional_condition(*condition)),
    {
        match condition {
            None => {
                let mut item = serde_json::Map::new();
                let none: Vec<String> = Vec::new();
                assert(texts(none@) =~= seq![]);
                item.insert("Types".to_string(), text_array_value(none.as_slice()));
                let mut tags: Vec<String> = Vec::new();
                tags.push(UNCONDITIONAL_TAG.to_string());
                assert(texts(tags@) =~= seq![UNCONDITIONAL_TAG@]);
                item.insert("Tags".to_string(), text_array_value(tags.as_slice()));
                let mut items: Vec<serde_json::Value> = Vec::new();
                items.push(object_value(item));
                assert(jsons(items@) =~= seq![unconditional_item()]);
                let mut body = serde_json::Map::new();
                body.insert("FailIfEventsMatch".to_string(), items_value(items));
                object_value(body)
            },
            Some(condition) => {
                let queried = &condition.fail_if_events_match.items;
                let mut items: Vec<serde_json::Value> = Vec::new();
                for i in 0..queried.len()
                    invariant
                        items@.len() == i,
                        forall|j: int|
                            0 <= j < i ==> json_of(#[trigger] items@[j]) == item_json(queried@[j]@),
                {
                    items.push(
                        query_item_json(queried[i].types.as_slice(), queried[i].tags.as_slice()),
                    );
                }
                assert(jsons(items@) =~= condition@.items.map_values(
                    |item: QueryItemModel| item_json(item),
                ));
                let mut members = serde_json::Map::new();
                members.insert("FailIfEventsMatch".to_string(), items_value(items));
                let mut body = object_value(members);
                if let Some(after) = condition.after {
                    set_member(&mut body, "After", natural_value(after));
                }
                body
            },
        }
    }

    /// A borrowed append condition as JSON bytes.
    pub(crate) fn condition_bytes(condition: &Option<EsbAppendCondition>) -> (bytes: Vec<u8>)
        ensures
            bytes@ == json_text(condition_as_json(optional_condition(*condition))),
            json_parse(bytes@) == Some(condition_as_json(optional_condition(*condition))),
    {
        proof {
            lemma_condition_plain(optional_condition(*condition));
        }
        match to_vec(&Self::condition_value(condition)) {
            Ok(bytes) => bytes,
            Err(_) => Vec::new(),
        }
    }

    /// An append condition as JSON bytes.
    pub fn condition_json(condition: Option<EsbAppendCondition>) -> (bytes: Vec<u8>)
        ensures
            bytes@ == json_text(condition_as_json(optional_condition(condition))),
            json_parse(bytes@) == Some(condition_as_json(optional_condition(condition))),
    {
        Self::condition_bytes(&condition)
    }

    /// The query of a read by tag and type as JSON bytes.
    pub fn query_json(tag: &str, event_type: Option<&str>) -> (bytes: Vec<u8>)
        ensures
            bytes@ == query_bytes(tag@, optional_str(event_type)),
            event_type is Some || tag@.len() > 0 ==> bytes@.len() > 0,
            event_type is Some || tag@.len() > 0 ==> json_parse(bytes@) == Some(
                items_json(seq![item_json(requested_item(tag@, optional_str(event_type)))]),
            ),
    {
        let has_type = event_type.is_some();
        let has_tag = !tag.is_empty();
        if !has_type && !has_tag {
            return Vec::new();
        }
        let types = type_list(event_type);
        let tags = tag_list(tag);
        let mut items: Vec<serde_json::Value> = Vec::new();
        items.push(query_item_json(types.as_slice(), tags.as_slice()));
        let ghost asked = requested_item(tag@, optional_str(event_type));
        assert(jsons(items@) =~= seq![item_json(asked)]);
        let query = items_value(items);
        proof {
            lemma_item_plain(asked, (MAX_NESTING - 2) as nat);
            lemma_items_plain(seq![item_json(asked)], MAX_NESTING as nat);
        }
        match to_vec(&query) {
            Ok(bytes) => bytes,
            Err(_) => Vec::new(),
        }
    }
}

} // verus!
