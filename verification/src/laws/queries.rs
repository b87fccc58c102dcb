//! What queries and conditions ask the store for, as messages and as JSON.

use crate::event::{optional_condition, EsbAppendCondition, QueryItemModel};
use crate::json::{json_of, json_parse, Json, JsonNumber};
use crate::proto::{optional_query, QueryProto};
use crate::query::{condition_as_json, item_json, items_json, requested_item, requested_items};
use crate::text::texts;
use vstd::prelude::*;

verus! {

/// The members of the JSON form of a query item are its types and its tags, where it has some.
proof fn lemma_item_parts(item: QueryItemModel)
    ensures
        item_json(item) matches Json::Object(parts) && {
            &&& forall|key: Seq<char>| #[trigger]
                parts.contains_key(key) <==> key == "Types"@ && item.types.len() > 0 || key
                    == "Tags"@ && item.tags.len() > 0
            &&& item.types.len() > 0 ==> (parts["Types"@] matches Json::Array(types) && {
                &&& types.len() == item.types.len()
                &&& forall|j: int|
                    0 <= j < types.len() ==> #[trigger] types[j] == Json::Text(item.types[j])
            })
            &&& item.tags.len() > 0 ==> (parts["Tags"@] matches Json::Array(tags) && {
                &&& tags.len() == item.tags.len()
                &&& forall|j: int|
                    0 <= j < tags.len() ==> #[trigger] tags[j] == Json::Text(item.tags[j])
            })
        },
{
    reveal_strlit("Types");
    reveal_strlit("Tags");
    assert("Types"@.len() != "Tags"@.len());
}

/// The JSON form of a query item holds all its types and all its tags, each in its place and no
/// others; a part without entries is missing.
pub proof fn law_item_holds_types_and_tags(
    types: Seq<String>,
    tags: Seq<String>,
    value: serde_json::Value,
)
    requires
        json_of(value) == item_json((QueryItemModel { types: texts(types), tags: texts(tags) })),
    ensures
        json_of(value) matches Json::Object(parts) && {
            &&& forall|key: Seq<char>| #[trigger]
                parts.contains_key(key) <==> key == "Types"@ && types.len() > 0 || key == "Tags"@
                    && tags.len() > 0
            &&& types.len() > 0 ==> (parts["Types"@] matches Json::Array(listed) && {
                &&& listed.len() == types.len()
                &&& forall|j: int|
                    0 <= j < types.len() ==> #[trigger] listed[j] == Json::Text(types[j]@)
            })
            &&& tags.len() > 0 ==> (parts["Tags"@] matches Json::Array(listed) && {
                &&& listed.len() == tags.len()
                &&& forall|j: int|
                    0 <= j < tags.len() ==> #[trigger] listed[j] == Json::Text(tags[j]@)
            })
        },
{
    lemma_item_parts(QueryItemModel { types: texts(types), tags: texts(tags) });
}

/// The JSON form of a condition holds all its items in order, each with all its types and all its
/// tags, and the position of the condition where it has one; it holds nothing else.
pub proof fn law_condition_holds_every_item(condition: EsbAppendCondition, bytes: Seq<u8>)
    requires
        json_parse(bytes) == Some(condition_as_json(optional_condition(Some(condition)))),
    ensures
        json_parse(bytes) matches Some(Json::Object(body)) && {
            &&& forall|key: Seq<char>| #[trigger]
                body.contains_key(key) <==> key == "FailIfEventsMatch"@ || key == "After"@
                    && condition.after is Some
            &&& condition.after matches Some(after) ==> body["After"@] == Json::Number(
                JsonNumber::Natural(after),
            )
            &&& body["FailIfEventsMatch"@] matches Json::Object(query) && {
                &&& forall|key: Seq<char>| #[trigger] query.contains_key(key) <==> key == "Items"@
                &&& query["Items"@] matches Json::Array(items) && {
                    &&& items.len() == condition.fail_if_events_match.items@.len()
                    &&& forall|k: int|
                        0 <= k < items.len() ==> ((#[trigger] items[k]) matches Json::Object(parts)
                            && {
                            let asked = condition.fail_if_events_match.items@[k];
                            &&& forall|key: Seq<char>| #[trigger]
                                parts.contains_key(key) <==> key == "Types"@ && asked.types@.len()
                                    > 0 || key == "Tags"@ && asked.tags@.len() > 0
                            &&& asked.types@.len() > 0 ==> (parts["Types"@] matches Json::Array(
                                listed,
                            ) && {
                                &&& listed.len() == asked.types@.len()
                                &&& forall|j: int|
                                    0 <= j < listed.len() ==> #[trigger] listed[j] == Json::Text(
                                        asked.types@[j]@,
                                    )
                            })
                            &&& asked.tags@.len() > 0 ==> (parts["Tags"@] matches Json::Array(listed)
                                && {
                                &&& listed.len() == asked.tags@.len()
                                &&& forall|j: int|
                                    0 <= j < listed.len() ==> #[trigger] listed[j] == Json::Text(
                                        asked.tags@[j]@,
                                    )
                            })
                        })
                }
            }
        },
{
    reveal_strlit("FailIfEventsMatch");
    reveal_strlit("After");
    assert("FailIfEventsMatch"@.len() != "After"@.len());
    let body = json_parse(bytes)->0->Object_0;
    let query = body["FailIfEventsMatch"@]->Object_0;
    let items = query["Items"@]->Array_0;
    assert forall|k: int| 0 <= k < items.len() implies #[trigger] items[k] == item_json(
        condition.fail_if_events_match.items@[k]@,
    ) && ({
        let asked = condition.fail_if_events_match.items@[k];
        items[k] matches Json::Object(parts) && {
            &&& forall|key: Seq<char>| #[trigger]
                parts.contains_key(key) <==> key == "Types"@ && asked.types@.len() > 0 || key
                    == "Tags"@ && asked.tags@.len() > 0
            &&& asked.types@.len() > 0 ==> (parts["Types"@] matches Json::Array(listed) && {
                &&& listed.len() == asked.types@.len()
                &&& forall|j: int|
                    0 <= j < listed.len() ==> #[trigger] listed[j] == Json::Text(asked.types@[j]@)
            })
            &&& asked.tags@.len() > 0 ==> (parts["Tags"@] matches Json::Array(listed) && {
                &&& listed.len() == asked.tags@.len()
                &&& forall|j: int|
                    0 <= j < listed.len() ==> #[trigger] listed[j] == Json::Text(asked.tags@[j]@)
            })
        }
    }) by {
        lemma_item_parts(condition.fail_if_events_match.items@[k]@);
    }
}

/// Without a condition the store is asked to fail on events of no type that carry a tag of no
/// event, and on nothing else.
pub proof fn law_no_condition_matches_nothing(bytes: Seq<u8>)
    requires
        json_parse(bytes) == Some(condition_as_json(optional_condition(None))),
    ensures
        json_parse(bytes) matches Some(Json::Object(body)) && {
            &&& forall|key: Seq<char>| #[trigger]
                body.contains_key(key) <==> key == "FailIfEventsMatch"@
            &&& body["FailIfEventsMatch"@] matches Json::Object(query) && {
                &&& forall|key: Seq<char>| #[trigger] query.contains_key(key) <==> key == "Items"@
                &&& query["Items"@] matches Json::Array(items) && {
                    &&& items.len() == 1
                    &&& items[0] matches Json::Object(parts) && {
                        &&& forall|key: Seq<char>| #[trigger]
                            parts.contains_key(key) <==> key == "Types"@ || key == "Tags"@
                        &&& parts["Types"@] matches Json::Array(types) && types.len() == 0
                        &&& parts["Tags"@] matches Json::Array(tags) && tags.len() == 1 && tags[0]
                            == Json::Text("__esb_unconditional__"@)
                    }
                }
            }
        },
{
    reveal_strlit("Types");
    reveal_strlit("Tags");
    assert("Types"@.len() != "Tags"@.len());
}

/// The query of a read has one item where a tag or a type is asked for, and is missing where
/// neither is. The item has the type that was given and the tag that was given, unchanged.
pub proof fn law_query_asks_for_tag_and_type(
    tag: Seq<char>,
    event_type: Option<Seq<char>>,
    query: Option<QueryProto>,
)
    requires
        optional_query(query) == requested_items(tag, event_type),
    ensures
        query is None <==> tag.len() == 0 && event_type is None,
        query matches Some(query) ==> {
            let types = query.items@[0].types@;
            let tags = query.items@[0].tags@;
            &&& query.items@.len() == 1
            &&& types.len() == (if event_type is Some { 1int } else { 0 })
            &&& event_type matches Some(event_type) ==> types[0]@ == event_type
            &&& tags.len() == (if tag.len() > 0 { 1int } else { 0 })
            &&& tag.len() > 0 ==> tags[0]@ == tag
        },
{
    if let Some(query) = query {
        let item = query.items@[0];
        assert(query@.len() == 1);
        assert(query@[0] == requested_item(tag, event_type));
        assert(item@ == query@[0]);
        assert(texts(item.types@).len() == item.types@.len());
        assert(texts(item.tags@).len() == item.tags@.len());
        if event_type is Some {
            assert(texts(item.types@)[0] == item.types@[0]@);
        }
        if tag.len() > 0 {
            assert(texts(item.tags@)[0] == item.tags@[0]@);
        }
    }
}

/// The JSON form of the query of a read has one item, with the type that was given and the tag that
/// was given, unchanged; what was not given is missing.
pub proof fn law_query_json_asks_for_tag_and_type(
    tag: Seq<char>,
    event_type: Option<Seq<char>>,
    bytes: Seq<u8>,
)
    requires
        json_parse(bytes) == Some(items_json(seq![item_json(requested_item(tag, event_type))])),
    ensures
        json_parse(bytes) matches Some(Json::Object(query)) && {
            &&& forall|key: Seq<char>| #[trigger] query.contains_key(key) <==> key == "Items"@
            &&& query["Items"@] matches Json::Array(items) && {
                &&& items.len() == 1
                &&& items[0] matches Json::Object(parts) && {
                    &&& forall|key: Seq<char>| #[trigger]
                        parts.contains_key(key) <==> key == "Types"@ && event_type is Some || key
                            == "Tags"@ && tag.len() > 0
                    &&& event_type matches Some(event_type) ==> (parts["Types"@] matches Json::Array(
                        types,
                    ) && types.len() == 1 && types[0] == Json::Text(event_type))
                    &&& tag.len() > 0 ==> (parts["Tags"@] matches Json::Array(tags) && tags.len()
                        == 1 && tags[0] == Json::Text(tag))
                }
            }
        },
{
    lemma_item_parts(requested_item(tag, event_type));
}

} // verus!
