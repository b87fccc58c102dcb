//! Event metadata as JSON: how it is written with a batch and how it is read with an event.

use crate::adapter::BoomerangAdapter;
use crate::event::{event_models, EventData, EventModel};
use crate::json::{
    entries, from_slice, json_of, json_parse, json_text, keys, member, members_of, object_value,
    plain, text_value, to_vec, Json, Members, MAX_NESTING,
};
use crate::text::{
    ascending, lemma_finite_listing, lemma_listing, listing, optional_str, precedes, text_pairs,
};
use vstd::prelude::*;

verus! {

/// Texts by key.
pub type TextMap = Map<Seq<char>, Seq<char>>;

/// The values that a sequence of pairs gives to its keys: of two pairs with one key the later one
/// counts.
pub open spec fn merged(pairs: Seq<(Seq<char>, Seq<char>)>) -> TextMap
    decreases pairs.len(),
{
    if pairs.len() == 0 {
        TextMap::empty()
    } else {
        merged(pairs.drop_last()).insert(pairs.last().0, pairs.last().1)
    }
}

/// The metadata of all events of a batch, in their order.
pub open spec fn batch_metadata(events: Seq<EventModel>) -> Seq<(Seq<char>, Seq<char>)>
    decreases events.len(),
{
    if events.len() == 0 {
        seq![]
    } else {
        batch_metadata(events.drop_last()) + events.last().metadata
    }
}

/// Texts by key as the members of a JSON object.
pub open spec fn text_object(texts: TextMap) -> Members {
    texts.map_values(|text: Seq<char>| Json::Text(text))
}

/// The JSON object that carries metadata.
pub open spec fn custom_json(metadata: TextMap) -> Json {
    Json::Object(Members::empty().insert("custom"@, Json::Object(text_object(metadata))))
}

/// The bytes that carry the metadata of a batch: none where the batch has none.
pub open spec fn metadata_bytes(events: Seq<EventModel>) -> Seq<u8> {
    let metadata = merged(batch_metadata(events));
    if metadata == TextMap::empty() {
        seq![]
    } else {
        json_text(custom_json(metadata))
    }
}

/// `bytes` are a JSON text that carries `metadata`, or empty where there is none.
pub open spec fn carries(bytes: Seq<u8>, metadata: TextMap) -> bool {
    &&& bytes.len() == 0 <==> metadata == TextMap::empty()
    &&& bytes.len() > 0 ==> json_parse(bytes) == Some(custom_json(metadata))
}

/// The members of an object that are texts.
pub open spec fn text_members(members: Members) -> TextMap {
    TextMap::new(
        |key: Seq<char>| members.contains_key(key) && members[key] is Text,
        |key: Seq<char>| members[key]->Text_0,
    )
}

/// Texts by key as a list in the order of the keys.
pub open spec fn listed(texts: TextMap) -> Seq<(Seq<char>, Seq<char>)> {
    listing(texts.dom()).map_values(|key: Seq<char>| (key, texts[key]))
}

/// The metadata in a JSON value: the texts in the object under `custom`, then the other texts
/// beside it.
pub open spec fn metadata_in(json: Json) -> Seq<(Seq<char>, Seq<char>)> {
    match json {
        Json::Object(members) => {
            let custom = if members.contains_key("custom"@) && members["custom"@] is Object {
                listed(text_members(members["custom"@]->Object_0))
            } else {
                seq![]
            };
            custom + listed(text_members(members).remove("custom"@))
        },
        _ => seq![],
    }
}

/// The metadata in bytes: none where they are no JSON text.
pub open spec fn metadata_read(bytes: Seq<u8>) -> Seq<(Seq<char>, Seq<char>)> {
    if bytes.len() == 0 {
        seq![]
    } else {
        match json_parse(bytes) {
            Some(json) => metadata_in(json),
            None => seq![],
        }
    }
}

/// The objects in which metadata is looked up have finitely many members.
pub open spec fn finite_objects(json: Json) -> bool {
    json matches Json::Object(members) ==> {
        &&& members.dom().finite()
        &&& members.contains_key("custom"@) && members["custom"@] is Object
            ==> members["custom"@]->Object_0.dom().finite()
    }
}

/// What is read from bytes to look up metadata has finitely many members.
pub open spec fn finitely_read(bytes: Seq<u8>) -> bool {
    bytes.len() > 0 && json_parse(bytes) is Some ==> finite_objects(json_parse(bytes)->0)
}

/// Of an object with finitely many members finitely many are texts.
pub proof fn lemma_text_members_finite(members: Members)
    requires
        members.dom().finite(),
    ensures
        text_members(members).dom().finite(),
        text_members(members).remove("custom"@).dom().finite(),
{
    assert(text_members(members).dom().subset_of(members.dom()));
    vstd::set_lib::lemma_set_subset_finite(members.dom(), text_members(members).dom());
}

/// Pairs give values to finitely many keys.
pub proof fn lemma_merged_finite(pairs: Seq<(Seq<char>, Seq<char>)>)
    ensures
        merged(pairs).dom().finite(),
    decreases pairs.len(),
{
    if pairs.len() > 0 {
        lemma_merged_finite(pairs.drop_last());
    }
}

/// The list of finitely many texts holds each with its key, in the order of the keys.
pub proof fn lemma_listed(texts: TextMap)
    requires
        texts.dom().finite(),
    ensures
        ascending(listed(texts).map_values(|pair: (Seq<char>, Seq<char>)| pair.0)),
        forall|key: Seq<char>, text: Seq<char>| #[trigger]
            listed(texts).contains((key, text)) <==> texts.contains_key(key) && texts[key] == text,
{
    let keys = listing(texts.dom());
    lemma_finite_listing(texts.dom());
    assert(listed(texts).map_values(|pair: (Seq<char>, Seq<char>)| pair.0) =~= keys);
    assert forall|key: Seq<char>, text: Seq<char>| #[trigger]
        listed(texts).contains((key, text)) <==> texts.contains_key(key) && texts[key] == text by {
        if listed(texts).contains((key, text)) {
            let i = choose|i: int| 0 <= i < listed(texts).len() && listed(texts)[i] == (key, text);
            assert(keys[i] == key);
            assert(keys.to_set().contains(key));
        }
        if texts.contains_key(key) && texts[key] == text {
            assert(keys.to_set().contains(key));
            let i = choose|i: int| 0 <= i < keys.len() && keys[i] == key;
            assert(listed(texts)[i] == (key, text));
        }
    }
}

/// The metadata in an object is exactly the texts in the object under `custom` and the texts
/// beside it.
pub proof fn law_metadata_is_every_text(members: Members, key: Seq<char>, text: Seq<char>)
    requires
        finite_objects(Json::Object(members)),
    ensures
        metadata_in(Json::Object(members)).contains((key, text)) <==> {
            ||| key != "custom"@ && members.contains_key(key) && members[key] == Json::Text(text)
            ||| {
                &&& members.contains_key("custom"@)
                &&& members["custom"@] is Object
                &&& members["custom"@]->Object_0.contains_key(key)
                &&& members["custom"@]->Object_0[key] == Json::Text(text)
            }
        },
{
    lemma_text_members_finite(members);
    let others = listed(text_members(members).remove("custom"@));
    lemma_listed(text_members(members).remove("custom"@));
    let custom = if members.contains_key("custom"@) && members["custom"@] is Object {
        let inner = members["custom"@]->Object_0;
        lemma_text_members_finite(inner);
        lemma_listed(text_members(inner));
        listed(text_members(inner))
    } else {
        seq![]
    };
    let all = custom + others;
    assert(metadata_in(Json::Object(members)) == all);
    assert(all.contains((key, text)) <==> custom.contains((key, text)) || others.contains(
        (key, text),
    )) by {
        if custom.contains((key, text)) {
            let i = choose|i: int| 0 <= i < custom.len() && custom[i] == (key, text);
            assert(all[i] == (key, text));
        }
        if others.contains((key, text)) {
            let i = choose|i: int| 0 <= i < others.len() && others[i] == (key, text);
            assert(all[custom.len() + i] == (key, text));
        }
        if all.contains((key, text)) {
            let i = choose|i: int| 0 <= i < all.len() && all[i] == (key, text);
            if i < custom.len() {
                assert(custom[i] == (key, text));
            } else {
                assert(others[i - custom.len()] == (key, text));
            }
        }
    }
}

proof fn lemma_custom_plain(metadata: TextMap)
    ensures
        plain(custom_json(metadata), MAX_NESTING as nat),
{
    reveal_with_fuel(plain, 3);
}

/// No texts make an empty list.
proof fn lemma_nothing_listed()
    ensures
        listed(TextMap::empty()) == Seq::<(Seq<char>, Seq<char>)>::empty(),
{
    let nothing: Seq<Seq<char>> = seq![];
    assert(nothing.to_set() =~= TextMap::empty().dom());
    lemma_listing(nothing);
    assert(listed(TextMap::empty()) =~= seq![]);
}

/// What is written as metadata reads back as the same keys with the same values, listed in the
/// order of the keys.
pub proof fn law_metadata_round_trip(metadata: TextMap, bytes: Seq<u8>)
    requires
        carries(bytes, metadata),
    ensures
        metadata_read(bytes) == listed(metadata),
{
    let members = Members::empty().insert("custom"@, Json::Object(text_object(metadata)));
    assert(text_members(text_object(metadata)) =~= metadata);
    assert(text_members(members).remove("custom"@) =~= TextMap::empty());
    lemma_nothing_listed();
    assert(metadata_in(custom_json(metadata)) =~= listed(metadata));
}

/// Pairs that come after others overwrite them.
proof fn lemma_merged_push(pairs: Seq<(Seq<char>, Seq<char>)>, pair: (Seq<char>, Seq<char>))
    ensures
        merged(pairs.push(pair)) == merged(pairs).insert(pair.0, pair.1),
{
    assert(pairs.push(pair).drop_last() =~= pairs);
}

impl BoomerangAdapter {
    /// The metadata of a batch as the members of a JSON object.
    fn custom_members(events: &[EventData]) -> (custom: serde_json::Map<String, serde_json::Value>)
        ensures
            members_of(custom) == text_object(merged(batch_metadata(event_models(events@)))),
    {
        let ghost models = event_models(events@);
        let mut custom = serde_json::Map::new();
        assert(members_of(custom) =~= text_object(merged(batch_metadata(models.take(0)))));
        for i in 0..events.len()
            invariant
                models == event_models(events@),
                members_of(custom) == text_object(merged(batch_metadata(models.take(i as int)))),
        {
            let metadata = &events[i].metadata;
            let ghost before = batch_metadata(models.take(i as int));
            let ghost pairs = text_pairs(metadata@);
            assert(before + pairs.take(0) =~= before);
            for j in 0..metadata.len()
                invariant
                    pairs == text_pairs(metadata@),
                    members_of(custom) == text_object(merged(before + pairs.take(j as int))),
            {
                custom.insert(metadata[j].0.clone(), text_value(metadata[j].1.clone()));
                proof {
                    let pair = pairs[j as int];
                    assert(before + pairs.take(j + 1) =~= (before + pairs.take(j as int)).push(
                        pair,
                    ));
                    lemma_merged_push(before + pairs.take(j as int), pair);
                    assert(members_of(custom) =~= text_object(
                        merged(before + pairs.take(j + 1)),
                    ));
                }
            }
            assert(pairs.take(metadata.len() as int) =~= pairs);
            assert(models.take(i + 1).drop_last() =~= models.take(i as int));
            assert(models.take(i + 1).last() == events@[i as int]@);
        }
        assert(models.take(events.len() as int) =~= models);
        custom
    }

    /// The metadata of a batch as JSON bytes: where two events give a key different values, the
    /// later one counts. What is written reads back as what was given.
    pub fn metadata_json(events: &[EventData]) -> (bytes: Vec<u8>)
        ensures
            bytes@ == metadata_bytes(event_models(events@)),
            carries(bytes@, merged(batch_metadata(event_models(events@)))),
            metadata_read(bytes@) == listed(merged(batch_metadata(event_models(events@)))),
    {
        let custom = Self::custom_members(events);
        let ghost metadata = merged(batch_metadata(event_models(events@)));
        if custom.is_empty() {
            proof {
                assert forall|key: Seq<char>| !metadata.contains_key(key) by {
                    assert(text_object(metadata).contains_key(key) == metadata.contains_key(key));
                }
                assert(metadata =~= TextMap::empty());
                lemma_nothing_listed();
            }
            return Vec::new();
        }
        assert(metadata == TextMap::empty() ==> text_object(metadata) =~= Members::empty());
        let mut body = serde_json::Map::new();
        body.insert("custom".to_string(), object_value(custom));
        proof {
            lemma_custom_plain(metadata);
        }
        match to_vec(&object_value(body)) {
            Ok(bytes) => {
                proof {
                    law_metadata_round_trip(metadata, bytes@);
                }
                bytes
            },
            Err(_) => Vec::new(),
        }
    }
}

/// Texts by key without one key, where one is given.
pub open spec fn without(texts: TextMap, key: Option<Seq<char>>) -> TextMap {
    match key {
        Some(key) => texts.remove(key),
        None => texts,
    }
}

/// The entries at increasing places of an ascending list are the listing of the texts, where the
/// places are those of its keys.
proof fn lemma_picked(
    keys: Seq<Seq<char>>,
    texts: TextMap,
    picked: Seq<int>,
    pairs: Seq<(Seq<char>, Seq<char>)>,
)
    requires
        ascending(keys),
        texts.dom().subset_of(keys.to_set()),
        picked.len() == pairs.len(),
        forall|j: int| 0 <= j < picked.len() ==> 0 <= #[trigger] picked[j] < keys.len(),
        forall|j: int, k: int|
            0 <= j < k < picked.len() ==> #[trigger] picked[j] < #[trigger] picked[k],
        forall|j: int|
            0 <= j < picked.len() ==> {
                &&& texts.contains_key(keys[#[trigger] picked[j]])
                &&& pairs[j] == (keys[picked[j]], texts[keys[picked[j]]])
            },
        forall|i: int|
            0 <= i < keys.len() && texts.contains_key(#[trigger] keys[i]) ==> picked.contains(i),
    ensures
        pairs == listed(texts),
{
    let listed_keys = pairs.map_values(|pair: (Seq<char>, Seq<char>)| pair.0);
    assert forall|j: int, k: int| 0 <= j < k < listed_keys.len() implies precedes(
        #[trigger] listed_keys[j],
        #[trigger] listed_keys[k],
    ) by {
        assert(picked[j] < picked[k]);
        assert(precedes(keys[picked[j]], keys[picked[k]]));
    }
    assert forall|key: Seq<char>| texts.dom().contains(key) implies listed_keys.to_set().contains(
        key,
    ) by {
        assert(keys.to_set().contains(key));
        let i = choose|i: int| 0 <= i < keys.len() && keys[i] == key;
        assert(picked.contains(i));
        let j = choose|j: int| 0 <= j < picked.len() && picked[j] == i;
        assert(listed_keys[j] == key);
    }
    assert forall|key: Seq<char>| listed_keys.to_set().contains(key) implies texts.dom().contains(
        key,
    ) by {
        let j = choose|j: int| 0 <= j < listed_keys.len() && listed_keys[j] == key;
        assert(texts.contains_key(keys[picked[j]]));
    }
    assert(listed_keys.to_set() =~= texts.dom());
    lemma_listing(listed_keys);
    assert forall|j: int| 0 <= j < pairs.len() implies pairs[j] == #[trigger] listed(texts)[j] by {
        assert(texts.contains_key(keys[picked[j]]));
        assert(listed_keys[j] == pairs[j].0);
    }
    assert(pairs =~= listed(texts));
}

/// The members of an object that are texts, without the one under a key, in the order of the keys.
fn text_entries(
    members: &serde_json::Map<String, serde_json::Value>,
    skipped: Option<&str>,
) -> (out: Vec<(String, String)>)
    ensures
        text_pairs(out@) == listed(
            without(text_members(members_of(*members)), optional_str(skipped)),
        ),
        members_of(*members).dom().finite(),
{
    let ghost target = without(text_members(members_of(*members)), optional_str(skipped));
    let ghost mut picked: Seq<int> = seq![];
    let mut out: Vec<(String, String)> = Vec::new();
    let listed = entries(members);
    proof {
        vstd::seq_lib::seq_to_set_is_finite(keys(listed@));
    }
    for i in 0..listed.len()
        invariant
            target == without(text_members(members_of(*members)), optional_str(skipped)),
            keys(listed@).to_set() == members_of(*members).dom(),
            forall|j: int|
                0 <= j < listed@.len() ==> json_of(*(#[trigger] listed@[j]).1) == members_of(
                    *members,
                )[listed@[j].0@],
            picked.len() == out@.len(),
            forall|j: int| 0 <= j < picked.len() ==> 0 <= #[trigger] picked[j] < i,
            forall|j: int, k: int|
                0 <= j < k < picked.len() ==> #[trigger] picked[j] < #[trigger] picked[k],
            forall|j: int|
                0 <= j < picked.len() ==> {
                    &&& target.contains_key(keys(listed@)[#[trigger] picked[j]])
                    &&& text_pairs(out@)[j] == (
                        keys(listed@)[picked[j]],
                        target[keys(listed@)[picked[j]]],
                    )
                },
            forall|j: int|
                0 <= j < i && target.contains_key(#[trigger] keys(listed@)[j]) ==> picked.contains(
                    j,
                ),
    {
        let (key, value) = listed[i];
        assert(keys(listed@)[i as int] == key@);
        assert(members_of(*members).dom().contains(key@)) by {
            assert(keys(listed@).contains(key@));
        }
        let skip = match skipped {
            Some(skipped) => *key == skipped.to_string(),
            None => false,
        };
        if !skip {
            if let Some(text) = value.as_str() {
                let ghost before = picked;
                let ghost pairs = text_pairs(out@);
                out.push((key.clone(), text.to_string()));
                proof {
                    picked = before.push(i as int);
                    assert(text_pairs(out@) =~= pairs.push((key@, text@)));
                    assert(target.contains_key(key@) && target[key@] == text@);
                    assert(picked[before.len() as int] == i);
                    assert forall|j: int|
                        0 <= j < i + 1 && target.contains_key(
                            #[trigger] keys(listed@)[j],
                        ) implies picked.contains(j) by {
                        if j < i {
                            let k = choose|k: int| 0 <= k < before.len() && before[k] == j;
                            assert(picked[k] == j);
                        }
                    }
                }
            }
        }
    }
    proof {
        lemma_picked(keys(listed@), target, picked, text_pairs(out@));
    }
    out
}

/// The metadata in a JSON value.
pub fn metadata_from_value(value: &serde_json::Value) -> (metadata: Vec<(String, String)>)
    ensures
        text_pairs(metadata@) == metadata_in(json_of(*value)),
        finite_objects(json_of(*value)),
{
    let Some(members) = value.as_object() else {
        let none: Vec<(String, String)> = Vec::new();
        assert(text_pairs(none@) =~= seq![]);
        return none;
    };
    let mut out: Vec<(String, String)> = Vec::new();
    assert(text_pairs(out@) =~= seq![]);
    if let Some(custom) = member(members, "custom") {
        if let Some(custom) = custom.as_object() {
            out = text_entries(custom, None);
        }
    }
    let ghost custom = text_pairs(out@);
    let mut rest = text_entries(members, Some("custom"));
    let ghost others = text_pairs(rest@);
    out.append(&mut rest);
    assert(text_pairs(out@) =~= custom + others);
    out
}

/// The metadata in the bytes that come with an event: none where they are no JSON text.
pub fn metadata_from_json(bytes: &[u8]) -> (metadata: Vec<(String, String)>)
    ensures
        text_pairs(metadata@) == metadata_read(bytes@),
        finitely_read(bytes@),
{
    if bytes.len() > 0 {
        if let Ok(value) = from_slice(bytes) {
            return metadata_from_value(&value);
        }
    }
    let none: Vec<(String, String)> = Vec::new();
    assert(text_pairs(none@) =~= seq![]);
    none
}

} // verus!
