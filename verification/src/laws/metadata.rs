//! Which metadata is sent with a batch, and which is read with an event.

use crate::event::{event_models, EventData, EventModel, ReadEvent};
use crate::json::{json_parse, Json};
use crate::metadata::{
    batch_metadata, carries, finitely_read, lemma_listed, lemma_text_members_finite, listed,
    merged, text_members,
};
use crate::proto::SequencedEventProto;
use crate::read::read_model;
use crate::text::{precedes, text_pairs};
use vstd::prelude::*;

verus! {

/// The value of a key in merged pairs is that of the last pair with the key: one of the second part
/// where it has one, else one of the first.
proof fn lemma_merged_concat(
    a: Seq<(Seq<char>, Seq<char>)>,
    b: Seq<(Seq<char>, Seq<char>)>,
    key: Seq<char>,
    value: Seq<char>,
)
    ensures
        merged(a + b).contains_key(key) && merged(a + b)[key] == value <==> {
            ||| exists|j: int|
                0 <= j < b.len() && #[trigger] b[j] == (key, value) && forall|l: int|
                    j < l < b.len() ==> (#[trigger] b[l]).0 != key
            ||| {
                &&& forall|l: int| 0 <= l < b.len() ==> (#[trigger] b[l]).0 != key
                &&& merged(a).contains_key(key)
                &&& merged(a)[key] == value
            }
        },
    decreases b.len(),
{
    if b.len() == 0 {
        assert(a + b =~= a);
    } else {
        let fewer = b.drop_last();
        let n = b.len() - 1;
        lemma_merged_concat(a, fewer, key, value);
        assert((a + b).drop_last() =~= a + fewer);
        assert((a + b).last() == b[n]);
        assert(forall|l: int| 0 <= l < n ==> #[trigger] fewer[l] == b[l]);
        if b[n].0 == key {
            if b[n].1 == value {
                assert(b[n] == (key, value));
            }
        } else {
            if exists|j: int|
                0 <= j < fewer.len() && #[trigger] fewer[j] == (key, value) && forall|l: int|
                    j < l < fewer.len() ==> (#[trigger] fewer[l]).0 != key {
                let j = choose|j: int|
                    0 <= j < fewer.len() && #[trigger] fewer[j] == (key, value) && forall|l: int|
                        j < l < fewer.len() ==> (#[trigger] fewer[l]).0 != key;
                assert forall|l: int| j < l < b.len() implies (#[trigger] b[l]).0 != key by {
                    if l < n {
                        assert(fewer[l].0 != key);
                    }
                }
                assert(b[j] == (key, value));
            }
            if exists|j: int|
                0 <= j < b.len() && #[trigger] b[j] == (key, value) && forall|l: int|
                    j < l < b.len() ==> (#[trigger] b[l]).0 != key {
                let j = choose|j: int|
                    0 <= j < b.len() && #[trigger] b[j] == (key, value) && forall|l: int|
                        j < l < b.len() ==> (#[trigger] b[l]).0 != key;
                assert forall|l: int| j < l < fewer.len() implies (#[trigger] fewer[l]).0 != key by {
                    assert(b[l].0 != key);
                }
                assert(fewer[j] == (key, value));
            }
            if forall|l: int| 0 <= l < fewer.len() ==> (#[trigger] fewer[l]).0 != key {
                assert forall|l: int| 0 <= l < b.len() implies (#[trigger] b[l]).0 != key by {
                    if l < n {
                        assert(fewer[l].0 != key);
                    }
                }
            }
        }
    }
}

/// Pair `j` of event `i` gives `value` to `key`, and no later pair gives the key a value.
spec fn gives_last(
    events: Seq<EventModel>,
    i: int,
    j: int,
    key: Seq<char>,
    value: Seq<char>,
) -> bool {
    &&& 0 <= i < events.len()
    &&& 0 <= j < events[i].metadata.len()
    &&& events[i].metadata[j] == (key, value)
    &&& forall|k: int, l: int|
        0 <= k < events.len() && 0 <= l < events[k].metadata.len() && (k > i || k == i && l > j)
            ==> (#[trigger] events[k].metadata[l]).0 != key
}

/// The metadata of a batch gives each key the value of its last pair.
proof fn lemma_last_value_counts(events: Seq<EventModel>, key: Seq<char>, value: Seq<char>)
    ensures
        merged(batch_metadata(events)).contains_key(key) && merged(batch_metadata(events))[key]
            == value <==> exists|i: int, j: int| gives_last(events, i, j, key, value),
    decreases events.len(),
{
    if events.len() == 0 {
        assert(batch_metadata(events) =~= seq![]);
    } else {
        let fewer = events.drop_last();
        let n = events.len() - 1;
        let own = events[n].metadata;
        let earlier = batch_metadata(fewer);
        lemma_last_value_counts(fewer, key, value);
        lemma_merged_concat(earlier, own, key, value);
        assert(batch_metadata(events) == earlier + own);
        assert(forall|k: int| 0 <= k < n ==> #[trigger] fewer[k] == events[k]);
        if exists|i: int, j: int| gives_last(events, i, j, key, value) {
            let (i, j) = choose|i: int, j: int| gives_last(events, i, j, key, value);
            if i == n {
                assert(own[j] == (key, value));
                assert forall|l: int| j < l < own.len() implies (#[trigger] own[l]).0 != key by {
                    assert(events[n].metadata[l].0 != key);
                }
            } else {
                assert forall|l: int| 0 <= l < own.len() implies (#[trigger] own[l]).0 != key by {
                    assert(events[n].metadata[l].0 != key);
                }
                assert forall|k: int, l: int|
                    0 <= k < fewer.len() && 0 <= l < fewer[k].metadata.len() && (k > i || k == i && l
                        > j) implies (#[trigger] fewer[k].metadata[l]).0 != key by {
                    assert(events[k].metadata[l].0 != key);
                }
                assert(gives_last(fewer, i, j, key, value));
            }
        }
        if exists|j: int|
            0 <= j < own.len() && #[trigger] own[j] == (key, value) && forall|l: int|
                j < l < own.len() ==> (#[trigger] own[l]).0 != key {
            let j = choose|j: int|
                0 <= j < own.len() && #[trigger] own[j] == (key, value) && forall|l: int|
                    j < l < own.len() ==> (#[trigger] own[l]).0 != key;
            assert forall|k: int, l: int|
                0 <= k < events.len() && 0 <= l < events[k].metadata.len() && (k > n || k == n && l
                    > j) implies (#[trigger] events[k].metadata[l]).0 != key by {
                assert(own[l].0 != key);
            }
            assert(gives_last(events, n, j, key, value));
        }
        if (forall|l: int| 0 <= l < own.len() ==> (#[trigger] own[l]).0 != key) && exists|
            i: int,
            j: int,
        | gives_last(fewer, i, j, key, value) {
            let (i, j) = choose|i: int, j: int| gives_last(fewer, i, j, key, value);
            assert forall|k: int, l: int|
                0 <= k < events.len() && 0 <= l < events[k].metadata.len() && (k > i || k == i && l
                    > j) implies (#[trigger] events[k].metadata[l]).0 != key by {
                if k == n {
                    assert(own[l].0 != key);
                } else {
                    assert(fewer[k].metadata[l].0 != key);
                }
            }
            assert(gives_last(events, i, j, key, value));
        }
    }
}

/// A batch gives some key a value exactly where some event has metadata.
proof fn lemma_no_metadata(events: Seq<EventModel>)
    ensures
        merged(batch_metadata(events)) == Map::<Seq<char>, Seq<char>>::empty() <==> forall|i: int|
            0 <= i < events.len() ==> (#[trigger] events[i]).metadata.len() == 0,
    decreases events.len(),
{
    if events.len() > 0 {
        let fewer = events.drop_last();
        lemma_no_metadata(fewer);
        assert(forall|k: int| 0 <= k < fewer.len() ==> #[trigger] fewer[k] == events[k]);
        let own = events.last().metadata;
        let all = batch_metadata(events);
        if own.len() == 0 {
            assert(all =~= batch_metadata(fewer));
            if forall|i: int| 0 <= i < fewer.len() ==> (#[trigger] fewer[i]).metadata.len() == 0 {
                assert forall|i: int| 0 <= i < events.len() implies (
                #[trigger] events[i]).metadata.len() == 0 by {
                    if i < fewer.len() {
                        assert(fewer[i].metadata.len() == 0);
                    }
                }
            }
        } else {
            assert(merged(all).contains_key(all.last().0));
            assert(events[events.len() - 1].metadata.len() > 0);
        }
    }
}

/// The bytes that carry the metadata of a batch hold, under `custom`, exactly the pairs that no
/// later pair of the batch overwrites: every key of every event, with the value that it has last.
/// They hold nothing else, and they are empty exactly where no event has metadata.
pub proof fn law_batch_carries_last_values(
    events: Seq<EventData>,
    bytes: Seq<u8>,
    key: Seq<char>,
    value: Seq<char>,
)
    requires
        carries(bytes, merged(batch_metadata(event_models(events)))),
    ensures
        bytes.len() == 0 <==> forall|i: int|
            0 <= i < events.len() ==> (#[trigger] events[i]).metadata@.len() == 0,
        bytes.len() > 0 ==> (json_parse(bytes) matches Some(Json::Object(body)) && {
            &&& forall|name: Seq<char>| #[trigger] body.contains_key(name) <==> name == "custom"@
            &&& body["custom"@] matches Json::Object(custom) && {
                &&& custom.contains_key(key) ==> custom[key] is Text
                &&& custom.contains_key(key) && custom[key] == Json::Text(value) <==> exists|
                    i: int,
                    j: int,
                |
                    {
                        &&& 0 <= i < events.len()
                        &&& 0 <= j < events[i].metadata@.len()
                        &&& (#[trigger] events[i].metadata@[j]).0@ == key
                        &&& events[i].metadata@[j].1@ == value
                        &&& forall|k: int, l: int|
                            0 <= k < events.len() && 0 <= l < events[k].metadata@.len() && (k > i
                                || k == i && l > j) ==> (#[trigger] events[k].metadata@[l]).0@ != key
                    }
            }
        }),
{
    let models = event_models(events);
    let metadata = merged(batch_metadata(models));
    assert(forall|i: int| 0 <= i < events.len() ==> #[trigger] models[i] == events[i]@);
    assert forall|i: int| 0 <= i < events.len() implies (#[trigger] models[i]).metadata.len()
        == events[i].metadata@.len() by {}
    assert forall|i: int, j: int|
        0 <= i < events.len() && 0 <= j < events[i].metadata@.len() implies (
    #[trigger] models[i].metadata[j]) == (events[i].metadata@[j].0@, events[i].metadata@[j].1@) by {
    }
    lemma_no_metadata(models);
    if forall|i: int| 0 <= i < events.len() ==> (#[trigger] events[i]).metadata@.len() == 0 {
        assert(forall|i: int|
            0 <= i < models.len() ==> (#[trigger] models[i]).metadata.len() == 0);
    }
    if forall|i: int| 0 <= i < models.len() ==> (#[trigger] models[i]).metadata.len() == 0 {
        assert forall|i: int| 0 <= i < events.len() implies (#[trigger] events[i]).metadata@.len()
            == 0 by {
            assert(models[i].metadata.len() == 0);
        }
    }
    lemma_last_value_counts(models, key, value);
    if exists|i: int, j: int| gives_last(models, i, j, key, value) {
        let (i, j) = choose|i: int, j: int| gives_last(models, i, j, key, value);
        assert(models[i].metadata[j] == (events[i].metadata@[j].0@, events[i].metadata@[j].1@));
        assert forall|k: int, l: int|
            0 <= k < events.len() && 0 <= l < events[k].metadata@.len() && (k > i || k == i && l > j)
            implies (#[trigger] events[k].metadata@[l]).0@ != key by {
            assert(models[k].metadata[l].0 != key);
        }
        assert(events[i].metadata@[j].0@ == key);
    }
    assert forall|i: int, j: int|
        #![trigger events[i].metadata@[j]]
        {
            &&& 0 <= i < events.len()
            &&& 0 <= j < events[i].metadata@.len()
            &&& events[i].metadata@[j].0@ == key
            &&& events[i].metadata@[j].1@ == value
            &&& forall|k: int, l: int|
                0 <= k < events.len() && 0 <= l < events[k].metadata@.len() && (k > i || k == i && l
                    > j) ==> (#[trigger] events[k].metadata@[l]).0@ != key
        } implies gives_last(models, i, j, key, value) by {
        assert(models[i].metadata[j] == (key, value));
        assert forall|k: int, l: int|
            0 <= k < models.len() && 0 <= l < models[k].metadata.len() && (k > i || k == i && l > j)
            implies (#[trigger] models[k].metadata[l]).0 != key by {
            assert(events[k].metadata@[l].0@ != key);
        }
    }
}

/// An event is read with the texts of the JSON object that its metadata bytes hold: first those in
/// the object under `custom`, then those beside it, each part in the order of its keys and with
/// each key once. Bytes that hold no JSON object give none. An object counts whether or not it has
/// a member `custom`. Gives the number of texts that come from the object under `custom`.
pub proof fn law_event_is_read_with_every_text(
    stored: SequencedEventProto,
    event: ReadEvent,
) -> (n: int)
    requires
        event@ == read_model(stored),
        finitely_read(stored.metadata_json@),
    ensures
        ({
            let bytes = stored.metadata_json@;
            let metadata = event.metadata@;
            if bytes.len() > 0 && json_parse(bytes) is Some && json_parse(bytes)->0 is Object {
                let body = json_parse(bytes)->0->Object_0;
                &&& 0 <= n <= metadata.len()
                &&& forall|i: int, j: int|
                    0 <= i < j < n ==> precedes(
                        (#[trigger] metadata[i]).0@,
                        (#[trigger] metadata[j]).0@,
                    )
                &&& forall|i: int, j: int|
                    n <= i < j < metadata.len() ==> precedes(
                        (#[trigger] metadata[i]).0@,
                        (#[trigger] metadata[j]).0@,
                    )
                &&& forall|i: int|
                    0 <= i < n ==> {
                        &&& body.contains_key("custom"@)
                        &&& body["custom"@] is Object
                        &&& body["custom"@]->Object_0.contains_key(
                            (#[trigger] metadata[i]).0@,
                        )
                        &&& body["custom"@]->Object_0[metadata[i].0@] == Json::Text(
                            metadata[i].1@,
                        )
                    }
                &&& forall|i: int|
                    n <= i < metadata.len() ==> {
                        &&& (#[trigger] metadata[i]).0@ != "custom"@
                        &&& body.contains_key(metadata[i].0@)
                        &&& body[metadata[i].0@] == Json::Text(metadata[i].1@)
                    }
                &&& body.contains_key("custom"@) && body["custom"@] is Object ==> forall|
                    key: Seq<char>,
                |
                    (#[trigger] body["custom"@]->Object_0.contains_key(key))
                        && body["custom"@]->Object_0[key] is Text ==> exists|i: int|
                        0 <= i < n && (#[trigger] metadata[i]).0@ == key
                &&& forall|key: Seq<char>|
                    key != "custom"@ && (#[trigger] body.contains_key(key)) && body[key] is Text
                        ==> exists|i: int|
                        n <= i < metadata.len() && (#[trigger] metadata[i]).0@ == key
            } else {
                metadata.len() == 0
            }
        }),
{
    let bytes = stored.metadata_json@;
    let metadata = event.metadata@;
    let pairs = text_pairs(metadata);
    assert(pairs.len() == metadata.len());
    assert(forall|i: int|
        0 <= i < metadata.len() ==> #[trigger] pairs[i] == (metadata[i].0@, metadata[i].1@));
    if bytes.len() > 0 && json_parse(bytes) is Some && json_parse(bytes)->0 is Object {
        let body = json_parse(bytes)->0->Object_0;
        let others = text_members(body).remove("custom"@);
        lemma_text_members_finite(body);
        lemma_listed(others);
        let has_custom = body.contains_key("custom"@) && body["custom"@] is Object;
        let inner = if has_custom {
            text_members(body["custom"@]->Object_0)
        } else {
            Map::empty()
        };
        let first = if has_custom {
            lemma_text_members_finite(body["custom"@]->Object_0);
            lemma_listed(inner);
            listed(inner)
        } else {
            seq![]
        };
        let n = first.len() as int;
        assert(pairs == first + listed(others));
        let first_keys = first.map_values(|pair: (Seq<char>, Seq<char>)| pair.0);
        let other_keys = listed(others).map_values(|pair: (Seq<char>, Seq<char>)| pair.0);
        assert forall|i: int, j: int| 0 <= i < j < n implies precedes(
            (#[trigger] metadata[i]).0@,
            (#[trigger] metadata[j]).0@,
        ) by {
            assert(first_keys[i] == pairs[i].0);
            assert(first_keys[j] == pairs[j].0);
        }
        assert forall|i: int, j: int| n <= i < j < metadata.len() implies precedes(
            (#[trigger] metadata[i]).0@,
            (#[trigger] metadata[j]).0@,
        ) by {
            assert(other_keys[i - n] == pairs[i].0);
            assert(other_keys[j - n] == pairs[j].0);
        }
        assert forall|i: int| 0 <= i < n implies {
            &&& body.contains_key("custom"@)
            &&& body["custom"@] is Object
            &&& body["custom"@]->Object_0.contains_key((#[trigger] metadata[i]).0@)
            &&& body["custom"@]->Object_0[metadata[i].0@] == Json::Text(metadata[i].1@)
        } by {
            assert(first[i] == pairs[i]);
            assert(first.contains((pairs[i].0, pairs[i].1)));
        }
        assert forall|i: int| n <= i < metadata.len() implies {
            &&& (#[trigger] metadata[i]).0@ != "custom"@
            &&& body.contains_key(metadata[i].0@)
            &&& body[metadata[i].0@] == Json::Text(metadata[i].1@)
        } by {
            assert(listed(others)[i - n] == pairs[i]);
            assert(listed(others).contains((pairs[i].0, pairs[i].1)));
        }
        if has_custom {
            let custom = body["custom"@]->Object_0;
            assert forall|key: Seq<char>|
                (#[trigger] custom.contains_key(key)) && custom[key] is Text implies exists|i: int|
                0 <= i < n && (#[trigger] metadata[i]).0@ == key by {
                assert(first.contains((key, inner[key])));
                let i = choose|i: int| 0 <= i < first.len() && first[i] == (key, inner[key]);
                assert(pairs[i] == first[i]);
                assert(metadata[i].0@ == key);
            }
        }
        assert forall|key: Seq<char>|
            key != "custom"@ && (#[trigger] body.contains_key(key)) && body[key] is Text implies exists|
            i: int,
        | n <= i < metadata.len() && (#[trigger] metadata[i]).0@ == key by {
            assert(listed(others).contains((key, others[key])));
            let i = choose|i: int|
                0 <= i < listed(others).len() && listed(others)[i] == (key, others[key]);
            assert(pairs[n + i] == listed(others)[i]);
            assert(metadata[n + i].0@ == key);
        }
        n
    } else {
        0
    }
}

/// An event is read with a text under a key exactly where its metadata bytes hold a JSON object
/// that has this text under the key, or in the object under `custom`; a text under `custom` itself
/// does not count.
pub proof fn law_event_metadata_is_what_its_json_holds(
    stored: SequencedEventProto,
    event: ReadEvent,
    key: Seq<char>,
    text: Seq<char>,
)
    requires
        event@ == read_model(stored),
        finitely_read(stored.metadata_json@),
    ensures
        (exists|i: int|
            0 <= i < event.metadata@.len() && (#[trigger] event.metadata@[i]).0@ == key
                && event.metadata@[i].1@ == text) <==> {
            &&& stored.metadata_json@.len() > 0
            &&& json_parse(stored.metadata_json@) matches Some(Json::Object(body)) && {
                ||| key != "custom"@ && body.contains_key(key) && body[key] == Json::Text(text)
                ||| {
                    &&& body.contains_key("custom"@)
                    &&& body["custom"@] is Object
                    &&& body["custom"@]->Object_0.contains_key(key)
                    &&& body["custom"@]->Object_0[key] == Json::Text(text)
                }
            }
        },
{
    let _ = law_event_is_read_with_every_text(stored, event);
    let bytes = stored.metadata_json@;
    if bytes.len() > 0 && json_parse(bytes) is Some && json_parse(bytes)->0 is Object {
        let body = json_parse(bytes)->0->Object_0;
        assert(body.contains_key(key) || !body.contains_key(key));
        assert(body["custom"@]->Object_0.contains_key(key)
            || !body["custom"@]->Object_0.contains_key(key));
    }
}

} // verus!
