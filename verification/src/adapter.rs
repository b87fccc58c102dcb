//! The adapter's conversions between the harness and the store.

use crate::event::{event_models, EventData, EventModel};
use crate::number::{as_signed, twos_complement};
use crate::proto::{serialized_models, SerializedEventModel, SerializedEventProto};
use crate::text::{ascending, insert_ascending, lemma_listing, listing, texts};
use vstd::prelude::*;

verus! {

/// What the adapter computes: the requests it sends, and what it makes of the replies.
pub struct BoomerangAdapter;

/// Why the adapter refuses a request.
#[derive(Debug, Clone, Copy, PartialEq, Eq, Structural)]
pub enum AdapterError {
    /// The first event of an append to a stream has no first tag to name the stream.
    MissingStreamId,
}

impl AdapterError {
    /// The error in words.
    pub fn message(&self) -> (message: String)
        ensures
            message@
                == "append_to_stream requires EventData.tags[0] as the harness stream identifier"@,
    {
        "append_to_stream requires EventData.tags[0] as the harness stream identifier".to_string()
    }
}

/// An event as it is sent.
pub open spec fn serialized(event: EventModel) -> SerializedEventModel {
    SerializedEventModel { event_type: event.event_type, payload: event.payload }
}

/// Events as they are sent.
pub open spec fn all_serialized(events: Seq<EventModel>) -> Seq<SerializedEventModel> {
    events.map_values(|event: EventModel| serialized(event))
}

/// The tags that occur in a batch.
pub open spec fn tag_set(events: Seq<EventModel>) -> Set<Seq<char>> {
    Set::new(
        |tag: Seq<char>| exists|i: int| 0 <= i < events.len() && #[trigger] events[i].tags.contains(tag),
    )
}

/// The events of a batch do not all have the same set of tags.
pub open spec fn heterogeneous(events: Seq<EventModel>) -> bool {
    exists|i: int|
        0 <= i < events.len() && (#[trigger] events[i]).tags.to_set() != events[0].tags.to_set()
}

/// `last` is the greatest of the positions that are not negative, if there is one.
pub open spec fn is_last_position(positions: Seq<i64>, last: Option<u64>) -> bool {
    match last {
        Some(last) => {
            &&& exists|i: int| 0 <= i < positions.len() && #[trigger] positions[i] == last
            &&& forall|i: int| 0 <= i < positions.len() ==> #[trigger] positions[i] <= last
        },
        None => forall|i: int| 0 <= i < positions.len() ==> #[trigger] positions[i] < 0,
    }
}

/// The stream that a batch goes to: the first tag of its first event, unless it is empty.
pub open spec fn stream_id(events: Seq<EventModel>) -> Option<Seq<char>> {
    if events.len() > 0 && events[0].tags.len() > 0 && events[0].tags[0].len() > 0 {
        Some(events[0].tags[0])
    } else {
        None
    }
}

/// The version that an append expects: -1 where any will do.
pub open spec fn version_for(stream_position: Option<usize>) -> int {
    match stream_position {
        Some(position) => twos_complement(position as u64),
        None => -1,
    }
}

/// The position that follows an offset. No position is greater than `i64::MAX`: it stands for all
/// that would be.
pub open spec fn position_after(offset: u64) -> int {
    if offset < i64::MAX {
        offset + 1
    } else {
        i64::MAX as int
    }
}

/// The first position to read, where an offset stands for the event before it: -1 stands for the
/// start.
pub open spec fn first_position(from_offset: Option<u64>) -> int {
    match from_offset {
        None => -1,
        Some(after) => position_after(after),
    }
}

/// Tells whether a list holds a text.
fn holds(list: &[String], text: &String) -> (found: bool)
    ensures
        found == texts(list@).contains(text@),
{
    for i in 0..list.len()
        invariant
            forall|j: int| 0 <= j < i ==> #[trigger] texts(list@)[j] != text@,
    {
        assert(texts(list@)[i as int] == list@[i as int]@);
        if list[i] == *text {
            return true;
        }
    }
    false
}

/// Tells whether a list holds all texts of another.
fn holds_all(list: &[String], others: &[String]) -> (all: bool)
    ensures
        all == texts(others@).to_set().subset_of(texts(list@).to_set()),
{
    for i in 0..others.len()
        invariant
            forall|j: int| 0 <= j < i ==> texts(list@).contains(#[trigger] texts(others@)[j]),
    {
        assert(texts(others@)[i as int] == others@[i as int]@);
        if !holds(list, &others[i]) {
            assert(texts(others@).to_set().contains(others@[i as int]@));
            return false;
        }
    }
    true
}

/// Tells whether two lists hold the same texts, in any order and any number.
fn same_texts(a: &[String], b: &[String]) -> (same: bool)
    ensures
        same == (texts(a@).to_set() == texts(b@).to_set()),
{
    let same = holds_all(a, b) && holds_all(b, a);
    assert(same ==> texts(a@).to_set() =~= texts(b@).to_set());
    same
}

/// The position that follows an offset.
pub fn next_position(offset: u64) -> (position: i64)
    ensures
        position == position_after(offset),
{
    if offset < i64::MAX as u64 {
        offset as i64 + 1
    } else {
        i64::MAX
    }
}

impl BoomerangAdapter {
    /// The events as they are sent.
    pub fn convert_events(events: &[EventData]) -> (converted: Vec<SerializedEventProto>)
        ensures
            serialized_models(converted@) == all_serialized(event_models(events@)),
    {
        let mut converted: Vec<SerializedEventProto> = Vec::new();
        for i in 0..events.len()
            invariant
                converted@.len() == i,
                forall|j: int| 0 <= j < i ==> (#[trigger] converted@[j])@ == serialized(events@[j]@),
        {
            converted.push(
                SerializedEventProto {
                    event_type: events[i].event_type.clone(),
                    payload: events[i].payload.clone(),
                },
            );
        }
        assert(serialized_models(converted@) =~= all_serialized(event_models(events@)));
        converted
    }

    /// The tags that occur in a batch, each once and in order.
    pub fn batch_tags(events: &[EventData]) -> (tags: Vec<String>)
        ensures
            texts(tags@) == listing(tag_set(event_models(events@))),
            ascending(texts(tags@)),
            texts(tags@).to_set() == tag_set(event_models(events@)),
    {
        let ghost models = event_models(events@);
        let mut tags: Vec<String> = Vec::new();
        assert(texts(tags@).to_set() =~= tag_set(models.take(0)));
        for i in 0..events.len()
            invariant
                models == event_models(events@),
                ascending(texts(tags@)),
                texts(tags@).to_set() == tag_set(models.take(i as int)),
        {
            let own = &events[i].tags;
            let ghost own_texts = texts(own@);
            let ghost earlier = tag_set(models.take(i as int));
            assert(texts(tags@).to_set() =~= earlier.union(own_texts.take(0).to_set()));
            for j in 0..own.len()
                invariant
                    own_texts == texts(own@),
                    ascending(texts(tags@)),
                    texts(tags@).to_set() == earlier.union(own_texts.take(j as int).to_set()),
            {
                let ghost before = texts(tags@).to_set();
                insert_ascending(&mut tags, own[j].clone());
                proof {
                    let tag = own_texts[j as int];
                    assert(own_texts.take(j + 1) =~= own_texts.take(j as int).push(tag));
                    lemma_push_to_set(own_texts.take(j as int), tag);
                    assert(before.insert(tag) =~= earlier.union(own_texts.take(j + 1).to_set()));
                }
            }
            proof {
                assert(own_texts.take(own.len() as int) =~= own_texts);
                lemma_one_more_tagged(models, i as int);
            }
        }
        assert(models.take(events.len() as int) =~= models);
        proof {
            lemma_listing(texts(tags@));
        }
        tags
    }

    /// The greatest of the positions that are not negative, if there is one.
    pub fn last_position(positions: &[i64]) -> (last: Option<u64>)
        ensures
            is_last_position(positions@, last),
    {
        let mut last: Option<u64> = None;
        for i in 0..positions.len()
            invariant
                is_last_position(positions@.take(i as int), last),
        {
            let position = positions[i];
            let ghost before = last;
            assert(positions@.take(i + 1) =~= positions@.take(i as int).push(position));
            if position >= 0 {
                let greater = match last {
                    Some(greatest) => position as u64 > greatest,
                    None => true,
                };
                if greater {
                    last = Some(position as u64);
                    assert(positions@.take(i + 1)[i as int] == position);
                } else {
                    let ghost k = choose|k: int|
                        0 <= k < i && #[trigger] positions@.take(i as int)[k] == before->0;
                    assert(positions@.take(i + 1)[k] == before->0);
                }
            } else if let Some(_) = last {
                let ghost k = choose|k: int|
                    0 <= k < i && #[trigger] positions@.take(i as int)[k] == before->0;
                assert(positions@.take(i + 1)[k] == before->0);
            }
        }
        assert(positions@.take(positions.len() as int) =~= positions@);
        last
    }

    /// Tells whether the events of a batch differ in their sets of tags. A batch has one list, so
    /// in a batch of such events each would match the tags of all.
    pub fn tags_heterogeneous(events: &[EventData]) -> (differ: bool)
        ensures
            differ == heterogeneous(event_models(events@)),
    {
        let ghost models = event_models(events@);
        for i in 0..events.len()
            invariant
                models == event_models(events@),
                forall|j: int|
                    0 <= j < i ==> (#[trigger] models[j]).tags.to_set() == models[0].tags.to_set(),
        {
            if !same_texts(events[i].tags.as_slice(), events[0].tags.as_slice()) {
                assert(models[i as int].tags.to_set() != models[0].tags.to_set());
                return true;
            }
            assert(models[i as int].tags.to_set() == models[0].tags.to_set());
        }
        false
    }

    /// The stream that a batch goes to: the first tag of its first event.
    pub fn stream_id_from_events(events: &[EventData]) -> (id: Result<String, AdapterError>)
        ensures
            match stream_id(event_models(events@)) {
                Some(name) => id is Ok && id->Ok_0@ == name,
                None => id == Err::<String, AdapterError>(AdapterError::MissingStreamId),
            },
    {
        if events.len() > 0 && events[0].tags.len() > 0 {
            let tag = &events[0].tags[0];
            assert(event_models(events@)[0].tags[0] == tag@);
            if !tag.as_str().is_empty() {
                return Ok(tag.clone());
            }
        }
        Err(AdapterError::MissingStreamId)
    }

    /// The version that an append to a stream expects.
    pub fn expected_version(stream_position: Option<usize>) -> (version: i64)
        ensures
            version == version_for(stream_position),
    {
        match stream_position {
            Some(position) => as_signed(position as u64),
            None => -1,
        }
    }

    /// The first position to read. The harness gives the offset before it; the store wants the
    /// position itself.
    pub fn inclusive_from(from_offset: Option<u64>) -> (position: i64)
        ensures
            position == first_position(from_offset),
    {
        match from_offset {
            None => -1,
            Some(after) => next_position(after),
        }
    }
}

proof fn lemma_push_to_set(texts: Seq<Seq<char>>, text: Seq<char>)
    ensures
        texts.push(text).to_set() == texts.to_set().insert(text),
{
    let longer = texts.push(text);
    assert forall|t: Seq<char>| texts.to_set().insert(text).contains(t) implies longer.to_set().contains(t) by {
        if t == text {
            assert(longer[texts.len() as int] == t);
        } else {
            let i = choose|i: int| 0 <= i < texts.len() && texts[i] == t;
            assert(longer[i] == t);
        }
    }
    assert(longer.to_set() =~= texts.to_set().insert(text));
}

/// A batch has finitely many tags.
pub proof fn lemma_tag_set_finite(events: Seq<EventModel>)
    ensures
        tag_set(events).finite(),
    decreases events.len(),
{
    broadcast use vstd::seq_lib::seq_to_set_is_finite;

    if events.len() == 0 {
        assert(tag_set(events) =~= Set::empty());
    } else {
        let fewer = events.drop_last();
        lemma_tag_set_finite(fewer);
        assert(events.take(events.len() as int) =~= events);
        assert(events.take(events.len() - 1) =~= fewer);
        lemma_one_more_tagged(events, events.len() - 1);
    }
}

proof fn lemma_one_more_tagged(events: Seq<EventModel>, i: int)
    requires
        0 <= i < events.len(),
    ensures
        tag_set(events.take(i + 1)) == tag_set(events.take(i)).union(events[i].tags.to_set()),
{
    let more = events.take(i + 1);
    let fewer = events.take(i);
    assert forall|tag: Seq<char>|
        tag_set(fewer).union(events[i].tags.to_set()).contains(tag) implies tag_set(more).contains(tag) by {
        if events[i].tags.contains(tag) {
            assert(more[i].tags.contains(tag));
        } else {
            let k = choose|k: int| 0 <= k < fewer.len() && #[trigger] fewer[k].tags.contains(tag);
            assert(more[k].tags.contains(tag));
        }
    }
    assert forall|tag: Seq<char>| tag_set(more).contains(tag) implies tag_set(fewer).union(
        events[i].tags.to_set(),
    ).contains(tag) by {
        let k = choose|k: int| 0 <= k < more.len() && #[trigger] more[k].tags.contains(tag);
        if k < i {
            assert(fewer[k].tags.contains(tag));
        }
    }
    assert(tag_set(more) =~= tag_set(fewer).union(events[i].tags.to_set()));
}

} // verus!
