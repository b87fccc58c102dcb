//! What holds of the adapter as a whole: properties that relate several of its functions.

use crate::adapter::{
    all_serialized, first_position, heterogeneous, is_last_position, lemma_tag_set_finite, stream_id,
    tag_set, version_for,
};
use crate::append::{dcb_request, stream_request, DcbAppendModel, StreamAppendModel};
use crate::event::{ConditionModel, EventModel, QueryItemModel, ReadEventModel};
use crate::json::json_text;
use crate::manager::{
    memory_bytes, start_step, stop_step, BoomerangStoreManager, StartAction, StartEvent,
    StopAction, StopEvent,
};
use crate::metadata::{
    batch_metadata, carries, law_metadata_round_trip, lemma_listed, lemma_merged_finite, listed,
    merged,
};
use crate::proto::{
    AppendDcbRequest, AppendStreamRequest, SequencedEventProto, SerializedEventModel,
};
use crate::query::{condition_as_json, item_json, items_json, query_bytes, requested_items};
use crate::read::{one_fewer, read_model, read_models, subscription_start};
use crate::text::{ascending, lemma_finite_listing, listing};
use vstd::prelude::*;

pub mod appends;
pub mod metadata;
pub mod queries;
pub mod reads;
pub mod runs;
pub mod texts;

verus! {

/// A batch whose events do not differ in their tags has the tags of each.
proof fn lemma_homogeneous_tags(events: Seq<EventModel>, i: int)
    requires
        !heterogeneous(events),
        0 <= i < events.len(),
    ensures
        tag_set(events) == events[i].tags.to_set(),
{
    assert(events[i].tags.to_set() == events[0].tags.to_set());
    assert forall|tag: Seq<char>| events[i].tags.to_set().contains(tag) implies tag_set(
        events,
    ).contains(tag) by {
        assert(events[i].tags.contains(tag));
    }
    assert forall|tag: Seq<char>| tag_set(events).contains(tag) implies events[i].tags.to_set().contains(tag) by {
        let k = choose|k: int| 0 <= k < events.len() && #[trigger] events[k].tags.contains(tag);
        assert(events[k].tags.to_set() == events[0].tags.to_set());
        assert(events[k].tags.to_set().contains(tag));
    }
    assert(tag_set(events) =~= events[i].tags.to_set());
}

/// A batch of one event is never split.
proof fn lemma_single_homogeneous(events: Seq<EventModel>)
    requires
        events.len() <= 1,
    ensures
        !heterogeneous(events),
{
}

/// Events sent one by one are all sent, in their order.
proof fn lemma_one_by_one(events: Seq<EventModel>, parts: Seq<Seq<SerializedEventModel>>)
    requires
        parts.len() == events.len(),
        forall|k: int|
            0 <= k < parts.len() ==> #[trigger] parts[k] == all_serialized(
                events.subrange(k, k + 1),
            ),
    ensures
        parts.flatten() == all_serialized(events),
    decreases events.len(),
{
    if events.len() == 0 {
        assert(parts.flatten() =~= all_serialized(events));
    } else {
        let rest = events.drop_first();
        assert forall|k: int| 0 <= k < parts.drop_first().len() implies #[trigger] parts.drop_first()[k]
            == all_serialized(rest.subrange(k, k + 1)) by {
            assert(parts.drop_first()[k] == parts[k + 1]);
            assert(rest.subrange(k, k + 1) =~= events.subrange(k + 1, k + 2));
        }
        lemma_one_by_one(rest, parts.drop_first());
        assert(parts[0] == all_serialized(events.subrange(0, 1)));
        assert(parts.flatten() =~= all_serialized(events));
    }
}

/// An append under a condition, over all its batches, sends every event once and in order.
pub proof fn law_dcb_sends_each_event_once(append: DcbAppendModel)
    ensures
        Seq::new(append.rounds(), |round: int| append.request(round).events).flatten()
            == all_serialized(append.events),
{
    let parts = Seq::new(append.rounds(), |round: int| append.request(round).events);
    if append.split() {
        lemma_one_by_one(append.events, parts);
    } else {
        assert(parts.drop_first().flatten() =~= seq![]);
        assert(parts.flatten() =~= all_serialized(append.events));
    }
}

/// An append to a stream whose batches all name one, over all its batches, sends every event once
/// and in order.
pub proof fn law_stream_sends_each_event_once(append: StreamAppendModel)
    requires
        forall|round: int|
            0 <= round < append.rounds() ==> (#[trigger] append.request(round)) is Some,
    ensures
        Seq::new(append.rounds(), |round: int| append.request(round)->0.events).flatten()
            == all_serialized(append.events),
{
    let parts = Seq::new(append.rounds(), |round: int| append.request(round)->0.events);
    if append.split() {
        assert forall|k: int| 0 <= k < parts.len() implies #[trigger] parts[k] == all_serialized(
            append.events.subrange(k, k + 1),
        ) by {
            assert(append.request(k) is Some);
        }
        lemma_one_by_one(append.events, parts);
    } else if append.events.len() > 0 {
        assert(append.request(0) is Some);
        assert(parts.drop_first().flatten() =~= seq![]);
        assert(parts.flatten() =~= all_serialized(append.events));
    } else {
        assert(parts.flatten() =~= all_serialized(append.events));
    }
}

/// In an append without a condition every event goes out under its own tags and no others.
pub proof fn law_unconditional_append_keeps_tags(append: DcbAppendModel, round: int, i: int)
    requires
        append.condition is None,
        0 <= round < append.rounds(),
        0 <= i < append.batch(round).len(),
    ensures
        append.request(round).tags == listing(append.batch(round)[i].tags.to_set()),
{
    if append.split() {
        lemma_single_homogeneous(append.batch(round));
    }
    lemma_homogeneous_tags(append.batch(round), i);
}

/// In an append to a stream where any version will do, every event goes out under its own tags and
/// no others, to a stream that one of its tags names: for the first event of a batch, the first.
pub proof fn law_stream_append_keeps_tags(append: StreamAppendModel, round: int, i: int)
    requires
        append.stream_position is None || !heterogeneous(append.events),
        0 <= round < append.rounds(),
        0 <= i < append.batch(round).len(),
        append.request(round) is Some,
    ensures
        append.request(round)->0.tags == listing(append.batch(round)[i].tags.to_set()),
        append.batch(round)[i].tags.contains(append.request(round)->0.stream_id),
        append.request(round)->0.stream_id == append.batch(round)[0].tags[0],
{
    let events = append.batch(round);
    if append.split() {
        lemma_single_homogeneous(events);
    }
    lemma_homogeneous_tags(events, i);
    lemma_homogeneous_tags(events, 0);
    assert(events[0].tags.to_set().contains(events[0].tags[0]));
}

/// An append under a condition is one request with all its events, so that the condition is tested
/// once.
pub proof fn law_conditional_append_is_one_batch(append: DcbAppendModel)
    requires
        append.condition is Some,
    ensures
        append.rounds() == 1,
        append.request(0) == dcb_request(append.events, append.condition),
{
}

/// An append of some events to a stream at an expected version is one request with all of them, so
/// that the version is tested once: it fails only where the first event names no stream.
pub proof fn law_versioned_append_is_one_batch(append: StreamAppendModel)
    requires
        append.stream_position is Some,
        append.events.len() > 0,
    ensures
        append.rounds() == 1,
        append.request(0) == stream_request(append.events, append.stream_position),
        append.request(0) is Some <==> stream_id(append.events) is Some,
        append.request(0) is Some ==> {
            &&& append.request(0)->0.events == all_serialized(append.events)
            &&& append.request(0)->0.stream_id == append.events[0].tags[0]
            &&& append.request(0)->0.expected_version == version_for(append.stream_position)
        },
{
}

/// The tags of a batch are listed in order, each once, and no others with them.
pub proof fn law_batch_tags_are_listed(events: Seq<EventModel>)
    ensures
        ascending(listing(tag_set(events))),
        listing(tag_set(events)).to_set() == tag_set(events),
{
    lemma_tag_set_finite(events);
    lemma_finite_listing(tag_set(events));
}

/// The metadata of a batch is listed in the order of its keys, each with the value that counts.
pub proof fn law_batch_metadata_is_listed(events: Seq<EventModel>, key: Seq<char>, text: Seq<char>)
    ensures
        listed(merged(batch_metadata(events))).contains((key, text)) <==> merged(
            batch_metadata(events),
        ).contains_key(key) && merged(batch_metadata(events))[key] == text,
        ascending(
            listed(merged(batch_metadata(events))).map_values(
                |pair: (Seq<char>, Seq<char>)| pair.0,
            ),
        ),
{
    lemma_merged_finite(batch_metadata(events));
    lemma_listed(merged(batch_metadata(events)));
}

/// An append under a condition that got an answer to each of its batches ends with the greatest
/// position of the last answer.
pub proof fn law_dcb_ends_with_last_answer(states: Seq<DcbAppendModel>, answers: Seq<Seq<i64>>)
    requires
        states.len() == answers.len() + 1,
        states[0].sent == 0,
        answers.len() == states[0].rounds(),
        forall|k: int|
            0 <= k < answers.len() ==> (#[trigger] states[k]).answered(answers[k], states[k + 1]),
    ensures
        answers.len() > 0,
        states.last().events == states[0].events,
        states.last().condition == states[0].condition,
        states.last().sent == states.last().rounds(),
        is_last_position(answers.last(), states.last().last),
{
    lemma_dcb_progress(states, answers, answers.len() as int);
    assert(states[answers.len() - 1].answered(answers.last(), states.last()));
}

proof fn lemma_dcb_progress(states: Seq<DcbAppendModel>, answers: Seq<Seq<i64>>, n: int)
    requires
        states.len() == answers.len() + 1,
        states[0].sent == 0,
        forall|k: int|
            0 <= k < answers.len() ==> (#[trigger] states[k]).answered(answers[k], states[k + 1]),
        0 <= n <= answers.len(),
    ensures
        states[n].events == states[0].events,
        states[n].condition == states[0].condition,
        states[n].sent == n,
    decreases n,
{
    if n > 0 {
        lemma_dcb_progress(states, answers, n - 1);
        assert(states[n - 1].answered(answers[n - 1], states[n - 1 + 1]));
    }
}

/// An append to a stream that got an answer to each of its batches ends with the greatest position
/// of the last answer; one without events ends at once, with no position.
pub proof fn law_stream_ends_with_last_answer(
    states: Seq<StreamAppendModel>,
    answers: Seq<Seq<i64>>,
)
    requires
        states.len() == answers.len() + 1,
        states[0].sent == 0,
        states[0].last is None,
        answers.len() == states[0].rounds(),
        forall|k: int|
            0 <= k < answers.len() ==> (#[trigger] states[k]).answered(answers[k], states[k + 1]),
    ensures
        states.last().events == states[0].events,
        states.last().stream_position == states[0].stream_position,
        states.last().sent == states.last().rounds(),
        states[0].events.len() == 0 <==> answers.len() == 0,
        if answers.len() > 0 {
            is_last_position(answers.last(), states.last().last)
        } else {
            states.last().last is None
        },
{
    lemma_stream_progress(states, answers, answers.len() as int);
    if answers.len() > 0 {
        assert(states[answers.len() - 1].answered(answers.last(), states.last()));
    }
}

proof fn lemma_stream_progress(states: Seq<StreamAppendModel>, answers: Seq<Seq<i64>>, n: int)
    requires
        states.len() == answers.len() + 1,
        states[0].sent == 0,
        forall|k: int|
            0 <= k < answers.len() ==> (#[trigger] states[k]).answered(answers[k], states[k + 1]),
        0 <= n <= answers.len(),
    ensures
        states[n].events == states[0].events,
        states[n].stream_position == states[0].stream_position,
        states[n].sent == n,
    decreases n,
{
    if n > 0 {
        lemma_stream_progress(states, answers, n - 1);
        assert(states[n - 1].answered(answers[n - 1], states[n - 1 + 1]));
    }
}

/// What was appended is what is read, of an event that the store keeps as it was sent.
proof fn lemma_read_gives_back(
    events: Seq<EventModel>,
    metadata_json: Seq<u8>,
    k: int,
    stored: SequencedEventProto,
)
    requires
        carries(metadata_json, merged(batch_metadata(events))),
        0 <= k < events.len(),
        stored.event is Some,
        stored.event->0@ == all_serialized(events)[k],
        stored.metadata_json@ == metadata_json,
    ensures
        read_model(stored).event_type == events[k].event_type,
        read_model(stored).payload == events[k].payload,
        read_model(stored).metadata == listed(merged(batch_metadata(events))),
        events.len() == 1 ==> read_model(stored).metadata == listed(merged(events[k].metadata)),
{
    law_metadata_round_trip(merged(batch_metadata(events)), metadata_json);
    if events.len() == 1 {
        reveal_with_fuel(batch_metadata, 2);
        assert(batch_metadata(events) =~= events[0].metadata);
    }
}

/// An event that was appended under a condition, and that the store keeps as it was sent, is read
/// with the type and the payload it was appended with, and with the metadata of its batch: its own
/// where it was sent alone.
pub proof fn law_read_gives_back_dcb_append(
    events: Seq<EventModel>,
    condition: Option<ConditionModel>,
    request: AppendDcbRequest,
    k: int,
    stored: SequencedEventProto,
)
    requires
        request@ == dcb_request(events, condition),
        carries(request.metadata_json@, merged(batch_metadata(events))),
        0 <= k < events.len(),
        stored.event is Some,
        stored.event->0@ == request@.events[k],
        stored.metadata_json@ == request.metadata_json@,
    ensures
        read_model(stored).event_type == events[k].event_type,
        read_model(stored).payload == events[k].payload,
        read_model(stored).metadata == listed(merged(batch_metadata(events))),
        events.len() == 1 ==> read_model(stored).metadata == listed(merged(events[k].metadata)),
{
    lemma_read_gives_back(events, request.metadata_json@, k, stored);
}

/// An event that was appended to a stream, and that the store keeps as it was sent, is read with
/// the type and the payload it was appended with, and with the metadata of its batch: its own
/// where it was sent alone.
pub proof fn law_read_gives_back_stream_append(
    events: Seq<EventModel>,
    stream_position: Option<usize>,
    request: AppendStreamRequest,
    k: int,
    stored: SequencedEventProto,
)
    requires
        stream_request(events, stream_position) == Some(request@),
        carries(request.metadata_json@, merged(batch_metadata(events))),
        0 <= k < events.len(),
        stored.event is Some,
        stored.event->0@ == request@.events[k],
        stored.metadata_json@ == request.metadata_json@,
    ensures
        read_model(stored).event_type == events[k].event_type,
        read_model(stored).payload == events[k].payload,
        read_model(stored).metadata == listed(merged(batch_metadata(events))),
        events.len() == 1 ==> read_model(stored).metadata == listed(merged(events[k].metadata)),
{
    lemma_read_gives_back(events, request.metadata_json@, k, stored);
}

/// The events that a stream hands on, while `remaining` of them are wanted and its messages are
/// `messages`.
pub open spec fn handed_on(
    remaining: Option<u64>,
    messages: Seq<SequencedEventProto>,
) -> Seq<ReadEventModel>
    decreases messages.len(),
{
    if remaining == Some(0u64) || messages.len() == 0 {
        seq![]
    } else {
        seq![read_model(messages[0])] + handed_on(one_fewer(remaining), messages.drop_first())
    }
}

/// A streamed read hands on its messages in order, all of them or as many as its limit wants.
pub proof fn law_stream_keeps_limit(remaining: Option<u64>, messages: Seq<SequencedEventProto>)
    ensures
        handed_on(remaining, messages) == read_models(
            match remaining {
                Some(limit) => if limit < messages.len() {
                    messages.take(limit as int)
                } else {
                    messages
                },
                None => messages,
            },
        ),
    decreases messages.len(),
{
    if remaining == Some(0u64) {
        assert(messages.take(0) =~= seq![]);
        assert(handed_on(remaining, messages) =~= read_models(messages.take(0)));
        if messages.len() == 0 {
            assert(handed_on(remaining, messages) =~= read_models(messages));
        }
    } else if messages.len() == 0 {
        assert(handed_on(remaining, messages) =~= read_models(messages));
    } else {
        let rest = messages.drop_first();
        law_stream_keeps_limit(one_fewer(remaining), rest);
        assert(messages =~= seq![messages[0]] + rest);
        match remaining {
            Some(limit) => {
                if limit < messages.len() {
                    assert(messages.take(limit as int) =~= seq![messages[0]] + rest.take(
                        limit - 1,
                    ));
                    assert(handed_on(remaining, messages) =~= read_models(
                        messages.take(limit as int),
                    ));
                } else {
                    assert(handed_on(remaining, messages) =~= read_models(messages));
                }
            },
            None => {
                assert(handed_on(remaining, messages) =~= read_models(messages));
            },
        }
    }
}

/// A read from an offset covers exactly the positions after it; a read without one covers all.
pub proof fn law_offset_is_exclusive(from_offset: Option<u64>, position: i64)
    requires
        position >= 0,
        from_offset is Some && from_offset->0 >= i64::MAX ==> position < i64::MAX,
    ensures
        position >= first_position(from_offset) <==> (from_offset is Some ==> position
            > from_offset->0),
{
}

/// A subscription after an offset covers exactly the positions after it; one without an offset
/// covers all.
pub proof fn law_subscription_is_exclusive(after: Option<u64>, position: i64)
    requires
        position >= 0,
        after is Some && after->0 >= i64::MAX ==> position < i64::MAX,
    ensures
        position >= subscription_start(after) <==> (after is Some ==> position > after->0),
{
}

/// A read or a subscription from an offset never starts over.
pub proof fn law_offset_never_starts_over(offset: u64)
    ensures
        first_position(Some(offset)) > 0,
        first_position(Some(offset)) > first_position(None),
        subscription_start(Some(offset)) > subscription_start(None),
{
}

/// A read from the position with which an append ended covers none of the events it appended.
pub proof fn law_read_resumes_after_append(positions: Seq<i64>, last: Option<u64>, i: int)
    requires
        is_last_position(positions, last),
        0 <= i < positions.len(),
        0 <= positions[i] < i64::MAX,
    ensures
        positions[i] < first_position(last),
{
}

/// A read from the offset of an event that was read goes on right after that event.
pub proof fn law_read_resumes_after_event(event: SequencedEventProto)
    requires
        0 <= event.sequence_position < i64::MAX,
    ensures
        first_position(Some(read_model(event).offset)) == event.sequence_position + 1,
{
}

/// The JSON form of a query asks for what its message asks for, and is empty exactly where there is
/// no message.
pub proof fn law_query_forms_agree(tag: Seq<char>, event_type: Option<Seq<char>>, bytes: Seq<u8>)
    requires
        bytes == query_bytes(tag, event_type),
        event_type is Some || tag.len() > 0 ==> bytes.len() > 0,
    ensures
        bytes.len() == 0 <==> requested_items(tag, event_type) is None,
        requested_items(tag, event_type) matches Some(items) ==> bytes == json_text(
            items_json(items.map_values(|item: QueryItemModel| item_json(item))),
        ),
{
    if let Some(items) = requested_items(tag, event_type) {
        assert(items.map_values(|item: QueryItemModel| item_json(item)) =~= seq![
            item_json(items[0]),
        ]);
    }
}

/// The JSON form of a query item restricts types and tags only where the item has some.
pub proof fn law_item_leaves_out_empty_parts(item: QueryItemModel)
    ensures
        item_json(item) is Object,
        item_json(item)->Object_0.contains_key("Types"@) <==> item.types.len() > 0,
        item_json(item)->Object_0.contains_key("Tags"@) <==> item.tags.len() > 0,
{
    reveal_strlit("Types");
    reveal_strlit("Tags");
    assert("Types"@.len() != "Tags"@.len());
}

/// The JSON form of a condition holds a position exactly where the condition has one.
pub proof fn law_condition_position(condition: Option<ConditionModel>)
    ensures
        condition_as_json(condition) is Object,
        condition_as_json(condition)->Object_0.contains_key("FailIfEventsMatch"@),
        condition_as_json(condition)->Object_0.contains_key("After"@) <==> condition is Some
            && condition->0.after is Some,
{
    reveal_strlit("FailIfEventsMatch");
    reveal_strlit("After");
    assert("FailIfEventsMatch"@.len() != "After"@.len());
}

/// A store that was started in a container and is then stopped stops that container, and keeps its
/// name, its durability and its settings.
pub proof fn law_stop_undoes_start(
    initial: BoomerangStoreManager,
    id: String,
    host_port: u16,
    started: BoomerangStoreManager,
    check: StartAction,
    stopped: BoomerangStoreManager,
    action: StopAction,
)
    requires
        initial.container is None,
        start_step(initial, StartEvent::ContainerStarted { id, host_port }, started, check),
        stop_step(started, StopEvent::Begin, stopped, action),
    ensures
        started.container == Some(id),
        action == StopAction::StopContainer(id),
        stopped == (BoomerangStoreManager { uri: started.uri, ..initial }),
{
}

/// A store that was stopped has no container left to stop: a second stop only cleans up.
pub proof fn law_second_stop_only_cleans_up(
    initial: BoomerangStoreManager,
    stopped: BoomerangStoreManager,
    first: StopAction,
    again: BoomerangStoreManager,
    second: StopAction,
)
    requires
        stop_step(initial, StopEvent::Begin, stopped, first),
        stop_step(stopped, StopEvent::Begin, again, second),
    ensures
        second is CleanUpDataDir,
        again == stopped,
{
}

/// A memory limit counts its bytes exactly, as far as a container can be given them.
pub proof fn law_memory_limit_exact(limit_mb: u64)
    requires
        limit_mb * 1024 * 1024 <= i64::MAX,
    ensures
        memory_bytes(Some(limit_mb)) == Some(limit_mb * 1024 * 1024),
{
}

} // verus!
