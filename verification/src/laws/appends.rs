//! What an append sends: the events and tags of its requests, how they are split into batches, and
//! the position it ends with.

use crate::adapter::{
    all_serialized, heterogeneous, is_last_position, lemma_tag_set_finite, stream_id, tag_set,
    version_for,
};
use crate::append::{dcb_request, stream_request, DcbAppendModel, StreamAppendModel};
use crate::event::{event_models, optional_condition, EsbAppendCondition, EventData};
use crate::proto::{serialized_models, AppendDcbRequest, AppendStreamRequest, SerializedEventProto};
use crate::text::{lemma_finite_listing, listing, precedes, texts};
use vstd::prelude::*;

verus! {

/// Events that are sent keep their number, their order, their types and their payloads.
proof fn lemma_events_sent(events: Seq<EventData>, sent: Seq<SerializedEventProto>)
    requires
        serialized_models(sent) == all_serialized(event_models(events)),
    ensures
        sent.len() == events.len(),
        forall|i: int|
            0 <= i < events.len() ==> {
                &&& (#[trigger] sent[i]).event_type@ == events[i].event_type@
                &&& sent[i].payload@ == events[i].payload@
            },
{
    assert(serialized_models(sent).len() == sent.len());
    assert forall|i: int| 0 <= i < events.len() implies {
        &&& (#[trigger] sent[i]).event_type@ == events[i].event_type@
        &&& sent[i].payload@ == events[i].payload@
    } by {
        assert(serialized_models(sent)[i] == sent[i]@);
    }
}

/// An event has a tag.
pub open spec fn has_tag(event: EventData, tag: Seq<char>) -> bool {
    exists|l: int| 0 <= l < event.tags@.len() && (#[trigger] event.tags@[l])@ == tag
}

/// The tags that an event has are those of its model.
proof fn lemma_has_tag(event: EventData, tag: Seq<char>)
    ensures
        has_tag(event, tag) <==> event@.tags.contains(tag),
{
    assert(forall|l: int|
        0 <= l < event.tags@.len() ==> #[trigger] event@.tags[l] == event.tags@[l]@);
    if has_tag(event, tag) {
        let l = choose|l: int| 0 <= l < event.tags@.len() && (#[trigger] event.tags@[l])@ == tag;
        assert(event@.tags[l] == tag);
    }
    if event@.tags.contains(tag) {
        let l = choose|l: int| 0 <= l < event@.tags.len() && event@.tags[l] == tag;
        assert(event.tags@[l]@ == tag);
    }
}

/// The tags of a batch are those of its events, each once and in order.
proof fn lemma_tags_sent(events: Seq<EventData>, tags: Seq<String>, tag: Seq<char>)
    requires
        texts(tags) == listing(tag_set(event_models(events))),
    ensures
        forall|i: int, j: int|
            0 <= i < j < tags.len() ==> precedes((#[trigger] tags[i])@, (#[trigger] tags[j])@),
        (exists|i: int| 0 <= i < tags.len() && (#[trigger] tags[i])@ == tag) <==> exists|k: int|
            0 <= k < events.len() && has_tag(#[trigger] events[k], tag),
{
    let models = event_models(events);
    let sent = texts(tags);
    lemma_tag_set_finite(models);
    lemma_finite_listing(tag_set(models));
    assert(sent.to_set() == tag_set(models));
    assert(forall|i: int| 0 <= i < tags.len() ==> #[trigger] sent[i] == tags[i]@);
    assert forall|i: int, j: int| 0 <= i < j < tags.len() implies precedes(
        (#[trigger] tags[i])@,
        (#[trigger] tags[j])@,
    ) by {
        assert(sent[i] == tags[i]@ && sent[j] == tags[j]@);
    }
    if exists|i: int| 0 <= i < tags.len() && (#[trigger] tags[i])@ == tag {
        let i = choose|i: int| 0 <= i < tags.len() && (#[trigger] tags[i])@ == tag;
        assert(sent[i] == tag);
        assert(sent.to_set().contains(tag));
        assert(tag_set(models).contains(tag));
        let k = choose|k: int| 0 <= k < models.len() && #[trigger] models[k].tags.contains(tag);
        lemma_has_tag(events[k], tag);
    }
    if exists|k: int| 0 <= k < events.len() && has_tag(#[trigger] events[k], tag) {
        let k = choose|k: int| 0 <= k < events.len() && has_tag(#[trigger] events[k], tag);
        lemma_has_tag(events[k], tag);
        assert(models[k].tags.contains(tag));
        assert(sent.to_set().contains(tag));
        let i = choose|i: int| 0 <= i < sent.len() && sent[i] == tag;
        assert(tags[i]@ == tag);
    }
}

/// A request under a condition holds the events of its batch in order, each with its type and its
/// payload, and the tags of all its events, each once and in order.
pub proof fn law_dcb_request_holds_its_batch(
    events: Seq<EventData>,
    condition: Option<EsbAppendCondition>,
    request: AppendDcbRequest,
    tag: Seq<char>,
)
    requires
        request@ == dcb_request(event_models(events), optional_condition(condition)),
    ensures
        request.events@.len() == events.len(),
        forall|i: int|
            0 <= i < events.len() ==> {
                &&& (#[trigger] request.events@[i]).event_type@ == events[i].event_type@
                &&& request.events@[i].payload@ == events[i].payload@
            },
        forall|i: int, j: int|
            0 <= i < j < request.tags@.len() ==> precedes(
                (#[trigger] request.tags@[i])@,
                (#[trigger] request.tags@[j])@,
            ),
        (exists|i: int| 0 <= i < request.tags@.len() && (#[trigger] request.tags@[i])@ == tag)
            <==> exists|k: int| 0 <= k < events.len() && has_tag(#[trigger] events[k], tag),
{
    lemma_events_sent(events, request.events@);
    lemma_tags_sent(events, request.tags@, tag);
}

/// A request to a stream holds the events of its batch in order, each with its type and its
/// payload, and the tags of all its events, each once and in order. It names the first tag of the
/// first event, and it expects the position that was given, as far as a version can hold it, or any
/// version, which is -1, where none was given.
pub proof fn law_stream_request_holds_its_batch(
    events: Seq<EventData>,
    stream_position: Option<usize>,
    request: AppendStreamRequest,
    tag: Seq<char>,
)
    requires
        stream_request(event_models(events), stream_position) == Some(request@),
    ensures
        events.len() > 0,
        events[0].tags@.len() > 0,
        request.stream_id@ == events[0].tags@[0]@,
        stream_position is None ==> request.expected_version == -1,
        forall|p: usize|
            stream_position == Some(p) && p <= i64::MAX ==> request.expected_version == p,
        request.events@.len() == events.len(),
        forall|i: int|
            0 <= i < events.len() ==> {
                &&& (#[trigger] request.events@[i]).event_type@ == events[i].event_type@
                &&& request.events@[i].payload@ == events[i].payload@
            },
        forall|i: int, j: int|
            0 <= i < j < request.tags@.len() ==> precedes(
                (#[trigger] request.tags@[i])@,
                (#[trigger] request.tags@[j])@,
            ),
        (exists|i: int| 0 <= i < request.tags@.len() && (#[trigger] request.tags@[i])@ == tag)
            <==> exists|k: int| 0 <= k < events.len() && has_tag(#[trigger] events[k], tag),
{
    let models = event_models(events);
    assert(models[0].tags[0] == events[0].tags@[0]@);
    lemma_events_sent(events, request.events@);
    lemma_tags_sent(events, request.tags@, tag);
}

/// A batch can be sent to a stream exactly where its first event has a first tag that is not empty.
pub proof fn law_stream_is_named_by_first_tag(
    events: Seq<EventData>,
    stream_position: Option<usize>,
)
    ensures
        stream_request(event_models(events), stream_position) is Some <==> events.len() > 0
            && events[0].tags@.len() > 0 && events[0].tags@[0]@.len() > 0,
        stream_id(event_models(events)) matches Some(id) ==> id == events[0].tags@[0]@,
{
    let models = event_models(events);
    if events.len() > 0 {
        assert(models[0] == events[0]@);
        if events[0].tags@.len() > 0 {
            assert(models[0].tags[0] == events[0].tags@[0]@);
        }
    }
}

/// An append expects the stream position it was given: every one that a version can hold is sent as
/// it is, different ones as different versions, and none as -1.
pub proof fn law_expected_version_is_the_position(p: usize, q: usize)
    ensures
        version_for(None) == -1,
        p <= i64::MAX ==> version_for(Some(p)) == p,
        p > i64::MAX ==> version_for(Some(p)) == p - 0x1_0000_0000_0000_0000,
        p != q ==> version_for(Some(p)) != version_for(Some(q)),
{
}

/// The position that an append reports is among the positions of the reply, and no position of the
/// reply is greater; there is none exactly where the reply has no position from 0 on.
pub proof fn law_last_position_is_the_greatest(positions: Seq<i64>, last: Option<u64>)
    requires
        is_last_position(positions, last),
    ensures
        last is Some <==> exists|i: int| 0 <= i < positions.len() && #[trigger] positions[i] >= 0,
        last matches Some(last) ==> {
            &&& exists|i: int| 0 <= i < positions.len() && #[trigger] positions[i] == last
            &&& forall|i: int| 0 <= i < positions.len() ==> #[trigger] positions[i] <= last
        },
{
    if let Some(last) = last {
        let i = choose|i: int| 0 <= i < positions.len() && #[trigger] positions[i] == last;
        assert(positions[i] >= 0);
    }
}

/// Every list of positions has exactly one last position.
pub proof fn law_last_position_is_unique(positions: Seq<i64>, a: Option<u64>, b: Option<u64>)
    requires
        is_last_position(positions, a),
        is_last_position(positions, b),
    ensures
        a == b,
{
    law_last_position_is_the_greatest(positions, a);
    law_last_position_is_the_greatest(positions, b);
}

/// Events differ in their tags exactly where one has a tag that another has not.
proof fn lemma_differing_tags(events: Seq<EventData>)
    ensures
        heterogeneous(event_models(events)) <==> exists|i: int, k: int, tag: Seq<char>|
            0 <= i < events.len() && 0 <= k < events.len() && #[trigger] has_tag(events[i], tag)
                && !#[trigger] has_tag(events[k], tag),
{
    let models = event_models(events);
    if heterogeneous(models) {
        let i = choose|i: int|
            0 <= i < models.len() && (#[trigger] models[i]).tags.to_set() != models[0].tags.to_set();
        lemma_one_has_more(events[i], events[0]);
        let tag = choose|tag: Seq<char>| #[trigger] has_tag(events[i], tag) != has_tag(events[0], tag);
        if has_tag(events[i], tag) {
            assert(!has_tag(events[0], tag));
        } else {
            assert(has_tag(events[0], tag));
        }
    }
    if exists|i: int, k: int, tag: Seq<char>|
        0 <= i < events.len() && 0 <= k < events.len() && #[trigger] has_tag(events[i], tag)
            && !#[trigger] has_tag(events[k], tag) {
        let (i, k, tag) = choose|i: int, k: int, tag: Seq<char>|
            0 <= i < events.len() && 0 <= k < events.len() && #[trigger] has_tag(events[i], tag)
                && !#[trigger] has_tag(events[k], tag);
        lemma_has_tag(events[i], tag);
        lemma_has_tag(events[k], tag);
        assert(models[i].tags.to_set().contains(tag));
        assert(!models[k].tags.to_set().contains(tag));
    }
}

/// Where the models of two events differ in their tags, one event has a tag that the other has not.
proof fn lemma_one_has_more(a: EventData, b: EventData)
    requires
        a@.tags.to_set() != b@.tags.to_set(),
    ensures
        exists|tag: Seq<char>| #[trigger] has_tag(a, tag) != has_tag(b, tag),
{
    if forall|tag: Seq<char>| #[trigger] has_tag(a, tag) == has_tag(b, tag) {
        assert forall|tag: Seq<char>| a@.tags.to_set().contains(tag)
            == b@.tags.to_set().contains(tag) by {
            lemma_has_tag(a, tag);
            lemma_has_tag(b, tag);
            assert(has_tag(a, tag) == has_tag(b, tag));
        }
        assert(a@.tags.to_set() =~= b@.tags.to_set());
    }
}

/// An append without a condition sends each event in a request of its own where one event has a tag
/// that another has not; any other append under a condition or without one is a single request with
/// all events.
pub proof fn law_dcb_append_batches(append: DcbAppendModel, events: Seq<EventData>)
    requires
        append.events == event_models(events),
    ensures
        if append.condition is None && exists|i: int, k: int, tag: Seq<char>|
            0 <= i < events.len() && 0 <= k < events.len() && #[trigger] has_tag(events[i], tag)
                && !#[trigger] has_tag(events[k], tag) {
            &&& append.rounds() == events.len()
            &&& forall|round: int|
                0 <= round < events.len() ==> {
                    &&& append.batch(round) == event_models(seq![events[round]])
                    &&& #[trigger] append.request(round) == dcb_request(
                        event_models(seq![events[round]]),
                        None,
                    )
                }
        } else {
            &&& append.rounds() == 1
            &&& append.batch(0) == event_models(events)
            &&& append.request(0) == dcb_request(event_models(events), append.condition)
        },
{
    lemma_differing_tags(events);
    assert forall|round: int| append.split() && 0 <= round < events.len() implies append.batch(round)
        == event_models(seq![#[trigger] events[round]]) by {
        assert(append.batch(round) =~= event_models(seq![events[round]]));
    }
}

/// An append to a stream at any version sends each event in a request of its own where one event has
/// a tag that another has not; any other append of some events to a stream is a single request with
/// all of them, and one without events sends nothing.
pub proof fn law_stream_append_batches(append: StreamAppendModel, events: Seq<EventData>)
    requires
        append.events == event_models(events),
    ensures
        if append.stream_position is None && exists|i: int, k: int, tag: Seq<char>|
            0 <= i < events.len() && 0 <= k < events.len() && #[trigger] has_tag(events[i], tag)
                && !#[trigger] has_tag(events[k], tag) {
            &&& append.rounds() == events.len()
            &&& forall|round: int|
                0 <= round < events.len() ==> {
                    &&& append.batch(round) == event_models(seq![events[round]])
                    &&& #[trigger] append.request(round) == stream_request(
                        event_models(seq![events[round]]),
                        None,
                    )
                }
        } else if events.len() > 0 {
            &&& append.rounds() == 1
            &&& append.batch(0) == event_models(events)
            &&& append.request(0) == stream_request(event_models(events), append.stream_position)
        } else {
            append.rounds() == 0
        },
{
    lemma_differing_tags(events);
    assert forall|round: int| append.split() && 0 <= round < events.len() implies append.batch(round)
        == event_models(seq![#[trigger] events[round]]) by {
        assert(append.batch(round) =~= event_models(seq![events[round]]));
    }
}

/// An answer to a batch of an append under a condition counts that batch as sent, keeps what is
/// appended, and replaces the position by the greatest one of the answer, or by none.
pub proof fn law_dcb_answer_is_taken(
    before: DcbAppendModel,
    positions: Seq<i64>,
    after: DcbAppendModel,
)
    requires
        before.answered(positions, after),
    ensures
        after.events == before.events,
        after.condition == before.condition,
        after.sent == before.sent + 1,
        after.last is Some <==> exists|i: int|
            0 <= i < positions.len() && #[trigger] positions[i] >= 0,
        after.last matches Some(last) ==> {
            &&& exists|i: int| 0 <= i < positions.len() && #[trigger] positions[i] == last
            &&& forall|i: int| 0 <= i < positions.len() ==> #[trigger] positions[i] <= last
        },
{
    law_last_position_is_the_greatest(positions, after.last);
}

/// An answer to a batch of an append to a stream counts that batch as sent, keeps what is appended,
/// and replaces the position by the greatest one of the answer, or by none.
pub proof fn law_stream_answer_is_taken(
    before: StreamAppendModel,
    positions: Seq<i64>,
    after: StreamAppendModel,
)
    requires
        before.answered(positions, after),
    ensures
        after.events == before.events,
        after.stream_position == before.stream_position,
        after.sent == before.sent + 1,
        after.last is Some <==> exists|i: int|
            0 <= i < positions.len() && #[trigger] positions[i] >= 0,
        after.last matches Some(last) ==> {
            &&& exists|i: int| 0 <= i < positions.len() && #[trigger] positions[i] == last
            &&& forall|i: int| 0 <= i < positions.len() ==> #[trigger] positions[i] <= last
        },
{
    law_last_position_is_the_greatest(positions, after.last);
}

} // verus!
