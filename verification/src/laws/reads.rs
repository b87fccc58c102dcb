//! What reads and subscriptions ask for, and how the events of a reply are handed on.

use crate::adapter::{first_position, position_after};
use crate::event::{read_event_models, ReadEvent, ReadRequest};
use crate::laws::queries::law_query_asks_for_tag_and_type;
use crate::proto::{ReadByQueryRequest, ReadByQueryStreamRequest, SequencedEventProto};
use crate::read::{
    one_fewer, read_model, read_models, reads_as_stream, reads_at_once, stream_limit,
    subscription_start, unary,
};
use crate::text::optional_text;
use vstd::prelude::*;

verus! {

/// A read in one reply asks for what was requested: the positions after the offset, up to the end
/// and at any time, as many as the limit says, with exactly the given tag and type.
pub proof fn law_unary_read_asks_for_what_was_requested(
    req: ReadRequest,
    request: ReadByQueryRequest,
)
    requires
        reads_at_once(request, req),
    ensures
        request.query_json@.len() == 0,
        req.from_offset is None ==> request.from_sequence_position == -1,
        req.from_offset matches Some(offset) ==> {
            &&& offset < i64::MAX ==> request.from_sequence_position == offset + 1
            &&& offset >= i64::MAX ==> request.from_sequence_position == i64::MAX
        },
        req.limit matches Some(limit) && request.limit == limit,
        request.to_sequence_position == -1,
        request.to_timestamp == 0,
        request.query is None <==> req.tag@.len() == 0 && req.event_type is None,
        request.query matches Some(query) ==> {
            let types = query.items@[0].types@;
            let tags = query.items@[0].tags@;
            &&& query.items@.len() == 1
            &&& types.len() == (if req.event_type is Some { 1int } else { 0 })
            &&& req.event_type matches Some(event_type) ==> types[0]@ == event_type@
            &&& tags.len() == (if req.tag@.len() > 0 { 1int } else { 0 })
            &&& req.tag@.len() > 0 ==> tags[0]@ == req.tag@
        },
{
    law_query_asks_for_tag_and_type(req.tag@, optional_text(req.event_type), request.query);
}

/// A streamed read asks for what was requested: the positions after the offset, up to the end and at
/// any time, with exactly the given tag and type. It asks for as many as the limit says, as far as
/// the field can hold that, and for all where there is no limit.
pub proof fn law_streamed_read_asks_for_what_was_requested(
    req: ReadRequest,
    request: ReadByQueryStreamRequest,
)
    requires
        reads_as_stream(request, req),
    ensures
        request.query_json@.len() == 0,
        req.from_offset is None ==> request.from_sequence_position == -1,
        req.from_offset matches Some(offset) ==> {
            &&& offset < i64::MAX ==> request.from_sequence_position == offset + 1
            &&& offset >= i64::MAX ==> request.from_sequence_position == i64::MAX
        },
        req.limit is None ==> request.limit == 0,
        req.limit matches Some(limit) ==> {
            &&& limit <= i32::MAX ==> request.limit == limit
            &&& limit > i32::MAX ==> request.limit == i32::MAX
        },
        request.to_sequence_position == -1,
        request.to_timestamp == 0,
        request.query is None <==> req.tag@.len() == 0 && req.event_type is None,
        request.query matches Some(query) ==> {
            let types = query.items@[0].types@;
            let tags = query.items@[0].tags@;
            &&& query.items@.len() == 1
            &&& types.len() == (if req.event_type is Some { 1int } else { 0 })
            &&& req.event_type matches Some(event_type) ==> types[0]@ == event_type@
            &&& tags.len() == (if req.tag@.len() > 0 { 1int } else { 0 })
            &&& req.tag@.len() > 0 ==> tags[0]@ == req.tag@
        },
{
    law_query_asks_for_tag_and_type(req.tag@, optional_text(req.event_type), request.query);
}

/// The limits from 1 to 256 are read in one reply, and no others.
pub proof fn law_small_limits_are_read_at_once(limit: u64)
    ensures
        !unary(None),
        unary(Some(limit)) <==> 1 <= limit <= 256,
{
}

/// A limit is asked of a stream as it is, up to the greatest that the field holds; no limit is 0.
pub proof fn law_stream_limit_is_the_limit(limit: u64)
    ensures
        stream_limit(None) == 0,
        limit <= i32::MAX ==> stream_limit(Some(limit)) == limit,
        limit > i32::MAX ==> stream_limit(Some(limit)) == i32::MAX,
{
}

/// The position after an offset is the next one, up to the last that there is; a read without an
/// offset starts at -1 and a subscription without one at 0.
pub proof fn law_position_after_is_the_next(offset: u64)
    ensures
        offset < i64::MAX ==> position_after(offset) == offset + 1,
        offset >= i64::MAX ==> position_after(offset) == i64::MAX,
        first_position(None) == -1,
        first_position(Some(offset)) == position_after(offset),
        subscription_start(None) == 0,
        subscription_start(Some(offset)) == position_after(offset),
{
}

/// Each event that is handed on counts against the limit once; without a limit none counts. Where
/// nothing more is wanted, nothing more is counted.
pub proof fn law_limit_counts_each_event(remaining: u64)
    ensures
        one_fewer(None) is None,
        remaining > 0 ==> one_fewer(Some(remaining)) == Some((remaining - 1) as u64),
        one_fewer(Some(0)) == Some(0u64),
{
}

/// An event is handed on with its position, its type and its payload. A negative position is handed
/// on as 0, and an event without contents with an empty type and an empty payload.
pub proof fn law_event_is_read_as_stored(stored: SequencedEventProto, event: ReadEvent)
    requires
        event@ == read_model(stored),
    ensures
        stored.sequence_position >= 0 ==> event.offset == stored.sequence_position,
        stored.sequence_position < 0 ==> event.offset == 0,
        stored.event matches Some(contents) ==> {
            &&& event.event_type@ == contents.event_type@
            &&& event.payload@ == contents.payload@
        },
        stored.event is None ==> event.event_type@.len() == 0 && event.payload@.len() == 0,
{
}

/// A reply hands on one event for each of its events, in their order.
pub proof fn law_reply_keeps_every_event(
    stored: Seq<SequencedEventProto>,
    events: Seq<ReadEvent>,
)
    requires
        read_event_models(events) == read_models(stored),
    ensures
        events.len() == stored.len(),
        forall|i: int| 0 <= i < stored.len() ==> (#[trigger] events[i])@ == read_model(stored[i]),
{
    assert(read_event_models(events).len() == events.len());
    assert forall|i: int| 0 <= i < stored.len() implies (#[trigger] events[i])@ == read_model(
        stored[i],
    ) by {
        assert(read_event_models(events)[i] == events[i]@);
    }
}

} // verus!
