//! Appends: the requests of a batch, and the order in which an append sends its batches.

use crate::adapter::{
    all_serialized, heterogeneous, is_last_position, stream_id, tag_set, version_for, AdapterError,
    BoomerangAdapter,
};
use crate::event::{
    event_models, optional_condition, ConditionModel, EsbAppendCondition, EventData, EventModel,
};
use crate::json::{json_parse, json_text};
use crate::metadata::{batch_metadata, carries, merged, metadata_bytes};
use crate::proto::{AppendDcbModel, AppendDcbRequest, AppendStreamModel, AppendStreamRequest};
use crate::query::condition_as_json;
use crate::text::listing;
use vstd::prelude::*;
use vstd::slice::slice_subrange;

verus! {

/// What an append does next.
#[derive(Debug, Clone, PartialEq, Eq)]
pub enum AppendStep<R> {
    /// Send a request and report the positions of its reply.
    Send(R),
    /// Nothing is left to send: the append ends with this position.
    Done(Option<u64>),
    /// The next batch cannot be sent: the append ends with this error.
    Failed(AdapterError),
}

/// The request that appends a batch under a condition.
pub open spec fn dcb_request(
    events: Seq<EventModel>,
    condition: Option<ConditionModel>,
) -> AppendDcbModel {
    AppendDcbModel {
        events: all_serialized(events),
        condition_json: json_text(condition_as_json(condition)),
        metadata_json: metadata_bytes(events),
        tags: listing(tag_set(events)),
    }
}

/// The request that appends a batch to its stream, where it names one.
pub open spec fn stream_request(
    events: Seq<EventModel>,
    stream_position: Option<usize>,
) -> Option<AppendStreamModel> {
    match stream_id(events) {
        Some(stream_id) => Some(
            AppendStreamModel {
                stream_id,
                events: all_serialized(events),
                expected_version: version_for(stream_position) as i64,
                metadata_json: metadata_bytes(events),
                tags: listing(tag_set(events)),
            },
        ),
        None => None,
    }
}

/// The events of one batch: one event where an append is split, else all of them.
pub open spec fn batch(events: Seq<EventModel>, split: bool, round: int) -> Seq<EventModel> {
    if split {
        events.subrange(round, round + 1)
    } else {
        events
    }
}

/// Gives the events of one batch.
fn batch_of(events: &[EventData], split: bool, round: usize) -> (part: &[EventData])
    requires
        split ==> round < events.len(),
    ensures
        event_models(part@) == batch(event_models(events@), split, round as int),
{
    if split {
        let part = slice_subrange(events, round, round + 1);
        assert(event_models(part@) =~= batch(event_models(events@), split, round as int));
        part
    } else {
        events
    }
}

impl BoomerangAdapter {
    /// The request that appends a batch under a condition.
    pub fn append_dcb_batch(
        events: &[EventData],
        condition: &Option<EsbAppendCondition>,
    ) -> (request: AppendDcbRequest)
        ensures
            request@ == dcb_request(event_models(events@), optional_condition(*condition)),
            json_parse(request.condition_json@) == Some(
                condition_as_json(optional_condition(*condition)),
            ),
            carries(request.metadata_json@, merged(batch_metadata(event_models(events@)))),
    {
        AppendDcbRequest {
            events: Self::convert_events(events),
            condition_json: Self::condition_bytes(condition),
            metadata_json: Self::metadata_json(events),
            tags: Self::batch_tags(events),
        }
    }

    /// The request that appends a batch to the stream that its first event names.
    pub fn append_stream_batch(
        events: &[EventData],
        stream_position: Option<usize>,
    ) -> (request: Result<AppendStreamRequest, AdapterError>)
        ensures
            match stream_request(event_models(events@), stream_position) {
                Some(model) => {
                    &&& request is Ok
                    &&& request->Ok_0@ == model
                    &&& carries(
                        request->Ok_0.metadata_json@,
                        merged(batch_metadata(event_models(events@))),
                    )
                },
                None => request == Err::<AppendStreamRequest, AdapterError>(
                    AdapterError::MissingStreamId,
                ),
            },
    {
        match Self::stream_id_from_events(events) {
            Ok(stream_id) => Ok(
                AppendStreamRequest {
                    stream_id,
                    events: Self::convert_events(events),
                    expected_version: Self::expected_version(stream_position),
                    metadata_json: Self::metadata_json(events),
                    tags: Self::batch_tags(events),
                },
            ),
            Err(error) => Err(error),
        }
    }

    /// Appends events under a condition. Without one, events that differ in their tags are sent
    /// one by one.
    pub fn append_dcb(
        events: &[EventData],
        condition: Option<EsbAppendCondition>,
    ) -> (append: DcbAppend<'_>)
        ensures
            append@ == (DcbAppendModel {
                events: event_models(events@),
                condition: optional_condition(condition),
                sent: 0,
                last: None,
            }),
    {
        let split = condition.is_none() && Self::tags_heterogeneous(events);
        DcbAppend { events, condition, split, sent: 0, last: None }
    }

    /// Appends events to the stream that the first tag of the first one names. Where any version
    /// will do, events that differ in their tags are sent one by one, each to the stream of its own
    /// first tag; at an expected version all are sent at once, since the first of several requests
    /// would make the others conflict. Without events nothing is sent. The position in the whole
    /// store plays no part.
    pub fn append_to_stream(
        events: &[EventData],
        stream_position: Option<usize>,
        _global_position: Option<u64>,
    ) -> (append: StreamAppend<'_>)
        ensures
            append@ == (StreamAppendModel {
                events: event_models(events@),
                stream_position,
                sent: 0,
                last: None,
            }),
    {
        let split = stream_position.is_none() && Self::tags_heterogeneous(events);
        StreamAppend { events, stream_position, split, sent: 0, last: None }
    }
}

/// An append under a condition, and how far it has come.
pub struct DcbAppend<'a> {
    events: &'a [EventData],
    condition: Option<EsbAppendCondition>,
    split: bool,
    sent: usize,
    last: Option<u64>,
}

/// What a [`DcbAppend`] holds: what it appends, how many batches were answered, and the position
/// that the last answer gave.
pub struct DcbAppendModel {
    pub events: Seq<EventModel>,
    pub condition: Option<ConditionModel>,
    pub sent: nat,
    pub last: Option<u64>,
}

impl DcbAppendModel {
    /// The events are sent one by one.
    pub open spec fn split(self) -> bool {
        self.condition is None && heterogeneous(self.events)
    }

    /// How many batches the append has.
    pub open spec fn rounds(self) -> nat {
        if self.split() {
            self.events.len()
        } else {
            1
        }
    }

    /// The events of one batch.
    pub open spec fn batch(self, round: int) -> Seq<EventModel> {
        batch(self.events, self.split(), round)
    }

    /// The request of one batch.
    pub open spec fn request(self, round: int) -> AppendDcbModel {
        dcb_request(self.batch(round), self.condition)
    }

    /// `next` is the append after the answer `positions` to its next batch.
    pub open spec fn answered(self, positions: Seq<i64>, next: Self) -> bool {
        &&& next.events == self.events
        &&& next.condition == self.condition
        &&& next.sent == self.sent + 1
        &&& is_last_position(positions, next.last)
    }
}

impl<'a> View for DcbAppend<'a> {
    type V = DcbAppendModel;

    closed spec fn view(&self) -> DcbAppendModel {
        DcbAppendModel {
            events: event_models(self.events@),
            condition: optional_condition(self.condition),
            sent: self.sent as nat,
            last: self.last,
        }
    }
}

impl<'a> DcbAppend<'a> {
    #[verifier::type_invariant]
    spec fn consistent(self) -> bool {
        &&& self.split == self@.split()
        &&& self.sent <= self@.rounds()
    }

    /// How many batches the append has.
    fn rounds(&self) -> (rounds: usize)
        ensures
            rounds == self@.rounds(),
    {
        proof {
            use_type_invariant(self);
        }
        if self.split {
            self.events.len()
        } else {
            1
        }
    }

    /// What to do next.
    pub fn next(&self) -> (step: AppendStep<AppendDcbRequest>)
        ensures
            match step {
                AppendStep::Send(request) => {
                    &&& self@.sent < self@.rounds()
                    &&& request@ == self@.request(self@.sent as int)
                    &&& json_parse(request.condition_json@) == Some(
                        condition_as_json(self@.condition),
                    )
                    &&& carries(
                        request.metadata_json@,
                        merged(batch_metadata(self@.batch(self@.sent as int))),
                    )
                },
                AppendStep::Done(last) => self@.sent == self@.rounds() && last == self@.last,
                AppendStep::Failed(_) => false,
            },
    {
        proof {
            use_type_invariant(self);
        }
        if self.sent < self.rounds() {
            let part = batch_of(self.events, self.split, self.sent);
            AppendStep::Send(BoomerangAdapter::append_dcb_batch(part, &self.condition))
        } else {
            AppendStep::Done(self.last)
        }
    }

    /// Takes the positions that the store gave to the batch that was sent. Nothing changes where
    /// none was left to send.
    pub fn reply(&mut self, positions: &[i64])
        ensures
            if old(self)@.sent < old(self)@.rounds() {
                old(self)@.answered(positions@, final(self)@)
            } else {
                final(self)@ == old(self)@
            },
    {
        proof {
            use_type_invariant(&*self);
        }
        if self.sent < self.rounds() {
            let last = BoomerangAdapter::last_position(positions);
            self.last = last;
            self.sent = self.sent + 1;
        }
    }
}

/// An append to a stream, and how far it has come.
pub struct StreamAppend<'a> {
    events: &'a [EventData],
    stream_position: Option<usize>,
    split: bool,
    sent: usize,
    last: Option<u64>,
}

/// What a [`StreamAppend`] holds: what it appends, how many batches were answered, and the
/// position that the last answer gave.
pub struct StreamAppendModel {
    pub events: Seq<EventModel>,
    pub stream_position: Option<usize>,
    pub sent: nat,
    pub last: Option<u64>,
}

impl StreamAppendModel {
    /// The events are sent one by one.
    pub open spec fn split(self) -> bool {
        self.stream_position is None && heterogeneous(self.events)
    }

    /// How many batches the append has.
    pub open spec fn rounds(self) -> nat {
        if self.split() {
            self.events.len()
        } else if self.events.len() > 0 {
            1
        } else {
            0
        }
    }

    /// The events of one batch.
    pub open spec fn batch(self, round: int) -> Seq<EventModel> {
        batch(self.events, self.split(), round)
    }

    /// The request of one batch, where the batch names a stream.
    pub open spec fn request(self, round: int) -> Option<AppendStreamModel> {
        stream_request(self.batch(round), self.stream_position)
    }

    /// `next` is the append after the answer `positions` to its next batch.
    pub open spec fn answered(self, positions: Seq<i64>, next: Self) -> bool {
        &&& next.events == self.events
        &&& next.stream_position == self.stream_position
        &&& next.sent == self.sent + 1
        &&& is_last_position(positions, next.last)
    }
}

impl<'a> View for StreamAppend<'a> {
    type V = StreamAppendModel;

    closed spec fn view(&self) -> StreamAppendModel {
        StreamAppendModel {
            events: event_models(self.events@),
            stream_position: self.stream_position,
            sent: self.sent as nat,
            last: self.last,
        }
    }
}

impl<'a> StreamAppend<'a> {
    #[verifier::type_invariant]
    spec fn consistent(self) -> bool {
        &&& self.split == self@.split()
        &&& self.sent <= self@.rounds()
    }

    /// How many batches the append has.
    fn rounds(&self) -> (rounds: usize)
        ensures
            rounds == self@.rounds(),
    {
        proof {
            use_type_invariant(self);
        }
        if self.split {
            self.events.len()
        } else if self.events.len() > 0 {
            1
        } else {
            0
        }
    }

    /// What to do next.
    pub fn next(&self) -> (step: AppendStep<AppendStreamRequest>)
        ensures
            match step {
                AppendStep::Send(request) => {
                    &&& self@.sent < self@.rounds()
                    &&& self@.request(self@.sent as int) == Some(request@)
                    &&& carries(
                        request.metadata_json@,
                        merged(batch_metadata(self@.batch(self@.sent as int))),
                    )
                },
                AppendStep::Done(last) => self@.sent == self@.rounds() && last == self@.last,
                AppendStep::Failed(error) => {
                    &&& self@.sent < self@.rounds()
                    &&& self@.request(self@.sent as int) is None
                    &&& error == AdapterError::MissingStreamId
                },
            },
    {
        proof {
            use_type_invariant(self);
        }
        if self.sent < self.rounds() {
            let part = batch_of(self.events, self.split, self.sent);
            match BoomerangAdapter::append_stream_batch(part, self.stream_position) {
                Ok(request) => AppendStep::Send(request),
                Err(error) => AppendStep::Failed(error),
            }
        } else {
            AppendStep::Done(self.last)
        }
    }

    /// Takes the positions that the store gave to the batch that was sent. Nothing changes where
    /// none was left to send.
    pub fn reply(&mut self, positions: &[i64])
        ensures
            if old(self)@.sent < old(self)@.rounds() {
                old(self)@.answered(positions@, final(self)@)
            } else {
                final(self)@ == old(self)@
            },
    {
        proof {
            use_type_invariant(&*self);
        }
        if self.sent < self.rounds() {
            let last = BoomerangAdapter::last_position(positions);
            self.last = last;
            self.sent = self.sent + 1;
        }
    }
}

} // verus!
