//! Reads and subscriptions: what they ask for, and what they hand on.

use crate::adapter::{first_position, next_position, position_after, BoomerangAdapter};
use crate::event::{read_event_models, ReadEvent, ReadEventModel, ReadRequest};
use crate::metadata::{finitely_read, metadata_from_json, metadata_read};
use crate::proto::{
    optional_query, ReadByQueryRequest, ReadByQueryStreamRequest, ReadStreamRequest, Scope,
    SequencedEventProto, SubscribeRequest,
};
use crate::query::{query_proto, requested_items};
use crate::text::optional_text;
use vstd::prelude::*;

verus! {

/// The greatest limit that is read in one reply. Beyond it the reply would hold too much, so the
/// read is a stream.
pub const UNARY_READ_LIMIT_MAX: u64 = 256;

/// A limit that is read in one reply.
pub open spec fn unary(limit: Option<u64>) -> bool {
    limit is Some && 1 <= limit->0 <= UNARY_READ_LIMIT_MAX
}

/// The limit that a streamed read asks the store to keep: 0 asks for none, and what the field
/// cannot hold becomes the greatest it can.
pub open spec fn stream_limit(limit: Option<u64>) -> int {
    match limit {
        Some(limit) => if limit <= i32::MAX {
            limit as int
        } else {
            i32::MAX as int
        },
        None => 0,
    }
}

/// `request` reads in one reply what `req` asks for.
pub open spec fn reads_at_once(request: ReadByQueryRequest, req: ReadRequest) -> bool {
    &&& request.query_json@.len() == 0
    &&& request.from_sequence_position == first_position(req.from_offset)
    &&& req.limit is Some
    &&& request.limit == req.limit->0
    &&& request.to_sequence_position == -1
    &&& request.to_timestamp == 0
    &&& optional_query(request.query) == requested_items(req.tag@, optional_text(req.event_type))
}

/// `request` streams what `req` asks for.
pub open spec fn reads_as_stream(request: ReadByQueryStreamRequest, req: ReadRequest) -> bool {
    &&& request.query_json@.len() == 0
    &&& request.from_sequence_position == first_position(req.from_offset)
    &&& request.limit == stream_limit(req.limit)
    &&& request.to_sequence_position == -1
    &&& request.to_timestamp == 0
    &&& optional_query(request.query) == requested_items(req.tag@, optional_text(req.event_type))
}

/// The event that is handed on for an event of the store.
pub open spec fn read_model(event: SequencedEventProto) -> ReadEventModel {
    ReadEventModel {
        offset: if event.sequence_position > 0 {
            event.sequence_position as u64
        } else {
            0
        },
        event_type: match event.event {
            Some(event) => event.event_type@,
            None => seq![],
        },
        payload: match event.event {
            Some(event) => event.payload@,
            None => seq![],
        },
        metadata: metadata_read(event.metadata_json@),
    }
}

/// The events that are handed on for events of the store.
pub open spec fn read_models(events: Seq<SequencedEventProto>) -> Seq<ReadEventModel> {
    events.map_values(|event: SequencedEventProto| read_model(event))
}

/// How many events are still wanted after one more was handed on.
pub open spec fn one_fewer(remaining: Option<u64>) -> Option<u64> {
    match remaining {
        Some(remaining) => Some(
            if remaining > 0 {
                (remaining - 1) as u64
            } else {
                0
            },
        ),
        None => None,
    }
}

/// The position that a subscription starts at: the first of all, or the one after an offset.
pub open spec fn subscription_start(after: Option<u64>) -> int {
    match after {
        Some(after) => position_after(after),
        None => 0,
    }
}

/// A lower-case hexadecimal digit.
pub open spec fn hex_digit(c: char) -> bool {
    '0' <= c <= '9' || 'a' <= c <= 'f'
}

/// The text of a random UUID: 32 hexadecimal digits in groups, with those that tell a random one.
pub open spec fn random_uuid(text: Seq<char>) -> bool {
    &&& text.len() == 36
    &&& forall|i: int|
        0 <= i < 36 ==> if i == 8 || i == 13 || i == 18 || i == 23 {
            #[trigger] text[i] == '-'
        } else {
            hex_digit(text[i])
        }
    &&& text[14] == '4'
    &&& text[19] == '8' || text[19] == '9' || text[19] == 'a' || text[19] == 'b'
}

/// Tells whether a limit is read in one reply.
pub fn use_unary_read(limit: Option<u64>) -> (at_once: bool)
    ensures
        at_once == unary(limit),
{
    match limit {
        Some(limit) => 1 <= limit && limit <= UNARY_READ_LIMIT_MAX,
        None => false,
    }
}

/// The limit that a streamed read asks the store to keep.
pub fn stream_rpc_limit(limit: Option<u64>) -> (asked: i32)
    ensures
        asked == stream_limit(limit),
{
    match limit {
        Some(limit) => if limit <= i32::MAX as u64 {
            limit as i32
        } else {
            i32::MAX
        },
        None => 0,
    }
}

/// The event to hand on for an event of the store.
pub fn map_read_event(proto: SequencedEventProto) -> (event: ReadEvent)
    ensures
        event@ == read_model(proto),
        finitely_read(proto.metadata_json@),
{
    let offset: u64 = if proto.sequence_position > 0 {
        proto.sequence_position as u64
    } else {
        0
    };
    let metadata = metadata_from_json(proto.metadata_json.as_slice());
    let (event_type, payload) = match proto.event {
        Some(event) => (event.event_type, event.payload),
        None => (String::new(), Vec::new()),
    };
    ReadEvent { offset, event_type, payload, metadata }
}

/// The events to hand on for the events of a reply.
pub fn map_read_events(protos: Vec<SequencedEventProto>) -> (events: Vec<ReadEvent>)
    ensures
        read_event_models(events@) == read_models(protos@),
        forall|i: int| 0 <= i < protos@.len() ==> finitely_read(#[trigger] protos@[i].metadata_json@),
{
    let mut events: Vec<ReadEvent> = Vec::new();
    for proto in it: protos
        invariant
            it.seq() == protos@,
            events@.len() == it.index(),
            forall|j: int| 0 <= j < events@.len() ==> (#[trigger] events@[j])@ == read_model(protos@[j]),
            forall|j: int|
                0 <= j < events@.len() ==> finitely_read(#[trigger] protos@[j].metadata_json@),
    {
        events.push(map_read_event(proto));
    }
    assert(read_event_models(events@) =~= read_models(protos@));
    events
}

/// How a read is carried out.
#[derive(Debug, Clone, PartialEq, Eq)]
pub enum ReadPlan {
    /// Send one request and hand on the events of its reply.
    Unary(ReadByQueryRequest),
    /// Open a stream and hand on its events one by one.
    Stream(ReadByQueryStreamRequest, BoomerangReadResponse),
}

/// What to do with an open stream to get the next event.
#[derive(Debug, Clone, Copy, PartialEq, Eq, Structural)]
pub enum ReadAction {
    /// All wanted events were handed on: read the stream to its end and hand on nothing.
    Drain,
    /// Take one message from the stream.
    Pull,
}

/// An open stream: how many of its events are still wanted, `None` where all are.
#[derive(Debug, Clone, PartialEq, Eq)]
pub struct BoomerangReadResponse {
    pub remaining: Option<u64>,
}

impl BoomerangReadResponse {
    /// What to do to get the next event.
    pub fn next_action(&self) -> (action: ReadAction)
        ensures
            action == (if self.remaining == Some(0u64) {
                ReadAction::Drain
            } else {
                ReadAction::Pull
            }),
    {
        match self.remaining {
            Some(0) => ReadAction::Drain,
            _ => ReadAction::Pull,
        }
    }

    /// The next event, given the message that was taken from the stream: none where the stream
    /// has ended.
    pub fn next_event(&mut self, message: Option<SequencedEventProto>) -> (event: Option<ReadEvent>)
        ensures
            match message {
                Some(proto) => {
                    &&& event is Some
                    &&& event->0@ == read_model(proto)
                    &&& finitely_read(proto.metadata_json@)
                    &&& final(self).remaining == one_fewer(old(self).remaining)
                },
                None => event is None && *final(self) == *old(self),
            },
    {
        match message {
            Some(proto) => {
                if let Some(remaining) = self.remaining {
                    self.remaining = Some(remaining.saturating_sub(1));
                }
                Some(map_read_event(proto))
            },
            None => None,
        }
    }
}

/// Gives the text of a UUID that `uuid::Uuid::new_v4` made. It is random: all that holds of each
/// is its form.
#[verifier::external_body]
fn new_uuid() -> (text: String)
    ensures
        random_uuid(text@),
{
    uuid::Uuid::new_v4().to_string()
}

impl BoomerangAdapter {
    /// How a read by tag and type is carried out. The query goes in the message alone; its JSON
    /// form stays empty.
    pub fn read_stream(req: &ReadRequest) -> (plan: ReadPlan)
        ensures
            match plan {
                ReadPlan::Unary(request) => unary(req.limit) && reads_at_once(request, *req),
                ReadPlan::Stream(request, response) => {
                    &&& !unary(req.limit)
                    &&& reads_as_stream(request, *req)
                    &&& response.remaining == req.limit
                },
            },
    {
        let event_type = match &req.event_type {
            Some(event_type) => Some(event_type.as_str()),
            None => None,
        };
        let query = query_proto(req.tag.as_str(), event_type);
        let from_sequence_position = Self::inclusive_from(req.from_offset);
        if use_unary_read(req.limit) {
            if let Some(limit) = req.limit {
                return ReadPlan::Unary(
                    ReadByQueryRequest {
                        query_json: Vec::new(),
                        from_sequence_position,
                        limit: limit as i32,
                        to_sequence_position: -1,
                        to_timestamp: 0,
                        query,
                    },
                );
            }
        }
        ReadPlan::Stream(
            ReadByQueryStreamRequest {
                query_json: Vec::new(),
                from_sequence_position,
                to_sequence_position: -1,
                to_timestamp: 0,
                limit: stream_rpc_limit(req.limit),
                query,
            },
            BoomerangReadResponse { remaining: req.limit },
        )
    }

    /// The stream of all events of the store.
    pub fn read_all() -> (plan: (ReadByQueryStreamRequest, BoomerangReadResponse))
        ensures
            plan.0.query_json@.len() == 0,
            plan.0.from_sequence_position == -1,
            plan.0.to_sequence_position == -1,
            plan.0.to_timestamp == 0,
            plan.0.limit == 0,
            plan.0.query is None,
            plan.1.remaining is None,
    {
        (
            ReadByQueryStreamRequest {
                query_json: Vec::new(),
                from_sequence_position: -1,
                to_sequence_position: -1,
                to_timestamp: 0,
                limit: 0,
                query: None,
            },
            BoomerangReadResponse { remaining: None },
        )
    }

    /// The request for all events of one stream.
    pub fn read_stream_by_id(stream_id: &str) -> (request: ReadStreamRequest)
        ensures
            request.stream_id@ == stream_id@,
            request.from_version == 0,
            request.to_version == -1,
            request.to_timestamp == 0,
    {
        ReadStreamRequest {
            stream_id: stream_id.to_string(),
            from_version: 0,
            to_version: -1,
            to_timestamp: 0,
        }
    }

    /// The subscription of a named subscriber to the events after an offset, or to all.
    pub fn subscribe_as(name: &str, after: Option<u64>) -> (plan: (
        SubscribeRequest,
        BoomerangReadResponse,
    ))
        ensures
            plan.0.subscriber_id@ == "esb-"@ + name@,
            plan.0.from_sequence_position == subscription_start(after),
            plan.0.scope == Some(Scope::GlobalAll(true)),
            plan.1.remaining is None,
    {
        let from_sequence_position: i64 = match after {
            Some(after) => next_position(after),
            None => 0,
        };
        (
            SubscribeRequest {
                subscriber_id: "esb-".to_string().concat(name),
                from_sequence_position,
                scope: Some(Scope::GlobalAll(true)),
            },
            BoomerangReadResponse { remaining: None },
        )
    }

    /// The subscription of a new subscriber to the events after an offset, or to all.
    pub fn subscribe(after: Option<u64>) -> (plan: (SubscribeRequest, BoomerangReadResponse))
        ensures
            exists|name: Seq<char>|
                plan.0.subscriber_id@ == "esb-"@ + name && #[trigger] random_uuid(name),
            plan.0.from_sequence_position == subscription_start(after),
            plan.0.scope == Some(Scope::GlobalAll(true)),
            plan.1.remaining is None,
    {
        let name = new_uuid();
        Self::subscribe_as(name.as_str(), after)
    }
}

} // verus!
