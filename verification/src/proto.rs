//! The messages of the store's remote procedures.

use crate::text::texts;
use vstd::prelude::*;

verus! {

/// An event as it is sent: its type and its payload.
#[derive(Debug, Clone, PartialEq, Eq)]
pub struct SerializedEventProto {
    pub event_type: String,
    pub payload: Vec<u8>,
}

/// What a [`SerializedEventProto`] holds.
pub struct SerializedEventModel {
    pub event_type: Seq<char>,
    pub payload: Seq<u8>,
}

impl View for SerializedEventProto {
    type V = SerializedEventModel;

    open spec fn view(&self) -> SerializedEventModel {
        SerializedEventModel { event_type: self.event_type@, payload: self.payload@ }
    }
}

/// What a sequence of serialized events holds.
pub open spec fn serialized_models(events: Seq<SerializedEventProto>) -> Seq<SerializedEventModel> {
    events.map_values(|event: SerializedEventProto| event@)
}

/// An event of the store, with its place in the store and in its stream.
#[derive(Debug, Clone, PartialEq, Eq)]
pub struct SequencedEventProto {
    pub sequence_position: i64,
    pub stream_id: String,
    pub version: i64,
    pub event: Option<SerializedEventProto>,
    pub metadata_json: Vec<u8>,
    pub tags: Vec<String>,
}

/// One alternative of a [`QueryProto`].
#[derive(Debug, Clone, PartialEq, Eq)]
pub struct QueryItemProto {
    pub types: Vec<String>,
    pub tags: Vec<String>,
}

/// A query over types and tags.
#[derive(Debug, Clone, PartialEq, Eq)]
pub struct QueryProto {
    pub items: Vec<QueryItemProto>,
}

impl View for QueryItemProto {
    type V = crate::event::QueryItemModel;

    open spec fn view(&self) -> crate::event::QueryItemModel {
        crate::event::QueryItemModel { types: texts(self.types@), tags: texts(self.tags@) }
    }
}

impl View for QueryProto {
    type V = Seq<crate::event::QueryItemModel>;

    open spec fn view(&self) -> Seq<crate::event::QueryItemModel> {
        self.items@.map_values(|item: QueryItemProto| item@)
    }
}

/// What an optional query holds: its items.
pub open spec fn optional_query(query: Option<QueryProto>) -> Option<
    Seq<crate::event::QueryItemModel>,
> {
    match query {
        Some(query) => Some(query@),
        None => None,
    }
}

/// Appends a batch under a condition on the whole store.
#[derive(Debug, Clone, PartialEq, Eq)]
pub struct AppendDcbRequest {
    pub events: Vec<SerializedEventProto>,
    pub condition_json: Vec<u8>,
    pub metadata_json: Vec<u8>,
    pub tags: Vec<String>,
}

/// What an [`AppendDcbRequest`] holds.
pub struct AppendDcbModel {
    pub events: Seq<SerializedEventModel>,
    pub condition_json: Seq<u8>,
    pub metadata_json: Seq<u8>,
    pub tags: Seq<Seq<char>>,
}

impl View for AppendDcbRequest {
    type V = AppendDcbModel;

    open spec fn view(&self) -> AppendDcbModel {
        AppendDcbModel {
            events: serialized_models(self.events@),
            condition_json: self.condition_json@,
            metadata_json: self.metadata_json@,
            tags: texts(self.tags@),
        }
    }
}

/// Appends a batch to a stream at an expected version.
#[derive(Debug, Clone, PartialEq, Eq)]
pub struct AppendStreamRequest {
    pub stream_id: String,
    pub events: Vec<SerializedEventProto>,
    pub expected_version: i64,
    pub metadata_json: Vec<u8>,
    pub tags: Vec<String>,
}

/// What an [`AppendStreamRequest`] holds.
pub struct AppendStreamModel {
    pub stream_id: Seq<char>,
    pub events: Seq<SerializedEventModel>,
    pub expected_version: i64,
    pub metadata_json: Seq<u8>,
    pub tags: Seq<Seq<char>>,
}

impl View for AppendStreamRequest {
    type V = AppendStreamModel;

    open spec fn view(&self) -> AppendStreamModel {
        AppendStreamModel {
            stream_id: self.stream_id@,
            events: serialized_models(self.events@),
            expected_version: self.expected_version,
            metadata_json: self.metadata_json@,
            tags: texts(self.tags@),
        }
    }
}

/// Reads a stream between two versions.
#[derive(Debug, Clone, PartialEq, Eq)]
pub struct ReadStreamRequest {
    pub stream_id: String,
    pub from_version: i64,
    pub to_version: i64,
    pub to_timestamp: i64,
}

/// Reads the events of a query in one reply.
#[derive(Debug, Clone, PartialEq, Eq)]
pub struct ReadByQueryRequest {
    pub query_json: Vec<u8>,
    pub from_sequence_position: i64,
    pub limit: i32,
    pub to_sequence_position: i64,
    pub to_timestamp: i64,
    pub query: Option<QueryProto>,
}

/// Reads the events of a query as a stream of replies.
#[derive(Debug, Clone, PartialEq, Eq)]
pub struct ReadByQueryStreamRequest {
    pub query_json: Vec<u8>,
    pub from_sequence_position: i64,
    pub to_sequence_position: i64,
    pub to_timestamp: i64,
    pub limit: i32,
    pub query: Option<QueryProto>,
}

/// What a subscription covers.
#[derive(Debug, Clone, PartialEq, Eq)]
pub enum Scope {
    GlobalAll(bool),
}

/// Subscribes to the events from a position on.
#[derive(Debug, Clone, PartialEq, Eq)]
pub struct SubscribeRequest {
    pub subscriber_id: String,
    pub from_sequence_position: i64,
    pub scope: Option<Scope>,
}

} // verus!
