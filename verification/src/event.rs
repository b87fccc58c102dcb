//! What the benchmark harness hands to the adapter and gets back from it.

use crate::text::{text_pairs, texts};
use vstd::prelude::*;

verus! {

/// An event to append.
#[derive(Debug, Clone, PartialEq, Eq)]
pub struct EventData {
    pub payload: Vec<u8>,
    pub event_type: String,
    pub tags: Vec<String>,
    pub metadata: Vec<(String, String)>,
}

/// What an [`EventData`] holds.
pub struct EventModel {
    pub payload: Seq<u8>,
    pub event_type: Seq<char>,
    pub tags: Seq<Seq<char>>,
    pub metadata: Seq<(Seq<char>, Seq<char>)>,
}

impl View for EventData {
    type V = EventModel;

    open spec fn view(&self) -> EventModel {
        EventModel {
            payload: self.payload@,
            event_type: self.event_type@,
            tags: texts(self.tags@),
            metadata: text_pairs(self.metadata@),
        }
    }
}

/// What a sequence of events holds.
pub open spec fn event_models(events: Seq<EventData>) -> Seq<EventModel> {
    events.map_values(|event: EventData| event@)
}

/// An event that was read.
#[derive(Debug, Clone, PartialEq, Eq)]
pub struct ReadEvent {
    pub offset: u64,
    pub event_type: String,
    pub payload: Vec<u8>,
    pub metadata: Vec<(String, String)>,
}

/// What a [`ReadEvent`] holds.
pub struct ReadEventModel {
    pub offset: u64,
    pub event_type: Seq<char>,
    pub payload: Seq<u8>,
    pub metadata: Seq<(Seq<char>, Seq<char>)>,
}

impl View for ReadEvent {
    type V = ReadEventModel;

    open spec fn view(&self) -> ReadEventModel {
        ReadEventModel {
            offset: self.offset,
            event_type: self.event_type@,
            payload: self.payload@,
            metadata: text_pairs(self.metadata@),
        }
    }
}

/// What a sequence of read events holds.
pub open spec fn read_event_models(events: Seq<ReadEvent>) -> Seq<ReadEventModel> {
    events.map_values(|event: ReadEvent| event@)
}

/// A request to read the events with a tag, a type, or both, from after an offset.
#[derive(Debug, Clone, PartialEq, Eq)]
pub struct ReadRequest {
    pub tag: String,
    pub event_type: Option<String>,
    pub from_offset: Option<u64>,
    pub limit: Option<u64>,
}

/// One alternative of a query: an event matches it by type and tags.
#[derive(Debug, Clone, PartialEq, Eq)]
pub struct EsbQueryItem {
    pub types: Vec<String>,
    pub tags: Vec<String>,
}

/// What a query item holds.
pub struct QueryItemModel {
    pub types: Seq<Seq<char>>,
    pub tags: Seq<Seq<char>>,
}

impl View for EsbQueryItem {
    type V = QueryItemModel;

    open spec fn view(&self) -> QueryItemModel {
        QueryItemModel { types: texts(self.types@), tags: texts(self.tags@) }
    }
}

/// What a sequence of query items holds.
pub open spec fn query_item_models(items: Seq<EsbQueryItem>) -> Seq<QueryItemModel> {
    items.map_values(|item: EsbQueryItem| item@)
}

impl EsbQueryItem {
    /// An item without types and tags.
    pub fn new() -> (item: Self)
        ensures
            item@.types == Seq::<Seq<char>>::empty(),
            item@.tags == Seq::<Seq<char>>::empty(),
    {
        EsbQueryItem { types: Vec::new(), tags: Vec::new() }
    }

    /// The item with these types.
    pub fn types(self, types: Vec<String>) -> (item: Self)
        ensures
            item@.types == texts(types@),
            item@.tags == self@.tags,
    {
        EsbQueryItem { types, tags: self.tags }
    }

    /// The item with these tags.
    pub fn tags(self, tags: Vec<String>) -> (item: Self)
        ensures
            item@.types == self@.types,
            item@.tags == texts(tags@),
    {
        EsbQueryItem { types: self.types, tags }
    }
}

/// A query: an event matches it that matches one of its items.
#[derive(Debug, Clone, PartialEq, Eq)]
pub struct EsbQuery {
    pub items: Vec<EsbQueryItem>,
}

impl EsbQuery {
    /// A query without items.
    pub fn new() -> (query: Self)
        ensures
            query.items@.len() == 0,
    {
        EsbQuery { items: Vec::new() }
    }

    /// The query with one more item.
    pub fn item(self, item: EsbQueryItem) -> (query: Self)
        ensures
            query.items@ == self.items@.push(item),
    {
        let mut items = self.items;
        items.push(item);
        EsbQuery { items }
    }
}

/// The condition of an append: it fails if an event after a position matches a query.
#[derive(Debug, Clone, PartialEq, Eq)]
pub struct EsbAppendCondition {
    pub fail_if_events_match: EsbQuery,
    pub after: Option<u64>,
}

/// What an [`EsbAppendCondition`] holds.
pub struct ConditionModel {
    pub items: Seq<QueryItemModel>,
    pub after: Option<u64>,
}

impl View for EsbAppendCondition {
    type V = ConditionModel;

    open spec fn view(&self) -> ConditionModel {
        ConditionModel {
            items: query_item_models(self.fail_if_events_match.items@),
            after: self.after,
        }
    }
}

/// What an optional condition holds.
pub open spec fn optional_condition(condition: Option<EsbAppendCondition>) -> Option<
    ConditionModel,
> {
    match condition {
        Some(condition) => Some(condition@),
        None => None,
    }
}

impl EsbAppendCondition {
    /// A condition on all events.
    pub fn new(fail_if_events_match: EsbQuery) -> (condition: Self)
        ensures
            condition.fail_if_events_match == fail_if_events_match,
            condition.after is None,
    {
        EsbAppendCondition { fail_if_events_match, after: None }
    }

    /// The condition on the events after a position only.
    pub fn after(self, after: Option<u64>) -> (condition: Self)
        ensures
            condition.fail_if_events_match == self.fail_if_events_match,
            condition.after == after,
    {
        EsbAppendCondition { fail_if_events_match: self.fail_if_events_match, after }
    }
}

} // verus!
