use boomerang::adapter::BoomerangAdapter;
use boomerang::append::AppendStep;
use boomerang::event::EventData;
use boomerang::metadata::{metadata_from_json, metadata_from_value};
use boomerang::proto::{SequencedEventProto, SerializedEventProto};
use boomerang::read::{map_read_event, map_read_events, BoomerangReadResponse, ReadAction};

fn pairs(texts: &[(&str, &str)]) -> Vec<(String, String)> {
    texts.iter().map(|(k, v)| (k.to_string(), v.to_string())).collect()
}

fn with_metadata(metadata: &[(&str, &str)]) -> EventData {
    EventData {
        payload: vec![1],
        event_type: "t".to_string(),
        tags: vec!["tag".to_string()],
        metadata: pairs(metadata),
    }
}

fn stored(position: i64, event_type: &str, metadata_json: &[u8]) -> SequencedEventProto {
    SequencedEventProto {
        sequence_position: position,
        stream_id: "s".to_string(),
        version: 1,
        event: Some(SerializedEventProto {
            event_type: event_type.to_string(),
            payload: vec![4, 5, 6],
        }),
        metadata_json: metadata_json.to_vec(),
        tags: Vec::new(),
    }
}

#[test]
fn metadata_of_a_batch_is_merged() {
    let events = [
        with_metadata(&[("b", "1"), ("a", "2")]),
        with_metadata(&[("b", "3")]),
        with_metadata(&[]),
    ];
    let bytes = BoomerangAdapter::metadata_json(&events);
    assert_eq!(bytes, br#"{"custom":{"a":"2","b":"3"}}"#.to_vec());
    assert!(BoomerangAdapter::metadata_json(&[with_metadata(&[])]).is_empty());
    assert!(BoomerangAdapter::metadata_json(&[]).is_empty());
}

#[test]
fn metadata_round_trips() {
    let events = [with_metadata(&[("timestamp", "123456789"), ("\u{e9}\"\n", "\\\u{1f600}"), ("", "")])];
    let bytes = BoomerangAdapter::metadata_json(&events);
    assert_eq!(
        metadata_from_json(&bytes),
        pairs(&[("", ""), ("timestamp", "123456789"), ("\u{e9}\"\n", "\\\u{1f600}")])
    );
}

#[test]
fn custom_metadata_comes_first() {
    let bytes = br#"{"z":"1","custom":{"y":"2","x":"3","n":4,"custom":"5"},"a":"6","n":7}"#;
    let expected = pairs(&[("custom", "5"), ("x", "3"), ("y", "2"), ("a", "6"), ("z", "1")]);
    assert_eq!(metadata_from_json(bytes), expected);
    let value: serde_json::Value = serde_json::from_slice(bytes).unwrap();
    assert_eq!(metadata_from_value(&value), expected);
}

#[test]
fn other_bytes_hold_no_metadata() {
    assert!(metadata_from_json(b"").is_empty());
    assert!(metadata_from_json(b"{").is_empty());
    assert!(metadata_from_json(b"[\"custom\"]").is_empty());
    assert_eq!(metadata_from_json(br#"{"custom":"x","k":"v"}"#), pairs(&[("k", "v")]));
    assert_eq!(metadata_from_json(br#"{"custom":[1],"k":null}"#), pairs(&[]));
}

#[test]
fn read_events_are_mapped() {
    let event = map_read_event(stored(12, "type2", br#"{"custom":{"k":"v"}}"#));
    assert_eq!(event.offset, 12);
    assert_eq!(event.event_type, "type2");
    assert_eq!(event.payload, vec![4, 5, 6]);
    assert_eq!(event.metadata, pairs(&[("k", "v")]));
    let mut bare = stored(-3, "x", b"");
    bare.event = None;
    let event = map_read_event(bare);
    assert_eq!(event.offset, 0);
    assert_eq!(event.event_type, "");
    assert!(event.payload.is_empty());
    assert!(event.metadata.is_empty());
}

#[test]
fn replies_keep_their_order() {
    let events = map_read_events(vec![stored(1, "a", b""), stored(2, "b", b"")]);
    assert_eq!(events.len(), 2);
    assert_eq!((events[0].offset, events[0].event_type.as_str()), (1, "a"));
    assert_eq!((events[1].offset, events[1].event_type.as_str()), (2, "b"));
}

#[test]
fn limited_stream_hands_on_its_limit_and_drains() {
    let mut response = BoomerangReadResponse { remaining: Some(2) };
    assert_eq!(response.next_action(), ReadAction::Pull);
    assert_eq!(response.next_event(Some(stored(1, "a", b""))).unwrap().offset, 1);
    assert_eq!(response.remaining, Some(1));
    assert_eq!(response.next_event(Some(stored(2, "b", b""))).unwrap().offset, 2);
    assert_eq!(response.next_action(), ReadAction::Drain);
    assert_eq!(response.remaining, Some(0));
}

#[test]
fn unlimited_stream_ends_with_its_messages() {
    let mut response = BoomerangReadResponse { remaining: None };
    assert_eq!(response.next_event(Some(stored(1, "a", b""))).unwrap().event_type, "a");
    assert_eq!(response.remaining, None);
    assert_eq!(response.next_action(), ReadAction::Pull);
    assert!(response.next_event(None).is_none());
    let mut limited = BoomerangReadResponse { remaining: Some(3) };
    assert!(limited.next_event(None).is_none());
    assert_eq!(limited.remaining, Some(3));
}

#[test]
fn appended_events_read_back() {
    let events = [with_metadata(&[("k", "v")])];
    let append = BoomerangAdapter::append_dcb(&events, None);
    let AppendStep::Send(request) = append.next() else { panic!("nothing to send") };
    let event = map_read_event(SequencedEventProto {
        sequence_position: 3,
        stream_id: String::new(),
        version: 0,
        event: Some(request.events[0].clone()),
        metadata_json: request.metadata_json,
        tags: request.tags,
    });
    assert_eq!(event.event_type, events[0].event_type);
    assert_eq!(event.payload, events[0].payload);
    assert_eq!(event.metadata, events[0].metadata);
}

#[test]
fn reads_resume_after_what_was_appended_or_read() {
    let last = BoomerangAdapter::last_position(&[3, 7, 5]);
    assert_eq!(BoomerangAdapter::inclusive_from(last), 8);
    let event = map_read_event(stored(8, "a", b""));
    assert_eq!(BoomerangAdapter::inclusive_from(Some(event.offset)), 9);
}
