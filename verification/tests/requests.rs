use boomerang::adapter::{AdapterError, BoomerangAdapter};
use boomerang::append::AppendStep;
use boomerang::event::{EsbAppendCondition, EsbQuery, EsbQueryItem, EventData, ReadRequest};
use boomerang::proto::Scope;
use boomerang::query::{query_item_json, query_proto};
use boomerang::read::{stream_rpc_limit, use_unary_read, ReadPlan};

fn strings(texts: &[&str]) -> Vec<String> {
    texts.iter().map(|text| text.to_string()).collect()
}

fn event(event_type: &str, tags: &[&str]) -> EventData {
    EventData {
        payload: vec![7],
        event_type: event_type.to_string(),
        tags: strings(tags),
        metadata: Vec::new(),
    }
}

fn sample_events() -> Vec<EventData> {
    vec![
        EventData {
            payload: vec![1, 2, 3],
            event_type: "type1".to_string(),
            tags: strings(&["tag1"]),
            metadata: Vec::new(),
        },
        EventData {
            payload: vec![4, 5, 6],
            event_type: "type2".to_string(),
            tags: strings(&["tag2"]),
            metadata: vec![("timestamp".to_string(), "123456789".to_string())],
        },
    ]
}

#[test]
fn use_unary_read_small_limit_only() {
    assert!(use_unary_read(Some(1)));
    assert!(use_unary_read(Some(10)));
    assert!(use_unary_read(Some(256)));
    assert!(!use_unary_read(None));
    assert!(!use_unary_read(Some(0)));
    assert!(!use_unary_read(Some(257)));
    assert!(!use_unary_read(Some(1_000_000)));
}

#[test]
fn query_proto_hot_path_omits_all() {
    assert!(query_proto("", None).is_none());
    let q = query_proto("t", Some("e")).expect("tagged typed query");
    assert_eq!(q.items[0].tags, vec!["t"]);
    assert_eq!(q.items[0].types, vec!["e"]);
}

#[test]
fn query_json_emits_pascal_case_items() {
    let json = BoomerangAdapter::query_json("t", Some("e"));
    let v: serde_json::Value = serde_json::from_slice(&json).unwrap();
    assert_eq!(v["Items"][0]["Tags"][0], "t");
    assert_eq!(v["Items"][0]["Types"][0], "e");
}

fn h2h_condition_json(tag: &str, event_type: &str) -> Vec<u8> {
    let condition = Some(
        EsbAppendCondition::new(
            EsbQuery::new().item(
                EsbQueryItem::new()
                    .tags(vec![tag.to_string()])
                    .types(vec![event_type.to_string()]),
            ),
        )
        .after(Some(0)),
    );
    BoomerangAdapter::condition_json(condition)
}

#[test]
fn d2_condition_json_h2h_cost() {
    let tag = "stream-0-";
    let event_type = "test-0";
    let iterations = 200_000u32;

    let sample = h2h_condition_json(tag, event_type);
    let v: serde_json::Value = serde_json::from_slice(&sample).unwrap();
    assert_eq!(v["FailIfEventsMatch"]["Items"][0]["Tags"][0], tag);
    assert_eq!(v["FailIfEventsMatch"]["Items"][0]["Types"][0], event_type);
    assert_eq!(v["After"], 0);

    for _ in 0..20_000 {
        let _ = h2h_condition_json(tag, event_type);
    }

    let started = std::time::Instant::now();
    let mut bytes = 0usize;
    for _ in 0..iterations {
        bytes = h2h_condition_json(tag, event_type).len();
    }
    let elapsed = started.elapsed();
    let mean_ns = elapsed.as_nanos() as f64 / f64::from(iterations);
    println!(
        "harness condition_json ({iterations} iters): {mean_ns:.1} ns ({:.3} us) bytes={bytes}",
        mean_ns / 1000.0
    );
    assert!(mean_ns > 0.0);
    assert!(bytes > 0);
}

#[test]
fn stream_rpc_limit_zero_means_unbounded() {
    assert_eq!(stream_rpc_limit(None), 0);
    assert_eq!(stream_rpc_limit(Some(0)), 0);
    assert_eq!(stream_rpc_limit(Some(257)), 257);
}

#[test]
fn append_to_stream_uses_first_tag_as_stream_id() {
    let events = sample_events();
    assert_eq!(
        BoomerangAdapter::stream_id_from_events(&events).unwrap(),
        "tag1"
    );
    assert_eq!(BoomerangAdapter::expected_version(None), -1);
    assert_eq!(BoomerangAdapter::expected_version(Some(0)), 0);
    assert_eq!(BoomerangAdapter::expected_version(Some(9)), 9);
    let empty = EventData {
        payload: vec![1u8],
        event_type: "t".to_string(),
        tags: Vec::new(),
        metadata: Vec::new(),
    };
    assert!(BoomerangAdapter::stream_id_from_events(&[empty]).is_err());
}

#[test]
fn stream_rpc_limit_is_capped_by_its_field() {
    assert_eq!(stream_rpc_limit(Some(2_147_483_647)), i32::MAX);
    assert_eq!(stream_rpc_limit(Some(2_147_483_648)), i32::MAX);
    assert_eq!(stream_rpc_limit(Some(u64::MAX)), i32::MAX);
}

#[test]
fn missing_stream_ids_are_refused() {
    let refused = BoomerangAdapter::stream_id_from_events(&[]);
    assert_eq!(refused, Err(AdapterError::MissingStreamId));
    let blank = BoomerangAdapter::stream_id_from_events(&[event("t", &["", "b"])]);
    assert_eq!(blank, Err(AdapterError::MissingStreamId));
    assert_eq!(
        AdapterError::MissingStreamId.message(),
        "append_to_stream requires EventData.tags[0] as the harness stream identifier"
    );
}

#[test]
fn offsets_are_exclusive() {
    assert_eq!(BoomerangAdapter::inclusive_from(None), -1);
    assert_eq!(BoomerangAdapter::inclusive_from(Some(0)), 1);
    assert_eq!(BoomerangAdapter::inclusive_from(Some(41)), 42);
    assert_eq!(BoomerangAdapter::inclusive_from(Some(i64::MAX as u64 - 1)), i64::MAX);
    assert_eq!(BoomerangAdapter::inclusive_from(Some(i64::MAX as u64)), i64::MAX);
    assert_eq!(BoomerangAdapter::inclusive_from(Some(u64::MAX)), i64::MAX);
}

#[test]
fn expected_versions_keep_their_bits() {
    assert_eq!(BoomerangAdapter::expected_version(Some(usize::MAX)), -1);
}

#[test]
fn query_parts_are_left_out_when_empty() {
    let tagged = query_item_json(&[], &strings(&["a", "b"]));
    assert_eq!(tagged.to_string(), r#"{"Tags":["a","b"]}"#);
    let typed = query_item_json(&strings(&["x"]), &[]);
    assert_eq!(typed.to_string(), r#"{"Types":["x"]}"#);
    assert_eq!(query_item_json(&[], &[]).to_string(), "{}");
}

#[test]
fn query_message_asks_for_what_is_given() {
    let typed = query_proto("", Some("e")).unwrap();
    assert_eq!(typed.items.len(), 1);
    assert!(typed.items[0].tags.is_empty());
    assert_eq!(typed.items[0].types, vec!["e"]);
    let tagged = query_proto("t", None).unwrap();
    assert_eq!(tagged.items[0].tags, vec!["t"]);
    assert!(tagged.items[0].types.is_empty());
}

#[test]
fn query_bytes_match_the_message() {
    assert!(BoomerangAdapter::query_json("", None).is_empty());
    assert_eq!(BoomerangAdapter::query_json("t", None), br#"{"Items":[{"Tags":["t"]}]}"#.to_vec());
    assert_eq!(
        BoomerangAdapter::query_json("t\"", Some("e")),
        br#"{"Items":[{"Tags":["t\""],"Types":["e"]}]}"#.to_vec()
    );
}

#[test]
fn no_condition_allows_no_type() {
    assert_eq!(
        BoomerangAdapter::condition_json(None),
        br#"{"FailIfEventsMatch":{"Items":[{"Tags":["__esb_unconditional__"],"Types":[]}]}}"#
            .to_vec()
    );
}

#[test]
fn condition_without_position_leaves_it_out() {
    let query = EsbQuery::new()
        .item(EsbQueryItem::new().tags(strings(&["a"])))
        .item(EsbQueryItem::new().types(strings(&["x"])));
    let condition = EsbAppendCondition::new(query);
    let value = BoomerangAdapter::condition_value(&Some(condition.clone()));
    assert_eq!(
        value.to_string(),
        r#"{"FailIfEventsMatch":{"Items":[{"Tags":["a"]},{"Types":["x"]}]}}"#
    );
    assert_eq!(
        BoomerangAdapter::condition_json(Some(condition.after(Some(u64::MAX)))),
        br#"{"After":18446744073709551615,"FailIfEventsMatch":{"Items":[{"Tags":["a"]},{"Types":["x"]}]}}"#
            .to_vec()
    );
}

#[test]
fn batch_tags_are_sorted_and_unique() {
    let events = [
        event("a", &["b", "a", "b"]),
        event("b", &["B", "a\u{e9}", "a", "az"]),
        event("c", &[]),
    ];
    assert_eq!(
        BoomerangAdapter::batch_tags(&events),
        strings(&["B", "a", "az", "a\u{e9}", "b"])
    );
    assert!(BoomerangAdapter::batch_tags(&[]).is_empty());
}

#[test]
fn last_position_ignores_negative_ones() {
    assert_eq!(BoomerangAdapter::last_position(&[]), None);
    assert_eq!(BoomerangAdapter::last_position(&[-1, -5]), None);
    assert_eq!(BoomerangAdapter::last_position(&[-1, 0]), Some(0));
    assert_eq!(BoomerangAdapter::last_position(&[3, 9, 9, -2, 4]), Some(9));
}

#[test]
fn heterogeneous_tags_are_noticed() {
    assert!(!BoomerangAdapter::tags_heterogeneous(&[]));
    assert!(!BoomerangAdapter::tags_heterogeneous(&[event("a", &["x"])]));
    assert!(!BoomerangAdapter::tags_heterogeneous(&[event("a", &["x"]), event("b", &["x"])]));
    assert!(BoomerangAdapter::tags_heterogeneous(&[event("a", &["x"]), event("b", &["y"])]));
    assert!(BoomerangAdapter::tags_heterogeneous(&[event("a", &["x"]), event("b", &["x", "y"])]));
}

#[test]
fn reordered_and_repeated_tags_are_the_same() {
    let reordered = [event("t", &["a", "b"]), event("t", &["b", "a"])];
    assert!(!BoomerangAdapter::tags_heterogeneous(&reordered));
    let repeated = [event("t", &["a"]), event("t", &["a", "a"])];
    assert!(!BoomerangAdapter::tags_heterogeneous(&repeated));
    assert!(BoomerangAdapter::tags_heterogeneous(&[event("t", &["a", "a"]), event("t", &["a", "b"])]));
    assert!(BoomerangAdapter::tags_heterogeneous(&[event("t", &[]), event("t", &["a"])]));

    let mut append = BoomerangAdapter::append_dcb(&reordered, None);
    let AppendStep::Send(request) = append.next() else { panic!("nothing to send") };
    assert_eq!(request.tags, vec!["a", "b"]);
    assert_eq!(request.events.len(), 2);
    append.reply(&[1, 2]);
    assert_eq!(append.next(), AppendStep::Done(Some(2)));

    let mut append = BoomerangAdapter::append_to_stream(&reordered, None, None);
    let AppendStep::Send(request) = append.next() else { panic!("nothing to send") };
    assert_eq!(request.stream_id, "a");
    assert_eq!(request.tags, vec!["a", "b"]);
    assert_eq!(request.events.len(), 2);
    append.reply(&[3, 4]);
    assert_eq!(append.next(), AppendStep::Done(Some(4)));
}

#[test]
fn unconditional_append_splits_differing_tags() {
    let events = sample_events();
    let mut append = BoomerangAdapter::append_dcb(&events, None);
    let AppendStep::Send(first) = append.next() else { panic!("nothing to send") };
    assert_eq!(first.tags, vec!["tag1"]);
    assert_eq!(first.events.len(), 1);
    assert_eq!(first.events[0].event_type, "type1");
    assert_eq!(first.events[0].payload, vec![1, 2, 3]);
    assert!(first.metadata_json.is_empty());
    append.reply(&[4]);
    let AppendStep::Send(second) = append.next() else { panic!("one batch is missing") };
    assert_eq!(second.tags, vec!["tag2"]);
    assert_eq!(second.events[0].event_type, "type2");
    assert_eq!(second.metadata_json, br#"{"custom":{"timestamp":"123456789"}}"#.to_vec());
    append.reply(&[5]);
    assert_eq!(append.next(), AppendStep::Done(Some(5)));
    append.reply(&[6]);
    assert_eq!(append.next(), AppendStep::Done(Some(5)));
}

#[test]
fn conditional_append_is_one_batch() {
    let events = sample_events();
    let condition = EsbAppendCondition::new(
        EsbQuery::new().item(EsbQueryItem::new().tags(strings(&["tag1"]))),
    );
    let mut append = BoomerangAdapter::append_dcb(&events, Some(condition));
    let AppendStep::Send(request) = append.next() else { panic!("nothing to send") };
    assert_eq!(request.tags, vec!["tag1", "tag2"]);
    assert_eq!(request.events.len(), 2);
    assert_eq!(
        request.condition_json,
        br#"{"FailIfEventsMatch":{"Items":[{"Tags":["tag1"]}]}}"#.to_vec()
    );
    append.reply(&[1, 2]);
    assert_eq!(append.next(), AppendStep::Done(Some(2)));
}

#[test]
fn empty_conditional_append_still_asks_the_store() {
    let mut append = BoomerangAdapter::append_dcb(&[], None);
    let AppendStep::Send(request) = append.next() else { panic!("nothing to send") };
    assert!(request.events.is_empty());
    assert!(request.tags.is_empty());
    append.reply(&[]);
    assert_eq!(append.next(), AppendStep::Done(None));
}

#[test]
fn stream_append_sends_one_batch_for_one_tag() {
    let events = [event("a", &["s"]), event("b", &["s"])];
    let mut append = BoomerangAdapter::append_to_stream(&events, Some(3), Some(99));
    let AppendStep::Send(request) = append.next() else { panic!("nothing to send") };
    assert_eq!(request.stream_id, "s");
    assert_eq!(request.expected_version, 3);
    assert_eq!(request.events.len(), 2);
    assert_eq!(request.tags, vec!["s"]);
    append.reply(&[10, 11]);
    assert_eq!(append.next(), AppendStep::Done(Some(11)));
}

#[test]
fn stream_append_sends_differing_tags_to_their_streams() {
    let events = [event("a", &["s", "x"]), event("b", &["u"]), event("c", &[])];
    let mut append = BoomerangAdapter::append_to_stream(&events, None, None);
    let AppendStep::Send(first) = append.next() else { panic!("nothing to send") };
    assert_eq!((first.stream_id.as_str(), first.expected_version), ("s", -1));
    append.reply(&[1]);
    let AppendStep::Send(second) = append.next() else { panic!("one batch is missing") };
    assert_eq!(second.stream_id, "u");
    append.reply(&[2]);
    assert_eq!(append.next(), AppendStep::Failed(AdapterError::MissingStreamId));
}

#[test]
fn versioned_stream_append_is_one_batch() {
    let events = [event("a", &["s", "x"]), event("b", &["u"]), event("c", &[])];
    let mut append = BoomerangAdapter::append_to_stream(&events, Some(5), None);
    let AppendStep::Send(request) = append.next() else { panic!("nothing to send") };
    assert_eq!((request.stream_id.as_str(), request.expected_version), ("s", 5));
    let types: Vec<&str> = request.events.iter().map(|event| event.event_type.as_str()).collect();
    assert_eq!(types, vec!["a", "b", "c"]);
    assert_eq!(request.tags, vec!["s", "u", "x"]);
    append.reply(&[7, 8, 9]);
    assert_eq!(append.next(), AppendStep::Done(Some(9)));

    let unnamed = [event("a", &[]), event("b", &["u"])];
    let append = BoomerangAdapter::append_to_stream(&unnamed, Some(5), None);
    assert_eq!(append.next(), AppendStep::Failed(AdapterError::MissingStreamId));
}

#[test]
fn empty_stream_append_sends_nothing() {
    let append = BoomerangAdapter::append_to_stream(&[], None, None);
    assert_eq!(append.next(), AppendStep::Done(None));
}

fn request(limit: Option<u64>) -> ReadRequest {
    ReadRequest {
        tag: "tag1".to_string(),
        event_type: Some("e".to_string()),
        from_offset: Some(4),
        limit,
    }
}

#[test]
fn small_reads_are_unary() {
    let ReadPlan::Unary(unary) = BoomerangAdapter::read_stream(&request(Some(10))) else {
        panic!("a small read is a stream")
    };
    assert_eq!(unary.limit, 10);
    assert_eq!(unary.from_sequence_position, 5);
    assert_eq!((unary.to_sequence_position, unary.to_timestamp), (-1, 0));
    assert!(unary.query_json.is_empty());
    assert_eq!(unary.query, query_proto("tag1", Some("e")));
}

#[test]
fn other_reads_are_streams() {
    let ReadPlan::Stream(stream, response) = BoomerangAdapter::read_stream(&request(Some(300)))
    else {
        panic!("a large read is unary")
    };
    assert_eq!(stream.limit, 300);
    assert_eq!(stream.from_sequence_position, 5);
    assert_eq!(response.remaining, Some(300));
    assert_eq!(stream.query, query_proto("tag1", Some("e")));
    let ReadPlan::Stream(all, unlimited) = BoomerangAdapter::read_stream(&request(None)) else {
        panic!("an unlimited read is unary")
    };
    assert_eq!((all.limit, unlimited.remaining), (0, None));
}

#[test]
fn read_all_asks_for_everything() {
    let (stream, response) = BoomerangAdapter::read_all();
    assert_eq!(stream.from_sequence_position, -1);
    assert_eq!(stream.limit, 0);
    assert!(stream.query.is_none());
    assert_eq!(response.remaining, None);
    let by_id = BoomerangAdapter::read_stream_by_id("s-1");
    assert_eq!(by_id.stream_id, "s-1");
    assert_eq!((by_id.from_version, by_id.to_version, by_id.to_timestamp), (0, -1, 0));
}

#[test]
fn subscriptions_start_after_their_offset() {
    let (all, response) = BoomerangAdapter::subscribe_as("me", None);
    assert_eq!(all.subscriber_id, "esb-me");
    assert_eq!(all.from_sequence_position, 0);
    assert_eq!(all.scope, Some(Scope::GlobalAll(true)));
    assert_eq!(response.remaining, None);
    let (later, _) = BoomerangAdapter::subscribe_as("me", Some(7));
    assert_eq!(later.from_sequence_position, 8);
    let (last, _) = BoomerangAdapter::subscribe_as("me", Some(u64::MAX));
    assert_eq!(last.from_sequence_position, i64::MAX);
}

#[test]
fn subscribers_are_named_at_random() {
    let (a, _) = BoomerangAdapter::subscribe(Some(7));
    let (b, _) = BoomerangAdapter::subscribe(None);
    assert_ne!(a.subscriber_id, b.subscriber_id);
    assert_eq!(a.from_sequence_position, 8);
    let name = a.subscriber_id.strip_prefix("esb-").unwrap();
    assert_eq!(name.len(), 36);
    for (i, c) in name.chars().enumerate() {
        if i == 8 || i == 13 || i == 18 || i == 23 {
            assert_eq!(c, '-');
        } else {
            assert!(c.is_ascii_digit() || ('a'..='f').contains(&c));
        }
    }
    assert_eq!(name.as_bytes()[14], b'4');
    assert!(b"89ab".contains(&name.as_bytes()[19]));
}
