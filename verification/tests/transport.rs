use crew_bridge::sse::{extract_next_event, parse_sse_data_block, take_event_data, trailing_event_data};
use crew_bridge::text::is_white_space;
use crew_bridge::transport::{
    as_u32, decode_event, map_event, take_events, trailing_event, BridgeError, CrewEvent,
    EventPayload,
};

#[test]
fn extracts_event_blocks() {
    let mut buffer =
        "data: {\"type\":\"thinking\"}\n\ndata: {\"type\":\"stream_end\"}\n\n".to_string();
    let first = extract_next_event(&mut buffer).unwrap();
    let second = extract_next_event(&mut buffer).unwrap();

    assert_eq!(
        parse_sse_data_block(&first).unwrap(),
        "{\"type\":\"thinking\"}"
    );
    assert_eq!(
        parse_sse_data_block(&second).unwrap(),
        "{\"type\":\"stream_end\"}"
    );
    assert!(buffer.is_empty());
}

#[test]
fn maps_known_event() {
    let payload = EventPayload {
        event_type: Some("token".into()),
        text: Some("hello".into()),
        json: "{\"text\":\"hello\",\"type\":\"token\"}".into(),
        ..Default::default()
    };
    let event = map_event(&payload).unwrap();
    assert_eq!(
        event,
        CrewEvent::TextDelta {
            text: "hello".into()
        }
    );
}

#[test]
fn crlf_blank_line_ends_an_event() {
    let mut buffer = "data: a\r\n\r\ndata: b\n\nrest".to_string();
    assert_eq!(extract_next_event(&mut buffer).unwrap(), "data: a");
    assert_eq!(buffer, "data: b\n\nrest");
    assert_eq!(extract_next_event(&mut buffer).unwrap(), "data: b");
    assert_eq!(buffer, "rest");
    assert_eq!(extract_next_event(&mut buffer), None);
    assert_eq!(buffer, "rest");
}

#[test]
fn the_earlier_blank_line_wins() {
    let mut buffer = "x\n\ny\r\n\r\n".to_string();
    assert_eq!(extract_next_event(&mut buffer).unwrap(), "x");
    assert_eq!(buffer, "y\r\n\r\n");
    let mut buffer = "x\r\n\r\ny\n\n".to_string();
    assert_eq!(extract_next_event(&mut buffer).unwrap(), "x");
    assert_eq!(buffer, "y\n\n");
}

#[test]
fn data_lines_are_joined_and_other_fields_ignored() {
    let raw = "event: message\r\ndata:  first\r\r\nid: 7\ndata:second\ndata:";
    assert_eq!(parse_sse_data_block(raw).unwrap(), "first\nsecond\n");
    assert_eq!(parse_sse_data_block("event: ping\nid: 1"), None);
    assert_eq!(parse_sse_data_block(""), None);
    assert_eq!(parse_sse_data_block("data:\u{3000}\tx"), Some("x".to_string()));
}

#[test]
fn chunks_feed_complete_events_only() {
    let mut buffer = String::new();
    let blocks = take_event_data(&mut buffer, "data: {\"a\":1}\n");
    assert!(blocks.is_empty());
    assert_eq!(buffer, "data: {\"a\":1}\n");
    let blocks = take_event_data(&mut buffer, "\nevent: x\n\ndata: 2\n\ndata: 3");
    assert_eq!(blocks, vec!["{\"a\":1}".to_string(), "2".to_string()]);
    assert_eq!(buffer, "data: 3");
    assert_eq!(trailing_event_data(&buffer), Some("3".to_string()));
    assert_eq!(trailing_event_data(" \n\t"), None);
}

#[test]
fn chunking_does_not_change_the_data() {
    let stream = "data: one\r\n\r\ndata: two\n\n: comment\n\ndata: three\n\ntail";
    let mut whole = String::new();
    let all_at_once = take_event_data(&mut whole, stream);
    for cut in 0..stream.len() {
        if !stream.is_char_boundary(cut) {
            continue;
        }
        let mut buffer = String::new();
        let mut pieces = take_event_data(&mut buffer, &stream[..cut]);
        pieces.extend(take_event_data(&mut buffer, &stream[cut..]));
        assert_eq!(pieces, all_at_once, "cut at {cut}");
        assert_eq!(buffer, whole, "cut at {cut}");
    }
    assert_eq!(all_at_once, vec!["one", "two", "three"]);
    assert_eq!(whole, "tail");
}

#[test]
fn counts_that_do_not_fit_are_zero() {
    assert_eq!(as_u32(Some(7)), 7);
    assert_eq!(as_u32(Some(u64::from(u32::MAX))), u32::MAX);
    assert_eq!(as_u32(Some(u64::from(u32::MAX) + 1)), 0);
    assert_eq!(as_u32(None), 0);
}

#[test]
fn every_event_type_is_mapped() {
    let p = |kind: &str| EventPayload {
        event_type: Some(kind.into()),
        text: Some("t".into()),
        tool: Some("grep".into()),
        content: Some("all done".into()),
        message: Some("boom".into()),
        iteration: Some(3),
        input_tokens: Some(10),
        output_tokens: Some(u64::MAX),
        success: Some(true),
        json: String::new(),
    };
    assert_eq!(map_event(&p("thinking")).unwrap(), CrewEvent::Thinking { iteration: 3 });
    assert_eq!(map_event(&p("token")).unwrap(), CrewEvent::TextDelta { text: "t".into() });
    assert_eq!(map_event(&p("tool_start")).unwrap(), CrewEvent::ToolStart { name: "grep".into() });
    assert_eq!(
        map_event(&p("tool_end")).unwrap(),
        CrewEvent::ToolEnd { name: "grep".into(), success: true }
    );
    assert_eq!(map_event(&p("response")).unwrap(), CrewEvent::Response { iteration: 3 });
    assert_eq!(
        map_event(&p("cost_update")).unwrap(),
        CrewEvent::CostUpdate { input_tokens: 10, output_tokens: 0 }
    );
    assert_eq!(map_event(&p("stream_end")).unwrap(), CrewEvent::StreamEnd);
    assert_eq!(
        map_event(&p("done")).unwrap(),
        CrewEvent::Done { content: "all done".into(), input_tokens: 10, output_tokens: 0 }
    );
    assert_eq!(map_event(&p("error")).unwrap(), CrewEvent::Error { message: "boom".into() });
    let mut unknown = p("something_else");
    unknown.json = "{\"type\":\"something_else\"}".into();
    assert_eq!(
        map_event(&unknown).unwrap(),
        CrewEvent::Raw { payload: "{\"type\":\"something_else\"}".into() }
    );
}

#[test]
fn missing_fields_take_their_defaults() {
    let payload = EventPayload { event_type: Some("tool_end".into()), ..Default::default() };
    assert_eq!(
        map_event(&payload).unwrap(),
        CrewEvent::ToolEnd { name: String::new(), success: false }
    );
}

#[test]
fn payload_without_type_is_refused() {
    let payload = EventPayload { json: "{\"text\":\"x\"}".into(), ..Default::default() };
    match map_event(&payload) {
        Err(BridgeError::InvalidEventPayload(text)) => assert_eq!(text, "{\"text\":\"x\"}"),
        other => panic!("unexpected: {other:?}"),
    }
}

#[test]
fn event_data_is_decoded_from_json() {
    assert_eq!(
        decode_event("{\"type\":\"token\",\"text\":\"hello\"}".to_string()).unwrap(),
        CrewEvent::TextDelta { text: "hello".into() }
    );
    assert_eq!(
        decode_event("{\"type\":\"cost_update\",\"input_tokens\":5,\"output_tokens\":-1}".to_string())
            .unwrap(),
        CrewEvent::CostUpdate { input_tokens: 5, output_tokens: 0 }
    );
    match decode_event("not json".to_string()) {
        Err(BridgeError::InvalidEventJson(text)) => assert_eq!(text, "not json"),
        other => panic!("unexpected: {other:?}"),
    }
    match decode_event("{\"text\":1}".to_string()) {
        Err(BridgeError::InvalidEventPayload(text)) => assert_eq!(text, "{\"text\":1}"),
        other => panic!("unexpected: {other:?}"),
    }
    assert_eq!(decode_event("[1,2]".to_string()).is_err(), true);
}

#[test]
fn stream_events_are_decoded_in_order() {
    let mut buffer = String::new();
    let items = take_events(
        &mut buffer,
        "data: {\"type\":\"thinking\",\"iteration\":1}\n\n: ping\n\ndata: {\"type\":\"token\",\"text\":\"hi\"}\n\ndata: {\"type\"",
    );
    assert_eq!(items.len(), 2);
    assert_eq!(items[0].0, "{\"type\":\"thinking\",\"iteration\":1}");
    assert_eq!(items[0].1.as_ref().unwrap(), &CrewEvent::Thinking { iteration: 1 });
    assert_eq!(items[1].1.as_ref().unwrap(), &CrewEvent::TextDelta { text: "hi".into() });
    assert_eq!(buffer, "data: {\"type\"");
    let items = take_events(&mut buffer, ":\"stream_end\"}\n\n");
    assert_eq!(items.len(), 1);
    assert_eq!(items[0].1.as_ref().unwrap(), &CrewEvent::StreamEnd);
    assert!(buffer.is_empty());
}

#[test]
fn stream_stops_at_the_first_refusal() {
    let mut buffer = String::new();
    let items = take_events(
        &mut buffer,
        "data: {\"type\":\"stream_end\"}\n\ndata: oops\n\ndata: {\"type\":\"done\"}\n\n",
    );
    assert_eq!(items.len(), 2);
    assert_eq!(items[0].1.as_ref().unwrap(), &CrewEvent::StreamEnd);
    match &items[1].1 {
        Err(BridgeError::InvalidEventJson(text)) => assert_eq!(text, "oops"),
        other => panic!("unexpected: {other:?}"),
    }
    assert_eq!(items[1].0, "oops");
}

#[test]
fn decoded_events_do_not_depend_on_chunking() {
    let stream = "data: {\"type\":\"token\",\"text\":\"a\"}\r\n\r\ndata: {\"type\":\"x\"}\n\ndata: {\"type\":\"done\",\"content\":\"c\"}\n\n";
    let mut whole = String::new();
    let all_at_once: Vec<_> =
        take_events(&mut whole, stream).into_iter().map(|(d, e)| (d, e.unwrap())).collect();
    assert_eq!(all_at_once.len(), 3);
    assert_eq!(all_at_once[1].1, CrewEvent::Raw { payload: "{\"type\":\"x\"}".into() });
    for cut in 0..stream.len() {
        if !stream.is_char_boundary(cut) {
            continue;
        }
        let mut buffer = String::new();
        let mut pieces = take_events(&mut buffer, &stream[..cut]);
        pieces.extend(take_events(&mut buffer, &stream[cut..]));
        let pieces: Vec<_> = pieces.into_iter().map(|(d, e)| (d, e.unwrap())).collect();
        assert_eq!(pieces, all_at_once, "cut at {cut}");
    }
}

#[test]
fn the_tail_is_read_when_the_stream_ends() {
    let (data, event) = trailing_event("data: {\"type\":\"error\",\"message\":\"m\"}").unwrap();
    assert_eq!(data, "{\"type\":\"error\",\"message\":\"m\"}");
    assert_eq!(event.unwrap(), CrewEvent::Error { message: "m".into() });
    assert!(trailing_event("\r\n \t").is_none());
    assert!(trailing_event("event: x").is_none());
    match trailing_event("data: [").unwrap().1 {
        Err(BridgeError::InvalidEventJson(text)) => assert_eq!(text, "["),
        other => panic!("unexpected: {other:?}"),
    }
}

#[test]
fn white_space_is_unicode_white_space() {
    for code in 0..=0x10FFFFu32 {
        if let Some(c) = char::from_u32(code) {
            assert_eq!(is_white_space(c), c.is_whitespace(), "U+{code:04X}");
        }
    }
}
