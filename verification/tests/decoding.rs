use agent_loop::aggregate::TurnAggregator;
use agent_loop::decode::{decode_line, decode_lines, LineDecoder};
use agent_loop::model::{ApiError, ContentBlock, StreamEvent};
use agent_loop::stream::TurnStream;

fn decode_all(chunks: &[&[u8]]) -> Vec<StreamEvent> {
    let mut dec = LineDecoder::new();
    let mut events = Vec::new();
    for chunk in chunks {
        let lines = dec.feed(chunk);
        events.extend(decode_lines(&lines));
    }
    events
}

#[test]
fn two_text_deltas_then_done() {
    let stream: &[u8] = b"data: {\"choices\":[{\"delta\":{\"content\":\"Hel\"}}]}\ndata: {\"choices\":[{\"delta\":{\"content\":\"lo\"}}]}\ndata: [DONE]\n";
    let events = decode_all(&[stream]);
    assert_eq!(events.len(), 3);
    match &events[0] {
        StreamEvent::TextDelta { text } => assert_eq!(text, "Hel"),
        other => panic!("expected a text delta, got {:?}", other),
    }
    match &events[1] {
        StreamEvent::TextDelta { text } => assert_eq!(text, "lo"),
        other => panic!("expected a text delta, got {:?}", other),
    }
    assert!(matches!(events[2], StreamEvent::Done));
}

#[test]
fn aggregated_text_is_hello() {
    let stream: &[u8] = b"data: {\"choices\":[{\"delta\":{\"content\":\"Hel\"}}]}\ndata: {\"choices\":[{\"delta\":{\"content\":\"lo\"}}]}\ndata: [DONE]\n";
    let events = decode_all(&[stream]);
    let mut agg = TurnAggregator::new();
    for e in &events {
        agg.push_event(e);
    }
    let result = agg.finish().expect("a clean stream must aggregate");
    assert_eq!(result.content.len(), 1);
    match &result.content[0] {
        ContentBlock::Text { text } => assert_eq!(text, "Hello"),
        other => panic!("expected a text block, got {:?}", other),
    }
    assert_eq!(result.usage.input_tokens, 0);
    assert_eq!(result.usage.output_tokens, 0);
}

#[test]
fn fragmentation_does_not_change_the_decode() {
    let stream: &[u8] = b"data: {\"choices\":[{\"delta\":{\"content\":\"Hel\"}}]}\ndata: {\"choices\":[{\"delta\":{\"content\":\"lo\"}}]}\ndata: [DONE]\n";
    let whole = decode_all(&[stream]);
    let reference: Vec<String> = whole.iter().map(|e| format!("{:?}", e)).collect();
    for size in 1..stream.len() {
        let chunks: Vec<&[u8]> = stream.chunks(size).collect();
        let events = decode_all(&chunks);
        let got: Vec<String> = events.iter().map(|e| format!("{:?}", e)).collect();
        assert_eq!(got, reference, "chunk size {} changed the decode", size);
    }
}

#[test]
fn partial_trailing_line_is_held_back() {
    let mut dec = LineDecoder::new();
    let lines = dec.feed(b"data: {\"choices\":[{\"delta\":");
    assert!(lines.is_empty());
    let lines = dec.feed(b"{\"content\":\"ok\"}}]}\n");
    assert_eq!(lines.len(), 1);
    let events = decode_lines(&lines);
    assert_eq!(events.len(), 1);
    match &events[0] {
        StreamEvent::TextDelta { text } => assert_eq!(text, "ok"),
        other => panic!("expected a text delta, got {:?}", other),
    }
}

#[test]
fn blank_and_foreign_lines_are_skipped() {
    let events = decode_all(&[b"\n\nevent: ping\nretry: 100\ndata: [DONE]\n"]);
    assert_eq!(events.len(), 1);
    assert!(matches!(events[0], StreamEvent::Done));
}

#[test]
fn unparsable_frame_is_skipped_not_fatal() {
    let events =
        decode_all(&[b"data: {this is not json\ndata: {\"choices\":[{\"delta\":{\"content\":\"x\"}}]}\n"]);
    assert_eq!(events.len(), 1);
    match &events[0] {
        StreamEvent::TextDelta { text } => assert_eq!(text, "x"),
        other => panic!("expected a text delta, got {:?}", other),
    }
}

#[test]
fn frame_without_content_or_usage_yields_nothing() {
    let events = decode_all(&[b"data: {\"choices\":[{\"delta\":{}}]}\n"]);
    assert!(events.is_empty());
}

#[test]
fn usage_frame_yields_usage_event() {
    let line: Vec<u8> = b"data: {\"usage\":{\"prompt_tokens\":5,\"completion_tokens\":7}}".to_vec();
    match decode_line(&line) {
        Some(StreamEvent::Usage { input_tokens, output_tokens }) => {
            assert_eq!(input_tokens, 5);
            assert_eq!(output_tokens, 7);
        },
        other => panic!("expected a usage event, got {:?}", other),
    }
}

#[test]
fn usage_fields_default_to_zero_when_absent() {
    let line: Vec<u8> = b"data: {\"usage\":{}}".to_vec();
    match decode_line(&line) {
        Some(StreamEvent::Usage { input_tokens, output_tokens }) => {
            assert_eq!(input_tokens, 0);
            assert_eq!(output_tokens, 0);
        },
        other => panic!("expected a usage event, got {:?}", other),
    }
}

#[test]
fn content_wins_over_usage_in_one_frame() {
    let line: Vec<u8> =
        b"data: {\"choices\":[{\"delta\":{\"content\":\"x\"}}],\"usage\":{\"prompt_tokens\":1}}"
            .to_vec();
    match decode_line(&line) {
        Some(StreamEvent::TextDelta { text }) => assert_eq!(text, "x"),
        other => panic!("expected a text delta, got {:?}", other),
    }
}

#[test]
fn unterminated_tool_use_is_a_protocol_error() {
    let mut agg = TurnAggregator::new();
    agg.push_event(&StreamEvent::TextDelta { text: String::from("thinking") });
    agg.push_event(&StreamEvent::ToolUseStart {
        id: String::from("t1"),
        name: String::from("click"),
    });
    agg.push_event(&StreamEvent::ToolUseDelta {
        id: String::from("t1"),
        partial_input: String::from("{\"x\":1}"),
    });
    agg.push_event(&StreamEvent::Done);
    match agg.finish() {
        Err(ApiError::Protocol { message }) => assert!(!message.is_empty()),
        other => panic!("expected a protocol error, got {:?}", other),
    }
}

#[test]
fn completed_tool_use_becomes_one_block() {
    let mut agg = TurnAggregator::new();
    agg.push_event(&StreamEvent::ToolUseStart {
        id: String::from("t1"),
        name: String::from("click"),
    });
    agg.push_event(&StreamEvent::ToolUseDelta {
        id: String::from("t1"),
        partial_input: String::from("{\"x\""),
    });
    agg.push_event(&StreamEvent::ToolUseDelta {
        id: String::from("t1"),
        partial_input: String::from(":1}"),
    });
    agg.push_event(&StreamEvent::ToolUseComplete { id: String::from("t1") });
    agg.push_event(&StreamEvent::Done);
    let result = agg.finish().expect("a completed tool use must aggregate");
    assert_eq!(result.content.len(), 2);
    match &result.content[1] {
        ContentBlock::ToolUse { id, name, input } => {
            assert_eq!(id, "t1");
            assert_eq!(name, "click");
            assert_eq!(input, "{\"x\":1}");
        },
        other => panic!("expected a tool use block, got {:?}", other),
    }
}

#[test]
fn usage_events_are_summed() {
    let mut agg = TurnAggregator::new();
    agg.push_event(&StreamEvent::Usage { input_tokens: 3, output_tokens: 10 });
    agg.push_event(&StreamEvent::Usage { input_tokens: 4, output_tokens: 1 });
    let result = agg.finish().expect("usage alone must aggregate");
    assert_eq!(result.usage.input_tokens, 7);
    assert_eq!(result.usage.output_tokens, 11);
}

#[test]
fn turn_stream_aggregates_whole_turns() {
    let stream: &[u8] = b"data: {\"choices\":[{\"delta\":{\"content\":\"Hel\"}}]}\ndata: {\"choices\":[{\"delta\":{\"content\":\"lo\"}}]}\ndata: {\"usage\":{\"prompt_tokens\":2,\"completion_tokens\":3}}\ndata: [DONE]\n";
    for size in [1, 3, 5, stream.len()] {
        let mut turn = TurnStream::new();
        for chunk in stream.chunks(size) {
            if turn.done() {
                break;
            }
            turn.push_chunk(chunk);
        }
        assert!(turn.done());
        let result = turn.finish().expect("a clean stream must aggregate");
        match &result.content[0] {
            ContentBlock::Text { text } => assert_eq!(text, "Hello"),
            other => panic!("expected a text block, got {:?}", other),
        }
        assert_eq!(result.usage.input_tokens, 2);
        assert_eq!(result.usage.output_tokens, 3);
    }
}
