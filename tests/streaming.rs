use agent_core_sync::decoder::{StreamFrame, StreamKind};
use agent_core_sync::store::StateStore;
use agent_core_sync::streaming::{stream_event, StreamingMessage, ToolCallStatus};
use agent_core_sync::types::{Message, StreamEvent, ToolCall, ToolCallResult};
use serde_json::Value;

fn frame(kind: StreamKind, data: &str) -> StreamFrame {
    StreamFrame { kind, data: data.to_string() }
}

#[test]
fn content_deltas_concatenate() {
    let mut m = StreamingMessage::new("s1", "m1");
    m.apply(StreamEvent::Content("Hel".to_string()));
    m.apply(StreamEvent::Content("lo".to_string()));
    m.apply(StreamEvent::Reasoning("a".to_string()));
    m.apply(StreamEvent::Reasoning("b".to_string()));
    assert_eq!(m.content, "Hello");
    assert_eq!(m.reasoning.as_deref(), Some("ab"));
    assert!(!m.is_complete);
    m.apply(StreamEvent::Done(Message::default()));
    assert!(m.is_complete);
}

#[test]
fn tool_calls_upsert_by_id() {
    let mut m = StreamingMessage::new("s1", "m1");
    let call = |id: &str, name: &str| ToolCall { id: id.to_string(), name: name.to_string(), input: Value::Null };
    m.apply(StreamEvent::ToolCallStart(call("t1", "read")));
    m.apply(StreamEvent::ToolCallStart(call("t2", "write")));
    m.apply(StreamEvent::ToolCallStart(call("t1", "read_again")));
    assert_eq!(m.tool_calls.len(), 2);
    assert_eq!(m.tool_calls[0].name, "read_again");
    assert_eq!(m.tool_calls[0].status, ToolCallStatus::Running);
    m.apply(StreamEvent::ToolCallEnd(ToolCallResult { id: "t2".to_string(), output: Some("done".to_string()), is_error: true }));
    assert_eq!(m.tool_calls[1].status, ToolCallStatus::Error);
    assert_eq!(m.tool_calls[1].output.as_deref(), Some("done"));
    m.apply(StreamEvent::ToolCallEnd(ToolCallResult { id: "t1".to_string(), output: None, is_error: false }));
    assert_eq!(m.tool_calls[0].status, ToolCallStatus::Success);
    m.apply(StreamEvent::ToolCallEnd(ToolCallResult { id: "zz".to_string(), output: None, is_error: false }));
    assert_eq!(m.tool_calls.len(), 2);
    m.apply(StreamEvent::Error("boom".to_string()));
    assert!(m.is_complete);
}

#[test]
fn store_streaming_record() {
    let mut store = StateStore::new();
    store.update_streaming_content("ignored");
    assert!(store.streaming_message().is_none());
    store.start_streaming("s1", "m1");
    store.update_streaming_content("a");
    store.apply_stream_event(StreamEvent::Content("b".to_string()));
    assert_eq!(store.streaming_message().unwrap().content, "ab");
    store.complete_streaming();
    assert!(store.streaming_message().unwrap().is_complete);
}

#[test]
fn decode_rule_per_kind() {
    match stream_event(frame(StreamKind::Content, "x"), None, None, None) {
        Some(StreamEvent::Content(d)) => assert_eq!(d, "x"),
        other => panic!("unexpected {:?}", other),
    }
    match stream_event(frame(StreamKind::Error, "bad"), None, None, None) {
        Some(StreamEvent::Error(d)) => assert_eq!(d, "bad"),
        other => panic!("unexpected {:?}", other),
    }
    assert!(stream_event(frame(StreamKind::ToolCallStart, "not json"), None, None, None).is_none());
    assert!(stream_event(frame(StreamKind::ToolCallEnd, "not json"), None, None, None).is_none());
    match stream_event(frame(StreamKind::Done, "not json"), None, None, None) {
        Some(StreamEvent::Done(m)) => {
            assert!(m.id.is_empty());
            assert!(m.parts.is_empty());
        }
        other => panic!("unexpected {:?}", other),
    }
    let mut parsed = Message::default();
    parsed.id = "m7".to_string();
    match stream_event(frame(StreamKind::Done, "{}"), None, None, Some(parsed)) {
        Some(StreamEvent::Done(m)) => assert_eq!(m.id, "m7"),
        other => panic!("unexpected {:?}", other),
    }
}
