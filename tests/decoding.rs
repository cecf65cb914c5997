use agent_core_sync::decoder::{
    DaemonFrame, DaemonKind, DaemonStreamDecoder, MessageStreamDecoder, StreamFrame, StreamKind,
};

fn feed_message(chunks: &[&[u8]]) -> Vec<StreamFrame> {
    let mut d = MessageStreamDecoder::new();
    let mut out = Vec::new();
    for c in chunks {
        out.extend(d.push(c));
    }
    out
}

fn feed_daemon(chunks: &[&[u8]]) -> Vec<DaemonFrame> {
    let mut d = DaemonStreamDecoder::new();
    let mut out = Vec::new();
    for c in chunks {
        out.extend(d.push(c));
    }
    out
}

fn summary(frames: &[StreamFrame]) -> Vec<(StreamKind, String)> {
    frames.iter().map(|f| (f.kind, f.data.clone())).collect()
}

const THREE_BLOCKS: &str = "event: content\ndata: Hello\n\nevent: reasoning\ndata: thinking\n\nevent: done\ndata: {}\n\n";

#[test]
fn blocks_decode_in_order() {
    let frames = feed_message(&[THREE_BLOCKS.as_bytes()]);
    assert_eq!(
        summary(&frames),
        vec![
            (StreamKind::Content, "Hello".to_string()),
            (StreamKind::Reasoning, "thinking".to_string()),
            (StreamKind::Done, "{}".to_string()),
        ]
    );
}

#[test]
fn chunk_boundaries_do_not_matter() {
    let bytes = THREE_BLOCKS.as_bytes();
    let whole = summary(&feed_message(&[bytes]));
    let singles: Vec<&[u8]> = bytes.chunks(1).collect();
    assert_eq!(summary(&feed_message(&singles)), whole);
    for cut in 0..bytes.len() {
        let (a, b) = bytes.split_at(cut);
        assert_eq!(summary(&feed_message(&[a, b])), whole, "cut at {}", cut);
    }
    let threes: Vec<&[u8]> = bytes.chunks(3).collect();
    assert_eq!(summary(&feed_message(&threes)), whole);
}

#[test]
fn chunks_split_inside_a_multibyte_character() {
    let text = "event: content\ndata: h\u{e9}llo \u{1f600}\n\n";
    let bytes = text.as_bytes();
    let singles: Vec<&[u8]> = bytes.chunks(1).collect();
    let frames = feed_message(&singles);
    assert_eq!(summary(&frames), vec![(StreamKind::Content, "h\u{e9}llo \u{1f600}".to_string())]);
}

#[test]
fn data_only_block_is_content_on_message_stream() {
    let frames = feed_message(&[b"data: plain text\n\n"]);
    assert_eq!(summary(&frames), vec![(StreamKind::Content, "plain text".to_string())]);
}

#[test]
fn data_only_block_is_dropped_on_daemon_stream() {
    let frames = feed_daemon(&[b"data: {\"connected\":true}\n\n"]);
    assert!(frames.is_empty());
}

#[test]
fn block_without_data_is_dropped() {
    assert!(feed_message(&[b"event: content\n\n"]).is_empty());
    assert!(feed_daemon(&[b"event: keepalive\n\n"]).is_empty());
}

#[test]
fn unknown_message_label_is_content() {
    let frames = feed_message(&[b"event: mystery\ndata: x\n\n"]);
    assert_eq!(summary(&frames), vec![(StreamKind::Content, "x".to_string())]);
}

#[test]
fn unknown_daemon_label_is_dropped() {
    let frames = feed_daemon(&[b"event: mystery\ndata: {}\n\nevent: keepalive\ndata: {}\n\n"]);
    assert_eq!(frames.len(), 1);
    assert_eq!(frames[0].kind, DaemonKind::Keepalive);
}

#[test]
fn message_labels_map_to_kinds() {
    let input = "event: text\ndata: a\n\nevent: tool_call_start\ndata: b\n\nevent: tool_call_end\ndata: c\n\nevent: end\ndata: d\n\nevent: error\ndata: e\n\n";
    let kinds: Vec<StreamKind> = feed_message(&[input.as_bytes()]).iter().map(|f| f.kind).collect();
    assert_eq!(
        kinds,
        vec![
            StreamKind::Content,
            StreamKind::ToolCallStart,
            StreamKind::ToolCallEnd,
            StreamKind::Done,
            StreamKind::Error
        ]
    );
}

#[test]
fn daemon_labels_map_to_kinds() {
    let labels = [
        ("session.created", DaemonKind::SessionCreated),
        ("session.updated", DaemonKind::SessionUpdated),
        ("session.deleted", DaemonKind::SessionDeleted),
        ("session.status", DaemonKind::SessionStatus),
        ("message.created", DaemonKind::MessageCreated),
        ("message.updated", DaemonKind::MessageUpdated),
        ("message.removed", DaemonKind::MessageRemoved),
        ("message.part.updated", DaemonKind::MessagePartUpdated),
        ("message.part.removed", DaemonKind::MessagePartRemoved),
        ("permission.asked", DaemonKind::PermissionAsked),
        ("permission.replied", DaemonKind::PermissionReplied),
        ("question.asked", DaemonKind::QuestionAsked),
        ("question.replied", DaemonKind::QuestionReplied),
        ("question.rejected", DaemonKind::QuestionReplied),
        ("connection.status", DaemonKind::ConnectionStatus),
        ("keepalive", DaemonKind::Keepalive),
    ];
    for (label, kind) in labels {
        let block = format!("event: {}\ndata: {{}}\n\n", label);
        let frames = feed_daemon(&[block.as_bytes()]);
        assert_eq!(frames.len(), 1, "label {}", label);
        assert_eq!(frames[0].kind, kind, "label {}", label);
        assert_eq!(frames[0].data, "{}");
    }
}

#[test]
fn label_and_payload_are_trimmed() {
    let frames = feed_daemon(&[b"event:   keepalive \t\r\ndata:  {\"a\":1}  \r\n\n"]);
    assert_eq!(frames.len(), 1);
    assert_eq!(frames[0].kind, DaemonKind::Keepalive);
    assert_eq!(frames[0].data, "{\"a\":1}");
    let frames = feed_message(&["event:\u{a0}content\u{3000}\ndata: \u{2003}x\u{a0}\n\n".as_bytes()]);
    assert_eq!(summary(&frames), vec![(StreamKind::Content, "x".to_string())]);
}

#[test]
fn last_line_of_each_field_wins() {
    let frames = feed_message(&[b"event: error\ndata: one\nevent: reasoning\ndata: two\n\n"]);
    assert_eq!(summary(&frames), vec![(StreamKind::Reasoning, "two".to_string())]);
}

#[test]
fn invalid_utf8_block_is_dropped_and_stream_continues() {
    let frames = feed_message(&[b"event: content\ndata: \xff\xfe\n\nevent: content\ndata: ok\n\n"]);
    assert_eq!(summary(&frames), vec![(StreamKind::Content, "ok".to_string())]);
}

#[test]
fn message_stream_flushes_trailing_block() {
    let mut d = MessageStreamDecoder::new();
    assert!(d.push(b"event: content\ndata: tail").is_empty());
    let last = d.finish().expect("trailing block");
    assert_eq!((last.kind, last.data), (StreamKind::Content, "tail".to_string()));
    assert!(MessageStreamDecoder::new().finish().is_none());
}

#[test]
fn daemon_stream_keeps_unfinished_block_pending() {
    let mut d = DaemonStreamDecoder::new();
    assert!(d.push(b"event: keepalive\ndata: {}").is_empty());
    assert!(d.push(b"\n").is_empty());
    let frames = d.push(b"\n");
    assert_eq!(frames.len(), 1);
    assert_eq!(frames[0].kind, DaemonKind::Keepalive);
}
