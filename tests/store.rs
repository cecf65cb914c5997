use agent_core_sync::decoder::{DaemonFrame, DaemonKind, DaemonStreamDecoder};
use agent_core_sync::store::{ActiveView, StateStore};
use agent_core_sync::types::{
    DaemonEvent, Message, MessageEvent, MessageRole, MessageTime, Part, PartContent,
    PermissionRequest, QuestionInfo, QuestionRequest, Session, SessionStatus,
};
use serde_json::Value;

fn s(x: &str) -> String {
    x.to_string()
}

fn session(id: &str, title: &str) -> Session {
    Session {
        id: s(id),
        title: Some(s(title)),
        created_at: 1,
        updated_at: 2,
        agent: None,
        model: None,
        message_count: 0,
    }
}

fn message(id: &str, session_id: &str) -> Message {
    Message {
        id: s(id),
        session_id: s(session_id),
        role: MessageRole::Assistant,
        time: MessageTime { created: 5, completed: None },
        summary: None,
        agent: None,
        parts: Vec::new(),
    }
}

fn part(id: &str, message_id: &str, text: &str) -> Part {
    Part { id: s(id), message_id: s(message_id), content: PartContent::Text { text: s(text) } }
}

fn permission(id: &str, session_id: &str, what: &str) -> PermissionRequest {
    PermissionRequest {
        id: s(id),
        session_id: s(session_id),
        permission: s(what),
        patterns: Vec::new(),
        metadata: Value::Null,
        always: Vec::new(),
        tool: None,
    }
}

fn question(id: &str, session_id: &str) -> QuestionRequest {
    QuestionRequest {
        id: s(id),
        session_id: s(session_id),
        questions: vec![QuestionInfo {
            question: s("Proceed?"),
            header: s("Confirm"),
            options: Vec::new(),
            multiple: false,
            custom: true,
        }],
        tool: None,
    }
}

fn part_ids(store: &StateStore, message_id: &str) -> Vec<String> {
    store.get_parts(&s(message_id)).map(|l| l.iter().map(|p| p.id.clone()).collect()).unwrap_or_default()
}

#[test]
fn parts_arriving_in_reverse_are_kept_sorted() {
    let mut store = StateStore::new();
    store.apply(DaemonEvent::MessagePartUpdated(part("p2", "m1", "second")));
    store.apply(DaemonEvent::MessagePartUpdated(part("p1", "m1", "first")));
    assert_eq!(part_ids(&store, "m1"), vec![s("p1"), s("p2")]);
}

#[test]
fn part_update_replaces_in_place() {
    let mut store = StateStore::new();
    for id in ["p3", "p1", "p2"] {
        store.apply(DaemonEvent::MessagePartUpdated(part(id, "m1", "old")));
    }
    store.apply(DaemonEvent::MessagePartUpdated(part("p2", "m1", "new")));
    assert_eq!(part_ids(&store, "m1"), vec![s("p1"), s("p2"), s("p3")]);
    match &store.get_parts(&s("m1")).unwrap()[1].content {
        PartContent::Text { text } => assert_eq!(text, "new"),
        _ => panic!("unexpected part kind"),
    }
}

#[test]
fn part_removal_and_missing_part_are_no_ops_elsewhere() {
    let mut store = StateStore::new();
    store.apply(DaemonEvent::MessagePartUpdated(part("p1", "m1", "a")));
    store.apply(DaemonEvent::MessagePartUpdated(part("p2", "m1", "b")));
    store.apply(DaemonEvent::MessagePartRemoved { message_id: s("m1"), part_id: s("p1") });
    assert_eq!(part_ids(&store, "m1"), vec![s("p2")]);
    store.apply(DaemonEvent::MessagePartRemoved { message_id: s("m1"), part_id: s("nope") });
    store.apply(DaemonEvent::MessagePartRemoved { message_id: s("m9"), part_id: s("p2") });
    assert_eq!(part_ids(&store, "m1"), vec![s("p2")]);
    assert!(store.get_parts(&s("m9")).is_none());
}

#[test]
fn permission_asked_twice_keeps_one_entry_with_second_payload() {
    let mut store = StateStore::new();
    store.apply(DaemonEvent::PermissionAsked(permission("r1", "s1", "read")));
    store.apply(DaemonEvent::PermissionAsked(permission("r1", "s1", "write")));
    let queue = store.get_pending_permissions(&s("s1")).unwrap();
    assert_eq!(queue.len(), 1);
    assert_eq!(queue[0].permission, "write");
}

#[test]
fn permission_queue_sorted_and_filtered_when_empty() {
    let mut store = StateStore::new();
    store.apply(DaemonEvent::PermissionAsked(permission("r2", "s1", "b")));
    store.apply(DaemonEvent::PermissionAsked(permission("r1", "s1", "a")));
    assert_eq!(store.get_next_permission(&s("s1")).unwrap().id, "r1");
    store.apply(DaemonEvent::PermissionReplied { session_id: s("s1"), request_id: s("r1") });
    store.apply(DaemonEvent::PermissionReplied { session_id: s("s1"), request_id: s("r2") });
    assert!(store.get_pending_permissions(&s("s1")).is_none());
    assert!(!store.has_pending_permissions(&s("s1")));
    assert!(!store.has_pending_prompts(&s("s1")));
}

#[test]
fn message_removal_purges_its_parts() {
    let mut store = StateStore::new();
    store.apply(DaemonEvent::MessageCreated(MessageEvent { session_id: s("s1"), message: message("m1", "s1") }));
    for id in ["p1", "p2", "p3"] {
        store.apply(DaemonEvent::MessagePartUpdated(part(id, "m1", "x")));
    }
    store.apply(DaemonEvent::MessagePartUpdated(part("q1", "m2", "y")));
    assert_eq!(part_ids(&store, "m1").len(), 3);
    store.apply(DaemonEvent::MessageRemoved { session_id: s("s1"), message_id: s("m1") });
    assert!(store.get_parts(&s("m1")).is_none());
    assert_eq!(part_ids(&store, "m2"), vec![s("q1")]);
    assert!(store.messages_of(&s("s1")).unwrap().is_empty());
}

#[test]
fn sessions_are_unique_and_new_ones_go_first() {
    let mut store = StateStore::new();
    store.apply(DaemonEvent::SessionCreated(session("a", "first")));
    store.apply(DaemonEvent::SessionCreated(session("b", "second")));
    store.apply(DaemonEvent::SessionCreated(session("a", "again")));
    let ids: Vec<&str> = store.sessions().iter().map(|x| x.id.as_str()).collect();
    assert_eq!(ids, vec!["b", "a"]);
    assert_eq!(store.sessions()[1].title.as_deref(), Some("again"));
    store.apply(DaemonEvent::SessionUpdated(session("b", "renamed")));
    assert_eq!(store.sessions()[0].title.as_deref(), Some("renamed"));
    assert_eq!(store.sessions().len(), 2);
}

#[test]
fn session_deletion_cascades_and_clears_selection() {
    let mut store = StateStore::new();
    store.apply(DaemonEvent::SessionCreated(session("s1", "t")));
    store.apply(DaemonEvent::MessageCreated(MessageEvent { session_id: s("s1"), message: message("m1", "s1") }));
    store.apply(DaemonEvent::MessagePartUpdated(part("p1", "m1", "x")));
    store.set_active_session(Some(s("s1")));
    assert_eq!(store.active_view(), ActiveView::Chat);
    assert_eq!(store.active_session().unwrap().id, "s1");
    store.apply(DaemonEvent::SessionDeleted(s("s1")));
    assert!(store.sessions().is_empty());
    assert!(store.messages_of(&s("s1")).is_none());
    assert!(store.get_parts(&s("m1")).is_none());
    assert!(store.active_session_id().is_none());
    assert_eq!(store.active_view(), ActiveView::Sessions);
}

#[test]
fn message_updated_replaces_or_appends() {
    let mut store = StateStore::new();
    store.apply(DaemonEvent::MessageUpdated(MessageEvent { session_id: s("s1"), message: message("m1", "s1") }));
    let mut changed = message("m1", "s1");
    changed.role = MessageRole::User;
    store.apply(DaemonEvent::MessageUpdated(MessageEvent { session_id: s("s1"), message: changed }));
    store.apply(DaemonEvent::MessageCreated(MessageEvent { session_id: s("s1"), message: message("m2", "s1") }));
    let list = store.messages_of(&s("s1")).unwrap();
    assert_eq!(list.len(), 2);
    assert_eq!(list[0].role, MessageRole::User);
    assert_eq!(list[1].id, "m2");
}

#[test]
fn status_and_connectivity() {
    let mut store = StateStore::new();
    assert!(!store.connected());
    store.apply(DaemonEvent::SessionStatus { session_id: s("s1"), status: SessionStatus { busy: true, agent: Some(s("zee")) } });
    assert!(store.is_session_busy(&s("s1")));
    store.apply(DaemonEvent::SessionStatus { session_id: s("s1"), status: SessionStatus { busy: false, agent: None } });
    assert!(!store.is_session_busy(&s("s1")));
    assert!(store.get_session_status(&s("s1")).unwrap().agent.is_none());
    store.apply(DaemonEvent::ConnectionStatus(true));
    assert!(store.connected());
    store.apply(DaemonEvent::Keepalive);
    assert!(store.connected());
}

#[test]
fn question_queue_upsert_and_reply() {
    let mut store = StateStore::new();
    store.apply(DaemonEvent::QuestionAsked(question("q2", "s1")));
    store.apply(DaemonEvent::QuestionAsked(question("q1", "s1")));
    assert_eq!(store.get_next_question(&s("s1")).unwrap().id, "q1");
    store.apply(DaemonEvent::QuestionReplied { session_id: s("s1"), request_id: s("q1") });
    assert_eq!(store.get_pending_questions(&s("s1")).unwrap().len(), 1);
    assert!(store.has_pending_prompts(&s("s1")));
}

// Decode a daemon block, read its JSON payload, and apply the event.

fn frame(label: &str, data: &str) -> DaemonFrame {
    let mut d = DaemonStreamDecoder::new();
    let block = format!("event: {}\ndata: {}\n\n", label, data);
    let mut frames = d.push(block.as_bytes());
    assert_eq!(frames.len(), 1);
    frames.remove(0)
}

fn text(v: &Value, key: &str) -> String {
    v[key].as_str().unwrap().to_string()
}

fn session_of(v: &Value) -> Session {
    Session {
        id: text(v, "id"),
        title: v["title"].as_str().map(|t| t.to_string()),
        created_at: v["createdAt"].as_i64().unwrap(),
        updated_at: v["updatedAt"].as_i64().unwrap(),
        agent: None,
        model: None,
        message_count: v["messageCount"].as_i64().unwrap_or(0) as i32,
    }
}

fn message_of(v: &Value) -> Message {
    let mut m = message(&text(v, "id"), &text(v, "sessionId"));
    m.role = if v["role"] == "user" { MessageRole::User } else { MessageRole::Assistant };
    m
}

fn event_of(f: &DaemonFrame) -> DaemonEvent {
    let v: Value = serde_json::from_str(&f.data).unwrap();
    match f.kind {
        DaemonKind::SessionCreated => DaemonEvent::SessionCreated(session_of(&v["info"])),
        DaemonKind::SessionUpdated => DaemonEvent::SessionUpdated(session_of(&v["info"])),
        DaemonKind::SessionDeleted => DaemonEvent::SessionDeleted(text(&v["info"], "id")),
        DaemonKind::SessionStatus => DaemonEvent::SessionStatus {
            session_id: text(&v, "sessionId"),
            status: SessionStatus { busy: v["status"]["busy"].as_bool().unwrap(), agent: None },
        },
        DaemonKind::MessageCreated => DaemonEvent::MessageCreated(agent_core_sync::streaming::message_event(message_of(&v["info"]))),
        DaemonKind::MessageUpdated => DaemonEvent::MessageUpdated(agent_core_sync::streaming::message_event(message_of(&v["info"]))),
        DaemonKind::MessageRemoved => DaemonEvent::MessageRemoved { session_id: text(&v, "sessionId"), message_id: text(&v, "messageId") },
        DaemonKind::MessagePartUpdated => {
            let p = &v["part"];
            DaemonEvent::MessagePartUpdated(part(&text(p, "id"), &text(p, "messageId"), &text(p, "text")))
        }
        DaemonKind::MessagePartRemoved => DaemonEvent::MessagePartRemoved { message_id: text(&v, "messageId"), part_id: text(&v, "partId") },
        DaemonKind::PermissionAsked => DaemonEvent::PermissionAsked(permission(&text(&v, "id"), &text(&v, "sessionId"), &text(&v, "permission"))),
        DaemonKind::PermissionReplied => DaemonEvent::PermissionReplied { session_id: text(&v, "sessionId"), request_id: text(&v, "requestId") },
        DaemonKind::QuestionAsked => DaemonEvent::QuestionAsked(question(&text(&v, "id"), &text(&v, "sessionId"))),
        DaemonKind::QuestionReplied => DaemonEvent::QuestionReplied { session_id: text(&v, "sessionId"), request_id: text(&v, "requestId") },
        DaemonKind::ConnectionStatus => DaemonEvent::ConnectionStatus(v["connected"].as_bool().unwrap()),
        DaemonKind::Keepalive => DaemonEvent::Keepalive,
    }
}

fn feed(store: &mut StateStore, label: &str, data: &str) {
    let f = frame(label, data);
    store.apply(event_of(&f));
}

#[test]
fn decode_then_apply_matches_each_documented_effect() {
    let mut store = StateStore::new();
    feed(&mut store, "session.created", r#"{"info":{"id":"s1","title":"One","createdAt":1,"updatedAt":1}}"#);
    assert_eq!(store.sessions()[0].id, "s1");
    feed(&mut store, "session.updated", r#"{"info":{"id":"s1","title":"Renamed","createdAt":1,"updatedAt":2}}"#);
    assert_eq!(store.sessions()[0].title.as_deref(), Some("Renamed"));
    assert_eq!(store.sessions().len(), 1);
    feed(&mut store, "session.status", r#"{"sessionId":"s1","status":{"busy":true}}"#);
    assert!(store.is_session_busy(&s("s1")));
    feed(&mut store, "message.created", r#"{"info":{"id":"m1","sessionId":"s1","role":"user","time":{"created":1}}}"#);
    assert_eq!(store.messages_of(&s("s1")).unwrap()[0].role, MessageRole::User);
    feed(&mut store, "message.updated", r#"{"info":{"id":"m1","sessionId":"s1","role":"assistant","time":{"created":1}}}"#);
    assert_eq!(store.messages_of(&s("s1")).unwrap().len(), 1);
    assert_eq!(store.messages_of(&s("s1")).unwrap()[0].role, MessageRole::Assistant);
    feed(&mut store, "message.part.updated", r#"{"part":{"id":"p1","messageId":"m1","type":"text","text":"hi"}}"#);
    assert_eq!(part_ids(&store, "m1"), vec![s("p1")]);
    feed(&mut store, "message.part.updated", r#"{"part":{"id":"p0","messageId":"m1","type":"text","text":"hey"}}"#);
    feed(&mut store, "message.part.removed", r#"{"messageId":"m1","partId":"p1"}"#);
    assert_eq!(part_ids(&store, "m1"), vec![s("p0")]);
    feed(&mut store, "permission.asked", r#"{"id":"r1","sessionId":"s1","permission":"bash"}"#);
    assert!(store.has_pending_permissions(&s("s1")));
    feed(&mut store, "permission.replied", r#"{"sessionId":"s1","requestId":"r1"}"#);
    assert!(!store.has_pending_permissions(&s("s1")));
    feed(&mut store, "question.asked", r#"{"id":"q1","sessionId":"s1","questions":[]}"#);
    assert!(store.has_pending_questions(&s("s1")));
    feed(&mut store, "question.rejected", r#"{"sessionId":"s1","requestId":"q1"}"#);
    assert!(!store.has_pending_questions(&s("s1")));
    feed(&mut store, "question.asked", r#"{"id":"q2","sessionId":"s1","questions":[]}"#);
    feed(&mut store, "question.replied", r#"{"sessionId":"s1","requestId":"q2"}"#);
    assert!(!store.has_pending_questions(&s("s1")));
    feed(&mut store, "connection.status", r#"{"connected":true}"#);
    assert!(store.connected());
    feed(&mut store, "keepalive", "{}");
    assert!(store.connected());
    feed(&mut store, "message.removed", r#"{"sessionId":"s1","messageId":"m1"}"#);
    assert!(store.messages_of(&s("s1")).unwrap().is_empty());
    assert!(store.get_parts(&s("m1")).is_none());
    feed(&mut store, "session.deleted", r#"{"info":{"id":"s1"}}"#);
    assert!(store.sessions().is_empty());
    assert!(store.messages_of(&s("s1")).is_none());
}
