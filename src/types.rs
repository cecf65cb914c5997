//! The daemon's data model: sessions, messages, parts, prompts, and the
//! request bodies of the request/response interface.

use vstd::prelude::*;

verus! {

/// Arbitrary JSON that the logic carries along without reading it
/// (tool inputs, permission metadata).
#[verifier::external_type_specification]
#[verifier::external_body]
pub struct ExJsonValue(serde_json::Value);

/// Relies on the `Clone` that `serde_json::Value` derives: the copy equals the
/// value it was made from.
pub assume_specification[ <serde_json::Value as Clone>::clone ](v: &serde_json::Value) -> (r:
    serde_json::Value)
    ensures
        r == *v,
;

// ---------------------------------------------------------------------------
// Sessions
// ---------------------------------------------------------------------------

/// One conversation on the daemon.
#[derive(Clone, Debug)]
pub struct Session {
    pub id: String,
    pub title: Option<String>,
    pub created_at: i64,
    pub updated_at: i64,
    pub agent: Option<String>,
    pub model: Option<ModelInfo>,
    pub message_count: i32,
}

/// The model a session runs on.
#[derive(Clone, Debug)]
pub struct ModelInfo {
    pub provider_id: String,
    pub model_id: String,
}

/// Body of a create-session request.
#[derive(Clone, Debug)]
pub struct CreateSessionRequest {
    pub title: Option<String>,
    pub agent: Option<String>,
    pub model: Option<String>,
}

/// Body of an update-session request.
#[derive(Clone, Debug)]
pub struct UpdateSessionRequest {
    pub title: Option<String>,
}

/// Busy flag and active agent of a session.
#[derive(Clone, Debug)]
pub struct SessionStatus {
    pub busy: bool,
    pub agent: Option<String>,
}

// ---------------------------------------------------------------------------
// Messages
// ---------------------------------------------------------------------------

/// One message of a session.
#[derive(Clone, Debug)]
pub struct Message {
    pub id: String,
    pub session_id: String,
    pub role: MessageRole,
    pub time: MessageTime,
    pub summary: Option<MessageSummary>,
    pub agent: Option<String>,
    pub parts: Vec<MessagePart>,
}

/// Who wrote a message.
#[derive(Clone, Copy, Debug, PartialEq, Eq, Structural)]
pub enum MessageRole {
    User,
    Assistant,
}

/// Message timestamps.
#[derive(Clone, Copy, Debug, PartialEq, Eq, Structural)]
pub struct MessageTime {
    pub created: i64,
    pub completed: Option<i64>,
}

/// Summary attached to a message.
#[derive(Clone, Debug)]
pub struct MessageSummary {
    pub title: Option<String>,
    pub body: Option<String>,
    pub diffs: Vec<FileDiff>,
}

/// Content block stored inside a message record.
#[derive(Clone, Debug)]
pub enum MessagePart {
    Text { text: String },
    ToolUse { id: String, name: String, input: serde_json::Value },
    ToolResult { tool_use_id: String, content: String, is_error: bool },
    Reasoning { text: String },
}

/// Change to one file, as reported in a message summary.
#[derive(Clone, Debug)]
pub struct FileDiff {
    pub file: String,
    pub before: String,
    pub after: String,
    pub additions: i32,
    pub deletions: i32,
}

/// Body of a send-message request.
#[derive(Clone, Debug)]
pub struct SendMessageRequest {
    pub content: String,
    pub agent: Option<String>,
    pub model: Option<String>,
    pub files: Vec<FileContent>,
}

/// A file attached to a message.
#[derive(Clone, Debug)]
pub struct FileContent {
    pub path: String,
    pub content: String,
}

// ---------------------------------------------------------------------------
// Providers and configuration
// ---------------------------------------------------------------------------

/// A model provider known to the daemon.
#[derive(Clone, Debug)]
pub struct Provider {
    pub id: String,
    pub name: String,
    pub models: Vec<String>,
    pub enabled: bool,
    pub has_api_key: bool,
}

/// Daemon configuration.
#[derive(Clone, Debug)]
pub struct Config {
    pub theme: Option<String>,
    pub model: Option<String>,
    pub provider: Option<String>,
}

// ---------------------------------------------------------------------------
// Message-generation stream
// ---------------------------------------------------------------------------

/// A tool call announced on the message-generation stream.
#[derive(Clone, Debug)]
pub struct ToolCall {
    pub id: String,
    pub name: String,
    pub input: serde_json::Value,
}

/// The end of a tool call on the message-generation stream.
#[derive(Clone, Debug)]
pub struct ToolCallResult {
    pub id: String,
    pub output: Option<String>,
    pub is_error: bool,
}

/// One decoded event of the message-generation stream.
#[derive(Clone, Debug)]
pub enum StreamEvent {
    /// A piece of text content.
    Content(String),
    /// A tool call started.
    ToolCallStart(ToolCall),
    /// A tool call finished.
    ToolCallEnd(ToolCallResult),
    /// A piece of reasoning text.
    Reasoning(String),
    /// The stream finished with this final message.
    Done(Message),
    /// The stream failed with this error text.
    Error(String),
}

// ---------------------------------------------------------------------------
// Permission and question prompts
// ---------------------------------------------------------------------------

/// A pending request for the user's permission.
#[derive(Clone, Debug)]
pub struct PermissionRequest {
    pub id: String,
    pub session_id: String,
    pub permission: String,
    pub patterns: Vec<String>,
    pub metadata: serde_json::Value,
    pub always: Vec<String>,
    pub tool: Option<ToolReference>,
}

/// The tool call that raised a permission request or a question.
#[derive(Clone, Debug)]
pub struct ToolReference {
    pub message_id: String,
    pub call_id: String,
}

/// Body of a permission reply.
#[derive(Clone, Debug)]
pub struct PermissionReplyRequest {
    pub request_id: String,
    pub decision: PermissionDecision,
}

/// The user's answer to a permission request.
#[derive(Clone, Copy, Debug, PartialEq, Eq, Structural)]
pub enum PermissionDecision {
    Allow,
    Reject,
    Always,
}

/// A pending set of questions for the user.
#[derive(Clone, Debug)]
pub struct QuestionRequest {
    pub id: String,
    pub session_id: String,
    pub questions: Vec<QuestionInfo>,
    pub tool: Option<ToolReference>,
}

/// One question of a question request.
#[derive(Clone, Debug)]
pub struct QuestionInfo {
    pub question: String,
    pub header: String,
    pub options: Vec<QuestionOption>,
    pub multiple: bool,
    pub custom: bool,
}

/// The value a question's `custom` flag takes when the payload omits it.
pub fn default_true() -> (r: bool)
    ensures
        r,
{
    true
}

/// One offered answer of a question.
#[derive(Clone, Debug)]
pub struct QuestionOption {
    pub label: String,
    pub description: Option<String>,
}

/// Body of a question reply: the chosen labels for each question.
#[derive(Clone, Debug)]
pub struct QuestionReplyRequest {
    pub request_id: String,
    pub answers: Vec<Vec<String>>,
}

// ---------------------------------------------------------------------------
// Message parts (live updates)
// ---------------------------------------------------------------------------

/// One part of a message, as streamed by part events.
#[derive(Clone, Debug)]
pub struct Part {
    pub id: String,
    pub message_id: String,
    pub content: PartContent,
}

/// What a part holds.
#[derive(Clone, Debug)]
pub enum PartContent {
    Text { text: String },
    ToolUse { tool_use_id: String, name: String, input: serde_json::Value, state: ToolState },
    Reasoning { text: String },
}

/// Execution state of a tool-use part.
#[derive(Clone, Debug)]
pub struct ToolState {
    pub status: ToolStatus,
    pub output: Option<String>,
    pub is_error: bool,
    pub metadata: Option<serde_json::Value>,
}

/// Execution status of a tool-use part.
#[derive(Clone, Copy, Debug, PartialEq, Eq, Structural)]
pub enum ToolStatus {
    Pending,
    Running,
    Completed,
    Error,
}

// ---------------------------------------------------------------------------
// Daemon events
// ---------------------------------------------------------------------------

/// A message together with the session it belongs to.
#[derive(Clone, Debug)]
pub struct MessageEvent {
    pub session_id: String,
    pub message: Message,
}

/// One decoded event of the daemon event stream.
#[derive(Clone, Debug)]
pub enum DaemonEvent {
    SessionCreated(Session),
    SessionUpdated(Session),
    SessionDeleted(String),
    SessionStatus { session_id: String, status: SessionStatus },
    MessageCreated(MessageEvent),
    MessageUpdated(MessageEvent),
    MessageRemoved { session_id: String, message_id: String },
    MessagePartUpdated(Part),
    MessagePartRemoved { message_id: String, part_id: String },
    PermissionAsked(PermissionRequest),
    PermissionReplied { session_id: String, request_id: String },
    QuestionAsked(QuestionRequest),
    QuestionReplied { session_id: String, request_id: String },
    ConnectionStatus(bool),
    Keepalive,
}

} // verus!

verus! {

impl crate::ordered::Identified for Session {
    open spec fn id_view(&self) -> Seq<char> {
        self.id@
    }

    fn id_ref(&self) -> (r: &String) {
        &self.id
    }
}

impl crate::ordered::Identified for Message {
    open spec fn id_view(&self) -> Seq<char> {
        self.id@
    }

    fn id_ref(&self) -> (r: &String) {
        &self.id
    }
}

impl crate::ordered::Identified for Part {
    open spec fn id_view(&self) -> Seq<char> {
        self.id@
    }

    fn id_ref(&self) -> (r: &String) {
        &self.id
    }
}

impl crate::ordered::Identified for PermissionRequest {
    open spec fn id_view(&self) -> Seq<char> {
        self.id@
    }

    fn id_ref(&self) -> (r: &String) {
        &self.id
    }
}

impl crate::ordered::Identified for QuestionRequest {
    open spec fn id_view(&self) -> Seq<char> {
        self.id@
    }

    fn id_ref(&self) -> (r: &String) {
        &self.id
    }
}

} // verus!
