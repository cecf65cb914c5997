//! The message-generation side: the decode rule of each label, and the
//! in-progress streaming message that content deltas accumulate into.

use vstd::prelude::*;
use vstd::string::StringExecFns;
use crate::decoder::{StreamFrame, StreamKind};
use crate::lists::upsert_back;
use crate::ordered::{find_id, id_index, Identified};
use crate::types::{
    Message, MessageEvent, MessageRole, MessageTime, StreamEvent, ToolCall, ToolCallResult,
};

verus! {

impl Default for Message {
    /// The empty message a `done` event carries when its payload does not
    /// parse.
    fn default() -> (r: Message)
        ensures
            r.id@ == Seq::<char>::empty(),
            r.session_id@ == Seq::<char>::empty(),
            r.role == MessageRole::User,
            r.time == (MessageTime { created: 0, completed: None }),
            r.summary is None,
            r.agent is None,
            r.parts@ == Seq::<crate::types::MessagePart>::empty(),
    {
        Message {
            id: String::new(),
            session_id: String::new(),
            role: MessageRole::User,
            time: MessageTime { created: 0, completed: None },
            summary: None,
            agent: None,
            parts: Vec::new(),
        }
    }
}

/// A message together with the session its record names.
pub fn message_event(info: Message) -> (r: MessageEvent)
    ensures
        r.session_id@ == info.session_id@,
        r.message == info,
{
    MessageEvent { session_id: info.session_id.clone(), message: info }
}

/// The event a decoded frame gives, given what its payload parsed to: the
/// text kinds carry the payload itself; a tool call whose payload did not
/// parse is dropped; `done` without a parsed message carries the empty one.
pub fn stream_event(
    frame: StreamFrame,
    tool_call: Option<ToolCall>,
    tool_result: Option<ToolCallResult>,
    message: Option<Message>,
) -> (r: Option<StreamEvent>)
    ensures
        match frame.kind {
            StreamKind::Content => r == Some(StreamEvent::Content(frame.data)),
            StreamKind::Reasoning => r == Some(StreamEvent::Reasoning(frame.data)),
            StreamKind::Error => r == Some(StreamEvent::Error(frame.data)),
            StreamKind::ToolCallStart => match tool_call {
                Some(tc) => r == Some(StreamEvent::ToolCallStart(tc)),
                None => r is None,
            },
            StreamKind::ToolCallEnd => match tool_result {
                Some(tr) => r == Some(StreamEvent::ToolCallEnd(tr)),
                None => r is None,
            },
            StreamKind::Done => match message {
                Some(m) => r == Some(StreamEvent::Done(m)),
                None => r matches Some(StreamEvent::Done(m)) && m.id@.len() == 0
                    && m.session_id@.len() == 0 && m.parts@.len() == 0,
            },
        },
{
    match frame.kind {
        StreamKind::Content => Some(StreamEvent::Content(frame.data)),
        StreamKind::Reasoning => Some(StreamEvent::Reasoning(frame.data)),
        StreamKind::Error => Some(StreamEvent::Error(frame.data)),
        StreamKind::ToolCallStart => match tool_call {
            Some(tc) => Some(StreamEvent::ToolCallStart(tc)),
            None => None,
        },
        StreamKind::ToolCallEnd => match tool_result {
            Some(tr) => Some(StreamEvent::ToolCallEnd(tr)),
            None => None,
        },
        StreamKind::Done => match message {
            Some(m) => Some(StreamEvent::Done(m)),
            None => Some(StreamEvent::Done(Message::default())),
        },
    }
}

/// Progress of a streamed tool call.
#[derive(Clone, Copy, Debug, PartialEq, Eq, Structural)]
pub enum ToolCallStatus {
    Pending,
    Running,
    Success,
    Error,
}

/// A tool call of the message being streamed.
#[derive(Clone, Debug)]
pub struct StreamingToolCall {
    pub id: String,
    pub name: String,
    pub input: serde_json::Value,
    pub output: Option<String>,
    pub status: ToolCallStatus,
}

impl Identified for StreamingToolCall {
    open spec fn id_view(&self) -> Seq<char> {
        self.id@
    }

    fn id_ref(&self) -> (r: &String) {
        &self.id
    }
}

/// A message that is being streamed, before the finished record arrives.
#[derive(Clone, Debug)]
pub struct StreamingMessage {
    pub session_id: String,
    pub message_id: String,
    /// All content deltas so far, concatenated.
    pub content: String,
    /// Tool calls, one per id, in order of first appearance.
    pub tool_calls: Vec<StreamingToolCall>,
    /// All reasoning deltas so far, concatenated.
    pub reasoning: Option<String>,
    pub is_complete: bool,
}

/// The reasoning text after one more delta.
pub open spec fn reasoning_after(r: Option<String>, d: Seq<char>) -> Seq<char> {
    match r {
        Some(s) => s@ + d,
        None => d,
    }
}

/// The tool calls after a tool call ended: the one with its id records the
/// output and whether it failed; without one, nothing changes.
pub open spec fn tool_calls_after_end(s: Seq<StreamingToolCall>, tr: ToolCallResult) -> Seq<
    StreamingToolCall,
> {
    let i = id_index(s, tr.id@, 0);
    if i >= 0 {
        s.update(
            i,
            StreamingToolCall {
                output: tr.output,
                status: if tr.is_error {
                    ToolCallStatus::Error
                } else {
                    ToolCallStatus::Success
                },
                ..s[i]
            },
        )
    } else {
        s
    }
}

/// How one event changes the streaming message.
pub open spec fn stream_step(m: StreamingMessage, n: StreamingMessage, e: StreamEvent) -> bool {
    &&& n.session_id == m.session_id
    &&& n.message_id == m.message_id
    &&& match e {
        StreamEvent::Content(d) => {
            &&& n.content@ == m.content@ + d@
            &&& n.tool_calls@ == m.tool_calls@
            &&& n.reasoning == m.reasoning
            &&& n.is_complete == m.is_complete
        },
        StreamEvent::Reasoning(d) => {
            &&& n.content == m.content
            &&& n.tool_calls@ == m.tool_calls@
            &&& n.reasoning is Some
            &&& n.reasoning->0@ == reasoning_after(m.reasoning, d@)
            &&& n.is_complete == m.is_complete
        },
        StreamEvent::ToolCallStart(tc) => {
            &&& n.content == m.content
            &&& n.tool_calls@ == upsert_back(
                m.tool_calls@,
                StreamingToolCall {
                    id: tc.id,
                    name: tc.name,
                    input: tc.input,
                    output: None,
                    status: ToolCallStatus::Running,
                },
            )
            &&& n.reasoning == m.reasoning
            &&& n.is_complete == m.is_complete
        },
        StreamEvent::ToolCallEnd(tr) => {
            &&& n.content == m.content
            &&& n.tool_calls@ == tool_calls_after_end(m.tool_calls@, tr)
            &&& n.reasoning == m.reasoning
            &&& n.is_complete == m.is_complete
        },
        StreamEvent::Done(_) | StreamEvent::Error(_) => {
            &&& n.content == m.content
            &&& n.tool_calls@ == m.tool_calls@
            &&& n.reasoning == m.reasoning
            &&& n.is_complete
        },
    }
}

impl StreamingMessage {
    /// A fresh record for a message about to be streamed.
    pub fn new(session_id: &str, message_id: &str) -> (r: StreamingMessage)
        ensures
            r.session_id@ == session_id@,
            r.message_id@ == message_id@,
            r.content@ == Seq::<char>::empty(),
            r.tool_calls@ == Seq::<StreamingToolCall>::empty(),
            r.reasoning is None,
            !r.is_complete,
    {
        StreamingMessage {
            session_id: session_id.to_owned(),
            message_id: message_id.to_owned(),
            content: String::new(),
            tool_calls: Vec::new(),
            reasoning: None,
            is_complete: false,
        }
    }

    /// Appends a content delta.
    pub fn push_content(&mut self, delta: &str)
        ensures
            final(self).content@ == old(self).content@ + delta@,
            final(self).tool_calls == old(self).tool_calls,
            final(self).reasoning == old(self).reasoning,
            final(self).is_complete == old(self).is_complete,
            final(self).session_id == old(self).session_id,
            final(self).message_id == old(self).message_id,
    {
        self.content.append(delta);
    }

    /// Inserts a tool call, or replaces the one with its id.
    pub fn upsert_tool_call(&mut self, call: StreamingToolCall)
        ensures
            final(self).tool_calls@ == upsert_back(old(self).tool_calls@, call),
            final(self).content == old(self).content,
            final(self).reasoning == old(self).reasoning,
            final(self).is_complete == old(self).is_complete,
            final(self).session_id == old(self).session_id,
            final(self).message_id == old(self).message_id,
    {
        let ghost before = self.tool_calls@;
        match find_id(&self.tool_calls, call.id_ref()) {
            Some(i) => {
                self.tool_calls.remove(i);
                self.tool_calls.insert(i, call);
                assert(self.tool_calls@ =~= before.update(i as int, call));
            },
            None => {
                self.tool_calls.push(call);
            },
        }
    }

    /// Applies one event of the message-generation stream.
    pub fn apply(&mut self, e: StreamEvent)
        ensures
            stream_step(*old(self), *final(self), e),
    {
        match e {
            StreamEvent::Content(d) => self.push_content(d.as_str()),
            StreamEvent::Reasoning(d) => {
                let r = match self.reasoning.take() {
                    Some(s) => s.concat(d.as_str()),
                    None => d,
                };
                self.reasoning = Some(r);
            },
            StreamEvent::ToolCallStart(tc) => {
                let ToolCall { id, name, input } = tc;
                self.upsert_tool_call(
                    StreamingToolCall {
                        id,
                        name,
                        input,
                        output: None,
                        status: ToolCallStatus::Running,
                    },
                );
            },
            StreamEvent::ToolCallEnd(tr) => {
                let ghost before = self.tool_calls@;
                let ghost trv = tr;
                match find_id(&self.tool_calls, &tr.id) {
                    Some(i) => {
                        let old_call = self.tool_calls.remove(i);
                        let status = if tr.is_error {
                            ToolCallStatus::Error
                        } else {
                            ToolCallStatus::Success
                        };
                        let call = StreamingToolCall { output: tr.output, status, ..old_call };
                        self.tool_calls.insert(i, call);
                        assert(self.tool_calls@ =~= tool_calls_after_end(before, trv));
                    },
                    None => {},
                }
            },
            StreamEvent::Done(_) => {
                self.is_complete = true;
            },
            StreamEvent::Error(_) => {
                self.is_complete = true;
            },
        }
    }
}

} // verus!
