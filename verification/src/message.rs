//! Conversation data: content blocks, messages, stop reasons, token usage,
//! streamed model chunks, tool outcomes, and runtime errors.
//!
//! Structured JSON (tool inputs, custom payloads, tool details) is carried
//! as its compact serialised text.

use vstd::prelude::*;
use crate::text::{chars_of, push_str, string_of};

verus! {

#[derive(Debug, PartialEq, Eq, Hash)]
pub struct MessageId(pub String);

impl Clone for MessageId {
    fn clone(&self) -> (c: Self)
        ensures
            c == *self,
    {
        MessageId(self.0.clone())
    }
}

#[derive(Debug, PartialEq, Eq, Hash)]
pub struct ToolCallId(pub String);

impl Clone for ToolCallId {
    fn clone(&self) -> (c: Self)
        ensures
            c == *self,
    {
        ToolCallId(self.0.clone())
    }
}

/// One block of message content.
#[derive(Debug)]
pub enum ContentBlock {
    Text { text: String },
    Thinking { text: String },
    /// A tool call; `input` is the call's arguments as compact JSON text.
    ToolUse { id: ToolCallId, name: String, input: String },
    Image { media_type: String, data: String },
}

impl Clone for ContentBlock {
    fn clone(&self) -> (c: Self)
        ensures
            c == *self,
    {
        match self {
            ContentBlock::Text { text } => ContentBlock::Text { text: text.clone() },
            ContentBlock::Thinking { text } => ContentBlock::Thinking { text: text.clone() },
            ContentBlock::ToolUse { id, name, input } => ContentBlock::ToolUse {
                id: id.clone(),
                name: name.clone(),
                input: input.clone(),
            },
            ContentBlock::Image { media_type, data } => ContentBlock::Image {
                media_type: media_type.clone(),
                data: data.clone(),
            },
        }
    }
}

/// Why a model turn ended.
#[derive(Debug, Clone, Copy, PartialEq, Eq, Structural)]
pub enum StopReason {
    EndTurn,
    ToolUse,
    MaxTokens,
    StopSequence,
    Refusal,
    Error,
}

/// The name `Debug` prints for a stop reason.
pub open spec fn stop_reason_name(r: StopReason) -> Seq<char> {
    match r {
        StopReason::EndTurn => "EndTurn"@,
        StopReason::ToolUse => "ToolUse"@,
        StopReason::MaxTokens => "MaxTokens"@,
        StopReason::StopSequence => "StopSequence"@,
        StopReason::Refusal => "Refusal"@,
        StopReason::Error => "Error"@,
    }
}

impl StopReason {
    /// The name `Debug` prints.
    pub fn name(&self) -> (s: &'static str)
        ensures
            s@ == stop_reason_name(*self),
    {
        match self {
            StopReason::EndTurn => "EndTurn",
            StopReason::ToolUse => "ToolUse",
            StopReason::MaxTokens => "MaxTokens",
            StopReason::StopSequence => "StopSequence",
            StopReason::Refusal => "Refusal",
            StopReason::Error => "Error",
        }
    }
}

/// Token accounting reported at the end of a model turn.
#[derive(Debug, Clone, Copy, PartialEq, Eq, Structural)]
pub struct TokenUsage {
    pub input: u64,
    pub output: u64,
}

impl Default for TokenUsage {
    fn default() -> (u: Self)
        ensures
            u.input == 0,
            u.output == 0,
    {
        TokenUsage { input: 0, output: 0 }
    }
}

/// A message of the append-only conversation log.
#[derive(Debug)]
pub enum AgentMessage {
    User { id: MessageId, content: Vec<ContentBlock> },
    Assistant { id: MessageId, content: Vec<ContentBlock>, stop_reason: Option<StopReason> },
    ToolResult { id: MessageId, tool_call_id: ToolCallId, content: Vec<ContentBlock>, is_error: bool },
    /// Metadata entry; `payload` is compact JSON text.
    Custom { id: MessageId, kind: String, payload: String, visible_to_model: bool },
}

/// A copy of a block list.
pub fn clone_blocks(v: &Vec<ContentBlock>) -> (c: Vec<ContentBlock>)
    ensures
        c@ == v@,
{
    let mut c: Vec<ContentBlock> = Vec::new();
    let mut i: usize = 0;
    while i < v.len()
        invariant
            i <= v.len(),
            c@ == v@.take(i as int),
        decreases v.len() - i,
    {
        c.push(v[i].clone());
        i = i + 1;
        assert(c@ =~= v@.take(i as int));
    }
    assert(v@.take(i as int) =~= v@);
    c
}

/// The mathematical model of a message: the same variants, with each block
/// list taken as a sequence.
pub enum MessageModel {
    User { id: MessageId, content: Seq<ContentBlock> },
    Assistant { id: MessageId, content: Seq<ContentBlock>, stop_reason: Option<StopReason> },
    ToolResult { id: MessageId, tool_call_id: ToolCallId, content: Seq<ContentBlock>, is_error: bool },
    Custom { id: MessageId, kind: String, payload: String, visible_to_model: bool },
}

impl View for AgentMessage {
    type V = MessageModel;

    open spec fn view(&self) -> MessageModel {
        match self {
            AgentMessage::User { id, content } => MessageModel::User { id: *id, content: content@ },
            AgentMessage::Assistant { id, content, stop_reason } => MessageModel::Assistant {
                id: *id,
                content: content@,
                stop_reason: *stop_reason,
            },
            AgentMessage::ToolResult { id, tool_call_id, content, is_error } => MessageModel::ToolResult {
                id: *id,
                tool_call_id: *tool_call_id,
                content: content@,
                is_error: *is_error,
            },
            AgentMessage::Custom { id, kind, payload, visible_to_model } => MessageModel::Custom {
                id: *id,
                kind: *kind,
                payload: *payload,
                visible_to_model: *visible_to_model,
            },
        }
    }
}

impl Clone for AgentMessage {
    fn clone(&self) -> (c: Self)
        ensures
            c@ == self@,
    {
        match self {
            AgentMessage::User { id, content } => AgentMessage::User {
                id: id.clone(),
                content: clone_blocks(content),
            },
            AgentMessage::Assistant { id, content, stop_reason } => AgentMessage::Assistant {
                id: id.clone(),
                content: clone_blocks(content),
                stop_reason: *stop_reason,
            },
            AgentMessage::ToolResult { id, tool_call_id, content, is_error } => AgentMessage::ToolResult {
                id: id.clone(),
                tool_call_id: tool_call_id.clone(),
                content: clone_blocks(content),
                is_error: *is_error,
            },
            AgentMessage::Custom { id, kind, payload, visible_to_model } => AgentMessage::Custom {
                id: id.clone(),
                kind: kind.clone(),
                payload: payload.clone(),
                visible_to_model: *visible_to_model,
            },
        }
    }
}

/// The models of a message list.
pub open spec fn models(ms: Seq<AgentMessage>) -> Seq<MessageModel> {
    ms.map_values(|m: AgentMessage| m@)
}

/// The blocks a message carries (none for a custom entry).
pub open spec fn content_of(m: MessageModel) -> Seq<ContentBlock> {
    match m {
        MessageModel::User { content, .. } => content,
        MessageModel::Assistant { content, .. } => content,
        MessageModel::ToolResult { content, .. } => content,
        MessageModel::Custom { .. } => Seq::empty(),
    }
}

/// Is the message a conversational turn (from the user or the assistant)?
pub open spec fn is_turn(m: MessageModel) -> bool {
    m is User || m is Assistant
}

/// Is the model of a message visible to the model?
pub open spec fn model_visible(m: MessageModel) -> bool {
    match m {
        MessageModel::Custom { visible_to_model, .. } => visible_to_model,
        _ => true,
    }
}

/// The id of a message model.
pub open spec fn model_id(m: MessageModel) -> MessageId {
    match m {
        MessageModel::User { id, .. } => id,
        MessageModel::Assistant { id, .. } => id,
        MessageModel::ToolResult { id, .. } => id,
        MessageModel::Custom { id, .. } => id,
    }
}

/// Is the message part of what the model sees? Custom entries carry their
/// own flag; every other message is visible.
pub open spec fn visible(m: AgentMessage) -> bool {
    match m {
        AgentMessage::Custom { visible_to_model, .. } => visible_to_model,
        _ => true,
    }
}

/// The message's id.
pub open spec fn message_id(m: AgentMessage) -> MessageId {
    match m {
        AgentMessage::User { id, .. } => id,
        AgentMessage::Assistant { id, .. } => id,
        AgentMessage::ToolResult { id, .. } => id,
        AgentMessage::Custom { id, .. } => id,
    }
}

impl AgentMessage {
    pub fn visible_to_model(&self) -> (b: bool)
        ensures
            b == visible(*self),
    {
        match self {
            AgentMessage::Custom { visible_to_model, .. } => *visible_to_model,
            _ => true,
        }
    }

    pub fn id(&self) -> (i: &MessageId)
        ensures
            *i == message_id(*self),
    {
        match self {
            AgentMessage::User { id, .. } => id,
            AgentMessage::Assistant { id, .. } => id,
            AgentMessage::ToolResult { id, .. } => id,
            AgentMessage::Custom { id, .. } => id,
        }
    }
}

/// One piece of a streamed model response.
#[derive(Debug)]
pub enum ModelChunk {
    MessageStart { id: MessageId },
    ContentDelta { id: MessageId, delta: ContentBlock },
    MessageEnd { id: MessageId, stop_reason: StopReason, usage: TokenUsage },
}

/// What a tool returns.
#[derive(Debug)]
pub struct ToolOutcome {
    pub content: Vec<ContentBlock>,
    /// Structured details as compact JSON text.
    pub details: Option<String>,
    pub is_error: bool,
}

impl Clone for ToolOutcome {
    fn clone(&self) -> (c: Self)
        ensures
            c.content@ == self.content@,
            c.details == self.details,
            c.is_error == self.is_error,
    {
        let details = match &self.details {
            Some(d) => Some(d.clone()),
            None => None,
        };
        ToolOutcome { content: clone_blocks(&self.content), details, is_error: self.is_error }
    }
}

impl ToolOutcome {
    /// A successful outcome with `content` and no details.
    pub fn ok(content: Vec<ContentBlock>) -> (o: Self)
        ensures
            o.content == content,
            o.details is None,
            !o.is_error,
    {
        ToolOutcome { content, details: None, is_error: false }
    }

    /// An error outcome whose only content is the text `msg`.
    pub fn error(msg: String) -> (o: Self)
        ensures
            o.content@.len() == 1,
            o.content@[0] matches ContentBlock::Text { text } && text@ == msg@,
            o.details is None,
            o.is_error,
    {
        let mut content: Vec<ContentBlock> = Vec::new();
        content.push(ContentBlock::Text { text: msg });
        ToolOutcome { content, details: None, is_error: true }
    }
}

/// Errors of the runtime surface shared by models, tools and hooks.
#[derive(Debug)]
pub enum RuntimeError {
    Aborted,
    InvalidInput(String),
    ToolFailed(String),
    ModelFailed(String),
    Other(String),
}

impl Clone for RuntimeError {
    fn clone(&self) -> (c: Self)
        ensures
            c == *self,
    {
        match self {
            RuntimeError::Aborted => RuntimeError::Aborted,
            RuntimeError::InvalidInput(m) => RuntimeError::InvalidInput(m.clone()),
            RuntimeError::ToolFailed(m) => RuntimeError::ToolFailed(m.clone()),
            RuntimeError::ModelFailed(m) => RuntimeError::ModelFailed(m.clone()),
            RuntimeError::Other(m) => RuntimeError::Other(m.clone()),
        }
    }
}

/// The message of a runtime error.
pub open spec fn runtime_error_message(e: RuntimeError) -> Seq<char> {
    match e {
        RuntimeError::Aborted => "aborted"@,
        RuntimeError::InvalidInput(m) => "invalid input: "@ + m@,
        RuntimeError::ToolFailed(m) => "tool failed: "@ + m@,
        RuntimeError::ModelFailed(m) => "model failed: "@ + m@,
        RuntimeError::Other(m) => m@,
    }
}

impl RuntimeError {
    pub fn message(&self) -> (m: String)
        ensures
            m@ == runtime_error_message(*self),
    {
        match self {
            RuntimeError::Aborted => String::from_str("aborted"),
            RuntimeError::InvalidInput(m) => {
                let mut v = chars_of("invalid input: ");
                push_str(&mut v, m.as_str());
                string_of(&v)
            },
            RuntimeError::ToolFailed(m) => {
                let mut v = chars_of("tool failed: ");
                push_str(&mut v, m.as_str());
                string_of(&v)
            },
            RuntimeError::ModelFailed(m) => {
                let mut v = chars_of("model failed: ");
                push_str(&mut v, m.as_str());
                string_of(&v)
            },
            RuntimeError::Other(m) => m.clone(),
        }
    }
}

} // verus!
