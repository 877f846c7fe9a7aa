//! Events the agent loop reports to its sinks. Session and turn ids and
//! timestamps are carried as text; JSON values as compact JSON text.

use vstd::prelude::*;
use crate::message::{AgentMessage, ContentBlock, MessageId, StopReason, ToolCallId};

verus! {

/// One event of a run.
#[derive(Debug)]
pub enum AgentEvent {
    AgentStart { session_id: String, at: String },
    AgentEnd { session_id: String, at: String, reason: StopReason },
    TurnStart { turn_id: String, at: String },
    TurnEnd { turn_id: String, at: String, stop_reason: StopReason },
    MessageStart { message_id: MessageId, turn_id: String },
    MessageDelta { message_id: MessageId, delta: ContentBlock },
    MessageEnd { message_id: MessageId },
    MessageCommitted { message: AgentMessage },
    ToolExecStart { tool_call_id: ToolCallId, name: String, input: String },
    ToolExecUpdate { tool_call_id: ToolCallId, update: String },
    ToolExecEnd { tool_call_id: ToolCallId, is_error: bool, result: String },
    Custom { kind: String, payload: String },
}

} // verus!
