//! Agent events as ACP notifications, and stop reasons in ACP's words.

use vstd::prelude::*;
use crate::events::AgentEvent;
use crate::message::{ContentBlock, StopReason};
use crate::text::{push_str, string_of};

verus! {

/// A `session/update` notification.
#[derive(Debug)]
pub enum Notification {
    TextChunk { text: String },
    ThoughtChunk { text: String },
    ToolCall { tool_call_id: String, name: String, input: String },
    ToolCallUpdate { tool_call_id: String, is_error: bool, result: String },
}

/// The notification an event becomes, if any: text and thinking deltas
/// stream as chunks, tool calls (streamed or starting) as tool calls,
/// finished executions as updates; every other event is not surfaced.
pub open spec fn notification_of(e: AgentEvent) -> Option<Notification> {
    match e {
        AgentEvent::MessageDelta { delta, .. } => match delta {
            ContentBlock::Text { text } => Some(Notification::TextChunk { text }),
            ContentBlock::Thinking { text } => Some(Notification::ThoughtChunk { text }),
            ContentBlock::ToolUse { id, name, input } => Some(
                Notification::ToolCall { tool_call_id: id.0, name, input },
            ),
            ContentBlock::Image { .. } => None,
        },
        AgentEvent::ToolExecStart { tool_call_id, name, input } => Some(
            Notification::ToolCall { tool_call_id: tool_call_id.0, name, input },
        ),
        AgentEvent::ToolExecEnd { tool_call_id, is_error, result } => Some(
            Notification::ToolCallUpdate { tool_call_id: tool_call_id.0, is_error, result },
        ),
        _ => None,
    }
}

/// The notification for `e`.
pub fn route_event(e: AgentEvent) -> (r: Option<Notification>)
    ensures
        r == notification_of(e),
{
    match e {
        AgentEvent::MessageDelta { delta, .. } => match delta {
            ContentBlock::Text { text } => Some(Notification::TextChunk { text }),
            ContentBlock::Thinking { text } => Some(Notification::ThoughtChunk { text }),
            ContentBlock::ToolUse { id, name, input } => Some(
                Notification::ToolCall { tool_call_id: id.0, name, input },
            ),
            ContentBlock::Image { .. } => None,
        },
        AgentEvent::ToolExecStart { tool_call_id, name, input } => Some(
            Notification::ToolCall { tool_call_id: tool_call_id.0, name, input },
        ),
        AgentEvent::ToolExecEnd { tool_call_id, is_error, result } => Some(
            Notification::ToolCallUpdate { tool_call_id: tool_call_id.0, is_error, result },
        ),
        _ => None,
    }
}

/// A stop reason in ACP's vocabulary; tool calls are drained inside the
/// loop, so a tool-use stop ends the turn, and an error is a refusal.
pub open spec fn acp_stop_reason_spec(r: StopReason) -> Seq<char> {
    match r {
        StopReason::EndTurn => "end_turn"@,
        StopReason::MaxTokens => "max_tokens"@,
        StopReason::Refusal => "refusal"@,
        StopReason::ToolUse => "end_turn"@,
        StopReason::StopSequence => "end_turn"@,
        StopReason::Error => "refusal"@,
    }
}

/// A stop reason in ACP's words.
pub fn acp_stop_reason(r: StopReason) -> (s: &'static str)
    ensures
        s@ == acp_stop_reason_spec(r),
{
    match r {
        StopReason::EndTurn => "end_turn",
        StopReason::MaxTokens => "max_tokens",
        StopReason::Refusal => "refusal",
        StopReason::ToolUse => "end_turn",
        StopReason::StopSequence => "end_turn",
        StopReason::Error => "refusal",
    }
}

/// The text of a prompt's blocks (`None` for a block that is not text):
/// the texts in order, with a line break before each one that follows
/// non-empty text.
pub open spec fn prompt_text(bs: Seq<Option<String>>) -> Seq<char>
    decreases bs.len(),
{
    if bs.len() == 0 {
        Seq::empty()
    } else {
        let acc = prompt_text(bs.drop_last());
        match bs.last() {
            Some(t) => if acc.len() > 0 {
                acc + seq!['\n'] + t@
            } else {
                t@
            },
            None => acc,
        }
    }
}

/// The text of a prompt.
pub fn extract_text(blocks: &Vec<Option<String>>) -> (s: String)
    ensures
        s@ == prompt_text(blocks@),
{
    let mut out: Vec<char> = Vec::new();
    let mut i: usize = 0;
    while i < blocks.len()
        invariant
            i <= blocks.len(),
            out@ == prompt_text(blocks@.take(i as int)),
        decreases blocks.len() - i,
    {
        proof {
            assert(blocks@.take(i + 1).drop_last() =~= blocks@.take(i as int));
            assert(blocks@.take(i + 1).last() == blocks@[i as int]);
        }
        match &blocks[i] {
            Some(t) => {
                if out.len() > 0 {
                    out.push('\n');
                }
                push_str(&mut out, t.as_str());
            },
            None => {},
        }
        i = i + 1;
        assert(out@ =~= prompt_text(blocks@.take(i as int)));
    }
    assert(blocks@.take(blocks.len() as int) =~= blocks@);
    string_of(&out)
}

} // verus!
