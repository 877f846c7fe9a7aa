//! Assembling one streamed model turn. Text deltas and thinking deltas are
//! each concatenated in arrival order, tool calls are kept in arrival
//! order, the last `MessageStart` names the message and the last
//! `MessageEnd` gives the stop reason and usage.

use vstd::prelude::*;
use crate::message::{
    AgentMessage, ContentBlock, MessageId, ModelChunk, StopReason, TokenUsage, ToolCallId,
};
use crate::text::{chars_of, push_str, string_of};

verus! {

/// A tool call requested by the model; `input` is compact JSON text.
#[derive(Debug)]
pub struct ToolCallRequest {
    pub id: ToolCallId,
    pub name: String,
    pub input: String,
}

impl Clone for ToolCallRequest {
    fn clone(&self) -> (c: Self)
        ensures
            c == *self,
    {
        ToolCallRequest { id: self.id.clone(), name: self.name.clone(), input: self.input.clone() }
    }
}

/// A whole model turn.
#[derive(Debug)]
pub struct AssembledTurn {
    pub message: AgentMessage,
    pub stop_reason: StopReason,
    pub usage: TokenUsage,
    pub tool_calls: Vec<ToolCallRequest>,
}

/// Concatenated text deltas.
pub open spec fn chunks_text(cs: Seq<ModelChunk>) -> Seq<char>
    decreases cs.len(),
{
    if cs.len() == 0 {
        Seq::empty()
    } else {
        chunks_text(cs.drop_last()) + match cs.last() {
            ModelChunk::ContentDelta { delta: ContentBlock::Text { text }, .. } => text@,
            _ => Seq::empty(),
        }
    }
}

/// Concatenated thinking deltas.
pub open spec fn chunks_thinking(cs: Seq<ModelChunk>) -> Seq<char>
    decreases cs.len(),
{
    if cs.len() == 0 {
        Seq::empty()
    } else {
        chunks_thinking(cs.drop_last()) + match cs.last() {
            ModelChunk::ContentDelta { delta: ContentBlock::Thinking { text }, .. } => text@,
            _ => Seq::empty(),
        }
    }
}

/// The tool calls, in order.
pub open spec fn chunks_calls(cs: Seq<ModelChunk>) -> Seq<ToolCallRequest>
    decreases cs.len(),
{
    if cs.len() == 0 {
        Seq::empty()
    } else {
        chunks_calls(cs.drop_last()) + match cs.last() {
            ModelChunk::ContentDelta { delta: ContentBlock::ToolUse { id, name, input }, .. } => seq![
                ToolCallRequest { id, name, input },
            ],
            _ => Seq::empty(),
        }
    }
}

/// The id of the last `MessageStart`.
pub open spec fn chunks_start_id(cs: Seq<ModelChunk>) -> Option<MessageId>
    decreases cs.len(),
{
    if cs.len() == 0 {
        None
    } else {
        match cs.last() {
            ModelChunk::MessageStart { id } => Some(id),
            _ => chunks_start_id(cs.drop_last()),
        }
    }
}

/// The stop reason and usage of the last `MessageEnd`.
pub open spec fn chunks_end(cs: Seq<ModelChunk>) -> Option<(StopReason, TokenUsage)>
    decreases cs.len(),
{
    if cs.len() == 0 {
        None
    } else {
        match cs.last() {
            ModelChunk::MessageEnd { stop_reason, usage, .. } => Some((stop_reason, usage)),
            _ => chunks_end(cs.drop_last()),
        }
    }
}

/// The blocks of an assembled message: the thinking if any, the text if
/// any, then one block per tool call.
pub open spec fn assembled_content(
    c: Seq<ContentBlock>,
    thinking: Seq<char>,
    text: Seq<char>,
    calls: Seq<ToolCallRequest>,
) -> bool {
    let a: int = if thinking.len() > 0 { 1 } else { 0 };
    let b: int = if text.len() > 0 { 1 } else { 0 };
    &&& c.len() == a + b + calls.len()
    &&& a == 1 ==> (c[0] matches ContentBlock::Thinking { text: t } && t@ == thinking)
    &&& b == 1 ==> (c[a] matches ContentBlock::Text { text: t } && t@ == text)
    &&& forall|k: int| 0 <= k < calls.len() ==> #[trigger] c[a + b + k] == (ContentBlock::ToolUse {
        id: calls[k].id,
        name: calls[k].name,
        input: calls[k].input,
    })
}

/// The state of one turn being assembled.
pub struct DefaultConsumer {
    id: Option<MessageId>,
    text: Vec<char>,
    thinking: Vec<char>,
    calls: Vec<ToolCallRequest>,
    end: Option<(StopReason, TokenUsage)>,
    seen: Ghost<Seq<ModelChunk>>,
}

impl DefaultConsumer {
    /// The chunks folded in so far.
    pub closed spec fn chunks(&self) -> Seq<ModelChunk> {
        self.seen@
    }

    /// The text streamed so far.
    pub closed spec fn text_so_far(&self) -> Seq<char> {
        self.text@
    }

    /// The thinking streamed so far.
    pub closed spec fn thinking_so_far(&self) -> Seq<char> {
        self.thinking@
    }

    /// The tool calls streamed so far.
    pub closed spec fn calls_so_far(&self) -> Seq<ToolCallRequest> {
        self.calls@
    }

    /// The id of the latest `MessageStart`.
    pub closed spec fn start_id(&self) -> Option<MessageId> {
        self.id
    }

    /// The stop reason and usage of the latest `MessageEnd`.
    pub closed spec fn end_of(&self) -> Option<(StopReason, TokenUsage)> {
        self.end
    }

    pub closed spec fn wf(&self) -> bool {
        &&& self.id == chunks_start_id(self.seen@)
        &&& self.text@ == chunks_text(self.seen@)
        &&& self.thinking@ == chunks_thinking(self.seen@)
        &&& self.calls@ == chunks_calls(self.seen@)
        &&& self.end == chunks_end(self.seen@)
    }

    pub fn new() -> (a: Self)
        ensures
            a.wf(),
            a.chunks() == Seq::<ModelChunk>::empty(),
            a.text_so_far() == Seq::<char>::empty(),
            a.thinking_so_far() == Seq::<char>::empty(),
            a.calls_so_far() == Seq::<ToolCallRequest>::empty(),
            a.start_id() is None,
            a.end_of() is None,
    {
        DefaultConsumer {
            id: None,
            text: Vec::new(),
            thinking: Vec::new(),
            calls: Vec::new(),
            end: None,
            seen: Ghost(Seq::empty()),
        }
    }

    /// Folds in one chunk.
    pub fn push(&mut self, chunk: &ModelChunk)
        requires
            old(self).wf(),
        ensures
            final(self).wf(),
            final(self).chunks() == old(self).chunks().push(*chunk),
            final(self).thinking_so_far() == old(self).thinking_so_far() + match *chunk {
                ModelChunk::ContentDelta { delta: ContentBlock::Thinking { text }, .. } => text@,
                _ => Seq::<char>::empty(),
            },
            final(self).text_so_far() == old(self).text_so_far() + match *chunk {
                ModelChunk::ContentDelta { delta: ContentBlock::Text { text }, .. } => text@,
                _ => Seq::<char>::empty(),
            },
            final(self).calls_so_far() == old(self).calls_so_far() + match *chunk {
                ModelChunk::ContentDelta { delta: ContentBlock::ToolUse { id, name, input }, .. } => seq![
                    ToolCallRequest { id, name, input },
                ],
                _ => Seq::<ToolCallRequest>::empty(),
            },
            final(self).start_id() == match *chunk {
                ModelChunk::MessageStart { id } => Some(id),
                _ => old(self).start_id(),
            },
            final(self).end_of() == match *chunk {
                ModelChunk::MessageEnd { stop_reason, usage, .. } => Some((stop_reason, usage)),
                _ => old(self).end_of(),
            },
    {
        let ghost before = self.seen@;
        let ghost after = before.push(*chunk);
        proof {
            assert(after.drop_last() =~= before);
            assert(after.last() == *chunk);
        }
        match chunk {
            ModelChunk::MessageStart { id } => {
                self.id = Some(id.clone());
            },
            ModelChunk::ContentDelta { delta, .. } => {
                match delta {
                    ContentBlock::Text { text } => {
                        push_str(&mut self.text, text.as_str());
                    },
                    ContentBlock::Thinking { text } => {
                        push_str(&mut self.thinking, text.as_str());
                    },
                    ContentBlock::ToolUse { id, name, input } => {
                        let r = ToolCallRequest { id: id.clone(), name: name.clone(), input: input.clone() };
                        self.calls.push(r);
                    },
                    ContentBlock::Image { .. } => {},
                }
            },
            ModelChunk::MessageEnd { stop_reason, usage, .. } => {
                self.end = Some((*stop_reason, *usage));
            },
        }
        self.seen = Ghost(after);
        proof {
            assert(self.text@ =~= chunks_text(after));
            assert(self.thinking@ =~= chunks_thinking(after));
            assert(self.calls@ =~= chunks_calls(after));
        }
    }

    /// The assembled turn: the message is an assistant message with the
    /// streamed id (`synthetic` when none came), and the stop reason is
    /// `EndTurn` with zero usage when no `MessageEnd` came.
    pub fn finish(self) -> (t: AssembledTurn)
        requires
            self.wf(),
        ensures
            ({
                let cs = self.chunks();
                let sr = match chunks_end(cs) {
                    Some(e) => e.0,
                    None => StopReason::EndTurn,
                };
                &&& t.stop_reason == sr
                &&& t.usage == match chunks_end(cs) {
                    Some(e) => e.1,
                    None => TokenUsage { input: 0, output: 0 },
                }
                &&& t.tool_calls@ == chunks_calls(cs)
                &&& t.message matches AgentMessage::Assistant { id, content, stop_reason }
                    && stop_reason == Some(sr)
                    && (match chunks_start_id(cs) {
                        Some(i) => id == i,
                        None => id.0@ == "synthetic"@,
                    })
                    && assembled_content(content@, chunks_thinking(cs), chunks_text(cs), chunks_calls(cs))
            }),
            t.message matches AgentMessage::Assistant { content, .. } && assembled_content(
                content@,
                self.thinking_so_far(),
                self.text_so_far(),
                self.calls_so_far(),
            ),
            t.tool_calls@ == self.calls_so_far(),
            t.message matches AgentMessage::Assistant { content, .. } && {
                &&& self.thinking_so_far().len() > 0 ==> (content@[0] matches ContentBlock::Thinking { text }
                    && text@ == self.thinking_so_far())
                &&& self.thinking_so_far().len() == 0 && self.text_so_far().len() > 0 ==> (content@[0] matches ContentBlock::Text { text }
                    && text@ == self.text_so_far())
                &&& self.thinking_so_far().len() > 0 && self.text_so_far().len() > 0 ==> (content@[1] matches ContentBlock::Text { text }
                    && text@ == self.text_so_far())
                &&& content@.len() >= self.calls_so_far().len()
            },
    {
        let mid = match self.id {
            Some(i) => i,
            None => MessageId(String::from_str("synthetic")),
        };
        let (stop_reason, usage) = match self.end {
            Some(e) => e,
            None => (StopReason::EndTurn, TokenUsage::default()),
        };
        let mut content: Vec<ContentBlock> = Vec::new();
        let a: usize = if self.thinking.len() > 0 { 1 } else { 0 };
        let b: usize = if self.text.len() > 0 { 1 } else { 0 };
        if self.thinking.len() > 0 {
            content.push(ContentBlock::Thinking { text: string_of(&self.thinking) });
        }
        if self.text.len() > 0 {
            content.push(ContentBlock::Text { text: string_of(&self.text) });
        }
        let ghost head = content@;
        let mut k: usize = 0;
        while k < self.calls.len()
            invariant
                k <= self.calls.len(),
                content@.len() == a + b + k,
                content@.take((a + b) as int) == head,
                forall|j: int| 0 <= j < k ==> #[trigger] content@[a + b + j] == (ContentBlock::ToolUse {
                    id: self.calls@[j].id,
                    name: self.calls@[j].name,
                    input: self.calls@[j].input,
                }),
            decreases self.calls.len() - k,
        {
            let c = self.calls[k].clone();
            content.push(ContentBlock::ToolUse { id: c.id, name: c.name, input: c.input });
            k = k + 1;
            assert(content@.take((a + b) as int) =~= head);
        }
        proof {
            assert(content@.take((a + b) as int) == head);
            if a == 1 {
                assert(content@[0] == head[0]);
            }
            if b == 1 {
                assert(content@[a as int] == head[a as int]);
            }
        }
        let message = AgentMessage::Assistant { id: mid, content, stop_reason: Some(stop_reason) };
        AssembledTurn { message, stop_reason, usage, tool_calls: self.calls }
    }
}

/// Law: a stream is assembled piecewise. Folding two runs of chunks one
/// after the other gives the text of the first followed by the text of the
/// second, likewise for the thinking and the tool calls, and the id and
/// end of the second run where it has them.
pub proof fn lemma_stream_concat(a: Seq<ModelChunk>, b: Seq<ModelChunk>)
    ensures
        chunks_text(a + b) == chunks_text(a) + chunks_text(b),
        chunks_thinking(a + b) == chunks_thinking(a) + chunks_thinking(b),
        chunks_calls(a + b) == chunks_calls(a) + chunks_calls(b),
        chunks_start_id(a + b) == match chunks_start_id(b) {
            Some(i) => Some(i),
            None => chunks_start_id(a),
        },
        chunks_end(a + b) == match chunks_end(b) {
            Some(e) => Some(e),
            None => chunks_end(a),
        },
    decreases b.len(),
{
    if b.len() == 0 {
        assert(a + b =~= a);
        assert(chunks_text(a) + chunks_text(b) =~= chunks_text(a));
        assert(chunks_thinking(a) + chunks_thinking(b) =~= chunks_thinking(a));
        assert(chunks_calls(a) + chunks_calls(b) =~= chunks_calls(a));
    } else {
        lemma_stream_concat(a, b.drop_last());
        assert((a + b).drop_last() =~= a + b.drop_last());
        assert((a + b).last() == b.last());
        assert(chunks_text(a + b) =~= chunks_text(a) + chunks_text(b));
        assert(chunks_thinking(a + b) =~= chunks_thinking(a) + chunks_thinking(b));
        assert(chunks_calls(a + b) =~= chunks_calls(a) + chunks_calls(b));
    }
}

/// Law: the thinking of a stream is its thinking deltas joined in arrival
/// order: one more thinking delta `t` at the end adds `t` at the end.
pub proof fn lemma_thinking_in_order(cs: Seq<ModelChunk>, id: MessageId, t: String)
    ensures
        chunks_thinking(cs.push(ModelChunk::ContentDelta { id, delta: ContentBlock::Thinking { text: t } }))
            == chunks_thinking(cs) + t@,
        chunks_text(cs.push(ModelChunk::ContentDelta { id, delta: ContentBlock::Text { text: t } }))
            == chunks_text(cs) + t@,
{
    let c1 = ModelChunk::ContentDelta { id, delta: ContentBlock::Thinking { text: t } };
    let c2 = ModelChunk::ContentDelta { id, delta: ContentBlock::Text { text: t } };
    assert(cs.push(c1).drop_last() =~= cs);
    assert(cs.push(c2).drop_last() =~= cs);
}

} // verus!
