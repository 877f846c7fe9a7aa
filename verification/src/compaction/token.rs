//! Token estimation: the UTF-8 length of the visible text over 4, plus a
//! fixed cost of 32 per tool call and per image.

use vstd::prelude::*;
use crate::message::{content_of, models, AgentMessage, ContentBlock, MessageModel};
use crate::text::utf8_len;

verus! {

/// Characters per token.
pub const CHARS_PER_TOKEN: usize = 4;

/// Bytes of text a block contributes.
pub open spec fn block_chars(b: ContentBlock) -> nat {
    match b {
        ContentBlock::Text { text } => utf8_len(text@),
        ContentBlock::Thinking { text } => utf8_len(text@),
        ContentBlock::ToolUse { name, input, .. } => utf8_len(name@) + utf8_len(input@),
        ContentBlock::Image { .. } => 0,
    }
}

/// The fixed cost a block contributes.
pub open spec fn block_weight(b: ContentBlock) -> nat {
    match b {
        ContentBlock::ToolUse { .. } => 32,
        ContentBlock::Image { .. } => 32,
        _ => 0,
    }
}

/// The characters the blocks contribute to an estimate.
pub open spec fn blocks_chars(bs: Seq<ContentBlock>) -> nat
    decreases bs.len(),
{
    if bs.len() == 0 {
        0
    } else {
        blocks_chars(bs.drop_last()) + block_chars(bs.last())
    }
}

/// The fixed costs the blocks contribute to an estimate.
pub open spec fn blocks_weight(bs: Seq<ContentBlock>) -> nat
    decreases bs.len(),
{
    if bs.len() == 0 {
        0
    } else {
        blocks_weight(bs.drop_last()) + block_weight(bs.last())
    }
}

/// Text bytes over a message list.
pub open spec fn msgs_chars(ms: Seq<MessageModel>) -> nat
    decreases ms.len(),
{
    if ms.len() == 0 {
        0
    } else {
        msgs_chars(ms.drop_last()) + blocks_chars(content_of(ms.last()))
    }
}

/// Fixed costs over a message list.
pub open spec fn msgs_weight(ms: Seq<MessageModel>) -> nat
    decreases ms.len(),
{
    if ms.len() == 0 {
        0
    } else {
        msgs_weight(ms.drop_last()) + blocks_weight(content_of(ms.last()))
    }
}

/// The estimate before it is cast to `u32`.
pub open spec fn token_estimate(ms: Seq<MessageModel>) -> nat {
    msgs_chars(ms) / 4 + msgs_weight(ms)
}

/// Law: estimates add up over a log. The text bytes and the fixed costs
/// of two runs of messages, one after the other, are those of each run
/// added together.
pub proof fn lemma_estimate_additive(a: Seq<MessageModel>, b: Seq<MessageModel>)
    ensures
        msgs_chars(a + b) == msgs_chars(a) + msgs_chars(b),
        msgs_weight(a + b) == msgs_weight(a) + msgs_weight(b),
    decreases b.len(),
{
    if b.len() == 0 {
        assert(a + b =~= a);
    } else {
        lemma_estimate_additive(a, b.drop_last());
        assert((a + b).drop_last() =~= a + b.drop_last());
        assert((a + b).last() == b.last());
    }
}

/// Law: what one more block adds to a message's estimate. A tool call or
/// an image adds exactly 32 to the fixed cost and text and thinking add
/// nothing to it; text and thinking add their UTF-8 length to the text
/// bytes, a tool call the lengths of its name and input, an image nothing.
pub proof fn lemma_block_costs(bs: Seq<ContentBlock>, b: ContentBlock)
    ensures
        blocks_weight(bs.push(b)) == blocks_weight(bs) + if b is ToolUse || b is Image {
            32nat
        } else {
            0nat
        },
        blocks_chars(bs.push(b)) == blocks_chars(bs) + match b {
            ContentBlock::Text { text } => utf8_len(text@),
            ContentBlock::Thinking { text } => utf8_len(text@),
            ContentBlock::ToolUse { name, input, .. } => utf8_len(name@) + utf8_len(input@),
            ContentBlock::Image { .. } => 0nat,
        },
{
    assert(bs.push(b).drop_last() =~= bs);
}

proof fn lemma_msgs_prefix(ms: Seq<MessageModel>, i: int)
    requires
        0 <= i <= ms.len(),
    ensures
        msgs_chars(ms.take(i)) <= msgs_chars(ms),
        msgs_weight(ms.take(i)) <= msgs_weight(ms),
    decreases ms.len(),
{
    if i == ms.len() {
        assert(ms.take(i) =~= ms);
    } else {
        assert(ms.drop_last().take(i) =~= ms.take(i));
        lemma_msgs_prefix(ms.drop_last(), i);
    }
}

proof fn lemma_blocks_prefix(bs: Seq<ContentBlock>, i: int)
    requires
        0 <= i <= bs.len(),
    ensures
        blocks_chars(bs.take(i)) <= blocks_chars(bs),
        blocks_weight(bs.take(i)) <= blocks_weight(bs),
    decreases bs.len(),
{
    if i == bs.len() {
        assert(bs.take(i) =~= bs);
    } else {
        assert(bs.drop_last().take(i) =~= bs.take(i));
        lemma_blocks_prefix(bs.drop_last(), i);
    }
}

/// The estimated token cost of `messages`.
pub fn estimate_tokens(messages: &[AgentMessage]) -> (r: u32)
    requires
        msgs_chars(models(messages@)) + msgs_weight(models(messages@)) <= usize::MAX,
    ensures
        r == token_estimate(models(messages@)) as u32,
{
    let ghost ms = models(messages@);
    let mut chars: usize = 0;
    let mut structural: usize = 0;
    let mut i: usize = 0;
    while i < messages.len()
        invariant
            i <= messages.len(),
            ms == models(messages@),
            msgs_chars(ms) + msgs_weight(ms) <= usize::MAX,
            chars == msgs_chars(ms.take(i as int)),
            structural == msgs_weight(ms.take(i as int)),
        decreases messages.len() - i,
    {
        let m = &messages[i];
        let ghost bs = content_of(m@);
        proof {
            assert(ms.take(i + 1).drop_last() =~= ms.take(i as int));
            assert(ms.take(i + 1).last() == m@);
            lemma_msgs_prefix(ms, i + 1);
        }
        let content: Option<&Vec<ContentBlock>> = match m {
            AgentMessage::User { content, .. } => Some(content),
            AgentMessage::Assistant { content, .. } => Some(content),
            AgentMessage::ToolResult { content, .. } => Some(content),
            AgentMessage::Custom { .. } => None,
        };
        match content {
            Some(c) => {
                assert(c@ == bs);
                let ghost c0 = chars;
                let ghost s0 = structural;
                let mut j: usize = 0;
                while j < c.len()
                    invariant
                        j <= c.len(),
                        c@ == bs,
                        c0 + blocks_chars(bs) + s0 + blocks_weight(bs) <= usize::MAX,
                        chars == c0 + blocks_chars(bs.take(j as int)),
                        structural == s0 + blocks_weight(bs.take(j as int)),
                    decreases c.len() - j,
                {
                    proof {
                        assert(bs.take(j + 1).drop_last() =~= bs.take(j as int));
                        assert(bs.take(j + 1).last() == bs[j as int]);
                        lemma_blocks_prefix(bs, j + 1);
                    }
                    match &c[j] {
                        ContentBlock::Text { text } => {
                            chars = chars + text.as_str().len();
                        },
                        ContentBlock::Thinking { text } => {
                            chars = chars + text.as_str().len();
                        },
                        ContentBlock::ToolUse { name, input, .. } => {
                            chars = chars + name.as_str().len();
                            chars = chars + input.as_str().len();
                            structural = structural + 32;
                        },
                        ContentBlock::Image { .. } => {
                            structural = structural + 32;
                        },
                    }
                    j = j + 1;
                }
                assert(bs.take(c.len() as int) =~= bs);
            },
            None => {
                assert(bs.len() == 0);
            },
        }
        i = i + 1;
    }
    assert(ms.take(messages.len() as int) =~= ms);
    ((chars / CHARS_PER_TOKEN) + structural) as u32
}

} // verus!
