//! Planning a compaction: whether it fires, where the conversation is cut,
//! how the head is written out for the summarizer, and what the marker
//! records once the summary is back.

use vstd::prelude::*;
use crate::compaction::config::CompactionConfig;
use crate::compaction::marker::{CompactionMarker, CompactionTrigger, FileRef};
use crate::compaction::token::{estimate_tokens, msgs_chars, msgs_weight, token_estimate};
use crate::agent::accumulator::{chunks_text, lemma_stream_concat};
use crate::ids::{fresh_id, is_fresh_id};
use crate::json::{json_str_member, str_member};
use crate::message::{
    content_of, is_turn, model_id, model_visible, models, AgentMessage, ContentBlock, MessageId,
    MessageModel, ModelChunk, RuntimeError, ToolCallId,
};
use crate::text::{chars_of, push_chars, push_str, slice_chars, str_eq, string_of, utf8_len};

verus! {

/// Where the conversation is cut: the head before `head_count` is
/// summarised, the tail from it is kept.
#[derive(Debug)]
pub struct CutPoint {
    /// The last visible message of the head.
    pub covers_up_to: MessageId,
    /// The first message of the tail.
    pub kept_tail_start: MessageId,
    pub head_count: usize,
}

/// A compaction that fires, before the summary is written.
#[derive(Debug)]
pub struct CompactionPlan {
    pub trigger: CompactionTrigger,
    pub cut: CutPoint,
    /// The head written out for the summarizer.
    pub head_text: String,
}

// ---------------------------------------------------------------------------
// The cut
// ---------------------------------------------------------------------------

/// Walking back from `end`, the index of the `need`-th turn (the first one
/// when `need` is 0), or `ms.len()` when there are not that many.
pub open spec fn tail_cut(ms: Seq<MessageModel>, end: nat, need: nat) -> nat
    decreases end,
{
    if end == 0 || end > ms.len() {
        ms.len()
    } else if is_turn(ms[end - 1]) {
        if need <= 1 {
            (end - 1) as nat
        } else {
            tail_cut(ms, (end - 1) as nat, (need - 1) as nat)
        }
    } else {
        tail_cut(ms, (end - 1) as nat, need)
    }
}

/// The last visible message before `end`.
pub open spec fn last_visible(ms: Seq<MessageModel>, end: nat) -> Option<nat>
    decreases end,
{
    if end == 0 || end > ms.len() {
        None
    } else if model_visible(ms[end - 1]) {
        Some((end - 1) as nat)
    } else {
        last_visible(ms, (end - 1) as nat)
    }
}

/// The cut: the tail keeps the last `recent` turns; there is none when
/// there are not that many turns before the first message, when the
/// conversation is no longer than `min`, or when the head has no visible
/// message.
pub open spec fn cut_of(ms: Seq<MessageModel>, recent: nat, min: nat) -> Option<(MessageId, MessageId, nat)> {
    let t = tail_cut(ms, ms.len(), recent);
    if t >= ms.len() || t == 0 || ms.len() <= min {
        None
    } else {
        match last_visible(ms, t) {
            None => None,
            Some(v) => Some((model_id(ms[v as int]), model_id(ms[t as int]), t)),
        }
    }
}

/// The number of turns among `ms[from..end]`.
pub open spec fn turns_in(ms: Seq<MessageModel>, from: int, end: int) -> nat
    decreases end - from,
{
    if end <= from {
        0
    } else {
        turns_in(ms, from, end - 1) + if is_turn(ms[end - 1]) {
            1nat
        } else {
            0nat
        }
    }
}

proof fn lemma_tail_cut_counts(ms: Seq<MessageModel>, end: nat, need: nat)
    requires
        end <= ms.len(),
        tail_cut(ms, end, need) < ms.len(),
    ensures
        tail_cut(ms, end, need) < end,
        is_turn(ms[tail_cut(ms, end, need) as int]),
        turns_in(ms, tail_cut(ms, end, need) as int, end as int) == (if need == 0 {
            1
        } else {
            need
        }),
    decreases end,
{
    let t = tail_cut(ms, end, need);
    if end > 0 {
        if is_turn(ms[end - 1]) {
            if need <= 1 {
                assert(turns_in(ms, t as int, t as int) == 0);
            } else {
                lemma_tail_cut_counts(ms, (end - 1) as nat, (need - 1) as nat);
            }
        } else {
            lemma_tail_cut_counts(ms, (end - 1) as nat, need);
        }
    }
}

proof fn lemma_last_visible(ms: Seq<MessageModel>, end: nat)
    requires
        end <= ms.len(),
        last_visible(ms, end) is Some,
    ensures
        last_visible(ms, end)->0 < end,
        model_visible(ms[last_visible(ms, end)->0 as int]),
        forall|w: int| last_visible(ms, end)->0 < w < end ==> !model_visible(#[trigger] ms[w]),
    decreases end,
{
    if end > 0 && !model_visible(ms[end - 1]) {
        lemma_last_visible(ms, (end - 1) as nat);
    }
}

/// Law: a cut keeps the recent turns intact. The kept tail starts at a turn
/// and holds exactly `recent` turns (one when `recent` is 0), the head it
/// leaves to the summary is not empty, and the summary covers up to the
/// last visible message of the head.
pub proof fn lemma_cut_keeps_recent_turns(ms: Seq<MessageModel>, recent: nat, min: nat)
    requires
        cut_of(ms, recent, min) is Some,
    ensures
        ({
            let (covers, start, t) = cut_of(ms, recent, min)->0;
            &&& 0 < t < ms.len()
            &&& ms.len() > min
            &&& is_turn(ms[t as int])
            &&& start == model_id(ms[t as int])
            &&& turns_in(ms, t as int, ms.len() as int) == (if recent == 0 {
                1
            } else {
                recent
            })
            &&& exists|v: int|
                0 <= v < t && model_visible(ms[v]) && covers == model_id(ms[v]) && forall|w: int|
                    v < w < t ==> !model_visible(#[trigger] ms[w])
        }),
{
    let t = tail_cut(ms, ms.len(), recent);
    lemma_tail_cut_counts(ms, ms.len(), recent);
    lemma_last_visible(ms, t);
    let v = last_visible(ms, t)->0;
    let cut = cut_of(ms, recent, min)->0;
    assert(0 <= v < t && model_visible(ms[v as int]) && cut.0 == model_id(ms[v as int]));
}

fn message_is_turn(m: &AgentMessage) -> (b: bool)
    ensures
        b == is_turn(m@),
{
    match m {
        AgentMessage::User { .. } => true,
        AgentMessage::Assistant { .. } => true,
        _ => false,
    }
}

/// Picks the cut (see `cut_of`).
pub fn pick_cut(messages: &Vec<AgentMessage>, recent_turns_to_keep: usize, min_turns_to_keep: usize) -> (r:
    Option<CutPoint>)
    ensures
        match cut_of(models(messages@), recent_turns_to_keep as nat, min_turns_to_keep as nat) {
            None => r is None,
            Some(c) => r matches Some(p) && p.covers_up_to == c.0 && p.kept_tail_start == c.1
                && p.head_count == c.2,
        },
{
    let ghost ms = models(messages@);
    let n = messages.len();
    let recent = recent_turns_to_keep;
    let mut count: usize = 0;
    let mut tail: usize = n;
    let mut k: usize = n;
    let mut done = false;
    while k > 0 && !done
        invariant
            k <= n,
            n == messages.len(),
            ms == models(messages@),
            count <= n - k,
            !done ==> tail == n && (count < recent || count == 0) && tail_cut(ms, n as nat, recent as nat)
                == tail_cut(ms, k as nat, (recent - count) as nat),
            done ==> tail == tail_cut(ms, n as nat, recent as nat) && tail < n,
        decreases k,
    {
        let i = k - 1;
        assert(ms[i as int] == messages@[i as int]@);
        if message_is_turn(&messages[i]) {
            count = count + 1;
            if count >= recent {
                tail = i;
                done = true;
            }
        }
        k = i;
    }
    assert(tail == tail_cut(ms, n as nat, recent as nat));
    if tail >= n || tail == 0 {
        return None;
    }
    if n <= min_turns_to_keep {
        return None;
    }
    let mut j: usize = tail;
    while j > 0
        invariant
            j <= tail < n,
            0 < tail,
            n > min_turns_to_keep,
            n == messages.len(),
            ms == models(messages@),
            tail == tail_cut(ms, n as nat, recent_turns_to_keep as nat),
            last_visible(ms, tail as nat) == last_visible(ms, j as nat),
        decreases j,
    {
        assert(ms[j - 1] == messages@[j - 1]@);
        if messages[j - 1].visible_to_model() {
            let covers_up_to = messages[j - 1].id().clone();
            let kept_tail_start = messages[tail].id().clone();
            proof {
                assert(last_visible(ms, j as nat) == Some((j - 1) as nat));
                assert(ms[tail as int] == messages@[tail as int]@);
                assert(model_id(ms[j - 1]) == covers_up_to);
                assert(model_id(ms[tail as int]) == kept_tail_start);
            }
            return Some(CutPoint { covers_up_to, kept_tail_start, head_count: tail });
        }
        j = j - 1;
    }
    None
}

// ---------------------------------------------------------------------------
// The head as text
// ---------------------------------------------------------------------------

/// The text blocks of `bs`, concatenated.
pub open spec fn plain_text(bs: Seq<ContentBlock>) -> Seq<char>
    decreases bs.len(),
{
    if bs.len() == 0 {
        Seq::empty()
    } else {
        plain_text(bs.drop_last()) + match bs.last() {
            ContentBlock::Text { text } => text@,
            _ => Seq::empty(),
        }
    }
}

/// `TOOL_CALL {name} {input}` lines for the tool calls of `bs`.
pub open spec fn calls_text(bs: Seq<ContentBlock>) -> Seq<char>
    decreases bs.len(),
{
    if bs.len() == 0 {
        Seq::empty()
    } else {
        calls_text(bs.drop_last()) + match bs.last() {
            ContentBlock::ToolUse { name, input, .. } => "TOOL_CALL "@ + name@ + seq![' '] + input@ + seq!['\n'],
            _ => Seq::empty(),
        }
    }
}

/// A tool result's text, cut to `max` characters with a marker when
/// longer.
pub open spec fn capped_result(t: Seq<char>, max: nat) -> Seq<char> {
    if t.len() > max {
        t.take(max as int) + "…[truncated]"@
    } else {
        t
    }
}

/// One message as the summarizer reads it.
pub open spec fn message_text(m: MessageModel, max: nat) -> Seq<char> {
    match m {
        MessageModel::User { content, .. } => "USER: "@ + plain_text(content) + seq!['\n'],
        MessageModel::Assistant { content, .. } => (if plain_text(content).len() > 0 {
            "ASSISTANT: "@ + plain_text(content) + seq!['\n']
        } else {
            Seq::empty()
        }) + calls_text(content),
        MessageModel::ToolResult { content, is_error, .. } => (if is_error {
            "TOOL_ERROR"@
        } else {
            "TOOL_RESULT"@
        }) + ": "@ + capped_result(plain_text(content), max) + seq!['\n'],
        MessageModel::Custom { .. } => Seq::empty(),
    }
}

/// The head as the summarizer reads it.
pub open spec fn head_text(ms: Seq<MessageModel>, max: nat) -> Seq<char>
    decreases ms.len(),
{
    if ms.len() == 0 {
        Seq::empty()
    } else {
        head_text(ms.drop_last(), max) + message_text(ms.last(), max)
    }
}

fn push_plain(out: &mut Vec<char>, bs: &Vec<ContentBlock>)
    ensures
        final(out)@ == old(out)@ + plain_text(bs@),
{
    let ghost start = out@;
    let mut i: usize = 0;
    while i < bs.len()
        invariant
            i <= bs.len(),
            out@ == start + plain_text(bs@.take(i as int)),
        decreases bs.len() - i,
    {
        proof {
            assert(bs@.take(i + 1).drop_last() =~= bs@.take(i as int));
            assert(bs@.take(i + 1).last() == bs@[i as int]);
        }
        match &bs[i] {
            ContentBlock::Text { text } => {
                push_str(out, text.as_str());
            },
            _ => {},
        }
        i = i + 1;
        assert(out@ =~= start + plain_text(bs@.take(i as int)));
    }
    assert(bs@.take(bs.len() as int) =~= bs@);
}

fn push_calls(out: &mut Vec<char>, bs: &Vec<ContentBlock>)
    ensures
        final(out)@ == old(out)@ + calls_text(bs@),
{
    let ghost start = out@;
    let mut i: usize = 0;
    while i < bs.len()
        invariant
            i <= bs.len(),
            out@ == start + calls_text(bs@.take(i as int)),
        decreases bs.len() - i,
    {
        proof {
            assert(bs@.take(i + 1).drop_last() =~= bs@.take(i as int));
            assert(bs@.take(i + 1).last() == bs@[i as int]);
        }
        match &bs[i] {
            ContentBlock::ToolUse { name, input, .. } => {
                push_str(out, "TOOL_CALL ");
                push_str(out, name.as_str());
                out.push(' ');
                push_str(out, input.as_str());
                out.push('\n');
            },
            _ => {},
        }
        i = i + 1;
        assert(out@ =~= start + calls_text(bs@.take(i as int)));
    }
    assert(bs@.take(bs.len() as int) =~= bs@);
}

/// The first `head_count` messages written out for the summarizer: user
/// text, assistant text and tool calls, and tool results cut to
/// `max_chars` characters.
pub fn serialize_head(messages: &Vec<AgentMessage>, head_count: usize, max_chars: usize) -> (s: String)
    requires
        head_count <= messages.len(),
    ensures
        s@ == head_text(models(messages@).take(head_count as int), max_chars as nat),
{
    let ghost ms = models(messages@).take(head_count as int);
    let mut out: Vec<char> = Vec::new();
    let mut i: usize = 0;
    while i < head_count
        invariant
            i <= head_count <= messages.len(),
            ms == models(messages@).take(head_count as int),
            out@ == head_text(ms.take(i as int), max_chars as nat),
        decreases head_count - i,
    {
        proof {
            assert(ms.take(i + 1).drop_last() =~= ms.take(i as int));
            assert(ms.take(i + 1).last() == messages@[i as int]@);
            assert(ms[i as int] == messages@[i as int]@);
        }
        let ghost before = out@;
        match &messages[i] {
            AgentMessage::User { content, .. } => {
                push_str(&mut out, "USER: ");
                push_plain(&mut out, content);
                out.push('\n');
            },
            AgentMessage::Assistant { content, .. } => {
                let mut t: Vec<char> = Vec::new();
                push_plain(&mut t, content);
                if t.len() > 0 {
                    push_str(&mut out, "ASSISTANT: ");
                    push_chars(&mut out, &t);
                    out.push('\n');
                }
                push_calls(&mut out, content);
            },
            AgentMessage::ToolResult { content, is_error, .. } => {
                if *is_error {
                    push_str(&mut out, "TOOL_ERROR");
                } else {
                    push_str(&mut out, "TOOL_RESULT");
                }
                push_str(&mut out, ": ");
                let mut t: Vec<char> = Vec::new();
                push_plain(&mut t, content);
                if t.len() > max_chars {
                    let p = slice_chars(&t, 0, max_chars);
                    assert(p@ =~= t@.take(max_chars as int));
                    push_chars(&mut out, &p);
                    push_str(&mut out, "…[truncated]");
                } else {
                    push_chars(&mut out, &t);
                }
                out.push('\n');
            },
            AgentMessage::Custom { .. } => {},
        }
        i = i + 1;
        assert(out@ =~= head_text(ms.take(i as int), max_chars as nat));
    }
    assert(ms.take(head_count as int) =~= ms);
    string_of(&out)
}

// ---------------------------------------------------------------------------
// What the marker records of the head
// ---------------------------------------------------------------------------

/// The operation a file tool stands for.
pub open spec fn op_of(name: Seq<char>) -> Option<Seq<char>> {
    if name == "read_file"@ {
        Some("read"@)
    } else if name == "write_file"@ {
        Some("write"@)
    } else if name == "edit_file"@ {
        Some("edit"@)
    } else {
        None
    }
}

/// The file a tool-call block touched, as `(path, op)`.
pub open spec fn block_refs(b: ContentBlock) -> Seq<(Seq<char>, Seq<char>)> {
    match b {
        ContentBlock::ToolUse { name, input, .. } => match json_str_member(input@, "path"@) {
            Some(p) => match op_of(name@) {
                Some(op) => seq![(p, op)],
                None => Seq::empty(),
            },
            None => Seq::empty(),
        },
        _ => Seq::empty(),
    }
}

/// The file references of the tool calls among `bs`, in order.
pub open spec fn blocks_refs(bs: Seq<ContentBlock>) -> Seq<(Seq<char>, Seq<char>)>
    decreases bs.len(),
{
    if bs.len() == 0 {
        Seq::empty()
    } else {
        blocks_refs(bs.drop_last()) + block_refs(bs.last())
    }
}

/// The files the assistant's tool calls in `ms` touched, in order.
pub open spec fn file_refs_of(ms: Seq<MessageModel>) -> Seq<(Seq<char>, Seq<char>)>
    decreases ms.len(),
{
    if ms.len() == 0 {
        Seq::empty()
    } else {
        file_refs_of(ms.drop_last()) + match ms.last() {
            MessageModel::Assistant { content, .. } => blocks_refs(content),
            _ => Seq::empty(),
        }
    }
}

/// The tool calls among `bs`.
pub open spec fn calls_in(bs: Seq<ContentBlock>) -> nat
    decreases bs.len(),
{
    if bs.len() == 0 {
        0
    } else {
        calls_in(bs.drop_last()) + if bs.last() is ToolUse { 1nat } else { 0nat }
    }
}

/// The tool calls the assistant made in `ms`.
pub open spec fn calls_of(ms: Seq<MessageModel>) -> nat
    decreases ms.len(),
{
    if ms.len() == 0 {
        0
    } else {
        calls_of(ms.drop_last()) + match ms.last() {
            MessageModel::Assistant { content, .. } => calls_in(content),
            _ => 0nat,
        }
    }
}

/// The user and assistant messages in `ms`.
pub open spec fn turns_of(ms: Seq<MessageModel>) -> nat
    decreases ms.len(),
{
    if ms.len() == 0 {
        0
    } else {
        turns_of(ms.drop_last()) + if is_turn(ms.last()) { 1nat } else { 0nat }
    }
}

/// Views of file refs.
pub open spec fn refs_view(v: Seq<FileRef>) -> Seq<(Seq<char>, Seq<char>)> {
    v.map_values(|r: FileRef| (r.path@, r.op@))
}

/// How each tool name is recorded, said name by name: `read_file` reads,
/// `write_file` writes, `edit_file` edits, and no other tool touches a
/// file.
pub open spec fn file_op_named(name: Seq<char>, r: Option<&'static str>) -> bool {
    &&& name == "read_file"@ ==> (r matches Some(s) && s@ == "read"@)
    &&& name == "write_file"@ ==> (r matches Some(s) && s@ == "write"@)
    &&& name == "edit_file"@ ==> (r matches Some(s) && s@ == "edit"@)
    &&& (name != "read_file"@ && name != "write_file"@ && name != "edit_file"@) ==> r is None
}

/// The file ref a call of tool `name` with path `p` yields, said name by
/// name.
pub open spec fn file_ref_named(name: Seq<char>, p: Seq<char>, r: Option<FileRef>) -> bool {
    &&& name == "read_file"@ ==> (r matches Some(f) && f.path@ == p && f.op@ == "read"@)
    &&& name == "write_file"@ ==> (r matches Some(f) && f.path@ == p && f.op@ == "write"@)
    &&& name == "edit_file"@ ==> (r matches Some(f) && f.path@ == p && f.op@ == "edit"@)
    &&& (name != "read_file"@ && name != "write_file"@ && name != "edit_file"@) ==> r is None
}

/// Law: a tool call in the summarised head contributes its file to the
/// marker exactly when it reads, writes or edits a file and names a string
/// `path`: `(path, "read")`, `(path, "write")` or `(path, "edit")`; any
/// other call contributes nothing.
pub proof fn lemma_file_tool_refs(id: ToolCallId, name: String, input: String)
    ensures
        ({
            let b = ContentBlock::ToolUse { id, name, input };
            match json_str_member(input@, "path"@) {
                Some(p) => {
                    &&& name@ == "read_file"@ ==> block_refs(b) == seq![(p, "read"@)]
                    &&& name@ == "write_file"@ ==> block_refs(b) == seq![(p, "write"@)]
                    &&& name@ == "edit_file"@ ==> block_refs(b) == seq![(p, "edit"@)]
                    &&& (name@ != "read_file"@ && name@ != "write_file"@ && name@ != "edit_file"@) ==> block_refs(b).len() == 0
                },
                None => block_refs(b).len() == 0,
            }
        }),
{
    lemma_file_tool_names();
}

/// The three file tools have distinct names.
proof fn lemma_file_tool_names()
    ensures
        "read_file"@ != "write_file"@,
        "read_file"@ != "edit_file"@,
        "write_file"@ != "edit_file"@,
{
    reveal_strlit("read_file");
    reveal_strlit("write_file");
    reveal_strlit("edit_file");
    assert("read_file"@[0] != "write_file"@[0]);
    assert("read_file"@[0] != "edit_file"@[0]);
    assert("write_file"@[0] != "edit_file"@[0]);
}

fn op_for(name: &str) -> (r: Option<&'static str>)
    ensures
        match op_of(name@) {
            Some(op) => r matches Some(s) && s@ == op,
            None => r is None,
        },
        file_op_named(name@, r),
{
    proof {
        lemma_file_tool_names();
    }
    if str_eq(name, "read_file") {
        Some("read")
    } else if str_eq(name, "write_file") {
        Some("write")
    } else if str_eq(name, "edit_file") {
        Some("edit")
    } else {
        None
    }
}

/// The file a tool call named `name` touched, given the string `path`
/// member of its arguments (`member`, `None` when there is none): a ref
/// with the call's operation when the tool reads, writes or edits files
/// and the member is there.
pub fn file_ref_of(name: &str, member: Option<String>) -> (r: Option<FileRef>)
    ensures
        match (member, op_of(name@)) {
            (Some(p), Some(op)) => r matches Some(f) && f.path@ == p@ && f.op@ == op,
            _ => r is None,
        },
        member is None ==> r is None,
        member is Some ==> file_ref_named(name@, member->Some_0@, r),
{
    match member {
        Some(p) => match op_for(name) {
            Some(op) => Some(FileRef { path: p, op: String::from_str(op) }),
            None => None,
        },
        None => None,
    }
}

/// The files the assistant's tool calls among the first `head_count`
/// messages touched: `read_file`, `write_file` and `edit_file` calls with
/// a string `path` argument.
pub fn extract_file_refs(messages: &Vec<AgentMessage>, head_count: usize) -> (r: Vec<FileRef>)
    requires
        head_count <= messages.len(),
    ensures
        refs_view(r@) == file_refs_of(models(messages@).take(head_count as int)),
{
    let ghost ms = models(messages@).take(head_count as int);
    let mut refs: Vec<FileRef> = Vec::new();
    let mut i: usize = 0;
    while i < head_count
        invariant
            i <= head_count <= messages.len(),
            ms == models(messages@).take(head_count as int),
            refs_view(refs@) == file_refs_of(ms.take(i as int)),
        decreases head_count - i,
    {
        proof {
            assert(ms.take(i + 1).drop_last() =~= ms.take(i as int));
            assert(ms.take(i + 1).last() == messages@[i as int]@);
        }
        let ghost before = refs_view(refs@);
        match &messages[i] {
            AgentMessage::Assistant { content, .. } => {
                let ghost bs = content@;
                let mut j: usize = 0;
                while j < content.len()
                    invariant
                        j <= content.len(),
                        bs == content@,
                        refs_view(refs@) == before + blocks_refs(bs.take(j as int)),
                    decreases content.len() - j,
                {
                    proof {
                        assert(bs.take(j + 1).drop_last() =~= bs.take(j as int));
                        assert(bs.take(j + 1).last() == bs[j as int]);
                    }
                    match &content[j] {
                        ContentBlock::ToolUse { name, input, .. } => {
                            let member = str_member(input.as_str(), "path");
                            proof {
                                reveal_strlit("path");
                            }
                            match file_ref_of(name.as_str(), member) {
                                Some(f) => {
                                    let ghost fv = (f.path@, f.op@);
                                    refs.push(f);
                                    assert(refs_view(refs@) =~= before + blocks_refs(bs.take(j as int)) + seq![fv]);
                                },
                                None => {},
                            }
                        },
                        _ => {},
                    }
                    j = j + 1;
                    assert(refs_view(refs@) =~= before + blocks_refs(bs.take(j as int)));
                }
                assert(bs.take(content.len() as int) =~= bs);
            },
            _ => {},
        }
        i = i + 1;
        assert(refs_view(refs@) =~= file_refs_of(ms.take(i as int)));
    }
    assert(ms.take(head_count as int) =~= ms);
    refs
}

proof fn lemma_calls_in_prefix(bs: Seq<ContentBlock>, i: int)
    requires
        0 <= i <= bs.len(),
    ensures
        calls_in(bs.take(i)) <= calls_in(bs),
    decreases bs.len(),
{
    if i == bs.len() {
        assert(bs.take(i) =~= bs);
    } else {
        assert(bs.drop_last().take(i) =~= bs.take(i));
        lemma_calls_in_prefix(bs.drop_last(), i);
    }
}

proof fn lemma_calls_prefix(ms: Seq<MessageModel>, i: int)
    requires
        0 <= i <= ms.len(),
    ensures
        calls_of(ms.take(i)) <= calls_of(ms),
    decreases ms.len(),
{
    if i == ms.len() {
        assert(ms.take(i) =~= ms);
    } else {
        assert(ms.drop_last().take(i) =~= ms.take(i));
        lemma_calls_prefix(ms.drop_last(), i);
    }
}

/// The number of tool calls the assistant made among the first
/// `head_count` messages, and the number of user and assistant messages
/// among them.
pub fn head_counts(messages: &Vec<AgentMessage>, head_count: usize) -> (r: (usize, usize))
    requires
        head_count <= messages.len(),
        calls_of(models(messages@).take(head_count as int)) <= usize::MAX,
    ensures
        r.0 == calls_of(models(messages@).take(head_count as int)),
        r.1 == turns_of(models(messages@).take(head_count as int)),
{
    let ghost ms = models(messages@).take(head_count as int);
    let mut calls: usize = 0;
    let mut turns: usize = 0;
    let mut i: usize = 0;
    while i < head_count
        invariant
            i <= head_count <= messages.len(),
            ms == models(messages@).take(head_count as int),
            calls == calls_of(ms.take(i as int)),
            turns == turns_of(ms.take(i as int)),
            turns <= i,
            calls_of(ms) <= usize::MAX,
        decreases head_count - i,
    {
        proof {
            assert(ms.take(i + 1).drop_last() =~= ms.take(i as int));
            assert(ms.take(i + 1).last() == messages@[i as int]@);
        }
        match &messages[i] {
            AgentMessage::Assistant { content, .. } => {
                let ghost bs = content@;
                let ghost c0 = calls;
                proof {
                    lemma_calls_prefix(ms, i + 1);
                    assert(calls_of(ms.take(i + 1)) == c0 + calls_in(bs));
                }
                let mut j: usize = 0;
                while j < content.len()
                    invariant
                        j <= content.len(),
                        bs == content@,
                        calls == c0 + calls_in(bs.take(j as int)),
                        c0 + calls_in(bs) <= usize::MAX,
                    decreases content.len() - j,
                {
                    proof {
                        assert(bs.take(j + 1).drop_last() =~= bs.take(j as int));
                        assert(bs.take(j + 1).last() == bs[j as int]);
                        lemma_calls_in_prefix(bs, j + 1);
                    }
                    match &content[j] {
                        ContentBlock::ToolUse { .. } => {
                            calls = calls + 1;
                        },
                        _ => {},
                    }
                    j = j + 1;
                }
                assert(bs.take(content.len() as int) =~= bs);
                turns = turns + 1;
            },
            AgentMessage::User { .. } => {
                turns = turns + 1;
            },
            _ => {},
        }
        i = i + 1;
    }
    assert(ms.take(head_count as int) =~= ms);
    (calls, turns)
}

// ---------------------------------------------------------------------------
// Firing and recording
// ---------------------------------------------------------------------------

/// The trigger for an estimate: none below the threshold, an emergency
/// at or above the critical level, automatic in between.
pub open spec fn trigger_of(est: u32, threshold: u32, critical: u32) -> Option<CompactionTrigger> {
    if est < threshold {
        None
    } else if est >= critical {
        Some(CompactionTrigger::Emergency)
    } else {
        Some(CompactionTrigger::AutoThreshold)
    }
}

/// `char::is_whitespace`: the Unicode `White_Space` characters.
pub open spec fn is_white_space(c: char) -> bool {
    ||| c == '\t' || c == '\n' || c == '\u{0B}' || c == '\u{0C}' || c == '\r' || c == ' '
    ||| c == '\u{85}' || c == '\u{A0}' || c == '\u{1680}'
    ||| ('\u{2000}' <= c && c <= '\u{200A}')
    ||| c == '\u{2028}' || c == '\u{2029}' || c == '\u{202F}' || c == '\u{205F}' || c == '\u{3000}'
}

/// Is `s` empty once trimmed?
pub open spec fn blank(s: Seq<char>) -> bool {
    forall|i: int| 0 <= i < s.len() ==> is_white_space(#[trigger] s[i])
}

/// Is `c` white space (`char::is_whitespace`)?
pub fn white_space_char(c: char) -> (b: bool)
    ensures
        b == is_white_space(c),
{
    c == '\t' || c == '\n' || c == '\u{0B}' || c == '\u{0C}' || c == '\r' || c == ' ' || c == '\u{85}'
        || c == '\u{A0}' || c == '\u{1680}' || ('\u{2000}' <= c && c <= '\u{200A}') || c == '\u{2028}'
        || c == '\u{2029}' || c == '\u{202F}' || c == '\u{205F}' || c == '\u{3000}'
}

fn is_blank(s: &str) -> (b: bool)
    ensures
        b == blank(s@),
{
    let v = chars_of(s);
    let mut i: usize = 0;
    while i < v.len()
        invariant
            i <= v.len(),
            v@ == s@,
            forall|j: int| 0 <= j < i ==> is_white_space(#[trigger] v@[j]),
        decreases v.len() - i,
    {
        if !white_space_char(v[i]) {
            return false;
        }
        i = i + 1;
    }
    true
}

/// The trigger for an estimate under `cfg`.
pub fn trigger_for(est: u32, cfg: &CompactionConfig) -> (t: Option<CompactionTrigger>)
    ensures
        t == trigger_of(est, cfg.threshold_tokens, cfg.critical_tokens),
        t is None <==> est < cfg.threshold_tokens,
        est >= cfg.threshold_tokens && est >= cfg.critical_tokens ==> t == Some(CompactionTrigger::Emergency),
        est >= cfg.threshold_tokens && est < cfg.critical_tokens ==> t == Some(
            CompactionTrigger::AutoThreshold,
        ),
{
    if est < cfg.threshold_tokens {
        None
    } else if est >= cfg.critical_tokens {
        Some(CompactionTrigger::Emergency)
    } else {
        Some(CompactionTrigger::AutoThreshold)
    }
}

/// Decides whether a summarising compaction fires and, when it does, cuts
/// the conversation and writes out its head for the summarizer. At the
/// emergency level there is no summarisation: `emergency_drop` thins the
/// payload instead.
pub fn plan_compaction(messages: &Vec<AgentMessage>, cfg: &CompactionConfig) -> (r: Option<CompactionPlan>)
    requires
        msgs_chars(models(messages@)) + msgs_weight(models(messages@)) <= usize::MAX,
    ensures
        ({
            let ms = models(messages@);
            let est = token_estimate(ms) as u32;
            let cut = cut_of(ms, cfg.recent_turns_to_keep as nat, cfg.min_turns_to_keep as nat);
            match trigger_of(est, cfg.threshold_tokens, cfg.critical_tokens) {
                None => r is None,
                Some(CompactionTrigger::Emergency) => r is None,
                Some(t) => match cut {
                    None => r is None,
                    Some(c) => r matches Some(p) && p.trigger == t && p.cut.covers_up_to == c.0
                        && p.cut.kept_tail_start == c.1 && p.cut.head_count == c.2
                        && p.head_text@ == head_text(
                        ms.take(c.2 as int),
                        cfg.emergency_tool_result_max_chars as nat,
                    ),
                },
            }
        }),
{
    let est = estimate_tokens(messages.as_slice());
    let trigger = match trigger_for(est, cfg) {
        Some(CompactionTrigger::Emergency) => {
            return None;
        },
        Some(t) => t,
        None => {
            return None;
        },
    };
    let cut = match pick_cut(messages, cfg.recent_turns_to_keep, cfg.min_turns_to_keep) {
        Some(c) => c,
        None => {
            return None;
        },
    };
    let head_text = serialize_head(messages, cut.head_count, cfg.emergency_tool_result_max_chars);
    Some(CompactionPlan { trigger, cut, head_text })
}

/// The index of the oldest message of `ms` that is not a user message.
pub open spec fn oldest_non_user(ms: Seq<MessageModel>) -> Option<int>
    decreases ms.len(),
{
    if ms.len() == 0 {
        None
    } else if !(ms[0] is User) {
        Some(0)
    } else {
        match oldest_non_user(ms.drop_first()) {
            Some(i) => Some(i + 1),
            None => None,
        }
    }
}

/// The payload at the emergency level: once its estimate reaches
/// `critical` tokens, its oldest non-user message is dropped.
pub open spec fn emergency_payload(ms: Seq<MessageModel>, critical: u32) -> Seq<MessageModel> {
    if token_estimate(ms) as u32 >= critical {
        match oldest_non_user(ms) {
            Some(i) => ms.remove(i),
            None => ms,
        }
    } else {
        ms
    }
}

proof fn lemma_oldest_non_user(ms: Seq<MessageModel>, k: int)
    requires
        0 <= k <= ms.len(),
        forall|j: int| 0 <= j < k ==> ms[j] is User,
    ensures
        oldest_non_user(ms) == (match oldest_non_user(ms.skip(k)) {
            Some(i) => Some(i + k),
            None => None::<int>,
        }),
    decreases k,
{
    if k > 0 {
        assert(ms.skip(1) =~= ms.drop_first());
        assert forall|j: int| 0 <= j < k - 1 implies ms.drop_first()[j] is User by {
            assert(ms.drop_first()[j] == ms[j + 1]);
        }
        lemma_oldest_non_user(ms.drop_first(), k - 1);
        assert(ms.drop_first().skip(k - 1) =~= ms.skip(k));
    } else {
        assert(ms.skip(0) =~= ms);
    }
}

fn message_is_user(m: &AgentMessage) -> (b: bool)
    ensures
        b == (m@ is User),
{
    match m {
        AgentMessage::User { .. } => true,
        _ => false,
    }
}

/// The emergency step, taken synchronously on the payload without a
/// summarizer: when the payload's estimate reaches `critical_tokens`, its
/// oldest non-user message is dropped.
#[verifier::loop_isolation(false)]
pub fn emergency_drop(payload: Vec<AgentMessage>, critical_tokens: u32) -> (r: Vec<AgentMessage>)
    requires
        msgs_chars(models(payload@)) + msgs_weight(models(payload@)) <= usize::MAX,
    ensures
        models(r@) == emergency_payload(models(payload@), critical_tokens),
{
    let ghost ms = models(payload@);
    let est = estimate_tokens(payload.as_slice());
    if est < critical_tokens {
        return payload;
    }
    let mut payload = payload;
    let mut i: usize = 0;
    while i < payload.len()
        invariant
            i <= payload.len(),
            ms == models(payload@),
            est == token_estimate(ms) as u32,
            est >= critical_tokens,
            forall|j: int| 0 <= j < i ==> ms[j] is User,
        decreases payload.len() - i,
    {
        let is_user = message_is_user(&payload[i]);
        assert(ms[i as int] == payload@[i as int]@);
        if !is_user {
            proof {
                lemma_oldest_non_user(ms, i as int);
                assert(ms.skip(i as int)[0] == ms[i as int]);
                assert(!(ms[i as int] is User));
                assert(oldest_non_user(ms.skip(i as int)) == Some(0int));
                assert(oldest_non_user(ms) == Some(i as int));
                assert(emergency_payload(ms, critical_tokens) == ms.remove(i as int));
            }
            payload.remove(i);
            assert(models(payload@) =~= ms.remove(i as int));
            return payload;
        }
        i = i + 1;
    }
    proof {
        lemma_oldest_non_user(ms, i as int);
        assert(ms.skip(i as int).len() == 0);
    }
    payload
}

/// The marker for a planned compaction once the summarizer answered
/// `summary_text`; a summary that is empty once trimmed is an error.
pub fn finish_compaction(
    messages: &Vec<AgentMessage>,
    plan: CompactionPlan,
    summary_text: String,
    created_at: String,
) -> (r: Result<CompactionMarker, RuntimeError>)
    requires
        plan.cut.head_count <= messages.len(),
        calls_of(models(messages@).take(plan.cut.head_count as int)) <= usize::MAX,
    ensures
        blank(summary_text@) ==> (r matches Err(RuntimeError::Other(m))
            && m@ == "summarizer returned empty body"@),
        !blank(summary_text@) ==> ({
            let head = models(messages@).take(plan.cut.head_count as int);
            r matches Ok(mk) && mk.covers_up_to == plan.cut.covers_up_to
                && mk.kept_tail_start == plan.cut.kept_tail_start && mk.summary_text == summary_text
                && refs_view(mk.file_refs@) == file_refs_of(head) && mk.tool_calls_summarized == calls_of(head)
                && mk.original_turn_count == turns_of(head) && mk.created_at == created_at
                && mk.trigger == plan.trigger
        }),
{
    if is_blank(summary_text.as_str()) {
        return Err(RuntimeError::Other(String::from_str("summarizer returned empty body")));
    }
    let h = plan.cut.head_count;
    let file_refs = extract_file_refs(messages, h);
    let (tool_calls_summarized, original_turn_count) = head_counts(messages, h);
    Ok(CompactionMarker {
        covers_up_to: plan.cut.covers_up_to,
        summary_text,
        kept_tail_start: plan.cut.kept_tail_start,
        file_refs,
        tool_calls_summarized,
        original_turn_count,
        created_at,
        trigger: plan.trigger,
    })
}

/// The summary a streamed answer carries: its text deltas up to the
/// first `MessageEnd`.
pub open spec fn summary_of(cs: Seq<ModelChunk>) -> Seq<char>
    decreases cs.len(),
{
    if cs.len() == 0 {
        Seq::empty()
    } else {
        match cs[0] {
            ModelChunk::MessageEnd { .. } => Seq::empty(),
            ModelChunk::ContentDelta { delta: ContentBlock::Text { text }, .. } => text@ + summary_of(
                cs.drop_first(),
            ),
            _ => summary_of(cs.drop_first()),
        }
    }
}

/// Law: the summary is the text the answer streamed before it ended. For
/// chunks `a` with no `MessageEnd`, then a `MessageEnd`, then anything,
/// the summary is the text deltas of `a` joined in order, as a streamed
/// turn assembles them; what follows the end is not read.
pub proof fn lemma_summary_stops_at_end(a: Seq<ModelChunk>, e: ModelChunk, b: Seq<ModelChunk>)
    requires
        forall|k: int| 0 <= k < a.len() ==> !((#[trigger] a[k]) is MessageEnd),
        e is MessageEnd,
    ensures
        summary_of(a + seq![e] + b) == chunks_text(a),
    decreases a.len(),
{
    let s = a + seq![e] + b;
    if a.len() == 0 {
        assert(s[0] == e);
    } else {
        let rest = a.drop_first();
        assert forall|k: int| 0 <= k < rest.len() implies !((#[trigger] rest[k]) is MessageEnd) by {
            assert(rest[k] == a[k + 1]);
        }
        lemma_summary_stops_at_end(rest, e, b);
        assert(s[0] == a[0]);
        assert(s.drop_first() =~= rest + seq![e] + b);
        lemma_stream_concat(seq![a[0]], rest);
        assert(seq![a[0]] + rest =~= a);
        assert(seq![a[0]].drop_last() =~= Seq::<ModelChunk>::empty());
        assert(chunks_text(Seq::<ModelChunk>::empty()) == Seq::<char>::empty());
        assert(chunks_text(seq![a[0]]) =~= match a[0] {
            ModelChunk::ContentDelta { delta: ContentBlock::Text { text }, .. } => text@,
            _ => Seq::<char>::empty(),
        });
    }
}

/// The summary text of the summarizer's streamed answer.
pub fn collect_summary(chunks: &Vec<ModelChunk>) -> (s: String)
    ensures
        s@ == summary_of(chunks@),
{
    let mut out: Vec<char> = Vec::new();
    let mut i: usize = 0;
    assert(chunks@.skip(0) =~= chunks@);
    while i < chunks.len()
        invariant
            i <= chunks.len(),
            summary_of(chunks@) == out@ + summary_of(chunks@.skip(i as int)),
        decreases chunks.len() - i,
    {
        let ghost rest = chunks@.skip(i as int);
        proof {
            assert(rest[0] == chunks@[i as int]);
            assert(rest.drop_first() =~= chunks@.skip(i + 1));
        }
        match &chunks[i] {
            ModelChunk::MessageEnd { .. } => {
                assert(out@ + Seq::<char>::empty() =~= out@);
                return string_of(&out);
            },
            ModelChunk::ContentDelta { delta: ContentBlock::Text { text }, .. } => {
                let ghost before = out@;
                push_str(&mut out, text.as_str());
                assert(before + (text@ + summary_of(chunks@.skip(i + 1))) =~= out@ + summary_of(
                    chunks@.skip(i + 1),
                ));
            },
            _ => {},
        }
        i = i + 1;
    }
    assert(chunks@.skip(i as int).len() == 0);
    assert(out@ + Seq::<char>::empty() =~= out@);
    string_of(&out)
}

/// The message handed to the summarizer: the head text as a user message
/// with a fresh id `compact-input-{uuid}`.
pub fn summarizer_input(head_text: String) -> (m: AgentMessage)
    ensures
        m@ matches MessageModel::User { id, content } && is_fresh_id(id.0@, "compact-input-"@)
            && content.len() == 1 && (content[0] matches ContentBlock::Text { text } && text == head_text),
{
    let id = fresh_id("compact-input-");
    proof {
        reveal_strlit("compact-input-");
    }
    let mut content: Vec<ContentBlock> = Vec::new();
    content.push(ContentBlock::Text { text: head_text });
    AgentMessage::User { id: MessageId(id), content }
}

} // verus!
