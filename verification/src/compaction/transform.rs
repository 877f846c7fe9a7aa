//! The compaction decisions: where to cut the conversation, how the head
//! is written out for the summarizer, what the marker records, and how
//! the model payload is derived from the latest marker.

use vstd::prelude::*;
use crate::message::{
    content_of, is_turn, model_id, model_visible, models, AgentMessage, ContentBlock, MessageId,
    MessageModel,
};
use crate::text::{chars_of, push_str, str_eq, string_of};
use crate::ids::{fresh_id, is_fresh_id};

verus! {

/// `Custom.kind` of a compaction marker.
pub const MARKER_KIND: &'static str = "compaction_marker";

/// Is the message shaped like a marker: a custom entry of the marker kind
/// that the model does not see?
pub open spec fn is_marker_entry(m: MessageModel) -> bool {
    m matches MessageModel::Custom { kind, visible_to_model, .. } && !visible_to_model
        && kind@ == "compaction_marker"@
}

/// Is entry `i` a marker whose payload was read back (`summaries[i]`
/// holds its summary)?
pub open spec fn marker_at(ms: Seq<AgentMessage>, summaries: Seq<Option<String>>, i: int) -> bool {
    0 <= i < ms.len() && i < summaries.len() && summaries[i] is Some && is_marker_entry(ms[i]@)
}

/// The user messages of `ms`, in order.
pub open spec fn user_messages(ms: Seq<MessageModel>) -> Seq<MessageModel>
    decreases ms.len(),
{
    if ms.len() == 0 {
        Seq::empty()
    } else if ms.last() is User {
        user_messages(ms.drop_last()).push(ms.last())
    } else {
        user_messages(ms.drop_last())
    }
}

/// The messages of `ms` the model sees, in order.
pub open spec fn visible_messages(ms: Seq<MessageModel>) -> Seq<MessageModel>
    decreases ms.len(),
{
    if ms.len() == 0 {
        Seq::empty()
    } else if model_visible(ms.last()) {
        visible_messages(ms.drop_last()).push(ms.last())
    } else {
        visible_messages(ms.drop_last())
    }
}

/// The payload part a marker at `i` leaves: the user messages before it,
/// then (after the synthetic summary) the visible messages after it.
pub open spec fn payload_ok(
    out: Seq<MessageModel>,
    ms: Seq<MessageModel>,
    i: int,
    summary_id: MessageId,
    text: Seq<char>,
) -> bool {
    let head = user_messages(ms.take(i));
    let tail = visible_messages(ms.skip(i + 1));
    &&& out.len() == head.len() + 1 + tail.len()
    &&& out.take(head.len() as int) == head
    &&& out.skip(head.len() + 1int) == tail
    &&& out[head.len() as int] matches MessageModel::Assistant { id, content, stop_reason }
        && id == summary_id && stop_reason is None && content.len() == 1
        && (content[0] matches ContentBlock::Text { text: t } && t@ == text)
}

/// Is `m` a marker-shaped entry? Returns its payload (JSON text) if so.
pub fn marker_payload(m: &AgentMessage) -> (p: Option<&String>)
    ensures
        is_marker_entry(m@) ==> (p matches Some(x) && m@ matches MessageModel::Custom { payload, .. }
            && *x == payload),
        !is_marker_entry(m@) ==> p is None,
{
    match m {
        AgentMessage::Custom { kind, payload, visible_to_model, .. } => {
            if !*visible_to_model && str_eq(kind.as_str(), MARKER_KIND) {
                proof {
                    reveal_strlit("compaction_marker");
                }
                Some(payload)
            } else {
                proof {
                    reveal_strlit("compaction_marker");
                }
                None
            }
        },
        _ => None,
    }
}

/// The index of the latest marker whose payload was read back.
pub fn latest_marker(messages: &Vec<AgentMessage>, summaries: &Vec<Option<String>>) -> (r: Option<usize>)
    requires
        summaries.len() == messages.len(),
    ensures
        r matches Some(i) ==> marker_at(messages@, summaries@, i as int)
            && forall|j: int| i < j < messages.len() ==> !marker_at(messages@, summaries@, j),
        r is None ==> forall|j: int| 0 <= j < messages.len() ==> !marker_at(messages@, summaries@, j),
{
    let mut k: usize = messages.len();
    while k > 0
        invariant
            k <= messages.len(),
            summaries.len() == messages.len(),
            forall|j: int| k <= j < messages.len() ==> !marker_at(messages@, summaries@, j),
        decreases k,
    {
        let i = k - 1;
        let shaped = match marker_payload(&messages[i]) {
            Some(_) => true,
            None => false,
        };
        if shaped && summaries[i].is_some() {
            return Some(i);
        }
        k = i;
    }
    None
}

/// The payload sent to the model. Without a marker it is the visible
/// messages; with one, the latest marker wins: the real user messages
/// before it, one assistant message `{prefix}\n\n{summary}` with id
/// `summary_id`, then the visible messages after it.
pub fn transform_outgoing_with(
    messages: &Vec<AgentMessage>,
    summaries: &Vec<Option<String>>,
    prefix: &str,
    summary_id: MessageId,
) -> (out: Vec<AgentMessage>)
    requires
        summaries.len() == messages.len(),
    ensures
        (forall|j: int| 0 <= j < messages.len() ==> !marker_at(messages@, summaries@, j))
            ==> models(out@) == visible_messages(models(messages@)),
        forall|i: int| #![trigger marker_at(messages@, summaries@, i)]
            marker_at(messages@, summaries@, i) && (forall|j: int| i < j < messages.len()
                ==> !marker_at(messages@, summaries@, j)) ==> payload_ok(
                models(out@),
                models(messages@),
                i,
                summary_id,
                prefix@ + "\n\n"@ + summaries@[i].unwrap()@,
            ),
{
    let ghost ms = models(messages@);
    let latest = latest_marker(messages, summaries);
    match latest {
        None => {
            let out = visible_from(messages, 0);
            assert(ms.skip(0) =~= ms);
            out
        },
        Some(i) => {
            let mut out = users_before(messages, i);
            let ghost head = models(out@);
            let summary = match &summaries[i] {
                Some(s) => s,
                None => {
                    proof {
                        assert(false);
                    }
                    return Vec::new();
                },
            };
            let mut t = chars_of(prefix);
            push_str(&mut t, "\n\n");
            push_str(&mut t, summary.as_str());
            let mut content: Vec<ContentBlock> = Vec::new();
            content.push(ContentBlock::Text { text: string_of(&t) });
            let ghost cm = content@;
            out.push(AgentMessage::Assistant { id: summary_id, content, stop_reason: None });
            let mut tail = visible_from(messages, i + 1);
            let ghost tl = models(tail@);
            let ghost before = models(out@);
            out.append(&mut tail);
            proof {
                assert(models(out@) =~= before + tl);
                assert(models(out@).take(head.len() as int) =~= head);
                assert(models(out@).skip(head.len() + 1int) =~= tl);
                assert forall|k: int| #![trigger marker_at(messages@, summaries@, k)]
                    marker_at(messages@, summaries@, k) && (forall|j: int| k < j < messages.len()
                        ==> !marker_at(messages@, summaries@, j)) implies k == i by {
                    if k < i {
                        assert(!marker_at(messages@, summaries@, i as int));
                    }
                }
            }
            out
        },
    }
}

/// The payload sent to the model, with a fresh id
/// `compact-summary-{uuid}` for the synthetic summary message.
pub fn transform_outgoing(
    messages: &Vec<AgentMessage>,
    summaries: &Vec<Option<String>>,
    prefix: &str,
) -> (out: Vec<AgentMessage>)
    requires
        summaries.len() == messages.len(),
    ensures
        (forall|j: int| 0 <= j < messages.len() ==> !marker_at(messages@, summaries@, j))
            ==> models(out@) == visible_messages(models(messages@)),
        forall|i: int| #![trigger marker_at(messages@, summaries@, i)]
            marker_at(messages@, summaries@, i) && (forall|j: int| i < j < messages.len()
                ==> !marker_at(messages@, summaries@, j)) ==> exists|sid: MessageId|
                is_fresh_id(sid.0@, "compact-summary-"@) && payload_ok(
                    models(out@),
                    models(messages@),
                    i,
                    sid,
                    prefix@ + "\n\n"@ + summaries@[i].unwrap()@,
                ),
{
    let id = MessageId(fresh_id("compact-summary-"));
    proof {
        reveal_strlit("compact-summary-");
    }
    let ghost sid = id;
    let out = transform_outgoing_with(messages, summaries, prefix, id);
    proof {
        assert forall|i: int| #![trigger marker_at(messages@, summaries@, i)]
            marker_at(messages@, summaries@, i) && (forall|j: int| i < j < messages.len()
                ==> !marker_at(messages@, summaries@, j)) implies exists|s: MessageId|
                is_fresh_id(s.0@, "compact-summary-"@) && payload_ok(
                    models(out@),
                    models(messages@),
                    i,
                    s,
                    prefix@ + "\n\n"@ + summaries@[i].unwrap()@,
                ) by {
            assert(is_fresh_id(sid.0@, "compact-summary-"@));
        }
    }
    out
}

/// Copies of the user messages among `messages[..end]`.
fn users_before(messages: &Vec<AgentMessage>, end: usize) -> (out: Vec<AgentMessage>)
    requires
        end <= messages.len(),
    ensures
        models(out@) == user_messages(models(messages@).take(end as int)),
{
    let ghost ms = models(messages@);
    let mut out: Vec<AgentMessage> = Vec::new();
    let mut k: usize = 0;
    while k < end
        invariant
            k <= end <= messages.len(),
            ms == models(messages@),
            models(out@) == user_messages(ms.take(k as int)),
        decreases end - k,
    {
        proof {
            assert(ms.take(k + 1).drop_last() =~= ms.take(k as int));
            assert(ms.take(k + 1).last() == messages@[k as int]@);
        }
        let is_user = match &messages[k] {
            AgentMessage::User { .. } => true,
            _ => false,
        };
        if is_user {
            let c = messages[k].clone();
            let ghost before = models(out@);
            out.push(c);
            assert(models(out@) =~= before.push(messages@[k as int]@));
        }
        k = k + 1;
    }
    out
}

/// Copies of the visible messages among `messages[start..]`.
fn visible_from(messages: &Vec<AgentMessage>, start: usize) -> (out: Vec<AgentMessage>)
    requires
        start <= messages.len(),
    ensures
        models(out@) == visible_messages(models(messages@).skip(start as int)),
{
    let ghost ms = models(messages@);
    let mut out: Vec<AgentMessage> = Vec::new();
    let mut k: usize = start;
    while k < messages.len()
        invariant
            start <= k <= messages.len(),
            ms == models(messages@),
            models(out@) == visible_messages(ms.subrange(start as int, k as int)),
        decreases messages.len() - k,
    {
        proof {
            assert(ms.subrange(start as int, k + 1).drop_last() =~= ms.subrange(start as int, k as int));
            assert(ms.subrange(start as int, k + 1).last() == messages@[k as int]@);
        }
        if messages[k].visible_to_model() {
            let c = messages[k].clone();
            let ghost before = models(out@);
            out.push(c);
            assert(models(out@) =~= before.push(messages@[k as int]@));
        }
        k = k + 1;
    }
    assert(ms.subrange(start as int, messages.len() as int) =~= ms.skip(start as int));
    out
}

/// Law: the payload parts are filters of the log. The visible messages
/// are exactly the messages the model sees, and the user messages exactly
/// those from the user, each kept in log order.
pub proof fn lemma_payload_parts_are_filters(ms: Seq<MessageModel>)
    ensures
        visible_messages(ms) == ms.filter(|m: MessageModel| model_visible(m)),
        user_messages(ms) == ms.filter(|m: MessageModel| m is User),
    decreases ms.len(),
{
    reveal(Seq::filter);
    if ms.len() > 0 {
        lemma_payload_parts_are_filters(ms.drop_last());
    }
}

/// Law: with no marker in the log, the payload of a log that only grew is
/// the earlier payload followed by the visible new messages — the log is
/// append-only, so each request extends the one before it.
pub proof fn lemma_payload_extends(earlier: Seq<MessageModel>, added: Seq<MessageModel>)
    ensures
        visible_messages(earlier + added) == visible_messages(earlier) + visible_messages(added),
    decreases added.len(),
{
    if added.len() == 0 {
        assert(earlier + added =~= earlier);
        assert(visible_messages(earlier) + visible_messages(added) =~= visible_messages(earlier));
    } else {
        let all = earlier + added;
        assert(all.drop_last() =~= earlier + added.drop_last());
        assert(all.last() == added.last());
        lemma_payload_extends(earlier, added.drop_last());
        if model_visible(added.last()) {
            assert(visible_messages(earlier) + visible_messages(added) =~= (visible_messages(earlier)
                + visible_messages(added.drop_last())).push(added.last()));
        } else {
            assert(visible_messages(added) == visible_messages(added.drop_last()));
        }
    }
}

} // verus!
