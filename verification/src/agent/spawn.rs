//! Sub-agent spawning: the decisions of the `spawn_agent` tool. The tool
//! picks the sub-agent by name, runs it to completion elsewhere, and
//! replies with the sub-agent's last non-empty assistant text.

use vstd::prelude::*;
use crate::agent::control::RunOutcome;
use crate::agent::error::{loop_error_message, LoopError};
use crate::json::{num_field, push_num_field, push_str_field, str_field};
use crate::message::{
    models, stop_reason_name, AgentMessage, ContentBlock, MessageModel, RuntimeError, ToolOutcome,
};
use crate::text::{chars_of, push_str, str_eq, string_of};

verus! {

/// `names` joined with `, `.
pub open spec fn joined_names(names: Seq<Seq<char>>) -> Seq<char>
    decreases names.len(),
{
    if names.len() == 0 {
        Seq::empty()
    } else if names.len() == 1 {
        names[0]
    } else {
        joined_names(names.drop_last()) + ", "@ + names.last()
    }
}

/// The tool's description for sub-agents with these names.
pub open spec fn spawn_description(names: Seq<Seq<char>>) -> Seq<char> {
    "Delegate a focused task to a sub-agent. Available sub-agents: "@ + joined_names(names)
        + ". Pass `persona` (one of the names) and `prompt` (the task description). The sub-agent runs to completion and returns its final reply."@
}

/// The text blocks of `bs` joined with line breaks.
pub open spec fn text_lines(bs: Seq<ContentBlock>) -> Seq<char>
    decreases bs.len(),
{
    if bs.len() == 0 {
        Seq::empty()
    } else {
        let rest = text_lines(bs.drop_last());
        match bs.last() {
            ContentBlock::Text { text } => if text_count(bs.drop_last()) == 0 {
                text@
            } else {
                rest + seq!['\n'] + text@
            },
            _ => rest,
        }
    }
}

/// The number of text blocks in `bs`.
pub open spec fn text_count(bs: Seq<ContentBlock>) -> nat
    decreases bs.len(),
{
    if bs.len() == 0 {
        0
    } else {
        text_count(bs.drop_last()) + if bs.last() is Text { 1nat } else { 0nat }
    }
}

/// Law: the text of blocks is their text blocks joined by line breaks.
/// Blocks with no text block give no text; appending blocks that are not
/// text changes nothing; and a text block after blocks that have text adds
/// a line break and its text.
pub proof fn lemma_text_lines_joined(a: Seq<ContentBlock>, b: Seq<ContentBlock>, t: String)
    requires
        forall|k: int| 0 <= k < b.len() ==> !((#[trigger] b[k]) is Text),
    ensures
        text_lines(a + b) == text_lines(a),
        text_count(a + b) == text_count(a),
        text_count(a) == 0 ==> text_lines(a) == Seq::<char>::empty(),
        text_count(a) > 0 ==> text_lines(a.push(ContentBlock::Text { text: t })) == text_lines(a) + seq!['\n'] + t@,
        text_count(a) == 0 ==> text_lines(a.push(ContentBlock::Text { text: t })) == t@,
    decreases a.len() + b.len(),
{
    let x = ContentBlock::Text { text: t };
    assert(a.push(x).drop_last() =~= a);
    if b.len() > 0 {
        assert forall|k: int| 0 <= k < b.drop_last().len() implies !((#[trigger] b.drop_last()[k]) is Text) by {
            assert(b.drop_last()[k] == b[k]);
        }
        lemma_text_lines_joined(a, b.drop_last(), t);
        assert((a + b).drop_last() =~= a + b.drop_last());
        assert((a + b).last() == b[b.len() - 1]);
    } else {
        assert(a + b =~= a);
        if a.len() > 0 {
            lemma_text_lines_joined(a.drop_last(), b, t);
        }
    }
}

/// The reply a message offers: an assistant message's joined text, when
/// not empty.
pub open spec fn reply_of(m: MessageModel) -> Option<Seq<char>> {
    match m {
        MessageModel::Assistant { content, .. } => if text_lines(content).len() > 0 {
            Some(text_lines(content))
        } else {
            None
        },
        _ => None,
    }
}

/// The last reply in the log.
pub open spec fn last_reply(ms: Seq<MessageModel>) -> Option<Seq<char>>
    decreases ms.len(),
{
    if ms.len() == 0 {
        None
    } else {
        match reply_of(ms.last()) {
            Some(r) => Some(r),
            None => last_reply(ms.drop_last()),
        }
    }
}

/// Does `t` stand in the log as a reply after which no message replies?
pub open spec fn reply_is_last(ms: Seq<MessageModel>, t: Seq<char>) -> bool {
    exists|i: int|
        0 <= i < ms.len() && reply_of(#[trigger] ms[i]) == Some(t) && forall|j: int|
            i < j < ms.len() ==> reply_of(#[trigger] ms[j]) is None
}

/// Law: the reply taken from a log is the latest one. When some message
/// of the log replies, `last_reply` is the reply of a message after which
/// none replies; when none does, it is `None`.
pub proof fn lemma_last_reply_is_latest(ms: Seq<MessageModel>)
    ensures
        match last_reply(ms) {
            Some(t) => reply_is_last(ms, t),
            None => forall|i: int| 0 <= i < ms.len() ==> reply_of(#[trigger] ms[i]) is None,
        },
    decreases ms.len(),
{
    if ms.len() > 0 {
        let init = ms.drop_last();
        lemma_last_reply_is_latest(init);
        let n = ms.len() - 1;
        match reply_of(ms.last()) {
            Some(t) => {
                assert(reply_of(ms[n]) == Some(t));
                assert(reply_is_last(ms, t));
            },
            None => {
                match last_reply(init) {
                    Some(t) => {
                        let i = choose|i: int|
                            0 <= i < init.len() && reply_of(#[trigger] init[i]) == Some(t) && forall|j: int|
                                i < j < init.len() ==> reply_of(#[trigger] init[j]) is None;
                        assert(ms[i] == init[i]);
                        assert forall|j: int| i < j < ms.len() implies reply_of(#[trigger] ms[j]) is None by {
                            if j < n {
                                assert(ms[j] == init[j]);
                            }
                        }
                        assert(reply_is_last(ms, t));
                    },
                    None => {
                        assert forall|i: int| 0 <= i < ms.len() implies reply_of(#[trigger] ms[i]) is None by {
                            if i < n {
                                assert(ms[i] == init[i]);
                            }
                        }
                    },
                }
            },
        }
    }
}

/// The details of a spawn, as JSON text.
pub open spec fn spawn_details(persona: Seq<char>, stop: Seq<char>, appended: nat) -> Seq<char> {
    seq!['{'] + num_field("messages_appended"@, appended) + seq![','] + str_field("persona"@, persona)
        + seq![','] + str_field("stop_reason"@, stop) + seq!['}']
}

/// The tool's description.
pub fn describe(names: &Vec<String>) -> (d: String)
    ensures
        d@ == spawn_description(names@.map_values(|n: String| n@)),
{
    let ghost ns = names@.map_values(|n: String| n@);
    let mut v = chars_of("Delegate a focused task to a sub-agent. Available sub-agents: ");
    let ghost start = v@;
    let mut i: usize = 0;
    while i < names.len()
        invariant
            i <= names.len(),
            ns == names@.map_values(|n: String| n@),
            v@ == start + joined_names(ns.take(i as int)),
        decreases names.len() - i,
    {
        if i > 0 {
            push_str(&mut v, ", ");
        }
        push_str(&mut v, names[i].as_str());
        i = i + 1;
        proof {
            assert(ns.take(i as int).drop_last() =~= ns.take(i - 1));
            assert(ns.take(i as int).last() == names@[i - 1]@);
            if i == 1 {
                assert(ns.take(0) =~= Seq::<Seq<char>>::empty());
            }
        }
    }
    assert(ns.take(names.len() as int) =~= ns);
    push_str(
        &mut v,
        ". Pass `persona` (one of the names) and `prompt` (the task description). The sub-agent runs to completion and returns its final reply.",
    );
    string_of(&v)
}

/// The index of the sub-agent named `persona`, or the error naming it.
pub fn find_persona(names: &Vec<String>, persona: &str) -> (r: Result<usize, RuntimeError>)
    ensures
        match r {
            Ok(i) => i < names.len() && names@[i as int]@ == persona@
                && forall|j: int| 0 <= j < i ==> names@[j]@ != persona@,
            Err(e) => (forall|j: int| 0 <= j < names.len() ==> names@[j]@ != persona@)
                && (e matches RuntimeError::InvalidInput(m) && m@ == "unknown sub-agent: "@ + persona@),
        },
{
    let mut i: usize = 0;
    while i < names.len()
        invariant
            i <= names.len(),
            forall|j: int| 0 <= j < i ==> names@[j]@ != persona@,
        decreases names.len() - i,
    {
        if str_eq(names[i].as_str(), persona) {
            return Ok(i);
        }
        i = i + 1;
    }
    let mut v = chars_of("unknown sub-agent: ");
    push_str(&mut v, persona);
    Err(RuntimeError::InvalidInput(string_of(&v)))
}

fn joined_text(bs: &Vec<ContentBlock>) -> (t: Vec<char>)
    ensures
        t@ == text_lines(bs@),
{
    let mut t: Vec<char> = Vec::new();
    let mut seen: usize = 0;
    let mut i: usize = 0;
    while i < bs.len()
        invariant
            i <= bs.len(),
            seen == text_count(bs@.take(i as int)),
            seen <= i,
            t@ == text_lines(bs@.take(i as int)),
            seen == 0 ==> t@.len() == 0,
        decreases bs.len() - i,
    {
        proof {
            assert(bs@.take(i + 1).drop_last() =~= bs@.take(i as int));
            assert(bs@.take(i + 1).last() == bs@[i as int]);
        }
        match &bs[i] {
            ContentBlock::Text { text } => {
                if seen > 0 {
                    t.push('\n');
                }
                push_str(&mut t, text.as_str());
                seen = seen + 1;
                assert(t@ =~= text_lines(bs@.take(i + 1)));
            },
            _ => {},
        }
        i = i + 1;
    }
    assert(bs@.take(bs.len() as int) =~= bs@);
    t
}

/// The sub-agent's reply: its last non-empty assistant text, else a
/// notice that it produced none.
pub fn final_reply(messages: &Vec<AgentMessage>) -> (r: String)
    ensures
        match last_reply(models(messages@)) {
            Some(t) => r@ == t,
            None => r@ == "(sub-agent produced no text)"@,
        },
        (exists|i: int| 0 <= i < messages.len() && reply_of(#[trigger] models(messages@)[i]) is Some)
            ==> reply_is_last(models(messages@), r@),
        (forall|i: int| 0 <= i < messages.len() ==> reply_of(#[trigger] models(messages@)[i]) is None)
            ==> r@ == "(sub-agent produced no text)"@,
{
    let ghost ms = models(messages@);
    proof {
        lemma_last_reply_is_latest(ms);
    }
    let mut k: usize = messages.len();
    assert(ms.take(k as int) =~= ms);
    while k > 0
        invariant
            k <= messages.len(),
            ms == models(messages@),
            last_reply(ms) == last_reply(ms.take(k as int)),
            match last_reply(ms) {
                Some(t) => reply_is_last(ms, t),
                None => forall|i: int| 0 <= i < ms.len() ==> reply_of(#[trigger] ms[i]) is None,
            },
        decreases k,
    {
        let i = k - 1;
        proof {
            assert(ms.take(k as int).drop_last() =~= ms.take(i as int));
            assert(ms.take(k as int).last() == messages@[i as int]@);
        }
        match &messages[i] {
            AgentMessage::Assistant { content, .. } => {
                let t = joined_text(content);
                if t.len() > 0 {
                    return string_of(&t);
                }
            },
            _ => {},
        }
        k = i;
    }
    assert(ms.take(0) =~= Seq::<MessageModel>::empty());
    String::from_str("(sub-agent produced no text)")
}

/// The error a failed sub-agent run becomes.
pub fn child_failure(e: &LoopError) -> (r: RuntimeError)
    ensures
        r matches RuntimeError::ToolFailed(m) && m@ == "sub-agent failed: "@ + loop_error_message(*e),
{
    let mut v = chars_of("sub-agent failed: ");
    let m = e.message();
    push_str(&mut v, m.as_str());
    RuntimeError::ToolFailed(string_of(&v))
}

/// The error for arguments that did not parse.
pub fn args_error(parse_message: &str) -> (r: RuntimeError)
    ensures
        r matches RuntimeError::InvalidInput(m) && m@ == "spawn_agent args: "@ + parse_message@,
{
    let mut v = chars_of("spawn_agent args: ");
    push_str(&mut v, parse_message);
    RuntimeError::InvalidInput(string_of(&v))
}

/// The tool's outcome after the sub-agent `persona` finished.
pub fn spawn_outcome(persona: &str, reply: String, run: RunOutcome) -> (o: ToolOutcome)
    ensures
        o.content@.len() == 1,
        o.content@[0] matches ContentBlock::Text { text } && text@ == reply@,
        o.details matches Some(d) && d@ == spawn_details(
            persona@,
            stop_reason_name(run.stop_reason),
            run.messages_appended as nat,
        ),
        !o.is_error,
{
    let mut d: Vec<char> = Vec::new();
    d.push('{');
    push_num_field(&mut d, "messages_appended", run.messages_appended as u64);
    d.push(',');
    push_str_field(&mut d, "persona", persona);
    d.push(',');
    let sr = run.stop_reason.name();
    push_str_field(&mut d, "stop_reason", sr);
    d.push('}');
    assert(d@ =~= spawn_details(persona@, stop_reason_name(run.stop_reason), run.messages_appended as nat));
    let mut content: Vec<ContentBlock> = Vec::new();
    content.push(ContentBlock::Text { text: reply });
    ToolOutcome { content, details: Some(string_of(&d)), is_error: false }
}

} // verus!
