//! Dispatching a batch of tool calls. Calls whose tool runs in parallel
//! are run first, together; the rest run one at a time afterwards, and a
//! call to an unknown tool counts as sequential. Whatever order the calls
//! finish in, their results enter the log in the order the model asked
//! for them, and the batch ends the run only when every call's post-hooks
//! asked to terminate.

use vstd::prelude::*;
use crate::message::{
    runtime_error_message, AgentMessage, ContentBlock, MessageId, MessageModel, RuntimeError,
    ToolCallId, ToolOutcome,
};
use crate::text::{chars_of, push_str, string_of};

verus! {

/// How a tool may be scheduled.
#[derive(Debug, Clone, Copy, PartialEq, Eq, Structural)]
pub enum ToolExecutionMode {
    Parallel,
    Sequential,
}

/// A tool call as it is executed; `input` is compact JSON text.
#[derive(Debug)]
pub struct ToolInvocation {
    pub id: ToolCallId,
    pub name: String,
    pub input: String,
}

impl Clone for ToolInvocation {
    fn clone(&self) -> (c: Self)
        ensures
            c == *self,
    {
        ToolInvocation { id: self.id.clone(), name: self.name.clone(), input: self.input.clone() }
    }
}

/// The indices of `modes` that equal `m`, in increasing order.
pub open spec fn indices_with(modes: Seq<ToolExecutionMode>, m: ToolExecutionMode) -> Seq<usize>
    decreases modes.len(),
{
    if modes.len() == 0 {
        Seq::empty()
    } else if modes.last() == m {
        indices_with(modes.drop_last(), m).push((modes.len() - 1) as usize)
    } else {
        indices_with(modes.drop_last(), m)
    }
}

/// `ix` lists, in increasing order, exactly the positions of `modes` that
/// hold `m`.
pub open spec fn lists_positions_of(ix: Seq<usize>, modes: Seq<ToolExecutionMode>, m: ToolExecutionMode) -> bool {
    &&& forall|j: int| 0 <= j < ix.len() ==> (#[trigger] ix[j]) < modes.len() && modes[ix[j] as int] == m
    &&& forall|j: int, k: int| 0 <= j < k < ix.len() ==> (#[trigger] ix[j]) < (#[trigger] ix[k])
    &&& forall|i: int| 0 <= i < modes.len() && (#[trigger] modes[i]) == m ==> ix.contains(i as usize)
}

/// Law: the calls of a mode are listed once each, in source order, and no
/// call of the other mode is among them.
pub proof fn lemma_indices_with(modes: Seq<ToolExecutionMode>, m: ToolExecutionMode)
    requires
        modes.len() <= usize::MAX,
    ensures
        lists_positions_of(indices_with(modes, m), modes, m),
    decreases modes.len(),
{
    if modes.len() > 0 {
        let init = modes.drop_last();
        lemma_indices_with(init, m);
        let prev = indices_with(init, m);
        let ix = indices_with(modes, m);
        let n = modes.len() - 1;
        assert((n as usize) as int == n);
        assert forall|j: int| 0 <= j < prev.len() implies (#[trigger] prev[j]) < n by {}
        if modes.last() == m {
            assert(ix == prev.push(n as usize));
            assert forall|j: int| 0 <= j < ix.len() implies (#[trigger] ix[j]) < modes.len() && modes[ix[j] as int] == m by {
                if j < prev.len() {
                    assert(ix[j] == prev[j]);
                    assert(modes[prev[j] as int] == init[prev[j] as int]);
                }
            }
            assert forall|j: int, k: int| 0 <= j < k < ix.len() implies (#[trigger] ix[j]) < (#[trigger] ix[k]) by {
                assert(ix[j] == prev[j]);
                if k < prev.len() {
                    assert(ix[k] == prev[k]);
                }
            }
            assert forall|i: int| 0 <= i < modes.len() && (#[trigger] modes[i]) == m implies ix.contains(i as usize) by {
                if i < n {
                    assert(init[i] == modes[i]);
                    let j = choose|j: int| 0 <= j < prev.len() && prev[j] == i as usize;
                    assert(ix[j] == prev[j]);
                } else {
                    assert(ix[prev.len() as int] == n as usize);
                }
            }
        } else {
            assert(ix == prev);
            assert forall|j: int| 0 <= j < ix.len() implies (#[trigger] ix[j]) < modes.len() && modes[ix[j] as int] == m by {
                assert(modes[prev[j] as int] == init[prev[j] as int]);
            }
            assert forall|i: int| 0 <= i < modes.len() && (#[trigger] modes[i]) == m implies ix.contains(i as usize) by {
                assert(i < n);
                assert(init[i] == modes[i]);
            }
        }
    }
}

/// A call's mode: the tool's own, or sequential for an unknown tool.
pub fn mode_or_sequential(found: Option<ToolExecutionMode>) -> (m: ToolExecutionMode)
    ensures
        m == match found {
            Some(x) => x,
            None => ToolExecutionMode::Sequential,
        },
{
    match found {
        Some(x) => x,
        None => ToolExecutionMode::Sequential,
    }
}

/// Splits the calls into the parallel batch and the sequential rest, each
/// in source order.
pub fn partition_calls(modes: &Vec<ToolExecutionMode>) -> (r: (Vec<usize>, Vec<usize>))
    ensures
        r.0@ == indices_with(modes@, ToolExecutionMode::Parallel),
        r.1@ == indices_with(modes@, ToolExecutionMode::Sequential),
        lists_positions_of(r.0@, modes@, ToolExecutionMode::Parallel),
        lists_positions_of(r.1@, modes@, ToolExecutionMode::Sequential),
{
    let count: usize = modes.len();
    proof {
        assert(modes@.len() == count);
        lemma_indices_with(modes@, ToolExecutionMode::Parallel);
        lemma_indices_with(modes@, ToolExecutionMode::Sequential);
    }
    let mut par: Vec<usize> = Vec::new();
    let mut seq: Vec<usize> = Vec::new();
    let mut i: usize = 0;
    while i < modes.len()
        invariant
            i <= modes.len(),
            par@ == indices_with(modes@.take(i as int), ToolExecutionMode::Parallel),
            seq@ == indices_with(modes@.take(i as int), ToolExecutionMode::Sequential),
        decreases modes.len() - i,
    {
        proof {
            assert(modes@.take(i + 1).drop_last() =~= modes@.take(i as int));
            assert(modes@.take(i + 1).last() == modes@[i as int]);
        }
        if modes[i] == ToolExecutionMode::Parallel {
            par.push(i);
        } else {
            seq.push(i);
        }
        i = i + 1;
    }
    assert(modes@.take(modes.len() as int) =~= modes@);
    (par, seq)
}

/// The log entry for a call's result: id `toolresult-{call id}`.
pub fn tool_result_message(call_id: ToolCallId, outcome: ToolOutcome) -> (m: AgentMessage)
    ensures
        m@ matches MessageModel::ToolResult { id, tool_call_id, content, is_error }
            && id.0@ == "toolresult-"@ + call_id.0@ && tool_call_id == call_id
            && content == outcome.content@ && is_error == outcome.is_error,
{
    let mut v = chars_of("toolresult-");
    push_str(&mut v, call_id.0.as_str());
    AgentMessage::ToolResult {
        id: MessageId(string_of(&v)),
        tool_call_id: call_id,
        content: outcome.content,
        is_error: outcome.is_error,
    }
}

/// The outcome for a call to a tool the registry does not hold.
pub fn unknown_tool_outcome(name: &str) -> (o: ToolOutcome)
    ensures
        o.is_error,
        o.details is None,
        o.content@.len() == 1,
        o.content@[0] matches ContentBlock::Text { text } && text@ == "tool not found: "@ + name@,
{
    let mut v = chars_of("tool not found: ");
    push_str(&mut v, name);
    ToolOutcome::error(string_of(&v))
}

/// The outcome for a call whose tool failed with `e`.
pub fn failed_tool_outcome(e: &RuntimeError) -> (o: ToolOutcome)
    ensures
        o.is_error,
        o.details is None,
        o.content@.len() == 1,
        o.content@[0] matches ContentBlock::Text { text } && text@ == runtime_error_message(*e),
{
    ToolOutcome::error(e.message())
}

/// What the end-of-execution event carries: the outcome's details, or
/// JSON `null`.
pub fn exec_end_result(o: &ToolOutcome) -> (r: String)
    ensures
        match o.details {
            Some(d) => r@ == d@,
            None => r@ == "null"@,
        },
{
    match &o.details {
        Some(d) => d.clone(),
        None => String::from_str("null"),
    }
}

/// One finished call of a batch.
#[derive(Debug)]
pub struct CallResult {
    pub call_id: ToolCallId,
    pub outcome: ToolOutcome,
    pub terminate: bool,
}

/// Is `m` the log entry for the result `r`?
pub open spec fn is_result_of(m: MessageModel, r: CallResult) -> bool {
    m matches MessageModel::ToolResult { id, tool_call_id, content, is_error }
        && tool_call_id == r.call_id && id.0@ == "toolresult-"@ + r.call_id.0@
        && content == r.outcome.content@ && is_error == r.outcome.is_error
}

/// The results of a batch, one slot per call in source order.
#[derive(Debug)]
pub struct ResultSlots {
    ids: Vec<ToolCallId>,
    slots: Vec<Option<CallResult>>,
}

/// Does a batch with these terminate hints end the run? Only a non-empty
/// batch whose every call asked for it does.
pub open spec fn batch_terminates(flags: Seq<bool>) -> bool {
    flags.len() > 0 && forall|k: int| 0 <= k < flags.len() ==> flags[k]
}

impl ResultSlots {
    pub closed spec fn slots(&self) -> Seq<Option<CallResult>> {
        self.slots@
    }

    /// The ids of the batch's calls, in source order.
    pub closed spec fn ids(&self) -> Seq<ToolCallId> {
        self.ids@
    }

    /// One slot per call, and every filled slot holds that call's result.
    pub closed spec fn wf(&self) -> bool {
        &&& self.slots@.len() == self.ids@.len()
        &&& forall|k: int| 0 <= k < self.slots@.len() && (#[trigger] self.slots@[k]) is Some ==> self.slots@[k].unwrap().call_id == self.ids@[k]
    }

    /// Empty slots for a batch whose calls have the ids `ids`, in source
    /// order.
    pub fn new(ids: Vec<ToolCallId>) -> (s: Self)
        ensures
            s.wf(),
            s.ids() == ids@,
            s.slots().len() == ids@.len(),
            forall|k: int| 0 <= k < ids@.len() ==> s.slots()[k] is None,
    {
        let n = ids.len();
        let mut slots: Vec<Option<CallResult>> = Vec::new();
        let mut i: usize = 0;
        while i < n
            invariant
                i <= n,
                slots@.len() == i,
                forall|k: int| 0 <= k < i ==> slots@[k] is None,
            decreases n - i,
        {
            slots.push(None);
            i = i + 1;
        }
        ResultSlots { ids, slots }
    }

    /// Records the result of call `idx`, whenever it finishes; it must be
    /// that call's result.
    pub fn fill(&mut self, idx: usize, r: CallResult)
        requires
            old(self).wf(),
            idx < old(self).slots().len(),
            r.call_id == old(self).ids()[idx as int],
        ensures
            final(self).wf(),
            final(self).ids() == old(self).ids(),
            final(self).slots() == old(self).slots().update(idx as int, Some(r)),
    {
        self.slots.set(idx, Some(r));
    }

    /// Has every call a result?
    pub fn is_complete(&self) -> (b: bool)
        ensures
            b == forall|k: int| 0 <= k < self.slots().len() ==> self.slots()[k] is Some,
    {
        let mut i: usize = 0;
        while i < self.slots.len()
            invariant
                i <= self.slots.len(),
                forall|k: int| 0 <= k < i ==> self.slots@[k] is Some,
            decreases self.slots.len() - i,
        {
            if self.slots[i].is_none() {
                return false;
            }
            i = i + 1;
        }
        true
    }

    /// The result messages in source order and whether the batch ends the
    /// run.
    pub fn finish(self) -> (r: (Vec<AgentMessage>, bool))
        requires
            self.wf(),
            forall|k: int| 0 <= k < self.slots().len() ==> self.slots()[k] is Some,
        ensures
            r.0@.len() == self.slots().len(),
            r.0@.len() == self.ids().len(),
            forall|k: int| 0 <= k < self.slots().len() ==> is_result_of(
                #[trigger] r.0@[k]@,
                self.slots()[k].unwrap(),
            ),
            forall|k: int| 0 <= k < self.ids().len() ==> ((#[trigger] r.0@[k]@) matches MessageModel::ToolResult {
                tool_call_id,
                ..
            } && tool_call_id == self.ids()[k]),
            r.1 == batch_terminates(Seq::new(self.slots().len(), |k: int| self.slots()[k].unwrap().terminate)),
    {
        let ghost all = self.slots@;
        let ghost ids = self.ids@;
        let ghost flags = Seq::new(all.len(), |k: int| all[k].unwrap().terminate);
        let n = self.slots.len();
        let mut out: Vec<AgentMessage> = Vec::new();
        let mut all_terminate = true;
        let mut i: usize = 0;
        for slot in it: self.slots
            invariant
                it.seq() == all,
                flags == Seq::new(all.len(), |k: int| all[k].unwrap().terminate),
                n == all.len(),
                forall|k: int| 0 <= k < all.len() ==> all[k] is Some,
                out@.len() == it.index(),
                all_terminate == forall|k: int| 0 <= k < it.index() ==> flags[k],
                forall|k: int| 0 <= k < it.index() ==> is_result_of(#[trigger] out@[k]@, all[k].unwrap()),
                ids.len() == all.len(),
                forall|k: int| 0 <= k < all.len() ==> (#[trigger] all[k]).unwrap().call_id == ids[k],
        {
            let ghost k = it.index() as int;
            proof {
                assert(flags[k] == all[k].unwrap().terminate);
            }
            match slot {
                Some(res) => {
                    if !res.terminate {
                        all_terminate = false;
                    }
                    let m = tool_result_message(res.call_id, res.outcome);
                    out.push(m);
                },
                None => {
                    proof {
                        assert(all[k] is Some);
                    }
                },
            }
        }
        proof {
            assert forall|k: int| 0 <= k < ids.len() implies ((#[trigger] out@[k]@) matches MessageModel::ToolResult {
                tool_call_id,
                ..
            } && tool_call_id == ids[k]) by {
                assert(is_result_of(out@[k]@, all[k].unwrap()));
            }
        }
        (out, n > 0 && all_terminate)
    }
}

/// Law: results may arrive in any order. Filling two different slots
/// gives the same slots whichever finishes first, so the log order is
/// the source order.
pub proof fn lemma_fill_order_irrelevant(s: Seq<Option<CallResult>>, i: int, a: CallResult, j: int, b: CallResult)
    requires
        0 <= i < s.len(),
        0 <= j < s.len(),
        i != j,
    ensures
        s.update(i, Some(a)).update(j, Some(b)) == s.update(j, Some(b)).update(i, Some(a)),
{
    assert(s.update(i, Some(a)).update(j, Some(b)) =~= s.update(j, Some(b)).update(i, Some(a)));
}

} // verus!
