//! What hook outcomes amount to.
//!
//! - Pre-tool hooks run in order; the first outcome that is not `Pass`
//!   decides, and later hooks are not asked.
//! - Post-tool hooks all run; the last replacement wins, and the run's
//!   terminate hint is set only by a last replacement that asks for it.
//! - Lifecycle hooks run in order; an abort or a request for manual
//!   attention stops the run, a failed-but-continue is only noted (except
//!   before a compaction, where it cancels that compaction).

use vstd::prelude::*;
use crate::agent::error::LoopError;
use crate::message::{ContentBlock, ToolOutcome};

verus! {

/// What a pre-tool hook answers.
#[derive(Debug)]
pub enum HookOutcome {
    Pass,
    Override(ToolOutcome),
    FailedContinue { reason: String },
    FailedAbort { reason: String },
    ManualAttention { reason: String },
}

/// What a post-tool hook answers.
#[derive(Debug)]
pub enum PostHookOutcome {
    Pass,
    Replace(ToolOutcome),
    ReplaceAndTerminate(ToolOutcome),
}

/// What a lifecycle hook answers.
#[derive(Debug)]
pub enum LifecycleOutcome {
    Pass,
    FailedContinue { reason: String },
    FailedAbort { reason: String },
    ManualAttention { reason: String },
}

/// What the pre-tool hooks decided for one call.
#[derive(Debug)]
pub enum HookDecision {
    Pass,
    Override(ToolOutcome),
    FailedContinue(String),
    FailedAbort(String),
    ManualAttention(String),
}

/// Whether a compaction round goes ahead.
#[derive(Debug, Clone, Copy, PartialEq, Eq, Structural)]
pub enum CompactGate {
    Proceed,
    Skip,
}

/// What happens to a tool call once the pre-tool hooks have decided.
#[derive(Debug)]
pub enum PreStep {
    /// Run the tool.
    Execute,
    /// Use this outcome without running the tool.
    Done(ToolOutcome),
    /// Stop the run.
    Fail(LoopError),
}

/// The decision a non-`Pass` pre-hook outcome stands for.
pub open spec fn decision_of(o: HookOutcome) -> HookDecision {
    match o {
        HookOutcome::Pass => HookDecision::Pass,
        HookOutcome::Override(t) => HookDecision::Override(t),
        HookOutcome::FailedContinue { reason } => HookDecision::FailedContinue(reason),
        HookOutcome::FailedAbort { reason } => HookDecision::FailedAbort(reason),
        HookOutcome::ManualAttention { reason } => HookDecision::ManualAttention(reason),
    }
}

/// The decision of a sequence of pre-hook outcomes: the first that is not
/// `Pass`.
pub open spec fn first_decision(os: Seq<HookOutcome>) -> HookDecision
    decreases os.len(),
{
    if os.len() == 0 {
        HookDecision::Pass
    } else if os[0] is Pass {
        first_decision(os.drop_first())
    } else {
        decision_of(os[0])
    }
}

/// One post-hook outcome applied to the running outcome and terminate
/// flag.
pub open spec fn post_step(cur: (ToolOutcome, bool), o: PostHookOutcome) -> (ToolOutcome, bool) {
    match o {
        PostHookOutcome::Pass => cur,
        PostHookOutcome::Replace(t) => (t, false),
        PostHookOutcome::ReplaceAndTerminate(t) => (t, true),
    }
}

/// All post-hook outcomes applied in order.
pub open spec fn post_fold(init: ToolOutcome, os: Seq<PostHookOutcome>) -> (ToolOutcome, bool)
    decreases os.len(),
{
    if os.len() == 0 {
        (init, false)
    } else {
        post_step(post_fold(init, os.drop_last()), os.last())
    }
}

/// The result of a sequence of lifecycle outcomes: the first that is not
/// `Pass` decides and the hooks after it are not asked; a failed-but-continue
/// lets the run go on.
pub open spec fn lifecycle_result(os: Seq<LifecycleOutcome>) -> Result<(), LoopError>
    decreases os.len(),
{
    if os.len() == 0 {
        Ok(())
    } else {
        match os[0] {
            LifecycleOutcome::Pass => lifecycle_result(os.drop_first()),
            LifecycleOutcome::FailedContinue { .. } => Ok(()),
            LifecycleOutcome::FailedAbort { reason } => Err(LoopError::HookAborted(reason)),
            LifecycleOutcome::ManualAttention { reason } => Err(LoopError::ManualAttention(reason)),
        }
    }
}

/// The result of the outcomes before a compaction: the first that is not
/// `Pass` decides; a failed-but-continue skips the compaction.
pub open spec fn compact_result(os: Seq<LifecycleOutcome>) -> Result<CompactGate, LoopError>
    decreases os.len(),
{
    if os.len() == 0 {
        Ok(CompactGate::Proceed)
    } else {
        match os[0] {
            LifecycleOutcome::Pass => compact_result(os.drop_first()),
            LifecycleOutcome::FailedContinue { .. } => Ok(CompactGate::Skip),
            LifecycleOutcome::FailedAbort { reason } => Err(LoopError::HookAborted(reason)),
            LifecycleOutcome::ManualAttention { reason } => Err(LoopError::ManualAttention(reason)),
        }
    }
}

/// What the pre-hooks must decide, said of their outcomes one by one: when
/// every hook passes the call runs; otherwise the first hook that does not
/// pass decides, with its own override or reason.
pub open spec fn pre_verdict(os: Seq<HookOutcome>, d: HookDecision) -> bool {
    &&& (forall|j: int| 0 <= j < os.len() ==> (#[trigger] os[j]) is Pass) ==> d is Pass
    &&& forall|i: int|
        0 <= i < os.len() && !(#[trigger] os[i] is Pass) && (forall|j: int| 0 <= j < i ==> (#[trigger] os[j]) is Pass)
            ==> {
            &&& os[i] is Override ==> d == HookDecision::Override(os[i]->Override_0)
            &&& os[i] is FailedContinue ==> d == HookDecision::FailedContinue(os[i]->FailedContinue_reason)
            &&& os[i] is FailedAbort ==> d == HookDecision::FailedAbort(os[i]->FailedAbort_reason)
            &&& os[i] is ManualAttention ==> d == HookDecision::ManualAttention(os[i]->ManualAttention_reason)
        }
}

/// Law: the pre-hooks' decision is the one their outcomes call for
/// (`pre_verdict`).
pub proof fn lemma_pre_verdict(os: Seq<HookOutcome>)
    ensures
        pre_verdict(os, first_decision(os)),
    decreases os.len(),
{
    if os.len() > 0 {
        let rest = os.drop_first();
        lemma_pre_verdict(rest);
        if os[0] is Pass {
            assert forall|j: int| 0 <= j < rest.len() && (forall|k: int| 0 <= k < os.len() ==> (#[trigger] os[k]) is Pass)
                implies (#[trigger] rest[j]) is Pass by {
                assert(rest[j] == os[j + 1]);
            }
            assert forall|i: int|
                0 <= i < os.len() && !(#[trigger] os[i] is Pass) && (forall|j: int| 0 <= j < i ==> (#[trigger] os[j]) is Pass)
                implies 0 <= i - 1 < rest.len() && !(rest[i - 1] is Pass) && (forall|j: int| 0 <= j < i - 1 ==> (#[trigger] rest[j]) is Pass) && rest[i - 1] == os[i] by {
                assert(i != 0);
                assert(rest[i - 1] == os[i]);
                assert forall|j: int| 0 <= j < i - 1 implies (#[trigger] rest[j]) is Pass by {
                    assert(rest[j] == os[j + 1]);
                }
            }
        } else {
            assert forall|i: int|
                0 <= i < os.len() && !(#[trigger] os[i] is Pass) && (forall|j: int| 0 <= j < i ==> (#[trigger] os[j]) is Pass)
                implies i == 0 by {
                if i > 0 {
                    assert(os[0] is Pass);
                }
            }
        }
    }
}

/// One pre-hook outcome: `None` to ask the next hook, else the decision.
pub fn pre_hook_step(o: HookOutcome) -> (r: Option<HookDecision>)
    ensures
        o is Pass ==> r is None,
        !(o is Pass) ==> r == Some(decision_of(o)),
        o is Override ==> r == Some(HookDecision::Override(o->Override_0)),
        o is FailedContinue ==> r == Some(HookDecision::FailedContinue(o->FailedContinue_reason)),
        o is FailedAbort ==> r == Some(HookDecision::FailedAbort(o->FailedAbort_reason)),
        o is ManualAttention ==> r == Some(HookDecision::ManualAttention(o->ManualAttention_reason)),
{
    match o {
        HookOutcome::Pass => None,
        HookOutcome::Override(t) => Some(HookDecision::Override(t)),
        HookOutcome::FailedContinue { reason } => Some(HookDecision::FailedContinue(reason)),
        HookOutcome::FailedAbort { reason } => Some(HookDecision::FailedAbort(reason)),
        HookOutcome::ManualAttention { reason } => Some(HookDecision::ManualAttention(reason)),
    }
}

/// The decision of the pre-hooks, given their outcomes in order.
pub fn run_pre_hooks(outcomes: Vec<HookOutcome>) -> (d: HookDecision)
    ensures
        d == first_decision(outcomes@),
        pre_verdict(outcomes@, d),
{
    let ghost all = outcomes@;
    proof {
        lemma_pre_verdict(all);
    }
    assert(all.skip(0) =~= all);
    for o in it: outcomes
        invariant
            it.seq() == all,
            first_decision(all) == first_decision(all.skip(it.index() as int)),
            pre_verdict(all, first_decision(all)),
    {
        let ghost k = it.index() as int;
        proof {
            assert(all.skip(k)[0] == all[k]);
            assert(all.skip(k).drop_first() =~= all.skip(k + 1));
        }
        match pre_hook_step(o) {
            Some(d) => {
                return d;
            },
            None => {},
        }
    }
    assert(all.skip(all.len() as int).len() == 0);
    HookDecision::Pass
}

/// One post-hook outcome applied to the running outcome and flag.
pub fn post_hook_step(cur: ToolOutcome, terminate: bool, o: PostHookOutcome) -> (r: (ToolOutcome, bool))
    ensures
        r == post_step((cur, terminate), o),
{
    match o {
        PostHookOutcome::Pass => (cur, terminate),
        PostHookOutcome::Replace(t) => (t, false),
        PostHookOutcome::ReplaceAndTerminate(t) => (t, true),
    }
}

/// The outcome and terminate hint after all post-hooks, given their
/// outcomes in order.
pub fn run_post_hooks(outcome: ToolOutcome, outcomes: Vec<PostHookOutcome>) -> (r: (ToolOutcome, bool))
    ensures
        r == post_fold(outcome, outcomes@),
{
    let ghost init = outcome;
    let ghost all = outcomes@;
    let mut cur = outcome;
    let mut term = false;
    assert(all.take(0) =~= Seq::<PostHookOutcome>::empty());
    for o in it: outcomes
        invariant
            it.seq() == all,
            (cur, term) == post_fold(init, all.take(it.index() as int)),
    {
        let ghost k = it.index() as int;
        proof {
            assert(all.take(k + 1).drop_last() =~= all.take(k));
            assert(all.take(k + 1).last() == all[k]);
        }
        let r = post_hook_step(cur, term, o);
        cur = r.0;
        term = r.1;
    }
    assert(all.take(all.len() as int) =~= all);
    (cur, term)
}

/// Is `os[i]` the first outcome that is not `Pass`?
pub open spec fn first_non_pass_at(os: Seq<LifecycleOutcome>, i: int) -> bool {
    &&& 0 <= i < os.len()
    &&& !(os[i] is Pass)
    &&& forall|j: int| 0 <= j < i ==> (#[trigger] os[j]) is Pass
}

/// What a lifecycle checkpoint must answer, said of its outcomes one by
/// one: when every hook passes the run goes on; otherwise the first hook
/// that does not pass decides — a failed-but-continue lets the run go on,
/// an abort stops it with `HookAborted` and a request for manual attention
/// stops it with `ManualAttention`, each with that hook's reason.
pub open spec fn lifecycle_verdict(os: Seq<LifecycleOutcome>, r: Result<(), LoopError>) -> bool {
    &&& (forall|j: int| 0 <= j < os.len() ==> (#[trigger] os[j]) is Pass) ==> r is Ok
    &&& forall|i: int| #[trigger] first_non_pass_at(os, i) ==> {
        &&& os[i] is FailedContinue ==> r is Ok
        &&& os[i] is FailedAbort ==> r == Err::<(), LoopError>(LoopError::HookAborted(os[i]->FailedAbort_reason))
        &&& os[i] is ManualAttention ==> r == Err::<(), LoopError>(
            LoopError::ManualAttention(os[i]->ManualAttention_reason),
        )
    }
}

/// The same before a compaction, where a failed-but-continue skips the
/// compaction and hooks that all pass let it go ahead.
pub open spec fn compact_verdict(os: Seq<LifecycleOutcome>, r: Result<CompactGate, LoopError>) -> bool {
    &&& (forall|j: int| 0 <= j < os.len() ==> (#[trigger] os[j]) is Pass) ==> r == Ok::<
        CompactGate,
        LoopError,
    >(CompactGate::Proceed)
    &&& forall|i: int| #[trigger] first_non_pass_at(os, i) ==> {
        &&& os[i] is FailedContinue ==> r == Ok::<CompactGate, LoopError>(CompactGate::Skip)
        &&& os[i] is FailedAbort ==> r == Err::<CompactGate, LoopError>(
            LoopError::HookAborted(os[i]->FailedAbort_reason),
        )
        &&& os[i] is ManualAttention ==> r == Err::<CompactGate, LoopError>(
            LoopError::ManualAttention(os[i]->ManualAttention_reason),
        )
    }
}

/// Law: the result of a lifecycle checkpoint is the one its outcomes call
/// for (`lifecycle_verdict`), and likewise before a compaction
/// (`compact_verdict`).
pub proof fn lemma_lifecycle_verdict(os: Seq<LifecycleOutcome>)
    ensures
        lifecycle_verdict(os, lifecycle_result(os)),
        compact_verdict(os, compact_result(os)),
    decreases os.len(),
{
    if os.len() > 0 {
        let rest = os.drop_first();
        lemma_lifecycle_verdict(rest);
        if os[0] is Pass {
            assert forall|j: int| 0 <= j < rest.len() && (forall|k: int| 0 <= k < os.len() ==> (#[trigger] os[k]) is Pass)
                implies (#[trigger] rest[j]) is Pass by {
                assert(rest[j] == os[j + 1]);
            }
            assert forall|i: int| #[trigger] first_non_pass_at(os, i) implies first_non_pass_at(rest, i - 1) by {
                assert(i != 0);
                assert(rest[i - 1] == os[i]);
                assert forall|j: int| 0 <= j < i - 1 implies (#[trigger] rest[j]) is Pass by {
                    assert(rest[j] == os[j + 1]);
                }
            }
        } else {
            assert forall|i: int| #[trigger] first_non_pass_at(os, i) implies i == 0 by {
                if i > 0 {
                    assert(os[0] is Pass);
                }
            }
        }
    }
}

/// One lifecycle outcome: `None` to ask the next hook, else the result of
/// the checkpoint.
pub fn lifecycle_step(o: LifecycleOutcome) -> (r: Option<Result<(), LoopError>>)
    ensures
        o is Pass ==> r is None,
        !(o is Pass) ==> r == Some(lifecycle_result(seq![o])),
        o is FailedContinue ==> r == Some(Ok::<(), LoopError>(())),
        o is FailedAbort ==> r == Some(Err::<(), LoopError>(LoopError::HookAborted(o->FailedAbort_reason))),
        o is ManualAttention ==> r == Some(
            Err::<(), LoopError>(LoopError::ManualAttention(o->ManualAttention_reason)),
        ),
{
    match o {
        LifecycleOutcome::Pass => None,
        LifecycleOutcome::FailedContinue { .. } => Some(Ok(())),
        LifecycleOutcome::FailedAbort { reason } => Some(Err(LoopError::HookAborted(reason))),
        LifecycleOutcome::ManualAttention { reason } => Some(Err(LoopError::ManualAttention(reason))),
    }
}

/// The result of the lifecycle hooks, given their outcomes in order.
pub fn fire_lifecycle(outcomes: Vec<LifecycleOutcome>) -> (r: Result<(), LoopError>)
    ensures
        r == lifecycle_result(outcomes@),
        lifecycle_verdict(outcomes@, r),
{
    let ghost all = outcomes@;
    proof {
        lemma_lifecycle_verdict(all);
    }
    assert(all.skip(0) =~= all);
    for o in it: outcomes
        invariant
            it.seq() == all,
            lifecycle_result(all) == lifecycle_result(all.skip(it.index() as int)),
            lifecycle_verdict(all, lifecycle_result(all)),
    {
        let ghost k = it.index() as int;
        proof {
            assert(all.skip(k)[0] == all[k]);
            assert(all.skip(k).drop_first() =~= all.skip(k + 1));
            assert(seq![o].drop_first() =~= Seq::<LifecycleOutcome>::empty());
        }
        match lifecycle_step(o) {
            Some(r) => {
                return r;
            },
            None => {},
        }
    }
    assert(all.skip(all.len() as int).len() == 0);
    Ok(())
}

/// One lifecycle outcome before a compaction: `None` to ask the next hook.
pub fn compact_gate_step(o: LifecycleOutcome) -> (r: Option<Result<CompactGate, LoopError>>)
    ensures
        o is Pass ==> r is None,
        !(o is Pass) ==> r == Some(compact_result(seq![o])),
        o is FailedContinue ==> r == Some(Ok::<CompactGate, LoopError>(CompactGate::Skip)),
        o is FailedAbort ==> r == Some(
            Err::<CompactGate, LoopError>(LoopError::HookAborted(o->FailedAbort_reason)),
        ),
        o is ManualAttention ==> r == Some(
            Err::<CompactGate, LoopError>(LoopError::ManualAttention(o->ManualAttention_reason)),
        ),
{
    match o {
        LifecycleOutcome::Pass => None,
        LifecycleOutcome::FailedContinue { .. } => Some(Ok(CompactGate::Skip)),
        LifecycleOutcome::FailedAbort { reason } => Some(Err(LoopError::HookAborted(reason))),
        LifecycleOutcome::ManualAttention { reason } => Some(Err(LoopError::ManualAttention(reason))),
    }
}

/// Whether a compaction goes ahead, given the hooks' outcomes in order.
pub fn fire_lifecycle_compact(outcomes: Vec<LifecycleOutcome>) -> (r: Result<CompactGate, LoopError>)
    ensures
        r == compact_result(outcomes@),
        compact_verdict(outcomes@, r),
{
    let ghost all = outcomes@;
    proof {
        lemma_lifecycle_verdict(all);
    }
    assert(all.skip(0) =~= all);
    for o in it: outcomes
        invariant
            it.seq() == all,
            compact_result(all) == compact_result(all.skip(it.index() as int)),
            compact_verdict(all, compact_result(all)),
    {
        let ghost k = it.index() as int;
        proof {
            assert(all.skip(k)[0] == all[k]);
            assert(all.skip(k).drop_first() =~= all.skip(k + 1));
            assert(seq![o].drop_first() =~= Seq::<LifecycleOutcome>::empty());
        }
        match compact_gate_step(o) {
            Some(r) => {
                return r;
            },
            None => {},
        }
    }
    assert(all.skip(all.len() as int).len() == 0);
    Ok(CompactGate::Proceed)
}

/// What happens to a call once the pre-hooks decided `d`.
pub fn process_decision(d: HookDecision) -> (s: PreStep)
    ensures
        match d {
            HookDecision::Pass => s is Execute,
            HookDecision::Override(o) => s == PreStep::Done(o),
            HookDecision::FailedContinue(r) => s matches PreStep::Done(o) && o.is_error
                && o.details is None && o.content@.len() == 1
                && (o.content@[0] matches ContentBlock::Text { text } && text@ == r@),
            HookDecision::FailedAbort(r) => s == PreStep::Fail(LoopError::HookAborted(r)),
            HookDecision::ManualAttention(r) => s == PreStep::Fail(LoopError::ManualAttention(r)),
        },
{
    match d {
        HookDecision::Pass => PreStep::Execute,
        HookDecision::Override(o) => PreStep::Done(o),
        HookDecision::FailedContinue(r) => PreStep::Done(ToolOutcome::error(r)),
        HookDecision::FailedAbort(r) => PreStep::Fail(LoopError::HookAborted(r)),
        HookDecision::ManualAttention(r) => PreStep::Fail(LoopError::ManualAttention(r)),
    }
}

/// Law: the pre-hooks' decision is that of the first hook that does not
/// pass; the hooks after it do not matter.
pub proof fn lemma_first_non_pass_decides(os: Seq<HookOutcome>, i: int)
    requires
        0 <= i < os.len(),
        !(os[i] is Pass),
        forall|j: int| 0 <= j < i ==> os[j] is Pass,
    ensures
        first_decision(os) == decision_of(os[i]),
    decreases i,
{
    if i > 0 {
        assert forall|j: int| 0 <= j < i - 1 implies os.drop_first()[j] is Pass by {
            assert(os.drop_first()[j] == os[j + 1]);
        }
        lemma_first_non_pass_decides(os.drop_first(), i - 1);
    }
}

/// Law: at a lifecycle checkpoint the first hook that does not pass
/// decides the result, whatever the hooks after it would answer; a
/// failed-but-continue lets the run go on.
pub proof fn lemma_first_lifecycle_outcome_decides(os: Seq<LifecycleOutcome>, i: int)
    requires
        0 <= i < os.len(),
        !(os[i] is Pass),
        forall|j: int| 0 <= j < i ==> os[j] is Pass,
    ensures
        lifecycle_result(os) == lifecycle_result(seq![os[i]]),
        os[i] is FailedContinue ==> lifecycle_result(os) is Ok,
    decreases i,
{
    if i > 0 {
        assert forall|j: int| 0 <= j < i - 1 implies os.drop_first()[j] is Pass by {
            assert(os.drop_first()[j] == os[j + 1]);
        }
        lemma_first_lifecycle_outcome_decides(os.drop_first(), i - 1);
    }
}

/// Law: after the post-hooks, the outcome is that of the last hook that
/// replaced it, and the run is asked to terminate exactly when that last
/// replacement asked for it.
pub proof fn lemma_last_replacement_wins(init: ToolOutcome, os: Seq<PostHookOutcome>, i: int)
    requires
        0 <= i < os.len(),
        !(os[i] is Pass),
        forall|j: int| i < j < os.len() ==> os[j] is Pass,
    ensures
        post_fold(init, os) == (match os[i] {
            PostHookOutcome::Replace(t) => (t, false),
            PostHookOutcome::ReplaceAndTerminate(t) => (t, true),
            PostHookOutcome::Pass => (init, false),
        }),
    decreases os.len(),
{
    if i < os.len() - 1 {
        assert(os.drop_last()[i] == os[i]);
        assert forall|j: int| i < j < os.drop_last().len() implies os.drop_last()[j] is Pass by {
            assert(os.drop_last()[j] == os[j]);
        }
        lemma_last_replacement_wins(init, os.drop_last(), i);
    }
}

/// Law: post-hooks that all pass leave the outcome as it was and never
/// ask to terminate.
pub proof fn lemma_all_pass_keeps_outcome(init: ToolOutcome, os: Seq<PostHookOutcome>)
    requires
        forall|j: int| 0 <= j < os.len() ==> os[j] is Pass,
    ensures
        post_fold(init, os) == (init, false),
    decreases os.len(),
{
    if os.len() > 0 {
        assert forall|j: int| 0 <= j < os.drop_last().len() implies os.drop_last()[j] is Pass by {
            assert(os.drop_last()[j] == os[j]);
        }
        lemma_all_pass_keeps_outcome(init, os.drop_last());
    }
}

} // verus!
