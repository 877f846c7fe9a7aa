//! The order of one run. A run announces itself (`AgentStart`), commits
//! the prompt, and then repeats turns: a turn gate, steering messages, the
//! `PreTurn` checkpoint, a compaction round, the model request, the
//! assistant's message and the `PostTurn` checkpoint, and then tools,
//! follow-ups or the end. It always closes with `AgentEnd`. Each step says
//! exactly which step comes next; the caller performs the step (fires the
//! hooks, emits the event, awaits the model) and reports back.
//!
//! The run owns the conversation log while it lasts and only appends to
//! it, so the log before the run, followed by the prompt, stays a prefix of
//! the log after it.

use vstd::prelude::*;
use crate::agent::control::{is_terminal, AfterTurn, RunControl, RunOutcome, TurnGate};
use crate::agent::error::LoopError;
use crate::agent::log::{extends, lemma_log_prefix_stays, MessageLog};
use crate::message::{models, AgentMessage, MessageModel, StopReason};

verus! {

/// The step a run takes next.
#[derive(Debug, Clone, Copy, PartialEq, Eq, Structural)]
pub enum RunPhase {
    /// Emit the `AgentStart` event.
    EmitAgentStart,
    /// Fire the `AgentStart` checkpoint.
    FireAgentStart,
    /// Commit the prompt (`commit_prompt`).
    CommitPrompt,
    /// Fire `PostMessageCommit` for the prompt.
    FirePromptCommit,
    /// Emit `MessageCommitted` for the prompt.
    EmitPromptCommit,
    /// Count the turn and check for an abort (`begin_turn`).
    BeginTurn,
    /// Append the queued steering messages (`drain_steering`).
    DrainSteering,
    /// Fire the `PreTurn` checkpoint.
    FirePreTurn,
    /// Emit the `TurnStart` event.
    EmitTurnStart,
    /// Ask whether to compact and run the `PreCompact` checkpoint
    /// (`compaction`).
    AskCompaction,
    /// Fire `PostMessageCommit` for the compaction marker.
    FireMarkerCommit,
    /// Emit `MessageCommitted` for the marker.
    EmitMarkerCommit,
    /// Fire the `PostCompact` checkpoint.
    FirePostCompact,
    /// Derive the model payload from the log.
    Transform,
    /// Fire the `PreModelRequest` checkpoint.
    FirePreModelRequest,
    /// Ask the model, stream its turn and commit it (`commit_turn`).
    StreamTurn,
    /// Fire `PostMessageCommit` for the assistant's message.
    FireTurnCommit,
    /// Emit `MessageCommitted` for the assistant's message.
    EmitTurnCommit,
    /// Fire the `PostTurn` checkpoint.
    FirePostTurn,
    /// Emit the `TurnEnd` event.
    EmitTurnEnd,
    /// Run the turn's tool calls and commit their results (`dispatched`).
    DispatchTools,
    /// Take the follow-up messages (`follow_ups`).
    DrainFollowUps,
    /// Fire the `AgentEnd` checkpoint.
    FireAgentEnd,
    /// Emit the `AgentEnd` event.
    EmitAgentEnd,
    /// The run is over.
    Done,
}

/// Is `p` a step that only fires a checkpoint, emits an event or derives
/// the payload (taken by `step`)?
pub open spec fn is_plain(p: RunPhase) -> bool {
    !(p is CommitPrompt || p is BeginTurn || p is DrainSteering || p is AskCompaction || p is StreamTurn
        || p is DispatchTools || p is DrainFollowUps || p is Done)
}

/// The step after the plain step `p`; after `TurnEnd`, `after` (what the
/// turn's stop decided) chooses.
pub open spec fn next_plain(p: RunPhase, after: AfterTurn) -> RunPhase {
    match p {
        RunPhase::EmitAgentStart => RunPhase::FireAgentStart,
        RunPhase::FireAgentStart => RunPhase::CommitPrompt,
        RunPhase::FirePromptCommit => RunPhase::EmitPromptCommit,
        RunPhase::EmitPromptCommit => RunPhase::BeginTurn,
        RunPhase::FirePreTurn => RunPhase::EmitTurnStart,
        RunPhase::EmitTurnStart => RunPhase::AskCompaction,
        RunPhase::FireMarkerCommit => RunPhase::EmitMarkerCommit,
        RunPhase::EmitMarkerCommit => RunPhase::FirePostCompact,
        RunPhase::FirePostCompact => RunPhase::Transform,
        RunPhase::Transform => RunPhase::FirePreModelRequest,
        RunPhase::FirePreModelRequest => RunPhase::StreamTurn,
        RunPhase::FireTurnCommit => RunPhase::EmitTurnCommit,
        RunPhase::EmitTurnCommit => RunPhase::FirePostTurn,
        RunPhase::FirePostTurn => RunPhase::EmitTurnEnd,
        RunPhase::EmitTurnEnd => match after {
            AfterTurn::EndRun => RunPhase::FireAgentEnd,
            AfterTurn::AwaitFollowUps => RunPhase::DrainFollowUps,
            AfterTurn::DispatchTools => RunPhase::DispatchTools,
        },
        RunPhase::FireAgentEnd => RunPhase::EmitAgentEnd,
        RunPhase::EmitAgentEnd => RunPhase::Done,
        _ => p,
    }
}

/// Is the prompt still to be committed in phase `p`?
pub open spec fn before_prompt(p: RunPhase) -> bool {
    p is EmitAgentStart || p is FireAgentStart || p is CommitPrompt
}

/// Has a stop reason been settled by phase `p`?
pub open spec fn stop_known(p: RunPhase) -> bool {
    p is FireTurnCommit || p is EmitTurnCommit || p is FirePostTurn || p is EmitTurnEnd || p is DispatchTools
        || p is DrainFollowUps || p is FireAgentEnd || p is EmitAgentEnd || p is Done
}

/// What a turn that stopped with `stop` leads to.
pub open spec fn after_turn_of(stop: StopReason, has_tool_calls: bool) -> AfterTurn {
    if is_terminal(stop) {
        AfterTurn::EndRun
    } else if !has_tool_calls {
        AfterTurn::AwaitFollowUps
    } else {
        AfterTurn::DispatchTools
    }
}

fn plain_next(p: RunPhase, after: AfterTurn) -> (q: RunPhase)
    ensures
        q == next_plain(p, after),
{
    match p {
        RunPhase::EmitAgentStart => RunPhase::FireAgentStart,
        RunPhase::FireAgentStart => RunPhase::CommitPrompt,
        RunPhase::FirePromptCommit => RunPhase::EmitPromptCommit,
        RunPhase::EmitPromptCommit => RunPhase::BeginTurn,
        RunPhase::FirePreTurn => RunPhase::EmitTurnStart,
        RunPhase::EmitTurnStart => RunPhase::AskCompaction,
        RunPhase::FireMarkerCommit => RunPhase::EmitMarkerCommit,
        RunPhase::EmitMarkerCommit => RunPhase::FirePostCompact,
        RunPhase::FirePostCompact => RunPhase::Transform,
        RunPhase::Transform => RunPhase::FirePreModelRequest,
        RunPhase::FirePreModelRequest => RunPhase::StreamTurn,
        RunPhase::FireTurnCommit => RunPhase::EmitTurnCommit,
        RunPhase::EmitTurnCommit => RunPhase::FirePostTurn,
        RunPhase::FirePostTurn => RunPhase::EmitTurnEnd,
        RunPhase::EmitTurnEnd => match after {
            AfterTurn::EndRun => RunPhase::FireAgentEnd,
            AfterTurn::AwaitFollowUps => RunPhase::DrainFollowUps,
            AfterTurn::DispatchTools => RunPhase::DispatchTools,
        },
        RunPhase::FireAgentEnd => RunPhase::EmitAgentEnd,
        RunPhase::EmitAgentEnd => RunPhase::Done,
        _ => p,
    }
}

/// One run of the agent loop over a conversation log.
pub struct AgentRun {
    log: MessageLog,
    control: RunControl,
    phase: RunPhase,
    after: AfterTurn,
    prompt: Option<AgentMessage>,
    start: Ghost<Seq<MessageModel>>,
    prompt_model: Ghost<MessageModel>,
}

impl AgentRun {
    /// The step the run takes next.
    pub closed spec fn phase_of(&self) -> RunPhase {
        self.phase
    }

    /// The log as it stands.
    pub closed spec fn log_of(&self) -> Seq<MessageModel> {
        self.log@
    }

    /// The log before the run.
    pub closed spec fn start_log(&self) -> Seq<MessageModel> {
        self.start@
    }

    /// The run's prompt.
    pub closed spec fn prompt_of(&self) -> MessageModel {
        self.prompt_model@
    }

    /// The run's counters.
    pub closed spec fn control_of(&self) -> RunControl {
        self.control
    }

    /// What the last turn's stop decided.
    pub closed spec fn after_of(&self) -> AfterTurn {
        self.after
    }

    /// The log holds the log before the run, then (once committed) the
    /// prompt, then only appended messages; the turn cap is not passed;
    /// and once a turn has ended or the run was aborted the stop reason is
    /// known.
    pub closed spec fn wf(&self) -> bool {
        &&& self.control.baseline() == self.start@.len()
        &&& self.control.iteration() <= self.control.max_iterations()
        &&& before_prompt(self.phase) ==> (self.log@ == self.start@ && (self.prompt matches Some(m) && m@
            == self.prompt_model@))
        &&& !before_prompt(self.phase) ==> extends(self.log@, self.start@.push(self.prompt_model@))
        &&& stop_known(self.phase) ==> self.control.last_stop() is Some
    }

    /// A run that will send `prompt` over `log`, with a cap of
    /// `max_iterations` turns. It starts by emitting `AgentStart`.
    pub fn start(log: MessageLog, prompt: AgentMessage, max_iterations: usize) -> (r: AgentRun)
        ensures
            r.wf(),
            r.phase_of() == RunPhase::EmitAgentStart,
            r.log_of() == log@,
            r.start_log() == log@,
            r.prompt_of() == prompt@,
            r.control_of().iteration() == 0,
            r.control_of().max_iterations() == max_iterations,
    {
        let ghost start = log@;
        let ghost pm = prompt@;
        let baseline = log.len();
        AgentRun {
            log,
            control: RunControl::new(max_iterations, baseline),
            phase: RunPhase::EmitAgentStart,
            after: AfterTurn::EndRun,
            prompt: Some(prompt),
            start: Ghost(start),
            prompt_model: Ghost(pm),
        }
    }

    /// The step the run takes next.
    pub fn phase(&self) -> (p: RunPhase)
        ensures
            p == self.phase_of(),
    {
        self.phase
    }

    /// The log, oldest first.
    pub fn messages(&self) -> (r: &Vec<AgentMessage>)
        ensures
            models(r@) == self.log_of(),
    {
        self.log.messages()
    }

    /// The number of messages in the log.
    pub fn len(&self) -> (n: usize)
        ensures
            n == self.log_of().len(),
    {
        self.log.len()
    }

    /// Takes a plain step: the caller has fired the checkpoint, emitted the
    /// event or derived the payload that the phase names.
    pub fn step(&mut self)
        requires
            old(self).wf(),
            is_plain(old(self).phase_of()),
        ensures
            final(self).wf(),
            final(self).phase_of() == next_plain(old(self).phase_of(), old(self).after_of()),
            final(self).log_of() == old(self).log_of(),
            final(self).start_log() == old(self).start_log(),
            final(self).prompt_of() == old(self).prompt_of(),
            final(self).control_of() == old(self).control_of(),
            final(self).after_of() == old(self).after_of(),
    {
        self.phase = plain_next(self.phase, self.after);
        proof {
            if old(self).phase == RunPhase::EmitTurnEnd && self.after == AfterTurn::EndRun {
                assert(stop_known(old(self).phase));
            }
        }
    }

    /// Commits the prompt and hands back a copy of it.
    pub fn commit_prompt(&mut self) -> (m: AgentMessage)
        requires
            old(self).wf(),
            old(self).phase_of() == RunPhase::CommitPrompt,
        ensures
            final(self).wf(),
            final(self).phase_of() == RunPhase::FirePromptCommit,
            final(self).log_of() == old(self).log_of().push(old(self).prompt_of()),
            m@ == old(self).prompt_of(),
            final(self).start_log() == old(self).start_log(),
            final(self).prompt_of() == old(self).prompt_of(),
            final(self).control_of() == old(self).control_of(),
            final(self).after_of() == old(self).after_of(),
    {
        let mut taken: Option<AgentMessage> = None;
        std::mem::swap(&mut taken, &mut self.prompt);
        let p = taken.unwrap();
        let m = self.log.commit(p);
        self.phase = RunPhase::FirePromptCommit;
        proof {
            assert(self.log@.take(self.start@.push(self.prompt_model@).len() as int) =~= self.log@);
        }
        m
    }

    /// Starts a turn: fails once the cap is reached; otherwise counts the
    /// turn and, on an abort, goes to the end of the run (which then stops
    /// with `Error`), else to the steering messages.
    pub fn begin_turn(&mut self, aborted: bool) -> (r: Result<(), LoopError>)
        requires
            old(self).wf(),
            old(self).phase_of() == RunPhase::BeginTurn,
        ensures
            final(self).wf(),
            old(self).control_of().iteration() >= old(self).control_of().max_iterations() ==> ((r matches Err(
                LoopError::MaxIterations(n)) && n == old(self).control_of().max_iterations()) && *final(self) == *old(self)),
            old(self).control_of().iteration() < old(self).control_of().max_iterations() ==> {
                &&& r is Ok
                &&& final(self).control_of().iteration() == old(self).control_of().iteration() + 1
                &&& final(self).phase_of() == if aborted {
                    RunPhase::FireAgentEnd
                } else {
                    RunPhase::DrainSteering
                }
                &&& aborted ==> final(self).control_of().last_stop() == Some(StopReason::Error)
            },
            final(self).log_of() == old(self).log_of(),
            final(self).start_log() == old(self).start_log(),
            final(self).prompt_of() == old(self).prompt_of(),
            final(self).control_of().max_iterations() == old(self).control_of().max_iterations(),
            final(self).after_of() == old(self).after_of(),
    {
        match self.control.begin_turn(aborted) {
            Err(e) => Err(e),
            Ok(TurnGate::Aborted) => {
                self.phase = RunPhase::FireAgentEnd;
                Ok(())
            },
            Ok(TurnGate::Proceed) => {
                self.phase = RunPhase::DrainSteering;
                Ok(())
            },
        }
    }

    /// Appends the steering messages typed while the run was busy.
    pub fn drain_steering(&mut self, steering: Vec<AgentMessage>)
        requires
            old(self).wf(),
            old(self).phase_of() == RunPhase::DrainSteering,
        ensures
            final(self).wf(),
            final(self).phase_of() == RunPhase::FirePreTurn,
            final(self).log_of() == old(self).log_of() + models(steering@),
            final(self).start_log() == old(self).start_log(),
            final(self).prompt_of() == old(self).prompt_of(),
            final(self).control_of() == old(self).control_of(),
            final(self).after_of() == old(self).after_of(),
    {
        let ghost before = self.log@;
        self.log.append(steering);
        self.phase = RunPhase::FirePreTurn;
        proof {
            lemma_log_prefix_stays(self.start@.push(self.prompt_model@), before, self.log@);
        }
    }

    /// Ends the compaction round: `marker` is the marker to append, or
    /// `None` when the log is not compacted now (or a checkpoint cancelled
    /// the round). A committed marker is handed back.
    pub fn compaction(&mut self, marker: Option<AgentMessage>) -> (r: Option<AgentMessage>)
        requires
            old(self).wf(),
            old(self).phase_of() == RunPhase::AskCompaction,
        ensures
            final(self).wf(),
            match marker {
                Some(m) => final(self).phase_of() == RunPhase::FireMarkerCommit && final(self).log_of()
                    == old(self).log_of().push(m@) && (r matches Some(c) && c@ == m@),
                None => final(self).phase_of() == RunPhase::Transform && final(self).log_of() == old(
                    self,
                ).log_of() && r is None,
            },
            final(self).start_log() == old(self).start_log(),
            final(self).prompt_of() == old(self).prompt_of(),
            final(self).control_of() == old(self).control_of(),
            final(self).after_of() == old(self).after_of(),
    {
        match marker {
            Some(m) => {
                let ghost before = self.log@;
                let c = self.log.commit(m);
                self.phase = RunPhase::FireMarkerCommit;
                proof {
                    lemma_log_prefix_stays(self.start@.push(self.prompt_model@), before, self.log@);
                }
                Some(c)
            },
            None => {
                self.phase = RunPhase::Transform;
                None
            },
        }
    }

    /// Commits the assistant's turn, which stopped with `stop`, and hands
    /// back a copy; the stop decides what follows the turn.
    pub fn commit_turn(&mut self, message: AgentMessage, stop: StopReason, has_tool_calls: bool) -> (m:
        AgentMessage)
        requires
            old(self).wf(),
            old(self).phase_of() == RunPhase::StreamTurn,
        ensures
            final(self).wf(),
            final(self).phase_of() == RunPhase::FireTurnCommit,
            final(self).log_of() == old(self).log_of().push(message@),
            m@ == message@,
            final(self).after_of() == after_turn_of(stop, has_tool_calls),
            final(self).control_of().last_stop() == Some(stop),
            final(self).control_of().iteration() == old(self).control_of().iteration(),
            final(self).control_of().max_iterations() == old(self).control_of().max_iterations(),
            final(self).start_log() == old(self).start_log(),
            final(self).prompt_of() == old(self).prompt_of(),
    {
        let ghost before = self.log@;
        let m = self.log.commit(message);
        self.after = self.control.after_turn(stop, has_tool_calls);
        self.phase = RunPhase::FireTurnCommit;
        proof {
            lemma_log_prefix_stays(self.start@.push(self.prompt_model@), before, self.log@);
        }
        m
    }

    /// Commits the tool results of the turn, in order; when every call asked
    /// to terminate the run ends with `EndTurn`, else the next turn begins.
    pub fn dispatched(&mut self, results: Vec<AgentMessage>, terminate: bool)
        requires
            old(self).wf(),
            old(self).phase_of() == RunPhase::DispatchTools,
        ensures
            final(self).wf(),
            final(self).phase_of() == if terminate {
                RunPhase::FireAgentEnd
            } else {
                RunPhase::BeginTurn
            },
            final(self).log_of() == old(self).log_of() + models(results@),
            terminate ==> final(self).control_of().last_stop() == Some(StopReason::EndTurn),
            !terminate ==> final(self).control_of().last_stop() == old(self).control_of().last_stop(),
            final(self).control_of().iteration() == old(self).control_of().iteration(),
            final(self).control_of().max_iterations() == old(self).control_of().max_iterations(),
            final(self).start_log() == old(self).start_log(),
            final(self).prompt_of() == old(self).prompt_of(),
            final(self).after_of() == old(self).after_of(),
    {
        let ghost before = self.log@;
        self.log.append(results);
        if self.control.after_dispatch(terminate) {
            self.phase = RunPhase::FireAgentEnd;
        } else {
            self.phase = RunPhase::BeginTurn;
        }
        proof {
            lemma_log_prefix_stays(self.start@.push(self.prompt_model@), before, self.log@);
        }
    }

    /// Takes the follow-up messages after a natural stop: none ends the
    /// run; otherwise they are appended and the next turn begins.
    pub fn follow_ups(&mut self, follow_ups: Vec<AgentMessage>)
        requires
            old(self).wf(),
            old(self).phase_of() == RunPhase::DrainFollowUps,
        ensures
            final(self).wf(),
            final(self).phase_of() == if follow_ups@.len() == 0 {
                RunPhase::FireAgentEnd
            } else {
                RunPhase::BeginTurn
            },
            final(self).log_of() == old(self).log_of() + models(follow_ups@),
            final(self).start_log() == old(self).start_log(),
            final(self).prompt_of() == old(self).prompt_of(),
            final(self).control_of() == old(self).control_of(),
            final(self).after_of() == old(self).after_of(),
    {
        if self.control.after_follow_ups(follow_ups.len()) {
            self.phase = RunPhase::FireAgentEnd;
            assert(models(follow_ups@) =~= Seq::<MessageModel>::empty());
            assert(self.log@ + models(follow_ups@) =~= self.log@);
            return;
        }
        let ghost before = self.log@;
        self.log.append(follow_ups);
        self.phase = RunPhase::BeginTurn;
        proof {
            lemma_log_prefix_stays(self.start@.push(self.prompt_model@), before, self.log@);
        }
    }

    /// What the run reports once it reached its end: the stop reason, and
    /// how many messages it appended (the prompt included).
    pub fn outcome(&self) -> (o: RunOutcome)
        requires
            self.wf(),
            self.phase_of() is FireAgentEnd || self.phase_of() is EmitAgentEnd || self.phase_of() is Done,
        ensures
            o.stop_reason == self.control_of().last_stop().unwrap(),
            o.messages_appended == self.log_of().len() - self.start_log().len(),
    {
        self.control.outcome(self.log.len())
    }

    /// Ends the run, at any step, and hands the log back: the log before
    /// the run is a prefix of it, and once the prompt was committed, the
    /// prompt follows that prefix.
    pub fn into_log(self) -> (l: MessageLog)
        requires
            self.wf(),
        ensures
            l@ == self.log_of(),
            extends(l@, self.start_log()),
            !before_prompt(self.phase_of()) ==> extends(l@, self.start_log().push(self.prompt_of()))
                && l@[self.start_log().len() as int] == self.prompt_of(),
    {
        proof {
            let s = self.start@;
            if !before_prompt(self.phase) {
                assert(s.push(self.prompt_model@).take(s.len() as int) =~= s);
                lemma_log_prefix_stays(s, s.push(self.prompt_model@), self.log@);
                assert(self.log@[s.len() as int] == self.log@.take(s.len() + 1int)[s.len() as int]);
            } else {
                assert(self.log@.take(s.len() as int) =~= s);
            }
        }
        self.log
    }
}

/// Law: a run opens with `AgentStart` and closes with `AgentEnd`. `start`
/// puts a run at `EmitAgentStart`; no step leaves `Done`, the only step
/// into `Done` is emitting `AgentEnd`, and the only step into that is
/// firing the `AgentEnd` checkpoint.
pub proof fn lemma_run_ends_with_agent_end(p: RunPhase, after: AfterTurn)
    ensures
        next_plain(RunPhase::Done, after) == RunPhase::Done,
        next_plain(p, after) == RunPhase::Done && p != RunPhase::Done ==> p == RunPhase::EmitAgentEnd,
        next_plain(p, after) == RunPhase::EmitAgentEnd ==> p == RunPhase::FireAgentEnd,
{
}

} // verus!
