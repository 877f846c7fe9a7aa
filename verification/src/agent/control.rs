//! When a run goes on and when it ends.
//!
//! A run is a sequence of turns. Each turn first counts against the
//! iteration cap (running out is an error) and checks for an abort; after
//! the model's turn, an error, a refusal or running out of tokens ends the
//! run, a turn without tool calls waits for follow-ups, and a batch of tool
//! calls that all asked to terminate ends the run with `EndTurn`.

use vstd::prelude::*;
use crate::agent::error::{BuilderError, LoopError};
use crate::ids::{fresh_id, is_fresh_id};
use crate::message::{AgentMessage, ContentBlock, MessageId, MessageModel, StopReason};

verus! {

/// Turns per run when the builder sets no cap.
pub const DEFAULT_MAX_ITERATIONS: usize = 64;

/// What a finished run reports.
#[derive(Debug, Clone, Copy, PartialEq, Eq, Structural)]
pub struct RunOutcome {
    pub stop_reason: StopReason,
    pub messages_appended: usize,
}

/// Whether a turn starts.
#[derive(Debug, Clone, Copy, PartialEq, Eq, Structural)]
pub enum TurnGate {
    Proceed,
    /// The run was aborted; it ends with `StopReason::Error`.
    Aborted,
}

/// What follows a model turn.
#[derive(Debug, Clone, Copy, PartialEq, Eq, Structural)]
pub enum AfterTurn {
    EndRun,
    AwaitFollowUps,
    DispatchTools,
}

/// Does this stop reason end the run at once?
pub open spec fn is_terminal(s: StopReason) -> bool {
    s is Error || s is Refusal || s is MaxTokens
}

/// The counters of one run.
#[derive(Debug)]
pub struct RunControl {
    iteration: usize,
    max_iterations: usize,
    last_stop: Option<StopReason>,
    baseline: usize,
}

impl RunControl {
    pub closed spec fn iteration(&self) -> nat {
        self.iteration as nat
    }

    pub closed spec fn max_iterations(&self) -> nat {
        self.max_iterations as nat
    }

    pub closed spec fn last_stop(&self) -> Option<StopReason> {
        self.last_stop
    }

    pub closed spec fn baseline(&self) -> nat {
        self.baseline as nat
    }

    /// A run with a cap of `max_iterations` turns over a log that holds
    /// `baseline` messages before the prompt.
    pub fn new(max_iterations: usize, baseline: usize) -> (c: Self)
        ensures
            c.iteration() == 0,
            c.max_iterations() == max_iterations,
            c.last_stop() is None,
            c.baseline() == baseline,
    {
        RunControl { iteration: 0, max_iterations, last_stop: None, baseline }
    }

    /// Starts a turn: fails once the cap is reached, otherwise counts the
    /// turn and checks for an abort.
    pub fn begin_turn(&mut self, aborted: bool) -> (r: Result<TurnGate, LoopError>)
        requires
            old(self).iteration() <= old(self).max_iterations(),
        ensures
            old(self).iteration() >= old(self).max_iterations() ==> (r matches Err(
                LoopError::MaxIterations(n),
            ) && n == old(self).max_iterations() && *final(self) == *old(self)),
            old(self).iteration() < old(self).max_iterations() ==> final(self).iteration()
                == old(self).iteration() + 1 && final(self).max_iterations() == old(self).max_iterations()
                && final(self).baseline() == old(self).baseline() && (if aborted {
                r == Ok::<TurnGate, LoopError>(TurnGate::Aborted) && final(self).last_stop() == Some(
                    StopReason::Error,
                )
            } else {
                r == Ok::<TurnGate, LoopError>(TurnGate::Proceed) && final(self).last_stop()
                    == old(self).last_stop()
            }),
            final(self).iteration() <= final(self).max_iterations(),
    {
        if self.iteration >= self.max_iterations {
            return Err(LoopError::MaxIterations(self.max_iterations));
        }
        self.iteration = self.iteration + 1;
        if aborted {
            self.last_stop = Some(StopReason::Error);
            Ok(TurnGate::Aborted)
        } else {
            Ok(TurnGate::Proceed)
        }
    }

    /// Records a model turn that stopped with `stop` and decides what
    /// follows.
    pub fn after_turn(&mut self, stop: StopReason, has_tool_calls: bool) -> (a: AfterTurn)
        ensures
            final(self).last_stop() == Some(stop),
            final(self).iteration() == old(self).iteration(),
            final(self).max_iterations() == old(self).max_iterations(),
            final(self).baseline() == old(self).baseline(),
            a == (if is_terminal(stop) {
                AfterTurn::EndRun
            } else if !has_tool_calls {
                AfterTurn::AwaitFollowUps
            } else {
                AfterTurn::DispatchTools
            }),
    {
        self.last_stop = Some(stop);
        match stop {
            StopReason::Error | StopReason::Refusal | StopReason::MaxTokens => AfterTurn::EndRun,
            _ => if !has_tool_calls {
                AfterTurn::AwaitFollowUps
            } else {
                AfterTurn::DispatchTools
            },
        }
    }

    /// Records a tool batch; `true` when it ends the run, which then stops
    /// with `EndTurn`.
    pub fn after_dispatch(&mut self, terminate: bool) -> (end: bool)
        ensures
            end == terminate,
            terminate ==> final(self).last_stop() == Some(StopReason::EndTurn),
            !terminate ==> final(self).last_stop() == old(self).last_stop(),
            final(self).iteration() == old(self).iteration(),
            final(self).max_iterations() == old(self).max_iterations(),
            final(self).baseline() == old(self).baseline(),
    {
        if terminate {
            self.last_stop = Some(StopReason::EndTurn);
        }
        terminate
    }

    /// After a natural stop: the run ends when no follow-up arrived.
    pub fn after_follow_ups(&self, count: usize) -> (end: bool)
        ensures
            end == (count == 0),
    {
        count == 0
    }

    /// What the run reports once the log holds `total_messages`.
    pub fn outcome(&self, total_messages: usize) -> (o: RunOutcome)
        requires
            self.last_stop() is Some,
            total_messages >= self.baseline(),
        ensures
            o.stop_reason == self.last_stop().unwrap(),
            o.messages_appended == total_messages - self.baseline(),
    {
        let stop = match self.last_stop {
            Some(s) => s,
            None => StopReason::EndTurn,
        };
        RunOutcome { stop_reason: stop, messages_appended: total_messages - self.baseline }
    }
}

/// The cap a builder ends up with.
pub fn max_iterations_or_default(requested: Option<usize>) -> (n: usize)
    ensures
        n == match requested {
            Some(v) => v,
            None => DEFAULT_MAX_ITERATIONS,
        },
{
    match requested {
        Some(v) => v,
        None => DEFAULT_MAX_ITERATIONS,
    }
}

/// What a built loop runs with.
#[derive(Debug)]
pub struct LoopSettings {
    pub system_prompt: String,
    pub model_id: String,
    pub max_iterations: usize,
}

impl LoopSettings {
    /// The settings a builder yields: a model adapter is required; the
    /// model id defaults to the adapter's, the system prompt to empty and
    /// the cap to `DEFAULT_MAX_ITERATIONS`.
    pub fn build(
        has_model: bool,
        system_prompt: Option<String>,
        model_id: Option<String>,
        adapter_id: &str,
        max_iterations: Option<usize>,
    ) -> (r: Result<LoopSettings, BuilderError>)
        ensures
            !has_model ==> r == Err::<LoopSettings, BuilderError>(BuilderError::MissingModel),
            has_model ==> (r matches Ok(s) && s.max_iterations == match max_iterations {
                Some(v) => v,
                None => DEFAULT_MAX_ITERATIONS,
            } && s.model_id@ == match model_id {
                Some(m) => m@,
                None => adapter_id@,
            } && s.system_prompt@ == match system_prompt {
                Some(p) => p@,
                None => Seq::<char>::empty(),
            }),
    {
        if !has_model {
            return Err(BuilderError::MissingModel);
        }
        let model_id = match model_id {
            Some(m) => m,
            None => String::from_str(adapter_id),
        };
        let system_prompt = match system_prompt {
            Some(p) => p,
            None => String::new(),
        };
        Ok(LoopSettings { system_prompt, model_id, max_iterations: max_iterations_or_default(max_iterations) })
    }
}

/// A user message holding `text`, with a fresh id `user-{uuid}`.
pub fn user_text(text: String) -> (m: AgentMessage)
    ensures
        m@ matches MessageModel::User { id, content } && is_fresh_id(id.0@, "user-"@)
            && content.len() == 1 && (content[0] matches ContentBlock::Text { text: t } && t@ == text@),
{
    let id = fresh_id("user-");
    proof {
        reveal_strlit("user-");
    }
    let mut content: Vec<ContentBlock> = Vec::new();
    content.push(ContentBlock::Text { text });
    AgentMessage::User { id: MessageId(id), content }
}

/// A steering source with nothing queued.
#[derive(Debug, Default, Clone, Copy)]
pub struct NoopSteering;

impl NoopSteering {
    /// Messages typed while the run was busy: none.
    pub fn drain_steering(&self) -> (v: Vec<AgentMessage>)
        ensures
            v@.len() == 0,
    {
        Vec::new()
    }

    /// Follow-ups after a natural stop: none.
    pub fn drain_follow_ups(&self) -> (v: Vec<AgentMessage>)
        ensures
            v@.len() == 0,
    {
        Vec::new()
    }
}

} // verus!
