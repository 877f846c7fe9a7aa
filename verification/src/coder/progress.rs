//! The progress lines the harness prints to stderr.

use vstd::prelude::*;
use crate::events::AgentEvent;
use crate::message::stop_reason_name;
use crate::text::{chars_of, push_str, string_of};

verus! {

/// The line printed for an event, if any.
pub open spec fn progress_line_spec(e: AgentEvent) -> Option<Seq<char>> {
    match e {
        AgentEvent::AgentStart { session_id, .. } => Some("[start] session="@ + session_id@),
        AgentEvent::TurnStart { turn_id, .. } => Some("[turn ] "@ + turn_id@),
        AgentEvent::ToolExecStart { name, input, .. } => Some("[tool ] "@ + name@ + seq![' '] + input@),
        AgentEvent::ToolExecEnd { is_error, .. } => Some("[done ] "@ + if is_error {
            "ERR "@
        } else {
            "ok  "@
        }),
        AgentEvent::TurnEnd { turn_id, stop_reason, .. } => Some("[stop ] turn="@ + turn_id@ + " reason="@
            + stop_reason_name(stop_reason)),
        AgentEvent::AgentEnd { reason, .. } => Some("[end  ] reason="@ + stop_reason_name(reason)),
        _ => None,
    }
}

/// The line printed for `e`, if any.
pub fn progress_line(e: &AgentEvent) -> (r: Option<String>)
    ensures
        match progress_line_spec(*e) {
            Some(l) => r matches Some(s) && s@ == l,
            None => r is None,
        },
{
    match e {
        AgentEvent::AgentStart { session_id, .. } => {
            let mut v = chars_of("[start] session=");
            push_str(&mut v, session_id.as_str());
            Some(string_of(&v))
        },
        AgentEvent::TurnStart { turn_id, .. } => {
            let mut v = chars_of("[turn ] ");
            push_str(&mut v, turn_id.as_str());
            Some(string_of(&v))
        },
        AgentEvent::ToolExecStart { name, input, .. } => {
            let mut v = chars_of("[tool ] ");
            push_str(&mut v, name.as_str());
            v.push(' ');
            push_str(&mut v, input.as_str());
            Some(string_of(&v))
        },
        AgentEvent::ToolExecEnd { is_error, .. } => {
            let mut v = chars_of("[done ] ");
            if *is_error {
                push_str(&mut v, "ERR ");
            } else {
                push_str(&mut v, "ok  ");
            }
            Some(string_of(&v))
        },
        AgentEvent::TurnEnd { turn_id, stop_reason, .. } => {
            let mut v = chars_of("[stop ] turn=");
            push_str(&mut v, turn_id.as_str());
            push_str(&mut v, " reason=");
            push_str(&mut v, stop_reason.name());
            Some(string_of(&v))
        },
        AgentEvent::AgentEnd { reason, .. } => {
            let mut v = chars_of("[end  ] reason=");
            push_str(&mut v, reason.name());
            Some(string_of(&v))
        },
        _ => None,
    }
}

/// The sink that prints progress lines to stderr; this is what it prints.
#[derive(Debug, Default, Clone, Copy)]
pub struct StderrSink;

impl StderrSink {
    /// The line for `e`, if any.
    pub fn line(&self, e: &AgentEvent) -> (r: Option<String>)
        ensures
            match progress_line_spec(*e) {
                Some(l) => r matches Some(s) && s@ == l,
                None => r is None,
            },
    {
        progress_line(e)
    }
}

} // verus!
