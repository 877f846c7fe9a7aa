//! The `compaction_marker` entry: what a compaction records in the log.
//! It rides a `Custom` message the model does not see; its payload is the
//! marker as JSON.

use vstd::prelude::*;
use crate::compaction::transform::MARKER_KIND;
use crate::ids::{fresh_id, is_fresh_id};
use crate::message::{AgentMessage, MessageId, MessageModel};

verus! {

/// What set a compaction off.
#[derive(Debug, Clone, Copy, PartialEq, Eq, Structural)]
pub enum CompactionTrigger {
    Manual,
    AutoThreshold,
    Emergency,
}

impl CompactionTrigger {
    /// The name the marker's JSON uses.
    pub fn wire_name(&self) -> (s: &'static str)
        ensures
            s@ == match *self {
                CompactionTrigger::Manual => "manual"@,
                CompactionTrigger::AutoThreshold => "auto_threshold"@,
                CompactionTrigger::Emergency => "emergency"@,
            },
    {
        match self {
            CompactionTrigger::Manual => "manual",
            CompactionTrigger::AutoThreshold => "auto_threshold",
            CompactionTrigger::Emergency => "emergency",
        }
    }
}

/// A file a summarised tool call touched; `op` is `read`, `write` or
/// `edit`.
#[derive(Debug, PartialEq, Eq)]
pub struct FileRef {
    pub path: String,
    pub op: String,
}

impl Clone for FileRef {
    fn clone(&self) -> (c: Self)
        ensures
            c == *self,
    {
        FileRef { path: self.path.clone(), op: self.op.clone() }
    }
}

impl Default for FileRef {
    fn default() -> (r: Self)
        ensures
            r.path@ == Seq::<char>::empty(),
            r.op@ == Seq::<char>::empty(),
    {
        FileRef { path: String::new(), op: String::new() }
    }
}

/// What one compaction recorded.
#[derive(Debug)]
pub struct CompactionMarker {
    /// The last visible message folded into the summary.
    pub covers_up_to: MessageId,
    pub summary_text: String,
    /// The first message kept verbatim.
    pub kept_tail_start: MessageId,
    pub file_refs: Vec<FileRef>,
    pub tool_calls_summarized: usize,
    pub original_turn_count: usize,
    /// When it was made, as RFC 3339 text.
    pub created_at: String,
    pub trigger: CompactionTrigger,
}

impl CompactionMarker {
    /// The log entry carrying a marker whose JSON is `payload`.
    pub fn message_with(payload: String, id: MessageId) -> (m: AgentMessage)
        ensures
            m@ matches MessageModel::Custom { id: i, kind, payload: p, visible_to_model }
                && i == id && kind@ == MARKER_KIND@ && p == payload && !visible_to_model,
    {
        AgentMessage::Custom {
            id,
            kind: String::from_str(MARKER_KIND),
            payload,
            visible_to_model: false,
        }
    }

    /// The log entry carrying a marker whose JSON is `payload`, with a
    /// fresh id `compact-{uuid}`.
    pub fn to_message(payload: String) -> (m: AgentMessage)
        ensures
            m@ matches MessageModel::Custom { id, kind, payload: p, visible_to_model }
                && is_fresh_id(id.0@, "compact-"@) && kind@ == MARKER_KIND@ && p == payload
                && !visible_to_model,
    {
        let id = fresh_id("compact-");
        proof {
            reveal_strlit("compact-");
        }
        CompactionMarker::message_with(payload, MessageId(id))
    }
}

} // verus!
