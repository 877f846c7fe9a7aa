//! Session compaction. The log stays append-only: when the estimated token
//! cost of the conversation crosses a threshold, the head of the
//! conversation is summarised into a `compaction_marker` entry, and the
//! payload sent to the model is derived from the latest marker — the real
//! user messages before it, one synthetic assistant message holding the
//! summary, and the visible messages after it.

pub mod config;
pub mod marker;
pub mod plan;

pub mod token;
pub mod transform;

