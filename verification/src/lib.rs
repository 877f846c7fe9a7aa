//! Hivecore: verified core of an agent-harness substrate — browser-provider
//! types, workspace-rooted builtin tools, session compaction, the agent
//! loop's decision logic, and protocol bridges.

pub mod acp;
pub mod agent;
pub mod browser;
pub mod coder;
pub mod compaction;
pub mod events;
pub mod ids;
pub mod json;
pub mod message;
pub mod names;
pub mod text;
pub mod tools;
