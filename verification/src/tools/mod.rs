//! Workspace-rooted builtin tools: file read / write / exact-string edit,
//! shell execution, and regex search. Every user-supplied path resolves
//! under the workspace root before any I/O.

pub mod bash;
pub mod edit;
pub mod error;
pub mod grep;
pub mod path;
pub mod read;
pub mod safety;
pub mod write;
