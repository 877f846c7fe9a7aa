//! The ACP bridge: agent events become `session/update` notifications,
//! approval requests become `session/request_permission` requests, and
//! the editor's answers become approval decisions.

pub mod approval;
pub mod bridge;
pub mod config;
