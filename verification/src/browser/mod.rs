//! Browser-provider surface: capability tables, tenant-scoped session
//! contexts, versioned snapshots and element refs, action / wait / assert
//! vocabularies, and the provider-side rules that guard them.

pub mod act;
pub mod actions;
pub mod capability;
pub mod config;
pub mod context;
pub mod error;
pub mod harness;
pub mod provider;
pub mod settle;
pub mod snapshot;
