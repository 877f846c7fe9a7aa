//! The agent loop's decisions. The loop itself awaits models, tools and
//! hooks; what it decides between those awaits — how a streamed turn is
//! assembled, what hook outcomes amount to, how a batch of tool calls is
//! ordered and when a run ends — is here.


pub mod accumulator;
pub mod control;
pub mod dispatch;
pub mod error;
pub mod hooks;
pub mod log;
pub mod registry;
pub mod run;
pub mod spawn;
