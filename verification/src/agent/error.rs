//! Errors of the agent loop and its builder.

use vstd::prelude::*;
use crate::message::{runtime_error_message, RuntimeError};
use crate::text::{chars_of, decimal, push_decimal, push_str, string_of};

verus! {

/// Why a run failed.
#[derive(Debug)]
pub enum LoopError {
    Runtime(RuntimeError),
    HookAborted(String),
    ManualAttention(String),
    MaxIterations(usize),
}

/// The message of a loop error; a runtime error shows through unchanged.
pub open spec fn loop_error_message(e: LoopError) -> Seq<char> {
    match e {
        LoopError::Runtime(r) => runtime_error_message(r),
        LoopError::HookAborted(m) => "hook aborted: "@ + m@,
        LoopError::ManualAttention(m) => "manual attention required: "@ + m@,
        LoopError::MaxIterations(n) => "max iterations exceeded ("@ + decimal(n as nat) + ")"@,
    }
}

impl LoopError {
    pub fn message(&self) -> (m: String)
        ensures
            m@ == loop_error_message(*self),
    {
        match self {
            LoopError::Runtime(r) => r.message(),
            LoopError::HookAborted(m) => {
                let mut v = chars_of("hook aborted: ");
                push_str(&mut v, m.as_str());
                string_of(&v)
            },
            LoopError::ManualAttention(m) => {
                let mut v = chars_of("manual attention required: ");
                push_str(&mut v, m.as_str());
                string_of(&v)
            },
            LoopError::MaxIterations(n) => {
                let mut v = chars_of("max iterations exceeded (");
                push_decimal(&mut v, *n as u64);
                push_str(&mut v, ")");
                string_of(&v)
            },
        }
    }
}

/// Why a loop could not be built.
#[derive(Debug, Clone, Copy, PartialEq, Eq, Structural)]
pub enum BuilderError {
    MissingModel,
}

impl BuilderError {
    pub fn message(&self) -> (m: &'static str)
        ensures
            m@ == "model adapter is required"@,
    {
        "model adapter is required"
    }
}

} // verus!
