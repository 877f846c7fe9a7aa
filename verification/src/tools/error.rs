//! Errors of the builtin tools, their messages, and their mapping onto the
//! runtime's error type.

use vstd::prelude::*;
use crate::message::RuntimeError;
use crate::text::{chars_of, push_decimal, push_str, string_of, decimal};

verus! {

/// A failure of a builtin tool. Outside errors (I/O, regex compilation)
/// are carried as their message text.
#[derive(Debug, PartialEq, Eq)]
pub enum ToolError {
    PathEscape(String),
    NotFound(String),
    Io(String),
    InvalidArg(String),
    Regex(String),
    Timeout(u64),
    Aborted,
    StringNotFound,
    StringNotUnique { count: usize },
    NotReadYet,
}

impl Clone for ToolError {
    fn clone(&self) -> (c: Self)
        ensures
            c == *self,
    {
        match self {
            ToolError::PathEscape(m) => ToolError::PathEscape(m.clone()),
            ToolError::NotFound(m) => ToolError::NotFound(m.clone()),
            ToolError::Io(m) => ToolError::Io(m.clone()),
            ToolError::InvalidArg(m) => ToolError::InvalidArg(m.clone()),
            ToolError::Regex(m) => ToolError::Regex(m.clone()),
            ToolError::Timeout(ms) => ToolError::Timeout(*ms),
            ToolError::Aborted => ToolError::Aborted,
            ToolError::StringNotFound => ToolError::StringNotFound,
            ToolError::StringNotUnique { count } => ToolError::StringNotUnique { count: *count },
            ToolError::NotReadYet => ToolError::NotReadYet,
        }
    }
}

/// The message of a tool error.
pub open spec fn tool_error_message(e: ToolError) -> Seq<char> {
    match e {
        ToolError::PathEscape(p) => "path escapes workspace root: "@ + p@,
        ToolError::NotFound(p) => "path does not exist: "@ + p@,
        ToolError::Io(m) => "io error: "@ + m@,
        ToolError::InvalidArg(m) => "invalid argument: "@ + m@,
        ToolError::Regex(m) => "regex error: "@ + m@,
        ToolError::Timeout(ms) => "timeout after "@ + decimal(ms as nat) + "ms"@,
        ToolError::Aborted => "aborted"@,
        ToolError::StringNotFound => "string not found in file"@,
        ToolError::StringNotUnique { count } => "string occurs multiple times in file ("@
            + decimal(count as nat) + " matches) — narrow the context"@,
        ToolError::NotReadYet => "file not read in this session — call read_file first"@,
    }
}

/// What the runtime is told of a tool error: an abort stays an abort, an
/// invalid argument is invalid input, anything else is a tool failure
/// carrying the error's message.
pub open spec fn runtime_error_of(e: ToolError, r: RuntimeError) -> bool {
    match e {
        ToolError::Aborted => r is Aborted,
        ToolError::InvalidArg(m) => r == RuntimeError::InvalidInput(m),
        _ => r matches RuntimeError::ToolFailed(s) && s@ == tool_error_message(e),
    }
}

fn prefixed(prefix: &str, m: &String) -> (s: String)
    ensures
        s@ == prefix@ + m@,
{
    let mut v = chars_of(prefix);
    push_str(&mut v, m.as_str());
    string_of(&v)
}

impl ToolError {
    /// The error's message.
    pub fn message(&self) -> (m: String)
        ensures
            m@ == tool_error_message(*self),
    {
        match self {
            ToolError::PathEscape(p) => prefixed("path escapes workspace root: ", p),
            ToolError::NotFound(p) => prefixed("path does not exist: ", p),
            ToolError::Io(m) => prefixed("io error: ", m),
            ToolError::InvalidArg(m) => prefixed("invalid argument: ", m),
            ToolError::Regex(m) => prefixed("regex error: ", m),
            ToolError::Timeout(ms) => {
                let mut v = chars_of("timeout after ");
                push_decimal(&mut v, *ms);
                push_str(&mut v, "ms");
                string_of(&v)
            },
            ToolError::Aborted => String::from_str("aborted"),
            ToolError::StringNotFound => String::from_str("string not found in file"),
            ToolError::StringNotUnique { count } => {
                let mut v = chars_of("string occurs multiple times in file (");
                push_decimal(&mut v, *count as u64);
                push_str(&mut v, " matches) — narrow the context");
                string_of(&v)
            },
            ToolError::NotReadYet => String::from_str(
                "file not read in this session — call read_file first",
            ),
        }
    }

    /// The runtime error this tool error becomes.
    pub fn into_runtime(self) -> (r: RuntimeError)
        ensures
            runtime_error_of(self, r),
    {
        match self {
            ToolError::Aborted => RuntimeError::Aborted,
            ToolError::InvalidArg(m) => RuntimeError::InvalidInput(m),
            other => RuntimeError::ToolFailed(other.message()),
        }
    }
}

} // verus!
