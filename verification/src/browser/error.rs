//! Provider errors and their human-readable messages.

use vstd::prelude::*;
use crate::text::{chars_of, push_str, string_of};

verus! {

#[derive(Debug, Clone)]
pub enum BrowserError {
    SessionNotFound(String),
    CrossTenantDenied { caller: String, owner: String },
    /// The element ref does not match the latest snapshot of its session;
    /// the caller must re-snapshot before retrying.
    StaleRef(String),
    NotActionable(String),
    Navigation(String),
    Transport(String),
    CapabilityMissing(String),
    ArtifactPathEscape(String),
    Rejected(String),
    Io(String),
    Other(String),
}

/// The message of each error, as its `Display` renders it.
pub open spec fn browser_error_message(e: BrowserError) -> Seq<char> {
    match e {
        BrowserError::SessionNotFound(s) => "session '"@ + s@ + "' not found"@,
        BrowserError::CrossTenantDenied { caller, owner } => "cross-tenant access denied: caller tenant '"@
            + caller@ + "' tried to use session belonging to '"@ + owner@ + "'"@,
        BrowserError::StaleRef(s) => "stale ref '"@ + s@ + "': re-snapshot required (snapshot version advanced)"@,
        BrowserError::NotActionable(s) => "element '"@ + s@ + "' not actionable in current state"@,
        BrowserError::Navigation(s) => "navigation failed: "@ + s@,
        BrowserError::Transport(s) => "transport: "@ + s@,
        BrowserError::CapabilityMissing(s) => "capability '"@ + s@ + "' not supported by this provider"@,
        BrowserError::ArtifactPathEscape(s) => "artifact path escapes tenant root: "@ + s@,
        BrowserError::Rejected(s) => "provider rejected: "@ + s@,
        BrowserError::Io(s) => "io: "@ + s@,
        BrowserError::Other(s) => "other: "@ + s@,
    }
}

fn wrap(pre: &str, mid: &String, post: &str) -> (s: String)
    ensures
        s@ == pre@ + mid@ + post@,
{
    let mut v = chars_of(pre);
    push_str(&mut v, mid.as_str());
    push_str(&mut v, post);
    string_of(&v)
}

fn prefixed(pre: &str, mid: &String) -> (s: String)
    ensures
        s@ == pre@ + mid@,
{
    let mut v = chars_of(pre);
    push_str(&mut v, mid.as_str());
    string_of(&v)
}

impl BrowserError {
    /// The error's message.
    pub fn message(&self) -> (m: String)
        ensures
            m@ == browser_error_message(*self),
    {
        match self {
            BrowserError::SessionNotFound(s) => wrap("session '", s, "' not found"),
            BrowserError::CrossTenantDenied { caller, owner } => {
                let mut v = chars_of("cross-tenant access denied: caller tenant '");
                push_str(&mut v, caller.as_str());
                push_str(&mut v, "' tried to use session belonging to '");
                push_str(&mut v, owner.as_str());
                push_str(&mut v, "'");
                string_of(&v)
            },
            BrowserError::StaleRef(s) => wrap("stale ref '", s, "': re-snapshot required (snapshot version advanced)"),
            BrowserError::NotActionable(s) => wrap("element '", s, "' not actionable in current state"),
            BrowserError::Navigation(s) => prefixed("navigation failed: ", s),
            BrowserError::Transport(s) => prefixed("transport: ", s),
            BrowserError::CapabilityMissing(s) => wrap("capability '", s, "' not supported by this provider"),
            BrowserError::ArtifactPathEscape(s) => prefixed("artifact path escapes tenant root: ", s),
            BrowserError::Rejected(s) => prefixed("provider rejected: ", s),
            BrowserError::Io(s) => prefixed("io: ", s),
            BrowserError::Other(s) => prefixed("other: ", s),
        }
    }
}

} // verus!
