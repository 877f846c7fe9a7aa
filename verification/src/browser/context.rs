//! Multi-tenant context that flows through every provider call.

use vstd::prelude::*;

verus! {

/// Per-call tenant identity. A provider rejects session handles that
/// belong to another tenant.
#[derive(Debug, PartialEq, Eq, Hash)]
pub struct TenantId(pub String);

impl Clone for TenantId {
    fn clone(&self) -> (c: Self)
        ensures
            c == *self,
    {
        TenantId(self.0.clone())
    }
}

impl TenantId {
    pub fn new(s: String) -> (t: Self)
        ensures
            t.0@ == s@,
    {
        TenantId(s)
    }

    /// The tenant used when none is configured: `"default"`.
    pub fn default_tenant() -> (t: Self)
        ensures
            t.0@ == "default"@,
    {
        TenantId(String::from_str("default"))
    }

    pub fn as_str(&self) -> (s: &str)
        ensures
            s@ == self.0@,
    {
        self.0.as_str()
    }
}

/// Provider-side handle for one browser session.
#[derive(Debug, PartialEq, Eq, Hash)]
pub struct BrowserSessionId(pub String);

impl Clone for BrowserSessionId {
    fn clone(&self) -> (c: Self)
        ensures
            c == *self,
    {
        BrowserSessionId(self.0.clone())
    }
}

impl BrowserSessionId {
    pub fn new(s: String) -> (id: Self)
        ensures
            id.0@ == s@,
    {
        BrowserSessionId(s)
    }

    pub fn as_str(&self) -> (s: &str)
        ensures
            s@ == self.0@,
    {
        self.0.as_str()
    }
}

/// Couples the requesting tenant with a provider-side session handle.
#[derive(Debug)]
pub struct BrowserContext {
    pub tenant: TenantId,
    pub session: BrowserSessionId,
}

impl Clone for BrowserContext {
    fn clone(&self) -> (c: Self)
        ensures
            c == *self,
    {
        BrowserContext { tenant: self.tenant.clone(), session: self.session.clone() }
    }
}

impl BrowserContext {
    pub fn new(tenant: TenantId, session: BrowserSessionId) -> (c: Self)
        ensures
            c.tenant == tenant,
            c.session == session,
    {
        BrowserContext { tenant, session }
    }
}

} // verus!
