//! The harness side of browser sessions: the agent names a session, and
//! the harness remembers which provider session that name stands for, so
//! later turns reuse it.

use vstd::prelude::*;
use super::context::{BrowserContext, BrowserSessionId, TenantId};
use super::error::BrowserError;
use crate::names::NameMap;

verus! {

/// Provider sessions by the name the agent gave them.
#[derive(Debug)]
pub struct HarnessState {
    sessions: NameMap<BrowserSessionId>,
}

impl HarnessState {
    /// The provider session remembered under `name`.
    pub closed spec fn session_for(&self, name: Seq<char>) -> Option<BrowserSessionId> {
        self.sessions.lookup(name)
    }

    pub closed spec fn wf(&self) -> bool {
        self.sessions.wf()
    }

    pub fn new() -> (s: Self)
        ensures
            s.wf(),
            forall|n: Seq<char>| #[trigger] s.session_for(n) is None,
    {
        let s = HarnessState { sessions: NameMap::new(Vec::new()) };
        assert forall|n: Seq<char>| #[trigger] s.session_for(n) is None by {
            assert(crate::names::registered(Seq::<(String, BrowserSessionId)>::empty(), n) is None);
        }
        s
    }

    /// The context of the session named `name`, if the harness knows it;
    /// `ensure_named_session` asks the provider only when it does not.
    pub fn known(&self, tenant: &TenantId, name: &str) -> (r: Option<BrowserContext>)
        requires
            self.wf(),
        ensures
            match self.session_for(name@) {
                Some(sid) => r matches Some(c) && c.tenant == *tenant && c.session == sid,
                None => r is None,
            },
    {
        match self.sessions.get(name) {
            Some(sid) => Some(BrowserContext::new(tenant.clone(), sid.clone())),
            None => None,
        }
    }

    /// Remembers the provider session opened for `name`.
    pub fn remember(&mut self, name: String, sid: BrowserSessionId)
        requires
            old(self).wf(),
        ensures
            final(self).wf(),
            final(self).session_for(name@) == Some(sid),
            forall|m: Seq<char>| m != name@ ==> #[trigger] final(self).session_for(m) == old(self).session_for(m),
    {
        self.sessions.insert(name, sid);
    }

    /// The context of the session named `name`, or `SessionNotFound`.
    pub fn ctx_for(&self, tenant: &TenantId, name: &str) -> (r: Result<BrowserContext, BrowserError>)
        requires
            self.wf(),
        ensures
            match self.session_for(name@) {
                Some(sid) => r matches Ok(c) && c.tenant == *tenant && c.session == sid,
                None => r matches Err(BrowserError::SessionNotFound(n)) && n@ == name@,
            },
    {
        match self.known(tenant, name) {
            Some(c) => Ok(c),
            None => Err(BrowserError::SessionNotFound(String::from_str(name))),
        }
    }
}

} // verus!
