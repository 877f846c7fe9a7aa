//! Provider-side session bookkeeping and the rules a provider applies to
//! every call: tenant isolation, snapshot versioning, stale-ref and
//! disabled-element checks, assertion evaluation over a snapshot, and the
//! audit notes of actions.

use vstd::prelude::*;
use crate::text::{chars_of, contains, contains_seq, decimal, push_decimal, push_str, str_eq, string_of};
use super::actions::{ActionKind, AssertPredicate};
use super::capability::{Capability, CapabilityStability, CapabilityTable, lookup_cap};
use super::context::{BrowserContext, BrowserSessionId, TenantId};
use super::error::BrowserError;
use super::snapshot::{
    first_ref_index, lookup_index, render_ref, same_ref, ElementRef, Snapshot, SnapshotElement, SnapshotMeta, SnapshotVersion,
};

verus! {

/// Hints for the kind of session to allocate.
#[derive(Debug, Clone)]
pub struct SessionSpec {
    /// Pin a browser-side handle name.
    pub session_name_hint: Option<String>,
    /// Initial URL to open with the session.
    pub initial_url: Option<String>,
    /// Storage-state JSON to restore.
    pub storage_state: Option<String>,
    /// Pinned viewport size.
    pub viewport: Option<(u32, u32)>,
}

impl SessionSpec {
    /// A spec that only names the session.
    pub fn named(name: String) -> (s: Self)
        ensures
            s.session_name_hint matches Some(n) && n@ == name@,
            s.initial_url is None,
            s.storage_state is None,
            s.viewport is None,
    {
        SessionSpec { session_name_hint: Some(name), initial_url: None, storage_state: None, viewport: None }
    }
}

/// The URL a new session opens: the spec's, else `about:blank`.
pub fn initial_url(spec: &SessionSpec) -> (u: String)
    ensures
        match spec.initial_url {
            Some(x) => u@ == x@,
            None => u@ == "about:blank"@,
        },
{
    match &spec.initial_url {
        Some(u) => u.clone(),
        None => String::from_str("about:blank"),
    }
}

/// The table of capabilities the Chromium-backed provider declares: five
/// stable capabilities, nothing else.
pub fn chromium_capabilities(provider_version: String) -> (t: CapabilityTable)
    ensures
        t.provider_id@ == "chromiumoxide"@,
        t.provider_version@ == provider_version@,
        lookup_cap(t.cap_entries(), Capability::A11ySnapshot) == Some(CapabilityStability::Stable),
        lookup_cap(t.cap_entries(), Capability::ElementRefs) == Some(CapabilityStability::Stable),
        lookup_cap(t.cap_entries(), Capability::Screenshot) == Some(CapabilityStability::Stable),
        lookup_cap(t.cap_entries(), Capability::IsolatedContexts) == Some(CapabilityStability::Stable),
        lookup_cap(t.cap_entries(), Capability::MultiPage) == Some(CapabilityStability::Stable),
        forall|c: Capability|
            c != Capability::A11ySnapshot && c != Capability::ElementRefs && c != Capability::Screenshot
                && c != Capability::IsolatedContexts && c != Capability::MultiPage ==> lookup_cap(
                t.cap_entries(),
                c,
            ) is None,
        t.extras@.len() == 0,
{
    let mut t = CapabilityTable::new(String::from_str("chromiumoxide"), provider_version);
    let stable = CapabilityStability::Stable;
    t.insert(Capability::A11ySnapshot, stable);
    t.insert(Capability::ElementRefs, stable);
    t.insert(Capability::Screenshot, stable);
    t.insert(Capability::IsolatedContexts, stable);
    t.insert(Capability::MultiPage, stable);
    t
}

/// Per-session provider state: the owning tenant, the current snapshot
/// version, and for each element id of the latest snapshot whether it is
/// enabled.
#[derive(Debug, Clone)]
pub struct SessionRecord {
    pub id: BrowserSessionId,
    pub tenant: TenantId,
    pub snapshot_version: SnapshotVersion,
    pub elements: Vec<(String, bool)>,
}

/// The enabled flag recorded for `id` in `elements`: that of its last
/// entry, as a later insertion replaces an earlier one.
pub open spec fn element_state(elements: Seq<(String, bool)>, id: Seq<char>) -> Option<bool>
    decreases elements.len(),
{
    if elements.len() == 0 {
        None
    } else if elements.last().0@ == id {
        Some(elements.last().1)
    } else {
        element_state(elements.drop_last(), id)
    }
}

/// The enabled flag recorded for `id`.
pub fn lookup_element_state(elements: &Vec<(String, bool)>, id: &str) -> (r: Option<bool>)
    ensures
        r == element_state(elements@, id@),
{
    let mut i: usize = elements.len();
    assert(elements@.take(i as int) =~= elements@);
    while i > 0
        invariant
            i <= elements.len(),
            element_state(elements@, id@) == element_state(elements@.take(i as int), id@),
        decreases i,
    {
        assert(elements@.take(i as int).drop_last() =~= elements@.take(i - 1));
        if str_eq(elements[i - 1].0.as_str(), id) {
            return Some(elements[i - 1].1);
        }
        i = i - 1;
    }
    None
}

/// The position of the session `id` among the records, if any.
pub open spec fn session_index(entries: Seq<SessionRecord>, id: Seq<char>) -> Option<int> {
    if exists|i: int| 0 <= i < entries.len() && (#[trigger] entries[i]).id.0@ == id {
        Some(choose|i: int| 0 <= i < entries.len() && (#[trigger] entries[i]).id.0@ == id)
    } else {
        None
    }
}

/// Handles are unique.
/// No two records share a session id.
pub open spec fn unique_ids(entries: Seq<SessionRecord>) -> bool {
    forall|i: int, j: int|
        0 <= i < entries.len() && 0 <= j < entries.len() && i != j ==> (#[trigger] entries[i]).id.0@
            != (#[trigger] entries[j]).id.0@
}

/// The error a call with `ctx` gets when `ctx.session` is absent or owned by
/// another tenant; `None` when the call may proceed.
/// Is the session `id` held by another tenant than `tenant`?
pub open spec fn owned_by_other(entries: Seq<SessionRecord>, id: Seq<char>, tenant: Seq<char>) -> bool {
    session_index(entries, id) matches Some(i) && entries[i].tenant.0@ != tenant
}

/// `after` is `before` with a fresh session `id` of `tenant` (version 0,
/// no snapshot elements) in place of any record under that id, every other
/// session's record unchanged, and no other session added.
pub open spec fn registered(before: Seq<SessionRecord>, after: Seq<SessionRecord>, id: Seq<char>, tenant: Seq<char>) -> bool {
    &&& match session_index(after, id) {
        Some(i) => after[i].tenant.0@ == tenant && after[i].snapshot_version.0 == 0 && after[i].elements@.len() == 0,
        None => false,
    }
    &&& forall|other: Seq<char>| #![trigger session_index(after, other)] other != id ==> match session_index(before, other) {
        Some(i) => session_index(after, other) matches Some(j) && after[j] == before[i],
        None => session_index(after, other) is None,
    }
}

/// The error a call on `ctx` meets: the session is unknown, or belongs to
/// another tenant; `None` when the caller may use it.
pub open spec fn access_error(entries: Seq<SessionRecord>, ctx: BrowserContext) -> Option<BrowserError> {
    match session_index(entries, ctx.session.0@) {
        None => Some(BrowserError::SessionNotFound(ctx.session.0)),
        Some(i) => if entries[i].tenant.0@ != ctx.tenant.0@ {
            Some(BrowserError::CrossTenantDenied { caller: ctx.tenant.0, owner: entries[i].tenant.0 })
        } else {
            None
        },
    }
}

/// Does `e` carry the same message-relevant content as `f`?
/// Do two errors of the access and ref checks carry the same variant and
/// texts?
pub open spec fn same_error(e: BrowserError, f: BrowserError) -> bool {
    match (e, f) {
        (BrowserError::SessionNotFound(a), BrowserError::SessionNotFound(b)) => a@ == b@,
        (
            BrowserError::CrossTenantDenied { caller: a, owner: b },
            BrowserError::CrossTenantDenied { caller: c, owner: d },
        ) => a@ == c@ && b@ == d@,
        (BrowserError::StaleRef(a), BrowserError::StaleRef(b)) => a@ == b@,
        (BrowserError::NotActionable(a), BrowserError::NotActionable(b)) => a@ == b@,
        _ => false,
    }
}

/// The provider's sessions, keyed by handle.
/// How a provider answers an action on a ref.
#[derive(Debug, Clone, Copy, PartialEq, Eq, Structural)]
pub enum ActVerdict {
    /// The session is unknown or belongs to another tenant.
    Denied,
    /// The ref is not one of the session's current snapshot.
    Stale,
    /// The element is disabled in the current snapshot.
    Disabled,
    /// The action may touch the page.
    Allowed,
}

/// The verdict on acting on `target` through `ctx`: the session must exist
/// and belong to the caller; the ref must carry the session's current
/// snapshot version and name an element of that snapshot; the element
/// must be enabled.
pub open spec fn act_verdict(records: Seq<SessionRecord>, ctx: BrowserContext, target: ElementRef) -> ActVerdict {
    match access_error(records, ctx) {
        Some(_) => ActVerdict::Denied,
        None => {
            let rec = records[session_index(records, ctx.session.0@)->0];
            if target.version.0 != rec.snapshot_version.0 {
                ActVerdict::Stale
            } else {
                match element_state(rec.elements@, target.element_id@) {
                    None => ActVerdict::Stale,
                    Some(false) => ActVerdict::Disabled,
                    Some(true) => ActVerdict::Allowed,
                }
            }
        },
    }
}

/// The sessions a provider holds, each with its tenant, snapshot version
/// and latest element states.
#[derive(Debug)]
pub struct ProviderSessions {
    entries: Vec<SessionRecord>,
}

impl ProviderSessions {
    pub closed spec fn records(&self) -> Seq<SessionRecord> {
        self.entries@
    }

    /// Handles are unique.
    pub closed spec fn wf(&self) -> bool {
        unique_ids(self.entries@)
    }

    pub fn new() -> (s: Self)
        ensures
            s.wf(),
            s.records().len() == 0,
    {
        ProviderSessions { entries: Vec::new() }
    }

    fn find(&self, id: &BrowserSessionId) -> (r: Option<usize>)
        requires
            self.wf(),
        ensures
            match r {
                Some(i) => i < self.records().len() && self.records()[i as int].id.0@ == id.0@
                    && session_index(self.records(), id.0@) == Some(i as int),
                None => session_index(self.records(), id.0@) is None,
            },
    {
        let mut i: usize = 0;
        while i < self.entries.len()
            invariant
                self.wf(),
                i <= self.entries.len(),
                forall|j: int| 0 <= j < i ==> (#[trigger] self.entries@[j]).id.0@ != id.0@,
            decreases self.entries.len() - i,
        {
            if str_eq(self.entries[i].id.as_str(), id.as_str()) {
                let ghost k = choose|k: int|
                    0 <= k < self.entries@.len() && (#[trigger] self.entries@[k]).id.0@ == id.0@;
                assert(self.entries@[i as int].id.0@ == id.0@);
                proof {
                    if k != i as int {
                        assert(self.entries@[k].id.0@ != self.entries@[i as int].id.0@);
                    }
                }
                return Some(i);
            }
            i = i + 1;
        }
        None
    }

    /// Registers a freshly launched session owned by `tenant`, with version
    /// 0 and no snapshot yet; an existing session of the same tenant with the
    /// same handle is replaced. A handle another tenant holds is refused
    /// with `CrossTenantDenied` and nothing changes.
    pub fn register(&mut self, id: BrowserSessionId, tenant: TenantId) -> (r: Result<(), BrowserError>)
        requires
            old(self).wf(),
        ensures
            final(self).wf(),
            owned_by_other(old(self).records(), id.0@, tenant.0@) ==> (r matches Err(e) && same_error(
                e,
                BrowserError::CrossTenantDenied {
                    caller: tenant.0,
                    owner: old(self).records()[session_index(old(self).records(), id.0@)->0].tenant.0,
                },
            ) && final(self).records() == old(self).records()),
            !owned_by_other(old(self).records(), id.0@, tenant.0@) ==> r is Ok && registered(
                old(self).records(),
                final(self).records(),
                id.0@,
                tenant.0@,
            ),
    {
        let found = self.find(&id);
        if let Some(i) = found {
            if !str_eq(self.entries[i].tenant.as_str(), tenant.as_str()) {
                return Err(BrowserError::CrossTenantDenied {
                    caller: tenant.0,
                    owner: self.entries[i].tenant.0.clone(),
                });
            }
        }
        let rec = SessionRecord {
            id: id.clone(),
            tenant,
            snapshot_version: SnapshotVersion(0),
            elements: Vec::new(),
        };
        match found {
            Some(i) => {
                let ghost before = self.entries@;
                self.entries.set(i, rec);
                proof {
                    assert forall|a: int, b: int|
                        0 <= a < self.entries@.len() && 0 <= b < self.entries@.len() && a != b implies (#[trigger] self.entries@[a]).id.0@
                            != (#[trigger] self.entries@[b]).id.0@ by {
                        assert(before[a].id.0@ != before[b].id.0@);
                    }
                    assert(self.entries@[i as int].id.0@ == id.0@);
                    assert(session_index(self.entries@, id.0@) == Some(i as int));
                    assert forall|other: Seq<char>| #![trigger session_index(self.entries@, other)] other != id.0@ implies match session_index(before, other) {
                        Some(k) => session_index(self.entries@, other) matches Some(j)
                            && self.entries@[j] == before[k],
                        None => session_index(self.entries@, other) is None,
                    } by {
                        match session_index(before, other) {
                            Some(k) => {
                                assert(k != i);
                                assert(self.entries@[k].id.0@ == other);
                                let j = choose|j: int| 0 <= j < self.entries@.len() && (#[trigger] self.entries@[j]).id.0@ == other;
                                assert(j == k);
                            },
                            None => {
                                if exists|j: int| 0 <= j < self.entries@.len() && (#[trigger] self.entries@[j]).id.0@ == other {
                                    let j = choose|j: int| 0 <= j < self.entries@.len() && (#[trigger] self.entries@[j]).id.0@ == other;
                                    assert(j != i);
                                    assert(before[j].id.0@ == other);
                                }
                            },
                        }
                    }
                }
            },
            None => {
                let ghost before = self.entries@;
                self.entries.push(rec);
                proof {
                    let n = before.len() as int;
                    assert forall|a: int, b: int|
                        0 <= a < self.entries@.len() && 0 <= b < self.entries@.len() && a != b implies (#[trigger] self.entries@[a]).id.0@
                            != (#[trigger] self.entries@[b]).id.0@ by {
                        if a < n && b < n {
                            assert(before[a].id.0@ != before[b].id.0@);
                        } else if a == n {
                            assert(self.entries@[b] == before[b]);
                        } else {
                            assert(self.entries@[a] == before[a]);
                        }
                    }
                    assert(self.entries@[n].id.0@ == id.0@);
                    assert(session_index(self.entries@, id.0@) == Some(n));
                    assert forall|other: Seq<char>| #![trigger session_index(self.entries@, other)] other != id.0@ implies match session_index(before, other) {
                        Some(k) => session_index(self.entries@, other) matches Some(j)
                            && self.entries@[j] == before[k],
                        None => session_index(self.entries@, other) is None,
                    } by {
                        match session_index(before, other) {
                            Some(k) => {
                                assert(self.entries@[k] == before[k]);
                                let j = choose|j: int| 0 <= j < self.entries@.len() && (#[trigger] self.entries@[j]).id.0@ == other;
                                assert(j == k);
                            },
                            None => {
                                if exists|j: int| 0 <= j < self.entries@.len() && (#[trigger] self.entries@[j]).id.0@ == other {
                                    let j = choose|j: int| 0 <= j < self.entries@.len() && (#[trigger] self.entries@[j]).id.0@ == other;
                                    assert(j != n);
                                    assert(before[j].id.0@ == other);
                                }
                            },
                        }
                    }
                }
            },
        }
        Ok(())
    }

    /// Checks that `ctx.session` exists and belongs to `ctx.tenant`.
    pub fn check_access(&self, ctx: &BrowserContext) -> (r: Result<(), BrowserError>)
        requires
            self.wf(),
        ensures
            match (r, access_error(self.records(), *ctx)) {
                (Ok(()), None) => true,
                (Err(e), Some(f)) => same_error(e, f),
                _ => false,
            },
    {
        match self.find(&ctx.session) {
            None => Err(BrowserError::SessionNotFound(ctx.session.0.clone())),
            Some(i) => {
                if str_eq(self.entries[i].tenant.as_str(), ctx.tenant.as_str()) {
                    Ok(())
                } else {
                    Err(BrowserError::CrossTenantDenied {
                        caller: ctx.tenant.0.clone(),
                        owner: self.entries[i].tenant.0.clone(),
                    })
                }
            },
        }
    }

    /// The handles of `tenant`'s sessions, in table order. Another
    /// tenant's sessions never appear.
    pub fn list(&self, tenant: &TenantId) -> (ids: Vec<BrowserSessionId>)
        ensures
            session_ids(ids@) == ids_of_tenant(self.records(), tenant.0@),
    {
        let mut ids: Vec<BrowserSessionId> = Vec::new();
        let mut i: usize = 0;
        while i < self.entries.len()
            invariant
                i <= self.entries.len(),
                session_ids(ids@) == ids_of_tenant(self.entries@.take(i as int), tenant.0@),
            decreases self.entries.len() - i,
        {
            let ghost before = ids@;
            assert(self.entries@.take(i + 1).drop_last() =~= self.entries@.take(i as int));
            if str_eq(self.entries[i].tenant.as_str(), tenant.as_str()) {
                ids.push(self.entries[i].id.clone());
                assert(session_ids(ids@) =~= session_ids(before).push(self.entries@[i as int].id.0@));
            }
            i = i + 1;
        }
        assert(self.entries@.take(i as int) =~= self.entries@);
        ids
    }

    /// The snapshot version of session `id`, if the provider holds it.
    pub fn snapshot_version(&self, id: &BrowserSessionId) -> (r: Option<SnapshotVersion>)
        requires
            self.wf(),
        ensures
            match session_index(self.records(), id.0@) {
                Some(i) => r == Some(self.records()[i].snapshot_version),
                None => r is None,
            },
    {
        match self.find(id) {
            Some(i) => Some(self.entries[i].snapshot_version),
            None => None,
        }
    }

    /// Closes `ctx.session`. A missing session is not an error (`Ok(false)`,
    /// nothing changes); one owned by another tenant is refused and stays;
    /// otherwise it is removed (`Ok(true)`).
    pub fn close(&mut self, ctx: &BrowserContext) -> (r: Result<bool, BrowserError>)
        requires
            old(self).wf(),
        ensures
            final(self).wf(),
            match session_index(old(self).records(), ctx.session.0@) {
                None => r == Ok::<bool, BrowserError>(false) && final(self).records() == old(self).records(),
                Some(i) => if old(self).records()[i].tenant.0@ != ctx.tenant.0@ {
                    &&& r matches Err(e)
                    &&& same_error(e, BrowserError::CrossTenantDenied {
                        caller: ctx.tenant.0,
                        owner: old(self).records()[i].tenant.0,
                    })
                    &&& final(self).records() == old(self).records()
                } else {
                    &&& r == Ok::<bool, BrowserError>(true)
                    &&& final(self).records() == old(self).records().remove(i)
                    &&& session_index(final(self).records(), ctx.session.0@) is None
                },
            },
    {
        match self.find(&ctx.session) {
            None => Ok(false),
            Some(i) => {
                if !str_eq(self.entries[i].tenant.as_str(), ctx.tenant.as_str()) {
                    return Err(BrowserError::CrossTenantDenied {
                        caller: ctx.tenant.0.clone(),
                        owner: self.entries[i].tenant.0.clone(),
                    });
                }
                let ghost before = self.entries@;
                self.entries.remove(i);
                proof {
                    assert forall|a: int, b: int|
                        0 <= a < self.entries@.len() && 0 <= b < self.entries@.len() && a != b implies (#[trigger] self.entries@[a]).id.0@
                            != (#[trigger] self.entries@[b]).id.0@ by {
                        let a2 = if a < i { a } else { a + 1 };
                        let b2 = if b < i { b } else { b + 1 };
                        assert(self.entries@[a] == before[a2]);
                        assert(self.entries@[b] == before[b2]);
                        assert(before[a2].id.0@ != before[b2].id.0@);
                    }
                    if exists|j: int| 0 <= j < self.entries@.len() && (#[trigger] self.entries@[j]).id.0@ == ctx.session.0@ {
                        let j = choose|j: int| 0 <= j < self.entries@.len() && (#[trigger] self.entries@[j]).id.0@ == ctx.session.0@;
                        let j2 = if j < i { j } else { j + 1 };
                        assert(self.entries@[j] == before[j2]);
                        assert(before[j2].id.0@ != before[i as int].id.0@);
                    }
                }
                Ok(true)
            },
        }
    }

    /// Bumps the snapshot version of `ctx.session` (after the access check)
    /// and returns the new version.
    pub fn begin_snapshot(&mut self, ctx: &BrowserContext) -> (r: Result<SnapshotVersion, BrowserError>)
        requires
            old(self).wf(),
            match session_index(old(self).records(), ctx.session.0@) {
                Some(i) => old(self).records()[i].snapshot_version.0 < u64::MAX,
                None => true,
            },
        ensures
            final(self).wf(),
            match access_error(old(self).records(), *ctx) {
                Some(f) => r matches Err(e) && same_error(e, f) && final(self).records() == old(self).records(),
                None => {
                    let i = session_index(old(self).records(), ctx.session.0@)->0;
                    &&& r matches Ok(v)
                    &&& v.0 == old(self).records()[i].snapshot_version.0 + 1
                    &&& final(self).records() == old(self).records().update(
                        i,
                        SessionRecord { snapshot_version: v, ..old(self).records()[i] },
                    )
                },
            },
    {
        let c = self.check_access(ctx);
        match c {
            Err(e) => Err(e),
            Ok(()) => {
                let i = self.find(&ctx.session).unwrap();
                let ghost before = self.entries@;
                assert(self.entries@[i as int].snapshot_version.0 < u64::MAX);
                let v = self.entries[i].snapshot_version.next();
                let mut rec = self.entries.remove(i);
                rec.snapshot_version = v;
                self.entries.insert(i, rec);
                proof {
                    assert(self.entries@ =~= before.update(i as int, SessionRecord { snapshot_version: v, ..before[i as int] }));
                    assert forall|a: int, b: int|
                        0 <= a < self.entries@.len() && 0 <= b < self.entries@.len() && a != b implies (#[trigger] self.entries@[a]).id.0@
                            != (#[trigger] self.entries@[b]).id.0@ by {
                        assert(before[a].id.0@ != before[b].id.0@);
                    }
                }
                Ok(v)
            },
        }
    }

    /// Records which element ids the latest snapshot of `ctx.session` holds
    /// and whether each is enabled (after the access check).
    pub fn record_elements(&mut self, ctx: &BrowserContext, states: Vec<(String, bool)>) -> (r: Result<(), BrowserError>)
        requires
            old(self).wf(),
        ensures
            final(self).wf(),
            match access_error(old(self).records(), *ctx) {
                Some(f) => r matches Err(e) && same_error(e, f) && final(self).records() == old(self).records(),
                None => {
                    let i = session_index(old(self).records(), ctx.session.0@)->0;
                    &&& r is Ok
                    &&& final(self).records() == old(self).records().update(
                        i,
                        SessionRecord { elements: states, ..old(self).records()[i] },
                    )
                },
            },
    {
        let c = self.check_access(ctx);
        match c {
            Err(e) => Err(e),
            Ok(()) => {
                let i = self.find(&ctx.session).unwrap();
                let ghost before = self.entries@;
                let rec = SessionRecord {
                    id: self.entries[i].id.clone(),
                    tenant: self.entries[i].tenant.clone(),
                    snapshot_version: self.entries[i].snapshot_version,
                    elements: states,
                };
                self.entries.set(i, rec);
                proof {
                    assert forall|a: int, b: int|
                        0 <= a < self.entries@.len() && 0 <= b < self.entries@.len() && a != b implies (#[trigger] self.entries@[a]).id.0@
                            != (#[trigger] self.entries@[b]).id.0@ by {
                        assert(before[a].id.0@ != before[b].id.0@);
                    }
                }
                Ok(())
            },
        }
    }

    /// The rule every action obeys before touching the page: the session
    /// must exist and belong to the caller; the target must carry the
    /// session's current snapshot version and name an element of that
    /// snapshot (else a stale ref); and the element must be enabled.
    pub fn check_act_target(&self, ctx: &BrowserContext, target: &ElementRef) -> (r: Result<(), BrowserError>)
        requires
            self.wf(),
        ensures
            match act_verdict(self.records(), *ctx, *target) {
                ActVerdict::Denied => r matches Err(e) && same_error(e, access_error(self.records(), *ctx)->0),
                ActVerdict::Stale => r matches Err(BrowserError::StaleRef(m)) && m@ == render_ref(
                    target.version.0,
                    target.element_id@,
                ),
                ActVerdict::Disabled => r matches Err(BrowserError::NotActionable(m)) && m@ == render_ref(
                    target.version.0,
                    target.element_id@,
                ) + " (disabled in current snapshot)"@,
                ActVerdict::Allowed => r is Ok,
            },
    {
        let c = self.check_access(ctx);
        match c {
            Err(e) => Err(e),
            Ok(()) => {
                let i = self.find(&ctx.session).unwrap();
                if target.version.0 != self.entries[i].snapshot_version.0 {
                    return Err(BrowserError::StaleRef(target.render()));
                }
                match lookup_element_state(&self.entries[i].elements, target.element_id.as_str()) {
                    None => Err(BrowserError::StaleRef(target.render())),
                    Some(false) => {
                        let mut v = chars_of(target.render().as_str());
                        push_str(&mut v, " (disabled in current snapshot)");
                        Err(BrowserError::NotActionable(string_of(&v)))
                    },
                    Some(true) => Ok(()),
                }
            },
        }
    }
}

/// One element as the page-side walker reports it; a field is `None` when
/// it was missing or not of the expected JSON type.
#[derive(Debug, Clone)]
pub struct RawElement {
    pub element_id: Option<String>,
    pub role: Option<String>,
    pub name: Option<String>,
    pub enabled: Option<bool>,
}

/// The view of an optional string.
pub open spec fn opt_view(o: Option<String>) -> Option<Seq<char>> {
    match o {
        Some(s) => Some(s@),
        None => None,
    }
}

/// The id a raw element carries (`""` when absent).
pub open spec fn raw_id(r: RawElement) -> Seq<char> {
    match r.element_id {
        Some(s) => s@,
        None => Seq::empty(),
    }
}

/// Does `e` describe raw element `r` under snapshot version `v`? Absent
/// roles read as `""`, empty or absent names as none, absent flags as
/// enabled; actionability follows enablement.
pub open spec fn element_from_raw(e: SnapshotElement, v: u64, r: RawElement) -> bool {
    let enabled = match r.enabled {
        Some(b) => b,
        None => true,
    };
    &&& e.element_ref.version.0 == v
    &&& e.element_ref.element_id@ == raw_id(r)
    &&& e.role@ == (match r.role {
        Some(s) => s@,
        None => Seq::empty(),
    })
    &&& opt_view(e.name) == (match r.name {
        Some(n) => if n@.len() > 0 {
            Some(n@)
        } else {
            None
        },
        None => None,
    })
    &&& e.selector_hint is None
    &&& !e.injection_flagged
    &&& e.enabled == enabled
    &&& e.actionable == enabled
}

/// The raw elements a snapshot keeps: those with a non-empty id, in order.
pub open spec fn kept_raw(raw: Seq<RawElement>) -> Seq<RawElement>
    decreases raw.len(),
{
    if raw.len() == 0 {
        Seq::empty()
    } else {
        let rest = kept_raw(raw.drop_last());
        if raw_id(raw.last()).len() > 0 {
            rest.push(raw.last())
        } else {
            rest
        }
    }
}

/// Law: a snapshot keeps exactly the raw elements that carry an id, in
/// the walker's order.
pub proof fn lemma_kept_raw_is_filter(raw: Seq<RawElement>)
    ensures
        kept_raw(raw) == raw.filter(|r: RawElement| raw_id(r).len() > 0),
    decreases raw.len(),
{
    reveal(Seq::filter);
    if raw.len() > 0 {
        lemma_kept_raw_is_filter(raw.drop_last());
    }
}

fn opt_string_or_empty(o: &Option<String>) -> (s: String)
    ensures
        s@ == (match *o {
            Some(x) => x@,
            None => Seq::<char>::empty(),
        }),
{
    match o {
        Some(x) => x.clone(),
        None => string_of(&Vec::new()),
    }
}

/// Builds the snapshot of version `version` from the walker's raw elements,
/// and the id → enabled list that later stale-ref checks consult.
pub fn build_snapshot(
    version: SnapshotVersion,
    raw: &Vec<RawElement>,
    url: String,
    title: String,
    raw_node_count: usize,
) -> (out: (Snapshot, Vec<(String, bool)>))
    ensures
        out.0.meta.version == version,
        out.0.meta.url@ == url@,
        out.0.meta.title@ == title@,
        out.0.meta.raw_node_count == raw_node_count,
        out.0.elements@.len() == kept_raw(raw@).len(),
        forall|k: int|
            0 <= k < out.0.elements@.len() ==> element_from_raw(
                #[trigger] out.0.elements@[k],
                version.0,
                kept_raw(raw@)[k],
            ),
        out.1@.len() == out.0.elements@.len(),
        forall|k: int|
            0 <= k < out.1@.len() ==> (#[trigger] out.1@[k]).0@ == out.0.elements@[k].element_ref.element_id@
                && out.1@[k].1 == out.0.elements@[k].enabled,
{
    let mut elements: Vec<SnapshotElement> = Vec::new();
    let mut states: Vec<(String, bool)> = Vec::new();
    let mut i: usize = 0;
    while i < raw.len()
        invariant
            i <= raw.len(),
            elements@.len() == kept_raw(raw@.take(i as int)).len(),
            forall|k: int|
                0 <= k < elements@.len() ==> element_from_raw(
                    #[trigger] elements@[k],
                    version.0,
                    kept_raw(raw@.take(i as int))[k],
                ),
            states@.len() == elements@.len(),
            forall|k: int|
                0 <= k < states@.len() ==> (#[trigger] states@[k]).0@ == elements@[k].element_ref.element_id@
                    && states@[k].1 == elements@[k].enabled,
        decreases raw.len() - i,
    {
        let ghost prev = kept_raw(raw@.take(i as int));
        assert(raw@.take(i + 1).drop_last() =~= raw@.take(i as int));
        let id = opt_string_or_empty(&raw[i].element_id);
        if id.as_str().is_empty() {
            assert(raw_id(raw@[i as int]).len() == 0);
        } else {
            let role = opt_string_or_empty(&raw[i].role);
            let name = match &raw[i].name {
                Some(n) => if n.as_str().is_empty() {
                    None
                } else {
                    Some(n.clone())
                },
                None => None,
            };
            let enabled = match raw[i].enabled {
                Some(b) => b,
                None => true,
            };
            let el = SnapshotElement {
                element_ref: ElementRef::new(version, id.clone()),
                role,
                name,
                selector_hint: None,
                injection_flagged: false,
                actionable: enabled,
                enabled,
            };
            elements.push(el);
            states.push((id, enabled));
            assert(kept_raw(raw@.take(i + 1)) == prev.push(raw@[i as int]));
        }
        i = i + 1;
    }
    assert(raw@.take(i as int) =~= raw@);
    (Snapshot { meta: SnapshotMeta { url, title, version, raw_node_count }, elements }, states)
}

/// Number of elements of `elements` with role `role`.
pub open spec fn count_role(elements: Seq<SnapshotElement>, role: Seq<char>) -> nat
    decreases elements.len(),
{
    if elements.len() == 0 {
        0
    } else {
        count_role(elements.drop_last(), role) + if elements.last().role@ == role {
            1nat
        } else {
            0nat
        }
    }
}

/// Does the assertion hold of `snap`?
pub open spec fn assert_holds(snap: Snapshot, p: AssertPredicate) -> bool {
    match p {
        AssertPredicate::Exists { element_ref } => lookup_index(snap, element_ref) is Some,
        AssertPredicate::NameEquals { element_ref, expected } => match lookup_index(snap, element_ref) {
            Some(k) => match snap.elements@[k].name {
                Some(n) => n@ == expected@,
                None => false,
            },
            None => false,
        },
        AssertPredicate::UrlEquals { expected } => snap.meta.url@ == expected@,
        AssertPredicate::UrlContains { substring } => contains_seq(snap.meta.url@, substring@),
        AssertPredicate::TextVisible { substring } => exists|k: int|
            0 <= k < snap.elements@.len() && ((#[trigger] snap.elements@[k]).name matches Some(n)
                && contains_seq(n@, substring@)),
        AssertPredicate::Count { role, expected } => count_role(snap.elements@, role@) == expected,
    }
}

/// Does the element have role `role`?
pub open spec fn has_role(role: Seq<char>) -> spec_fn(SnapshotElement) -> bool {
    |e: SnapshotElement| e.role@ == role
}

/// Does `p` occur in `s`, at some position?
pub open spec fn occurs_in(s: Seq<char>, p: Seq<char>) -> bool {
    exists|i: int| 0 <= i && i + p.len() <= s.len() && #[trigger] s.subrange(i, i + p.len()) == p
}

/// Law: the role count of a snapshot is the number of its elements with
/// that role.
pub proof fn lemma_count_role_is_filter(elements: Seq<SnapshotElement>, role: Seq<char>)
    ensures
        count_role(elements, role) == elements.filter(has_role(role)).len(),
    decreases elements.len(),
{
    reveal(Seq::filter);
    if elements.len() > 0 {
        lemma_count_role_is_filter(elements.drop_last(), role);
    }
}

/// A ref finds the first element that carries it.
proof fn lemma_first_ref_index_first(elements: Seq<SnapshotElement>, r: ElementRef)
    ensures
        match first_ref_index(elements, r) {
            Some(k) => 0 <= k < elements.len() && same_ref(elements[k].element_ref, r) && forall|j: int|
                0 <= j < k ==> !same_ref((#[trigger] elements[j]).element_ref, r),
            None => forall|j: int| 0 <= j < elements.len() ==> !same_ref((#[trigger] elements[j]).element_ref, r),
        },
    decreases elements.len(),
{
    if elements.len() > 0 {
        let rest = elements.drop_first();
        lemma_first_ref_index_first(rest, r);
        assert forall|j: int| 1 <= j < elements.len() implies elements[j] == rest[j - 1] by {}
    }
}

/// A ref finds an element exactly when some element carries it.
proof fn lemma_first_ref_index_found(elements: Seq<SnapshotElement>, r: ElementRef)
    ensures
        first_ref_index(elements, r) is Some <==> exists|k: int|
            0 <= k < elements.len() && same_ref((#[trigger] elements[k]).element_ref, r),
    decreases elements.len(),
{
    if elements.len() > 0 {
        let rest = elements.drop_first();
        lemma_first_ref_index_found(rest, r);
        if exists|k: int| 0 <= k < rest.len() && same_ref((#[trigger] rest[k]).element_ref, r) {
            let k = choose|k: int| 0 <= k < rest.len() && same_ref((#[trigger] rest[k]).element_ref, r);
            assert(elements[k + 1] == rest[k]);
        }
        if exists|k: int| 0 <= k < elements.len() && same_ref((#[trigger] elements[k]).element_ref, r) {
            let k = choose|k: int| 0 <= k < elements.len() && same_ref((#[trigger] elements[k]).element_ref, r);
            if k > 0 {
                assert(rest[k - 1] == elements[k]);
            }
        }
    }
}

/// Law: an assertion holds exactly as its predicate says of the snapshot.
/// A ref exists when it carries the snapshot's version and some element
/// carries it; the URL equals or contains the text asked for; some
/// element's name contains the text; the number of elements with the role
/// equals the count asked for.
pub proof fn lemma_assert_meaning(snap: Snapshot, p: AssertPredicate)
    ensures
        assert_meaning(snap, p, assert_holds(snap, p)),
{
    match p {
        AssertPredicate::Count { role, expected } => {
            lemma_count_role_is_filter(snap.elements@, role@);
        },
        AssertPredicate::Exists { element_ref } => {
            lemma_first_ref_index_found(snap.elements@, element_ref);
        },
        AssertPredicate::NameEquals { element_ref, expected } => {
            lemma_first_ref_index_first(snap.elements@, element_ref);
            let es = snap.elements@;
            if exists|k: int|
                0 <= k < es.len() && same_ref((#[trigger] es[k]).element_ref, element_ref) && (forall|j: int|
                    0 <= j < k ==> !same_ref((#[trigger] es[j]).element_ref, element_ref)) {
                let k = choose|k: int|
                    0 <= k < es.len() && same_ref((#[trigger] es[k]).element_ref, element_ref) && (forall|j: int|
                        0 <= j < k ==> !same_ref((#[trigger] es[j]).element_ref, element_ref));
                let f = first_ref_index(es, element_ref)->Some_0;
                if f < k {
                    assert(!same_ref(es[f].element_ref, element_ref));
                }
                if k < f {
                    assert(!same_ref(es[k].element_ref, element_ref));
                }
                assert(f == k);
            }
        },
        AssertPredicate::UrlContains { substring } => {
            if occurs_in(snap.meta.url@, substring@) {
                let i = choose|i: int|
                    0 <= i && i + substring@.len() <= snap.meta.url@.len() && #[trigger] snap.meta.url@.subrange(
                        i,
                        i + substring@.len(),
                    ) == substring@;
                assert(snap.meta.url@.subrange(i, i + substring@.len()) == substring@);
            }
        },
        AssertPredicate::TextVisible { substring } => {
            if exists|k: int|
                0 <= k < snap.elements@.len() && ((#[trigger] snap.elements@[k]).name matches Some(n)
                    && occurs_in(n@, substring@)) {
                let k = choose|k: int|
                    0 <= k < snap.elements@.len() && ((#[trigger] snap.elements@[k]).name matches Some(n)
                        && occurs_in(n@, substring@));
                let n = snap.elements@[k].name->Some_0;
                let i = choose|i: int|
                    0 <= i && i + substring@.len() <= n@.len() && #[trigger] n@.subrange(i, i + substring@.len())
                        == substring@;
                assert(n@.subrange(i, i + substring@.len()) == substring@);
                assert(contains_seq(n@, substring@));
            }
            if exists|k: int|
                0 <= k < snap.elements@.len() && ((#[trigger] snap.elements@[k]).name matches Some(n)
                    && contains_seq(n@, substring@)) {
                let k = choose|k: int|
                    0 <= k < snap.elements@.len() && ((#[trigger] snap.elements@[k]).name matches Some(n)
                        && contains_seq(n@, substring@));
                let n = snap.elements@[k].name->Some_0;
                assert(contains_seq(n@, substring@));
                let i = choose|i: int| 0 <= i <= n@.len() - substring@.len() && #[trigger] n@.subrange(i, i + substring@.len()) == substring@;
                assert(occurs_in(n@, substring@));
            }
        },
        _ => {},
    }
}

/// What the result `b` of an assertion must be, said directly of the
/// snapshot for each kind of predicate.
pub open spec fn assert_meaning(snap: Snapshot, p: AssertPredicate, b: bool) -> bool {
    match p {
        AssertPredicate::Exists { element_ref } => b <==> (element_ref.version.0 == snap.meta.version.0
            && exists|k: int|
            0 <= k < snap.elements@.len() && same_ref((#[trigger] snap.elements@[k]).element_ref, element_ref)),
        AssertPredicate::UrlEquals { expected } => b <==> snap.meta.url@ == expected@,
        AssertPredicate::UrlContains { substring } => b <==> occurs_in(snap.meta.url@, substring@),
        AssertPredicate::TextVisible { substring } => b <==> exists|k: int|
            0 <= k < snap.elements@.len() && ((#[trigger] snap.elements@[k]).name matches Some(n)
                && occurs_in(n@, substring@)),
        AssertPredicate::Count { role, expected } => b <==> snap.elements@.filter(has_role(role@)).len()
            == expected,
        AssertPredicate::NameEquals { element_ref, expected } => b <==> (element_ref.version.0
            == snap.meta.version.0 && exists|k: int|
            0 <= k < snap.elements@.len() && same_ref((#[trigger] snap.elements@[k]).element_ref, element_ref)
                && (forall|j: int| 0 <= j < k ==> !same_ref((#[trigger] snap.elements@[j]).element_ref, element_ref))
                && (snap.elements@[k].name matches Some(n) && n@ == expected@)),
    }
}

/// Evaluates an assertion against a snapshot.
#[verifier::loop_isolation(false)]
pub fn evaluate_assert(snap: &Snapshot, p: &AssertPredicate) -> (b: bool)
    ensures
        b == assert_holds(*snap, *p),
        assert_meaning(*snap, *p, b),
{
    proof {
        lemma_assert_meaning(*snap, *p);
    }
    match p {
        AssertPredicate::Exists { element_ref } => snap.lookup(element_ref).is_some(),
        AssertPredicate::NameEquals { element_ref, expected } => match snap.lookup(element_ref) {
            Some(e) => match &e.name {
                Some(n) => str_eq(n.as_str(), expected.as_str()),
                None => false,
            },
            None => false,
        },
        AssertPredicate::UrlEquals { expected } => str_eq(snap.meta.url.as_str(), expected.as_str()),
        AssertPredicate::UrlContains { substring } => {
            let u = chars_of(snap.meta.url.as_str());
            let t = chars_of(substring.as_str());
            contains(&u, &t)
        },
        AssertPredicate::TextVisible { substring } => {
            let t = chars_of(substring.as_str());
            let mut i: usize = 0;
            while i < snap.elements.len()
                invariant
                    i <= snap.elements.len(),
                    t@ == substring@,
                    forall|k: int|
                        0 <= k < i ==> !((#[trigger] snap.elements@[k]).name matches Some(n) && contains_seq(
                            n@,
                            substring@,
                        )),
                decreases snap.elements.len() - i,
            {
                match &snap.elements[i].name {
                    Some(n) => {
                        let nv = chars_of(n.as_str());
                        if contains(&nv, &t) {
                            assert(snap.elements@[i as int].name matches Some(m) && contains_seq(m@, substring@));
                            return true;
                        }
                    },
                    None => {},
                }
                i = i + 1;
            }
            false
        },
        AssertPredicate::Count { role, expected } => {
            let mut n: usize = 0;
            let mut i: usize = 0;
            while i < snap.elements.len()
                invariant
                    i <= snap.elements.len(),
                    n == count_role(snap.elements@.take(i as int), role@),
                    n <= i,
                decreases snap.elements.len() - i,
            {
                assert(snap.elements@.take(i + 1).drop_last() =~= snap.elements@.take(i as int));
                if str_eq(snap.elements[i].role.as_str(), role.as_str()) {
                    n = n + 1;
                }
                i = i + 1;
            }
            assert(snap.elements@.take(i as int) =~= snap.elements@);
            n == *expected
        },
    }
}

/// The CSS selector that finds the element a ref was stamped on:
/// `[data-hivecore-ref="@v<N>:e<id>"]`.
pub fn ref_selector(r: &ElementRef) -> (s: String)
    ensures
        s@ == "[data-hivecore-ref=\""@ + render_ref(r.version.0, r.element_id@) + "\"]"@,
{
    let mut v = chars_of("[data-hivecore-ref=\"");
    let rendered = r.render();
    push_str(&mut v, rendered.as_str());
    push_str(&mut v, "\"]");
    string_of(&v)
}

/// The views of a sequence of session handles.
pub open spec fn session_ids(ids: Seq<BrowserSessionId>) -> Seq<Seq<char>> {
    ids.map_values(|id: BrowserSessionId| id.0@)
}

/// The handles of the sessions owned by tenant `t`, in order.
pub open spec fn ids_of_tenant(entries: Seq<SessionRecord>, t: Seq<char>) -> Seq<Seq<char>>
    decreases entries.len(),
{
    if entries.len() == 0 {
        Seq::empty()
    } else {
        let rest = ids_of_tenant(entries.drop_last(), t);
        if entries.last().tenant.0@ == t {
            rest.push(entries.last().id.0@)
        } else {
            rest
        }
    }
}

/// Law: listing a tenant's sessions never reveals a session owned by another
/// tenant — every listed handle belongs to a session of that tenant.
pub proof fn lemma_list_isolated(entries: Seq<SessionRecord>, t: Seq<char>, k: int)
    requires
        0 <= k < ids_of_tenant(entries, t).len(),
    ensures
        exists|i: int|
            0 <= i < entries.len() && (#[trigger] entries[i]).tenant.0@ == t && entries[i].id.0@
                == ids_of_tenant(entries, t)[k],
    decreases entries.len(),
{
    let rest = ids_of_tenant(entries.drop_last(), t);
    if k < rest.len() {
        lemma_list_isolated(entries.drop_last(), t, k);
        let i = choose|i: int|
            0 <= i < entries.drop_last().len() && (#[trigger] entries.drop_last()[i]).tenant.0@ == t
                && entries.drop_last()[i].id.0@ == rest[k];
        assert(entries[i] == entries.drop_last()[i]);
    } else {
        assert(entries[entries.len() - 1] == entries.last());
    }
}

/// Law: a snapshot makes the refs of every earlier snapshot stale. Once a
/// session's version moves one past its current one (as `begin_snapshot`
/// does), acting on a ref that carries any version up to the current one is
/// refused as stale, whatever element states are recorded with the new
/// version.
pub proof fn lemma_snapshot_stales_old_refs(
    records: Seq<SessionRecord>,
    ctx: BrowserContext,
    v: SnapshotVersion,
    elements: Vec<(String, bool)>,
    target: ElementRef,
)
    requires
        unique_ids(records),
        access_error(records, ctx) is None,
        v.0 == records[session_index(records, ctx.session.0@)->0].snapshot_version.0 + 1,
        target.version.0 <= records[session_index(records, ctx.session.0@)->0].snapshot_version.0,
    ensures
        act_verdict(
            records.update(
                session_index(records, ctx.session.0@)->0,
                SessionRecord {
                    snapshot_version: v,
                    elements,
                    ..records[session_index(records, ctx.session.0@)->0]
                },
            ),
            ctx,
            target,
        ) == ActVerdict::Stale,
{
    let id = ctx.session.0@;
    let i = session_index(records, id)->0;
    let after = records.update(i, SessionRecord { snapshot_version: v, elements, ..records[i] });
    assert(0 <= i < records.len() && records[i].id.0@ == id);
    assert(after[i].id.0@ == id);
    let j = choose|j: int| 0 <= j < after.len() && (#[trigger] after[j]).id.0@ == id;
    assert(0 <= j < after.len() && after[j].id.0@ == id);
    if j != i {
        assert(after[j] == records[j]);
        assert(records[j].id.0@ != records[i].id.0@);
    }
    assert(session_index(after, id) == Some(i));
}

/// Law: a session's snapshot versions strictly increase, and every ref a
/// snapshot hands out carries the snapshot's version. When `begin_snapshot`
/// moves the session to `v` and the snapshot is built at `v` (as
/// `build_snapshot` does), its version is past every earlier one and each
/// of its elements' refs is stamped with it.
pub proof fn lemma_snapshot_versions(
    records: Seq<SessionRecord>,
    ctx: BrowserContext,
    v: SnapshotVersion,
    raw: Seq<RawElement>,
    snap: Snapshot,
)
    requires
        access_error(records, ctx) is None,
        v.0 == records[session_index(records, ctx.session.0@)->0].snapshot_version.0 + 1,
        snap.meta.version == v,
        snap.elements@.len() == kept_raw(raw).len(),
        forall|k: int|
            0 <= k < snap.elements@.len() ==> element_from_raw(
                #[trigger] snap.elements@[k],
                v.0,
                kept_raw(raw)[k],
            ),
    ensures
        snap.meta.version.0 > records[session_index(records, ctx.session.0@)->0].snapshot_version.0,
        forall|k: int|
            0 <= k < snap.elements@.len() ==> (#[trigger] snap.elements@[k]).element_ref.version
                == snap.meta.version,
{
    assert forall|k: int| 0 <= k < snap.elements@.len() implies (#[trigger] snap.elements@[k]).element_ref.version
        == snap.meta.version by {
        assert(element_from_raw(snap.elements@[k], v.0, kept_raw(raw)[k]));
    }
}

/// Law: registering never takes a session from its owner. When
/// `ctx.tenant` may use `ctx.session`, a `register` by any other tenant,
/// under that handle or another, leaves it so: the call is refused and
/// nothing changes, or it registers another handle and the owner's record
/// stays as it was.
pub proof fn lemma_register_keeps_owner(
    before: Seq<SessionRecord>,
    after: Seq<SessionRecord>,
    id: Seq<char>,
    tenant: Seq<char>,
    ctx: BrowserContext,
)
    requires
        access_error(before, ctx) is None,
        tenant != ctx.tenant.0@,
        owned_by_other(before, id, tenant) ==> after == before,
        !owned_by_other(before, id, tenant) ==> registered(before, after, id, tenant),
    ensures
        access_error(after, ctx) is None,
        after[session_index(after, ctx.session.0@)->0] == before[session_index(before, ctx.session.0@)->0],
{
    let sid = ctx.session.0@;
    if !owned_by_other(before, id, tenant) {
        assert(sid != id);
        assert(session_index(after, sid) is Some);
    }
}

} // verus!
