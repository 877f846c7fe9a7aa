//! Capability tables: which provider methods a provider supports, and how
//! stably.

use vstd::prelude::*;
use crate::text::{chars_of, push_str, string_of};

verus! {

/// Stability tier of a capability.
#[derive(Debug, Clone, Copy, PartialEq, Eq, Structural)]
pub enum CapabilityStability {
    /// Spec-compliant, stable, and tested.
    Stable,
    /// Implemented but may have rough edges.
    Experimental,
    /// Not implemented; invoking it yields `CapabilityMissing`.
    NotImplemented,
}

/// Well-known capability identifiers.
#[derive(Debug, Clone, Copy, PartialEq, Eq, Hash, Structural)]
#[non_exhaustive]
pub enum Capability {
    A11ySnapshot,
    ElementRefs,
    Screenshot,
    AttachExistingBrowser,
    PersistentProfile,
    IsolatedContexts,
    PageEval,
    NetworkInspection,
    NetworkRouting,
    VisionFallback,
    SensitiveActionHooks,
    CredentialVault,
    InjectionScan,
    StorageState,
    MultiPage,
    Frames,
    Tracing,
}

/// The name `Debug` prints for a capability.
pub open spec fn capability_name(c: Capability) -> Seq<char> {
    match c {
        Capability::A11ySnapshot => "A11ySnapshot"@,
        Capability::ElementRefs => "ElementRefs"@,
        Capability::Screenshot => "Screenshot"@,
        Capability::AttachExistingBrowser => "AttachExistingBrowser"@,
        Capability::PersistentProfile => "PersistentProfile"@,
        Capability::IsolatedContexts => "IsolatedContexts"@,
        Capability::PageEval => "PageEval"@,
        Capability::NetworkInspection => "NetworkInspection"@,
        Capability::NetworkRouting => "NetworkRouting"@,
        Capability::VisionFallback => "VisionFallback"@,
        Capability::SensitiveActionHooks => "SensitiveActionHooks"@,
        Capability::CredentialVault => "CredentialVault"@,
        Capability::InjectionScan => "InjectionScan"@,
        Capability::StorageState => "StorageState"@,
        Capability::MultiPage => "MultiPage"@,
        Capability::Frames => "Frames"@,
        Capability::Tracing => "Tracing"@,
    }
}

impl Capability {
    /// The capability's name as `Debug` prints it.
    pub fn name(&self) -> (s: String)
        ensures
            s@ == capability_name(*self),
    {
        match self {
            Capability::A11ySnapshot => String::from_str("A11ySnapshot"),
            Capability::ElementRefs => String::from_str("ElementRefs"),
            Capability::Screenshot => String::from_str("Screenshot"),
            Capability::AttachExistingBrowser => String::from_str("AttachExistingBrowser"),
            Capability::PersistentProfile => String::from_str("PersistentProfile"),
            Capability::IsolatedContexts => String::from_str("IsolatedContexts"),
            Capability::PageEval => String::from_str("PageEval"),
            Capability::NetworkInspection => String::from_str("NetworkInspection"),
            Capability::NetworkRouting => String::from_str("NetworkRouting"),
            Capability::VisionFallback => String::from_str("VisionFallback"),
            Capability::SensitiveActionHooks => String::from_str("SensitiveActionHooks"),
            Capability::CredentialVault => String::from_str("CredentialVault"),
            Capability::InjectionScan => String::from_str("InjectionScan"),
            Capability::StorageState => String::from_str("StorageState"),
            Capability::MultiPage => String::from_str("MultiPage"),
            Capability::Frames => String::from_str("Frames"),
            Capability::Tracing => String::from_str("Tracing"),
        }
    }
}

/// The stability recorded for `c`: that of its first entry.
pub open spec fn lookup_cap(
    entries: Seq<(Capability, CapabilityStability)>,
    c: Capability,
) -> Option<CapabilityStability>
    decreases entries.len(),
{
    if entries.len() == 0 {
        None
    } else if entries[0].0 == c {
        Some(entries[0].1)
    } else {
        lookup_cap(entries.drop_first(), c)
    }
}

/// Is `s` a tier at which the capability may be used?
pub open spec fn usable(s: Option<CapabilityStability>) -> bool {
    s == Some(CapabilityStability::Stable) || s == Some(CapabilityStability::Experimental)
}

/// No capability occurs twice among the entries.
pub open spec fn distinct_caps(entries: Seq<(Capability, CapabilityStability)>) -> bool {
    forall|i: int, j: int| 0 <= i < j < entries.len() ==> entries[i].0 != entries[j].0
}

/// The tiers of a provider's capabilities: each capability has at most
/// one entry, in the order it was first recorded.
#[derive(Debug)]
pub struct CapabilityMap {
    entries: Vec<(Capability, CapabilityStability)>,
}

impl CapabilityMap {
    /// Each capability has at most one entry.
    #[verifier::type_invariant]
    spec fn distinct(self) -> bool {
        distinct_caps(self.entries@)
    }

    /// The entries, in the order they were first recorded.
    pub closed spec fn entries(&self) -> Seq<(Capability, CapabilityStability)> {
        self.entries@
    }

    /// A map with no entry.
    pub fn new() -> (m: Self)
        ensures
            m.entries().len() == 0,
    {
        CapabilityMap { entries: Vec::new() }
    }

    /// The entries; no capability occurs twice.
    pub fn as_vec(&self) -> (r: &Vec<(Capability, CapabilityStability)>)
        ensures
            r@ == self.entries(),
            distinct_caps(r@),
    {
        proof {
            use_type_invariant(self);
        }
        &self.entries
    }

    /// The tier recorded for `c`.
    pub fn get(&self, c: Capability) -> (r: Option<CapabilityStability>)
        ensures
            r == lookup_cap(self.entries(), c),
    {
        let mut i: usize = 0;
        assert(self.entries@.skip(0) =~= self.entries@);
        while i < self.entries.len()
            invariant
                i <= self.entries.len(),
                lookup_cap(self.entries@, c) == lookup_cap(self.entries@.skip(i as int), c),
            decreases self.entries.len() - i,
        {
            assert(self.entries@.skip(i as int).drop_first() =~= self.entries@.skip(i + 1));
            if self.entries[i].0 == c {
                return Some(self.entries[i].1);
            }
            i = i + 1;
        }
        None
    }

    /// Records tier `s` for `c`, replacing the tier it had.
    pub fn insert(&mut self, c: Capability, s: CapabilityStability)
        ensures
            lookup_cap(final(self).entries(), c) == Some(s),
            forall|d: Capability| d != c ==> lookup_cap(final(self).entries(), d) == lookup_cap(
                old(self).entries(),
                d,
            ),
    {
        proof {
            use_type_invariant(&*self);
        }
        let mut caps: Vec<(Capability, CapabilityStability)> = Vec::new();
        std::mem::swap(&mut caps, &mut self.entries);
        let ghost before = caps@;
        assert(before == old(self).entries@);
        let mut i: usize = 0;
        while i < caps.len()
            invariant
                i <= caps.len(),
                caps@ == before,
                before == old(self).entries@,
                distinct_caps(before),
                forall|j: int| 0 <= j < i ==> caps@[j].0 != c,
            decreases caps.len() - i,
        {
            if caps[i].0 == c {
                proof {
                    lemma_lookup_update(caps@, i as int, c, s);
                }
                caps.set(i, (c, s));
                assert(distinct_caps(caps@)) by {
                    assert forall|p: int, q: int| 0 <= p < q < caps@.len() implies caps@[p].0 != caps@[q].0 by {
                        assert(before[p].0 != before[q].0);
                    }
                }
                self.entries = caps;
                return;
            }
            i = i + 1;
        }
        proof {
            lemma_lookup_push(caps@, c, s);
        }
        caps.push((c, s));
        assert(distinct_caps(caps@)) by {
            assert forall|p: int, q: int| 0 <= p < q < caps@.len() implies caps@[p].0 != caps@[q].0 by {
                if q < before.len() {
                    assert(before[p].0 != before[q].0);
                } else {
                    assert(before[p].0 != c);
                }
            }
        }
        self.entries = caps;
    }

}

impl Clone for CapabilityMap {
    fn clone(&self) -> (m: Self)
        ensures
            m.entries() == self.entries(),
    {
        proof {
            use_type_invariant(self);
        }
        let mut out: Vec<(Capability, CapabilityStability)> = Vec::new();
        let mut i: usize = 0;
        while i < self.entries.len()
            invariant
                i <= self.entries.len(),
                out@ == self.entries@.take(i as int),
            decreases self.entries.len() - i,
        {
            let e = self.entries[i];
            out.push(e);
            assert(self.entries@.take(i + 1) =~= self.entries@.take(i as int).push(self.entries@[i as int]));
            i = i + 1;
        }
        assert(self.entries@.take(self.entries.len() as int) =~= self.entries@);
        CapabilityMap { entries: out }
    }
}

/// What a provider declares it supports. `capabilities` maps each listed
/// capability to its tier; `extras` holds provider-specific extensions
/// namespaced by provider id.
#[derive(Debug, Clone)]
pub struct CapabilityTable {
    pub provider_id: String,
    pub provider_version: String,
    pub capabilities: CapabilityMap,
    pub extras: Vec<(String, CapabilityStability)>,
}

impl CapabilityTable {
    /// The capability entries.
    pub open spec fn cap_entries(&self) -> Seq<(Capability, CapabilityStability)> {
        self.capabilities.entries()
    }

    /// An empty table for the given provider.
    pub fn new(provider_id: String, provider_version: String) -> (t: Self)
        ensures
            t.provider_id@ == provider_id@,
            t.provider_version@ == provider_version@,
            t.cap_entries().len() == 0,
            t.extras@.len() == 0,
    {
        CapabilityTable { provider_id, provider_version, capabilities: CapabilityMap::new(), extras: Vec::new() }
    }

    /// The tier recorded for `c`.
    pub fn get(&self, c: Capability) -> (r: Option<CapabilityStability>)
        ensures
            r == lookup_cap(self.cap_entries(), c),
    {
        self.capabilities.get(c)
    }

    /// Records tier `s` for `c`, replacing the tier it had.
    pub fn insert(&mut self, c: Capability, s: CapabilityStability)
        ensures
            lookup_cap(final(self).cap_entries(), c) == Some(s),
            forall|d: Capability| d != c ==> lookup_cap(final(self).cap_entries(), d) == lookup_cap(
                old(self).cap_entries(),
                d,
            ),
            final(self).provider_id == old(self).provider_id,
            final(self).provider_version == old(self).provider_version,
            final(self).extras == old(self).extras,
    {
        self.capabilities.insert(c, s);
    }

    /// Is `c` usable — recorded as `Stable` or `Experimental`?
    pub fn supports(&self, c: Capability) -> (b: bool)
        ensures
            b == usable(lookup_cap(self.cap_entries(), c)),
    {
        match self.get(c) {
            Some(CapabilityStability::Stable) | Some(CapabilityStability::Experimental) => true,
            _ => false,
        }
    }

    /// `Ok` when `c` is supported, else the message
    /// `provider '<id>' does not support capability <Name>`.
    pub fn require(&self, c: Capability) -> (r: Result<(), String>)
        ensures
            r is Ok <==> usable(lookup_cap(self.cap_entries(), c)),
            r matches Err(m) ==> m@ == "provider '"@ + self.provider_id@
                + "' does not support capability "@ + capability_name(c),
    {
        if self.supports(c) {
            Ok(())
        } else {
            let mut v = chars_of("provider '");
            push_str(&mut v, self.provider_id.as_str());
            push_str(&mut v, "' does not support capability ");
            let n = c.name();
            push_str(&mut v, n.as_str());
            Err(string_of(&v))
        }
    }
}

proof fn lemma_lookup_update(
    e: Seq<(Capability, CapabilityStability)>,
    i: int,
    c: Capability,
    s: CapabilityStability,
)
    requires
        0 <= i < e.len(),
        e[i].0 == c,
        forall|j: int| 0 <= j < i ==> e[j].0 != c,
    ensures
        lookup_cap(e.update(i, (c, s)), c) == Some(s),
        forall|d: Capability| d != c ==> lookup_cap(e.update(i, (c, s)), d) == lookup_cap(e, d),
    decreases i,
{
    let u = e.update(i, (c, s));
    if i > 0 {
        assert(u.drop_first() =~= e.drop_first().update(i - 1, (c, s)));
        lemma_lookup_update(e.drop_first(), i - 1, c, s);
        assert(u[0] == e[0]);
        assert forall|d: Capability| d != c implies lookup_cap(u, d) == lookup_cap(e, d) by {
            if e[0].0 == d {
            } else {
                assert(lookup_cap(u, d) == lookup_cap(u.drop_first(), d));
                assert(lookup_cap(e, d) == lookup_cap(e.drop_first(), d));
                assert(lookup_cap(u.drop_first(), d) == lookup_cap(e.drop_first(), d));
            }
        }
    } else {
        assert forall|d: Capability| d != c implies lookup_cap(u, d) == lookup_cap(e, d) by {
            assert(u.drop_first() =~= e.drop_first());
        }
    }
}

proof fn lemma_lookup_push(e: Seq<(Capability, CapabilityStability)>, c: Capability, s: CapabilityStability)
    requires
        forall|j: int| 0 <= j < e.len() ==> e[j].0 != c,
    ensures
        lookup_cap(e.push((c, s)), c) == Some(s),
        forall|d: Capability| d != c ==> lookup_cap(e.push((c, s)), d) == lookup_cap(e, d),
    decreases e.len(),
{
    let u = e.push((c, s));
    if e.len() == 0 {
        assert(u.drop_first() =~= Seq::<(Capability, CapabilityStability)>::empty());
        assert forall|d: Capability| d != c implies lookup_cap(u, d) == lookup_cap(e, d) by {
            assert(lookup_cap(u, d) == lookup_cap(u.drop_first(), d));
        }
    } else {
        assert(u.drop_first() =~= e.drop_first().push((c, s)));
        assert forall|j: int| 0 <= j < e.drop_first().len() implies e.drop_first()[j].0 != c by {
            assert(e.drop_first()[j] == e[j + 1]);
        }
        lemma_lookup_push(e.drop_first(), c, s);
        assert(u[0] == e[0]);
        assert forall|d: Capability| d != c implies lookup_cap(u, d) == lookup_cap(e, d) by {
            if e[0].0 == d {
            } else {
                assert(lookup_cap(u, d) == lookup_cap(u.drop_first(), d));
                assert(lookup_cap(e, d) == lookup_cap(e.drop_first(), d));
                assert(lookup_cap(u.drop_first(), d) == lookup_cap(e.drop_first(), d));
            }
        }
    }
}

} // verus!
