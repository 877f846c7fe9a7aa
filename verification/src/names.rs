//! Values by name. Registering a name again replaces the value
//! registered under it.

use vstd::prelude::*;
use crate::text::str_eq;

verus! {

/// The value held under `name`: the first entry with that name.
pub open spec fn entry_of<T>(entries: Seq<(String, T)>, name: Seq<char>) -> Option<T>
    decreases entries.len(),
{
    if entries.len() == 0 {
        None
    } else if entries[0].0@ == name {
        Some(entries[0].1)
    } else {
        entry_of(entries.drop_first(), name)
    }
}

/// The value a list of registrations leaves under `name`: the last one.
pub open spec fn registered<T>(tools: Seq<(String, T)>, name: Seq<char>) -> Option<T>
    decreases tools.len(),
{
    if tools.len() == 0 {
        None
    } else if tools.last().0@ == name {
        Some(tools.last().1)
    } else {
        registered(tools.drop_last(), name)
    }
}

/// Values by name.
#[derive(Debug)]
pub struct NameMap<T> {
    entries: Vec<(String, T)>,
}

proof fn lemma_entry_update<T>(e: Seq<(String, T)>, i: int, n: String, t: T)
    requires
        0 <= i < e.len(),
        e[i].0@ == n@,
        forall|j: int| 0 <= j < i ==> e[j].0@ != n@,
    ensures
        entry_of(e.update(i, (n, t)), n@) == Some(t),
        forall|m: Seq<char>| m != n@ ==> entry_of(e.update(i, (n, t)), m) == entry_of(e, m),
    decreases i,
{
    let u = e.update(i, (n, t));
    if i > 0 {
        assert(u.drop_first() =~= e.drop_first().update(i - 1, (n, t)));
        lemma_entry_update(e.drop_first(), i - 1, n, t);
        assert(u[0] == e[0]);
        assert forall|m: Seq<char>| m != n@ implies entry_of(u, m) == entry_of(e, m) by {
            if e[0].0@ != m {
                assert(entry_of(u, m) == entry_of(u.drop_first(), m));
                assert(entry_of(e, m) == entry_of(e.drop_first(), m));
            }
        }
    } else {
        assert(u.drop_first() =~= e.drop_first());
        assert forall|m: Seq<char>| m != n@ implies entry_of(u, m) == entry_of(e, m) by {
            assert(entry_of(u, m) == entry_of(u.drop_first(), m));
            assert(entry_of(e, m) == entry_of(e.drop_first(), m));
        }
    }
}

proof fn lemma_entry_push<T>(e: Seq<(String, T)>, n: String, t: T)
    requires
        forall|j: int| 0 <= j < e.len() ==> e[j].0@ != n@,
    ensures
        entry_of(e.push((n, t)), n@) == Some(t),
        forall|m: Seq<char>| m != n@ ==> entry_of(e.push((n, t)), m) == entry_of(e, m),
    decreases e.len(),
{
    let u = e.push((n, t));
    if e.len() == 0 {
        assert(u.drop_first() =~= Seq::<(String, T)>::empty());
        assert forall|m: Seq<char>| m != n@ implies entry_of(u, m) == entry_of(e, m) by {
            assert(entry_of(u, m) == entry_of(u.drop_first(), m));
        }
    } else {
        assert(u.drop_first() =~= e.drop_first().push((n, t)));
        assert forall|j: int| 0 <= j < e.drop_first().len() implies e.drop_first()[j].0@ != n@ by {
            assert(e.drop_first()[j] == e[j + 1]);
        }
        lemma_entry_push(e.drop_first(), n, t);
        assert(u[0] == e[0]);
        assert forall|m: Seq<char>| m != n@ implies entry_of(u, m) == entry_of(e, m) by {
            if e[0].0@ != m {
                assert(entry_of(u, m) == entry_of(u.drop_first(), m));
                assert(entry_of(e, m) == entry_of(e.drop_first(), m));
            }
        }
    }
}

proof fn lemma_entry_at<T>(e: Seq<(String, T)>, i: int)
    requires
        0 <= i < e.len(),
        forall|a: int, b: int| 0 <= a < b < e.len() ==> e[a].0@ != e[b].0@,
    ensures
        entry_of(e, e[i].0@) == Some(e[i].1),
    decreases i,
{
    if i > 0 {
        assert(e[0].0@ != e[i].0@);
        assert forall|a: int, b: int| 0 <= a < b < e.drop_first().len() implies e.drop_first()[a].0@
            != e.drop_first()[b].0@ by {
            assert(e.drop_first()[a] == e[a + 1]);
            assert(e.drop_first()[b] == e[b + 1]);
        }
        lemma_entry_at(e.drop_first(), i - 1);
        assert(e.drop_first()[i - 1] == e[i]);
    }
}

impl<T> NameMap<T> {
    /// The registered names, each once, in the order of first registration.
    pub closed spec fn names(&self) -> Seq<Seq<char>> {
        self.entries@.map_values(|e: (String, T)| e.0@)
    }

    /// The value registered under `name`.
    pub closed spec fn lookup(&self, name: Seq<char>) -> Option<T> {
        entry_of(self.entries@, name)
    }

    /// The number of distinct names.
    pub closed spec fn size(&self) -> nat {
        self.entries@.len()
    }

    pub closed spec fn wf(&self) -> bool {
        forall|i: int, j: int| 0 <= i < j < self.entries@.len() ==> self.entries@[i].0@ != self.entries@[j].0@
    }

    /// A map of `tools`, each paired with its name; a later one replaces
    /// an earlier one of the same name.
    pub fn new(tools: Vec<(String, T)>) -> (r: Self)
        ensures
            r.wf(),
            forall|n: Seq<char>| #[trigger] r.lookup(n) == registered(tools@, n),
    {
        let ghost all = tools@;
        let mut r = NameMap { entries: Vec::new() };
        assert(all.take(0) =~= Seq::<(String, T)>::empty());
        for p in it: tools
            invariant
                it.seq() == all,
                r.wf(),
                forall|n: Seq<char>| #[trigger] r.lookup(n) == registered(all.take(it.index() as int), n),
        {
            let ghost k = it.index() as int;
            proof {
                assert(all.take(k + 1).drop_last() =~= all.take(k));
                assert(all.take(k + 1).last() == all[k]);
            }
            r.insert(p.0, p.1);
        }
        assert(all.take(all.len() as int) =~= all);
        r
    }

    /// Registers `tool` under `name`, replacing what was there.
    pub fn insert(&mut self, name: String, tool: T)
        requires
            old(self).wf(),
        ensures
            final(self).wf(),
            final(self).lookup(name@) == Some(tool),
            forall|m: Seq<char>| m != name@ ==> #[trigger] final(self).lookup(m) == old(self).lookup(m),
    {
        let mut i: usize = 0;
        while i < self.entries.len()
            invariant
                i <= self.entries.len(),
                self.entries@ == old(self).entries@,
                self.wf(),
                forall|j: int| 0 <= j < i ==> self.entries@[j].0@ != name@,
            decreases self.entries.len() - i,
        {
            if str_eq(self.entries[i].0.as_str(), name.as_str()) {
                proof {
                    lemma_entry_update(self.entries@, i as int, name, tool);
                }
                let ghost before = self.entries@;
                self.entries.set(i, (name, tool));
                assert forall|a: int, b: int| 0 <= a < b < self.entries@.len() implies
                    self.entries@[a].0@ != self.entries@[b].0@ by {
                    if a != i && b != i {
                        assert(self.entries@[a] == before[a]);
                        assert(self.entries@[b] == before[b]);
                    } else if a == i {
                        assert(self.entries@[b] == before[b]);
                    } else {
                        assert(self.entries@[a] == before[a]);
                    }
                }
                return;
            }
            i = i + 1;
        }
        proof {
            lemma_entry_push(self.entries@, name, tool);
        }
        self.entries.push((name, tool));
    }

    /// The value registered under `name`.
    pub fn get(&self, name: &str) -> (r: Option<&T>)
        requires
            self.wf(),
        ensures
            match self.lookup(name@) {
                Some(t) => r == Some(&t),
                None => r is None,
            },
    {
        let mut i: usize = 0;
        assert(self.entries@.skip(0) =~= self.entries@);
        while i < self.entries.len()
            invariant
                i <= self.entries.len(),
                entry_of(self.entries@, name@) == entry_of(self.entries@.skip(i as int), name@),
            decreases self.entries.len() - i,
        {
            assert(self.entries@.skip(i as int).drop_first() =~= self.entries@.skip(i + 1));
            assert(self.entries@.skip(i as int)[0] == self.entries@[i as int]);
            if str_eq(self.entries[i].0.as_str(), name) {
                return Some(&self.entries[i].1);
            }
            i = i + 1;
        }
        None
    }

    /// The number of registered names.
    pub fn len(&self) -> (n: usize)
        ensures
            n == self.size(),
    {
        self.entries.len()
    }

    pub fn is_empty(&self) -> (b: bool)
        ensures
            b == (self.size() == 0),
    {
        self.entries.len() == 0
    }

    /// The `i`-th registered name and the value held under it.
    pub fn entry(&self, i: usize) -> (r: (&String, &T))
        requires
            self.wf(),
            i < self.size(),
        ensures
            self.names().len() == self.size(),
            r.0@ == self.names()[i as int],
            self.lookup(r.0@) == Some(*r.1),
    {
        proof {
            lemma_entry_at(self.entries@, i as int);
        }
        let e = &self.entries[i];
        (&e.0, &e.1)
    }
}

/// Law: the last registration of a name wins.
pub proof fn lemma_last_registration_wins<T>(tools: Seq<(String, T)>, i: int)
    requires
        0 <= i < tools.len(),
        forall|j: int| i < j < tools.len() ==> tools[j].0@ != tools[i].0@,
    ensures
        registered(tools, tools[i].0@) == Some(tools[i].1),
    decreases tools.len(),
{
    if i < tools.len() - 1 {
        assert(tools.drop_last()[i] == tools[i]);
        assert forall|j: int| i < j < tools.drop_last().len() implies tools.drop_last()[j].0@ != tools.drop_last()[i].0@ by {
            assert(tools.drop_last()[j] == tools[j]);
        }
        lemma_last_registration_wins(tools.drop_last(), i);
    }
}

} // verus!
