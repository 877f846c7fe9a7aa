//! Path safety. Every builtin tool resolves user-supplied paths through
//! `WorkspaceRoot::resolve` before touching the filesystem; a resolved path
//! always lies under the canonical workspace root.
//!
//! The filesystem is reached through a `PathProbe`, which answers whether
//! an entry exists and what a path canonicalises to. Nothing is assumed of
//! its answers: every contract here holds whatever it reports.

use vstd::prelude::*;
use crate::text::{chars_of, push_str, string_of, views};
use crate::tools::error::ToolError;
use crate::tools::path::{
    comps_prefix, comps_starts_with, components, has_parent_dir, is_absolute, join_path,
    join_path_chars, join_rel, join_rel_range, lemma_components_join, lemma_components_plain,
    lemma_join_rel_relative, parent_comp, path_components, plain_comps, render, render_prefix,
    root_comp,
};

verus! {

/// Access to the filesystem's view of paths.
pub trait PathProbe {
    /// Does an entry exist at `path`?
    fn path_exists(&self, path: &str) -> bool;

    /// The canonical absolute form of `path`, or the error's message.
    fn canonicalize(&self, path: &str) -> Result<String, String>;
}

/// The canonical workspace root: always an absolute path.
#[derive(Debug)]
pub struct WorkspaceRoot {
    inner: String,
}

impl WorkspaceRoot {
    /// The root is absolute.
    #[verifier::type_invariant]
    spec fn absolute(self) -> bool {
        is_absolute(self.inner@)
    }
}

impl View for WorkspaceRoot {
    type V = Seq<char>;

    closed spec fn view(&self) -> Seq<char> {
        self.inner@
    }
}

impl Clone for WorkspaceRoot {
    fn clone(&self) -> (c: Self)
        ensures
            c@ == self@,
    {
        proof {
            use_type_invariant(self);
        }
        WorkspaceRoot { inner: self.inner.clone() }
    }
}

/// Does a component list contain `..`?
fn has_parent_comp(cs: &Vec<Vec<char>>) -> (r: bool)
    ensures
        r == views(cs@).contains(parent_comp()),
{
    let mut i: usize = 0;
    while i < cs.len()
        invariant
            i <= cs.len(),
            forall|j: int| 0 <= j < i ==> cs@[j]@ != parent_comp(),
        decreases cs.len() - i,
    {
        if cs[i].len() == 2 && cs[i][0] == '.' && cs[i][1] == '.' {
            assert(cs@[i as int]@ =~= parent_comp());
            assert(views(cs@)[i as int] == parent_comp());
            return true;
        }
        assert(cs@[i as int]@ != parent_comp()) by {
            if cs@[i as int]@ == parent_comp() {
                assert(cs@[i as int]@.len() == 2);
            }
        }
        i = i + 1;
    }
    assert forall|j: int| 0 <= j < views(cs@).len() implies views(cs@)[j] != parent_comp() by {
        assert(views(cs@)[j] == cs@[j]@);
    }
    false
}

/// The component count after one `PathBuf::pop` of the path made of the
/// first `n` components, or `None` when it has no parent (it is empty or
/// just the root).
pub fn parent_len(cs: &Vec<Vec<char>>, n: usize) -> (r: Option<usize>)
    requires
        n <= cs.len(),
    ensures
        r == (if n == 0 || (n == 1 && cs@[0]@ == root_comp()) {
            None::<usize>
        } else {
            Some((n - 1) as usize)
        }),
{
    if n == 0 {
        return None;
    }
    if n == 1 && cs[0].len() == 1 && cs[0][0] == '/' {
        assert(cs@[0]@ =~= root_comp());
        return None;
    }
    assert(!(n == 1 && cs@[0]@ == root_comp())) by {
        if n == 1 && cs@[0]@ == root_comp() {
            assert(cs@[0]@.len() == 1);
        }
    }
    Some(n - 1)
}

/// The answer recorded for the prefix of `k` components: `exists[k]`, and
/// `false` where nothing was recorded.
pub open spec fn answer(exists: Seq<bool>, k: int) -> bool {
    0 <= k < exists.len() && exists[k]
}

/// Below how many components popping stops: 1 for a path that starts at
/// the root (the root has no parent), 0 otherwise.
pub open spec fn prefix_floor(cs: Seq<Seq<char>>) -> nat {
    if cs.len() > 0 && cs[0] == root_comp() {
        1
    } else {
        0
    }
}

/// The prefix length the search from `n` components down settles on:
/// the first length whose prefix exists, or `floor` when none above it
/// does.
pub open spec fn kept_len(exists: Seq<bool>, floor: nat, n: nat) -> nat
    decreases n,
{
    if n <= floor || answer(exists, n as int) {
        n
    } else {
        kept_len(exists, floor, (n - 1) as nat)
    }
}

/// The number of leading components of `cs` that make the longest
/// existing prefix, popping one component at a time from the full path
/// until the root or the empty path; `exists[k]` tells whether the prefix
/// of `k` components exists.
pub fn longest_existing_prefix(cs: &Vec<Vec<char>>, exists: &Vec<bool>) -> (n: usize)
    ensures
        n == kept_len(exists@, prefix_floor(views(cs@)), cs.len() as nat),
        prefix_floor(views(cs@)) <= n <= cs.len(),
{
    let ghost floor = prefix_floor(views(cs@));
    let ghost top = cs.len() as nat;
    let mut n: usize = cs.len();
    loop
        invariant
            n <= cs.len(),
            floor <= n,
            top == cs.len(),
            floor == prefix_floor(views(cs@)),
            kept_len(exists@, floor, top) == kept_len(exists@, floor, n as nat),
        decreases n,
    {
        if n < exists.len() && exists[n] {
            return n;
        }
        match parent_len(cs, n) {
            Some(m) => {
                proof {
                    if cs.len() > 0 {
                        assert(views(cs@)[0] == cs@[0]@);
                    }
                }
                n = m;
            },
            None => {
                proof {
                    if cs.len() > 0 {
                        assert(views(cs@)[0] == cs@[0]@);
                    }
                }
                return n;
            },
        }
    }
}

/// Asks `probe` about the prefixes of `cs` the way the search above reads
/// them: from the full path down, stopping at the first that exists or at
/// the root. The answers not asked for are recorded as `false`.
fn ask_prefixes<P: PathProbe>(cs: &Vec<Vec<char>>, probe: &P) -> (exists: Vec<bool>)
    ensures
        exists.len() == cs.len() + 1,
{
    let mut exists: Vec<bool> = Vec::new();
    exists.push(false);
    let mut k: usize = 0;
    while k < cs.len()
        invariant
            k <= cs.len(),
            exists.len() == k + 1,
        decreases cs.len() - k,
    {
        exists.push(false);
        k = k + 1;
    }
    let mut n: usize = cs.len();
    loop
        invariant
            n <= cs.len(),
            exists.len() == cs.len() + 1,
        decreases n,
    {
        let path = string_of(&render_prefix(cs, n));
        if probe.path_exists(path.as_str()) {
            exists.set(n, true);
            return exists;
        }
        match parent_len(cs, n) {
            Some(m) => {
                n = m;
            },
            None => {
                return exists;
            },
        }
    }
}

/// The components of `candidate` joined to `root`.
pub open spec fn joined_components(root: Seq<char>, candidate: Seq<char>) -> Seq<Seq<char>> {
    components(join_path(root, candidate))
}

/// The path whose existence (or canonical form) is asked about for the
/// prefix of `k` components of `candidate` joined to `root`.
pub open spec fn prefix_query(root: Seq<char>, candidate: Seq<char>, k: nat) -> Seq<char> {
    render(joined_components(root, candidate).take(k as int))
}

/// How many components of `candidate` joined to `root` the search for the
/// longest existing prefix keeps, given the answers `exists`.
pub open spec fn resolve_kept(root: Seq<char>, candidate: Seq<char>, exists: Seq<bool>) -> nat {
    let cs = joined_components(root, candidate);
    kept_len(exists, prefix_floor(cs), cs.len())
}

/// What resolving `candidate` against `root` gives, `r`, when the
/// filesystem answered `exists` (whether each prefix exists) and `canon`
/// (the canonical form of the prefix kept): a `..` candidate is refused as
/// it is; otherwise a failure to canonicalise is an I/O error, a canonical
/// prefix outside the root refuses the joined path, and one inside gives
/// that prefix with the rest of the joined path re-attached.
pub open spec fn resolve_result(
    root: Seq<char>,
    candidate: Seq<char>,
    exists: Seq<bool>,
    canon: Result<String, String>,
    r: Result<String, ToolError>,
) -> bool {
    &&& has_parent_dir(candidate) ==> (r matches Err(ToolError::PathEscape(p)) && p@ == candidate)
    &&& !has_parent_dir(candidate) ==> match canon {
        Err(e) => r matches Err(ToolError::Io(m)) && m@ == e@,
        Ok(c) => if comps_prefix(components(root), components(c@)) {
            r matches Ok(p) && p@ == resolved_path(join_path(root, candidate), resolve_kept(root, candidate, exists), c@)
        } else {
            r matches Err(ToolError::PathEscape(p)) && p@ == join_path(root, candidate)
        },
    }
}

/// What `resolve` returns once the longest existing prefix (`kept`
/// components of `joined`) has been canonicalised to `canon`: the
/// canonical path with the rest of `joined` re-attached, provided it lies
/// under `root`.
pub open spec fn resolved_path(joined: Seq<char>, kept: nat, canon: Seq<char>) -> Seq<char> {
    let cs = components(joined);
    if kept >= cs.len() {
        canon
    } else {
        join_path(canon, join_rel(cs.skip(kept as int)))
    }
}

/// A path that has the components of an absolute path as a prefix is
/// absolute itself.
proof fn lemma_starts_at_root(root: Seq<char>, p: Seq<char>)
    requires
        is_absolute(root),
        comps_prefix(components(root), components(p)),
    ensures
        is_absolute(p),
{
    lemma_components_plain(root);
    lemma_components_plain(p);
    assert(components(p)[0] == components(root)[0]);
    if !is_absolute(p) {
        assert(components(p)[0][0] != '/');
    }
}

impl WorkspaceRoot {
    /// A root from the outcome of canonicalising the given path. A
    /// canonical form is absolute; an answer that is not is refused.
    pub fn from_canonical(canon: Result<String, String>) -> (r: Result<WorkspaceRoot, ToolError>)
        ensures
            match canon {
                Ok(c) => if is_absolute(c@) {
                    r matches Ok(w) && w@ == c@
                } else {
                    r matches Err(ToolError::InvalidArg(m))
                        && m@ == "workspace root not accessible: not an absolute path: "@ + c@
                },
                Err(e) => r matches Err(ToolError::InvalidArg(m))
                    && m@ == "workspace root not accessible: "@ + e@,
            },
    {
        match canon {
            Ok(c) => {
                let cc = chars_of(c.as_str());
                if cc.len() > 0 && cc[0] == '/' {
                    Ok(WorkspaceRoot { inner: c })
                } else {
                    let mut v = chars_of("workspace root not accessible: not an absolute path: ");
                    push_str(&mut v, c.as_str());
                    Err(ToolError::InvalidArg(string_of(&v)))
                }
            },
            Err(e) => {
                let mut v = chars_of("workspace root not accessible: ");
                push_str(&mut v, e.as_str());
                Err(ToolError::InvalidArg(string_of(&v)))
            },
        }
    }

    /// The root at the canonical form of `path`, as `probe` reports it; a
    /// failure to canonicalise is `InvalidArg` with the message
    /// `workspace root not accessible: <error>`, and so is an answer that is
    /// not an absolute path. The probe's answers carry no
    /// contract (they come from the filesystem), so the contract states the
    /// shape of a failure only; `from_canonical` states exactly what each
    /// answer becomes.
    pub fn new<P: PathProbe>(path: &str, probe: &P) -> (r: Result<WorkspaceRoot, ToolError>)
        ensures
            r matches Err(e) ==> (e matches ToolError::InvalidArg(m)
                && m@.take(31) == "workspace root not accessible: "@),
            r matches Ok(w) ==> is_absolute(w@),
    {
        let canon = probe.canonicalize(path);
        let r = WorkspaceRoot::from_canonical(canon);
        proof {
            if let Ok(w) = &r {
                use_type_invariant(w);
            }
            reveal_strlit("workspace root not accessible: ");
            reveal_strlit("workspace root not accessible: not an absolute path: ");
            if let Err(ToolError::InvalidArg(m)) = &r {
                assert(m@.take(31) =~= "workspace root not accessible: "@);
            }
        }
        r
    }

    /// The root path.
    pub fn path(&self) -> (s: &str)
        ensures
            s@ == self@,
            is_absolute(s@),
    {
        proof {
            use_type_invariant(self);
        }
        self.inner.as_str()
    }

    /// The last step of `resolve`: `joined` is the candidate joined to the
    /// root, `kept` the number of its leading components that exist, and
    /// `canon` the outcome of canonicalising them.
    pub fn finish_resolve(&self, joined: &Vec<char>, kept: usize, canon: Result<String, String>) -> (r:
        Result<String, ToolError>)
        requires
            kept <= components(joined@).len(),
            is_absolute(joined@) ==> kept >= 1,
        ensures
            match canon {
                Err(e) => r matches Err(ToolError::Io(m)) && m@ == e@,
                Ok(c) => if comps_prefix(components(self@), components(c@)) {
                    r matches Ok(p) && p@ == resolved_path(joined@, kept as nat, c@)
                } else {
                    r matches Err(ToolError::PathEscape(p)) && p@ == joined@
                },
            },
            r matches Ok(p) ==> comps_prefix(components(self@), components(p@)) && is_absolute(p@),
    {
        proof {
            use_type_invariant(self);
        }
        match canon {
            Err(e) => Err(ToolError::Io(e)),
            Ok(c) => {
                let root_chars = chars_of(self.inner.as_str());
                let root_comps = path_components(&root_chars);
                let canon_chars = chars_of(c.as_str());
                let canon_comps = path_components(&canon_chars);
                if !comps_starts_with(&canon_comps, &root_comps) {
                    return Err(ToolError::PathEscape(string_of(joined)));
                }
                let jc = path_components(joined);
                if kept == jc.len() {
                    proof {
                        lemma_starts_at_root(self@, c@);
                    }
                    return Ok(c);
                }
                let tail = join_rel_range(&jc, kept, jc.len());
                let out = join_path_chars(&canon_chars, &tail);
                proof {
                    let cs = components(joined@);
                    let t = cs.skip(kept as int);
                    assert(views(jc@).subrange(kept as int, jc.len() as int) =~= t);
                    lemma_components_plain(joined@);
                    assert(plain_comps(t)) by {
                        if is_absolute(joined@) {
                            assert forall|i: int| 0 <= i < t.len() implies #[trigger] t[i].len() > 0
                                && t[i][0] != '/' by {
                                assert(t[i] == cs.skip(1)[i + kept - 1]);
                            }
                        } else {
                            assert forall|i: int| 0 <= i < t.len() implies #[trigger] t[i].len() > 0
                                && t[i][0] != '/' by {
                                assert(t[i] == cs[i + kept]);
                            }
                        }
                    }
                    lemma_join_rel_relative(t);
                    lemma_components_join(c@, join_rel(t));
                    let rc = components(self@);
                    let pc = components(c@) + crate::tools::path::comps_rel(join_rel(t));
                    assert(pc.take(rc.len() as int) =~= components(c@).take(rc.len() as int));
                    lemma_starts_at_root(self@, out@);
                }
                Ok(string_of(&out))
            },
        }
    }

    /// Resolves `candidate` given what the filesystem answered: `exists[k]`
    /// tells whether the path of the first `k` components of the candidate
    /// joined to the root exists (`prefix_query`; a missing entry reads
    /// `false`), and `canon` is the outcome of canonicalising the prefix the
    /// search settles on (`resolve_kept` components).
    ///
    /// - A path with a `..` component is refused before anything else.
    /// - An absolute path stands as it is; a relative one joins the root.
    /// - The longest existing prefix is canonicalised and must lie under
    ///   the root; the part that does not exist yet is re-attached.
    pub fn resolve_with(&self, candidate: &str, exists: &Vec<bool>, canon: Result<String, String>) -> (r:
        Result<String, ToolError>)
        ensures
            resolve_result(self@, candidate@, exists@, canon, r),
            r matches Ok(p) ==> comps_prefix(components(self@), components(p@)) && is_absolute(p@),
    {
        let cand = chars_of(candidate);
        let cand_comps = path_components(&cand);
        if has_parent_comp(&cand_comps) {
            return Err(ToolError::PathEscape(string_of(&cand)));
        }
        let root_chars = chars_of(self.inner.as_str());
        let joined = join_path_chars(&root_chars, &cand);
        let jc = path_components(&joined);
        let kept = longest_existing_prefix(&jc, exists);
        proof {
            lemma_components_plain(joined@);
        }
        self.finish_resolve(&joined, kept, canon)
    }

    /// Resolves a user-supplied path against the root, asking `probe`
    /// about the filesystem: whether the prefixes exist, from the full
    /// path down until one does (`prefix_query`), and then the canonical
    /// form of that prefix. A `..` candidate is refused before the probe is
    /// asked anything. The probe's answers carry no contract, so what is
    /// stated here holds whatever they are: the result is what
    /// `resolve_result` gives for some answers, and `resolve_with` (to which
    /// this function hands the answers it got) states exactly what each set
    /// of answers gives.
    pub fn resolve<P: PathProbe>(&self, candidate: &str, probe: &P) -> (r: Result<String, ToolError>)
        ensures
            has_parent_dir(candidate@) ==> (r matches Err(ToolError::PathEscape(p)) && p@ == candidate@),
            !has_parent_dir(candidate@) ==> match r {
                Ok(p) => comps_prefix(components(self@), components(p@)) && is_absolute(p@),
                Err(ToolError::PathEscape(p)) => p@ == join_path(self@, candidate@),
                Err(ToolError::Io(_)) => true,
                Err(_) => false,
            },
            exists|answers: Seq<bool>, canon: Result<String, String>| resolve_result(
                self@,
                candidate@,
                answers,
                canon,
                r,
            ),
    {
        let cand = chars_of(candidate);
        let cand_comps = path_components(&cand);
        if has_parent_comp(&cand_comps) {
            let r = Err(ToolError::PathEscape(string_of(&cand)));
            proof {
                let c: Result<String, String> = arbitrary();
                assert(resolve_result(self@, candidate@, Seq::<bool>::empty(), c, r));
            }
            return r;
        }
        let root_chars = chars_of(self.inner.as_str());
        let joined = join_path_chars(&root_chars, &cand);
        let jc = path_components(&joined);
        let exists = ask_prefixes(&jc, probe);
        let kept = longest_existing_prefix(&jc, &exists);
        let existing = string_of(&render_prefix(&jc, kept));
        let canon = probe.canonicalize(existing.as_str());
        let ghost answered = canon;
        let r = self.resolve_with(candidate, &exists, canon);
        assert(resolve_result(self@, candidate@, exists@, answered, r));
        r
    }
}

} // verus!
