//! Textual path model of a Unix path: a leading `/` gives a root
//! component, empty and `.` segments vanish, and `..` stays as a component
//! of its own. This is how `std::path::Path::components` splits a path,
//! with one difference: `Path::components` keeps a `.` at the very start
//! of a relative path as a current-directory component, where this model
//! drops it. The paths resolved here are joined to the absolute root
//! first, so they never start with `.`, and whether a path has a `..`
//! component does not depend on it.

use vstd::prelude::*;
use crate::text::{chars_eq, push_chars, slice_chars, views};

verus! {

/// The root component.
pub open spec fn root_comp() -> Seq<char> {
    seq!['/']
}

/// The `..` component.
pub open spec fn parent_comp() -> Seq<char> {
    seq!['.', '.']
}

/// Index of the first `/` in `s`, or `s.len()`.
pub open spec fn slash_index(s: Seq<char>) -> nat
    decreases s.len(),
{
    if s.len() == 0 {
        0
    } else if s[0] == '/' {
        0
    } else {
        1 + slash_index(s.drop_first())
    }
}

/// The components of a path with no leading root.
pub open spec fn comps_rel(s: Seq<char>) -> Seq<Seq<char>>
    decreases s.len(),
{
    if s.len() == 0 {
        Seq::empty()
    } else {
        let k = slash_index(s);
        let seg = s.take(k as int);
        let rest = if k < s.len() {
            comps_rel(s.skip(k + 1int))
        } else {
            Seq::empty()
        };
        if seg.len() == 0 || seg == seq!['.'] {
            rest
        } else {
            seq![seg] + rest
        }
    }
}

/// Does the path start at the root?
pub open spec fn is_absolute(p: Seq<char>) -> bool {
    p.len() > 0 && p[0] == '/'
}

/// The components of a path.
pub open spec fn components(p: Seq<char>) -> Seq<Seq<char>> {
    if is_absolute(p) {
        seq![root_comp()] + comps_rel(p.skip(1))
    } else {
        comps_rel(p)
    }
}

/// Does `p` have a `..` component?
pub open spec fn has_parent_dir(p: Seq<char>) -> bool {
    components(p).contains(parent_comp())
}

/// Is `a` a prefix of `b`, component-wise (`Path::starts_with`)?
pub open spec fn comps_prefix(a: Seq<Seq<char>>, b: Seq<Seq<char>>) -> bool {
    a.len() <= b.len() && b.take(a.len() as int) == a
}

proof fn lemma_slash_index(t: Seq<char>, k: int)
    requires
        0 <= k <= t.len(),
        forall|i: int| 0 <= i < k ==> t[i] != '/',
        k == t.len() || t[k] == '/',
    ensures
        slash_index(t) == k,
    decreases k,
{
    if k > 0 {
        lemma_slash_index(t.drop_first(), k - 1);
    }
}

/// The components of `s[start..]`, which has no leading root.
fn comps_rel_from(s: &Vec<char>, start: usize) -> (out: Vec<Vec<char>>)
    requires
        start <= s.len(),
    ensures
        views(out@) == comps_rel(s@.skip(start as int)),
    decreases s.len() - start,
{
    if start == s.len() {
        assert(s@.skip(start as int).len() == 0);
        return Vec::new();
    }
    let ghost t = s@.skip(start as int);
    let mut j: usize = start;
    while j < s.len() && s[j] != '/'
        invariant
            start <= j <= s.len(),
            forall|i: int| start <= i < j ==> s@[i] != '/',
        decreases s.len() - j,
    {
        j = j + 1;
    }
    proof {
        lemma_slash_index(t, j - start);
    }
    let seg = slice_chars(s, start, j);
    assert(seg@ =~= t.take(j - start));
    let mut rest = if j < s.len() {
        assert(t.skip(j - start + 1) =~= s@.skip(j + 1));
        comps_rel_from(s, j + 1)
    } else {
        Vec::new()
    };
    let is_dot = seg.len() == 1 && seg[0] == '.';
    assert(is_dot == (seg@ == seq!['.'])) by {
        if seg@.len() == 1 && seg@[0] == '.' {
            assert(seg@ =~= seq!['.']);
        }
    }
    if seg.len() == 0 || is_dot {
        rest
    } else {
        let ghost r0 = views(rest@);
        rest.insert(0, seg);
        assert(views(rest@) =~= seq![t.take(j - start)] + r0);
        rest
    }
}

/// The components of `p`.
pub fn path_components(p: &Vec<char>) -> (out: Vec<Vec<char>>)
    ensures
        views(out@) == components(p@),
{
    if p.len() > 0 && p[0] == '/' {
        let rest = comps_rel_from(p, 1);
        let mut out: Vec<Vec<char>> = Vec::new();
        let mut r: Vec<char> = Vec::new();
        r.push('/');
        out.push(r);
        let mut rest = rest;
        let ghost rv = views(rest@);
        out.append(&mut rest);
        assert(views(out@) =~= seq![root_comp()] + rv);
        out
    } else {
        assert(p@.skip(0) =~= p@);
        comps_rel_from(p, 0)
    }
}

proof fn lemma_slash_index_props(x: Seq<char>)
    ensures
        slash_index(x) <= x.len(),
        forall|i: int| 0 <= i < slash_index(x) ==> x[i] != '/',
        slash_index(x) < x.len() ==> x[slash_index(x) as int] == '/',
    decreases x.len(),
{
    if x.len() > 0 && x[0] != '/' {
        lemma_slash_index_props(x.drop_first());
        assert forall|i: int| 0 <= i < slash_index(x) implies x[i] != '/' by {
            if i > 0 {
                assert(x[i] == x.drop_first()[i - 1]);
            }
        }
    }
}

/// Lemma: splitting at an inserted `/` splits the components.
pub proof fn lemma_comps_rel_concat(x: Seq<char>, y: Seq<char>)
    ensures
        comps_rel(x + seq!['/'] + y) == comps_rel(x) + comps_rel(y),
    decreases x.len(),
{
    let s = x + seq!['/'] + y;
    let kx = slash_index(x) as int;
    lemma_slash_index_props(x);
    if kx < x.len() {
        assert forall|i: int| 0 <= i < kx implies s[i] != '/' by {
            assert(s[i] == x[i]);
        }
        lemma_slash_index(s, kx);
        assert(s.take(kx) =~= x.take(kx));
        let x2 = x.skip(kx + 1);
        assert(s.skip(kx + 1) =~= x2 + seq!['/'] + y);
        lemma_comps_rel_concat(x2, y);
        let seg = x.take(kx);
        if seg.len() == 0 || seg == seq!['.'] {
            assert(comps_rel(s) == comps_rel(x2) + comps_rel(y));
        } else {
            assert(comps_rel(s) == seq![seg] + (comps_rel(x2) + comps_rel(y)));
            assert(comps_rel(x) == seq![seg] + comps_rel(x2));
            assert(seq![seg] + (comps_rel(x2) + comps_rel(y)) =~= (seq![seg] + comps_rel(x2)) + comps_rel(y));
        }
    } else {
        lemma_slash_index(s, x.len() as int);
        assert(s.take(x.len() as int) =~= x);
        assert(s.skip(x.len() + 1int) =~= y);
        if x.len() == 0 {
            assert(comps_rel(x) =~= Seq::<Seq<char>>::empty());
            assert(comps_rel(s) =~= comps_rel(y));
        } else {
            assert(x.take(x.len() as int) =~= x);
            assert(comps_rel(x) == (if x == seq!['.'] { Seq::<Seq<char>>::empty() } else { seq![x] }));
        }
    }
}


/// Components written back with one `/` between neighbours.
pub open spec fn join_rel(cs: Seq<Seq<char>>) -> Seq<char>
    decreases cs.len(),
{
    if cs.len() == 0 {
        Seq::empty()
    } else if cs.len() == 1 {
        cs[0]
    } else {
        join_rel(cs.drop_last()) + seq!['/'] + cs.last()
    }
}

/// A component list written as a path: a root component becomes the
/// leading `/`.
pub open spec fn render(cs: Seq<Seq<char>>) -> Seq<char> {
    if cs.len() > 0 && cs[0] == root_comp() {
        seq!['/'] + join_rel(cs.skip(1))
    } else {
        join_rel(cs)
    }
}

/// `base.join(p)` as `PathBuf::push` builds it: an absolute `p` replaces
/// `base`; otherwise `p` follows `base`, with a `/` between them unless
/// `base` is empty or already ends with one.
pub open spec fn join_path(base: Seq<char>, p: Seq<char>) -> Seq<char> {
    if is_absolute(p) {
        p
    } else if base.len() == 0 {
        p
    } else if base.last() == '/' {
        base + p
    } else {
        base + seq!['/'] + p
    }
}

/// Every component of a rootless path is non-empty and does not begin
/// with `/`.
pub open spec fn plain_comps(cs: Seq<Seq<char>>) -> bool {
    forall|i: int| 0 <= i < cs.len() ==> #[trigger] cs[i].len() > 0 && cs[i][0] != '/'
}

/// The components of a relative path are non-empty and hold no `/`.
pub proof fn lemma_comps_rel_plain(s: Seq<char>)
    ensures
        plain_comps(comps_rel(s)),
    decreases s.len(),
{
    if s.len() > 0 {
        let k = slash_index(s);
        lemma_slash_index_props(s);
        if k < s.len() {
            lemma_comps_rel_plain(s.skip(k + 1int));
        }
        let seg = s.take(k as int);
        if seg.len() > 0 {
            assert(seg[0] == s[0]);
        }
        let rest = if k < s.len() { comps_rel(s.skip(k + 1int)) } else { Seq::empty() };
        if !(seg.len() == 0 || seg == seq!['.']) {
            assert forall|i: int| 0 <= i < comps_rel(s).len() implies #[trigger] comps_rel(s)[i].len() > 0
                && comps_rel(s)[i][0] != '/' by {
                assert(comps_rel(s) == seq![seg] + rest);
                if i > 0 {
                    assert(comps_rel(s)[i] == rest[i - 1]);
                }
            }
        }
    }
}

/// The components after the root (or all of them, for a relative path)
/// are plain.
pub proof fn lemma_components_plain(p: Seq<char>)
    ensures
        is_absolute(p) ==> components(p).len() >= 1 && components(p)[0] == root_comp()
            && plain_comps(components(p).skip(1)),
        !is_absolute(p) ==> plain_comps(components(p)),
{
    if is_absolute(p) {
        lemma_comps_rel_plain(p.skip(1));
        assert(components(p).skip(1) =~= comps_rel(p.skip(1)));
    } else {
        lemma_comps_rel_plain(p);
    }
}

proof fn lemma_join_rel_first(cs: Seq<Seq<char>>)
    requires
        cs.len() > 0,
        cs[0].len() > 0,
    ensures
        join_rel(cs).len() >= cs[0].len(),
        join_rel(cs)[0] == cs[0][0],
    decreases cs.len(),
{
    if cs.len() > 1 {
        lemma_join_rel_first(cs.drop_last());
    }
}

/// Writing plain components gives a relative path.
pub proof fn lemma_join_rel_relative(cs: Seq<Seq<char>>)
    requires
        plain_comps(cs),
    ensures
        !is_absolute(join_rel(cs)),
{
    if cs.len() > 0 {
        assert(cs[0].len() > 0 && cs[0][0] != '/');
        lemma_join_rel_first(cs);
    }
}

/// Joining a relative path appends its components.
pub proof fn lemma_components_join(base: Seq<char>, p: Seq<char>)
    requires
        !is_absolute(p),
    ensures
        components(join_path(base, p)) == components(base) + comps_rel(p),
{
    let e = Seq::<char>::empty();
    let j = join_path(base, p);
    if base.len() == 0 {
        assert(components(base) =~= Seq::<Seq<char>>::empty());
        assert(components(base) + comps_rel(p) =~= comps_rel(p));
    } else if base.last() == '/' {
        let b1 = base.drop_last();
        assert(j =~= b1 + seq!['/'] + p);
        if is_absolute(base) {
            assert(is_absolute(j));
            if base.len() == 1 {
                assert(j.skip(1) =~= p);
                assert(base.skip(1) =~= e);
                assert(comps_rel(e) =~= Seq::<Seq<char>>::empty());
                assert(components(base) =~= seq![root_comp()]);
            } else {
                assert(j.skip(1) =~= b1.skip(1) + seq!['/'] + p);
                lemma_comps_rel_concat(b1.skip(1), p);
                assert(base.skip(1) =~= b1.skip(1) + seq!['/'] + e);
                lemma_comps_rel_concat(b1.skip(1), e);
                assert(comps_rel(e) =~= Seq::<Seq<char>>::empty());
                assert(comps_rel(base.skip(1)) =~= comps_rel(b1.skip(1)));
            }
            assert(components(j) =~= components(base) + comps_rel(p));
        } else {
            assert(!is_absolute(j)) by {
                assert(j[0] == base[0]);
            }
            lemma_comps_rel_concat(b1, p);
            assert(base =~= b1 + seq!['/'] + e);
            lemma_comps_rel_concat(b1, e);
            assert(comps_rel(e) =~= Seq::<Seq<char>>::empty());
            assert(comps_rel(base) =~= comps_rel(b1));
        }
    } else {
        if is_absolute(base) {
            assert(is_absolute(j));
            assert(j.skip(1) =~= base.skip(1) + seq!['/'] + p);
            lemma_comps_rel_concat(base.skip(1), p);
            assert(components(j) =~= components(base) + comps_rel(p));
        } else {
            assert(!is_absolute(j)) by {
                assert(j[0] == base[0]);
            }
            lemma_comps_rel_concat(base, p);
        }
    }
}

/// `join_rel` of `cs[from..to]`.
pub fn join_rel_range(cs: &Vec<Vec<char>>, from: usize, to: usize) -> (out: Vec<char>)
    requires
        from <= to <= cs.len(),
    ensures
        out@ == join_rel(views(cs@).subrange(from as int, to as int)),
{
    let mut out: Vec<char> = Vec::new();
    if from == to {
        assert(views(cs@).subrange(from as int, to as int).len() == 0);
        return out;
    }
    push_chars(&mut out, &cs[from]);
    assert(views(cs@).subrange(from as int, from + 1) =~= seq![cs@[from as int]@]);
    let mut i: usize = from + 1;
    while i < to
        invariant
            from < i <= to <= cs.len(),
            out@ == join_rel(views(cs@).subrange(from as int, i as int)),
        decreases to - i,
    {
        out.push('/');
        push_chars(&mut out, &cs[i]);
        let ghost sub = views(cs@).subrange(from as int, i + 1);
        assert(sub.drop_last() =~= views(cs@).subrange(from as int, i as int));
        assert(sub.last() == cs@[i as int]@);
        i = i + 1;
    }
    out
}

/// The first `n` components of `cs` written as a path.
pub fn render_prefix(cs: &Vec<Vec<char>>, n: usize) -> (out: Vec<char>)
    requires
        n <= cs.len(),
    ensures
        out@ == render(views(cs@).take(n as int)),
{
    let ghost t = views(cs@).take(n as int);
    let mut is_root = false;
    if n > 0 && cs[0].len() == 1 && cs[0][0] == '/' {
        is_root = true;
    }
    assert(is_root == (t.len() > 0 && t[0] == root_comp())) by {
        if n > 0 {
            assert(t[0] == cs@[0]@);
            if cs@[0]@.len() == 1 && cs@[0]@[0] == '/' {
                assert(cs@[0]@ =~= root_comp());
            }
        }
    }
    if is_root {
        let mut out: Vec<char> = Vec::new();
        out.push('/');
        let rest = join_rel_range(cs, 1, n);
        assert(views(cs@).subrange(1, n as int) =~= t.skip(1));
        push_chars(&mut out, &rest);
        assert(out@ =~= seq!['/'] + join_rel(t.skip(1)));
        out
    } else {
        let out = join_rel_range(cs, 0, n);
        assert(views(cs@).subrange(0, n as int) =~= t);
        out
    }
}

/// `join_path(base, p)`.
pub fn join_path_chars(base: &Vec<char>, p: &Vec<char>) -> (out: Vec<char>)
    ensures
        out@ == join_path(base@, p@),
{
    if p.len() > 0 && p[0] == '/' {
        return p.clone();
    }
    if base.len() == 0 {
        return p.clone();
    }
    let mut out = base.clone();
    if base[base.len() - 1] != '/' {
        out.push('/');
    }
    push_chars(&mut out, p);
    out
}

/// Component-wise prefix test (`Path::starts_with`).
pub fn comps_starts_with(b: &Vec<Vec<char>>, a: &Vec<Vec<char>>) -> (r: bool)
    ensures
        r == comps_prefix(views(a@), views(b@)),
{
    if a.len() > b.len() {
        return false;
    }
    let mut i: usize = 0;
    while i < a.len()
        invariant
            a.len() <= b.len(),
            i <= a.len(),
            forall|j: int| 0 <= j < i ==> a@[j]@ == b@[j]@,
        decreases a.len() - i,
    {
        if !chars_eq(&a[i], &b[i]) {
            assert(views(b@).take(a.len() as int)[i as int] != views(a@)[i as int]);
            return false;
        }
        i = i + 1;
    }
    assert(views(b@).take(a.len() as int) =~= views(a@));
    true
}

} // verus!
