//! Snapshots and versioned element refs.
//!
//! Refs render as `@v<N>:e<id>`. A ref is only valid against the snapshot
//! whose version it carries; the next snapshot makes it stale.

use vstd::prelude::*;
use crate::text::{
    all_digits, chars_of, decimal, digit_char, digits_value, has_prefix, is_ascii_digit, matches_at,
    parse_u64, parse_u64_spec, push_decimal, push_str, slice_chars, starts_with, str_eq, string_of,
};

verus! {

/// Monotonic per-session snapshot counter.
#[derive(Debug, Clone, Copy, PartialEq, Eq, Hash, Structural)]
pub struct SnapshotVersion(pub u64);

impl SnapshotVersion {
    /// The following version.
    pub fn next(self) -> (n: Self)
        requires
            self.0 < u64::MAX,
        ensures
            n.0 == self.0 + 1,
    {
        SnapshotVersion(self.0 + 1)
    }

    /// `v<N>`, as the version's `Display` renders it.
    pub fn display(&self) -> (s: String)
        ensures
            s@ == seq!['v'] + decimal(self.0 as nat),
    {
        let mut v: Vec<char> = Vec::new();
        v.push('v');
        push_decimal(&mut v, self.0);
        string_of(&v)
    }
}

impl Default for SnapshotVersion {
    fn default() -> (v: Self)
        ensures
            v.0 == 0,
    {
        SnapshotVersion(0)
    }
}

/// Element ref: a snapshot version and an element id.
#[derive(Debug, PartialEq, Eq, Hash)]
pub struct ElementRef {
    pub version: SnapshotVersion,
    pub element_id: String,
}

impl Clone for ElementRef {
    fn clone(&self) -> (c: Self)
        ensures
            c == *self,
    {
        ElementRef { version: self.version, element_id: self.element_id.clone() }
    }
}

/// The wire form `@v<N>:e<id>`.
pub open spec fn render_ref(version: u64, id: Seq<char>) -> Seq<char> {
    seq!['@', 'v'] + decimal(version as nat) + seq![':', 'e'] + id
}

/// Position of the first occurrence of `p` in `s`.
pub open spec fn first_occurrence(s: Seq<char>, p: Seq<char>) -> Option<nat>
    decreases s.len(),
{
    if has_prefix(s, p) {
        Some(0)
    } else if s.len() == 0 {
        None
    } else {
        match first_occurrence(s.drop_first(), p) {
            Some(k) => Some(k + 1),
            None => None,
        }
    }
}

/// What `ElementRef::parse` accepts: `@v`, then a `u64` as `str::parse`
/// reads it, then `:e` (its first occurrence after `@v`), then any id.
pub open spec fn parse_ref(s: Seq<char>) -> Option<(u64, Seq<char>)> {
    if !has_prefix(s, seq!['@', 'v']) {
        None
    } else {
        let rest = s.skip(2);
        match first_occurrence(rest, seq![':', 'e']) {
            None => None,
            Some(k) => match parse_u64_spec(rest.take(k as int)) {
                None => None,
                Some(v) => Some((v, rest.skip(k + 2int))),
            },
        }
    }
}

/// Do two refs name the same element of the same version?
pub open spec fn same_ref(a: ElementRef, b: ElementRef) -> bool {
    a.version.0 == b.version.0 && a.element_id@ == b.element_id@
}

impl ElementRef {
    pub fn new(version: SnapshotVersion, element_id: String) -> (r: Self)
        ensures
            r.version == version,
            r.element_id@ == element_id@,
    {
        ElementRef { version, element_id }
    }

    /// The wire form `@v<N>:e<id>`.
    pub fn render(&self) -> (s: String)
        ensures
            s@ == render_ref(self.version.0, self.element_id@),
    {
        let mut v: Vec<char> = Vec::new();
        v.push('@');
        v.push('v');
        push_decimal(&mut v, self.version.0);
        v.push(':');
        v.push('e');
        push_str(&mut v, self.element_id.as_str());
        assert(v@ =~= render_ref(self.version.0, self.element_id@));
        string_of(&v)
    }

    /// Parses the `@v<N>:e<id>` form; `None` on malformed input.
    pub fn parse(s: &str) -> (r: Option<Self>)
        ensures
            match r {
                Some(e) => parse_ref(s@) == Some((e.version.0, e.element_id@)),
                None => parse_ref(s@) is None,
            },
    {
        let cs = chars_of(s);
        let mut pre: Vec<char> = Vec::new();
        pre.push('@');
        pre.push('v');
        if !starts_with(&cs, &pre) {
            assert(pre@ =~= seq!['@', 'v']);
            return None;
        }
        assert(pre@ =~= seq!['@', 'v']);
        let rest = slice_chars(&cs, 2, cs.len());
        assert(rest@ =~= cs@.skip(2));
        let mut sep: Vec<char> = Vec::new();
        sep.push(':');
        sep.push('e');
        assert(sep@ =~= seq![':', 'e']);
        match find_first(&rest, &sep) {
            None => None,
            Some(k) => {
                let vnum = slice_chars(&rest, 0, k);
                assert(vnum@ =~= rest@.take(k as int));
                match parse_u64(&vnum) {
                    None => None,
                    Some(n) => {
                        let eid = slice_chars(&rest, k + 2, rest.len());
                        assert(eid@ =~= rest@.skip(k + 2));
                        Some(ElementRef { version: SnapshotVersion(n), element_id: string_of(&eid) })
                    },
                }
            },
        }
    }

    /// Do `self` and `other` name the same element of the same version?
    pub fn same_as(&self, other: &ElementRef) -> (b: bool)
        ensures
            b == same_ref(*self, *other),
    {
        self.version.0 == other.version.0 && str_eq(self.element_id.as_str(), other.element_id.as_str())
    }
}

/// Position of the first occurrence of a non-empty `p` in `s`.
pub fn find_first(s: &Vec<char>, p: &Vec<char>) -> (r: Option<usize>)
    requires
        p.len() > 0,
    ensures
        match r {
            Some(k) => first_occurrence(s@, p@) == Some(k as nat) && k + p.len() <= s.len(),
            None => first_occurrence(s@, p@) is None,
        },
{
    let mut i: usize = 0;
    assert(s@.skip(0) =~= s@);
    while i < s.len()
        invariant
            p.len() > 0,
            i <= s.len(),
            first_occurrence(s@, p@) == (match first_occurrence(s@.skip(i as int), p@) {
                Some(k) => Some((k + i) as nat),
                None => None,
            }),
        decreases s.len() - i,
    {
        if matches_at(s, i, p) {
            return Some(i);
        }
        assert(s@.skip(i as int).drop_first() =~= s@.skip(i + 1));
        i = i + 1;
    }
    assert(!has_prefix(s@.skip(i as int), p@));
    None
}

proof fn lemma_digit_char(d: int)
    requires
        0 <= d < 10,
    ensures
        is_ascii_digit(digit_char(d)),
        (digit_char(d) as int) - ('0' as int) == d,
{
}

proof fn lemma_decimal_digits(n: nat)
    ensures
        decimal(n).len() > 0,
        all_digits(decimal(n)),
        digits_value(decimal(n)) == n,
    decreases n,
{
    lemma_digit_char((n % 10) as int);
    if n < 10 {
        assert(decimal(n).drop_last() =~= Seq::<char>::empty());
        assert(digits_value(Seq::<char>::empty()) == 0);
        assert(digits_value(decimal(n)) == n);
    }
    if n >= 10 {
        lemma_decimal_digits(n / 10);
        let d = decimal(n / 10);
        let e = d.push(digit_char((n % 10) as int));
        assert(e.drop_last() =~= d);
        assert(e.last() == digit_char((n % 10) as int));
        assert(digits_value(e) == digits_value(d) * 10 + (n % 10));
        assert((n / 10) * 10 + n % 10 == n) by (nonlinear_arith);
        assert(decimal(n) == e);
        assert forall|i: int| 0 <= i < e.len() implies #[trigger] is_ascii_digit(e[i]) by {
            if i < d.len() {
                assert(e[i] == d[i]);
                assert(is_ascii_digit(d[i]));
            }
        }
    }
}

proof fn lemma_first_occurrence_after_digits(d: Seq<char>, tail: Seq<char>)
    requires
        all_digits(d),
    ensures
        first_occurrence(d + seq![':', 'e'] + tail, seq![':', 'e']) == Some(d.len()),
    decreases d.len(),
{
    let s = d + seq![':', 'e'] + tail;
    if d.len() == 0 {
        assert(s.take(2) =~= seq![':', 'e']);
    } else {
        assert(is_ascii_digit(d[0]));
        assert(s[0] == d[0]);
        assert(!has_prefix(s, seq![':', 'e']));
        let d2 = d.drop_first();
        assert(all_digits(d2)) by {
            assert forall|i: int| 0 <= i < d2.len() implies #[trigger] is_ascii_digit(d2[i]) by {
                assert(d2[i] == d[i + 1]);
                assert(is_ascii_digit(d[i + 1]));
            }
        }
        assert(s.drop_first() =~= d2 + seq![':', 'e'] + tail);
        lemma_first_occurrence_after_digits(d2, tail);
    }
}

/// Law: parsing a rendered ref gives back its version and id.
pub proof fn lemma_parse_render(version: u64, id: Seq<char>)
    ensures
        parse_ref(render_ref(version, id)) == Some((version, id)),
{
    let d = decimal(version as nat);
    lemma_decimal_digits(version as nat);
    let s = render_ref(version, id);
    assert(s.take(2) =~= seq!['@', 'v']);
    let rest = s.skip(2);
    assert(rest =~= d + seq![':', 'e'] + id);
    lemma_first_occurrence_after_digits(d, id);
    assert(rest.take(d.len() as int) =~= d);
    assert(is_ascii_digit(d[0]));
    assert(parse_u64_spec(d) == Some(version));
    assert(rest.skip(d.len() + 2int) =~= id);
}

/// One element of a snapshot.
#[derive(Debug, Clone)]
pub struct SnapshotElement {
    pub element_ref: ElementRef,
    /// ARIA role or HTML semantic role (`button`, `textbox`, `link`, ...).
    pub role: String,
    /// Accessible name.
    pub name: Option<String>,
    /// Selector hint for debugging and audit.
    pub selector_hint: Option<String>,
    /// Did the prompt-injection scanner flag this element?
    pub injection_flagged: bool,
    /// Does the element accept an action in its current state?
    pub actionable: bool,
    /// `false` when `disabled` or `aria-disabled="true"`.
    pub enabled: bool,
}

/// Whether a flag is skipped when serialised: only `false` is.
pub fn is_false(b: &bool) -> (r: bool)
    ensures
        r == !*b,
{
    !*b
}

#[derive(Debug, Clone)]
pub struct SnapshotMeta {
    pub url: String,
    pub title: String,
    /// Monotonic per session.
    pub version: SnapshotVersion,
    /// Total raw accessibility nodes scanned.
    pub raw_node_count: usize,
}

#[derive(Debug, Clone)]
pub struct Snapshot {
    pub meta: SnapshotMeta,
    pub elements: Vec<SnapshotElement>,
}

/// The index of the first element of `elements` whose ref is `r`.
pub open spec fn first_ref_index(elements: Seq<SnapshotElement>, r: ElementRef) -> Option<int>
    decreases elements.len(),
{
    if elements.len() == 0 {
        None
    } else if same_ref(elements[0].element_ref, r) {
        Some(0)
    } else {
        match first_ref_index(elements.drop_first(), r) {
            Some(k) => Some(k + 1),
            None => None,
        }
    }
}

/// The index of the element `r` names in `snap`: none when `r` carries
/// another version than the snapshot (a stale ref).
pub open spec fn lookup_index(snap: Snapshot, r: ElementRef) -> Option<int> {
    if r.version.0 != snap.meta.version.0 {
        None
    } else {
        first_ref_index(snap.elements@, r)
    }
}

proof fn lemma_first_ref_index_bounds(elements: Seq<SnapshotElement>, r: ElementRef)
    ensures
        first_ref_index(elements, r) matches Some(k) ==> 0 <= k < elements.len(),
    decreases elements.len(),
{
    if elements.len() > 0 {
        lemma_first_ref_index_bounds(elements.drop_first(), r);
    }
}

impl Snapshot {
    /// The element `r` names in this snapshot: `None` when `r` carries
    /// another version (stale) or no element has it.
    pub fn lookup(&self, r: &ElementRef) -> (res: Option<&SnapshotElement>)
        ensures
            match lookup_index(*self, *r) {
                None => res is None,
                Some(k) => 0 <= k < self.elements@.len() && res == Some(&self.elements@[k]),
            },
    {
        proof {
            lemma_first_ref_index_bounds(self.elements@, *r);
        }
        if r.version.0 != self.meta.version.0 {
            return None;
        }
        let mut i: usize = 0;
        assert(self.elements@.skip(0) =~= self.elements@);
        while i < self.elements.len()
            invariant
                r.version.0 == self.meta.version.0,
                i <= self.elements.len(),
                first_ref_index(self.elements@, *r) == (match first_ref_index(self.elements@.skip(i as int), *r) {
                    Some(k) => Some(k + i),
                    None => None,
                }),
            decreases self.elements.len() - i,
        {
            if self.elements[i].element_ref.same_as(r) {
                return Some(&self.elements[i]);
            }
            assert(self.elements@.skip(i as int).drop_first() =~= self.elements@.skip(i + 1));
            i = i + 1;
        }
        None
    }
}

} // verus!
