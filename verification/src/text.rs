//! Character-sequence helpers shared by every module: conversion between
//! `&str` and `Vec<char>`, decimal rendering and parsing, substring search
//! and replacement, and line splitting with `str::lines` semantics.

use vstd::prelude::*;

verus! {

// ---------------------------------------------------------------------------
// Conversion
// ---------------------------------------------------------------------------

/// The characters of `s`, in order.
pub fn chars_of(s: &str) -> (v: Vec<char>)
    ensures
        v@ == s@,
{
    let mut v: Vec<char> = Vec::new();
    for c in it: s.chars()
        invariant
            v@ == it.seq().take(it.index() as int),
    {
        v.push(c);
    }
    v
}

/// Builds a `String` from a character sequence (`FromIterator<&char>`).
#[verifier::external_body]
pub(crate) fn string_of(v: &[char]) -> (s: String)
    ensures
        s@ == v@,
{
    v.iter().collect()
}

/// Appends the characters of `s` to `out`.
pub fn push_str(out: &mut Vec<char>, s: &str)
    ensures
        final(out)@ == old(out)@ + s@,
{
    let cs = chars_of(s);
    push_chars(out, &cs);
}

/// Appends `cs` to `out`.
pub fn push_chars(out: &mut Vec<char>, cs: &Vec<char>)
    ensures
        final(out)@ == old(out)@ + cs@,
{
    let ghost start = out@;
    let mut i: usize = 0;
    while i < cs.len()
        invariant
            i <= cs.len(),
            out@ == start + cs@.take(i as int),
        decreases cs.len() - i,
    {
        out.push(cs[i]);
        i = i + 1;
        assert(cs@.take(i as int) =~= cs@.take(i - 1).push(cs@[i - 1]));
    }
    assert(cs@.take(cs.len() as int) =~= cs@);
}

/// Equality of two character sequences.
pub fn chars_eq(a: &Vec<char>, b: &Vec<char>) -> (r: bool)
    ensures
        r == (a@ == b@),
{
    if a.len() != b.len() {
        return false;
    }
    let mut i: usize = 0;
    while i < a.len()
        invariant
            a.len() == b.len(),
            i <= a.len(),
            forall|j: int| 0 <= j < i ==> a@[j] == b@[j],
        decreases a.len() - i,
    {
        if a[i] != b[i] {
            return false;
        }
        i = i + 1;
    }
    assert(a@ =~= b@);
    true
}

/// Equality of two strings by their characters.
pub fn str_eq(a: &str, b: &str) -> (r: bool)
    ensures
        r == (a@ == b@),
{
    let va = chars_of(a);
    let vb = chars_of(b);
    chars_eq(&va, &vb)
}

// ---------------------------------------------------------------------------
// Decimal numbers
// ---------------------------------------------------------------------------

/// The ASCII digit for `d` (`0 <= d < 10`).
pub open spec fn digit_char(d: int) -> char {
    if d == 0 { '0' }
    else if d == 1 { '1' }
    else if d == 2 { '2' }
    else if d == 3 { '3' }
    else if d == 4 { '4' }
    else if d == 5 { '5' }
    else if d == 6 { '6' }
    else if d == 7 { '7' }
    else if d == 8 { '8' }
    else { '9' }
}

/// Decimal rendering of `n`, without sign or leading zeros (as `Display` for
/// unsigned integers prints it).
pub open spec fn decimal(n: nat) -> Seq<char>
    decreases n,
{
    if n < 10 {
        seq![digit_char(n as int)]
    } else {
        decimal(n / 10).push(digit_char((n % 10) as int))
    }
}

fn digit(d: u64) -> (c: char)
    requires
        d < 10,
    ensures
        c == digit_char(d as int),
{
    if d == 0 { '0' }
    else if d == 1 { '1' }
    else if d == 2 { '2' }
    else if d == 3 { '3' }
    else if d == 4 { '4' }
    else if d == 5 { '5' }
    else if d == 6 { '6' }
    else if d == 7 { '7' }
    else if d == 8 { '8' }
    else { '9' }
}

/// Appends the decimal rendering of `n` to `out`.
pub fn push_decimal(out: &mut Vec<char>, n: u64)
    ensures
        final(out)@ == old(out)@ + decimal(n as nat),
    decreases n,
{
    if n >= 10 {
        push_decimal(out, n / 10);
    }
    let c = digit(n % 10);
    out.push(c);
}

pub open spec fn is_ascii_digit(c: char) -> bool {
    '0' <= c && c <= '9'
}

/// The numeric value of a string of ASCII digits.
pub open spec fn digits_value(s: Seq<char>) -> nat
    decreases s.len(),
{
    if s.len() == 0 {
        0
    } else {
        digits_value(s.drop_last()) * 10 + ((s.last() as int) - ('0' as int)) as nat
    }
}

pub open spec fn all_digits(s: Seq<char>) -> bool {
    forall|i: int| 0 <= i < s.len() ==> #[trigger] is_ascii_digit(s[i])
}

/// What `<u64 as FromStr>::from_str` accepts: an optional `+` followed by
/// at least one ASCII digit, with a value that fits in a `u64`.
pub open spec fn parse_u64_spec(s: Seq<char>) -> Option<u64> {
    let body = if s.len() > 0 && s[0] == '+' { s.drop_first() } else { s };
    if body.len() > 0 && all_digits(body) && digits_value(body) <= u64::MAX {
        Some(digits_value(body) as u64)
    } else {
        None
    }
}

/// Law: reading back a decimal rendering gives the number. The rendering
/// of `n` is all ASCII digits, and their value is `n`.
pub proof fn lemma_decimal_round_trip(n: nat)
    ensures
        decimal(n).len() > 0,
        all_digits(decimal(n)),
        digits_value(decimal(n)) == n,
    decreases n,
{
    if n < 10 {
        let d = decimal(n);
        assert(d.drop_last() =~= Seq::<char>::empty());
        assert(digit_char(n as int) as int - '0' as int == n);
        assert(d.last() == digit_char(n as int));
        assert(digits_value(d.drop_last()) == 0);
        assert(digits_value(d) == digits_value(d.drop_last()) * 10 + ((d.last() as int) - ('0' as int)) as nat);
    } else {
        lemma_decimal_round_trip(n / 10);
        let d = decimal(n);
        let c = digit_char((n % 10) as int);
        assert(d.drop_last() =~= decimal(n / 10));
        assert(d.last() == c);
        assert(c as int - '0' as int == n % 10);
        assert((n / 10) * 10 + n % 10 == n) by (nonlinear_arith);
        assert(digits_value(d) == digits_value(d.drop_last()) * 10 + ((d.last() as int) - ('0' as int)) as nat);
        assert(digits_value(d) == (n / 10) * 10 + n % 10);
        assert forall|i: int| 0 <= i < d.len() implies #[trigger] is_ascii_digit(d[i]) by {
            if i < d.len() - 1 {
                assert(d[i] == decimal(n / 10)[i]);
            }
        }
    }
}

proof fn lemma_digits_value_prefix(s: Seq<char>, i: int)
    requires
        0 <= i <= s.len(),
        all_digits(s),
    ensures
        digits_value(s.take(i)) <= digits_value(s),
    decreases s.len(),
{
    if i < s.len() {
        assert(all_digits(s.drop_last())) by {
            assert forall|k: int| 0 <= k < s.drop_last().len() implies #[trigger] is_ascii_digit(
                s.drop_last()[k],
            ) by {
                assert(is_ascii_digit(s[k]));
            }
        }
        lemma_digits_value_prefix(s.drop_last(), i);
        assert(s.drop_last().take(i) =~= s.take(i));
    } else {
        assert(s.take(i) =~= s);
    }
}

/// Parses `s` the way `str::parse::<u64>` does.
pub fn parse_u64(s: &Vec<char>) -> (r: Option<u64>)
    ensures
        r == parse_u64_spec(s@),
{
    let start: usize = if s.len() > 0 && s[0] == '+' { 1 } else { 0 };
    let ghost body = if s@.len() > 0 && s@[0] == '+' { s@.drop_first() } else { s@ };
    assert(body =~= s@.skip(start as int));
    if start >= s.len() {
        return None;
    }
    let mut acc: u64 = 0;
    let mut i: usize = start;
    while i < s.len()
        invariant
            start <= i <= s.len(),
            start < s.len(),
            body == (if s@.len() > 0 && s@[0] == '+' { s@.drop_first() } else { s@ }),
            body =~= s@.skip(start as int),
            all_digits(body.take(i - start)),
            acc as nat == digits_value(body.take(i - start)),
        decreases s.len() - i,
    {
        let c = s[i];
        if !('0' <= c && c <= '9') {
            assert(!is_ascii_digit(body[i - start]));
            return None;
        }
        let d: u64 = ((c as u32) - ('0' as u32)) as u64;
        let ghost next = body.take(i - start + 1);
        assert(next.drop_last() =~= body.take(i - start));
        assert(all_digits(next)) by {
            assert forall|k: int| 0 <= k < next.len() implies #[trigger] is_ascii_digit(next[k]) by {
                if k < i - start {
                    assert(next[k] == body.take(i - start)[k]);
                }
            }
        }
        match acc.checked_mul(10) {
            Some(m) => match m.checked_add(d) {
                Some(a) => {
                    acc = a;
                },
                None => {
                    proof {
                        assert(digits_value(next) > u64::MAX);
                        if all_digits(body) {
                            lemma_digits_value_prefix(body, i - start + 1);
                        }
                    }
                    return None;
                },
            },
            None => {
                proof {
                    assert(digits_value(next) > u64::MAX);
                    if all_digits(body) {
                        lemma_digits_value_prefix(body, i - start + 1);
                    }
                }
                return None;
            },
        }
        i = i + 1;
    }
    assert(body.take(i - start) =~= body);
    Some(acc)
}

// ---------------------------------------------------------------------------
// Substring search and replacement (`str::matches`, `str::replace`,
// `str::replacen(.., 1)`)
// ---------------------------------------------------------------------------

/// Does `s` begin with `p`?
pub open spec fn has_prefix(s: Seq<char>, p: Seq<char>) -> bool {
    p.len() <= s.len() && s.take(p.len() as int) == p
}

/// Does `s` end with `p`?
pub open spec fn has_suffix(s: Seq<char>, p: Seq<char>) -> bool {
    p.len() <= s.len() && s.skip(s.len() - p.len()) == p
}

/// Number of non-overlapping occurrences of `p` in `s`, scanning left to
/// right; an empty pattern matches at each of the `s.len() + 1` boundaries.
pub open spec fn count_matches(s: Seq<char>, p: Seq<char>) -> nat
    decreases s.len(),
{
    if p.len() == 0 {
        s.len() + 1
    } else if s.len() < p.len() {
        0
    } else if s.take(p.len() as int) == p {
        1 + count_matches(s.skip(p.len() as int), p)
    } else {
        count_matches(s.drop_first(), p)
    }
}

/// `r` before each character of `s` and once more at the end.
pub open spec fn interleave(s: Seq<char>, r: Seq<char>) -> Seq<char>
    decreases s.len(),
{
    if s.len() == 0 {
        r
    } else {
        r + seq![s[0]] + interleave(s.drop_first(), r)
    }
}

/// Every occurrence of `p` in `s` (as `count_matches` finds them) replaced
/// by `r`.
pub open spec fn replace_all(s: Seq<char>, p: Seq<char>, r: Seq<char>) -> Seq<char>
    decreases s.len(),
{
    if p.len() == 0 {
        interleave(s, r)
    } else if s.len() < p.len() {
        s
    } else if s.take(p.len() as int) == p {
        r + replace_all(s.skip(p.len() as int), p, r)
    } else {
        seq![s[0]] + replace_all(s.drop_first(), p, r)
    }
}

/// The first occurrence of `p` in `s` replaced by `r` (`s` unchanged when
/// there is none).
pub open spec fn replace_first(s: Seq<char>, p: Seq<char>, r: Seq<char>) -> Seq<char>
    decreases s.len(),
{
    if p.len() == 0 {
        r + s
    } else if s.len() < p.len() {
        s
    } else if s.take(p.len() as int) == p {
        r + s.skip(p.len() as int)
    } else {
        seq![s[0]] + replace_first(s.drop_first(), p, r)
    }
}

/// Law: replacing the first occurrence cuts the text at that occurrence.
/// When `p` (not empty) first occurs in `s` at `i`, the result is what
/// comes before `i`, then `r`, then what follows the occurrence.
pub proof fn lemma_replace_first_at(s: Seq<char>, p: Seq<char>, r: Seq<char>, i: int)
    requires
        p.len() > 0,
        0 <= i,
        i + p.len() <= s.len(),
        s.subrange(i, i + p.len()) == p,
        forall|j: int| 0 <= j < i ==> #[trigger] s.subrange(j, j + p.len()) != p,
    ensures
        replace_first(s, p, r) == s.take(i) + r + s.skip(i + p.len()),
    decreases i,
{
    if i == 0 {
        assert(s.take(p.len() as int) == s.subrange(0, p.len() as int));
        assert(s.take(0) + r =~= r);
    } else {
        assert(s.take(p.len() as int) == s.subrange(0, p.len() as int));
        assert(s.subrange(0int, 0int + p.len()) != p);
        let t = s.drop_first();
        assert(t.subrange(i - 1, i - 1 + p.len()) =~= s.subrange(i, i + p.len()));
        assert forall|j: int| 0 <= j < i - 1 implies #[trigger] t.subrange(j, j + p.len()) != p by {
            assert(t.subrange(j, j + p.len()) =~= s.subrange(j + 1, j + 1 + p.len()));
        }
        lemma_replace_first_at(t, p, r, i - 1);
        assert(seq![s[0]] + (t.take(i - 1) + r + t.skip(i - 1 + p.len())) =~= s.take(i) + r + s.skip(
            i + p.len(),
        ));
    }
}

/// Law: a text in which `p` (not empty) does not occur has no match, and
/// replacing `p` in it, all or first, leaves it as it is.
pub proof fn lemma_replace_absent(s: Seq<char>, p: Seq<char>, r: Seq<char>)
    requires
        p.len() > 0,
        forall|j: int| 0 <= j && j + p.len() <= s.len() ==> #[trigger] s.subrange(j, j + p.len()) != p,
    ensures
        count_matches(s, p) == 0,
        replace_all(s, p, r) == s,
        replace_first(s, p, r) == s,
    decreases s.len(),
{
    if s.len() >= p.len() {
        assert(s.take(p.len() as int) == s.subrange(0int, 0int + p.len()));
        let t = s.drop_first();
        assert forall|j: int| 0 <= j && j + p.len() <= t.len() implies #[trigger] t.subrange(j, j + p.len()) != p by {
            assert(t.subrange(j, j + p.len()) =~= s.subrange(j + 1, j + 1 + p.len()));
        }
        lemma_replace_absent(t, p, r);
        assert(seq![s[0]] + t =~= s);
    }
}

/// Law: replacing every occurrence of `p` (not empty) by itself changes
/// nothing.
pub proof fn lemma_replace_all_same(s: Seq<char>, p: Seq<char>)
    requires
        p.len() > 0,
    ensures
        replace_all(s, p, p) == s,
    decreases s.len(),
{
    if s.len() >= p.len() {
        if s.take(p.len() as int) == p {
            lemma_replace_all_same(s.skip(p.len() as int), p);
            assert(p + s.skip(p.len() as int) =~= s);
        } else {
            lemma_replace_all_same(s.drop_first(), p);
            assert(seq![s[0]] + s.drop_first() =~= s);
        }
    }
}

/// Does `p` occur in `s` at position `i`?
pub fn matches_at(s: &Vec<char>, i: usize, p: &Vec<char>) -> (r: bool)
    requires
        i <= s.len(),
    ensures
        r == has_prefix(s@.skip(i as int), p@),
{
    if p.len() > s.len() - i {
        return false;
    }
    let mut k: usize = 0;
    while k < p.len()
        invariant
            p.len() <= s.len() - i,
            k <= p.len(),
            forall|j: int| 0 <= j < k ==> s@[i + j] == p@[j],
        decreases p.len() - k,
    {
        if s[i + k] != p[k] {
            assert(s@.skip(i as int).take(p.len() as int)[k as int] != p@[k as int]);
            return false;
        }
        k = k + 1;
    }
    assert(s@.skip(i as int).take(p.len() as int) =~= p@);
    true
}

/// Does `s` begin with `p`?
pub fn starts_with(s: &Vec<char>, p: &Vec<char>) -> (r: bool)
    ensures
        r == has_prefix(s@, p@),
{
    assert(s@.skip(0) =~= s@);
    matches_at(s, 0, p)
}

/// Does `s` end with `p`?
pub fn ends_with(s: &Vec<char>, p: &Vec<char>) -> (r: bool)
    ensures
        r == has_suffix(s@, p@),
{
    if p.len() > s.len() {
        return false;
    }
    let r = matches_at(s, s.len() - p.len(), p);
    assert(s@.skip(s@.len() - p@.len()).take(p@.len() as int) =~= s@.skip(s@.len() - p@.len()));
    r
}

/// Does `p` occur anywhere in `s` (`str::contains`)?
pub open spec fn contains_seq(s: Seq<char>, p: Seq<char>) -> bool {
    exists|i: int| 0 <= i <= s.len() - p.len() && #[trigger] s.subrange(i, i + p.len()) == p
}

/// Does `p` occur in `s`?
pub fn contains(s: &Vec<char>, p: &Vec<char>) -> (r: bool)
    ensures
        r == contains_seq(s@, p@),
{
    if p.len() > s.len() {
        return false;
    }
    if p.len() == 0 {
        assert(s@.subrange(0int, 0int + p@.len()) =~= p@);
        return true;
    }
    let mut i: usize = 0;
    while i <= s.len() - p.len()
        invariant
            0 < p.len() <= s.len(),
            i <= s.len() - p.len() + 1,
            forall|j: int| 0 <= j < i ==> #[trigger] s@.subrange(j, j + p.len()) != p@,
        decreases s.len() - p.len() + 1 - i,
    {
        if matches_at(s, i, p) {
            assert(s@.skip(i as int).take(p.len() as int) =~= s@.subrange(i as int, i + p.len()));
            return true;
        }
        assert(s@.skip(i as int).take(p.len() as int) =~= s@.subrange(i as int, i + p.len()));
        i = i + 1;
    }
    false
}

proof fn lemma_skip_skip(s: Seq<char>, a: int, b: int)
    requires
        0 <= a,
        0 <= b,
        a + b <= s.len(),
    ensures
        s.skip(a).skip(b) == s.skip(a + b),
{
    assert(s.skip(a).skip(b) =~= s.skip(a + b));
}

/// Number of occurrences of `p` in `s`, as `str::matches(p).count()`.
pub fn count_occurrences(s: &Vec<char>, p: &Vec<char>) -> (n: usize)
    requires
        s.len() < usize::MAX,
    ensures
        n == count_matches(s@, p@),
{
    if p.len() == 0 {
        return s.len() + 1;
    }
    let mut n: usize = 0;
    let mut i: usize = 0;
    assert(s@.skip(0) =~= s@);
    while i < s.len()
        invariant
            p.len() > 0,
            i <= s.len(),
            n <= i,
            count_matches(s@, p@) == n + count_matches(s@.skip(i as int), p@),
        decreases s.len() - i,
    {
        let ghost rest = s@.skip(i as int);
        if matches_at(s, i, p) {
            proof { lemma_skip_skip(s@, i as int, p.len() as int); }
            n = n + 1;
            i = i + p.len();
        } else {
            if s.len() - i < p.len() {
                assert(count_matches(rest, p@) == 0);
                assert(s@.skip(s.len() as int).len() == 0);
                assert(count_matches(s@.skip(s.len() as int), p@) == 0);
                i = s.len();
            } else {
                assert(rest.drop_first() =~= s@.skip(i + 1));
                i = i + 1;
            }
        }
    }
    assert(s@.skip(i as int).len() == 0);
    n
}

/// `s` with every occurrence of `p` replaced by `r` (`str::replace`).
pub fn replace_all_chars(s: &Vec<char>, p: &Vec<char>, r: &Vec<char>) -> (out: Vec<char>)
    ensures
        out@ == replace_all(s@, p@, r@),
{
    let mut out: Vec<char> = Vec::new();
    let mut i: usize = 0;
    assert(s@.skip(0) =~= s@);
    if p.len() == 0 {
        while i < s.len()
            invariant
                p@.len() == 0,
                i <= s.len(),
                replace_all(s@, p@, r@) == out@ + interleave(s@.skip(i as int), r@),
            decreases s.len() - i,
        {
            let ghost rest = s@.skip(i as int);
            assert(rest.drop_first() =~= s@.skip(i + 1));
            push_chars(&mut out, r);
            out.push(s[i]);
            i = i + 1;
        }
        push_chars(&mut out, r);
        assert(out@ =~= replace_all(s@, p@, r@));
        return out;
    }
    while i < s.len()
        invariant
            p.len() > 0,
            i <= s.len(),
            replace_all(s@, p@, r@) == out@ + replace_all(s@.skip(i as int), p@, r@),
        decreases s.len() - i,
    {
        let ghost rest = s@.skip(i as int);
        if matches_at(s, i, p) {
            proof { lemma_skip_skip(s@, i as int, p.len() as int); }
            push_chars(&mut out, r);
            i = i + p.len();
        } else if s.len() - i < p.len() {
            assert(replace_all(rest, p@, r@) == rest);
            push_rest(&mut out, s, i);
            i = s.len();
            assert(s@.skip(i as int).len() == 0);
            assert(replace_all(s@.skip(i as int), p@, r@) =~= Seq::<char>::empty());
        } else {
            assert(rest.drop_first() =~= s@.skip(i + 1));
            out.push(s[i]);
            i = i + 1;
        }
    }
    assert(s@.skip(i as int).len() == 0);
    assert(out@ =~= replace_all(s@, p@, r@));
    out
}

/// `s` with the first occurrence of `p` replaced by `r`
/// (`str::replacen(p, r, 1)`).
pub fn replace_first_chars(s: &Vec<char>, p: &Vec<char>, r: &Vec<char>) -> (out: Vec<char>)
    ensures
        out@ == replace_first(s@, p@, r@),
{
    let mut out: Vec<char> = Vec::new();
    if p.len() == 0 {
        push_chars(&mut out, r);
        push_chars(&mut out, s);
        return out;
    }
    let mut i: usize = 0;
    assert(s@.skip(0) =~= s@);
    while i < s.len()
        invariant
            p.len() > 0,
            i <= s.len(),
            out@ == s@.take(i as int),
            replace_first(s@, p@, r@) == out@ + replace_first(s@.skip(i as int), p@, r@),
        decreases s.len() - i,
    {
        let ghost rest = s@.skip(i as int);
        if matches_at(s, i, p) {
            push_chars(&mut out, r);
            let mut j: usize = i + p.len();
            let ghost mid = out@;
            while j < s.len()
                invariant
                    i + p.len() <= j <= s.len(),
                    out@ == mid + s@.subrange(i + p.len(), j as int),
                decreases s.len() - j,
            {
                out.push(s[j]);
                j = j + 1;
                assert(s@.subrange(i + p.len(), j as int) =~= s@.subrange(i + p.len(), j - 1).push(s@[j - 1]));
            }
            assert(rest.skip(p.len() as int) =~= s@.subrange(i + p.len(), s.len() as int));
            return out;
        } else if s.len() - i < p.len() {
            assert(replace_first(rest, p@, r@) == rest);
            push_rest(&mut out, s, i);
            assert(out@ =~= s@);
            return out;
        } else {
            assert(rest.drop_first() =~= s@.skip(i + 1));
            out.push(s[i]);
            i = i + 1;
            assert(out@ =~= s@.take(i as int));
        }
    }
    assert(s@.skip(i as int).len() == 0);
    assert(out@ =~= s@);
    out
}

/// Appends `s[i..]` to `out`.
fn push_rest(out: &mut Vec<char>, s: &Vec<char>, i: usize)
    requires
        i <= s.len(),
    ensures
        final(out)@ == old(out)@ + s@.skip(i as int),
{
    let ghost start = out@;
    let mut j: usize = i;
    while j < s.len()
        invariant
            i <= j <= s.len(),
            out@ == start + s@.subrange(i as int, j as int),
        decreases s.len() - j,
    {
        out.push(s[j]);
        j = j + 1;
        assert(s@.subrange(i as int, j as int) =~= s@.subrange(i as int, j - 1).push(s@[j - 1]));
    }
    assert(s@.subrange(i as int, s.len() as int) =~= s@.skip(i as int));
}

// ---------------------------------------------------------------------------
// Lines (`str::lines`)
// ---------------------------------------------------------------------------

/// Index of the first `'\n'` in `s`, or `s.len()` when there is none.
pub open spec fn newline_index(s: Seq<char>) -> nat
    decreases s.len(),
{
    if s.len() == 0 {
        0
    } else if s[0] == '\n' {
        0
    } else {
        1 + newline_index(s.drop_first())
    }
}

/// `l` without one trailing `'\r'`.
pub open spec fn strip_cr(l: Seq<char>) -> Seq<char> {
    if l.len() > 0 && l.last() == '\r' {
        l.drop_last()
    } else {
        l
    }
}

/// The lines of `s` as `str::lines` yields them: split at `'\n'`, a
/// `'\r'` right before a `'\n'` dropped, no empty line after a final
/// line ending, and no line at all for the empty string.
pub open spec fn lines_of(s: Seq<char>) -> Seq<Seq<char>>
    decreases s.len(),
{
    if s.len() == 0 {
        Seq::empty()
    } else {
        let k = newline_index(s);
        if k >= s.len() {
            seq![s]
        } else {
            seq![strip_cr(s.take(k as int))] + lines_of(s.skip(k + 1int))
        }
    }
}

proof fn lemma_newline_index(t: Seq<char>, k: int)
    requires
        0 <= k <= t.len(),
        forall|i: int| 0 <= i < k ==> t[i] != '\n',
        k == t.len() || t[k] == '\n',
    ensures
        newline_index(t) == k,
    decreases k,
{
    if k > 0 {
        lemma_newline_index(t.drop_first(), k - 1);
    }
}

/// Views of a vector of character vectors.
pub open spec fn views(v: Seq<Vec<char>>) -> Seq<Seq<char>> {
    v.map_values(|l: Vec<char>| l@)
}

/// `s[a..b]` as a new vector.
pub fn slice_chars(s: &Vec<char>, a: usize, b: usize) -> (out: Vec<char>)
    requires
        a <= b <= s.len(),
    ensures
        out@ == s@.subrange(a as int, b as int),
{
    let mut out: Vec<char> = Vec::new();
    let mut j: usize = a;
    while j < b
        invariant
            a <= j <= b <= s.len(),
            out@ == s@.subrange(a as int, j as int),
        decreases b - j,
    {
        out.push(s[j]);
        j = j + 1;
        assert(s@.subrange(a as int, j as int) =~= s@.subrange(a as int, j - 1).push(s@[j - 1]));
    }
    out
}

/// The lines of `s`, as `str::lines` splits them.
pub fn split_lines(s: &Vec<char>) -> (out: Vec<Vec<char>>)
    ensures
        views(out@) == lines_of(s@),
{
    let mut out: Vec<Vec<char>> = Vec::new();
    let mut start: usize = 0;
    assert(s@.skip(0) =~= s@);
    while start < s.len()
        invariant
            start <= s.len(),
            lines_of(s@) == views(out@) + lines_of(s@.skip(start as int)),
        decreases s.len() - start,
    {
        let ghost t = s@.skip(start as int);
        let mut j: usize = start;
        while j < s.len() && s[j] != '\n'
            invariant
                start <= j <= s.len(),
                forall|i: int| start <= i < j ==> s@[i] != '\n',
            decreases s.len() - j,
        {
            j = j + 1;
        }
        proof {
            lemma_newline_index(t, j - start);
        }
        let ghost before = views(out@);
        if j == s.len() {
            let line = slice_chars(s, start, j);
            assert(line@ =~= t);
            out.push(line);
            assert(views(out@) =~= before + seq![t]);
            start = j;
            assert(s@.skip(start as int).len() == 0);
            assert(lines_of(s@.skip(start as int)) =~= Seq::<Seq<char>>::empty());
        } else {
            let mut end = j;
            if end > start && s[end - 1] == '\r' {
                end = end - 1;
            }
            let line = slice_chars(s, start, end);
            assert(line@ =~= strip_cr(t.take(j - start)));
            out.push(line);
            assert(views(out@) =~= before + seq![strip_cr(t.take(j - start))]);
            assert(t.skip(j - start + 1) =~= s@.skip(j + 1));
            start = j + 1;
        }
    }
    assert(s@.skip(start as int).len() == 0);
    assert(views(out@) =~= lines_of(s@));
    out
}


// ---------------------------------------------------------------------------
// UTF-8 lengths
// ---------------------------------------------------------------------------

/// The number of bytes of the UTF-8 encoding of `s` (`str::len`).
pub open spec fn utf8_len(s: Seq<char>) -> nat {
    vstd::utf8::encode_utf8(s).len()
}

/// Encoding distributes over concatenation.
pub proof fn lemma_encode_concat(a: Seq<char>, b: Seq<char>)
    ensures
        vstd::utf8::encode_utf8(a + b) == vstd::utf8::encode_utf8(a) + vstd::utf8::encode_utf8(b),
    decreases a.len(),
{
    if a.len() > 0 {
        assert((a + b).drop_first() =~= a.drop_first() + b);
        assert((a + b)[0] == a[0]);
        lemma_encode_concat(a.drop_first(), b);
        assert(vstd::utf8::encode_utf8(a + b) =~= vstd::utf8::encode_utf8(a)
            + vstd::utf8::encode_utf8(b));
    } else {
        assert(a + b =~= b);
    }
}

/// The byte length of a one-character sequence.
pub open spec fn char_width(c: char) -> nat {
    if (c as u32) <= 0x7F {
        1
    } else if (c as u32) <= 0x7FF {
        2
    } else if (c as u32) <= 0xFFFF {
        3
    } else {
        4
    }
}

/// Appending a character adds its UTF-8 width to the byte length.
pub proof fn lemma_utf8_len_push(s: Seq<char>, c: char)
    ensures
        utf8_len(s.push(c)) == utf8_len(s) + char_width(c),
{
    lemma_encode_concat(s, seq![c]);
    assert(s.push(c) =~= s + seq![c]);
    let one = seq![c];
    assert(one.drop_first() =~= Seq::<char>::empty());
    assert(vstd::utf8::encode_utf8(one.drop_first()).len() == 0);
    assert(one[0] == c);
    assert(vstd::utf8::encode_utf8(one) == vstd::utf8::encode_scalar(c as u32)
        + vstd::utf8::encode_utf8(one.drop_first()));
    broadcast use vstd::utf8::char_is_scalar;
    assert(vstd::utf8::is_scalar(c as u32));
    assert(vstd::utf8::encode_scalar(c as u32).len() == char_width(c));
}

/// Byte lengths of prefixes grow strictly with the prefix.
pub proof fn lemma_utf8_take_mono(s: Seq<char>, i: int, j: int)
    requires
        0 <= i <= j <= s.len(),
    ensures
        utf8_len(s.take(i)) + (j - i) <= utf8_len(s.take(j)),
    decreases j - i,
{
    if i < j {
        lemma_utf8_take_mono(s, i, j - 1);
        assert(s.take(j) =~= s.take(j - 1).push(s[j - 1]));
        lemma_utf8_len_push(s.take(j - 1), s[j - 1]);
    }
}

/// The UTF-8 width of `c`.
pub fn char_utf8_width(c: char) -> (w: usize)
    ensures
        w == char_width(c),
{
    let u = c as u32;
    if u <= 0x7F {
        1
    } else if u <= 0x7FF {
        2
    } else if u <= 0xFFFF {
        3
    } else {
        4
    }
}


/// How many leading characters of `s` fit in `max` bytes of UTF-8: the
/// longest prefix that does not cross the limit.
pub open spec fn floor_count(s: Seq<char>, max: nat) -> nat
    decreases s.len(),
{
    if s.len() == 0 || char_width(s[0]) > max {
        0
    } else {
        1 + floor_count(s.drop_first(), (max - char_width(s[0])) as nat)
    }
}

/// Law: the cut is the longest prefix that fits. The prefix `floor_prefix`
/// keeps fits in `max` bytes, and keeping one character more would not.
pub proof fn lemma_floor_prefix_longest(s: Seq<char>, max: nat)
    ensures
        floor_count(s, max) <= s.len(),
        utf8_len(s.take(floor_count(s, max) as int)) <= max,
        floor_count(s, max) < s.len() ==> utf8_len(s.take(floor_count(s, max) + 1int)) > max,
    decreases s.len(),
{
    let k = floor_count(s, max);
    if s.len() == 0 {
        assert(s.take(0) =~= Seq::<char>::empty());
        assert(vstd::utf8::encode_utf8(Seq::<char>::empty()).len() == 0);
    } else if char_width(s[0]) > max {
        assert(s.take(0) =~= Seq::<char>::empty());
        assert(vstd::utf8::encode_utf8(Seq::<char>::empty()).len() == 0);
        assert(s.take(1) =~= Seq::<char>::empty().push(s[0]));
        lemma_utf8_len_push(Seq::<char>::empty(), s[0]);
    } else {
        let t = s.drop_first();
        let m = (max - char_width(s[0])) as nat;
        lemma_floor_prefix_longest(t, m);
        let j = floor_count(t, m);
        assert(seq![s[0]] + t.take(j as int) =~= s.take(k as int));
        lemma_encode_concat(seq![s[0]], t.take(j as int));
        assert(seq![s[0]] =~= Seq::<char>::empty().push(s[0]));
        assert(vstd::utf8::encode_utf8(Seq::<char>::empty()).len() == 0);
        lemma_utf8_len_push(Seq::<char>::empty(), s[0]);
        if j < t.len() {
            assert(seq![s[0]] + t.take(j + 1int) =~= s.take(k + 1int));
            lemma_encode_concat(seq![s[0]], t.take(j + 1int));
        }
    }
}

/// The longest prefix of `s` whose UTF-8 form fits in `max` bytes, cut at
/// a character boundary.
pub open spec fn floor_prefix(s: Seq<char>, max: nat) -> Seq<char> {
    s.take(floor_count(s, max) as int)
}

/// The text cut to at most `max` bytes at the last character boundary,
/// or `None` when it already fits.
pub fn cut_floor(s: &Vec<char>, max: usize) -> (r: Option<Vec<char>>)
    ensures
        r is Some <==> utf8_len(s@) > max,
        r matches Some(p) ==> p@ == floor_prefix(s@, max as nat) && utf8_len(p@) <= max,
        r matches Some(p) ==> p@.len() < s@.len() && p@ == s@.take(p@.len() as int) && utf8_len(
            s@.take(p@.len() + 1int),
        ) > max,
{
    let mut k: usize = 0;
    let mut b: usize = 0;
    assert(s@.take(0) =~= Seq::<char>::empty());
    assert(s@.skip(0) =~= s@);
    loop
        invariant
            k <= s.len(),
            b <= max,
            b == utf8_len(s@.take(k as int)),
            floor_count(s@, max as nat) == k + floor_count(s@.skip(k as int), (max - b) as nat),
        ensures
            k <= s.len(),
            b == utf8_len(s@.take(k as int)),
            b <= max,
            floor_count(s@, max as nat) == k,
            k < s.len() ==> utf8_len(s@) > max,
            k < s.len() ==> utf8_len(s@.take(k + 1)) > max,
            k == s.len() ==> utf8_len(s@) <= max,
        decreases s.len() - k,
    {
        if k == s.len() {
            assert(s@.skip(k as int).len() == 0);
            assert(s@.take(k as int) =~= s@);
            break;
        }
        let w = char_utf8_width(s[k]);
        proof {
            assert(s@.skip(k as int)[0] == s@[k as int]);
            assert(s@.skip(k as int).drop_first() =~= s@.skip(k + 1));
            assert(s@.take(k + 1) =~= s@.take(k as int).push(s@[k as int]));
            lemma_utf8_len_push(s@.take(k as int), s@[k as int]);
        }
        if w > max - b {
            proof {
                lemma_utf8_take_mono(s@, k + 1, s@.len() as int);
                assert(s@.take(s@.len() as int) =~= s@);
            }
            break;
        }
        b = b + w;
        k = k + 1;
    }
    if k < s.len() {
        let out = slice_chars(s, 0, k);
        assert(out@ =~= s@.take(k as int));
        Some(out)
    } else {
        None
    }
}

} // verus!
