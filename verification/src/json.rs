//! Compact JSON text. Objects are written with their keys in ascending
//! order, as `serde_json` prints a map built with default features; string
//! escaping and parsing are `serde_json`'s own, and `json_quote` states the
//! escaping.

use vstd::prelude::*;
use crate::text::{decimal, push_decimal, push_str};

verus! {

/// The lower-case hexadecimal digit of `d` (below 16).
pub open spec fn hex_digit(d: int) -> char {
    seq!['0', '1', '2', '3', '4', '5', '6', '7', '8', '9', 'a', 'b', 'c', 'd', 'e', 'f'][d]
}

/// How a character stands inside a JSON string literal: `"` and `\` are
/// escaped by a backslash, backspace, form feed, line feed, carriage return
/// and tab by their short escapes, the other control characters below
/// U+0020 as `\u00XX` with lower-case hex digits; every other character
/// stands as it is.
pub open spec fn json_escape(c: char) -> Seq<char> {
    if c == '"' {
        seq!['\\', '"']
    } else if c == '\\' {
        seq!['\\', '\\']
    } else if c == '\u{8}' {
        seq!['\\', 'b']
    } else if c == '\u{c}' {
        seq!['\\', 'f']
    } else if c == '\n' {
        seq!['\\', 'n']
    } else if c == '\r' {
        seq!['\\', 'r']
    } else if c == '\t' {
        seq!['\\', 't']
    } else if (c as int) < 0x20 {
        seq!['\\', 'u', '0', '0', hex_digit((c as int) / 16), hex_digit((c as int) % 16)]
    } else {
        seq![c]
    }
}

/// The characters of `s`, each escaped as `json_escape` says.
pub open spec fn json_escaped(s: Seq<char>) -> Seq<char>
    decreases s.len(),
{
    if s.len() == 0 {
        Seq::empty()
    } else {
        json_escape(s[0]) + json_escaped(s.drop_first())
    }
}

/// Law: escaping works character by character. The escaped form of two
/// texts one after the other is the escaped forms one after the other; a
/// text with no quote, backslash or control character is left as it is.
pub proof fn lemma_json_escaped_concat(a: Seq<char>, b: Seq<char>)
    ensures
        json_escaped(a + b) == json_escaped(a) + json_escaped(b),
        (forall|i: int| 0 <= i < a.len() ==> (#[trigger] a[i]) != '"' && a[i] != '\\' && (a[i] as int) >= 0x20)
            ==> json_escaped(a) == a,
    decreases a.len(),
{
    if a.len() == 0 {
        assert(a + b =~= b);
        assert(json_escaped(a) + json_escaped(b) =~= json_escaped(b));
    } else {
        lemma_json_escaped_concat(a.drop_first(), b);
        assert((a + b).drop_first() =~= a.drop_first() + b);
        assert((a + b)[0] == a[0]);
        assert(json_escaped(a + b) =~= json_escaped(a) + json_escaped(b));
        if forall|i: int| 0 <= i < a.len() ==> (#[trigger] a[i]) != '"' && a[i] != '\\' && (a[i] as int) >= 0x20 {
            assert forall|i: int| 0 <= i < a.drop_first().len() implies (#[trigger] a.drop_first()[i]) != '"'
                && a.drop_first()[i] != '\\' && (a.drop_first()[i] as int) >= 0x20 by {
                assert(a.drop_first()[i] == a[i + 1]);
            }
            assert(a[0] != '"' && a[0] != '\\' && (a[0] as int) >= 0x20);
            assert(json_escape(a[0]) == seq![a[0]]);
            assert(seq![a[0]] + a.drop_first() =~= a);
        }
    }
}

/// The JSON string literal that `serde_json` writes for `s`: the escaped
/// characters between double quotes.
pub open spec fn json_quote(s: Seq<char>) -> Seq<char> {
    seq!['"'] + json_escaped(s) + seq!['"']
}

/// The string found under `key` when `json` parses as an object whose
/// member `key` is a string, and `None` otherwise.
pub uninterp spec fn json_str_member(json: Seq<char>, key: Seq<char>) -> Option<Seq<char>>;

/// `serde_json::to_string` of a string: its quoted, escaped JSON literal,
/// as `json_quote` spells it out. Serialising a `str` does not fail.
#[verifier::external_body]
pub(crate) fn quote(s: &str) -> (q: String)
    ensures
        q@ == json_quote(s@),
{
    match serde_json::to_string(s) {
        Ok(t) => t,
        Err(_) => String::new(),
    }
}

/// `serde_json::from_str::<serde_json::Value>` on `json`, then
/// `Value::get(key)` and `Value::as_str`: the string member `key` of the
/// object that `json` holds. The claim is that the result is a function of
/// the two texts alone.
#[verifier::external_body]
pub(crate) fn str_member(json: &str, key: &str) -> (r: Option<String>)
    ensures
        match r {
            Some(v) => json_str_member(json@, key@) == Some(v@),
            None => json_str_member(json@, key@) is None,
        },
{
    match serde_json::from_str::<serde_json::Value>(json) {
        Ok(v) => v.get(key).and_then(|m| m.as_str()).map(|m| m.to_string()),
        Err(_) => None,
    }
}

/// `"key":` followed by the quoted string `v`.
pub open spec fn str_field(key: Seq<char>, v: Seq<char>) -> Seq<char> {
    seq!['"'] + key + "\":"@ + json_quote(v)
}

/// `"key":` followed by the number `n`.
pub open spec fn num_field(key: Seq<char>, n: nat) -> Seq<char> {
    seq!['"'] + key + "\":"@ + decimal(n)
}

/// `true` or `false`.
pub open spec fn bool_text(b: bool) -> Seq<char> {
    if b { "true"@ } else { "false"@ }
}

/// `"key":` followed by the boolean `b`.
pub open spec fn bool_field(key: Seq<char>, b: bool) -> Seq<char> {
    seq!['"'] + key + "\":"@ + bool_text(b)
}

/// Appends `"key":` to `out`.
pub fn push_key(out: &mut Vec<char>, key: &str)
    ensures
        final(out)@ == old(out)@ + seq!['"'] + key@ + "\":"@,
{
    out.push('"');
    push_str(out, key);
    push_str(out, "\":");
}

/// Appends a string member.
pub fn push_str_field(out: &mut Vec<char>, key: &str, v: &str)
    ensures
        final(out)@ == old(out)@ + str_field(key@, v@),
{
    let ghost start = out@;
    push_key(out, key);
    let q = quote(v);
    push_str(out, q.as_str());
    assert(out@ =~= start + str_field(key@, v@));
}

/// Appends a number member.
pub fn push_num_field(out: &mut Vec<char>, key: &str, n: u64)
    ensures
        final(out)@ == old(out)@ + num_field(key@, n as nat),
{
    let ghost start = out@;
    push_key(out, key);
    push_decimal(out, n);
    assert(out@ =~= start + num_field(key@, n as nat));
}

/// Appends a boolean member.
pub fn push_bool_field(out: &mut Vec<char>, key: &str, b: bool)
    ensures
        final(out)@ == old(out)@ + bool_field(key@, b),
{
    let ghost start = out@;
    push_key(out, key);
    if b {
        push_str(out, "true");
    } else {
        push_str(out, "false");
    }
    assert(out@ =~= start + bool_field(key@, b));
}


} // verus!
