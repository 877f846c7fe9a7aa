//! Fresh identifiers.

use vstd::prelude::*;
use crate::text::{chars_of, push_str, string_of};

verus! {

/// A lower-case hexadecimal digit.
pub open spec fn is_lower_hex(c: char) -> bool {
    ('0' <= c && c <= '9') || ('a' <= c && c <= 'f')
}

/// The hyphenated text of a random UUID (version 4, RFC 4122 variant):
/// 36 characters, hyphens at 8, 13, 18 and 23 and lower-case hex digits
/// elsewhere, the version digit `4` at 14 and a variant digit among
/// `8`, `9`, `a`, `b` at 19.
pub open spec fn is_uuid_v4_text(s: Seq<char>) -> bool {
    &&& s.len() == 36
    &&& forall|i: int|
        0 <= i < 36 ==> if i == 8 || i == 13 || i == 18 || i == 23 {
            #[trigger] s[i] == '-'
        } else {
            is_lower_hex(s[i])
        }
    &&& s[14] == '4'
    &&& (s[19] == '8' || s[19] == '9' || s[19] == 'a' || s[19] == 'b')
}

/// `s` is `prefix` followed by the text of a random UUID.
pub open spec fn is_fresh_id(s: Seq<char>, prefix: Seq<char>) -> bool {
    &&& s.len() == prefix.len() + 36
    &&& s.take(prefix.len() as int) == prefix
    &&& is_uuid_v4_text(s.skip(prefix.len() as int))
}

/// `uuid::Uuid::new_v4()` in its hyphenated text form (`Display`). The
/// value is random; what is claimed is its shape: `new_v4` masks in the
/// version and variant bits, and `Display` writes the lower-case
/// hyphenated form.
#[verifier::external_body]
fn uuid_v4() -> (r: String)
    ensures
        is_uuid_v4_text(r@),
{
    uuid::Uuid::new_v4().to_string()
}

/// `prefix` followed by a fresh random UUID.
pub fn fresh_id(prefix: &str) -> (s: String)
    ensures
        is_fresh_id(s@, prefix@),
{
    let u = uuid_v4();
    let mut v = chars_of(prefix);
    push_str(&mut v, u.as_str());
    assert(v@.take(prefix@.len() as int) =~= prefix@);
    assert(v@.skip(prefix@.len() as int) =~= u@);
    string_of(&v)
}

} // verus!
