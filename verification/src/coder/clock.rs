//! A tool that returns the current UTC time.

use vstd::prelude::*;
use crate::message::{ContentBlock, ToolOutcome};

verus! {

/// A decimal digit.
pub open spec fn is_digit(c: char) -> bool {
    '0' <= c && c <= '9'
}

/// Every character of `s` is a decimal digit.
pub open spec fn all_digits(s: Seq<char>) -> bool {
    forall|i: int| 0 <= i < s.len() ==> is_digit(#[trigger] s[i])
}

/// What follows the year in an RFC 3339 UTC timestamp:
/// `-MM-DDTHH:MM:SS`, then either nothing or a `.` with 3, 6 or 9 digits
/// of fraction, then the offset `+00:00`.
pub open spec fn rfc3339_utc_rest(t: Seq<char>) -> bool {
    let frac = t.subrange(15, t.len() - 6);
    &&& t.len() >= 21
    &&& t[0] == '-' && is_digit(t[1]) && is_digit(t[2])
    &&& t[3] == '-' && is_digit(t[4]) && is_digit(t[5])
    &&& t[6] == 'T' && is_digit(t[7]) && is_digit(t[8])
    &&& t[9] == ':' && is_digit(t[10]) && is_digit(t[11])
    &&& t[12] == ':' && is_digit(t[13]) && is_digit(t[14])
    &&& (frac.len() == 0 || ((frac.len() == 4 || frac.len() == 7 || frac.len() == 10) && frac[0] == '.'
        && all_digits(frac.skip(1))))
    &&& t.skip(t.len() - 6) == seq!['+', '0', '0', ':', '0', '0']
}

/// An RFC 3339 timestamp in UTC as chrono writes it: a four-digit year
/// (or, outside 0..=9999, a sign and at least four digits), then
/// `rfc3339_utc_rest`.
pub open spec fn is_rfc3339_utc(s: Seq<char>) -> bool {
    ||| (s.len() >= 4 && all_digits(s.take(4)) && rfc3339_utc_rest(s.skip(4)))
    ||| exists|n: int|
        5 <= n <= s.len() && (s[0] == '+' || s[0] == '-') && all_digits(s.subrange(1, n))
            && rfc3339_utc_rest(#[trigger] s.skip(n))
}

/// `chrono::Utc::now().to_rfc3339()`. The time is whatever the clock
/// reads; what is claimed is the shape that `to_rfc3339` writes with the
/// zero offset of UTC (seconds format `AutoSi`, no `Z`).
#[verifier::external_body]
fn utc_now_rfc3339() -> (r: String)
    ensures
        is_rfc3339_utc(r@),
{
    chrono::Utc::now().to_rfc3339()
}

/// The clock tool.
#[derive(Debug, Default)]
pub struct ClockTool;

impl ClockTool {
    pub fn name(&self) -> (s: &'static str)
        ensures
            s@ == "clock"@,
    {
        "clock"
    }

    /// The outcome reporting the time `now`.
    pub fn outcome(now: String) -> (o: ToolOutcome)
        ensures
            o.content@.len() == 1,
            o.content@[0] matches ContentBlock::Text { text } && text == now,
            o.details is None,
            !o.is_error,
    {
        let mut content: Vec<ContentBlock> = Vec::new();
        content.push(ContentBlock::Text { text: now });
        ToolOutcome::ok(content)
    }

    /// Reads the clock and reports it as an RFC 3339 (ISO 8601) UTC
    /// timestamp.
    pub fn execute(&self) -> (o: ToolOutcome)
        ensures
            o.content@.len() == 1,
            o.content@[0] matches ContentBlock::Text { text } && is_rfc3339_utc(text@),
            o.details is None,
            !o.is_error,
    {
        ClockTool::outcome(utc_now_rfc3339())
    }
}

} // verus!
