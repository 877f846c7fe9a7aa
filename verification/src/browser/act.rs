//! What the Chromium provider decides around an action and a wait: the
//! audit note of an action, the error when the target cannot be found, and
//! which polling strategy a wait condition calls for.

use vstd::prelude::*;
use super::actions::{ActionKind, WaitCondition};
use super::error::BrowserError;
use super::provider::ref_selector;
use super::settle::{settle_reason_name, SettleResult};
use super::snapshot::{parse_ref, render_ref, ElementRef};
use crate::text::{chars_of, contains, contains_seq, decimal, push_decimal, push_str, string_of, utf8_len};
use crate::tools::grep::{regex_error, regex_is_match, Pattern};

verus! {

/// How long a wait for network idleness wants the network quiet, in ms.
pub const NETWORK_QUIET_MS: u64 = 500;

/// How often a wait polls the page, in ms.
pub const POLL_INTERVAL_MS: u64 = 100;

/// The rendered ref of `r`.
pub open spec fn ref_text(r: ElementRef) -> Seq<char> {
    render_ref(r.version.0, r.element_id@)
}

/// The audit note of an action on `target`.
pub open spec fn act_note_spec(target: ElementRef, kind: ActionKind) -> Seq<char> {
    match kind {
        ActionKind::Click => "click "@ + ref_text(target),
        ActionKind::Type { text } => "type "@ + decimal(utf8_len(text@)) + " chars into "@ + ref_text(target),
        ActionKind::Fill { text } => "fill "@ + decimal(utf8_len(text@)) + " chars into "@ + ref_text(target),
        ActionKind::Press { key } => "press "@ + key@,
        ActionKind::Hover => "hover "@ + ref_text(target),
        ActionKind::SetChecked { checked } => "set_checked="@ + (if checked { "true"@ } else { "false"@ }),
        ActionKind::Select { option } => "select "@ + option@,
        ActionKind::Scroll => "scroll "@ + ref_text(target),
        ActionKind::Drag { to } => "[stub] drag "@ + ref_text(target) + " → "@ + ref_text(to),
        ActionKind::Upload { path } => "[stub] upload "@ + path@,
    }
}

/// The note with the settle report appended.
pub open spec fn settled_note_spec(note: Seq<char>, s: SettleResult) -> Seq<char> {
    note + " (settle: "@ + settle_reason_name(s.settle_reason) + " in "@ + decimal(s.settle_ms as nat)
        + " ms, "@ + decimal(s.total_mutations as nat) + " mutations)"@
}

/// The target an action names by `t`, or, when `t` is not of the form
/// `@v<N>:e<id>`, the message the act tool answers with:
/// `malformed ref: <t>`.
pub fn act_target(t: &str) -> (r: Result<ElementRef, String>)
    ensures
        match r {
            Ok(e) => parse_ref(t@) == Some((e.version.0, e.element_id@)),
            Err(m) => parse_ref(t@) is None && m@ == "malformed ref: "@ + t@,
        },
{
    match ElementRef::parse(t) {
        Some(e) => Ok(e),
        None => {
            let mut v = chars_of("malformed ref: ");
            push_str(&mut v, t);
            Err(string_of(&v))
        },
    }
}

/// The audit note of an action on `target`.
pub fn act_note(target: &ElementRef, kind: &ActionKind) -> (s: String)
    requires
        kind matches ActionKind::Type { text } ==> utf8_len(text@) <= usize::MAX,
        kind matches ActionKind::Fill { text } ==> utf8_len(text@) <= usize::MAX,
    ensures
        s@ == act_note_spec(*target, *kind),
{
    let r = target.render();
    let mut v: Vec<char> = Vec::new();
    match kind {
        ActionKind::Click => {
            push_str(&mut v, "click ");
            push_str(&mut v, r.as_str());
        },
        ActionKind::Type { text } => {
            push_str(&mut v, "type ");
            push_decimal(&mut v, text.as_str().len() as u64);
            push_str(&mut v, " chars into ");
            push_str(&mut v, r.as_str());
        },
        ActionKind::Fill { text } => {
            push_str(&mut v, "fill ");
            push_decimal(&mut v, text.as_str().len() as u64);
            push_str(&mut v, " chars into ");
            push_str(&mut v, r.as_str());
        },
        ActionKind::Press { key } => {
            push_str(&mut v, "press ");
            push_str(&mut v, key.as_str());
        },
        ActionKind::Hover => {
            push_str(&mut v, "hover ");
            push_str(&mut v, r.as_str());
        },
        ActionKind::SetChecked { checked } => {
            push_str(&mut v, "set_checked=");
            if *checked {
                push_str(&mut v, "true");
            } else {
                push_str(&mut v, "false");
            }
        },
        ActionKind::Select { option } => {
            push_str(&mut v, "select ");
            push_str(&mut v, option.as_str());
        },
        ActionKind::Scroll => {
            push_str(&mut v, "scroll ");
            push_str(&mut v, r.as_str());
        },
        ActionKind::Drag { to } => {
            push_str(&mut v, "[stub] drag ");
            push_str(&mut v, r.as_str());
            push_str(&mut v, " → ");
            let t = to.render();
            push_str(&mut v, t.as_str());
        },
        ActionKind::Upload { path } => {
            push_str(&mut v, "[stub] upload ");
            push_str(&mut v, path.as_str());
        },
    }
    assert(v@ =~= act_note_spec(*target, *kind));
    string_of(&v)
}

/// The note with the settle report appended.
pub fn settled_note(note: String, s: &SettleResult) -> (r: String)
    ensures
        r@ == settled_note_spec(note@, *s),
{
    let mut v = chars_of(note.as_str());
    push_str(&mut v, " (settle: ");
    push_str(&mut v, s.settle_reason.name());
    push_str(&mut v, " in ");
    push_decimal(&mut v, s.settle_ms);
    push_str(&mut v, " ms, ");
    push_decimal(&mut v, s.total_mutations);
    push_str(&mut v, " mutations)");
    assert(v@ =~= settled_note_spec(note@, *s));
    string_of(&v)
}

/// The error when the target's element cannot be found: the driver's
/// message, or a timeout (`None`).
pub fn find_failure(target: &ElementRef, driver_error: Option<String>) -> (e: BrowserError)
    ensures
        match driver_error {
            Some(m) => e matches BrowserError::StaleRef(t) && t@ == ref_text(*target) + ": "@ + m@,
            None => e matches BrowserError::StaleRef(t) && t@ == ref_text(*target)
                + ": find_element timed out after 5s (element likely invisible or removed)"@,
        },
{
    let r = target.render();
    let mut v = chars_of(r.as_str());
    match driver_error {
        Some(m) => {
            push_str(&mut v, ": ");
            push_str(&mut v, m.as_str());
        },
        None => {
            push_str(&mut v, ": find_element timed out after 5s (element likely invisible or removed)");
        },
    }
    BrowserError::StaleRef(string_of(&v))
}

/// How a wait condition is waited for.
#[derive(Debug)]
pub enum WaitPlan {
    Sleep { ms: u64 },
    Navigation,
    Selector { selector: String, visible: bool },
    UrlContains { substring: String },
    UrlMatches { pattern: Pattern },
    Text { substring: String, visible: bool },
    NetworkIdle { quiet_ms: u64 },
}

/// The plan for a wait condition; an invalid URL pattern is refused.
pub fn wait_plan(c: WaitCondition) -> (r: Result<WaitPlan, BrowserError>)
    ensures
        match c {
            WaitCondition::Delay { ms } => r matches Ok(WaitPlan::Sleep { ms: m }) && m == ms,
            WaitCondition::Load => r matches Ok(WaitPlan::Navigation),
            WaitCondition::DomContentLoaded => r matches Ok(WaitPlan::Navigation),
            WaitCondition::SelectorVisible { selector } => r matches Ok(WaitPlan::Selector { selector: s, visible })
                && s == selector && visible,
            WaitCondition::SelectorHidden { selector } => r matches Ok(WaitPlan::Selector { selector: s, visible })
                && s == selector && !visible,
            WaitCondition::RefVisible { element_ref } => r matches Ok(WaitPlan::Selector { selector: s, visible })
                && s@ == "[data-hivecore-ref=\""@ + ref_text(element_ref) + "\"]"@ && visible,
            WaitCondition::UrlContains { substring } => r matches Ok(WaitPlan::UrlContains { substring: s })
                && s == substring,
            WaitCondition::UrlMatches { pattern } => match regex_error(pattern@) {
                None => r matches Ok(WaitPlan::UrlMatches { pattern: p }) && p@ == pattern@,
                Some(m) => r matches Err(BrowserError::Other(t)) && t@ == "invalid url regex `"@ + pattern@
                    + "`: "@ + m,
            },
            WaitCondition::TextVisible { substring } => r matches Ok(WaitPlan::Text { substring: s, visible })
                && s == substring && visible,
            WaitCondition::TextHidden { substring } => r matches Ok(WaitPlan::Text { substring: s, visible })
                && s == substring && !visible,
            WaitCondition::NetworkIdle => r matches Ok(WaitPlan::NetworkIdle { quiet_ms })
                && quiet_ms == NETWORK_QUIET_MS,
        },
{
    match c {
        WaitCondition::Delay { ms } => Ok(WaitPlan::Sleep { ms }),
        WaitCondition::Load => Ok(WaitPlan::Navigation),
        WaitCondition::DomContentLoaded => Ok(WaitPlan::Navigation),
        WaitCondition::SelectorVisible { selector } => Ok(WaitPlan::Selector { selector, visible: true }),
        WaitCondition::SelectorHidden { selector } => Ok(WaitPlan::Selector { selector, visible: false }),
        WaitCondition::RefVisible { element_ref } => {
            Ok(WaitPlan::Selector { selector: ref_selector(&element_ref), visible: true })
        },
        WaitCondition::UrlContains { substring } => Ok(WaitPlan::UrlContains { substring }),
        WaitCondition::UrlMatches { pattern } => match Pattern::build(pattern.as_str()) {
            Ok(p) => Ok(WaitPlan::UrlMatches { pattern: p }),
            Err(m) => {
                let mut v = chars_of("invalid url regex `");
                push_str(&mut v, pattern.as_str());
                push_str(&mut v, "`: ");
                push_str(&mut v, m.as_str());
                Err(BrowserError::Other(string_of(&v)))
            },
        },
        WaitCondition::TextVisible { substring } => Ok(WaitPlan::Text { substring, visible: true }),
        WaitCondition::TextHidden { substring } => Ok(WaitPlan::Text { substring, visible: false }),
        WaitCondition::NetworkIdle => Ok(WaitPlan::NetworkIdle { quiet_ms: NETWORK_QUIET_MS }),
    }
}

/// Does the page's `url` satisfy a URL wait? Other plans are not about
/// the URL.
pub fn url_satisfies(plan: &WaitPlan, url: &str) -> (b: bool)
    ensures
        match *plan {
            WaitPlan::UrlContains { substring } => b == contains_seq(url@, substring@),
            WaitPlan::UrlMatches { pattern } => b == regex_is_match(pattern@, url@),
            _ => !b,
        },
{
    match plan {
        WaitPlan::UrlContains { substring } => {
            let u = chars_of(url);
            let s = chars_of(substring.as_str());
            contains(&u, &s)
        },
        WaitPlan::UrlMatches { pattern } => pattern.is_match(url),
        _ => false,
    }
}

/// What one poll of the page reports for a wait.
#[derive(Debug, Clone)]
pub enum PollReading {
    /// How many elements the selector matched, and whether the first of
    /// them is visible.
    Selector { count: u64, visible: bool },
    /// The page's current URL.
    Url { url: String },
    /// Whether the page's visible text contains the substring.
    Text { found: bool },
    /// How long ago, in ms, the last network resource entry arrived.
    Idle { idle_ms: u64 },
}

/// Does a poll's reading satisfy the wait? A selector wait for visibility
/// wants a visible match, one for hiding wants none or an invisible one; a
/// text wait wants the text found or gone; a network wait wants the quiet
/// window elapsed. A reading of another kind than the plan satisfies
/// nothing.
pub open spec fn poll_holds(plan: WaitPlan, reading: PollReading) -> bool {
    match (plan, reading) {
        (WaitPlan::Selector { visible: want, .. }, PollReading::Selector { count, visible }) => if want {
            count > 0 && visible
        } else {
            count == 0 || !visible
        },
        (WaitPlan::UrlContains { substring }, PollReading::Url { url }) => contains_seq(url@, substring@),
        (WaitPlan::UrlMatches { pattern }, PollReading::Url { url }) => regex_is_match(pattern@, url@),
        (WaitPlan::Text { visible: want, .. }, PollReading::Text { found }) => if want {
            found
        } else {
            !found
        },
        (WaitPlan::NetworkIdle { quiet_ms }, PollReading::Idle { idle_ms }) => idle_ms >= quiet_ms,
        _ => false,
    }
}

/// Law: waiting for something to show and waiting for it to go are
/// opposites on every reading of their kind; a selector match that is
/// visible satisfies a visibility wait, and no match at all satisfies a
/// hiding wait; a network wait is satisfied once its quiet window has
/// elapsed and stays satisfied as the page stays idle longer; and a
/// reading of another kind satisfies no wait.
pub proof fn lemma_wait_readings(selector: String, substring: String, count: u64, visible: bool, found: bool, quiet_ms: u64, idle_ms: u64, longer_ms: u64)
    ensures
        poll_holds(
            WaitPlan::Selector { selector, visible: true },
            PollReading::Selector { count, visible },
        ) == !poll_holds(WaitPlan::Selector { selector, visible: false }, PollReading::Selector { count, visible }),
        count > 0 && visible ==> poll_holds(
            WaitPlan::Selector { selector, visible: true },
            PollReading::Selector { count, visible },
        ),
        poll_holds(WaitPlan::Selector { selector, visible: false }, PollReading::Selector { count: 0, visible }),
        poll_holds(WaitPlan::Text { substring, visible: true }, PollReading::Text { found }) == found,
        poll_holds(WaitPlan::Text { substring, visible: false }, PollReading::Text { found }) == !found,
        poll_holds(WaitPlan::NetworkIdle { quiet_ms }, PollReading::Idle { idle_ms: quiet_ms }),
        poll_holds(WaitPlan::NetworkIdle { quiet_ms }, PollReading::Idle { idle_ms }) && idle_ms <= longer_ms
            ==> poll_holds(WaitPlan::NetworkIdle { quiet_ms }, PollReading::Idle { idle_ms: longer_ms }),
        idle_ms < quiet_ms ==> !poll_holds(WaitPlan::NetworkIdle { quiet_ms }, PollReading::Idle { idle_ms }),
        !poll_holds(WaitPlan::NetworkIdle { quiet_ms }, PollReading::Text { found }),
        !poll_holds(WaitPlan::Text { substring, visible }, PollReading::Idle { idle_ms }),
{
}

/// Does a poll's reading satisfy the wait?
pub fn poll_satisfied(plan: &WaitPlan, reading: &PollReading) -> (b: bool)
    ensures
        b == poll_holds(*plan, *reading),
{
    match (plan, reading) {
        (WaitPlan::Selector { visible: want, .. }, PollReading::Selector { count, visible }) => if *want {
            *count > 0 && *visible
        } else {
            *count == 0 || !*visible
        },
        (WaitPlan::UrlContains { .. }, PollReading::Url { url }) => url_satisfies(plan, url.as_str()),
        (WaitPlan::UrlMatches { .. }, PollReading::Url { url }) => url_satisfies(plan, url.as_str()),
        (WaitPlan::Text { visible: want, .. }, PollReading::Text { found }) => if *want {
            *found
        } else {
            !*found
        },
        (WaitPlan::NetworkIdle { quiet_ms }, PollReading::Idle { idle_ms }) => *idle_ms >= *quiet_ms,
        _ => false,
    }
}

/// Is the plan waited for by polling the page?
pub open spec fn is_polled(plan: WaitPlan) -> bool {
    !(plan is Sleep) && !(plan is Navigation)
}

/// The name a polled wait reports when it times out.
pub open spec fn poll_label(plan: WaitPlan) -> Seq<char> {
    match plan {
        WaitPlan::Selector { visible, .. } => if visible {
            "selector_visible"@
        } else {
            "selector_hidden"@
        },
        WaitPlan::UrlContains { .. } => "url"@,
        WaitPlan::UrlMatches { .. } => "url"@,
        WaitPlan::Text { visible, .. } => if visible {
            "text_visible"@
        } else {
            "text_hidden"@
        },
        _ => "network_idle"@,
    }
}

/// What a polled wait does after one reading.
#[derive(Debug)]
pub enum PollStep {
    /// The condition holds: the wait succeeds.
    Done,
    /// Sleep one poll interval and read again.
    Again,
    /// The deadline passed first: the wait fails with this error.
    TimedOut(BrowserError),
}

/// One step of a polled wait: done when the reading satisfies the plan;
/// else, once the deadline has passed, the error `wait timeout: <label>`;
/// else poll again.
pub fn poll_step(plan: &WaitPlan, reading: &PollReading, past_deadline: bool) -> (s: PollStep)
    requires
        is_polled(*plan),
    ensures
        poll_holds(*plan, *reading) ==> s is Done,
        !poll_holds(*plan, *reading) && !past_deadline ==> s is Again,
        !poll_holds(*plan, *reading) && past_deadline ==> (s matches PollStep::TimedOut(BrowserError::Other(m))
            && m@ == "wait timeout: "@ + poll_label(*plan)),
{
    if poll_satisfied(plan, reading) {
        return PollStep::Done;
    }
    if !past_deadline {
        return PollStep::Again;
    }
    let label = match plan {
        WaitPlan::Selector { visible, .. } => if *visible {
            "selector_visible"
        } else {
            "selector_hidden"
        },
        WaitPlan::UrlContains { .. } => "url",
        WaitPlan::UrlMatches { .. } => "url",
        WaitPlan::Text { visible, .. } => if *visible {
            "text_visible"
        } else {
            "text_hidden"
        },
        _ => "network_idle",
    };
    let mut v = chars_of("wait timeout: ");
    push_str(&mut v, label);
    PollStep::TimedOut(BrowserError::Other(string_of(&v)))
}

/// The error when a navigation wait runs out of time.
pub fn wait_timeout(timeout_ms: u64) -> (e: BrowserError)
    ensures
        e matches BrowserError::Other(t) && t@ == "wait timeout "@ + decimal(timeout_ms as nat) + "ms"@,
{
    let mut v = chars_of("wait timeout ");
    push_decimal(&mut v, timeout_ms);
    push_str(&mut v, "ms");
    BrowserError::Other(string_of(&v))
}

} // verus!
