//! Action, wait and assert vocabularies of the model-facing browser tools.

use vstd::prelude::*;
use super::snapshot::ElementRef;

verus! {

/// What `browser_act` does to the targeted ref.
#[derive(Debug, Clone)]
pub enum ActionKind {
    Click,
    /// Append text (no clearing; `Fill` replaces).
    Type { text: String },
    /// Replace the current value with `text`.
    Fill { text: String },
    /// Send a single key (Enter, Tab, ArrowDown, ...).
    Press { key: String },
    Hover,
    /// Toggle a checkbox or radio.
    SetChecked { checked: bool },
    /// Pick a `<select>` option by its visible label.
    Select { option: String },
    /// Drag to another ref of the same snapshot.
    Drag { to: ElementRef },
    /// Local file path under the tenant's artifact root.
    Upload { path: String },
    /// Scroll the element into view.
    Scroll,
}

#[derive(Debug, Clone)]
pub struct ActionOutcome {
    /// Did the underlying driver call succeed?
    pub ok: bool,
    /// Human-readable account of what happened (audit only).
    pub note: String,
}

/// Conditions `browser_wait` waits for.
#[derive(Debug, Clone)]
pub enum WaitCondition {
    Load,
    DomContentLoaded,
    NetworkIdle,
    SelectorVisible { selector: String },
    SelectorHidden { selector: String },
    RefVisible { element_ref: ElementRef },
    UrlContains { substring: String },
    /// A regular expression.
    UrlMatches { pattern: String },
    TextVisible { substring: String },
    TextHidden { substring: String },
    /// Sleep for this many milliseconds.
    Delay { ms: u64 },
}

/// Assertions `browser_assert` evaluates against a fresh snapshot.
#[derive(Debug, Clone)]
#[allow(inconsistent_fields)]
pub enum AssertPredicate {
    /// An element exists at this ref in the current snapshot.
    Exists { element_ref: ElementRef },
    /// The element's accessible name equals `expected`.
    NameEquals { element_ref: ElementRef, expected: String },
    UrlEquals { expected: String },
    UrlContains { substring: String },
    TextVisible { substring: String },
    Count { role: String, expected: usize },
}

} // verus!
