//! Settling after an action: poll the page's mutation counter, URL and
//! (optionally) focus until a quiet window passes without activity, or a
//! timeout elapses. This module holds the decisions; the caller performs
//! the page reads and the sleeps, and hands each reading in.

use vstd::prelude::*;
use crate::text::str_eq;

verus! {

/// After this many ms with zero observed mutations, the quiet window
/// shortens.
pub const ZERO_MUTATION_THRESHOLD_MS: u64 = 60;
/// Quiet-window length once zero mutations have been seen for a while.
pub const ZERO_MUTATION_QUIET_MS: u64 = 30;

#[derive(Debug, Clone)]
pub struct SettleOptions {
    pub timeout_ms: u64,
    pub poll_ms: u64,
    pub quiet_window_ms: u64,
    pub check_focus_stability: bool,
}

impl Default for SettleOptions {
    fn default() -> (o: Self)
        ensures
            o.timeout_ms == 1500,
            o.poll_ms == 50,
            o.quiet_window_ms == 120,
            !o.check_focus_stability,
    {
        SettleOptions { timeout_ms: 1500, poll_ms: 50, quiet_window_ms: 120, check_focus_stability: false }
    }
}

/// Why the settle loop stopped.
#[derive(Debug, Clone, Copy, PartialEq, Eq, Structural)]
pub enum SettleReason {
    ZeroMutationShortcut,
    UrlChangedThenQuiet,
    DomQuiet,
    TimeoutFallback,
}

impl SettleReason {
    /// The reason's wire name.
    pub fn name(&self) -> (s: &'static str)
        ensures
            s@ == settle_reason_name(*self),
    {
        match self {
            SettleReason::ZeroMutationShortcut => "zero_mutation_shortcut",
            SettleReason::UrlChangedThenQuiet => "url_changed_then_quiet",
            SettleReason::DomQuiet => "dom_quiet",
            SettleReason::TimeoutFallback => "timeout_fallback",
        }
    }
}

/// The wire name of a settle reason.
pub open spec fn settle_reason_name(r: SettleReason) -> Seq<char> {
    match r {
        SettleReason::ZeroMutationShortcut => "zero_mutation_shortcut"@,
        SettleReason::UrlChangedThenQuiet => "url_changed_then_quiet"@,
        SettleReason::DomQuiet => "dom_quiet"@,
        SettleReason::TimeoutFallback => "timeout_fallback"@,
    }
}

#[derive(Debug, Clone)]
pub struct SettleResult {
    pub settle_ms: u64,
    pub settle_reason: SettleReason,
    pub settle_polls: u32,
    pub total_mutations: u64,
    pub url_changed: bool,
}

/// `max(x, lo)`.
pub open spec fn at_least(x: u64, lo: u64) -> u64 {
    if x < lo { lo } else { x }
}

/// `x` clamped to `[lo, hi]`.
pub open spec fn clamped(x: u64, lo: u64, hi: u64) -> u64 {
    if x < lo { lo } else if x > hi { hi } else { x }
}

/// What a settle loop has seen so far. Times are milliseconds since the
/// loop began.
pub struct SettlerModel {
    /// Effective timeout: at least 150 ms.
    pub timeout_ms: u64,
    /// Effective poll interval: within 20..=100 ms.
    pub poll_ms: u64,
    /// Current quiet window: the configured one (at least 60 ms) until the
    /// zero-mutation shortcut shortens it.
    pub active_quiet_window_ms: u64,
    pub check_focus: bool,
    pub initial_mutation_count: u64,
    pub previous_mutation_count: u64,
    pub previous_focus: Seq<char>,
    pub previous_url: Seq<char>,
    pub last_activity_ms: u64,
    pub polls: u32,
    pub total_mutations: u64,
    pub url_changed: bool,
}

/// State of one settle loop.
#[derive(Debug)]
pub struct Settler {
    timeout_ms: u64,
    poll_ms: u64,
    active_quiet_window_ms: u64,
    check_focus: bool,
    initial_mutation_count: u64,
    previous_mutation_count: u64,
    previous_focus: String,
    previous_url: String,
    last_activity_ms: u64,
    polls: u32,
    total_mutations: u64,
    url_changed: bool,
}

impl View for Settler {
    type V = SettlerModel;

    closed spec fn view(&self) -> SettlerModel {
        SettlerModel {
            timeout_ms: self.timeout_ms,
            poll_ms: self.poll_ms,
            active_quiet_window_ms: self.active_quiet_window_ms,
            check_focus: self.check_focus,
            initial_mutation_count: self.initial_mutation_count,
            previous_mutation_count: self.previous_mutation_count,
            previous_focus: self.previous_focus@,
            previous_url: self.previous_url@,
            last_activity_ms: self.last_activity_ms,
            polls: self.polls,
            total_mutations: self.total_mutations,
            url_changed: self.url_changed,
        }
    }
}

/// The mutation total is what the counter advanced since the start.
pub open spec fn settler_wf(m: SettlerModel) -> bool {
    &&& m.initial_mutation_count <= m.previous_mutation_count
    &&& m.total_mutations == m.previous_mutation_count - m.initial_mutation_count
}

impl Settler {
    /// The mutation total is what the counter advanced since the start.
    #[verifier::type_invariant]
    spec fn counts_agree(self) -> bool {
        settler_wf(self@)
    }

    /// Starts a settle loop with the page's initial readings, taken when
    /// `now_ms` had elapsed.
    pub fn start(opts: &SettleOptions, mutation_count: u64, focus: String, url: String, now_ms: u64) -> (s: Self)
        ensures
            settler_wf(s@),
            s@.timeout_ms == at_least(opts.timeout_ms, 150),
            s@.poll_ms == clamped(opts.poll_ms, 20, 100),
            s@.active_quiet_window_ms == at_least(opts.quiet_window_ms, 60),
            s@.check_focus == opts.check_focus_stability,
            s@.initial_mutation_count == mutation_count,
            s@.previous_mutation_count == mutation_count,
            s@.previous_focus == focus@,
            s@.previous_url == url@,
            s@.last_activity_ms == now_ms,
            s@.polls == 0,
            s@.total_mutations == 0,
            !s@.url_changed,
    {
        let timeout_ms = if opts.timeout_ms < 150 { 150 } else { opts.timeout_ms };
        let poll_ms = if opts.poll_ms < 20 { 20 } else if opts.poll_ms > 100 { 100 } else { opts.poll_ms };
        let quiet = if opts.quiet_window_ms < 60 { 60 } else { opts.quiet_window_ms };
        Settler {
            timeout_ms,
            poll_ms,
            active_quiet_window_ms: quiet,
            check_focus: opts.check_focus_stability,
            initial_mutation_count: mutation_count,
            previous_mutation_count: mutation_count,
            previous_focus: focus,
            previous_url: url,
            last_activity_ms: now_ms,
            polls: 0,
            total_mutations: 0,
            url_changed: false,
        }
    }

    /// The effective timeout.
    pub fn timeout_ms(&self) -> (r: u64)
        ensures
            r == self@.timeout_ms,
    {
        self.timeout_ms
    }

    /// The effective poll interval.
    pub fn poll_ms(&self) -> (r: u64)
        ensures
            r == self@.poll_ms,
    {
        self.poll_ms
    }

    /// The current quiet window.
    pub fn active_quiet_window_ms(&self) -> (r: u64)
        ensures
            r == self@.active_quiet_window_ms,
    {
        self.active_quiet_window_ms
    }

    /// Is focus watched?
    pub fn check_focus(&self) -> (r: bool)
        ensures
            r == self@.check_focus,
    {
        self.check_focus
    }

    /// The polls taken so far.
    pub fn polls(&self) -> (r: u32)
        ensures
            r == self@.polls,
    {
        self.polls
    }

    /// The mutations counted so far.
    pub fn total_mutations(&self) -> (r: u64)
        ensures
            r == self@.total_mutations,
    {
        self.total_mutations
    }

    /// May another poll run, `elapsed_ms` into the loop?
    pub fn should_poll(&self, elapsed_ms: u64) -> (b: bool)
        ensures
            b == (elapsed_ms < self@.timeout_ms),
    {
        elapsed_ms < self.timeout_ms
    }

    /// Takes one poll's readings: the URL and mutation count (and focus)
    /// read at `now_ms`, with `elapsed_ms` elapsed once they were read.
    /// Activity — a URL change, a counter increase, or (when checked) a
    /// focus change — restarts the quiet window. After 60 ms with no
    /// mutation at all the window shortens to 30 ms. Returns the result
    /// once the quiet window has passed.
    pub fn observe(
        &mut self,
        now_ms: u64,
        elapsed_ms: u64,
        url: String,
        mutation_count: u64,
        focus: String,
    ) -> (r: Option<SettleResult>)
        requires
            old(self)@.polls < u32::MAX,
            old(self)@.last_activity_ms <= now_ms,
        ensures
            settler_wf(final(self)@),
            final(self)@.polls == old(self)@.polls + 1,
            final(self)@.url_changed == (old(self)@.url_changed || url@ != old(self)@.previous_url),
            final(self)@.previous_url == url@,
            final(self)@.previous_mutation_count == (if mutation_count > old(self)@.previous_mutation_count {
                mutation_count
            } else {
                old(self)@.previous_mutation_count
            }),
            final(self)@.previous_focus == (if old(self)@.check_focus && focus@ != old(self)@.previous_focus {
                focus@
            } else {
                old(self)@.previous_focus
            }),
            final(self)@.last_activity_ms == (if url@ != old(self)@.previous_url
                || mutation_count > old(self)@.previous_mutation_count
                || (old(self)@.check_focus && focus@ != old(self)@.previous_focus) {
                now_ms
            } else {
                old(self)@.last_activity_ms
            }),
            final(self)@.active_quiet_window_ms == (if final(self)@.total_mutations == 0 && elapsed_ms
                >= ZERO_MUTATION_THRESHOLD_MS {
                ZERO_MUTATION_QUIET_MS
            } else {
                old(self)@.active_quiet_window_ms
            }),
            final(self)@.timeout_ms == old(self)@.timeout_ms,
            final(self)@.poll_ms == old(self)@.poll_ms,
            final(self)@.check_focus == old(self)@.check_focus,
            final(self)@.initial_mutation_count == old(self)@.initial_mutation_count,
            match r {
                Some(res) => {
                    &&& now_ms - final(self)@.last_activity_ms >= final(self)@.active_quiet_window_ms
                    &&& res.settle_ms == elapsed_ms
                    &&& res.settle_polls == final(self)@.polls
                    &&& res.total_mutations == final(self)@.total_mutations
                    &&& res.url_changed == final(self)@.url_changed
                    &&& res.settle_reason == (if final(self)@.total_mutations == 0 {
                        SettleReason::ZeroMutationShortcut
                    } else if final(self)@.url_changed {
                        SettleReason::UrlChangedThenQuiet
                    } else {
                        SettleReason::DomQuiet
                    })
                },
                None => now_ms - final(self)@.last_activity_ms < final(self)@.active_quiet_window_ms,
            },
    {
        proof {
            use_type_invariant(&*self);
        }
        let polls = self.polls + 1;
        let mut last = self.last_activity_ms;
        let mut url_changed = self.url_changed;
        if !str_eq(url.as_str(), self.previous_url.as_str()) {
            url_changed = true;
            last = now_ms;
        }
        let mut previous_count = self.previous_mutation_count;
        let mut total = self.total_mutations;
        if mutation_count > previous_count {
            total = total + (mutation_count - previous_count);
            previous_count = mutation_count;
            last = now_ms;
        }
        let previous_focus = if self.check_focus && !str_eq(focus.as_str(), self.previous_focus.as_str()) {
            last = now_ms;
            focus
        } else {
            self.previous_focus.clone()
        };
        let quiet = if total == 0 && elapsed_ms >= ZERO_MUTATION_THRESHOLD_MS {
            ZERO_MUTATION_QUIET_MS
        } else {
            self.active_quiet_window_ms
        };
        *self = Settler {
            timeout_ms: self.timeout_ms,
            poll_ms: self.poll_ms,
            active_quiet_window_ms: quiet,
            check_focus: self.check_focus,
            initial_mutation_count: self.initial_mutation_count,
            previous_mutation_count: previous_count,
            previous_focus,
            previous_url: url,
            last_activity_ms: last,
            polls,
            total_mutations: total,
            url_changed,
        };
        if now_ms - last >= quiet {
            let reason = if total == 0 {
                SettleReason::ZeroMutationShortcut
            } else if url_changed {
                SettleReason::UrlChangedThenQuiet
            } else {
                SettleReason::DomQuiet
            };
            Some(SettleResult {
                settle_ms: elapsed_ms,
                settle_reason: reason,
                settle_polls: polls,
                total_mutations: total,
                url_changed,
            })
        } else {
            None
        }
    }

    /// The result when the timeout elapses before the page settles, at
    /// `elapsed_ms` past the timeout.
    pub fn timeout_result(&self, elapsed_ms: u64) -> (r: SettleResult)
        requires
            elapsed_ms >= self@.timeout_ms,
        ensures
            r.settle_ms >= self@.timeout_ms,
            r.settle_ms == elapsed_ms,
            r.settle_reason == SettleReason::TimeoutFallback,
            r.settle_polls == self@.polls,
            r.total_mutations == self@.total_mutations,
            r.url_changed == self@.url_changed,
    {
        SettleResult {
            settle_ms: elapsed_ms,
            settle_reason: SettleReason::TimeoutFallback,
            settle_polls: self.polls,
            total_mutations: self.total_mutations,
            url_changed: self.url_changed,
        }
    }
}

} // verus!
