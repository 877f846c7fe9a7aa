//! Compaction limits. The two token thresholds are fractions of the
//! effective window; they arrive here already converted to token counts.

use vstd::prelude::*;

verus! {

/// Limits that drive compaction.
#[derive(Debug, Clone, Copy, PartialEq, Eq, Structural)]
pub struct CompactionConfig {
    /// Total token budget of the model's context window.
    pub context_window: u32,
    /// Tokens reserved for the system prompt and tool schemas.
    pub reserve_tokens: u32,
    /// Estimated tokens at which compaction fires.
    pub threshold_tokens: u32,
    /// Estimated tokens at which compaction is an emergency.
    pub critical_tokens: u32,
    /// Recent user/assistant turns kept verbatim.
    pub recent_turns_to_keep: usize,
    /// Conversations this short are never compacted.
    pub min_turns_to_keep: usize,
    /// Tool results longer than this many bytes are cut when summarised.
    pub emergency_tool_result_max_chars: usize,
}

/// Default context window.
pub const DEFAULT_CONTEXT_WINDOW: u32 = 128_000;
/// Default reserve.
pub const DEFAULT_RESERVE_TOKENS: u32 = 16_384;
/// Default number of recent turns kept.
pub const DEFAULT_RECENT_TURNS_TO_KEEP: usize = 10;
/// Default floor.
pub const DEFAULT_MIN_TURNS_TO_KEEP: usize = 2;
/// Default cut for tool results.
pub const DEFAULT_EMERGENCY_TOOL_RESULT_MAX_CHARS: usize = 4_000;

impl CompactionConfig {
    /// The default limits with the given thresholds.
    pub fn with_thresholds(threshold_tokens: u32, critical_tokens: u32) -> (c: Self)
        ensures
            c.context_window == DEFAULT_CONTEXT_WINDOW,
            c.reserve_tokens == DEFAULT_RESERVE_TOKENS,
            c.threshold_tokens == threshold_tokens,
            c.critical_tokens == critical_tokens,
            c.recent_turns_to_keep == DEFAULT_RECENT_TURNS_TO_KEEP,
            c.min_turns_to_keep == DEFAULT_MIN_TURNS_TO_KEEP,
            c.emergency_tool_result_max_chars == DEFAULT_EMERGENCY_TOOL_RESULT_MAX_CHARS,
    {
        CompactionConfig {
            context_window: DEFAULT_CONTEXT_WINDOW,
            reserve_tokens: DEFAULT_RESERVE_TOKENS,
            threshold_tokens,
            critical_tokens,
            recent_turns_to_keep: DEFAULT_RECENT_TURNS_TO_KEEP,
            min_turns_to_keep: DEFAULT_MIN_TURNS_TO_KEEP,
            emergency_tool_result_max_chars: DEFAULT_EMERGENCY_TOOL_RESULT_MAX_CHARS,
        }
    }

    /// The budget left for conversation tokens: the window less the
    /// reserve, and 0 when the reserve is larger.
    pub fn effective_window(&self) -> (w: u32)
        ensures
            w == (if self.context_window >= self.reserve_tokens {
                self.context_window - self.reserve_tokens
            } else {
                0
            }),
    {
        self.context_window.saturating_sub(self.reserve_tokens)
    }
}

} // verus!
