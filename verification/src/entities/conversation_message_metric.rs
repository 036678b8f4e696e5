//! Per-message topical-shift score and its running cumulative sum.
//!
//! This is derived metadata that sits beside the read-only conversation history.
//! `semantic_distance` is a 1..25 score (same topic / same conversation / same
//! task), and `cumulative_distance` is the running sum — the axis the summary
//! segment tree is bucketed on.
use vstd::prelude::*;
verus! {

/// The topical-shift metric attached to one conversation message.
#[derive(Debug, Clone, Copy, PartialEq, Eq, Structural)]
pub struct ConversationMessageMetricEntity {
    /// Message this metric describes.
    pub message_id: i64,
    /// Topical-shift score in `1..=25`.
    pub semantic_distance: i16,
    /// Running sum of `semantic_distance` within the conversation, up to and
    /// including this message.
    pub cumulative_distance: i64,
}

/// Record the metric for a freshly appended message.
#[derive(Debug, Clone, Copy, PartialEq, Eq, Structural)]
pub struct CreateConversationMessageMetric {
    pub message_id: i64,
    pub score: i16,
}

/// The largest cumulative distance recorded for a conversation, or `0` when it
/// has no scored messages yet.
#[derive(Debug, Clone, Copy, PartialEq, Eq, Structural)]
pub struct LatestCumulativeDistance {
    pub conversation_id: i64,
}

} // verus!
