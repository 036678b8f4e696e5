//! Segment-tree nodes for hierarchical conversation summaries.
//!
//! Each node is addressed by `(conversation_id, level, bucket)` where
//! `bucket = floor(cumulative_distance / base^level)`. A node's summary is the
//! monoid combination of its children: level-1 nodes combine raw messages in
//! their distance range; higher levels combine the child nodes one level down.
use vstd::prelude::*;
verus! {

/// One node of a conversation's summary segment tree.
#[derive(Debug, Clone)]
pub struct ConversationSummaryNodeEntity {
    pub id: i64,
    pub conversation_id: i64,
    /// Tree level; 1 is the finest summary level (0 = raw messages).
    pub level: i32,
    /// Bucket index along the cumulative-distance axis.
    pub bucket: i64,
    /// First message id covered (marker, not a foreign key).
    pub covers_from_message_id: i64,
    /// Last message id covered (marker, not a foreign key).
    pub covers_to_message_id: i64,
    /// Inclusive lower bound of the covered cumulative-distance span.
    pub distance_from: i64,
    /// Exclusive upper bound of the covered cumulative-distance span.
    pub distance_to: i64,
    /// The summary text (monoid value; empty string is the identity).
    pub summary: String,
    /// Whether the node's range is still growing (the rightmost node at its
    /// level). Finalized nodes never change again.
    pub is_open: bool,
    /// Number of children (raw messages for level 1, child nodes above) folded
    /// into the current `summary`. The node is up to date iff this equals its
    /// current child count; a larger current count means the summary is stale.
    /// `0` marks a placeholder whose summary has not been computed yet.
    pub last_summary_children: i64,
    /// Unix timestamp of the last (re)summarization.
    pub updated_at: i64,
}

/// Insert or refresh a node addressed by `(conversation_id, level, bucket)`.
#[derive(Debug, Clone)]
pub struct UpsertConversationSummaryNode {
    pub conversation_id: i64,
    pub level: i32,
    pub bucket: i64,
    pub covers_from_message_id: i64,
    pub covers_to_message_id: i64,
    pub distance_from: i64,
    pub distance_to: i64,
    pub summary: String,
    pub is_open: bool,
    pub last_summary_children: i64,
    pub updated_at: i64,
}

/// Find a node by its `(conversation_id, level, bucket)` address.
#[derive(Debug, Clone, Copy, PartialEq, Eq, Structural)]
pub struct FindSummaryNodeByAddr {
    pub conversation_id: i64,
    pub level: i32,
    pub bucket: i64,
}

/// All nodes of a conversation, coarsest level first then oldest span first.
#[derive(Debug, Clone, Copy, PartialEq, Eq, Structural)]
pub struct ListSummaryNodesByConversation {
    pub conversation_id: i64,
}

/// Fetch the children of a node: the level-(`level` − 1) nodes within its
/// cumulative-distance span.
#[derive(Debug, Clone, Copy, PartialEq, Eq, Structural)]
pub struct ListChildSummaryNodes {
    pub conversation_id: i64,
    pub level: i32,
    pub distance_from: i64,
    pub distance_to: i64,
}

/// A message's concatenated text, used as a leaf when summarizing a level-1
/// node.
#[derive(Debug, Clone)]
pub struct MessageText {
    pub message_id: i64,
    pub text: String,
}

/// Fetch the raw message texts whose cumulative distance is in `[from, to)`.
#[derive(Debug, Clone, Copy, PartialEq, Eq, Structural)]
pub struct MessagesInDistanceRange {
    pub conversation_id: i64,
    pub distance_from: i64,
    pub distance_to: i64,
}

/// Register a node whose bucket just became full, without summarizing it.
///
/// Inserts an empty placeholder (zero child watermark) so the read-path saga can
/// discover the node and refresh it lazily. A no-op if the node already exists,
/// so an already-summarized node is never reset to a placeholder.
#[derive(Debug, Clone, Copy, PartialEq, Eq, Structural)]
pub struct InsertSummaryNodePlaceholder {
    pub conversation_id: i64,
    pub level: i32,
    pub bucket: i64,
    pub covers_from_message_id: i64,
    pub covers_to_message_id: i64,
    pub distance_from: i64,
    pub distance_to: i64,
    pub updated_at: i64,
}

/// The first and last message id covered by a cumulative-distance span (`0, 0`
/// when empty). Used to stamp a newly-full node's covered-message markers.
#[derive(Debug, Clone, Copy, PartialEq, Eq, Structural)]
pub struct MessageIdBounds {
    pub from_id: i64,
    pub to_id: i64,
}

/// Fetch the covered-message marker bounds for a cumulative-distance span.
#[derive(Debug, Clone, Copy, PartialEq, Eq, Structural)]
pub struct MessageIdBoundsInDistanceRange {
    pub conversation_id: i64,
    pub distance_from: i64,
    pub distance_to: i64,
}

/// Count the children currently underneath a node, to compare against its
/// `last_summary_children` watermark. Level-1 nodes count raw messages in their
/// distance span; higher levels count their child nodes.
#[derive(Debug, Clone, Copy, PartialEq, Eq, Structural)]
pub struct CountSummaryNodeChildren {
    pub conversation_id: i64,
    pub level: i32,
    pub distance_from: i64,
    pub distance_to: i64,
}

} // verus!
