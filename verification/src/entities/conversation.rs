//! Conversation sessions and their summaries.
use vstd::prelude::*;
use super::PrivacyControlFlag;
verus! {

/// A conversation session between the user and the agent.
///
/// Conversations are the top-level container for a series of messages.
/// They maintain summaries for quick context retrieval without loading
/// the full message history.
#[derive(Debug, Clone)]
pub struct ConversationEntity {
    /// Unique identifier for this conversation.
    pub id: i64,

    /// AI-generated summary of how the conversation started.
    pub opening_summary: String,

    /// AI-generated summary of the conversation outcome (set when conversation ends).
    pub closing_summary: Option<String>,

    /// Unix timestamp when the conversation started.
    pub created_at: i64,

    /// Unix timestamp of the last activity in this conversation.
    pub updated_at: i64,

    /// Audience visibility for this conversation; gates whether the agent
    /// may load it into the LLM context when chatting with a given peer.
    pub privacy: PrivacyControlFlag,
}

/// Find a [`ConversationEntity`] by its bigserial primary key.
#[derive(Debug, Clone, Copy, PartialEq, Eq, Structural)]
pub struct FindConversationById {
    pub id: i64,
}

/// Insert a new conversation with its opening summary and Unix timestamps.
#[derive(Debug, Clone)]
pub struct CreateConversation {
    pub opening_summary: String,
    pub created_at: i64,
    pub updated_at: i64,
    pub privacy: PrivacyControlFlag,
}

/// Overwrite the opening summary of a conversation.
#[derive(Debug, Clone)]
pub struct UpdateConversationOpeningSummary {
    pub id: i64,
    pub opening_summary: String,
}

/// Set the closing summary and bump `updated_at` when a conversation ends.
#[derive(Debug, Clone)]
pub struct CloseConversation {
    pub id: i64,
    pub closing_summary: String,
    pub updated_at: i64,
}

/// Update `updated_at` to reflect recent activity.
#[derive(Debug, Clone, Copy, PartialEq, Eq, Structural)]
pub struct TouchConversation {
    pub id: i64,
    pub updated_at: i64,
}

/// Delete a conversation (cascades to messages and content).
#[derive(Debug, Clone, Copy, PartialEq, Eq, Structural)]
pub struct DeleteConversation {
    pub id: i64,
}

/// Reassign the [`PrivacyControlFlag`] of a conversation.
#[derive(Debug, Clone, Copy, PartialEq, Eq, Structural)]
pub struct UpdateConversationPrivacy {
    pub id: i64,
    pub privacy: PrivacyControlFlag,
}

/// Paginated list of conversations ordered by most recent activity.
#[derive(Debug, Clone, Copy, PartialEq, Eq, Structural)]
pub struct ListRecentConversations {
    pub limit: i64,
    pub offset: i64,
}

} // verus!
