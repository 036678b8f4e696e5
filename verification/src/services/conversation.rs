//! Conversation service — lifecycle management, message appending, and content retrieval.
use vstd::prelude::*;
use crate::services::{index_text, two_line_text};
use crate::entities::PrivacyControlFlag;

verus! {

/// Start a new conversation with an opening summary.
#[derive(Debug, Clone)]
pub struct CreateConversationRequest {
    pub opening_summary: String,
    /// Audience visibility for the new conversation.
    pub privacy: PrivacyControlFlag,
}

/// Retrieve a conversation by its primary key.
#[derive(Debug, Clone, Copy, PartialEq, Eq, Structural)]
pub struct FindConversationRequest {
    pub id: i64,
}

/// Overwrite the opening summary of a conversation.
#[derive(Debug, Clone)]
pub struct UpdateOpeningSummaryRequest {
    pub id: i64,
    pub opening_summary: String,
}

/// Reassign the [`PrivacyControlFlag`] of a conversation.
#[derive(Debug, Clone, Copy, PartialEq, Eq, Structural)]
pub struct UpdateConversationPrivacyRequest {
    pub id: i64,
    pub privacy: PrivacyControlFlag,
}

/// Mark a conversation as finished by providing its closing summary.
#[derive(Debug, Clone)]
pub struct CloseConversationRequest {
    pub id: i64,
    pub closing_summary: String,
}

/// Bump the `updated_at` timestamp to record recent activity.
#[derive(Debug, Clone, Copy, PartialEq, Eq, Structural)]
pub struct TouchConversationRequest {
    pub id: i64,
}

/// Delete a conversation (cascades to all messages and content blocks).
#[derive(Debug, Clone, Copy, PartialEq, Eq, Structural)]
pub struct DeleteConversationRequest {
    pub id: i64,
}

/// Paginated list of conversations ordered by most recent activity.
#[derive(Debug, Clone, Copy, PartialEq, Eq, Structural)]
pub struct ListRecentConversationsRequest {
    pub limit: i64,
    pub offset: i64,
}

/// Retrieve a single message by its primary key.
#[derive(Debug, Clone, Copy, PartialEq, Eq, Structural)]
pub struct FindMessageRequest {
    pub id: i64,
}

/// Paginated list of messages in a conversation.
///
/// Set `only_current_branch = true` to exclude messages from discarded branches.
#[derive(Debug, Clone, Copy, PartialEq, Eq, Structural)]
pub struct ListMessagesRequest {
    pub conversation_id: i64,
    pub only_current_branch: bool,
    pub limit: i64,
    pub offset: i64,
}

/// Flip the active-branch flag on a message.
#[derive(Debug, Clone, Copy, PartialEq, Eq, Structural)]
pub struct SwitchBranchRequest {
    pub message_id: i64,
    pub is_current_branch: bool,
}

/// Delete a message (cascades to its content blocks).
#[derive(Debug, Clone, Copy, PartialEq, Eq, Structural)]
pub struct DeleteMessageRequest {
    pub id: i64,
}

/// All content blocks for a message, ordered by position.
#[derive(Debug, Clone, Copy, PartialEq, Eq, Structural)]
pub struct ListContentsForMessageRequest {
    pub message_id: i64,
}

/// Retrieve a content block by its primary key.
#[derive(Debug, Clone, Copy, PartialEq, Eq, Structural)]
pub struct FindContentRequest {
    pub id: i64,
}

/// Delete an individual content block.
#[derive(Debug, Clone, Copy, PartialEq, Eq, Structural)]
pub struct DeleteContentRequest {
    pub id: i64,
}

/// The text a conversation is indexed under: its opening summary, followed by
/// a line break and its closing summary once it has one.
pub fn conversation_index_text(opening_summary: &String, closing_summary: &Option<String>) -> (r:
    String)
    ensures
        closing_summary matches Some(c) ==> r@ == two_line_text(opening_summary@, c@),
        closing_summary is None ==> r@ == opening_summary@,
{
    match closing_summary {
        Some(c) => index_text(opening_summary.as_str(), c.as_str()),
        None => opening_summary.clone(),
    }
}

} // verus!
