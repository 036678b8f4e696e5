//! Multimodal content blocks within conversation messages.
use vstd::prelude::*;
verus! {

/// A single content block within a conversation message.
///
/// Messages can contain multiple content blocks of different modalities
/// (text, images, audio, etc.). Each block is stored separately to support
/// efficient retrieval and multimodal search.
#[derive(Debug, Clone)]
pub struct ConversationContentEntity {
    /// Unique identifier for this content block.
    pub id: i64,

    /// ID of the parent [`ConversationMessageEntity`](super::conversation_message::ConversationMessageEntity).
    pub message_id: i64,

    /// Order of this block within the message (0-indexed).
    pub position: i32,

    /// The type of content in this block.
    pub modality: ContentModality,

    /// Text content (for [`ContentModality::Text`]).
    pub text: Option<String>,

    /// Reference to stored object (for non-text modalities).
    /// The DB enforces `octet_length(object_hash) = 32` via a CHECK constraint.
    pub object_hash: Option<Vec<u8>>,

    /// Image detail level hint (e.g., `low`, `high`, `auto`).
    pub image_detail: Option<String>,

    /// Audio encoding format (e.g., `mp3`, `wav`, `opus`).
    pub audio_format: Option<String>,
}

/// The type of content in a message block.
#[derive(Debug, Clone, Copy, PartialEq, Eq, Structural)]
pub enum ContentModality {
    /// Plain text content.
    Text,
    /// Image content (stored in object storage).
    Image,
    /// Audio content (stored in object storage).
    Audio,
    /// Generic file attachment (stored in object storage).
    File,
    /// Video content (stored in object storage).
    Video,
}

/// Find a [`ConversationContentEntity`] by its bigserial primary key.
#[derive(Debug, Clone, Copy, PartialEq, Eq, Structural)]
pub struct FindConversationContentById {
    pub id: i64,
}

/// Insert a single content block for a message.
#[derive(Debug, Clone)]
pub struct CreateConversationContent {
    pub message_id: i64,
    pub position: i32,
    pub modality: ContentModality,
    pub text: Option<String>,
    pub object_hash: Option<Vec<u8>>,
    pub image_detail: Option<String>,
    pub audio_format: Option<String>,
}

/// Delete a content block by its primary key.
#[derive(Debug, Clone, Copy, PartialEq, Eq, Structural)]
pub struct DeleteConversationContent {
    pub id: i64,
}

/// All content blocks for a message ordered by position.
#[derive(Debug, Clone, Copy, PartialEq, Eq, Structural)]
pub struct ListConversationContentByMessage {
    pub message_id: i64,
}

} // verus!
