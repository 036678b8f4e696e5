//! Memorable events and interactions with contacts.
use vstd::prelude::*;
use super::PrivacyControlFlag;
verus! {

/// A notable event or interaction involving a contact.
///
/// Stories capture significant moments in Isla's relationship with a person,
/// such as first meetings, relationship changes, or memorable conversations.
#[derive(Debug, Clone)]
pub struct ContactStoryEntity {
    /// Unique identifier for this story.
    pub id: i64,

    /// ID of the [`ContactIdentityEntity`](super::contact_identity::ContactIdentityEntity) this story is about.
    pub identity: u128,

    /// Classification of what kind of event this story represents.
    pub story_type: StoryType,

    /// Short title for this story.
    pub story_name: String,

    /// Brief summary of what happened.
    pub story_summary: String,

    /// Full narrative of the event.
    pub story_text: String,

    /// When this event occurred.
    pub happened_at: i128,

    /// Optional link to the conversation where this story originated.
    pub related_conversation: Option<i64>,

    /// Audience visibility for this story.
    pub privacy: PrivacyControlFlag,
}

/// Classification of what kind of event a story represents.
#[derive(Debug, Clone, Copy, PartialEq, Eq, Structural)]
pub enum StoryType {
    /// The relationship became closer or more trusting.
    RelationshipUpgrade,
    /// The relationship became more distant or strained.
    RelationshipDowngrade,
    /// The first interaction with this person.
    FirstMeeting,
    /// Isla's understanding of this person changed significantly.
    ImpressionChanged,
    /// Any other notable event.
    Other,
}

/// Find a [`ContactStoryEntity`] by its bigserial primary key.
#[derive(Debug, Clone, Copy, PartialEq, Eq, Structural)]
pub struct FindContactStoryById {
    pub id: i64,
}

/// Insert a new story for a contact identity.
#[derive(Debug, Clone)]
pub struct CreateContactStory {
    pub identity: u128,
    pub story_type: StoryType,
    pub story_name: String,
    pub story_summary: String,
    pub story_text: String,
    pub happened_at: i128,
    pub related_conversation: Option<i64>,
    pub privacy: PrivacyControlFlag,
}

/// Update the narrative content of an existing story.
#[derive(Debug, Clone)]
pub struct UpdateContactStory {
    pub id: i64,
    pub story_name: String,
    pub story_summary: String,
    pub story_text: String,
}

/// Delete a story by its primary key.
#[derive(Debug, Clone, Copy, PartialEq, Eq, Structural)]
pub struct DeleteContactStory {
    pub id: i64,
}

/// Reassign the [`PrivacyControlFlag`] of a story.
#[derive(Debug, Clone, Copy, PartialEq, Eq, Structural)]
pub struct UpdateContactStoryPrivacy {
    pub id: i64,
    pub privacy: PrivacyControlFlag,
}

/// Paginated list of stories for an identity ordered by occurrence time (newest first).
#[derive(Debug, Clone, Copy, PartialEq, Eq, Structural)]
pub struct ListContactStoriesByIdentity {
    pub identity: u128,
    pub limit: i64,
    pub offset: i64,
}

} // verus!
