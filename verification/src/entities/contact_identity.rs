//! Cross-platform identity and relationship tracking.
use vstd::prelude::*;
use super::PrivacyControlFlag;
verus! {

/// A unified identity representing a real person across platforms.
///
/// Multiple [`ContactEntity`](super::contact::ContactEntity) records from
/// different platforms can link to the same identity, allowing Isla to
/// maintain a consistent understanding of relationships.
#[derive(Debug, Clone)]
pub struct ContactIdentityEntity {
    /// Unique identifier for this identity.
    pub id: u128,

    /// The name Isla uses to refer to this person internally.
    pub identify_name: String,

    /// Notes about this person (interests, context, etc.).
    pub description: String,

    /// Current relationship status with this person.
    pub relationship: Relationship,

    /// When Isla first interacted with this person.
    pub first_meet_at: i128,

    /// When the relationship status was last changed.
    pub relationship_updated_at: i128,

    /// Audience visibility for everything we know about this identity (the
    /// identity record itself; individual [`ContactStoryEntity`] rows carry
    /// their own flag).
    pub privacy: PrivacyControlFlag,
}

/// The type of relationship Isla has with a contact.
#[derive(Debug, Clone, Copy, PartialEq, Eq, Structural)]
pub enum Relationship {
    /// Unknown person with no established relationship.
    Stranger,
    /// The primary user who owns/controls this Isla instance.
    Master,
    /// Someone Isla has interacted with but doesn't know well.
    Acquaintance,
    /// A friend or close contact.
    Dude,
    /// A contact that should be deprioritized or filtered.
    Ignored,
}

/// Find a [`ContactIdentityEntity`] by its UUID primary key.
#[derive(Debug, Clone, Copy, PartialEq, Eq, Structural)]
pub struct FindContactIdentityById {
    pub id: u128,
}

/// Insert a new cross-platform identity. The caller supplies the `id`.
#[derive(Debug, Clone)]
pub struct CreateContactIdentity {
    pub id: u128,
    pub identify_name: String,
    pub description: String,
    pub relationship: Relationship,
    pub privacy: PrivacyControlFlag,
}

/// Update the name and description of an identity (not the relationship).
#[derive(Debug, Clone)]
pub struct UpdateContactIdentity {
    pub id: u128,
    pub identify_name: String,
    pub description: String,
}

/// Transition the relationship status of an identity and stamp `relationship_updated_at`.
#[derive(Debug, Clone, Copy, PartialEq, Eq, Structural)]
pub struct UpdateContactIdentityRelationship {
    pub id: u128,
    pub relationship: Relationship,
}

/// Delete an identity (cascades to all linked contacts and stories).
#[derive(Debug, Clone, Copy, PartialEq, Eq, Structural)]
pub struct DeleteContactIdentity {
    pub id: u128,
}

/// Reassign the [`PrivacyControlFlag`] of an identity.
#[derive(Debug, Clone, Copy, PartialEq, Eq, Structural)]
pub struct UpdateContactIdentityPrivacy {
    pub id: u128,
    pub privacy: PrivacyControlFlag,
}

/// Paginated list of all identities ordered alphabetically by `identify_name`.
#[derive(Debug, Clone, Copy, PartialEq, Eq, Structural)]
pub struct ListContactIdentities {
    pub limit: i64,
    pub offset: i64,
}

} // verus!
