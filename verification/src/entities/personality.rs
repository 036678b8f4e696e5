//! Personality facets — the building blocks of the agent's character.
use vstd::prelude::*;
use super::PrivacyControlFlag;
use super::contact_identity::Relationship;
verus! {

/// One facet of the agent's character.
///
/// The system prompt is assembled from many facets. Which facets are surfaced
/// depends on the current peer: `is_core` facets are always included, while the
/// rest are gated by [`PrivacyControlFlag`] against the peer's
/// [`Relationship`](super::contact_identity::Relationship) — the same audience
/// matrix used for memories.
#[derive(Debug, Clone)]
pub struct PersonalityFacetEntity {
    /// Unique identifier for this facet.
    pub id: i64,

    /// Short human-readable name (e.g. `core-identity`, `playful-with-master`).
    pub name: String,

    /// The instruction text contributed to the system prompt.
    pub content: String,

    /// Ordering weight; higher-priority facets appear earlier in the prompt.
    pub priority: i32,

    /// Whether this facet is part of the invariant character base and is always
    /// included regardless of audience.
    pub is_core: bool,

    /// Audience gate for non-core facets.
    pub privacy: PrivacyControlFlag,

    /// Unix timestamp when this facet was created.
    pub created_at: i64,

    /// Unix timestamp of the last update to this facet.
    pub updated_at: i64,
}

/// Find a [`PersonalityFacetEntity`] by its bigserial primary key.
#[derive(Debug, Clone, Copy, PartialEq, Eq, Structural)]
pub struct FindPersonalityFacetById {
    pub id: i64,
}

/// List every personality facet ordered by descending priority.
///
/// Audience filtering is intentionally *not* done here; it is business logic
/// applied by the service layer (see
/// [`PersonalityService`](crate::services::personality::PersonalityService)).
#[derive(Debug, Clone, Copy, PartialEq, Eq, Structural)]
pub struct ListPersonalityFacets;

/// Insert a new personality facet.
#[derive(Debug, Clone)]
pub struct CreatePersonalityFacet {
    pub name: String,
    pub content: String,
    pub priority: i32,
    pub is_core: bool,
    pub privacy: PrivacyControlFlag,
    pub created_at: i64,
    pub updated_at: i64,
}

/// Update the mutable fields of a personality facet.
#[derive(Debug, Clone)]
pub struct UpdatePersonalityFacet {
    pub id: i64,
    pub name: String,
    pub content: String,
    pub priority: i32,
    pub is_core: bool,
    pub privacy: PrivacyControlFlag,
    pub updated_at: i64,
}

/// Delete a personality facet by its primary key.
#[derive(Debug, Clone, Copy, PartialEq, Eq, Structural)]
pub struct DeletePersonalityFacet {
    pub id: i64,
}

} // verus!
