//! Platform-specific contact records.
use vstd::prelude::*;
verus! {

/// A contact as they appear on a specific platform.
///
/// The same person may have multiple `ContactEntity` records (one per platform),
/// but they share a single [`ContactIdentityEntity`](super::contact_identity::ContactIdentityEntity)
/// that represents the real-world identity Isla has recognized.
#[derive(Debug, Clone)]
pub struct ContactEntity {
    /// Unique identifier for this contact record.
    pub id: i64,

    /// The name shown for this contact on the platform.
    pub display_name: String,

    /// Platform-specific user identifier.
    pub user_id: String,

    /// Platform name (e.g., `discord`, `telegram`, `slack`).
    pub platform: String,

    /// Foreign key to the
    /// [`ContactIdentityEntity`](super::contact_identity::ContactIdentityEntity)
    /// this contact is linked to.
    pub identity: u128,

    /// When this contact was first seen.
    pub created_at: i128,

    /// When this contact record was last updated.
    pub updated_at: i128,
}

/// Find a [`ContactEntity`] by its bigserial primary key.
#[derive(Debug, Clone, Copy, PartialEq, Eq, Structural)]
pub struct FindContactById {
    pub id: i64,
}

/// Look up a contact by the unique (platform, user_id) pair.
#[derive(Debug, Clone)]
pub struct FindContactByPlatformUser {
    pub platform: String,
    pub user_id: String,
}

/// Insert a new platform-specific contact record.
#[derive(Debug, Clone)]
pub struct CreateContact {
    pub display_name: String,
    pub user_id: String,
    pub platform: String,
    pub identity: u128,
}

/// Update the display name and linked identity of an existing contact.
#[derive(Debug, Clone)]
pub struct UpdateContact {
    pub id: i64,
    pub display_name: String,
    pub identity: u128,
}

/// Delete a contact record by its primary key.
#[derive(Debug, Clone, Copy, PartialEq, Eq, Structural)]
pub struct DeleteContact {
    pub id: i64,
}

/// All contact records linked to a given identity.
#[derive(Debug, Clone, Copy, PartialEq, Eq, Structural)]
pub struct ListContactsByIdentity {
    pub identity: u128,
}

} // verus!
