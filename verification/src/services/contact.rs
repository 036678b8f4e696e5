//! Contact service — identities, platform contacts, and relationship stories.
use vstd::prelude::*;
use crate::entities::contact::{CreateContact, FindContactByPlatformUser, UpdateContact};
use crate::services::{check_text, index_text, is_blank, is_blank_text, text_rule, two_line_text, ServiceError};
use crate::entities::PrivacyControlFlag;
use crate::entities::contact_identity::Relationship;
use crate::entities::contact_stories::StoryType;

verus! {

/// Create a new cross-platform identity. A fresh UUID is generated automatically.
#[derive(Debug, Clone)]
pub struct CreateContactIdentityRequest {
    pub identify_name: String,
    pub description: String,
    pub relationship: Relationship,
    pub privacy: PrivacyControlFlag,
}

/// Retrieve a contact identity by its UUID.
#[derive(Debug, Clone, Copy, PartialEq, Eq, Structural)]
pub struct FindContactIdentityRequest {
    pub id: u128,
}

/// Update the name and description of an identity.
#[derive(Debug, Clone)]
pub struct UpdateContactIdentityRequest {
    pub id: u128,
    pub identify_name: String,
    pub description: String,
}

/// Transition the relationship status of an identity.
#[derive(Debug, Clone, Copy, PartialEq, Eq, Structural)]
pub struct UpdateRelationshipRequest {
    pub id: u128,
    pub relationship: Relationship,
}

/// Reassign the [`PrivacyControlFlag`] of an identity.
#[derive(Debug, Clone, Copy, PartialEq, Eq, Structural)]
pub struct UpdateContactIdentityPrivacyRequest {
    pub id: u128,
    pub privacy: PrivacyControlFlag,
}

/// Delete a contact identity (cascades to platform contacts and stories).
#[derive(Debug, Clone, Copy, PartialEq, Eq, Structural)]
pub struct DeleteContactIdentityRequest {
    pub id: u128,
}

/// Paginated list of all identities ordered alphabetically.
#[derive(Debug, Clone, Copy, PartialEq, Eq, Structural)]
pub struct ListContactIdentitiesRequest {
    pub limit: i64,
    pub offset: i64,
}

/// Create or update a platform contact.
///
/// If a contact with the same `(platform, user_id)` already exists, its
/// `display_name` and `identity` are updated. Otherwise a new record is inserted.
/// Returns the contact's primary key.
#[derive(Debug, Clone)]
pub struct UpsertContactRequest {
    pub display_name: String,
    pub user_id: String,
    pub platform: String,
    pub identity: u128,
}

/// Retrieve a platform contact by its primary key.
#[derive(Debug, Clone, Copy, PartialEq, Eq, Structural)]
pub struct FindContactRequest {
    pub id: i64,
}

/// Delete a platform contact by its primary key.
#[derive(Debug, Clone, Copy, PartialEq, Eq, Structural)]
pub struct DeleteContactRequest {
    pub id: i64,
}

/// All platform contacts linked to a given identity.
#[derive(Debug, Clone, Copy, PartialEq, Eq, Structural)]
pub struct ListContactsByIdentityRequest {
    pub identity: u128,
}

/// Record a new story for a contact identity.
#[derive(Debug, Clone)]
pub struct CreateStoryRequest {
    pub identity: u128,
    pub story_type: StoryType,
    pub story_name: String,
    pub story_summary: String,
    pub story_text: String,
    pub happened_at: i128,
    pub related_conversation: Option<i64>,
    pub privacy: PrivacyControlFlag,
}

/// Retrieve a story by its primary key.
#[derive(Debug, Clone, Copy, PartialEq, Eq, Structural)]
pub struct FindStoryRequest {
    pub id: i64,
}

/// Update the narrative content of an existing story.
#[derive(Debug, Clone)]
pub struct UpdateStoryRequest {
    pub id: i64,
    pub story_name: String,
    pub story_summary: String,
    pub story_text: String,
}

/// Reassign the [`PrivacyControlFlag`] of a story.
#[derive(Debug, Clone, Copy, PartialEq, Eq, Structural)]
pub struct UpdateStoryPrivacyRequest {
    pub id: i64,
    pub privacy: PrivacyControlFlag,
}

/// Delete a story by its primary key.
#[derive(Debug, Clone, Copy, PartialEq, Eq, Structural)]
pub struct DeleteStoryRequest {
    pub id: i64,
}

/// Paginated list of stories for an identity ordered by occurrence time (newest first).
#[derive(Debug, Clone, Copy, PartialEq, Eq, Structural)]
pub struct ListStoriesByIdentityRequest {
    pub identity: u128,
    pub limit: i64,
    pub offset: i64,
}

impl CreateContactIdentityRequest {
    /// An identity needs a name that is not blank.
    pub fn validate(&self) -> (r: Result<(), ServiceError>)
        ensures
            r == text_rule(self.identify_name@),
    {
        check_text(&self.identify_name)
    }
}

impl UpdateContactIdentityRequest {
    /// An identity needs a name that is not blank.
    pub fn validate(&self) -> (r: Result<(), ServiceError>)
        ensures
            r == text_rule(self.identify_name@),
    {
        check_text(&self.identify_name)
    }
}

impl CreateStoryRequest {
    /// A story needs a name that is not blank.
    pub fn validate(&self) -> (r: Result<(), ServiceError>)
        ensures
            r == text_rule(self.story_name@),
    {
        check_text(&self.story_name)
    }
}

impl UpdateStoryRequest {
    /// A story needs a name that is not blank.
    pub fn validate(&self) -> (r: Result<(), ServiceError>)
        ensures
            r == text_rule(self.story_name@),
    {
        check_text(&self.story_name)
    }
}

/// The text a contact identity is indexed under: its name, a line break, and
/// its description.
pub fn identity_index_text(identify_name: &String, description: &String) -> (r: String)
    ensures
        r@ == two_line_text(identify_name@, description@),
{
    index_text(identify_name.as_str(), description.as_str())
}

/// The write an upsert of a platform contact performs.
#[derive(Debug, Clone)]
pub enum ContactWrite {
    /// A contact with the same platform and user id exists: refresh it.
    Update(UpdateContact),
    /// No such contact yet: insert one.
    Create(CreateContact),
}

impl UpsertContactRequest {
    /// A platform contact needs a display name and a user id that are not
    /// blank.
    pub fn validate(&self) -> (r: Result<(), ServiceError>)
        ensures
            r == (if is_blank_text(self.display_name@) || is_blank_text(self.user_id@) {
                Err(ServiceError::InvalidInput)
            } else {
                Ok::<(), ServiceError>(())
            }),
    {
        if is_blank(self.display_name.as_str()) || is_blank(self.user_id.as_str()) {
            return Err(ServiceError::InvalidInput);
        }
        Ok(())
    }

    /// The lookup of an existing contact with the same platform and user id.
    pub fn lookup(&self) -> (q: FindContactByPlatformUser)
        ensures
            q.platform@ == self.platform@,
            q.user_id@ == self.user_id@,
    {
        FindContactByPlatformUser {
            platform: self.platform.clone(),
            user_id: self.user_id.clone(),
        }
    }

    /// The write to perform given the id of the existing contact, if any: an
    /// existing contact gets the new display name and identity; otherwise a
    /// contact is created from the request.
    pub fn into_write(self, existing: Option<i64>) -> (w: ContactWrite)
        ensures
            existing matches Some(id) ==> (w matches ContactWrite::Update(u) && u.id == id
                && u.display_name@ == self.display_name@ && u.identity == self.identity),
            existing is None ==> (w matches ContactWrite::Create(c) && c.display_name@
                == self.display_name@ && c.user_id@ == self.user_id@ && c.platform@
                == self.platform@ && c.identity == self.identity),
    {
        match existing {
            Some(id) => ContactWrite::Update(
                UpdateContact { id, display_name: self.display_name, identity: self.identity },
            ),
            None => ContactWrite::Create(
                CreateContact {
                    display_name: self.display_name,
                    user_id: self.user_id,
                    platform: self.platform,
                    identity: self.identity,
                },
            ),
        }
    }
}

/// The platform contacts as storage holds them: the id of the contact for
/// each `(platform, user id)` pair.
pub type ContactTable = Map<(Seq<char>, Seq<char>), i64>;

/// What an accepted upsert does against `table`, given that the lookup of
/// [`UpsertContactRequest::lookup`] finds the contact stored under the
/// request's platform and user id and that a created contact gets the id
/// `fresh`: the id answered and the table afterwards.
pub open spec fn upsert_effect(table: ContactTable, request: UpsertContactRequest, fresh: i64) -> (
    i64,
    ContactTable,
) {
    let key = (request.platform@, request.user_id@);
    if table.contains_key(key) {
        (table[key], table)
    } else {
        (fresh, table.insert(key, fresh))
    }
}

/// Repeating an upsert answers the same id and creates no further contact.
pub proof fn law_upsert_is_repeatable(
    table: ContactTable,
    request: UpsertContactRequest,
    fresh1: i64,
    fresh2: i64,
)
    ensures
        ({
            let (id1, after1) = upsert_effect(table, request, fresh1);
            let (id2, after2) = upsert_effect(after1, request, fresh2);
            id2 == id1 && after2 == after1
        }),
{
}

} // verus!
