//! Entity definitions for persistent memory storage, grouped by domain:
//!
//! - **Conversations**: [`conversation`], [`conversation_content`],
//!   [`conversation_message_metric`], [`conversation_summary_node`]
//! - **Calendar**: [`calender`], [`calender_event`], [`calender_daily_event`],
//!   [`calender_task`]
//! - **Contacts**: [`contact`], [`contact_identity`], [`contact_stories`]
//! - **Diary**: [`diary`]
//! - **Personality**: [`personality`]
//! - **Retrieval index**: [`embedding`]
//!
//! Values are held as plain data: a UUID is its 128-bit value (`u128`), a
//! point in time is a count of Unix nanoseconds (`i128`), and a calendar date
//! is its Julian day number (`i32`).
use vstd::prelude::*;

pub mod calender;
pub mod calender_daily_event;
pub mod calender_event;
pub mod calender_task;
pub mod contact;
pub mod contact_identity;
pub mod contact_stories;
pub mod conversation;
pub mod conversation_content;
pub mod conversation_message_metric;
pub mod conversation_summary_node;
pub mod diary;
pub mod embedding;
pub mod personality;
pub mod redis;

use contact_identity::Relationship;

verus! {

/// Audience-based visibility flag for stored memory entities.
///
/// Rows whose flag excludes the current peer's [`Relationship`] must be
/// omitted from model input so private context never leaks across audiences.
///
/// Visibility matrix (✓ = visible):
///
/// | Flag        | Master | Dude | Acquaintance | Stranger / Ignored |
/// | ----------- | :----: | :--: | :----------: | :----------------: |
/// | `Private`   |   ✓    |      |              |                    |
/// | `Protected` |   ✓    |  ✓   |      ✓       |                    |
/// | `Public`    |   ✓    |  ✓   |      ✓       |         ✓          |
///
/// Newly created rows default to [`PrivacyControlFlag::Protected`].
#[derive(Debug, Clone, Copy, PartialEq, Eq, Hash, Structural)]
pub enum PrivacyControlFlag {
    /// Visible only to the Master.
    Private,
    /// Visible to the Master and to known relationships (Dude, Acquaintance).
    Protected,
    /// Visible to everyone, including strangers.
    Public,
}

impl Default for PrivacyControlFlag {
    fn default() -> (r: Self)
        ensures
            r == PrivacyControlFlag::Protected,
    {
        PrivacyControlFlag::Protected
    }
}

/// The visibility matrix: whether a memory tagged `flag` may be surfaced to a
/// peer in `relationship`.
pub open spec fn visible_to(flag: PrivacyControlFlag, relationship: Relationship) -> bool {
    match flag {
        PrivacyControlFlag::Private => relationship == Relationship::Master,
        PrivacyControlFlag::Protected => relationship == Relationship::Master || relationship
            == Relationship::Dude || relationship == Relationship::Acquaintance,
        PrivacyControlFlag::Public => true,
    }
}

impl PrivacyControlFlag {
    /// Returns `true` if a memory tagged with this flag may be surfaced to a
    /// peer in the given [`Relationship`].
    pub fn allows(self, relationship: Relationship) -> (r: bool)
        ensures
            r == visible_to(self, relationship),
    {
        match (self, relationship) {
            (_, Relationship::Master) => true,
            (Self::Private, _) => false,
            (Self::Protected, Relationship::Dude) | (Self::Protected, Relationship::Acquaintance) => true,
            (Self::Protected, _) => false,
            (Self::Public, _) => true,
        }
    }
}

/// The Master sees every memory, whatever its flag.
pub proof fn law_master_sees_everything(flag: PrivacyControlFlag)
    ensures
        visible_to(flag, Relationship::Master),
{
}

/// Visibility only widens from `Private` to `Protected` to `Public`: whoever
/// may see a more private memory may also see a more public one.
pub proof fn law_visibility_widens(relationship: Relationship)
    ensures
        visible_to(PrivacyControlFlag::Private, relationship) ==> visible_to(
            PrivacyControlFlag::Protected,
            relationship,
        ),
        visible_to(PrivacyControlFlag::Protected, relationship) ==> visible_to(
            PrivacyControlFlag::Public,
            relationship,
        ),
{
}

/// Strangers and ignored contacts see only public memories; public memories
/// are seen by everyone.
pub proof fn law_strangers_see_only_public(flag: PrivacyControlFlag, relationship: Relationship)
    ensures
        (relationship == Relationship::Stranger || relationship == Relationship::Ignored) ==> (
        visible_to(flag, relationship) <==> flag == PrivacyControlFlag::Public),
        visible_to(PrivacyControlFlag::Public, relationship),
{
}

} // verus!
