//! The unified retrieval (RAG) embedding index.
//!
//! One row per source entry. The entry type is a **product of nullable foreign
//! keys** ([`EntryRef`]) rather than an enum discriminant: exactly one ref is
//! set. `privacy` is inherited from the source entry.
use vstd::prelude::*;
use super::PrivacyControlFlag;

verus! {

/// Reference to the source entry an embedding indexes.
///
/// A product of optional foreign keys; construct via the helpers so exactly one
/// is set.
#[derive(Debug, Clone, Copy, PartialEq, Eq, Default, Structural)]
pub struct EntryRef {
    pub calender_event: Option<i64>,
    pub conversation: Option<i64>,
    pub contact: Option<u128>,
    pub diary: Option<i64>,
}

impl EntryRef {
    /// The number of references that are set.
    pub open spec fn set_count(self) -> int {
        (if self.calender_event is Some { 1int } else { 0 }) + (if self.conversation is Some {
            1int
        } else {
            0
        }) + (if self.contact is Some { 1int } else { 0 }) + (if self.diary is Some {
            1int
        } else {
            0
        })
    }

    /// Reference a calendar event.
    pub fn calender_event(id: i64) -> (r: Self)
        ensures
            r == (EntryRef { calender_event: Some(id), conversation: None, contact: None, diary: None }),
    {
        EntryRef { calender_event: Some(id), conversation: None, contact: None, diary: None }
    }

    /// Reference a conversation.
    pub fn conversation(id: i64) -> (r: Self)
        ensures
            r == (EntryRef { calender_event: None, conversation: Some(id), contact: None, diary: None }),
    {
        EntryRef { calender_event: None, conversation: Some(id), contact: None, diary: None }
    }

    /// Reference a contact identity.
    pub fn contact(id: u128) -> (r: Self)
        ensures
            r == (EntryRef { calender_event: None, conversation: None, contact: Some(id), diary: None }),
    {
        EntryRef { calender_event: None, conversation: None, contact: Some(id), diary: None }
    }

    /// Reference a diary entry.
    pub fn diary(id: i64) -> (r: Self)
        ensures
            r == (EntryRef { calender_event: None, conversation: None, contact: None, diary: Some(id) }),
    {
        EntryRef { calender_event: None, conversation: None, contact: None, diary: Some(id) }
    }

    /// Whether exactly one ref is set (the table's invariant).
    pub fn is_exactly_one(&self) -> (r: bool)
        ensures
            r == (self.set_count() == 1),
    {
        let set: usize = (if self.calender_event.is_some() { 1usize } else { 0usize }) + (
        if self.conversation.is_some() {
            1usize
        } else {
            0usize
        }) + (if self.contact.is_some() { 1usize } else { 0usize }) + (if self.diary.is_some() {
            1usize
        } else {
            0usize
        });
        set == 1
    }
}

/// Every reference built by a helper has exactly one ref set.
pub proof fn law_helpers_set_exactly_one(id: i64, uid: u128)
    ensures
        (EntryRef { calender_event: Some(id), conversation: None, contact: None, diary: None }).set_count() == 1,
        (EntryRef { calender_event: None, conversation: Some(id), contact: None, diary: None }).set_count() == 1,
        (EntryRef { calender_event: None, conversation: None, contact: Some(uid), diary: None }).set_count() == 1,
        (EntryRef { calender_event: None, conversation: None, contact: None, diary: Some(id) }).set_count() == 1,
        (EntryRef { calender_event: None, conversation: None, contact: None, diary: None }).set_count() == 0,
{
}

/// Update the inherited privacy of an entry's embedding row.
#[derive(Debug, Clone, Copy, PartialEq, Eq, Structural)]
pub struct UpdateEmbeddingPrivacyByRef {
    pub reference: EntryRef,
    pub privacy: PrivacyControlFlag,
}

/// Delete an entry's embedding row.
#[derive(Debug, Clone, Copy, PartialEq, Eq, Structural)]
pub struct DeleteEmbeddingByRef {
    pub reference: EntryRef,
}

} // verus!
