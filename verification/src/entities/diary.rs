//! Daily journal entries for long-term memory.
use vstd::prelude::*;
use super::PrivacyControlFlag;
verus! {

/// A daily diary entry summarizing events and reflections.
///
/// Diaries provide a high-level record of each day, helping Isla maintain
/// continuity and recall past events without loading full conversation histories.
#[derive(Debug, Clone)]
pub struct DiaryEntity {
    /// Unique identifier for this diary entry.
    pub id: i64,

    /// Title or headline for this day's entry.
    pub title: String,

    /// The date this entry covers.
    pub date: i32,

    /// Brief summary of the day's events.
    pub summary: String,

    /// Full diary content with reflections and details.
    pub content: String,

    /// When this entry was first written.
    pub created_at: i128,

    /// When this entry was last edited.
    pub updated_at: i128,

    /// Audience visibility for this entry; gates whether the agent may
    /// surface it as context to a given peer.
    pub privacy: PrivacyControlFlag,
}

/// Find a [`DiaryEntity`] by its bigserial primary key.
#[derive(Debug, Clone, Copy, PartialEq, Eq, Structural)]
pub struct FindDiaryById {
    pub id: i64,
}

/// Look up the diary entry for a specific date (the `date` column is UNIQUE).
#[derive(Debug, Clone, Copy, PartialEq, Eq, Structural)]
pub struct FindDiaryByDate {
    pub date: i32,
}

/// Insert a new diary entry.
#[derive(Debug, Clone)]
pub struct CreateDiary {
    pub title: String,
    pub date: i32,
    pub summary: String,
    pub content: String,
    pub privacy: PrivacyControlFlag,
}

/// Update the text content of an existing diary entry.
#[derive(Debug, Clone)]
pub struct UpdateDiary {
    pub id: i64,
    pub title: String,
    pub summary: String,
    pub content: String,
}

/// Delete a diary entry by its primary key.
#[derive(Debug, Clone, Copy, PartialEq, Eq, Structural)]
pub struct DeleteDiary {
    pub id: i64,
}

/// Reassign the [`PrivacyControlFlag`] of a diary entry.
#[derive(Debug, Clone, Copy, PartialEq, Eq, Structural)]
pub struct UpdateDiaryPrivacy {
    pub id: i64,
    pub privacy: PrivacyControlFlag,
}

/// Paginated list of diary entries ordered by date descending (most recent first).
#[derive(Debug, Clone, Copy, PartialEq, Eq, Structural)]
pub struct ListDiaries {
    pub limit: i64,
    pub offset: i64,
}

} // verus!
