//! Diary service — CRUD for daily journal entries.
use vstd::prelude::*;
use crate::services::{check_text, text_rule, ServiceError};
use crate::entities::PrivacyControlFlag;

verus! {

/// Create a new diary entry for `date`. Fails if `title` is blank.
#[derive(Debug, Clone)]
pub struct CreateDiaryRequest {
    pub title: String,
    pub date: i32,
    pub summary: String,
    pub content: String,
    /// Audience visibility; pass [`PrivacyControlFlag::default`] for the
    /// `Protected` default if no explicit choice is needed.
    pub privacy: PrivacyControlFlag,
}

/// Retrieve a diary entry by its primary key.
#[derive(Debug, Clone, Copy, PartialEq, Eq, Structural)]
pub struct FindDiaryRequest {
    pub id: i64,
}

/// Retrieve the diary entry for a specific date.
#[derive(Debug, Clone, Copy, PartialEq, Eq, Structural)]
pub struct FindDiaryByDateRequest {
    pub date: i32,
}

/// Update the text content of an existing diary entry. Fails if `title` is blank.
#[derive(Debug, Clone)]
pub struct UpdateDiaryRequest {
    pub id: i64,
    pub title: String,
    pub summary: String,
    pub content: String,
}

/// Reassign the [`PrivacyControlFlag`] of a diary entry.
#[derive(Debug, Clone, Copy, PartialEq, Eq, Structural)]
pub struct UpdateDiaryPrivacyRequest {
    pub id: i64,
    pub privacy: PrivacyControlFlag,
}

/// Delete a diary entry by its primary key.
#[derive(Debug, Clone, Copy, PartialEq, Eq, Structural)]
pub struct DeleteDiaryRequest {
    pub id: i64,
}

/// Paginated list of diary entries ordered by date (most recent first).
#[derive(Debug, Clone, Copy, PartialEq, Eq, Structural)]
pub struct ListDiariesRequest {
    pub limit: i64,
    pub offset: i64,
}

impl CreateDiaryRequest {
    /// A diary entry needs a title that is not blank.
    pub fn validate(&self) -> (r: Result<(), ServiceError>)
        ensures
            r == text_rule(self.title@),
    {
        check_text(&self.title)
    }
}

impl UpdateDiaryRequest {
    /// A diary entry needs a title that is not blank.
    pub fn validate(&self) -> (r: Result<(), ServiceError>)
        ensures
            r == text_rule(self.title@),
    {
        check_text(&self.title)
    }
}

} // verus!
