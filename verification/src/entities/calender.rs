//! Calendar containers for organizing events and tasks.
use vstd::prelude::*;
verus! {

/// A calendar that groups related events and tasks.
///
/// Calendars provide organizational structure and access control for
/// scheduling data. Multiple calendars can coexist (e.g., work, personal).
#[derive(Debug, Clone)]
pub struct CalenderEntity {
    /// Unique identifier for this calendar.
    pub id: u128,

    /// Display name for this calendar.
    pub name: String,

    /// Description of the calendar's purpose.
    pub description: String,

    /// When this calendar was created.
    pub created_at: i128,

    /// Permission scopes that can access this calendar.
    pub scopes: Vec<String>,
}

/// Find a [`CalenderEntity`] by its UUID primary key.
#[derive(Debug, Clone, Copy, PartialEq, Eq, Structural)]
pub struct FindCalenderById {
    pub id: u128,
}

/// Insert a new calendar. The caller supplies the `id` (typically `Uuid::new_v4()`).
#[derive(Debug, Clone)]
pub struct CreateCalender {
    pub id: u128,
    pub name: String,
    pub description: String,
    pub scopes: Vec<String>,
}

/// Update the mutable fields of an existing calendar.
#[derive(Debug, Clone)]
pub struct UpdateCalender {
    pub id: u128,
    pub name: String,
    pub description: String,
    pub scopes: Vec<String>,
}

/// Delete a calendar by its UUID (cascades to all events and tasks).
#[derive(Debug, Clone, Copy, PartialEq, Eq, Structural)]
pub struct DeleteCalender {
    pub id: u128,
}

/// Paginated list of all calendars ordered by creation time (newest first).
#[derive(Debug, Clone, Copy, PartialEq, Eq, Structural)]
pub struct ListCalenders {
    pub limit: i64,
    pub offset: i64,
}

} // verus!
