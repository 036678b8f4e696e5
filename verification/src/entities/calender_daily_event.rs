//! All-day calendar events without specific times.
use vstd::prelude::*;
use super::PrivacyControlFlag;
verus! {

/// An all-day event that spans an entire date (no specific time).
///
/// Used for holidays, birthdays, deadlines, and other date-based
/// events that don't have a specific start/end time.
#[derive(Debug, Clone)]
pub struct CalenderDailyEventEntity {
    /// Unique identifier for this event.
    pub id: i64,

    /// ID of the parent [`CalenderEntity`](super::calender::CalenderEntity).
    pub calendar_id: u128,

    /// Event title.
    pub title: String,

    /// Detailed description of the event.
    pub description: String,

    /// The date of this event (or first occurrence if repeating).
    pub date: i32,

    /// Recurrence pattern for this event.
    pub repeat: DailyEventRepeat,

    /// End date for recurring events (inclusive).
    pub repeat_until: Option<i32>,

    /// When this event was created.
    pub created: i128,

    /// When this event was last modified.
    pub updated: i128,

    /// Audience visibility for this event.
    pub privacy: PrivacyControlFlag,
}

/// Recurrence pattern for all-day events.
#[derive(Debug, Clone, Copy, PartialEq, Eq, Structural)]
pub enum DailyEventRepeat {
    /// Single occurrence, no repetition.
    NoRepeat,
    /// Repeats on the same day each month.
    EveryMonth,
    /// Repeats on the same date each year (e.g., birthdays).
    EveryYear,
    /// Repeats every weekday (Monday through Friday).
    EveryWeekday,
}

/// Find a [`CalenderDailyEventEntity`] by its bigserial primary key.
#[derive(Debug, Clone, Copy, PartialEq, Eq, Structural)]
pub struct FindCalenderDailyEventById {
    pub id: i64,
}

/// Insert a new all-day event into a calendar.
#[derive(Debug, Clone)]
pub struct CreateCalenderDailyEvent {
    pub calendar_id: u128,
    pub title: String,
    pub description: String,
    pub date: i32,
    pub repeat: DailyEventRepeat,
    pub repeat_until: Option<i32>,
    pub privacy: PrivacyControlFlag,
}

/// Update the mutable fields of an all-day calendar event.
#[derive(Debug, Clone)]
pub struct UpdateCalenderDailyEvent {
    pub id: i64,
    pub title: String,
    pub description: String,
    pub date: i32,
    pub repeat: DailyEventRepeat,
    pub repeat_until: Option<i32>,
}

/// Delete an all-day calendar event by its primary key.
#[derive(Debug, Clone, Copy, PartialEq, Eq, Structural)]
pub struct DeleteCalenderDailyEvent {
    pub id: i64,
}

/// Reassign the [`PrivacyControlFlag`] of an all-day event.
#[derive(Debug, Clone, Copy, PartialEq, Eq, Structural)]
pub struct UpdateCalenderDailyEventPrivacy {
    pub id: i64,
    pub privacy: PrivacyControlFlag,
}

/// All-day events within a calendar that fall within the given date range (inclusive).
#[derive(Debug, Clone, Copy, PartialEq, Eq, Structural)]
pub struct ListCalenderDailyEventsInRange {
    pub calendar_id: u128,
    pub from: i32,
    pub to: i32,
}

} // verus!
