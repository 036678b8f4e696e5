//! Time-specific calendar events.
use vstd::prelude::*;
use super::PrivacyControlFlag;
verus! {

/// A calendar event with a specific start time.
///
/// Used for meetings, appointments, reminders, and other events
/// that occur at a particular moment.
#[derive(Debug, Clone)]
pub struct CalenderEventEntity {
    /// Unique identifier for this event.
    pub id: i64,

    /// ID of the parent [`CalenderEntity`](super::calender::CalenderEntity).
    pub calendar_id: u128,

    /// Event title.
    pub title: String,

    /// Detailed description of the event.
    pub description: String,

    /// Start time of the event (with timezone).
    pub time: i128,

    /// Recurrence pattern for this event.
    pub repeat: CalenderEventRepeat,

    /// End date for recurring events (inclusive).
    pub repeat_until: Option<i32>,

    /// When this event was created.
    pub created_at: i128,

    /// When this event was last modified.
    pub updated_at: i128,

    /// Audience visibility for this event.
    pub privacy: PrivacyControlFlag,
}

/// Recurrence pattern for time-specific events.
#[derive(Debug, Clone, Copy, PartialEq, Eq, Structural)]
pub enum CalenderEventRepeat {
    /// Single occurrence, no repetition.
    NoRepeat,
    /// Repeats at the same time every day.
    EveryDay,
    /// Repeats on the same day and time each month.
    EveryMonth,
    /// Repeats at the same time every weekday.
    EveryWeekday,
}

/// Find a [`CalenderEventEntity`] by its bigserial primary key.
#[derive(Debug, Clone, Copy, PartialEq, Eq, Structural)]
pub struct FindCalenderEventById {
    pub id: i64,
}

/// Insert a new time-specific event into a calendar.
#[derive(Debug, Clone)]
pub struct CreateCalenderEvent {
    pub calendar_id: u128,
    pub title: String,
    pub description: String,
    pub time: i128,
    pub repeat: CalenderEventRepeat,
    pub repeat_until: Option<i32>,
    pub privacy: PrivacyControlFlag,
}

/// Update the mutable fields of a time-specific calendar event.
#[derive(Debug, Clone)]
pub struct UpdateCalenderEvent {
    pub id: i64,
    pub title: String,
    pub description: String,
    pub time: i128,
    pub repeat: CalenderEventRepeat,
    pub repeat_until: Option<i32>,
}

/// Delete a time-specific calendar event by its primary key.
#[derive(Debug, Clone, Copy, PartialEq, Eq, Structural)]
pub struct DeleteCalenderEvent {
    pub id: i64,
}

/// Reassign the [`PrivacyControlFlag`] of a time-specific event.
#[derive(Debug, Clone, Copy, PartialEq, Eq, Structural)]
pub struct UpdateCalenderEventPrivacy {
    pub id: i64,
    pub privacy: PrivacyControlFlag,
}

/// Paginated list of events belonging to a calendar, ordered by time ascending.
#[derive(Debug, Clone, Copy, PartialEq, Eq, Structural)]
pub struct ListCalenderEventsByCalendar {
    pub calendar_id: u128,
    pub limit: i64,
    pub offset: i64,
}

/// Events within a calendar that overlap the given time window.
#[derive(Debug, Clone, Copy)]
pub struct ListCalenderEventsInRange {
    pub calendar_id: u128,
    pub from: i128,
    pub to: i128,
}

} // verus!
