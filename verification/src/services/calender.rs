//! Calendar service — CRUD for calendars, events, all-day events, tasks, and task dependencies.
use vstd::prelude::*;
use crate::services::{check_text, index_text, is_blank_text, text_rule, two_line_text, ServiceError};
use crate::entities::calender_event::CalenderEventRepeat;
use crate::entities::calender_task::CalenderTaskStatus;
use crate::entities::calender_daily_event::DailyEventRepeat;
use crate::entities::PrivacyControlFlag;

verus! {

/// Announce that a calendar event changed so the retrieval index (re)embeds
/// it under [`event_index_text`].
#[derive(Debug, Clone, Copy, PartialEq, Eq, Structural)]
pub struct PublishCalenderEventUpsertRequest {
    pub id: i64,
}

/// Create a new calendar. A fresh `Uuid` is generated automatically.
#[derive(Debug, Clone)]
pub struct CreateCalenderRequest {
    pub name: String,
    pub description: String,
    pub scopes: Vec<String>,
}

/// Retrieve a calendar by its UUID.
#[derive(Debug, Clone, Copy, PartialEq, Eq, Structural)]
pub struct FindCalenderRequest {
    pub id: u128,
}

/// Update the name, description, and scopes of an existing calendar.
#[derive(Debug, Clone)]
pub struct UpdateCalenderRequest {
    pub id: u128,
    pub name: String,
    pub description: String,
    pub scopes: Vec<String>,
}

/// Delete a calendar (cascades to all child entities).
#[derive(Debug, Clone, Copy, PartialEq, Eq, Structural)]
pub struct DeleteCalenderRequest {
    pub id: u128,
}

/// Paginated list of calendars (newest first).
#[derive(Debug, Clone, Copy, PartialEq, Eq, Structural)]
pub struct ListCalendersRequest {
    pub limit: i64,
    pub offset: i64,
}

/// Create a new time-specific event in a calendar.
#[derive(Debug, Clone)]
pub struct CreateCalenderEventRequest {
    pub calendar_id: u128,
    pub title: String,
    pub description: String,
    pub time: i128,
    pub repeat: CalenderEventRepeat,
    pub repeat_until: Option<i32>,
    pub privacy: PrivacyControlFlag,
}

/// Retrieve a time-specific event by its id.
#[derive(Debug, Clone, Copy, PartialEq, Eq, Structural)]
pub struct FindCalenderEventRequest {
    pub id: i64,
}

/// Update the details of a time-specific event.
#[derive(Debug, Clone)]
pub struct UpdateCalenderEventRequest {
    pub id: i64,
    pub title: String,
    pub description: String,
    pub time: i128,
    pub repeat: CalenderEventRepeat,
    pub repeat_until: Option<i32>,
}

/// Delete a time-specific event.
#[derive(Debug, Clone, Copy, PartialEq, Eq, Structural)]
pub struct DeleteCalenderEventRequest {
    pub id: i64,
}

/// Reassign the [`PrivacyControlFlag`] of a time-specific event.
#[derive(Debug, Clone, Copy, PartialEq, Eq, Structural)]
pub struct UpdateCalenderEventPrivacyRequest {
    pub id: i64,
    pub privacy: PrivacyControlFlag,
}

/// All time-specific events in a calendar that fall within a time window.
#[derive(Debug, Clone, Copy)]
pub struct ListEventsInRangeRequest {
    pub calendar_id: u128,
    pub from: i128,
    pub to: i128,
}

/// Paginated list of events for a calendar ordered by time ascending.
#[derive(Debug, Clone, Copy, PartialEq, Eq, Structural)]
pub struct ListCalenderEventsRequest {
    pub calendar_id: u128,
    pub limit: i64,
    pub offset: i64,
}

/// Create a new all-day event in a calendar.
#[derive(Debug, Clone)]
pub struct CreateDailyEventRequest {
    pub calendar_id: u128,
    pub title: String,
    pub description: String,
    pub date: i32,
    pub repeat: DailyEventRepeat,
    pub repeat_until: Option<i32>,
    pub privacy: PrivacyControlFlag,
}

/// Retrieve an all-day event by its id.
#[derive(Debug, Clone, Copy, PartialEq, Eq, Structural)]
pub struct FindDailyEventRequest {
    pub id: i64,
}

/// Update the details of an all-day event.
#[derive(Debug, Clone)]
pub struct UpdateDailyEventRequest {
    pub id: i64,
    pub title: String,
    pub description: String,
    pub date: i32,
    pub repeat: DailyEventRepeat,
    pub repeat_until: Option<i32>,
}

/// Delete an all-day event.
#[derive(Debug, Clone, Copy, PartialEq, Eq, Structural)]
pub struct DeleteDailyEventRequest {
    pub id: i64,
}

/// Reassign the [`PrivacyControlFlag`] of an all-day event.
#[derive(Debug, Clone, Copy, PartialEq, Eq, Structural)]
pub struct UpdateDailyEventPrivacyRequest {
    pub id: i64,
    pub privacy: PrivacyControlFlag,
}

/// All-day events in a calendar that fall within a date range (inclusive).
#[derive(Debug, Clone, Copy, PartialEq, Eq, Structural)]
pub struct ListDailyEventsInRangeRequest {
    pub calendar_id: u128,
    pub from: i32,
    pub to: i32,
}

/// Create a new task in a calendar.
#[derive(Debug, Clone)]
pub struct CreateTaskRequest {
    pub calendar_id: u128,
    pub title: String,
    pub description: String,
    pub start_at: i128,
    pub deadline: i128,
    pub status: CalenderTaskStatus,
    pub privacy: PrivacyControlFlag,
}

/// Retrieve a task by its id.
#[derive(Debug, Clone, Copy, PartialEq, Eq, Structural)]
pub struct FindTaskRequest {
    pub id: i64,
}

/// Update the descriptive fields and time window of a task.
#[derive(Debug, Clone)]
pub struct UpdateTaskRequest {
    pub id: i64,
    pub title: String,
    pub description: String,
    pub start_at: i128,
    pub deadline: i128,
}

/// Transition a task to a new status.
#[derive(Debug, Clone, Copy, PartialEq, Eq, Structural)]
pub struct UpdateTaskStatusRequest {
    pub id: i64,
    pub status: CalenderTaskStatus,
}

/// Reassign the [`PrivacyControlFlag`] of a task.
#[derive(Debug, Clone, Copy, PartialEq, Eq, Structural)]
pub struct UpdateTaskPrivacyRequest {
    pub id: i64,
    pub privacy: PrivacyControlFlag,
}

/// Delete a task.
#[derive(Debug, Clone, Copy, PartialEq, Eq, Structural)]
pub struct DeleteTaskRequest {
    pub id: i64,
}

/// Paginated list of tasks for a calendar, optionally filtered by status.
#[derive(Debug, Clone, Copy)]
pub struct ListTasksByCalendarRequest {
    pub calendar_id: u128,
    pub status: Option<CalenderTaskStatus>,
    pub limit: i64,
    pub offset: i64,
}

/// Record that `blocking_task_id` must finish before `blocked_task_id` can start.
#[derive(Debug, Clone, Copy, PartialEq, Eq, Structural)]
pub struct AddTaskDependencyRequest {
    pub blocking_task_id: i64,
    pub blocked_task_id: i64,
}

/// Remove a task dependency by its primary key.
#[derive(Debug, Clone, Copy, PartialEq, Eq, Structural)]
pub struct RemoveTaskDependencyRequest {
    pub id: i64,
}

/// All dependencies where the given task is downstream (blocked by other tasks).
#[derive(Debug, Clone, Copy, PartialEq, Eq, Structural)]
pub struct ListTaskBlockersRequest {
    pub blocked_task_id: i64,
}

impl CreateCalenderRequest {
    /// A calendar needs a name that is not blank.
    pub fn validate(&self) -> (r: Result<(), ServiceError>)
        ensures
            r == text_rule(self.name@),
    {
        check_text(&self.name)
    }
}

impl UpdateCalenderRequest {
    /// A calendar needs a name that is not blank.
    pub fn validate(&self) -> (r: Result<(), ServiceError>)
        ensures
            r == text_rule(self.name@),
    {
        check_text(&self.name)
    }
}

impl CreateCalenderEventRequest {
    /// An event needs a title that is not blank.
    pub fn validate(&self) -> (r: Result<(), ServiceError>)
        ensures
            r == text_rule(self.title@),
    {
        check_text(&self.title)
    }
}

impl UpdateCalenderEventRequest {
    /// An event needs a title that is not blank.
    pub fn validate(&self) -> (r: Result<(), ServiceError>)
        ensures
            r == text_rule(self.title@),
    {
        check_text(&self.title)
    }
}

impl CreateDailyEventRequest {
    /// An all-day event needs a title that is not blank.
    pub fn validate(&self) -> (r: Result<(), ServiceError>)
        ensures
            r == text_rule(self.title@),
    {
        check_text(&self.title)
    }
}

impl UpdateDailyEventRequest {
    /// An all-day event needs a title that is not blank.
    pub fn validate(&self) -> (r: Result<(), ServiceError>)
        ensures
            r == text_rule(self.title@),
    {
        check_text(&self.title)
    }
}

/// The rule for a task: a title that is not blank, then a deadline no earlier
/// than the start.
pub open spec fn task_rule(title: Seq<char>, start_at: i128, deadline: i128) -> Result<(), ServiceError> {
    if is_blank_text(title) || deadline < start_at {
        Err(ServiceError::InvalidInput)
    } else {
        Ok(())
    }
}

impl CreateTaskRequest {
    /// A task needs a title that is not blank and a deadline no earlier than
    /// its start.
    pub fn validate(&self) -> (r: Result<(), ServiceError>)
        ensures
            r == task_rule(self.title@, self.start_at, self.deadline),
    {
        check_text(&self.title)?;
        if self.deadline < self.start_at {
            return Err(ServiceError::InvalidInput);
        }
        Ok(())
    }
}

impl UpdateTaskRequest {
    /// A task needs a title that is not blank and a deadline no earlier than
    /// its start.
    pub fn validate(&self) -> (r: Result<(), ServiceError>)
        ensures
            r == task_rule(self.title@, self.start_at, self.deadline),
    {
        check_text(&self.title)?;
        if self.deadline < self.start_at {
            return Err(ServiceError::InvalidInput);
        }
        Ok(())
    }
}

impl AddTaskDependencyRequest {
    /// A task cannot block itself.
    pub fn validate(&self) -> (r: Result<(), ServiceError>)
        ensures
            r == (if self.blocking_task_id == self.blocked_task_id {
                Err(ServiceError::InvalidInput)
            } else {
                Ok::<(), ServiceError>(())
            }),
    {
        if self.blocking_task_id == self.blocked_task_id {
            return Err(ServiceError::InvalidInput);
        }
        Ok(())
    }
}

/// The text a calendar event is indexed under: its title, a line break, and its
/// description.
pub fn event_index_text(title: &String, description: &String) -> (r: String)
    ensures
        r@ == two_line_text(title@, description@),
{
    index_text(title.as_str(), description.as_str())
}

} // verus!
