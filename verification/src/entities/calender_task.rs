//! Task management within calendars.
use vstd::prelude::*;
use super::PrivacyControlFlag;
verus! {

/// A task with a deadline, tracked within a calendar.
///
/// Tasks differ from events in that they have a duration window (start to deadline)
/// and progress tracking, rather than occurring at a specific moment.
#[derive(Debug, Clone)]
pub struct CalenderTaskEntity {
    /// Unique identifier for the task.
    pub id: i64,

    /// ID of the parent [`CalenderEntity`](super::calender::CalenderEntity).
    pub calendar_id: u128,

    /// Task title.
    pub title: String,

    /// Detailed description of what needs to be done.
    pub description: String,

    /// When work on the task can begin.
    pub start_at: i128,

    /// When the task must be completed.
    pub deadline: i128,

    /// Current progress state of the task.
    pub status: CalenderTaskStatus,

    /// When the task status was last changed.
    pub status_update_at: i128,

    /// Audience visibility for the task.
    pub privacy: PrivacyControlFlag,
}

/// Progress state of a task.
#[derive(Debug, Clone, Copy, PartialEq, Eq, Structural)]
pub enum CalenderTaskStatus {
    /// Task has not been started.
    Pending,
    /// Task is currently being worked on.
    Doing,
    /// Task has been completed.
    Finished,
}

/// A dependency relationship between two tasks.
///
/// Represents that one task must be completed before another can start.
#[derive(Debug, Clone)]
pub struct CalenderTaskDependencyEntity {
    /// Unique identifier for this dependency.
    pub id: i64,

    /// ID of the task that must complete first.
    pub blocking_task_id: i64,

    /// ID of the task that is waiting on the blocker.
    pub blocked_task_id: i64,
}

/// Find a [`CalenderTaskEntity`] by its bigserial primary key.
#[derive(Debug, Clone, Copy, PartialEq, Eq, Structural)]
pub struct FindCalenderTaskById {
    pub id: i64,
}

/// Find a [`CalenderTaskDependencyEntity`] by its bigserial primary key.
#[derive(Debug, Clone, Copy, PartialEq, Eq, Structural)]
pub struct FindCalenderTaskDependencyById {
    pub id: i64,
}

/// Insert a new task into a calendar.
#[derive(Debug, Clone)]
pub struct CreateCalenderTask {
    pub calendar_id: u128,
    pub title: String,
    pub description: String,
    pub start_at: i128,
    pub deadline: i128,
    pub status: CalenderTaskStatus,
    pub privacy: PrivacyControlFlag,
}

/// Update descriptive fields and time window of a task (not its status).
#[derive(Debug, Clone)]
pub struct UpdateCalenderTask {
    pub id: i64,
    pub title: String,
    pub description: String,
    pub start_at: i128,
    pub deadline: i128,
}

/// Transition a task's status and stamp `status_update_at`.
#[derive(Debug, Clone, Copy, PartialEq, Eq, Structural)]
pub struct UpdateCalenderTaskStatus {
    pub id: i64,
    pub status: CalenderTaskStatus,
}

/// Delete a task by its primary key (cascades dependency rows).
#[derive(Debug, Clone, Copy, PartialEq, Eq, Structural)]
pub struct DeleteCalenderTask {
    pub id: i64,
}

/// Paginated list of tasks for a calendar, optionally filtered by status, ordered by deadline.
#[derive(Debug, Clone, Copy)]
pub struct ListCalenderTasksByCalendar {
    pub calendar_id: u128,
    pub status: Option<CalenderTaskStatus>,
    pub limit: i64,
    pub offset: i64,
}

/// Reassign the [`PrivacyControlFlag`] of a task.
#[derive(Debug, Clone, Copy, PartialEq, Eq, Structural)]
pub struct UpdateCalenderTaskPrivacy {
    pub id: i64,
    pub privacy: PrivacyControlFlag,
}

/// Add a blocking dependency between two tasks.
#[derive(Debug, Clone, Copy, PartialEq, Eq, Structural)]
pub struct CreateCalenderTaskDependency {
    pub blocking_task_id: i64,
    pub blocked_task_id: i64,
}

/// Remove a task dependency by its primary key.
#[derive(Debug, Clone, Copy, PartialEq, Eq, Structural)]
pub struct DeleteCalenderTaskDependency {
    pub id: i64,
}

/// All dependencies where the given task is the blocked (downstream) one.
#[derive(Debug, Clone, Copy, PartialEq, Eq, Structural)]
pub struct ListCalenderTaskDependenciesByBlocked {
    pub blocked_task_id: i64,
}

} // verus!
