use vstd::prelude::*;

use crate::clock::{secs_to_i64, system_secs_since_epoch};

verus! {

/// Which tasks a listing shows.
#[derive(Clone, Copy, Debug, PartialEq, Eq, Structural)]
pub enum ShowFilter {
    Incomplete,
    Completed,
    All,
}

/// A task as the queue stores it.
#[derive(Debug)]
pub struct Task {
    pub id: i64,
    pub project_id: Option<i64>,
    pub title: String,
    pub done: bool,
    pub detail: String,
    pub priority: i64,
    pub created_at: i64,
    pub updated_at: i64,
}

/// The mathematical value of a task: its text fields as character sequences.
pub struct TaskView {
    pub id: i64,
    pub project_id: Option<i64>,
    pub title: Seq<char>,
    pub done: bool,
    pub detail: Seq<char>,
    pub priority: i64,
    pub created_at: i64,
    pub updated_at: i64,
}

impl View for Task {
    type V = TaskView;

    open spec fn view(&self) -> TaskView {
        TaskView {
            id: self.id,
            project_id: self.project_id,
            title: self.title@,
            done: self.done,
            detail: self.detail@,
            priority: self.priority,
            created_at: self.created_at,
            updated_at: self.updated_at,
        }
    }
}

impl Task {
    /// A fresh, unsaved task: id 0, no project, not done, empty detail,
    /// priority 0, both timestamps set to the current time in seconds
    /// (0 when the clock reads before the Unix epoch).
    pub fn new(title: &str) -> (task: Task)
        ensures
            task.id == 0,
            task.project_id is None,
            task.title@ == title@,
            !task.done,
            task.detail@ == Seq::<char>::empty(),
            task.priority == 0,
            task.created_at == task.updated_at,
    {
        let now: i64 = match system_secs_since_epoch() {
            Some(secs) => secs_to_i64(secs),
            None => 0,
        };
        Task {
            id: 0,
            project_id: None,
            title: title.to_owned(),
            done: false,
            detail: String::new(),
            priority: 0,
            created_at: now,
            updated_at: now,
        }
    }

    /// A copy of the task with every field equal.
    pub fn clone_task(&self) -> (copy: Task)
        ensures
            copy@ == self@,
    {
        Task {
            id: self.id,
            project_id: self.project_id,
            title: self.title.clone(),
            done: self.done,
            detail: self.detail.clone(),
            priority: self.priority,
            created_at: self.created_at,
            updated_at: self.updated_at,
        }
    }
}

} // verus!
