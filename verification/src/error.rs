use vstd::prelude::*;

use crate::text::{decimal, i64_to_decimal};

verus! {

/// Why an operation on the task queue was refused.
#[derive(Debug, Clone, Copy, PartialEq, Eq, Structural)]
pub enum TaskError {
    /// No task with this id that has not been deleted.
    NotFound(i64),
    /// The system clock reads before the Unix epoch.
    ClockBeforeEpoch,
    /// Every id of a table has been handed out.
    StorageFull,
}

/// The message of an error, as the user sees it.
pub open spec fn error_message(e: TaskError) -> Seq<char> {
    match e {
        TaskError::NotFound(id) => "task with id "@ + decimal(id as int) + " not found"@,
        TaskError::ClockBeforeEpoch => "system clock is before unix epoch"@,
        TaskError::StorageFull => "database or disk is full"@,
    }
}

impl TaskError {
    /// The message of the error.
    pub fn message(&self) -> (s: String)
        ensures
            s@ == error_message(*self),
    {
        match self {
            TaskError::NotFound(id) => {
                let digits = i64_to_decimal(*id);
                String::from_str("task with id ").concat(digits.as_str()).concat(" not found")
            },
            TaskError::ClockBeforeEpoch => String::from_str("system clock is before unix epoch"),
            TaskError::StorageFull => String::from_str("database or disk is full"),
        }
    }
}

} // verus!
