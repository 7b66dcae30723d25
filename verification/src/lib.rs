//! A local task queue: tasks ordered by priority, then newest first; soft
//! deletion; tasks pushed from a directory grouped into that directory's
//! project. The queue itself is a value (`TaskStore`); reading it from and
//! writing it to storage is left to the caller.

pub mod args;
pub mod cli;
mod clock;
pub mod editor;
pub mod error;
pub mod laws;
pub mod models;
pub mod order;
pub mod schema;
pub mod store;
pub mod tables;
pub mod text;
pub mod ui;

pub use args::{Cli, CliError, Command};
pub use cli::{dispatch_to, finish_edit, format_task_line, Outcome};
pub use clock::unix_now;
pub use editor::editor_command;
pub use error::TaskError;
pub use models::{ShowFilter, Task, TaskView};
pub use schema::{schema_migrations, Migration};
pub use store::TaskStore;
pub use tables::{LoadError, Project, TaskRow};
pub use ui::{reselect, task_label, ui_step, Key, UiAction};
