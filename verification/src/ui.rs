//! The decisions of the interactive list: what a key does to the selection
//! and which task it acts on.

use vstd::prelude::*;

use crate::models::{Task, TaskView};
use crate::tables::task_views;
use crate::text::{decimal, i64_to_decimal};

verus! {

/// A key press, as far as the list cares.
#[derive(Debug, Clone, Copy, PartialEq, Eq, Structural)]
pub enum Key {
    Char(char),
    Down,
    Up,
    Enter,
    Other,
}

/// What the list asks of its caller after a key.
#[derive(Debug, Clone, Copy, PartialEq, Eq, Structural)]
pub enum UiAction {
    /// Leave the list.
    Quit,
    /// Draw the list again with the new selection.
    Redraw,
    /// Flip the completion of the task with this id; the list is read again.
    Toggle(i64),
    /// Edit the detail of the task with this id; the list is read again.
    Edit(i64),
}

/// A selection that fits a list of `len` tasks: on a task, or 0 when the
/// list is empty.
pub open spec fn valid_selection(selected: nat, len: nat) -> bool {
    &&& len == 0 ==> selected == 0
    &&& len > 0 ==> selected < len
}

/// The selection and the action after a key, on a list of tasks: `q`
/// quits; `j` and Down move down, stopping at the last task; `k` and Up move
/// up, stopping at the first; Space toggles and Enter edits the selected task.
pub open spec fn step(selected: nat, tasks: Seq<TaskView>, key: Key) -> (nat, UiAction) {
    let len = tasks.len();
    match key {
        Key::Char('q') => (selected, UiAction::Quit),
        Key::Char('j') | Key::Down => {
            if len > 0 {
                (if selected + 1 < len - 1 { selected + 1 } else { (len - 1) as nat }, UiAction::Redraw)
            } else {
                (selected, UiAction::Redraw)
            }
        },
        Key::Char('k') | Key::Up => (if selected > 0 { (selected - 1) as nat } else { 0 }, UiAction::Redraw),
        Key::Char(' ') => if selected < len {
            (selected, UiAction::Toggle(tasks[selected as int].id))
        } else {
            (selected, UiAction::Redraw)
        },
        Key::Enter => if selected < len {
            (selected, UiAction::Edit(tasks[selected as int].id))
        } else {
            (selected, UiAction::Redraw)
        },
        _ => (selected, UiAction::Redraw),
    }
}

/// The selection after the list was reloaded with `len` tasks: kept when it
/// still fits, moved to the last task otherwise, 0 on an empty list.
pub open spec fn reselected(selected: nat, len: nat) -> nat {
    if len == 0 {
        0
    } else if selected >= len {
        (len - 1) as nat
    } else {
        selected
    }
}

/// The selection and the action after a key.
pub fn ui_step(selected: usize, tasks: &Vec<Task>, key: Key) -> (r: (usize, UiAction))
    ensures
        (r.0 as nat, r.1) == step(selected as nat, task_views(tasks@), key),
        key == Key::Down || key == Key::Char('j') ==> r.1 == UiAction::Redraw && (
            if selected + 1 < tasks@.len() { r.0 == selected + 1 }
            else if tasks@.len() > 0 { r.0 == tasks@.len() - 1 }
            else { r.0 == selected }),
        key == Key::Up || key == Key::Char('k') ==> r.1 == UiAction::Redraw && r.0 == if selected > 0 {
            selected - 1
        } else {
            0
        },
{
    proof { law_keys(selected as nat, task_views(tasks@), 'q'); }
    let len = tasks.len();
    match key {
        Key::Char('q') => (selected, UiAction::Quit),
        Key::Char('j') | Key::Down => {
            if len > 0 {
                if len >= 2 && selected < len - 2 {
                    (selected + 1, UiAction::Redraw)
                } else {
                    (len - 1, UiAction::Redraw)
                }
            } else {
                (selected, UiAction::Redraw)
            }
        },
        Key::Char('k') | Key::Up => {
            if selected > 0 {
                (selected - 1, UiAction::Redraw)
            } else {
                (0, UiAction::Redraw)
            }
        },
        Key::Char(' ') => {
            if selected < len {
                (selected, UiAction::Toggle(tasks[selected].id))
            } else {
                (selected, UiAction::Redraw)
            }
        },
        Key::Enter => {
            if selected < len {
                (selected, UiAction::Edit(tasks[selected].id))
            } else {
                (selected, UiAction::Redraw)
            }
        },
        _ => (selected, UiAction::Redraw),
    }
}

/// The selection after the list was reloaded with `len` tasks.
pub fn reselect(selected: usize, len: usize) -> (r: usize)
    ensures
        r as nat == reselected(selected as nat, len as nat),
{
    if len == 0 {
        0
    } else if selected >= len {
        len - 1
    } else {
        selected
    }
}

/// Every key keeps a fitting selection fitting, and a reload makes any
/// selection fit.
pub proof fn law_selection_stays_in_list(selected: nat, tasks: Seq<TaskView>, key: Key, len: nat)
    ensures
        valid_selection(selected, tasks.len()) ==> valid_selection(step(selected, tasks, key).0, tasks.len()),
        valid_selection(reselected(selected, len), len),
{
}

/// The label of a task in the list: `[x]` when done and `[ ]` when not,
/// the priority as `P<n>` when above 0, the id with a dot, then the title.
pub open spec fn ui_label(t: TaskView) -> Seq<char> {
    let status = if t.done { "[x]"@ } else { "[ ]"@ };
    if t.priority > 0 {
        status + " P"@ + decimal(t.priority as int) + " "@ + decimal(t.id as int) + ". "@ + t.title
    } else {
        status + " "@ + decimal(t.id as int) + ". "@ + t.title
    }
}

/// The label of a task in the list.
pub fn task_label(task: &Task) -> (label: String)
    ensures
        label@ == ui_label(task@),
{
    let status = if task.done { String::from_str("[x]") } else { String::from_str("[ ]") };
    let id = i64_to_decimal(task.id);
    if task.priority > 0 {
        let priority = i64_to_decimal(task.priority);
        status.concat(" P").concat(priority.as_str()).concat(" ").concat(id.as_str()).concat(". ").concat(
            task.title.as_str(),
        )
    } else {
        status.concat(" ").concat(id.as_str()).concat(". ").concat(task.title.as_str())
    }
}

/// What each key does, over any selection and list: Down and `j` move one
/// row down but not past the last row; Up and `k` move one row up but not
/// above the first; Space and Enter act on the selected task without moving;
/// `q` quits; every other key only redraws.
pub proof fn law_keys(selected: nat, tasks: Seq<TaskView>, c: char)
    ensures
        step(selected, tasks, Key::Down) == step(selected, tasks, Key::Char('j')),
        step(selected, tasks, Key::Up) == step(selected, tasks, Key::Char('k')),
        step(selected, tasks, Key::Down).1 == UiAction::Redraw,
        step(selected, tasks, Key::Up).1 == UiAction::Redraw,
        selected + 1 < tasks.len() ==> step(selected, tasks, Key::Down).0 == selected + 1,
        tasks.len() > 0 && selected + 1 >= tasks.len() ==> step(selected, tasks, Key::Down).0 == tasks.len() - 1,
        tasks.len() == 0 ==> step(selected, tasks, Key::Down).0 == selected,
        selected > 0 ==> step(selected, tasks, Key::Up).0 == selected - 1,
        selected == 0 ==> step(selected, tasks, Key::Up).0 == 0,
        selected < tasks.len() ==> step(selected, tasks, Key::Char(' ')) == (selected, UiAction::Toggle(tasks[selected as int].id)),
        selected < tasks.len() ==> step(selected, tasks, Key::Enter) == (selected, UiAction::Edit(tasks[selected as int].id)),
        selected >= tasks.len() ==> step(selected, tasks, Key::Char(' ')) == (selected, UiAction::Redraw),
        selected >= tasks.len() ==> step(selected, tasks, Key::Enter) == (selected, UiAction::Redraw),
        step(selected, tasks, Key::Char('q')) == (selected, UiAction::Quit),
        c != 'q' && c != 'j' && c != 'k' && c != ' ' ==> step(selected, tasks, Key::Char(c)) == (selected, UiAction::Redraw),
        step(selected, tasks, Key::Other) == (selected, UiAction::Redraw),
{
}

} // verus!
