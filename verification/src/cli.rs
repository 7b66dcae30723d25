//! What each command does to the queue and what it prints.

use vstd::prelude::*;

use crate::args::{Command, CommandView};
use crate::error::TaskError;
use crate::models::{Task, TaskView};
use crate::store::TaskStore;
use crate::tables::{path_view, task_views, StoreView};
use crate::text::{decimal, i64_to_decimal, nat_digits, u64_to_decimal};

verus! {

/// The line that shows a task: a check mark when it is done and a cross
/// when it is not, the priority as `P<n>` when it is above 0, then the title.
pub open spec fn task_line(t: TaskView) -> Seq<char> {
    let status = if t.done { "✅"@ } else { "❌"@ };
    if t.priority > 0 {
        status + " P"@ + decimal(t.priority as int) + " "@ + t.title
    } else {
        status + " "@ + t.title
    }
}

/// The lines that show a task with its detail: the task line, then the
/// detail when it is not empty.
pub open spec fn task_with_detail_lines(t: TaskView) -> Seq<Seq<char>> {
    if t.detail.len() > 0 {
        seq![task_line(t), t.detail]
    } else {
        seq![task_line(t)]
    }
}

/// The lines of an optional task with its detail.
pub open spec fn maybe_task_lines(t: Option<TaskView>) -> Seq<Seq<char>> {
    match t {
        Some(t) => task_with_detail_lines(t),
        None => Seq::empty(),
    }
}

/// A line that names a task by id between two fixed texts.
pub open spec fn id_line(prefix: Seq<char>, id: i64, suffix: Seq<char>) -> Seq<char> {
    prefix + decimal(id as int) + suffix
}

/// The line printed after adding a task.
pub open spec fn added_line(t: TaskView) -> Seq<char> {
    id_line("Added task #"@, t.id, ": "@) + t.title
}

/// The line printed after a clear.
pub open spec fn cleared_line(count: nat) -> Seq<char> {
    "Cleared "@ + nat_digits(count) + " task(s)"@
}

/// The line that shows a task.
pub fn format_task_line(task: &Task) -> (line: String)
    ensures
        line@ == task_line(task@),
{
    let status = if task.done { String::from_str("✅") } else { String::from_str("❌") };
    if task.priority > 0 {
        let digits = i64_to_decimal(task.priority);
        status.concat(" P").concat(digits.as_str()).concat(" ").concat(task.title.as_str())
    } else {
        status.concat(" ").concat(task.title.as_str())
    }
}

/// A line that names a task by id between two fixed texts.
fn id_message(prefix: &str, id: i64, suffix: &str) -> (line: String)
    ensures
        line@ == id_line(prefix@, id, suffix@),
{
    let digits = i64_to_decimal(id);
    String::from_str(prefix).concat(digits.as_str()).concat(suffix)
}

/// The lines that show a task with its detail.
fn task_with_detail(task: &Task) -> (lines: Vec<String>)
    ensures
        text_lines(lines@) == task_with_detail_lines(task@),
{
    let mut lines: Vec<String> = Vec::new();
    lines.push(format_task_line(task));
    if task.detail.as_str().unicode_len() > 0 {
        lines.push(task.detail.clone());
    }
    assert(text_lines(lines@) =~= task_with_detail_lines(task@));
    lines
}

/// One line to print.
fn single_line(line: String) -> (lines: Vec<String>)
    ensures
        text_lines(lines@) == seq![line@],
{
    let mut lines: Vec<String> = Vec::new();
    lines.push(line);
    assert(text_lines(lines@) =~= seq![line@]);
    lines
}

/// The views of printed lines.
pub open spec fn text_lines(v: Seq<String>) -> Seq<Seq<char>> {
    v.map_values(|s: String| s@)
}

/// What a command leaves to its caller.
#[derive(Debug)]
pub enum Outcome {
    /// Lines to print, in order.
    Printed(Vec<String>),
    /// The task's detail is to be edited; `finish_edit` takes the new text.
    EditDetail { id: i64, detail: String },
}

/// The value of an outcome.
pub enum OutcomeView {
    Printed(Seq<Seq<char>>),
    EditDetail { id: i64, detail: Seq<char> },
}

impl View for Outcome {
    type V = OutcomeView;

    open spec fn view(&self) -> OutcomeView {
        match self {
            Outcome::Printed(lines) => OutcomeView::Printed(text_lines(lines@)),
            Outcome::EditDetail { id, detail } => OutcomeView::EditDetail { id: *id, detail: detail@ },
        }
    }
}

/// The view of a command's result.
pub open spec fn outcome_result(r: Result<Outcome, TaskError>) -> Result<OutcomeView, TaskError> {
    match r {
        Ok(o) => Ok(o@),
        Err(e) => Err(e),
    }
}

/// The result of a command that changes one task and prints one line.
pub open spec fn one_line(r: Result<(), TaskError>, line: Seq<char>) -> Result<OutcomeView, TaskError> {
    match r {
        Ok(_) => Ok(OutcomeView::Printed(seq![line])),
        Err(e) => Err(e),
    }
}

/// What a command does: the queue afterwards and the result, given the
/// project path of the current directory (for `push` and `next`) and the
/// clock reading (`None` when the clock reads before the Unix epoch).
/// `add` stamps with 0 when there is no reading; the other commands that
/// change the queue are refused without one, and `next` only needs it when
/// there is a task to complete.
pub open spec fn dispatched(
    s: StoreView,
    cmd: CommandView,
    path: Option<Seq<char>>,
    now: Option<i64>,
) -> (StoreView, Result<OutcomeView, TaskError>) {
    let clock_refused = (s, Err::<OutcomeView, TaskError>(TaskError::ClockBeforeEpoch));
    match cmd {
        CommandView::Add { title, priority } => {
            let stamp = match now {
                Some(t) => t,
                None => 0,
            };
            let (s1, r) = s.add(title, priority, stamp);
            match r {
                Ok(t) => (s1, Ok(OutcomeView::Printed(seq![added_line(t)]))),
                Err(e) => (s1, Err(e)),
            }
        },
        CommandView::Push { title, detail, priority } => match now {
            None => clock_refused,
            Some(t) => {
                let (s1, r) = s.push(title, detail, priority, path, t);
                match r {
                    Ok(_) => (s1, Ok(OutcomeView::Printed(Seq::empty()))),
                    Err(e) => (s1, Err(e)),
                }
            },
        },
        CommandView::List { show } => (
            s,
            Ok(OutcomeView::Printed(s.listing(show).map_values(|t: TaskView| task_line(t)))),
        ),
        CommandView::First => (s, Ok(OutcomeView::Printed(maybe_task_lines(s.first())))),
        CommandView::Next => {
            let p = match path {
                Some(p) => p,
                None => Seq::empty(),
            };
            if !s.has_next(p) {
                (s, Ok(OutcomeView::Printed(Seq::empty())))
            } else {
                match now {
                    None => clock_refused,
                    Some(t) => {
                        let (s1, r) = s.next(p, t);
                        (s1, Ok(OutcomeView::Printed(maybe_task_lines(r))))
                    },
                }
            }
        },
        CommandView::Done { id } => match now {
            None => clock_refused,
            Some(t) => {
                let (s1, r) = s.toggle(id, t);
                (s1, one_line(r, id_line("Marked task #"@, id, " as done"@)))
            },
        },
        CommandView::Undo { id } => match now {
            None => clock_refused,
            Some(t) => {
                let (s1, r) = s.toggle(id, t);
                (s1, one_line(r, id_line("Marked task #"@, id, " as not done"@)))
            },
        },
        CommandView::Delete { id } => match now {
            None => clock_refused,
            Some(t) => {
                let (s1, r) = s.delete(id, t);
                (s1, one_line(r, id_line("Deleted task #"@, id, ""@)))
            },
        },
        CommandView::Clear => match now {
            None => clock_refused,
            Some(t) => {
                let (s1, count) = s.clear(t);
                (s1, Ok(OutcomeView::Printed(seq![cleared_line(count)])))
            },
        },
        CommandView::Edit { id } => match s.get(id) {
            Ok(t) => (s, Ok(OutcomeView::EditDetail { id: id, detail: t.detail })),
            Err(e) => (s, Err(e)),
        },
    }
}

/// Whether a command needs the project path of the current directory.
pub open spec fn needs_project(cmd: CommandView) -> bool {
    cmd is Push || cmd is Next
}

impl Command {
    /// Whether the command needs the project path of the current directory.
    pub fn needs_project_path(&self) -> (r: bool)
        ensures
            r == needs_project(self@),
    {
        match self {
            Command::Push { .. } | Command::Next => true,
            _ => false,
        }
    }
}

/// Runs a command on the queue. `list` prints the listing's task lines;
/// `first` and `next` print the task line and, when not empty, the detail;
/// `push` prints nothing; `edit` hands the task's detail back for editing.
pub fn dispatch_to(
    store: &mut TaskStore,
    command: Command,
    project_path: Option<&str>,
    now: Option<i64>,
) -> (r: Result<Outcome, TaskError>)
    requires
        old(store)@.wf(),
        needs_project(command@) ==> project_path is Some,
    ensures
        final(store)@.wf(),
        final(store)@ == dispatched(old(store)@, command@, path_view(project_path), now).0,
        outcome_result(r) == dispatched(old(store)@, command@, path_view(project_path), now).1,
        command@ matches CommandView::List { show } ==> r matches Ok(Outcome::Printed(lines)) && {
            &&& text_lines(lines@).len() == old(store)@.listing(show).len()
            &&& forall|i: int|
                0 <= i < lines@.len() ==> #[trigger] text_lines(lines@)[i] == task_line(old(store)@.listing(show)[i])
        },
        command@ matches CommandView::Add { title, priority } ==> (old(store)@.task_seq < i64::MAX ==> {
            let id = (old(store)@.task_seq + 1) as i64;
            &&& final(store)@.get(id) is Ok
            &&& final(store)@.get(id)->Ok_0.title == title
            &&& final(store)@.get(id)->Ok_0.priority == priority
            &&& !final(store)@.get(id)->Ok_0.done
            &&& r matches Ok(Outcome::Printed(lines)) && text_lines(lines@)
                == seq!["Added task #"@ + decimal(id as int) + ": "@ + title]
        }),
        command@ matches CommandView::Delete { id } ==> (old(store)@.has_live(id) && now is Some ==> {
            &&& final(store)@.get(id) == Err::<TaskView, TaskError>(TaskError::NotFound(id))
            &&& r matches Ok(Outcome::Printed(lines)) && text_lines(lines@) == seq!["Deleted task #"@ + decimal(id as int)]
        }),
{
    let ghost cmd = command@;
    proof {
        let s = old(store)@;
        let p = path_view(project_path);
        match cmd {
            CommandView::List { show } => law_list_prints_listing_in_order(s, show, p, now),
            CommandView::Add { title, priority } => {
                if s.task_seq < i64::MAX {
                    law_add_stores_title_and_priority(s, title, priority, p, now);
                }
            },
            CommandView::Delete { id } => {
                if let Some(t) = now {
                    law_delete_removes_live_task(s, id, p, t);
                }
            },
            _ => {},
        }
    }
    match command {
        Command::Add { title, priority } => {
            let stamp = match now {
                Some(t) => t,
                None => 0,
            };
            match store.add_task_at(title.as_str(), priority, stamp) {
                Ok(task) => {
                    let line = id_message("Added task #", task.id, ": ").concat(task.title.as_str());
                    let mut lines: Vec<String> = Vec::new();
                    lines.push(line);
                    assert(text_lines(lines@) =~= seq![added_line(task@)]);
                    Ok(Outcome::Printed(lines))
                },
                Err(e) => Err(e),
            }
        },
        Command::Push { title, detail, priority } => match now {
            None => Err(TaskError::ClockBeforeEpoch),
            Some(t) => match store.push_task_at(title.as_str(), detail.as_str(), priority, project_path, t) {
                Ok(_) => {
                    let lines: Vec<String> = Vec::new();
                    assert(text_lines(lines@) =~= Seq::<Seq<char>>::empty());
                    Ok(Outcome::Printed(lines))
                },
                Err(e) => Err(e),
            },
        },
        Command::List { show } => {
            let tasks = match store.list_tasks(show) {
                Ok(tasks) => tasks,
                Err(e) => return Err(e),
            };
            let mut lines: Vec<String> = Vec::new();
            let n = tasks.len();
            let mut k: usize = 0;
            while k < n
                invariant
                    n == tasks@.len(),
                    k <= n,
                    text_lines(lines@) == task_views(tasks@).take(k as int).map_values(|t: TaskView| task_line(t)),
                decreases n - k,
            {
                let ghost before = text_lines(lines@);
                lines.push(format_task_line(&tasks[k]));
                assert(task_views(tasks@).take(k + 1) =~= task_views(tasks@).take(k as int).push(tasks@[k as int]@));
                assert(text_lines(lines@) =~= before.push(task_line(tasks@[k as int]@)));
                assert(text_lines(lines@) =~= task_views(tasks@).take(k + 1).map_values(|t: TaskView| task_line(t)));
                k = k + 1;
            }
            assert(task_views(tasks@).take(n as int) =~= task_views(tasks@));
            Ok(Outcome::Printed(lines))
        },
        Command::First => match store.first_task() {
            Ok(Some(task)) => Ok(Outcome::Printed(task_with_detail(&task))),
            Ok(None) => {
                let lines: Vec<String> = Vec::new();
                assert(text_lines(lines@) =~= Seq::<Seq<char>>::empty());
                Ok(Outcome::Printed(lines))
            },
            Err(e) => Err(e),
        },
        Command::Next => {
            let path = match project_path {
                Some(p) => p,
                None => "",
            };
            if !store.has_next_task(path) {
                let lines: Vec<String> = Vec::new();
                assert(text_lines(lines@) =~= Seq::<Seq<char>>::empty());
                return Ok(Outcome::Printed(lines));
            }
            match now {
                None => Err(TaskError::ClockBeforeEpoch),
                Some(t) => match store.next_task_at(path, t) {
                    Ok(Some(task)) => Ok(Outcome::Printed(task_with_detail(&task))),
                    Ok(None) => {
                        let lines: Vec<String> = Vec::new();
                        assert(text_lines(lines@) =~= Seq::<Seq<char>>::empty());
                        Ok(Outcome::Printed(lines))
                    },
                    Err(e) => Err(e),
                },
            }
        },
        Command::Done { id } => match now {
            None => Err(TaskError::ClockBeforeEpoch),
            Some(t) => match store.toggle_task_at(id, t) {
                Ok(()) => Ok(Outcome::Printed(single_line(id_message("Marked task #", id, " as done")))),
                Err(e) => Err(e),
            },
        },
        Command::Undo { id } => match now {
            None => Err(TaskError::ClockBeforeEpoch),
            Some(t) => match store.toggle_task_at(id, t) {
                Ok(()) => Ok(Outcome::Printed(single_line(id_message("Marked task #", id, " as not done")))),
                Err(e) => Err(e),
            },
        },
        Command::Delete { id } => match now {
            None => Err(TaskError::ClockBeforeEpoch),
            Some(t) => match store.delete_task_at(id, t) {
                Ok(()) => Ok(Outcome::Printed(single_line(id_message("Deleted task #", id, "")))),
                Err(e) => Err(e),
            },
        },
        Command::Clear => match now {
            None => Err(TaskError::ClockBeforeEpoch),
            Some(t) => {
                let count = store.clear_tasks_at(t);
                let digits = u64_to_decimal(count as u64);
                let line = String::from_str("Cleared ").concat(digits.as_str()).concat(" task(s)");
                Ok(Outcome::Printed(single_line(line)))
            },
        },
        Command::Edit { id } => match store.get_task(id) {
            Ok(task) => Ok(Outcome::EditDetail { id: id, detail: task.detail }),
            Err(e) => Err(e),
        },
    }
}

/// What finishing an edit does: the detail is replaced, stamped with the
/// clock reading, and one line reports it; refused without a reading.
pub open spec fn edited(s: StoreView, id: i64, detail: Seq<char>, now: Option<i64>) -> (StoreView, Result<Seq<Seq<char>>, TaskError>) {
    match now {
        None => (s, Err(TaskError::ClockBeforeEpoch)),
        Some(t) => {
            let (s1, r) = s.update_detail(id, detail, t);
            match r {
                Ok(_) => (s1, Ok(seq![id_line("Updated detail for task #"@, id, ""@)])),
                Err(e) => (s1, Err(e)),
            }
        },
    }
}

/// The view of printed lines or an error.
pub open spec fn lines_result(r: Result<Vec<String>, TaskError>) -> Result<Seq<Seq<char>>, TaskError> {
    match r {
        Ok(lines) => Ok(text_lines(lines@)),
        Err(e) => Err(e),
    }
}

/// Stores the edited detail of a task and reports it.
pub fn finish_edit(store: &mut TaskStore, id: i64, detail: &str, now: Option<i64>) -> (r: Result<Vec<String>, TaskError>)
    requires
        old(store)@.wf(),
    ensures
        final(store)@.wf(),
        final(store)@ == edited(old(store)@, id, detail@, now).0,
        lines_result(r) == edited(old(store)@, id, detail@, now).1,
{
    match now {
        None => Err(TaskError::ClockBeforeEpoch),
        Some(t) => match store.update_detail_at(id, detail, t) {
            Ok(()) => Ok(single_line(id_message("Updated detail for task #", id, ""))),
            Err(e) => Err(e),
        },
    }
}

/// What the documented commands promise beside their changes: `push`
/// prints nothing; `done` and `undo` both flip the task; `list`, `first` and
/// the first step of `edit` leave the queue as it was; `first` prints
/// nothing on an empty queue; `next` prints nothing and changes nothing when
/// the project is unknown or has no unfinished task; a listing with nothing
/// to show prints nothing.
pub proof fn law_command_promises(
    s: StoreView,
    id: i64,
    f: crate::models::ShowFilter,
    out: Seq<TaskView>,
    title: Seq<char>,
    detail: Seq<char>,
    priority: i64,
    path: Seq<char>,
    now: Option<i64>,
)
    requires
        s.wf(),
        s.is_listing(f, out),
    ensures
        dispatched(s, CommandView::Push { title, detail, priority }, Some(path), now).1 is Ok
            ==> dispatched(s, CommandView::Push { title, detail, priority }, Some(path), now).1
                == Ok::<OutcomeView, TaskError>(OutcomeView::Printed(Seq::empty())),
        dispatched(s, CommandView::Done { id }, None, now).0 == dispatched(s, CommandView::Undo { id }, None, now).0,
        dispatched(s, CommandView::List { show: f }, None, now).0 == s,
        dispatched(s, CommandView::First, None, now).0 == s,
        dispatched(s, CommandView::Edit { id }, None, now).0 == s,
        s.first() is None ==> dispatched(s, CommandView::First, None, now).1
            == Ok::<OutcomeView, TaskError>(OutcomeView::Printed(Seq::empty())),
        !s.has_next(path) ==> dispatched(s, CommandView::Next, Some(path), now) == (
            s,
            Ok::<OutcomeView, TaskError>(OutcomeView::Printed(Seq::empty())),
        ),
        out.len() == 0 ==> dispatched(s, CommandView::List { show: f }, None, now).1
            == Ok::<OutcomeView, TaskError>(OutcomeView::Printed(Seq::empty())),
{
    crate::tables::lemma_listing_is(s, f, out);
    if out.len() == 0 {
        assert(out.map_values(|t: TaskView| task_line(t)) =~= Seq::<Seq<char>>::empty());
    }
}

/// `list` changes nothing and prints one line per task of the listing, in
/// the listing's order: line `i` shows task `i` of the queue order.
pub proof fn law_list_prints_listing_in_order(
    s: StoreView,
    show: crate::models::ShowFilter,
    path: Option<Seq<char>>,
    now: Option<i64>,
)
    ensures
        dispatched(s, CommandView::List { show }, path, now).0 == s,
        dispatched(s, CommandView::List { show }, path, now).1 matches Ok(OutcomeView::Printed(lines)) && {
            &&& lines.len() == s.listing(show).len()
            &&& forall|i: int| 0 <= i < lines.len() ==> #[trigger] lines[i] == task_line(s.listing(show)[i])
        },
{
}

/// `add` stores, under the next id, a live, unfinished task without project
/// that has the command's title and priority, stamped with the clock reading
/// (0 without one), and reports `Added task #<id>: <title>`.
pub proof fn law_add_stores_title_and_priority(
    s: StoreView,
    title: Seq<char>,
    priority: i64,
    path: Option<Seq<char>>,
    now: Option<i64>,
)
    requires
        s.wf(),
        s.task_seq < i64::MAX,
    ensures
        ({
            let (s1, r) = dispatched(s, CommandView::Add { title, priority }, path, now);
            let id = (s.task_seq + 1) as i64;
            let stamp = match now {
                Some(t) => t,
                None => 0,
            };
            &&& s1.get(id) is Ok
            &&& s1.get(id)->Ok_0.id == id
            &&& s1.get(id)->Ok_0.title == title
            &&& s1.get(id)->Ok_0.priority == priority
            &&& !s1.get(id)->Ok_0.done
            &&& s1.get(id)->Ok_0.detail == Seq::<char>::empty()
            &&& s1.get(id)->Ok_0.project_id is None
            &&& s1.get(id)->Ok_0.created_at == stamp
            &&& r == Ok::<OutcomeView, TaskError>(
                OutcomeView::Printed(seq!["Added task #"@ + decimal(id as int) + ": "@ + title]),
            )
        }),
{
    let stamp = match now {
        Some(t) => t,
        None => 0,
    };
    crate::laws::law_read_after_add(s, title, priority, stamp);
}

/// `delete` of a live task succeeds whether or not the task is done, with a
/// clock reading: the row is marked deleted at that time, the task can no
/// longer be read, and `Deleted task #<id>` is printed. Without a live task
/// of that id it answers `NotFound` and changes nothing.
pub proof fn law_delete_removes_live_task(s: StoreView, id: i64, path: Option<Seq<char>>, t: i64)
    requires
        s.wf(),
    ensures
        s.has_live(id) ==> ({
            let (s1, r) = dispatched(s, CommandView::Delete { id }, path, Some(t));
            &&& r == Ok::<OutcomeView, TaskError>(OutcomeView::Printed(seq!["Deleted task #"@ + decimal(id as int)]))
            &&& s1 == s.delete(id, t).0
            &&& s1.get(id) == Err::<TaskView, TaskError>(TaskError::NotFound(id))
            &&& s1.rows.len() == s.rows.len()
            &&& s1.rows[s.live_index(id)].deleted_at == Some(t)
        }),
        !s.has_live(id) ==> dispatched(s, CommandView::Delete { id }, path, Some(t)) == (
            s,
            Err::<OutcomeView, TaskError>(TaskError::NotFound(id)),
        ),
{
    if s.has_live(id) {
        crate::laws::law_delete_hides(s, id, t, t);
        reveal_strlit("");
        assert("Deleted task #"@ + decimal(id as int) + ""@ =~= "Deleted task #"@ + decimal(id as int));
    }
}

/// `done` and `undo` flip the completion of a live task, with a clock
/// reading, and report it; nothing else of the task changes but its update
/// time.
pub proof fn law_done_and_undo_flip(s: StoreView, id: i64, path: Option<Seq<char>>, t: i64)
    requires
        s.wf(),
        s.has_live(id),
    ensures
        ({
            let (s1, r) = dispatched(s, CommandView::Done { id }, path, Some(t));
            let before = s.get(id)->Ok_0;
            &&& s1.get(id) == Ok::<TaskView, TaskError>(TaskView { done: !before.done, updated_at: t, ..before })
            &&& r == Ok::<OutcomeView, TaskError>(
                OutcomeView::Printed(seq!["Marked task #"@ + decimal(id as int) + " as done"@]),
            )
        }),
        ({
            let (s1, r) = dispatched(s, CommandView::Undo { id }, path, Some(t));
            let before = s.get(id)->Ok_0;
            &&& s1.get(id) == Ok::<TaskView, TaskError>(TaskView { done: !before.done, updated_at: t, ..before })
            &&& r == Ok::<OutcomeView, TaskError>(
                OutcomeView::Printed(seq!["Marked task #"@ + decimal(id as int) + " as not done"@]),
            )
        }),
{
    let i = s.live_index(id);
    let r = crate::tables::with_done(s.rows[i], !s.rows[i].task.done, t);
    crate::tables::lemma_wf_update(s, i, r);
    crate::tables::lemma_live_index(s.with_rows(s.rows.update(i, r)), i);
}

/// `clear`, with a clock reading, reports how many tasks were live and
/// leaves none listed.
pub proof fn law_clear_reports_live_count(
    s: StoreView,
    path: Option<Seq<char>>,
    t: i64,
    f: crate::models::ShowFilter,
    u: TaskView,
)
    requires
        s.wf(),
    ensures
        ({
            let (s1, r) = dispatched(s, CommandView::Clear, path, Some(t));
            &&& r == Ok::<OutcomeView, TaskError>(
                OutcomeView::Printed(seq!["Cleared "@ + nat_digits(crate::tables::count_live(s.rows)) + " task(s)"@]),
            )
            &&& !s1.listed(f, u)
        }),
{
    crate::laws::law_clear_empties(s, t, t);
}

/// `first` changes nothing; it prints the line of the first task of the
/// full listing, then that task's detail when it has one; nothing when no
/// task is live.
pub proof fn law_first_prints_first_task(s: StoreView, path: Option<Seq<char>>, now: Option<i64>)
    ensures
        dispatched(s, CommandView::First, path, now).0 == s,
        dispatched(s, CommandView::First, path, now).1 matches Ok(OutcomeView::Printed(lines)) && {
            &&& s.first() is None ==> lines.len() == 0
            &&& s.first() matches Some(t) ==> {
                &&& lines.len() == if t.detail.len() > 0 { 2int } else { 1int }
                &&& lines[0] == task_line(t)
                &&& t.detail.len() > 0 ==> lines[1] == t.detail
            }
        },
{
}

/// The first step of `edit` changes nothing and hands back the live task's
/// detail; an unknown id is refused with `NotFound`.
pub proof fn law_edit_hands_back_detail(s: StoreView, id: i64, path: Option<Seq<char>>, now: Option<i64>)
    ensures
        dispatched(s, CommandView::Edit { id }, path, now).0 == s,
        s.has_live(id) ==> dispatched(s, CommandView::Edit { id }, path, now).1 == Ok::<OutcomeView, TaskError>(
            OutcomeView::EditDetail { id: id, detail: s.rows[s.live_index(id)].task.detail },
        ),
        !s.has_live(id) ==> dispatched(s, CommandView::Edit { id }, path, now).1 == Err::<OutcomeView, TaskError>(
            TaskError::NotFound(id),
        ),
{
}

/// `push` with a clock reading prints nothing and stores, under the next id,
/// an unfinished task with the command's title, detail and priority,
/// stamped 0, that belongs to the project of the path.
pub proof fn law_push_stores_task_in_project(
    s: StoreView,
    title: Seq<char>,
    detail: Seq<char>,
    priority: i64,
    path: Seq<char>,
    t: i64,
)
    requires
        s.wf(),
        s.task_seq < i64::MAX,
        s.project_seq < i64::MAX,
    ensures
        ({
            let (s1, r) = dispatched(s, CommandView::Push { title, detail, priority }, Some(path), Some(t));
            let id = (s.task_seq + 1) as i64;
            &&& r == Ok::<OutcomeView, TaskError>(OutcomeView::Printed(Seq::empty()))
            &&& s1.has_project(path)
            &&& s1.get(id) is Ok
            &&& s1.get(id)->Ok_0.title == title
            &&& s1.get(id)->Ok_0.detail == detail
            &&& s1.get(id)->Ok_0.priority == priority
            &&& !s1.get(id)->Ok_0.done
            &&& s1.get(id)->Ok_0.created_at == 0
            &&& s1.get(id)->Ok_0.project_id == Some(s1.projects[s1.project_index(path)].id)
        }),
{
    let (s1, r) = s.push(title, detail, priority, Some(path), t);
    crate::tables::lemma_wf_upsert(s, path, t);
    let (projects, pid, pseq) = s.upsert_project(path, t);
    let mid = s.with_projects(projects, pseq);
    crate::tables::lemma_wf_push_row(mid, s1.rows.last());
    let k = if s.has_project(path) { s.project_index(path) } else { s.projects.len() as int };
    assert(s1.projects[k].path == path);
    crate::tables::lemma_project_index(s1, k);
    crate::tables::lemma_live_index(s1, s.rows.len() as int);
}

/// `next`, with a clock reading and an unfinished task in the project of the
/// path, completes the first such task in queue order and prints its line
/// (then its detail when it has one); the task reads back done.
pub proof fn law_next_completes_and_prints(s: StoreView, path: Seq<char>, t: i64)
    requires
        s.wf(),
        s.has_next(path),
    ensures
        ({
            let (s1, r) = dispatched(s, CommandView::Next, Some(path), Some(t));
            let i = s.first_index(s.project_selection(path));
            let id = s.rows[i].task.id;
            &&& s1.get(id) is Ok
            &&& s1.get(id)->Ok_0.done
            &&& s1.get(id)->Ok_0.project_id == Some(s.projects[s.project_index(path)].id)
            &&& s1.get(id)->Ok_0.title == s.rows[i].task.title
            &&& r matches Ok(OutcomeView::Printed(lines)) && lines.len() >= 1 && lines[0] == task_line(s1.get(id)->Ok_0)
        }),
{
    let sel = s.project_selection(path);
    let i = s.first_index(sel);
    assert(crate::tables::is_first_where(s.rows, sel, i));
    let r = crate::tables::with_done(s.rows[i], true, t);
    crate::tables::lemma_wf_update(s, i, r);
    crate::tables::lemma_live_index(s.with_rows(s.rows.update(i, r)), i);
}

} // verus!
