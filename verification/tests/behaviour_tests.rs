use trough::text::{i64_to_decimal, str_to_i64, u64_to_decimal};
use trough::{
    dispatch_to, editor_command, finish_edit, reselect, schema_migrations, task_label, ui_step, unix_now, Cli,
    CliError, Command, Key, LoadError, Migration, Outcome, Project, ShowFilter, Task, TaskError, TaskRow,
    TaskStore, UiAction,
};

fn lines(outcome: Outcome) -> Vec<String> {
    match outcome {
        Outcome::Printed(lines) => lines,
        Outcome::EditDetail { .. } => panic!("expected printed lines"),
    }
}

fn parse(args: &[&str]) -> Result<Command, CliError> {
    Cli::try_parse_from(args).map(|cli| cli.command)
}

#[test]
fn decimal_rendering_of_integers() {
    assert_eq!(i64_to_decimal(0), "0");
    assert_eq!(i64_to_decimal(7), "7");
    assert_eq!(i64_to_decimal(1234), "1234");
    assert_eq!(i64_to_decimal(-56), "-56");
    assert_eq!(i64_to_decimal(i64::MAX), "9223372036854775807");
    assert_eq!(i64_to_decimal(i64::MIN), "-9223372036854775808");
    assert_eq!(u64_to_decimal(10), "10");
}

#[test]
fn integer_parsing_follows_str_parse() {
    assert_eq!(str_to_i64("42"), Some(42));
    assert_eq!(str_to_i64("+42"), Some(42));
    assert_eq!(str_to_i64("-42"), Some(-42));
    assert_eq!(str_to_i64("007"), Some(7));
    assert_eq!(str_to_i64("9223372036854775807"), Some(i64::MAX));
    assert_eq!(str_to_i64("-9223372036854775808"), Some(i64::MIN));
    assert_eq!(str_to_i64("9223372036854775808"), None);
    assert_eq!(str_to_i64(""), None);
    assert_eq!(str_to_i64("-"), None);
    assert_eq!(str_to_i64("4x"), None);
    assert_eq!(str_to_i64(" 4"), None);
}

#[test]
fn error_messages() {
    assert_eq!(TaskError::NotFound(999).message(), "task with id 999 not found");
    assert_eq!(TaskError::ClockBeforeEpoch.message(), "system clock is before unix epoch");
}

#[test]
fn clock_reads_after_the_epoch() {
    let now = unix_now().unwrap();
    assert!(now > 1_600_000_000);
    let task = Task::new("t");
    assert_eq!(task.created_at, task.updated_at);
    assert!(task.created_at > 1_600_000_000);
}

#[test]
fn parse_every_command() {
    match parse(&["trough", "add", "buy milk"]).unwrap() {
        Command::Add { title, priority } => {
            assert_eq!(title, "buy milk");
            assert_eq!(priority, 0);
        }
        _ => panic!("expected Add"),
    }
    match parse(&["trough", "add", "write docs", "--priority", "2"]).unwrap() {
        Command::Add { priority, .. } => assert_eq!(priority, 2),
        _ => panic!("expected Add"),
    }
    match parse(&["trough", "push", "plan", "-d", "include checklist", "-p3"]).unwrap() {
        Command::Push { title, detail, priority } => {
            assert_eq!(title, "plan");
            assert_eq!(detail, "include checklist");
            assert_eq!(priority, 3);
        }
        _ => panic!("expected Push"),
    }
    match parse(&["trough", "push", "plan"]).unwrap() {
        Command::Push { detail, priority, .. } => {
            assert_eq!(detail, "");
            assert_eq!(priority, 0);
        }
        _ => panic!("expected Push"),
    }
    assert!(matches!(parse(&["trough", "first"]).unwrap(), Command::First));
    assert!(matches!(parse(&["trough", "next"]).unwrap(), Command::Next));
    assert!(matches!(parse(&["trough", "done", "1"]).unwrap(), Command::Done { id: 1 }));
    assert!(matches!(parse(&["trough", "undo", "2"]).unwrap(), Command::Undo { id: 2 }));
    assert!(matches!(parse(&["trough", "delete", "3"]).unwrap(), Command::Delete { id: 3 }));
    assert!(matches!(parse(&["trough", "clear"]).unwrap(), Command::Clear));
    assert!(matches!(parse(&["trough", "edit", "4"]).unwrap(), Command::Edit { id: 4 }));
}

#[test]
fn parse_option_forms() {
    assert!(matches!(parse(&["trough", "list", "--show=all"]).unwrap(), Command::List { show: ShowFilter::All }));
    assert!(matches!(parse(&["trough", "list", "-sall"]).unwrap(), Command::List { show: ShowFilter::All }));
    assert!(matches!(
        parse(&["trough", "list", "-s=completed"]).unwrap(),
        Command::List { show: ShowFilter::Completed }
    ));
    match parse(&["trough", "add", "--", "-p"]).unwrap() {
        Command::Add { title, .. } => assert_eq!(title, "-p"),
        _ => panic!("expected Add"),
    }
    match parse(&["trough", "add", "-p=-1", "x"]).unwrap() {
        Command::Add { title, priority } => {
            assert_eq!(title, "x");
            assert_eq!(priority, -1);
        }
        _ => panic!("expected Add"),
    }
}

#[test]
fn parse_refusals() {
    assert_eq!(parse(&["trough"]).unwrap_err(), CliError::MissingSubcommand);
    assert_eq!(parse(&["trough", "help"]).unwrap_err(), CliError::Help);
    assert_eq!(parse(&["trough", "--help"]).unwrap_err(), CliError::Help);
    assert_eq!(parse(&["trough", "list", "-h"]).unwrap_err(), CliError::Help);
    assert_eq!(parse(&["trough", "bogus"]).unwrap_err(), CliError::UnknownSubcommand);
    assert_eq!(parse(&["trough", "--bogus"]).unwrap_err(), CliError::UnexpectedArgument);
    assert_eq!(parse(&["trough", "list", "extra"]).unwrap_err(), CliError::UnexpectedArgument);
    assert_eq!(parse(&["trough", "first", "--show", "all"]).unwrap_err(), CliError::UnexpectedArgument);
    assert_eq!(parse(&["trough", "list", "--show"]).unwrap_err(), CliError::MissingValue);
    assert_eq!(parse(&["trough", "add", "x", "-p", "-1"]).unwrap_err(), CliError::MissingValue);
    assert_eq!(parse(&["trough", "list", "-s", "all", "-s", "all"]).unwrap_err(), CliError::RepeatedOption);
    assert_eq!(parse(&["trough", "done"]).unwrap_err(), CliError::MissingArgument);
    assert_eq!(parse(&["trough", "done", "one"]).unwrap_err(), CliError::InvalidValue);
    assert_eq!(parse(&["trough", "add", "x", "-p", "high"]).unwrap_err(), CliError::InvalidValue);
    assert_eq!(parse(&["trough", "list", "-s", "All"]).unwrap_err(), CliError::InvalidValue);
}

#[test]
fn dispatch_messages() {
    let mut store = TaskStore::new();
    let now = Some(1_700_000_000);
    let out = lines(dispatch_to(&mut store, Command::Add { title: "buy milk".into(), priority: 0 }, None, now).unwrap());
    assert_eq!(out, vec!["Added task #1: buy milk"]);
    assert_eq!(lines(dispatch_to(&mut store, Command::Done { id: 1 }, None, now).unwrap()), vec!["Marked task #1 as done"]);
    assert_eq!(
        lines(dispatch_to(&mut store, Command::List { show: ShowFilter::All }, None, now).unwrap()),
        vec!["✅ buy milk"]
    );
    assert_eq!(
        lines(dispatch_to(&mut store, Command::Undo { id: 1 }, None, now).unwrap()),
        vec!["Marked task #1 as not done"]
    );
    let out = lines(
        dispatch_to(
            &mut store,
            Command::Push { title: "plan".into(), detail: "checklist".into(), priority: 2 },
            Some("/work/app"),
            now,
        )
        .unwrap(),
    );
    assert!(out.is_empty());
    assert_eq!(lines(dispatch_to(&mut store, Command::First, None, now).unwrap()), vec!["❌ P2 plan", "checklist"]);
    match dispatch_to(&mut store, Command::Edit { id: 2 }, None, now).unwrap() {
        Outcome::EditDetail { id, detail } => {
            assert_eq!(id, 2);
            assert_eq!(detail, "checklist");
        }
        _ => panic!("expected an edit"),
    }
    assert_eq!(finish_edit(&mut store, 2, "new text", now).unwrap(), vec!["Updated detail for task #2"]);
    assert_eq!(store.get_task(2).unwrap().detail, "new text");
    assert_eq!(
        lines(dispatch_to(&mut store, Command::Next, Some("/work/app"), now).unwrap()),
        vec!["✅ P2 plan", "new text"]
    );
    assert!(lines(dispatch_to(&mut store, Command::Next, Some("/work/app"), now).unwrap()).is_empty());
    assert_eq!(lines(dispatch_to(&mut store, Command::Delete { id: 1 }, None, now).unwrap()), vec!["Deleted task #1"]);
    assert_eq!(lines(dispatch_to(&mut store, Command::Clear, None, now).unwrap()), vec!["Cleared 1 task(s)"]);
    assert!(lines(dispatch_to(&mut store, Command::First, None, now).unwrap()).is_empty());
}

#[test]
fn dispatch_refusals() {
    let mut store = TaskStore::new();
    assert_eq!(dispatch_to(&mut store, Command::Done { id: 5 }, None, Some(1)).unwrap_err(), TaskError::NotFound(5));
    assert_eq!(dispatch_to(&mut store, Command::Edit { id: 5 }, None, Some(1)).unwrap_err(), TaskError::NotFound(5));
    assert_eq!(dispatch_to(&mut store, Command::Clear, None, None).unwrap_err(), TaskError::ClockBeforeEpoch);
    assert_eq!(
        dispatch_to(&mut store, Command::Push { title: "x".into(), detail: String::new(), priority: 0 }, Some("/p"), None)
            .unwrap_err(),
        TaskError::ClockBeforeEpoch
    );
    assert!(store.task_rows().is_empty());
    // add stamps 0 without a clock reading
    let out = lines(dispatch_to(&mut store, Command::Add { title: "x".into(), priority: 0 }, None, None).unwrap());
    assert_eq!(out, vec!["Added task #1: x"]);
    assert_eq!(store.get_task(1).unwrap().created_at, 0);
    // next without a task to complete needs no clock reading
    assert!(lines(dispatch_to(&mut store, Command::Next, Some("/nowhere"), None).unwrap()).is_empty());
}

#[test]
fn law_toggle_twice_restores_on_values() {
    let mut store = TaskStore::new();
    let task = store.add_task_at("t", 1, 10).unwrap();
    store.toggle_task_at(task.id, 20).unwrap();
    assert!(store.get_task(task.id).unwrap().done);
    store.toggle_task_at(task.id, 30).unwrap();
    let back = store.get_task(task.id).unwrap();
    assert!(!back.done);
    assert_eq!(back.updated_at, 30);
    assert_eq!(back.created_at, 10);
}

#[test]
fn law_delete_hides_on_values() {
    let mut store = TaskStore::new();
    let task = store.add_task_at("t", 0, 10).unwrap();
    store.delete_task_at(task.id, 11).unwrap();
    assert_eq!(store.get_task(task.id).unwrap_err(), TaskError::NotFound(task.id));
    assert!(store.list_tasks(ShowFilter::All).unwrap().is_empty());
    assert_eq!(store.task_rows()[0].deleted_at, Some(11));
    assert_eq!(store.delete_task_at(task.id, 12).unwrap_err(), TaskError::NotFound(task.id));
    assert_eq!(store.toggle_task_at(task.id, 12).unwrap_err(), TaskError::NotFound(task.id));
    assert_eq!(store.update_detail_at(task.id, "d", 12).unwrap_err(), TaskError::NotFound(task.id));
}

#[test]
fn law_clear_empties_on_values() {
    let mut store = TaskStore::new();
    store.add_task_at("a", 0, 1).unwrap();
    store.add_task_at("b", 0, 2).unwrap();
    store.add_task_at("c", 0, 3).unwrap();
    store.delete_task_at(2, 4).unwrap();
    assert_eq!(store.clear_tasks_at(5), 2);
    assert_eq!(store.clear_tasks_at(6), 0);
    assert_eq!(store.task_rows().len(), 3);
    assert!(store.first_task().unwrap().is_none());
    // ids are never reused, even after everything was deleted
    assert_eq!(store.add_task_at("d", 0, 7).unwrap().id, 4);
}

#[test]
fn law_listing_order_and_first_on_values() {
    let mut store = TaskStore::new();
    store.add_task_at("old low", 0, 100).unwrap();
    store.add_task_at("new low", 0, 200).unwrap();
    store.add_task_at("old high", 3, 100).unwrap();
    store.add_task_at("tie a", 1, 150).unwrap();
    store.add_task_at("tie b", 1, 150).unwrap();
    store.toggle_task_at(2, 300).unwrap();
    let all: Vec<String> = store.list_tasks(ShowFilter::All).unwrap().into_iter().map(|t| t.title).collect();
    assert_eq!(all, vec!["old high", "tie a", "tie b", "new low", "old low"]);
    let open: Vec<String> = store.list_tasks(ShowFilter::Incomplete).unwrap().into_iter().map(|t| t.title).collect();
    assert_eq!(open, vec!["old high", "tie a", "tie b", "old low"]);
    let done: Vec<String> = store.list_tasks(ShowFilter::Completed).unwrap().into_iter().map(|t| t.title).collect();
    assert_eq!(done, vec!["new low"]);
    assert_eq!(store.first_task().unwrap().unwrap().title, "old high");
}

#[test]
fn law_next_is_scoped_on_values() {
    let mut store = TaskStore::new();
    store.push_task_at("a1", "", 0, Some("/a"), 1).unwrap();
    store.push_task_at("a2", "", 1, Some("/a"), 2).unwrap();
    store.push_task_at("b1", "", 5, Some("/b"), 3).unwrap();
    store.add_task_at("free", 9, 4).unwrap();
    assert_eq!(store.next_task_at("/a", 10).unwrap().unwrap().title, "a2");
    assert_eq!(store.next_task_at("/a", 11).unwrap().unwrap().title, "a1");
    assert!(store.next_task_at("/a", 12).unwrap().is_none());
    assert!(store.next_task_at("/c", 12).unwrap().is_none());
    assert_eq!(store.project_rows().len(), 2);
    assert!(!store.get_task(3).unwrap().done);
    assert!(!store.get_task(4).unwrap().done);
    assert_eq!(store.get_task(2).unwrap().updated_at, 10);
}

#[test]
fn law_push_reuses_project_on_values() {
    let mut store = TaskStore::new();
    let first = store.push_task_at("x", "", 0, Some("/p"), 5).unwrap();
    let second = store.push_task_at("y", "", 0, Some("/p"), 9).unwrap();
    assert_eq!(first.project_id, second.project_id);
    assert_eq!(store.project_rows().len(), 1);
    let project = &store.project_rows()[0];
    assert_eq!(project.created_at, 5);
    assert_eq!(project.updated_at, 9);
    assert_eq!(second.created_at, 0);
}

#[test]
fn load_round_trip_and_refusals() {
    let mut store = TaskStore::new();
    store.push_task_at("x", "d", 1, Some("/p"), 5).unwrap();
    store.add_task_at("y", 0, 6).unwrap();
    store.delete_task_at(2, 7).unwrap();
    let rows: Vec<TaskRow> = store
        .task_rows()
        .iter()
        .map(|r| {
            TaskRow::from_columns(
                r.task.id,
                r.task.project_id,
                r.task.title.clone(),
                r.task.done as i32,
                r.task.detail.clone(),
                r.task.priority,
                r.task.created_at,
                r.task.updated_at,
                r.deleted_at,
            )
        })
        .collect();
    let projects: Vec<Project> = store
        .project_rows()
        .iter()
        .map(|p| Project { id: p.id, path: p.path.clone(), created_at: p.created_at, updated_at: p.updated_at })
        .collect();
    let loaded = TaskStore::from_rows(rows, projects, 0, 0).unwrap();
    assert_eq!(loaded.task_seq(), 2);
    assert_eq!(loaded.project_seq(), 1);
    assert_eq!(loaded.get_task(1).unwrap().detail, "d");
    assert!(loaded.get_task(2).is_err());

    let row = |id: i64| TaskRow::from_columns(id, None, "t".into(), 2, String::new(), 0, 0, 0, None);
    assert!(row(1).task.done);
    assert_eq!(
        TaskStore::from_rows(vec![row(2), row(1)], Vec::new(), 0, 0).unwrap_err(),
        LoadError::TasksOutOfOrder
    );
    let project = |id: i64, path: &str| Project { id, path: path.into(), created_at: 0, updated_at: 0 };
    assert_eq!(
        TaskStore::from_rows(Vec::new(), vec![project(2, "/a"), project(1, "/b")], 0, 0).unwrap_err(),
        LoadError::ProjectsOutOfOrder
    );
    assert_eq!(
        TaskStore::from_rows(Vec::new(), vec![project(1, "/a"), project(2, "/a")], 0, 0).unwrap_err(),
        LoadError::DuplicateProjectPath
    );
    let loaded = TaskStore::from_rows(vec![row(3)], Vec::new(), 7, 0).unwrap();
    assert_eq!(loaded.task_seq(), 7);
}

#[test]
fn storage_full_when_ids_run_out() {
    let mut store = TaskStore::from_rows(Vec::new(), Vec::new(), i64::MAX, 0).unwrap();
    assert_eq!(store.add_task_at("x", 0, 1).unwrap_err(), TaskError::StorageFull);
    assert_eq!(store.push_task_at("x", "", 0, Some("/p"), 1).unwrap_err(), TaskError::StorageFull);
    assert!(store.project_rows().is_empty());
    let mut store = TaskStore::from_rows(Vec::new(), Vec::new(), 0, i64::MAX).unwrap();
    assert_eq!(store.push_task_at("x", "", 0, Some("/p"), 1).unwrap_err(), TaskError::StorageFull);
    assert!(store.push_task_at("x", "", 0, None, 1).is_ok());
}

#[test]
fn ui_keys_move_and_act() {
    let mut store = TaskStore::new();
    store.add_task_at("a", 0, 3).unwrap();
    store.add_task_at("b", 0, 2).unwrap();
    store.add_task_at("c", 0, 1).unwrap();
    let tasks = store.list_tasks(ShowFilter::All).unwrap();
    assert_eq!(ui_step(0, &tasks, Key::Char('j')), (1, UiAction::Redraw));
    assert_eq!(ui_step(2, &tasks, Key::Down), (2, UiAction::Redraw));
    assert_eq!(ui_step(0, &tasks, Key::Up), (0, UiAction::Redraw));
    assert_eq!(ui_step(2, &tasks, Key::Char('k')), (1, UiAction::Redraw));
    assert_eq!(ui_step(1, &tasks, Key::Char(' ')), (1, UiAction::Toggle(2)));
    assert_eq!(ui_step(0, &tasks, Key::Enter), (0, UiAction::Edit(1)));
    assert_eq!(ui_step(0, &tasks, Key::Char('q')), (0, UiAction::Quit));
    assert_eq!(ui_step(0, &tasks, Key::Char('x')), (0, UiAction::Redraw));
    let empty: Vec<Task> = Vec::new();
    assert_eq!(ui_step(0, &empty, Key::Down), (0, UiAction::Redraw));
    assert_eq!(ui_step(0, &empty, Key::Char(' ')), (0, UiAction::Redraw));
    assert_eq!(reselect(5, 3), 2);
    assert_eq!(reselect(1, 3), 1);
    assert_eq!(reselect(4, 0), 0);
}

#[test]
fn ui_labels() {
    let mut task = Task::new("write docs");
    task.id = 3;
    assert_eq!(task_label(&task), "[ ] 3. write docs");
    task.done = true;
    task.priority = 2;
    assert_eq!(task_label(&task), "[x] P2 3. write docs");
}

#[test]
fn migration_plans() {
    let names = |v: &[&str]| -> Vec<String> { v.iter().map(|s| s.to_string()).collect() };
    assert_eq!(
        schema_migrations(&names(&["id", "title"])),
        vec![Migration::AddPriority, Migration::AddDeletedAt, Migration::AddProjectId]
    );
    assert!(schema_migrations(&names(&["priority", "deleted_at", "project_id"])).is_empty());
    assert_eq!(Migration::AddDeletedAt.column_name(), "deleted_at");
}

#[test]
fn editor_choice() {
    assert_eq!(editor_command(Some("nvim".into()), Some("code".into())), "nvim");
    assert_eq!(editor_command(None, Some("code".into())), "code");
    assert_eq!(editor_command(None, None), "vi");
}

#[test]
fn law_push_goes_to_bottom_on_values() {
    let mut store = TaskStore::new();
    store.add_task_at("stamped at the epoch", 1, 0).unwrap();
    store.add_task_at("later", 1, 50).unwrap();
    store.add_task_at("other priority", 0, 60).unwrap();
    store.push_task_at("pushed", "", 1, None, 70).unwrap();
    let titles: Vec<String> = store.list_tasks(ShowFilter::All).unwrap().into_iter().map(|t| t.title).collect();
    assert_eq!(titles, vec!["later", "stamped at the epoch", "pushed", "other priority"]);
}
