use trough::{dispatch_to, format_task_line, unix_now, Cli, Command, Outcome, ShowFilter, Task, TaskStore};

fn now() -> Option<i64> {
    unix_now().ok()
}

fn printed(outcome: Outcome) -> String {
    match outcome {
        Outcome::Printed(lines) => lines.iter().map(|l| format!("{}\n", l)).collect(),
        Outcome::EditDetail { .. } => panic!("expected printed lines"),
    }
}

#[test]
fn test_format_task_line_with_icon() {
    let task = Task::new("write docs");

    let line = format_task_line(&task);

    assert_eq!(line, "❌ write docs");
}

#[test]
fn test_format_task_line_with_done_icon_and_priority() {
    let mut task = Task::new("write docs");
    task.done = true;
    task.priority = 2;

    let line = format_task_line(&task);

    assert_eq!(line, "✅ P2 write docs");
}

#[test]
fn test_list_default_hides_completed() {
    let mut store = TaskStore::new();
    let done = store.add_task("done task", 0).unwrap();
    store.toggle_task(done.id).unwrap();
    let open = store.add_task("open task", 0).unwrap();

    let out = printed(
        dispatch_to(&mut store, Command::List { show: ShowFilter::Incomplete }, None, now()).unwrap(),
    );

    assert!(out.contains("open task"), "open task should appear: {out}");
    assert!(!out.contains("done task"), "done task should be hidden: {out}");
    assert!(open.id > 0);
}

#[test]
fn test_list_completed_hides_incomplete() {
    let mut store = TaskStore::new();
    let done = store.add_task("done task", 0).unwrap();
    store.toggle_task(done.id).unwrap();
    store.add_task("open task", 0).unwrap();

    let out = printed(
        dispatch_to(&mut store, Command::List { show: ShowFilter::Completed }, None, now()).unwrap(),
    );

    assert!(out.contains("done task"), "done task should appear: {out}");
    assert!(!out.contains("open task"), "open task should be hidden: {out}");
}

#[test]
fn test_list_all_shows_both() {
    let mut store = TaskStore::new();
    let done = store.add_task("done task", 0).unwrap();
    store.toggle_task(done.id).unwrap();
    store.add_task("open task", 0).unwrap();

    let out = printed(dispatch_to(&mut store, Command::List { show: ShowFilter::All }, None, now()).unwrap());

    assert!(out.contains("done task"), "done task should appear: {out}");
    assert!(out.contains("open task"), "open task should appear: {out}");
}

#[test]
fn test_list_empty_view_produces_no_output() {
    let mut store = TaskStore::new();
    // only done tasks; default filter hides them
    let done = store.add_task("done task", 0).unwrap();
    store.toggle_task(done.id).unwrap();

    let out = printed(
        dispatch_to(&mut store, Command::List { show: ShowFilter::Incomplete }, None, now()).unwrap(),
    );

    assert!(out.is_empty(), "expected no output, got: {:?}", out);
    let _ = done.id;
}

#[test]
fn test_next_uses_canonical_current_project_path() {
    let mut store = TaskStore::new();
    // the canonical path of the current directory, as the caller resolves it
    let cwd = "/work/current-project";
    let current = store.push_task("current project", "", 0, Some(cwd)).unwrap();
    let other = store.push_task("other project", "", 3, Some("/tmp/cli-next-other-project")).unwrap();

    let out = printed(dispatch_to(&mut store, Command::Next, Some(cwd), now()).unwrap());

    assert!(out.contains("current project"), "current task missing: {out}");
    assert!(!out.contains("other project"), "other task leaked: {out}");
    assert!(store.get_task(current.id).unwrap().done);
    assert!(!store.get_task(other.id).unwrap().done);
}

#[test]
fn test_clap_list_default_is_incomplete() {
    let cli = Cli::try_parse_from(&["trough", "list"]).unwrap();
    match cli.command {
        Command::List { show } => assert_eq!(show, ShowFilter::Incomplete),
        _ => panic!("expected List command"),
    }
}

#[test]
fn test_clap_list_long_flag() {
    let cli = Cli::try_parse_from(&["trough", "list", "--show", "completed"]).unwrap();
    match cli.command {
        Command::List { show } => assert_eq!(show, ShowFilter::Completed),
        _ => panic!("expected List command"),
    }
}

#[test]
fn test_clap_list_short_flag() {
    let cli = Cli::try_parse_from(&["trough", "list", "-s", "all"]).unwrap();
    match cli.command {
        Command::List { show } => assert_eq!(show, ShowFilter::All),
        _ => panic!("expected List command"),
    }
}

#[test]
fn test_clap_list_invalid_value_rejected() {
    let result = Cli::try_parse_from(&["trough", "list", "--show", "bogus"]);
    assert!(result.is_err());
}
