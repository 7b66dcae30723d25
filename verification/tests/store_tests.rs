use trough::{schema_migrations, Migration, ShowFilter, TaskRow, TaskStore};

fn legacy_columns() -> Vec<String> {
    ["id", "title", "done", "detail", "priority", "created_at", "updated_at"]
        .iter()
        .map(|s| s.to_string())
        .collect()
}

fn has_column(columns: &[String], column: &str) -> bool {
    columns.iter().any(|name| name == column)
}

fn migrate(columns: &mut Vec<String>) {
    for m in schema_migrations(columns) {
        columns.push(m.column_name().to_string());
    }
}

fn task_row_count(store: &TaskStore) -> usize {
    store.task_rows().len()
}

fn project_count(store: &TaskStore) -> usize {
    store.project_rows().len()
}

#[test]
fn test_migrate_schema_adds_deleted_at() {
    let mut columns = legacy_columns();
    assert!(!has_column(&columns, "deleted_at"));

    migrate(&mut columns);

    assert!(has_column(&columns, "deleted_at"));
}

#[test]
fn test_add_and_get_task() {
    let mut store = TaskStore::new();
    let task = store.add_task("buy milk", 0).unwrap();
    assert_eq!(task.title, "buy milk");
    assert!(!task.done);
    assert_eq!(task.detail, "");
    assert!(task.id > 0);

    let fetched = store.get_task(task.id).unwrap();
    assert_eq!(fetched.title, "buy milk");
}

#[test]
fn test_add_multiple_tasks() {
    let mut store = TaskStore::new();
    store.add_task("first", 0).unwrap();
    store.add_task("second", 0).unwrap();
    store.add_task("third", 0).unwrap();
    let tasks = store.list_tasks(ShowFilter::All).unwrap();
    assert_eq!(tasks.len(), 3);
}

#[test]
fn test_push_task_with_detail() {
    let mut store = TaskStore::new();
    let task = store.push_task("write docs", "include usage examples", 0, None).unwrap();

    assert_eq!(task.title, "write docs");
    assert_eq!(task.detail, "include usage examples");
}

#[test]
fn test_first_task_uses_list_order() {
    let mut store = TaskStore::new();
    store.add_task("low priority", 0).unwrap();
    store.add_task("high priority", 2).unwrap();

    let task = store.first_task().unwrap().unwrap();
    assert_eq!(task.title, "high priority");
}

#[test]
fn test_first_task_empty() {
    let store = TaskStore::new();
    let task = store.first_task().unwrap();
    assert!(task.is_none());
}

#[test]
fn test_next_task_marks_first_incomplete_done() {
    let mut store = TaskStore::new();
    let path = "/tmp/next-current-project";
    store.push_task("low priority", "", 0, Some(path)).unwrap();
    let high = store.push_task("high priority", "", 2, Some(path)).unwrap();

    let task = store.next_task(path).unwrap().unwrap();

    assert_eq!(task.id, high.id);
    assert!(task.done);
    assert!(store.get_task(high.id).unwrap().done);
}

#[test]
fn test_next_task_skips_completed_tasks() {
    let mut store = TaskStore::new();
    let path = "/tmp/next-skip-completed";
    let completed = store.push_task("completed high priority", "", 3, Some(path)).unwrap();
    store.toggle_task(completed.id).unwrap();
    let incomplete = store.push_task("incomplete low priority", "", 0, Some(path)).unwrap();

    let task = store.next_task(path).unwrap().unwrap();

    assert_eq!(task.id, incomplete.id);
    assert!(task.done);
}

#[test]
fn test_next_task_empty_when_no_incomplete_tasks() {
    let mut store = TaskStore::new();
    let path = "/tmp/next-empty-project";
    let task = store.push_task("done", "", 0, Some(path)).unwrap();
    store.toggle_task(task.id).unwrap();

    let next = store.next_task(path).unwrap();

    assert!(next.is_none());
}

#[test]
fn test_next_task_is_strictly_scoped_to_project() {
    let mut store = TaskStore::new();
    let current_path = "/tmp/next-project-a";
    let other_path = "/tmp/next-project-b";
    let current = store.push_task("current project", "", 0, Some(current_path)).unwrap();
    let other = store.push_task("other project", "", 3, Some(other_path)).unwrap();
    let unscoped = store.add_task("unscoped", 3).unwrap();

    let task = store.next_task(current_path).unwrap().unwrap();

    assert_eq!(task.id, current.id);
    assert!(task.done);
    assert!(!store.get_task(other.id).unwrap().done);
    assert!(!store.get_task(unscoped.id).unwrap().done);
}

#[test]
fn test_next_task_unknown_project_does_not_create_project_or_fallback() {
    let mut store = TaskStore::new();
    let other_path = "/tmp/next-existing-project";
    let other = store.push_task("other project", "", 0, Some(other_path)).unwrap();
    let unscoped = store.add_task("unscoped", 0).unwrap();
    let project_count_before = project_count(&store);

    let task = store.next_task("/tmp/next-unknown-project").unwrap();

    assert!(task.is_none());
    assert!(!store.get_task(other.id).unwrap().done);
    assert!(!store.get_task(unscoped.id).unwrap().done);
    let project_count_after = project_count(&store);
    assert_eq!(project_count_after, project_count_before);
}

#[test]
fn test_next_task_skips_deleted_task_in_current_project() {
    let mut store = TaskStore::new();
    let path = "/tmp/next-skip-deleted";
    let deleted = store.push_task("deleted high", "", 3, Some(path)).unwrap();
    store.delete_task(deleted.id).unwrap();
    let active = store.push_task("active low", "", 0, Some(path)).unwrap();

    let task = store.next_task(path).unwrap().unwrap();

    assert_eq!(task.id, active.id);
    assert!(task.done);
}

#[test]
fn test_list_tasks_order() {
    let mut store = TaskStore::new();
    store.add_task_at("oldest", 0, 1_700_000_000).unwrap();
    // one second later
    store.add_task_at("newest", 0, 1_700_000_001).unwrap();
    let tasks = store.list_tasks(ShowFilter::All).unwrap();
    // newest first (created_at DESC)
    assert_eq!(tasks[0].title, "newest");
    assert_eq!(tasks[1].title, "oldest");
}

#[test]
fn test_list_tasks_incomplete_excludes_done() {
    let mut store = TaskStore::new();
    let done = store.add_task("done low", 0).unwrap();
    store.toggle_task(done.id).unwrap();
    let open = store.add_task("open low", 0).unwrap();

    let tasks = store.list_tasks(ShowFilter::Incomplete).unwrap();

    assert_eq!(tasks.len(), 1);
    assert_eq!(tasks[0].id, open.id);
    assert!(!tasks[0].done);
}

#[test]
fn test_list_tasks_completed_excludes_incomplete() {
    let mut store = TaskStore::new();
    let done = store.add_task("done high", 2).unwrap();
    store.toggle_task(done.id).unwrap();
    let _open = store.add_task("open high", 2).unwrap();

    let tasks = store.list_tasks(ShowFilter::Completed).unwrap();

    assert_eq!(tasks.len(), 1);
    assert_eq!(tasks[0].id, done.id);
    assert!(tasks[0].done);
}

#[test]
fn test_list_tasks_all_includes_both() {
    let mut store = TaskStore::new();
    let done = store.add_task("done", 0).unwrap();
    store.toggle_task(done.id).unwrap();
    let open = store.add_task("open", 0).unwrap();

    let tasks = store.list_tasks(ShowFilter::All).unwrap();

    assert_eq!(tasks.len(), 2);
    let ids: Vec<i64> = tasks.iter().map(|t| t.id).collect();
    assert!(ids.contains(&done.id));
    assert!(ids.contains(&open.id));
}

#[test]
fn test_list_tasks_incomplete_preserves_order() {
    let mut store = TaskStore::new();
    let high = store.add_task_at("high", 2, 1_700_000_000).unwrap();
    // one second later
    let newer_low = store.add_task_at("newer low", 0, 1_700_000_001).unwrap();
    // one second later
    let older_low = store.add_task_at("older low", 0, 1_700_000_002).unwrap();
    // mark the older one as done so it should NOT appear in incomplete
    store.toggle_task(older_low.id).unwrap();

    let tasks = store.list_tasks(ShowFilter::Incomplete).unwrap();

    // priority DESC then created_at DESC: high first, then newer low
    assert_eq!(tasks.len(), 2);
    assert_eq!(tasks[0].id, high.id);
    assert_eq!(tasks[1].id, newer_low.id);
}

#[test]
fn test_toggle_task() {
    let mut store = TaskStore::new();
    let task = store.add_task("toggle me", 0).unwrap();
    assert!(!task.done);

    store.toggle_task(task.id).unwrap();
    let toggled = store.get_task(task.id).unwrap();
    assert!(toggled.done);

    store.toggle_task(task.id).unwrap();
    let untoggled = store.get_task(task.id).unwrap();
    assert!(!untoggled.done);
}

#[test]
fn test_toggle_nonexistent() {
    let mut store = TaskStore::new();
    let result = store.toggle_task(999);
    assert!(result.is_err());
    assert!(result.unwrap_err().message().contains("not found"));
}

#[test]
fn test_delete_task() {
    let mut store = TaskStore::new();
    let task = store.add_task("delete me", 0).unwrap();
    assert_eq!(store.list_tasks(ShowFilter::All).unwrap().len(), 1);

    store.delete_task(task.id).unwrap();
    assert_eq!(store.list_tasks(ShowFilter::All).unwrap().len(), 0);
    assert_eq!(task_row_count(&store), 1);
    assert!(store.get_task(task.id).is_err());
    assert!(
        store
            .task_rows()
            .iter()
            .find(|row| row.task.id == task.id)
            .unwrap()
            .deleted_at
            .is_some()
    );
}

#[test]
fn test_delete_nonexistent() {
    let mut store = TaskStore::new();
    let result = store.delete_task(999);
    assert!(result.is_err());
    assert!(result.unwrap_err().message().contains("not found"));
}

#[test]
fn test_clear_tasks() {
    let mut store = TaskStore::new();
    store.add_task("first", 0).unwrap();
    store.add_task("second", 0).unwrap();

    let cleared = store.clear_tasks().unwrap();

    assert_eq!(cleared, 2);
    assert!(store.list_tasks(ShowFilter::All).unwrap().is_empty());
    assert!(store.first_task().unwrap().is_none());
    assert_eq!(task_row_count(&store), 2);
}

#[test]
fn test_clear_tasks_ignores_already_deleted_tasks() {
    let mut store = TaskStore::new();
    let deleted = store.add_task("deleted", 0).unwrap();
    store.add_task("active", 0).unwrap();
    store.delete_task(deleted.id).unwrap();

    let cleared = store.clear_tasks().unwrap();

    assert_eq!(cleared, 1);
    assert!(store.list_tasks(ShowFilter::All).unwrap().is_empty());
    assert_eq!(task_row_count(&store), 2);
}

#[test]
fn test_update_detail() {
    let mut store = TaskStore::new();
    let task = store.add_task("write docs", 0).unwrap();
    assert_eq!(task.detail, "");

    store.update_detail(task.id, "use markdown").unwrap();
    let updated = store.get_task(task.id).unwrap();
    assert_eq!(updated.detail, "use markdown");
}

#[test]
fn test_update_detail_nonexistent() {
    let mut store = TaskStore::new();
    let result = store.update_detail(999, "nope");
    assert!(result.is_err());
    assert!(result.unwrap_err().message().contains("not found"));
}

#[test]
fn test_get_nonexistent() {
    let store = TaskStore::new();
    let result = store.get_task(999);
    assert!(result.is_err());
}

#[test]
fn test_migrate_schema_on_current_schema_adds_project_id() {
    // Simulate current production schema (has deleted_at, no project_id)
    let mut columns = legacy_columns();
    columns.push("deleted_at".to_string());
    assert!(!has_column(&columns, "project_id"));
    assert!(has_column(&columns, "deleted_at"));

    migrate(&mut columns);

    assert!(has_column(&columns, "project_id"));

    // After migration, normal API works
    let mut store = TaskStore::new();
    let task = store.add_task("post-migration", 0).unwrap();
    assert!(task.project_id.is_none());
    assert_eq!(task.title, "post-migration");
}

#[test]
fn test_migrate_schema_is_idempotent() {
    let mut columns = legacy_columns();
    // A row stored directly, before any migration
    let rows = vec![TaskRow::from_columns(
        1,
        None,
        "survivor".to_string(),
        0,
        String::new(),
        3,
        100,
        100,
        None,
    )];

    migrate(&mut columns);
    migrate(&mut columns);
    assert!(schema_migrations(&columns).is_empty());

    let store = TaskStore::from_rows(rows, Vec::new(), 0, 0).unwrap();
    let task = store.get_task(1).unwrap();
    assert_eq!(task.title, "survivor");
    assert_eq!(task.priority, 3);
    assert!(task.project_id.is_none());
}

#[test]
fn test_migrate_schema_preserves_old_data() {
    let mut columns = legacy_columns();
    let rows = vec![TaskRow::from_columns(
        1,
        None,
        "legacy".to_string(),
        0,
        String::new(),
        5,
        200,
        200,
        None,
    )];

    migrate(&mut columns);
    assert_eq!(schema_migrations(&legacy_columns()), vec![Migration::AddDeletedAt, Migration::AddProjectId]);

    let store = TaskStore::from_rows(rows, Vec::new(), 0, 0).unwrap();
    let fetched = store.get_task(1).unwrap();
    assert_eq!(fetched.title, "legacy");
    assert_eq!(fetched.priority, 5);
    assert!(fetched.project_id.is_none());
}

#[test]
fn test_push_creates_project_on_new_path() {
    let mut store = TaskStore::new();
    let path = "/tmp/test-project-a";

    let task = store.push_task("task from A", "", 0, Some(path)).unwrap();

    assert_eq!(task.project_id, Some(1));
    assert_eq!(task.title, "task from A");

    assert_eq!(project_count(&store), 1);
}

#[test]
fn test_push_reuses_project_on_same_path() {
    let mut store = TaskStore::new();
    let path = "/tmp/test-project-b";

    store.push_task("first from B", "", 0, Some(path)).unwrap();
    store.push_task("second from B", "", 0, Some(path)).unwrap();

    assert_eq!(project_count(&store), 1, "should reuse project, not create duplicate");

    let tasks = store.list_tasks(ShowFilter::All).unwrap();
    assert_eq!(tasks.len(), 2);
    assert_eq!(tasks[0].project_id, Some(1));
    assert_eq!(tasks[1].project_id, Some(1));
}

#[test]
fn test_push_creates_separate_projects_for_different_paths() {
    let mut store = TaskStore::new();
    let path_a = "/tmp/project-a";
    let path_b = "/tmp/project-b";

    store.push_task("from A", "", 0, Some(path_a)).unwrap();
    store.push_task("from B", "", 0, Some(path_b)).unwrap();

    assert_eq!(project_count(&store), 2);
}

#[test]
fn test_push_without_path_has_no_project() {
    let mut store = TaskStore::new();

    let task = store.push_task("no project task", "details", 0, None).unwrap();

    assert!(task.project_id.is_none());
    assert_eq!(task.detail, "details");
}

#[test]
fn test_push_preserves_detail_and_priority() {
    let mut store = TaskStore::new();
    let path = "/tmp/test-proj";

    let task = store.push_task("important", "critical detail", 3, Some(path)).unwrap();

    assert_eq!(task.detail, "critical detail");
    assert_eq!(task.priority, 3);
}

#[test]
fn test_push_task_at_bottom() {
    let mut store = TaskStore::new();
    let path = "/tmp/bottom-test";

    store.add_task("normal task", 0).unwrap();
    store.push_task("pushed task", "", 0, Some(path)).unwrap();

    let tasks = store.list_tasks(ShowFilter::All).unwrap();
    assert_eq!(tasks.len(), 2);
    // pushed task should be at the end (oldest created_at)
    assert_eq!(tasks[0].title, "normal task");
    assert_eq!(tasks[1].title, "pushed task");
}

#[test]
fn test_add_task_creates_no_project() {
    let mut store = TaskStore::new();

    let task = store.add_task("add task", 0).unwrap();

    assert!(task.project_id.is_none());
}

#[test]
fn test_list_tasks_all_includes_tasks_with_and_without_project() {
    let mut store = TaskStore::new();
    let path = "/tmp/mixed";

    store.add_task("unscoped", 0).unwrap();
    store.push_task("scoped", "", 0, Some(path)).unwrap();

    let tasks = store.list_tasks(ShowFilter::All).unwrap();
    assert_eq!(tasks.len(), 2);
}
