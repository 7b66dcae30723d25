# trough

A fast, local task queue for the terminal: tasks ordered by priority, then
newest first; soft deletion; tasks pushed from a directory grouped into that
directory's project, whose `next` task can be completed from there.

## Layout

- `src/` — the verified library.
  - `tables.rs`: the queue as a mathematical value (`StoreView`) and what
    each operation does to it; `store.rs`: the queue (`TaskStore`) and its
    operations (`add_task`, `push_task`, `list_tasks`, `first_task`,
    `next_task`, `toggle_task`, `delete_task`, `clear_tasks`,
    `update_detail`, `get_task`, loading from stored rows), each proved
    against `tables.rs`.
  - `order.rs`: the queue order.
  - `laws.rs`: what holds across operations (toggling twice, deletion hides,
    clear empties, `next` stays in its project, pushes reuse projects,
    stored tables load back unchanged).
  - `args.rs`: the command line grammar; `cli.rs`: what each command does and
    prints; `ui.rs`: the key handling of the interactive list; `schema.rs`:
    which columns an older task table lacks; `editor.rs`: which editor runs;
    `text.rs`: decimal numbers; `clock.rs`: the system clock.
- `app/` — the program around it: the SQLite database (`rusqlite`), the
  terminal list (`ratatui`, `crossterm`), the external editor and the
  process's arguments and working directory.
- `tests/` — tests of the library.
