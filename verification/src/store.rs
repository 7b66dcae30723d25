//! The task queue and its operations.

use vstd::prelude::*;

use crate::clock::unix_now;
use crate::error::TaskError;
use crate::tables::{
    cleared, count_live, deleted, fresh_row, is_first_where, lemma_first_index, lemma_insert_contains,
    lemma_insert_sorted, lemma_listing_is, lemma_live_index, lemma_project_index, lemma_wf_push_row,
    lemma_wf_update, lemma_wf_upsert, live, load_view, opt_task_result, path_view, paths_distinct,
    project_views, projects_ordered, row_views, rows_ordered, selected, shown, task_result, task_views,
    with_detail, with_done, LoadError, Project, ProjectView, Selection, StoreView, TaskRow, TaskRowView,
};
use crate::models::{ShowFilter, Task, TaskView};
use crate::order::{before, lemma_before_total, lemma_before_transitive, sorted, task_before};

verus! {

/// The task queue: the task table and the project table.
#[derive(Debug)]
pub struct TaskStore {
    rows: Vec<TaskRow>,
    projects: Vec<Project>,
    task_seq: i64,
    project_seq: i64,
}

impl View for TaskStore {
    type V = StoreView;

    closed spec fn view(&self) -> StoreView {
        StoreView {
            rows: row_views(self.rows@),
            projects: project_views(self.projects@),
            task_seq: self.task_seq,
            project_seq: self.project_seq,
        }
    }
}


impl TaskStore {
    /// An empty queue whose tables have handed out no id yet.
    pub fn new() -> (store: TaskStore)
        ensures
            store@.wf(),
            store@.rows == Seq::<TaskRowView>::empty(),
            store@.projects == Seq::<ProjectView>::empty(),
            store@.task_seq == 0,
            store@.project_seq == 0,
    {
        let store = TaskStore { rows: Vec::new(), projects: Vec::new(), task_seq: 0, project_seq: 0 };
        assert(store@.rows =~= Seq::<TaskRowView>::empty());
        assert(store@.projects =~= Seq::<ProjectView>::empty());
        store
    }

    /// The task table, in id order.
    pub fn task_rows(&self) -> (rows: &Vec<TaskRow>)
        ensures
            row_views(rows@) == self@.rows,
    {
        &self.rows
    }

    /// The project table, in id order.
    pub fn project_rows(&self) -> (projects: &Vec<Project>)
        ensures
            project_views(projects@) == self@.projects,
    {
        &self.projects
    }

    /// The largest task id ever handed out.
    pub fn task_seq(&self) -> (seq: i64)
        ensures
            seq == self@.task_seq,
    {
        self.task_seq
    }

    /// The largest project id ever handed out.
    pub fn project_seq(&self) -> (seq: i64)
        ensures
            seq == self@.project_seq,
    {
        self.project_seq
    }

    /// The index of the live row with this id.
    fn find_live(&self, id: i64) -> (r: Option<usize>)
        requires
            self@.wf(),
        ensures
            match r {
                Some(i) => i < self@.rows.len() && self@.has_live(id) && self@.live_index(id) == i,
                None => !self@.has_live(id),
            },
    {
        let n = self.rows.len();
        let mut k: usize = 0;
        while k < n
            invariant
                n == self.rows@.len(),
                self@.rows.len() == n,
                self@.wf(),
                k <= n,
                forall|j: int| 0 <= j < k ==> !((#[trigger] self@.rows[j]).task.id == id && live(self@.rows[j])),
            decreases n - k,
        {
            if self.rows[k].task.id == id && self.rows[k].deleted_at.is_none() {
                proof {
                    assert(self@.rows[k as int] == self.rows@[k as int]@);
                    lemma_live_index(self@, k as int);
                }
                return Some(k);
            }
            assert(self@.rows[k as int] == self.rows@[k as int]@);
            k = k + 1;
        }
        None
    }

    /// The live task with this id.
    pub fn get_task(&self, id: i64) -> (r: Result<Task, TaskError>)
        requires
            self@.wf(),
        ensures
            task_result(r) == self@.get(id),
    {
        match self.find_live(id) {
            Some(i) => {
                assert(self@.rows[i as int] == self.rows@[i as int]@);
                Ok(self.rows[i].task.clone_task())
            },
            None => Err(TaskError::NotFound(id)),
        }
    }

    /// Flips the completion of the live task with this id, stamping it with
    /// `now`; `NotFound` when there is none.
    pub fn toggle_task_at(&mut self, id: i64, now: i64) -> (r: Result<(), TaskError>)
        requires
            old(self)@.wf(),
        ensures
            final(self)@.wf(),
            (final(self)@, r) == old(self)@.toggle(id, now),
    {
        match self.find_live(id) {
            Some(i) => {
                let ghost before = self@;
                let d = self.rows[i].task.done;
                self.rows[i].task.done = !d;
                self.rows[i].task.updated_at = now;
                proof {
                    assert(before.rows[i as int] == old(self).rows@[i as int]@);
                    assert(self@.rows =~= before.rows.update(i as int, with_done(before.rows[i as int], !d, now)));
                    lemma_wf_update(before, i as int, with_done(before.rows[i as int], !d, now));
                }
                Ok(())
            },
            None => Err(TaskError::NotFound(id)),
        }
    }

    /// Deletes the live task with this id at `now`: the row stays, marked
    /// deleted; `NotFound` when there is none.
    pub fn delete_task_at(&mut self, id: i64, now: i64) -> (r: Result<(), TaskError>)
        requires
            old(self)@.wf(),
        ensures
            final(self)@.wf(),
            (final(self)@, r) == old(self)@.delete(id, now),
    {
        match self.find_live(id) {
            Some(i) => {
                let ghost before = self@;
                self.rows[i].deleted_at = Some(now);
                self.rows[i].task.updated_at = now;
                proof {
                    assert(before.rows[i as int] == old(self).rows@[i as int]@);
                    assert(self@.rows =~= before.rows.update(i as int, deleted(before.rows[i as int], now)));
                    lemma_wf_update(before, i as int, deleted(before.rows[i as int], now));
                }
                Ok(())
            },
            None => Err(TaskError::NotFound(id)),
        }
    }

    /// Replaces the detail of the live task with this id, stamping it with
    /// `now`; `NotFound` when there is none.
    pub fn update_detail_at(&mut self, id: i64, detail: &str, now: i64) -> (r: Result<(), TaskError>)
        requires
            old(self)@.wf(),
        ensures
            final(self)@.wf(),
            (final(self)@, r) == old(self)@.update_detail(id, detail@, now),
    {
        match self.find_live(id) {
            Some(i) => {
                let ghost before = self@;
                self.rows[i].task.detail = detail.to_owned();
                self.rows[i].task.updated_at = now;
                proof {
                    assert(before.rows[i as int] == old(self).rows@[i as int]@);
                    assert(self@.rows =~= before.rows.update(i as int, with_detail(before.rows[i as int], detail@, now)));
                    lemma_wf_update(before, i as int, with_detail(before.rows[i as int], detail@, now));
                }
                Ok(())
            },
            None => Err(TaskError::NotFound(id)),
        }
    }

    /// Deletes every live task at `now` and returns how many there were.
    pub fn clear_tasks_at(&mut self, now: i64) -> (count: usize)
        requires
            old(self)@.wf(),
        ensures
            final(self)@.wf(),
            (final(self)@, count as nat) == old(self)@.clear(now),
    {
        proof { assert(self@.wf()); }
        let ghost start = self@;
        let n = self.rows.len();
        let mut count: usize = 0;
        let mut k: usize = 0;
        while k < n
            invariant
                n == self.rows@.len(),
                start.rows.len() == n,
                k <= n,
                count <= k,
                count as nat == count_live(start.rows.take(k as int)),
                self@.projects == start.projects,
                self@.task_seq == start.task_seq,
                self@.project_seq == start.project_seq,
                forall|j: int| 0 <= j < k ==> (#[trigger] self@.rows[j]) == cleared(start.rows[j], now),
                forall|j: int| k <= j < n ==> (#[trigger] self@.rows[j]) == start.rows[j],
            decreases n - k,
        {
            assert(start.rows.take(k + 1).drop_last() =~= start.rows.take(k as int));
            assert(self@.rows[k as int] == self.rows@[k as int]@);
            let ghost prev = self@.rows;
            if self.rows[k].deleted_at.is_none() {
                self.rows[k].deleted_at = Some(now);
                self.rows[k].task.updated_at = now;
                count = count + 1;
            }
            assert(self@.rows =~= prev.update(k as int, cleared(prev[k as int], now)));
            k = k + 1;
        }
        proof {
            assert(start.rows.take(n as int) =~= start.rows);
            assert(self@.rows =~= start.rows.map_values(|r: TaskRowView| cleared(r, now)));
            assert(self@.wf()) by {
                let t = self@;
                assert forall|a: int, b: int| 0 <= a < b < t.rows.len() implies (#[trigger] t.rows[a]).task.id < (#[trigger] t.rows[b]).task.id by {
                    assert(start.rows[a].task.id < start.rows[b].task.id);
                }
                assert forall|a: int| 0 <= a < t.rows.len() implies (#[trigger] t.rows[a]).task.id <= t.task_seq by {
                    assert(start.rows[a].task.id <= start.task_seq);
                }
            }
        }
        count
    }
}

/// Whether the selection picks the row.
pub fn selects(sel: Selection, row: &TaskRow) -> (r: bool)
    ensures
        r == selected(sel, row@),
{
    match sel {
        Selection::Shown(f) => {
            row.deleted_at.is_none() && match f {
                ShowFilter::Incomplete => !row.task.done,
                ShowFilter::Completed => row.task.done,
                ShowFilter::All => true,
            }
        },
        Selection::OpenInProject(pid) => {
            row.deleted_at.is_none() && !row.task.done && match row.task.project_id {
                Some(p) => p == pid,
                None => false,
            }
        },
    }
}

impl TaskStore {
    /// The index of the first row, in queue order, that the selection picks.
    pub fn first_selected(&self, sel: Selection) -> (r: Option<usize>)
        requires
            self@.wf(),
        ensures
            match r {
                Some(i) => is_first_where(self@.rows, sel, i as int) && self@.has_first(sel)
                    && self@.first_index(sel) == i,
                None => !self@.has_first(sel)
                    && forall|j: int| 0 <= j < self@.rows.len() ==> !selected(sel, #[trigger] self@.rows[j]),
            },
    {
        let n = self.rows.len();
        let mut best: Option<usize> = None;
        let mut k: usize = 0;
        while k < n
            invariant
                n == self.rows@.len(),
                self@.rows.len() == n,
                self@.wf(),
                k <= n,
                match best {
                    Some(b) => b < k && selected(sel, self@.rows[b as int]) && forall|j: int|
                        0 <= j < k && j != b && #[trigger] selected(sel, self@.rows[j])
                            ==> before(self@.rows[b as int].task, self@.rows[j].task),
                    None => forall|j: int| 0 <= j < k ==> !selected(sel, #[trigger] self@.rows[j]),
                },
            decreases n - k,
        {
            assert(self@.rows[k as int] == self.rows@[k as int]@);
            if selects(sel, &self.rows[k]) {
                match best {
                    None => {
                        best = Some(k);
                    },
                    Some(b) => {
                        assert(self@.rows[b as int] == self.rows@[b as int]@);
                        if task_before(&self.rows[k].task, &self.rows[b].task) {
                            proof {
                                assert forall|j: int|
                                    0 <= j < k + 1 && j != k && #[trigger] selected(sel, self@.rows[j])
                                        implies before(self@.rows[k as int].task, self@.rows[j].task) by {
                                    if j != b {
                                        lemma_before_transitive(self@.rows[k as int].task, self@.rows[b as int].task, self@.rows[j].task);
                                    }
                                }
                            }
                            best = Some(k);
                        } else {
                            proof {
                                assert(self@.rows[b as int].task.id < self@.rows[k as int].task.id);
                                lemma_before_total(self@.rows[b as int].task, self@.rows[k as int].task);
                            }
                        }
                    },
                }
            }
            k = k + 1;
        }
        match best {
            Some(b) => {
                proof { lemma_first_index(self@, sel, b as int); }
                Some(b)
            },
            None => None,
        }
    }

    /// The tasks that a listing with this filter shows, in queue order:
    /// priority high to low, then newest first, then oldest id first.
    pub fn list_tasks(&self, filter: ShowFilter) -> (r: Result<Vec<Task>, TaskError>)
        requires
            self@.wf(),
        ensures
            r is Ok,
            self@.is_listing(filter, task_views(r.unwrap()@)),
            task_views(r.unwrap()@) == self@.listing(filter),
    {
        let n = self.rows.len();
        let mut out: Vec<Task> = Vec::new();
        let mut k: usize = 0;
        while k < n
            invariant
                n == self.rows@.len(),
                self@.rows.len() == n,
                self@.wf(),
                k <= n,
                sorted(task_views(out@)),
                forall|q: int| 0 <= q < out@.len() ==> exists|i: int|
                    0 <= i < k && shown(#[trigger] self@.rows[i], filter) && self@.rows[i].task == (#[trigger] task_views(out@)[q]),
                forall|i: int| 0 <= i < k && shown(#[trigger] self@.rows[i], filter) ==> task_views(out@).contains(self@.rows[i].task),
            decreases n - k,
        {
            assert(self@.rows[k as int] == self.rows@[k as int]@);
            if selects(Selection::Shown(filter), &self.rows[k]) {
                let ghost t = self@.rows[k as int].task;
                let ghost outv = task_views(out@);
                let mut p: usize = 0;
                while p < out.len() && !task_before(&self.rows[k].task, &out[p])
                    invariant
                        p <= out@.len(),
                        outv == task_views(out@),
                        t == self.rows@[k as int].task@,
                        k < n,
                        n == self.rows@.len(),
                        forall|q: int| 0 <= q < p ==> !before(t, #[trigger] outv[q]),
                    decreases out@.len() - p,
                {
                    assert(outv[p as int] == out@[p as int]@);
                    p = p + 1;
                }
                proof {
                    assert forall|q: int| 0 <= q < p implies before(#[trigger] outv[q], t) by {
                        let i = choose|i: int| 0 <= i < k && shown(#[trigger] self@.rows[i], filter) && self@.rows[i].task == outv[q];
                        assert(self@.rows[i].task.id < self@.rows[k as int].task.id);
                        lemma_before_total(outv[q], t);
                    }
                    if p < out@.len() {
                        assert(outv[p as int] == out@[p as int]@);
                    }
                    lemma_insert_sorted(outv, p as int, t);
                }
                let copy = self.rows[k].task.clone_task();
                out.insert(p, copy);
                proof {
                    let nv = task_views(out@);
                    assert(nv =~= outv.insert(p as int, t));
                    assert forall|q: int| 0 <= q < out@.len() implies exists|i: int|
                        0 <= i < k + 1 && shown(#[trigger] self@.rows[i], filter) && self@.rows[i].task == (#[trigger] task_views(out@)[q]) by {
                        if q < p {
                            assert(nv[q] == outv[q]);
                        } else if q == p {
                            assert(nv[q] == self@.rows[k as int].task);
                        } else {
                            assert(nv[q] == outv[q - 1]);
                        }
                    }
                    assert forall|i: int| 0 <= i < k + 1 && shown(#[trigger] self@.rows[i], filter) implies task_views(out@).contains(self@.rows[i].task) by {
                        lemma_insert_contains(outv, p as int, t, self@.rows[i].task);
                    }
                }
            }
            k = k + 1;
        }
        proof {
            let outv = task_views(out@);
            assert forall|t: TaskView| outv.contains(t) <==> self@.listed(filter, t) by {
                if outv.contains(t) {
                    let q = choose|q: int| 0 <= q < outv.len() && outv[q] == t;
                    let i = choose|i: int| 0 <= i < n && shown(#[trigger] self@.rows[i], filter) && self@.rows[i].task == outv[q];
                    assert(self@.listed(filter, t));
                }
                if self@.listed(filter, t) {
                    let i = choose|i: int| 0 <= i < self@.rows.len() && shown(#[trigger] self@.rows[i], filter) && self@.rows[i].task == t;
                    assert(outv.contains(self@.rows[i].task));
                }
            }
            lemma_listing_is(self@, filter, outv);
        }
        Ok(out)
    }

    /// The first task of the full listing, if any; it stays in the queue.
    pub fn first_task(&self) -> (r: Result<Option<Task>, TaskError>)
        requires
            self@.wf(),
        ensures
            opt_task_result(r) == Ok::<Option<TaskView>, TaskError>(self@.first()),
    {
        match self.first_selected(Selection::Shown(ShowFilter::All)) {
            Some(i) => {
                assert(self@.rows[i as int] == self.rows@[i as int]@);
                Ok(Some(self.rows[i].task.clone_task()))
            },
            None => Ok(None),
        }
    }
}

impl TaskStore {
    /// The index of the project with this path.
    fn find_project(&self, path: &String) -> (r: Option<usize>)
        requires
            self@.wf(),
        ensures
            match r {
                Some(i) => i < self@.projects.len() && self@.has_project(path@) && self@.project_index(path@) == i,
                None => !self@.has_project(path@),
            },
    {
        let n = self.projects.len();
        let mut k: usize = 0;
        while k < n
            invariant
                n == self.projects@.len(),
                self@.projects.len() == n,
                self@.wf(),
                k <= n,
                forall|j: int| 0 <= j < k ==> (#[trigger] self@.projects[j]).path != path@,
            decreases n - k,
        {
            assert(self@.projects[k as int] == self.projects@[k as int]@);
            if self.projects[k].path == *path {
                proof { lemma_project_index(self@, k as int); }
                return Some(k);
            }
            k = k + 1;
        }
        None
    }

    /// Appends a row with the next task id.
    fn append_task(
        &mut self,
        project_id: Option<i64>,
        title: &str,
        detail: &str,
        priority: i64,
        stamp: i64,
    ) -> (task: Task)
        requires
            old(self)@.wf(),
            old(self)@.task_seq < i64::MAX,
        ensures
            final(self)@.wf(),
            task@ == fresh_row((old(self)@.task_seq + 1) as i64, project_id, title@, detail@, priority, stamp).task,
            final(self)@ == old(self)@.push_row(fresh_row(task.id, project_id, title@, detail@, priority, stamp)),
    {
        let id = self.task_seq + 1;
        let task = Task {
            id: id,
            project_id: project_id,
            title: title.to_owned(),
            done: false,
            detail: detail.to_owned(),
            priority: priority,
            created_at: stamp,
            updated_at: stamp,
        };
        let copy = task.clone_task();
        let ghost before = self@;
        self.rows.push(TaskRow { task: task, deleted_at: None });
        self.task_seq = id;
        proof {
            let r = fresh_row(id, project_id, title@, detail@, priority, stamp);
            assert(self@.rows =~= before.rows.push(r));
            lemma_wf_push_row(before, r);
        }
        copy
    }

    /// Adds a task at the top of its priority: the next id, no project, not
    /// done, empty detail, both timestamps `now`.
    pub fn add_task_at(&mut self, title: &str, priority: i64, now: i64) -> (r: Result<Task, TaskError>)
        requires
            old(self)@.wf(),
        ensures
            final(self)@.wf(),
            (final(self)@, task_result(r)) == old(self)@.add(title@, priority, now),
    {
        if self.task_seq == i64::MAX {
            return Err(TaskError::StorageFull);
        }
        let task = self.append_task(None, title, "", priority, now);
        proof { reveal_strlit(""); }
        assert(""@ =~= Seq::<char>::empty());
        Ok(task)
    }

    /// Adds a task stamped with the current time (0 when the clock reads
    /// before the Unix epoch).
    pub fn add_task(&mut self, title: &str, priority: i64) -> (r: Result<Task, TaskError>)
        requires
            old(self)@.wf(),
        ensures
            final(self)@.wf(),
            exists|now: i64| (final(self)@, task_result(r)) == #[trigger] old(self)@.add(title@, priority, now),
    {
        let fresh = Task::new(title);
        let r = self.add_task_at(title, priority, fresh.created_at);
        assert((self@, task_result(r)) == old(self)@.add(title@, priority, fresh.created_at));
        r
    }

    /// Pushes a task to the bottom of the queue (both timestamps 0). With a
    /// project path, the project with that path is stamped with `now`, or
    /// made when there is none, and the task belongs to it. All or nothing.
    pub fn push_task_at(
        &mut self,
        title: &str,
        detail: &str,
        priority: i64,
        project_path: Option<&str>,
        now: i64,
    ) -> (r: Result<Task, TaskError>)
        requires
            old(self)@.wf(),
        ensures
            final(self)@.wf(),
            (final(self)@, task_result(r)) == old(self)@.push(
                title@,
                detail@,
                priority,
                path_view(project_path),
                now,
            ),
    {
        match project_path {
            None => {
                if self.task_seq == i64::MAX {
                    return Err(TaskError::StorageFull);
                }
                let task = self.append_task(None, title, detail, priority, 0);
                Ok(task)
            },
            Some(path) => {
                let path_string = path.to_owned();
                let found = self.find_project(&path_string);
                if (found.is_none() && self.project_seq == i64::MAX) || self.task_seq == i64::MAX {
                    return Err(TaskError::StorageFull);
                }
                let ghost before = self@;
                proof { lemma_wf_upsert(before, path@, now); }
                let pid = match found {
                    Some(i) => {
                        assert(before.projects[i as int] == self.projects@[i as int]@);
                        self.projects[i].updated_at = now;
                        let pid = self.projects[i].id;
                        assert(self@.projects =~= before.upsert_project(path@, now).0);
                        pid
                    },
                    None => {
                        let id = self.project_seq + 1;
                        self.projects.push(Project { id: id, path: path_string, created_at: now, updated_at: now });
                        self.project_seq = id;
                        assert(self@.projects =~= before.upsert_project(path@, now).0);
                        id
                    },
                };
                let task = self.append_task(Some(pid), title, detail, priority, 0);
                Ok(task)
            },
        }
    }

    /// As `push_task_at`, reading the clock when a project path is given.
    pub fn push_task(
        &mut self,
        title: &str,
        detail: &str,
        priority: i64,
        project_path: Option<&str>,
    ) -> (r: Result<Task, TaskError>)
        requires
            old(self)@.wf(),
        ensures
            final(self)@.wf(),
            r == Err::<Task, TaskError>(TaskError::ClockBeforeEpoch) ==> final(self)@ == old(self)@ && project_path is Some,
            r != Err::<Task, TaskError>(TaskError::ClockBeforeEpoch) ==> exists|now: i64|
                (final(self)@, task_result(r)) == #[trigger] old(self)@.push(
                    title@,
                    detail@,
                    priority,
                    path_view(project_path),
                    now,
                ),
    {
        let now = match project_path {
            Some(_) => match unix_now() {
                Ok(t) => t,
                Err(e) => return Err(e),
            },
            None => 0,
        };
        let r = self.push_task_at(title, detail, priority, project_path, now);
        proof {
            assert((self@, task_result(r)) == old(self)@.push(title@, detail@, priority, path_view(project_path), now));
        }
        r
    }
}

impl TaskStore {
    /// The index of the row that `next` would complete for this path.
    fn pick_next(&self, path: &str) -> (r: Option<usize>)
        requires
            self@.wf(),
        ensures
            match r {
                Some(i) => self@.has_next(path@) && self@.first_index(self@.project_selection(path@)) == i
                    && i < self@.rows.len(),
                None => !self@.has_next(path@),
            },
    {
        let path_string = path.to_owned();
        match self.find_project(&path_string) {
            None => None,
            Some(pi) => {
                assert(self@.projects[pi as int] == self.projects@[pi as int]@);
                let pid = self.projects[pi].id;
                self.first_selected(Selection::OpenInProject(pid))
            },
        }
    }

    /// Whether the project with this path exists and has an unfinished live task.
    pub fn has_next_task(&self, project_path: &str) -> (r: bool)
        requires
            self@.wf(),
        ensures
            r == self@.has_next(project_path@),
    {
        self.pick_next(project_path).is_some()
    }

    /// Marks row `i` done at `now` and returns its task.
    fn mark_done(&mut self, i: usize, now: i64) -> (task: Task)
        requires
            old(self)@.wf(),
            i < old(self)@.rows.len(),
        ensures
            final(self)@.wf(),
            final(self)@ == old(self)@.with_rows(old(self)@.rows.update(i as int, with_done(old(self)@.rows[i as int], true, now))),
            task@ == with_done(old(self)@.rows[i as int], true, now).task,
    {
        let ghost before = self@;
        assert(before.rows[i as int] == self.rows@[i as int]@);
        self.rows[i].task.done = true;
        self.rows[i].task.updated_at = now;
        proof {
            assert(self@.rows =~= before.rows.update(i as int, with_done(before.rows[i as int], true, now)));
            lemma_wf_update(before, i as int, with_done(before.rows[i as int], true, now));
        }
        assert(self@.rows[i as int] == self.rows@[i as int]@);
        self.rows[i].task.clone_task()
    }

    /// Completes, at `now`, the first unfinished live task of the project
    /// with this path and returns it; nothing when the project is unknown or
    /// has no such task. Never makes a project and never picks a task of
    /// another project or one without a project.
    pub fn next_task_at(&mut self, project_path: &str, now: i64) -> (r: Result<Option<Task>, TaskError>)
        requires
            old(self)@.wf(),
        ensures
            final(self)@.wf(),
            final(self)@ == old(self)@.next(project_path@, now).0,
            opt_task_result(r) == Ok::<Option<TaskView>, TaskError>(old(self)@.next(project_path@, now).1),
    {
        match self.pick_next(project_path) {
            None => Ok(None),
            Some(i) => Ok(Some(self.mark_done(i, now))),
        }
    }

    /// As `next_task_at`, reading the clock only when there is a task to
    /// complete.
    pub fn next_task(&mut self, project_path: &str) -> (r: Result<Option<Task>, TaskError>)
        requires
            old(self)@.wf(),
        ensures
            final(self)@.wf(),
            match r {
                Ok(None) => final(self)@ == old(self)@ && !old(self)@.has_next(project_path@),
                Ok(Some(t)) => final(self)@ == old(self)@.next(project_path@, t.updated_at).0
                    && old(self)@.next(project_path@, t.updated_at).1 == Some(t@),
                Err(e) => e == TaskError::ClockBeforeEpoch && final(self)@ == old(self)@
                    && old(self)@.has_next(project_path@),
            },
    {
        match self.pick_next(project_path) {
            None => Ok(None),
            Some(i) => {
                let now = match unix_now() {
                    Ok(t) => t,
                    Err(e) => return Err(e),
                };
                Ok(Some(self.mark_done(i, now)))
            },
        }
    }

    /// As `toggle_task_at`, at the current time.
    pub fn toggle_task(&mut self, id: i64) -> (r: Result<(), TaskError>)
        requires
            old(self)@.wf(),
        ensures
            final(self)@.wf(),
            r == Err::<(), TaskError>(TaskError::ClockBeforeEpoch) ==> final(self)@ == old(self)@,
            r != Err::<(), TaskError>(TaskError::ClockBeforeEpoch) ==> exists|now: i64|
                (final(self)@, r) == #[trigger] old(self)@.toggle(id, now),
    {
        let now = match unix_now() {
            Ok(t) => t,
            Err(e) => return Err(e),
        };
        let r = self.toggle_task_at(id, now);
        assert((self@, r) == old(self)@.toggle(id, now));
        r
    }

    /// As `delete_task_at`, at the current time.
    pub fn delete_task(&mut self, id: i64) -> (r: Result<(), TaskError>)
        requires
            old(self)@.wf(),
        ensures
            final(self)@.wf(),
            r == Err::<(), TaskError>(TaskError::ClockBeforeEpoch) ==> final(self)@ == old(self)@,
            r != Err::<(), TaskError>(TaskError::ClockBeforeEpoch) ==> exists|now: i64|
                (final(self)@, r) == #[trigger] old(self)@.delete(id, now),
    {
        let now = match unix_now() {
            Ok(t) => t,
            Err(e) => return Err(e),
        };
        let r = self.delete_task_at(id, now);
        assert((self@, r) == old(self)@.delete(id, now));
        r
    }

    /// As `update_detail_at`, at the current time.
    pub fn update_detail(&mut self, id: i64, detail: &str) -> (r: Result<(), TaskError>)
        requires
            old(self)@.wf(),
        ensures
            final(self)@.wf(),
            r == Err::<(), TaskError>(TaskError::ClockBeforeEpoch) ==> final(self)@ == old(self)@,
            r != Err::<(), TaskError>(TaskError::ClockBeforeEpoch) ==> exists|now: i64|
                (final(self)@, r) == #[trigger] old(self)@.update_detail(id, detail@, now),
    {
        let now = match unix_now() {
            Ok(t) => t,
            Err(e) => return Err(e),
        };
        let r = self.update_detail_at(id, detail, now);
        assert((self@, r) == old(self)@.update_detail(id, detail@, now));
        r
    }

    /// As `clear_tasks_at`, at the current time.
    pub fn clear_tasks(&mut self) -> (r: Result<usize, TaskError>)
        requires
            old(self)@.wf(),
        ensures
            final(self)@.wf(),
            match r {
                Ok(count) => exists|now: i64| (final(self)@, count as nat) == #[trigger] old(self)@.clear(now),
                Err(e) => e == TaskError::ClockBeforeEpoch && final(self)@ == old(self)@,
            },
    {
        let now = match unix_now() {
            Ok(t) => t,
            Err(e) => return Err(e),
        };
        let count = self.clear_tasks_at(now);
        assert((self@, count as nat) == old(self)@.clear(now));
        Ok(count)
    }
}

/// The view of a load result.
pub open spec fn load_result(r: Result<TaskStore, LoadError>) -> Result<StoreView, LoadError> {
    match r {
        Ok(s) => Ok(s@),
        Err(e) => Err(e),
    }
}

impl TaskRow {
    /// A row read from the task table: the stored `done` integer counts as
    /// done when it is not 0.
    pub fn from_columns(
        id: i64,
        project_id: Option<i64>,
        title: String,
        done: i32,
        detail: String,
        priority: i64,
        created_at: i64,
        updated_at: i64,
        deleted_at: Option<i64>,
    ) -> (row: TaskRow)
        ensures
            row@ == (TaskRowView {
                task: TaskView {
                    id: id,
                    project_id: project_id,
                    title: title@,
                    done: done != 0,
                    detail: detail@,
                    priority: priority,
                    created_at: created_at,
                    updated_at: updated_at,
                },
                deleted_at: deleted_at,
            }),
    {
        TaskRow {
            task: Task {
                id: id,
                project_id: project_id,
                title: title,
                done: done != 0,
                detail: detail,
                priority: priority,
                created_at: created_at,
                updated_at: updated_at,
            },
            deleted_at: deleted_at,
        }
    }
}

fn rows_in_order(rows: &Vec<TaskRow>) -> (r: bool)
    ensures
        r == rows_ordered(row_views(rows@)),
{
    let ghost v = row_views(rows@);
    let n = rows.len();
    if n == 0 {
        return true;
    }
    let mut k: usize = 1;
    while k < n
        invariant
            n == rows@.len(),
            v == row_views(rows@),
            1 <= k <= n,
            forall|i: int, j: int| 0 <= i < j < k ==> (#[trigger] v[i]).task.id < (#[trigger] v[j]).task.id,
        decreases n - k,
    {
        assert(v[k - 1] == rows@[k - 1]@ && v[k as int] == rows@[k as int]@);
        if rows[k - 1].task.id >= rows[k].task.id {
            return false;
        }
        proof {
            assert forall|i: int, j: int| 0 <= i < j < k + 1 implies (#[trigger] v[i]).task.id < (#[trigger] v[j]).task.id by {
                if j == k && i < k - 1 {
                    assert(v[i].task.id < v[k - 1].task.id);
                }
            }
        }
        k = k + 1;
    }
    true
}

fn projects_in_order(projects: &Vec<Project>) -> (r: bool)
    ensures
        r == projects_ordered(project_views(projects@)),
{
    let ghost v = project_views(projects@);
    let n = projects.len();
    if n == 0 {
        return true;
    }
    let mut k: usize = 1;
    while k < n
        invariant
            n == projects@.len(),
            v == project_views(projects@),
            1 <= k <= n,
            forall|i: int, j: int| 0 <= i < j < k ==> (#[trigger] v[i]).id < (#[trigger] v[j]).id,
        decreases n - k,
    {
        assert(v[k - 1] == projects@[k - 1]@ && v[k as int] == projects@[k as int]@);
        if projects[k - 1].id >= projects[k].id {
            return false;
        }
        proof {
            assert forall|i: int, j: int| 0 <= i < j < k + 1 implies (#[trigger] v[i]).id < (#[trigger] v[j]).id by {
                if j == k && i < k - 1 {
                    assert(v[i].id < v[k - 1].id);
                }
            }
        }
        k = k + 1;
    }
    true
}

fn paths_are_distinct(projects: &Vec<Project>) -> (r: bool)
    ensures
        r == paths_distinct(project_views(projects@)),
{
    let ghost v = project_views(projects@);
    let n = projects.len();
    let mut a: usize = 0;
    while a < n
        invariant
            n == projects@.len(),
            v == project_views(projects@),
            a <= n,
            forall|i: int, j: int| 0 <= i < a && 0 <= j < n && i != j ==> (#[trigger] v[i]).path != (#[trigger] v[j]).path,
        decreases n - a,
    {
        let mut b: usize = 0;
        while b < n
            invariant
                n == projects@.len(),
                v == project_views(projects@),
                a < n,
                b <= n,
                forall|i: int, j: int| 0 <= i < a && 0 <= j < n && i != j ==> (#[trigger] v[i]).path != (#[trigger] v[j]).path,
                forall|j: int| 0 <= j < b && j != a ==> v[a as int].path != (#[trigger] v[j]).path,
            decreases n - b,
        {
            assert(v[a as int] == projects@[a as int]@ && v[b as int] == projects@[b as int]@);
            if b != a && projects[a].path == projects[b].path {
                return false;
            }
            b = b + 1;
        }
        a = a + 1;
    }
    true
}

impl TaskStore {
    /// The queue that stored tables describe, given the rows of each table in
    /// id order and the largest id each table's sequence has recorded.
    pub fn from_rows(
        rows: Vec<TaskRow>,
        projects: Vec<Project>,
        task_seq: i64,
        project_seq: i64,
    ) -> (r: Result<TaskStore, LoadError>)
        ensures
            load_result(r) == load_view(row_views(rows@), project_views(projects@), task_seq, project_seq),
            r matches Ok(s) ==> s@.wf(),
    {
        if !rows_in_order(&rows) {
            return Err(LoadError::TasksOutOfOrder);
        }
        if !projects_in_order(&projects) {
            return Err(LoadError::ProjectsOutOfOrder);
        }
        if !paths_are_distinct(&projects) {
            return Err(LoadError::DuplicateProjectPath);
        }
        let ghost rv = row_views(rows@);
        let ghost pv = project_views(projects@);
        let n = rows.len();
        let tseq = if n > 0 && rows[n - 1].task.id > task_seq { rows[n - 1].task.id } else { task_seq };
        let m = projects.len();
        let pseq = if m > 0 && projects[m - 1].id > project_seq { projects[m - 1].id } else { project_seq };
        let store = TaskStore { rows: rows, projects: projects, task_seq: tseq, project_seq: pseq };
        proof {
            if n > 0 {
                assert(rv.last() == store.rows@[n - 1]@);
            }
            if m > 0 {
                assert(pv.last() == store.projects@[m - 1]@);
            }
            let t = store@;
            assert(t.rows == rv && t.projects == pv);
            assert forall|a: int| 0 <= a < t.rows.len() implies (#[trigger] t.rows[a]).task.id <= t.task_seq by {
                if a < n - 1 {
                    assert(rv[a].task.id < rv[n - 1].task.id);
                }
            }
            assert forall|a: int| 0 <= a < t.projects.len() implies (#[trigger] t.projects[a]).id <= t.project_seq by {
                if a < m - 1 {
                    assert(pv[a].id < pv[m - 1].id);
                }
            }
        }
        Ok(store)
    }
}

} // verus!
