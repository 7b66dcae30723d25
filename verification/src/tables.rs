//! The queue as a mathematical value: its tables, what each operation does
//! to them, and facts about well-formed queues.

use vstd::prelude::*;

use crate::error::TaskError;
use crate::models::{ShowFilter, Task, TaskView};
use crate::order::{before, lemma_before_asymmetric, lemma_before_transitive, sorted};

verus! {

/// A row of the task table: a task and, once it has been deleted, when.
/// A deleted row stays in the table but is left out of every view.
#[derive(Debug)]
pub struct TaskRow {
    pub task: Task,
    pub deleted_at: Option<i64>,
}

/// The value of a task row.
pub struct TaskRowView {
    pub task: TaskView,
    pub deleted_at: Option<i64>,
}

impl View for TaskRow {
    type V = TaskRowView;

    open spec fn view(&self) -> TaskRowView {
        TaskRowView { task: self.task@, deleted_at: self.deleted_at }
    }
}

/// A project: the tasks pushed from one directory, identified by its path.
#[derive(Debug)]
pub struct Project {
    pub id: i64,
    pub path: String,
    pub created_at: i64,
    pub updated_at: i64,
}

/// The value of a project.
pub struct ProjectView {
    pub id: i64,
    pub path: Seq<char>,
    pub created_at: i64,
    pub updated_at: i64,
}

impl View for Project {
    type V = ProjectView;

    open spec fn view(&self) -> ProjectView {
        ProjectView { id: self.id, path: self.path@, created_at: self.created_at, updated_at: self.updated_at }
    }
}

/// Which rows a query picks.
#[derive(Debug, Clone, Copy, PartialEq, Eq, Structural)]
pub enum Selection {
    /// The rows that a listing with this filter shows.
    Shown(ShowFilter),
    /// The live, unfinished rows of the project with this id.
    OpenInProject(i64),
}

/// The whole queue as a value: the task table in id order, the project table
/// in id order, and the largest id each table has ever handed out.
pub struct StoreView {
    pub rows: Seq<TaskRowView>,
    pub projects: Seq<ProjectView>,
    pub task_seq: i64,
    pub project_seq: i64,
}

/// The views of a sequence of tasks.
pub open spec fn task_views(v: Seq<Task>) -> Seq<TaskView> {
    v.map_values(|t: Task| t@)
}

/// The views of a sequence of rows.
pub open spec fn row_views(v: Seq<TaskRow>) -> Seq<TaskRowView> {
    v.map_values(|r: TaskRow| r@)
}

/// The views of a sequence of projects.
pub open spec fn project_views(v: Seq<Project>) -> Seq<ProjectView> {
    v.map_values(|p: Project| p@)
}

/// The view of a result that carries a task.
pub open spec fn task_result(r: Result<Task, TaskError>) -> Result<TaskView, TaskError> {
    match r {
        Ok(t) => Ok(t@),
        Err(e) => Err(e),
    }
}

/// The view of a result that may carry a task.
pub open spec fn opt_task_result(r: Result<Option<Task>, TaskError>) -> Result<Option<TaskView>, TaskError> {
    match r {
        Ok(Some(t)) => Ok(Some(t@)),
        Ok(None) => Ok(None),
        Err(e) => Err(e),
    }
}

/// The view of an optional path.
pub open spec fn path_view(p: Option<&str>) -> Option<Seq<char>> {
    match p {
        Some(s) => Some(s@),
        None => None,
    }
}

/// A row that has not been deleted.
pub open spec fn live(r: TaskRowView) -> bool {
    r.deleted_at is None
}

/// Whether a listing with filter `f` shows the row.
pub open spec fn shown(r: TaskRowView, f: ShowFilter) -> bool {
    &&& live(r)
    &&& match f {
        ShowFilter::Incomplete => !r.task.done,
        ShowFilter::Completed => r.task.done,
        ShowFilter::All => true,
    }
}

/// Whether the selection picks the row.
pub open spec fn selected(sel: Selection, r: TaskRowView) -> bool {
    match sel {
        Selection::Shown(f) => shown(r, f),
        Selection::OpenInProject(pid) => live(r) && !r.task.done && r.task.project_id == Some(pid),
    }
}

/// Row `i` is the one the selection picks that comes first in queue order.
pub open spec fn is_first_where(rows: Seq<TaskRowView>, sel: Selection, i: int) -> bool {
    &&& 0 <= i < rows.len()
    &&& selected(sel, rows[i])
    &&& forall|j: int|
        0 <= j < rows.len() && j != i && #[trigger] selected(sel, rows[j]) ==> before(rows[i].task, rows[j].task)
}

/// The row with the task marked done or not and stamped with `now`.
pub open spec fn with_done(r: TaskRowView, done: bool, now: i64) -> TaskRowView {
    TaskRowView { task: TaskView { done: done, updated_at: now, ..r.task }, deleted_at: r.deleted_at }
}

/// The row with a new detail, stamped with `now`.
pub open spec fn with_detail(r: TaskRowView, detail: Seq<char>, now: i64) -> TaskRowView {
    TaskRowView { task: TaskView { detail: detail, updated_at: now, ..r.task }, deleted_at: r.deleted_at }
}

/// The row deleted at `now`.
pub open spec fn deleted(r: TaskRowView, now: i64) -> TaskRowView {
    TaskRowView { task: TaskView { updated_at: now, ..r.task }, deleted_at: Some(now) }
}

/// The row after a clear at `now`: deleted if it was live, unchanged otherwise.
pub open spec fn cleared(r: TaskRowView, now: i64) -> TaskRowView {
    if live(r) { deleted(r, now) } else { r }
}

/// The number of live rows.
pub open spec fn count_live(rows: Seq<TaskRowView>) -> nat
    decreases rows.len(),
{
    if rows.len() == 0 {
        0
    } else {
        count_live(rows.drop_last()) + if live(rows.last()) { 1nat } else { 0nat }
    }
}

/// A new row that has never been deleted.
pub open spec fn fresh_row(
    id: i64,
    project_id: Option<i64>,
    title: Seq<char>,
    detail: Seq<char>,
    priority: i64,
    stamp: i64,
) -> TaskRowView {
    TaskRowView {
        task: TaskView {
            id: id,
            project_id: project_id,
            title: title,
            done: false,
            detail: detail,
            priority: priority,
            created_at: stamp,
            updated_at: stamp,
        },
        deleted_at: None,
    }
}

impl StoreView {
    /// The tables are in id order, every id is at most the table's sequence,
    /// and no two projects share a path.
    pub open spec fn wf(self) -> bool {
        &&& forall|i: int, j: int|
            0 <= i < j < self.rows.len() ==> (#[trigger] self.rows[i]).task.id < (#[trigger] self.rows[j]).task.id
        &&& forall|i: int| 0 <= i < self.rows.len() ==> (#[trigger] self.rows[i]).task.id <= self.task_seq
        &&& forall|i: int, j: int|
            0 <= i < j < self.projects.len() ==> (#[trigger] self.projects[i]).id < (#[trigger] self.projects[j]).id
        &&& forall|i: int| 0 <= i < self.projects.len() ==> (#[trigger] self.projects[i]).id <= self.project_seq
        &&& forall|i: int, j: int|
            0 <= i < self.projects.len() && 0 <= j < self.projects.len() && i != j
                ==> (#[trigger] self.projects[i]).path != (#[trigger] self.projects[j]).path
    }

    /// A live row with this id exists.
    pub open spec fn has_live(self, id: i64) -> bool {
        exists|i: int| 0 <= i < self.rows.len() && (#[trigger] self.rows[i]).task.id == id && live(self.rows[i])
    }

    /// The index of the live row with this id.
    pub open spec fn live_index(self, id: i64) -> int {
        choose|i: int| 0 <= i < self.rows.len() && (#[trigger] self.rows[i]).task.id == id && live(self.rows[i])
    }

    /// The live task with this id.
    pub open spec fn get(self, id: i64) -> Result<TaskView, TaskError> {
        if self.has_live(id) {
            Ok(self.rows[self.live_index(id)].task)
        } else {
            Err(TaskError::NotFound(id))
        }
    }

    /// The same queue with other rows.
    pub open spec fn with_rows(self, rows: Seq<TaskRowView>) -> StoreView {
        StoreView { rows: rows, projects: self.projects, task_seq: self.task_seq, project_seq: self.project_seq }
    }

    /// The queue with a row appended, whose id becomes the task sequence.
    pub open spec fn push_row(self, r: TaskRowView) -> StoreView {
        StoreView { rows: self.rows.push(r), projects: self.projects, task_seq: r.task.id, project_seq: self.project_seq }
    }

    /// The same queue with another project table.
    pub open spec fn with_projects(self, projects: Seq<ProjectView>, project_seq: i64) -> StoreView {
        StoreView { rows: self.rows, projects: projects, task_seq: self.task_seq, project_seq: project_seq }
    }

    /// The live task with this id has its completion flipped at `now`.
    pub open spec fn toggle(self, id: i64, now: i64) -> (StoreView, Result<(), TaskError>) {
        if self.has_live(id) {
            let i = self.live_index(id);
            (self.with_rows(self.rows.update(i, with_done(self.rows[i], !self.rows[i].task.done, now))), Ok(()))
        } else {
            (self, Err(TaskError::NotFound(id)))
        }
    }

    /// The live task with this id is deleted at `now`.
    pub open spec fn delete(self, id: i64, now: i64) -> (StoreView, Result<(), TaskError>) {
        if self.has_live(id) {
            let i = self.live_index(id);
            (self.with_rows(self.rows.update(i, deleted(self.rows[i], now))), Ok(()))
        } else {
            (self, Err(TaskError::NotFound(id)))
        }
    }

    /// The live task with this id gets a new detail at `now`.
    pub open spec fn update_detail(self, id: i64, detail: Seq<char>, now: i64) -> (StoreView, Result<(), TaskError>) {
        if self.has_live(id) {
            let i = self.live_index(id);
            (self.with_rows(self.rows.update(i, with_detail(self.rows[i], detail, now))), Ok(()))
        } else {
            (self, Err(TaskError::NotFound(id)))
        }
    }

    /// Every live task is deleted at `now`; the count is how many were live.
    pub open spec fn clear(self, now: i64) -> (StoreView, nat) {
        (self.with_rows(self.rows.map_values(|r: TaskRowView| cleared(r, now))), count_live(self.rows))
    }

    /// The tasks that a listing with filter `f` shows.
    pub open spec fn listed(self, f: ShowFilter, t: TaskView) -> bool {
        exists|i: int| 0 <= i < self.rows.len() && shown(#[trigger] self.rows[i], f) && self.rows[i].task == t
    }

    /// `out` is the listing with filter `f`: exactly the shown tasks, in queue order.
    pub open spec fn is_listing(self, f: ShowFilter, out: Seq<TaskView>) -> bool {
        &&& sorted(out)
        &&& forall|t: TaskView| out.contains(t) <==> self.listed(f, t)
    }

    /// The listing with filter `f` (the one sequence that `is_listing` allows).
    pub open spec fn listing(self, f: ShowFilter) -> Seq<TaskView> {
        choose|out: Seq<TaskView>| self.is_listing(f, out)
    }

    /// Some row is the first that the selection picks.
    pub open spec fn has_first(self, sel: Selection) -> bool {
        exists|i: int| is_first_where(self.rows, sel, i)
    }

    /// The index of the first row that the selection picks.
    pub open spec fn first_index(self, sel: Selection) -> int {
        choose|i: int| is_first_where(self.rows, sel, i)
    }

    /// The first task of the full listing.
    pub open spec fn first(self) -> Option<TaskView> {
        if self.has_first(Selection::Shown(ShowFilter::All)) {
            Some(self.rows[self.first_index(Selection::Shown(ShowFilter::All))].task)
        } else {
            None
        }
    }

    /// A project with this path exists.
    pub open spec fn has_project(self, path: Seq<char>) -> bool {
        exists|i: int| 0 <= i < self.projects.len() && (#[trigger] self.projects[i]).path == path
    }

    /// The index of the project with this path.
    pub open spec fn project_index(self, path: Seq<char>) -> int {
        choose|i: int| 0 <= i < self.projects.len() && (#[trigger] self.projects[i]).path == path
    }

    /// The selection of the unfinished live tasks of the project with this path.
    pub open spec fn project_selection(self, path: Seq<char>) -> Selection {
        Selection::OpenInProject(self.projects[self.project_index(path)].id)
    }

    /// A project with this path exists and has an unfinished live task.
    pub open spec fn has_next(self, path: Seq<char>) -> bool {
        self.has_project(path) && self.has_first(self.project_selection(path))
    }

    /// The first unfinished live task of the project with this path is
    /// marked done at `now` and returned; with no such project or no such
    /// task nothing changes and nothing is returned.
    pub open spec fn next(self, path: Seq<char>, now: i64) -> (StoreView, Option<TaskView>) {
        if self.has_next(path) {
            let i = self.first_index(self.project_selection(path));
            let r = with_done(self.rows[i], true, now);
            (self.with_rows(self.rows.update(i, r)), Some(r.task))
        } else {
            (self, None)
        }
    }

    /// A task added at `now` with this title and priority: next id, no
    /// project, not done, empty detail, both timestamps `now`.
    pub open spec fn add(self, title: Seq<char>, priority: i64, now: i64) -> (StoreView, Result<TaskView, TaskError>) {
        if self.task_seq == i64::MAX {
            (self, Err(TaskError::StorageFull))
        } else {
            let id = (self.task_seq + 1) as i64;
            let r = fresh_row(id, None, title, Seq::empty(), priority, now);
            (self.push_row(r), Ok(r.task))
        }
    }

    /// The projects after a push from `path` at `now`: the project with that
    /// path is stamped with `now`, or a new one is made.
    pub open spec fn upsert_project(self, path: Seq<char>, now: i64) -> (Seq<ProjectView>, i64, i64) {
        if self.has_project(path) {
            let i = self.project_index(path);
            let p = self.projects[i];
            (self.projects.update(i, ProjectView { updated_at: now, ..p }), p.id, self.project_seq)
        } else {
            let id = (self.project_seq + 1) as i64;
            (self.projects.push(ProjectView { id: id, path: path, created_at: now, updated_at: now }), id, id)
        }
    }

    /// A task pushed to the bottom of the queue (both timestamps 0), with its
    /// project when a path is given; all or nothing.
    pub open spec fn push(
        self,
        title: Seq<char>,
        detail: Seq<char>,
        priority: i64,
        path: Option<Seq<char>>,
        now: i64,
    ) -> (StoreView, Result<TaskView, TaskError>) {
        match path {
            None => {
                if self.task_seq == i64::MAX {
                    (self, Err(TaskError::StorageFull))
                } else {
                    let id = (self.task_seq + 1) as i64;
                    let r = fresh_row(id, None, title, detail, priority, 0);
                    (self.push_row(r), Ok(r.task))
                }
            },
            Some(p) => {
                if (!self.has_project(p) && self.project_seq == i64::MAX) || self.task_seq == i64::MAX {
                    (self, Err(TaskError::StorageFull))
                } else {
                    let (projects, pid, pseq) = self.upsert_project(p, now);
                    let id = (self.task_seq + 1) as i64;
                    let r = fresh_row(id, Some(pid), title, detail, priority, 0);
                    (self.with_projects(projects, pseq).push_row(r), Ok(r.task))
                }
            },
        }
    }
}

/// Ids in a well-formed table are unique.
pub proof fn lemma_unique_ids(s: StoreView, i: int, j: int)
    requires
        s.wf(),
        0 <= i < s.rows.len(),
        0 <= j < s.rows.len(),
        s.rows[i].task.id == s.rows[j].task.id,
    ensures
        i == j,
{
    if i < j {
        assert(s.rows[i].task.id < s.rows[j].task.id);
    } else if j < i {
        assert(s.rows[j].task.id < s.rows[i].task.id);
    }
}

/// Replacing a row by one with the same id keeps the queue well formed.
pub proof fn lemma_wf_update(s: StoreView, i: int, r: TaskRowView)
    requires
        s.wf(),
        0 <= i < s.rows.len(),
        r.task.id == s.rows[i].task.id,
    ensures
        s.with_rows(s.rows.update(i, r)).wf(),
{
    let t = s.with_rows(s.rows.update(i, r));
    assert forall|a: int, b: int| 0 <= a < b < t.rows.len() implies (#[trigger] t.rows[a]).task.id < (#[trigger] t.rows[b]).task.id by {
        assert(s.rows[a].task.id < s.rows[b].task.id);
    }
    assert forall|a: int| 0 <= a < t.rows.len() implies (#[trigger] t.rows[a]).task.id <= t.task_seq by {
        assert(s.rows[a].task.id <= s.task_seq);
    }
}

/// The live row with an id is the one that `live_index` names.
pub proof fn lemma_live_index(s: StoreView, i: int)
    requires
        s.wf(),
        0 <= i < s.rows.len(),
        live(s.rows[i]),
    ensures
        s.has_live(s.rows[i].task.id),
        s.live_index(s.rows[i].task.id) == i,
{
    let id = s.rows[i].task.id;
    assert(s.has_live(id));
    let k = s.live_index(id);
    lemma_unique_ids(s, i, k);
}

/// At most one row is the first that a selection picks.
pub proof fn lemma_first_unique(rows: Seq<TaskRowView>, sel: Selection, i: int, k: int)
    requires
        is_first_where(rows, sel, i),
        is_first_where(rows, sel, k),
    ensures
        i == k,
{
    if i != k {
        assert(selected(sel, rows[k]));
        assert(selected(sel, rows[i]));
        lemma_before_asymmetric(rows[i].task, rows[k].task);
    }
}

/// A first row that was found is the one that `first_index` names.
pub proof fn lemma_first_index(s: StoreView, sel: Selection, i: int)
    requires
        is_first_where(s.rows, sel, i),
    ensures
        s.has_first(sel),
        s.first_index(sel) == i,
{
    assert(s.has_first(sel));
    lemma_first_unique(s.rows, sel, i, s.first_index(sel));
}

/// The project with a path is the one that `project_index` names.
pub proof fn lemma_project_index(s: StoreView, i: int)
    requires
        s.wf(),
        0 <= i < s.projects.len(),
    ensures
        s.has_project(s.projects[i].path),
        s.project_index(s.projects[i].path) == i,
{
    let p = s.projects[i].path;
    assert(s.has_project(p));
    let k = s.project_index(p);
    if k != i {
        assert(s.projects[k].path != s.projects[i].path);
    }
}


/// Inserting a task at its place in a sorted sequence keeps it sorted.
pub proof fn lemma_insert_sorted(s: Seq<TaskView>, p: int, t: TaskView)
    requires
        sorted(s),
        0 <= p <= s.len(),
        forall|q: int| 0 <= q < p ==> before(#[trigger] s[q], t),
        p < s.len() ==> before(t, s[p]),
    ensures
        sorted(s.insert(p, t)),
{
    let u = s.insert(p, t);
    assert forall|i: int, j: int| 0 <= i < j < u.len() implies before(#[trigger] u[i], #[trigger] u[j]) by {
        if j < p {
            assert(u[i] == s[i] && u[j] == s[j]);
        } else if j == p {
            assert(u[i] == s[i]);
        } else if i < p {
            assert(u[i] == s[i] && u[j] == s[j - 1]);
        } else if i == p {
            assert(u[j] == s[j - 1]);
            if j - 1 > p {
                lemma_before_transitive(t, s[p], s[j - 1]);
            }
        } else {
            assert(u[i] == s[i - 1] && u[j] == s[j - 1]);
        }
    }
}

/// What a sequence holds after an insertion.
pub proof fn lemma_insert_contains(s: Seq<TaskView>, p: int, t: TaskView, x: TaskView)
    requires
        0 <= p <= s.len(),
    ensures
        s.insert(p, t).contains(x) <==> (s.contains(x) || x == t),
{
    let u = s.insert(p, t);
    if s.contains(x) {
        let k = choose|k: int| 0 <= k < s.len() && s[k] == x;
        if k < p {
            assert(u[k] == x);
        } else {
            assert(u[k + 1] == x);
        }
    }
    if x == t {
        assert(u[p] == x);
    }
    if u.contains(x) {
        let k = choose|k: int| 0 <= k < u.len() && u[k] == x;
        if k < p {
            assert(s[k] == x);
        } else if k > p {
            assert(s[k - 1] == x);
        }
    }
}

/// Two strictly sorted sequences with the same elements are equal.
pub proof fn lemma_sorted_unique(a: Seq<TaskView>, b: Seq<TaskView>)
    requires
        sorted(a),
        sorted(b),
        forall|t: TaskView| a.contains(t) <==> b.contains(t),
    ensures
        a == b,
    decreases a.len(),
{
    if a.len() == 0 {
        if b.len() > 0 {
            assert(b.contains(b[0]));
        }
        assert(a =~= b);
    } else {
        assert(a.contains(a[0]));
        assert(b.len() > 0);
        assert(b.contains(b[0]));
        let i = choose|i: int| 0 <= i < b.len() && b[i] == a[0];
        let j = choose|j: int| 0 <= j < a.len() && a[j] == b[0];
        if i > 0 {
            assert(before(b[0], b[i]));
            if j > 0 {
                assert(before(a[0], a[j]));
                lemma_before_asymmetric(a[0], b[0]);
            } else {
                lemma_before_asymmetric(a[0], a[0]);
            }
        }
        assert(a[0] == b[0]);
        let a1 = a.drop_first();
        let b1 = b.drop_first();
        assert forall|t: TaskView| a1.contains(t) <==> b1.contains(t) by {
            if a1.contains(t) {
                let k = choose|k: int| 0 <= k < a1.len() && a1[k] == t;
                assert(a[k + 1] == t);
                assert(before(a[0], a[k + 1]));
                assert(a.contains(t));
                let m = choose|m: int| 0 <= m < b.len() && b[m] == t;
                if m == 0 {
                    lemma_before_asymmetric(t, t);
                }
                assert(b1[m - 1] == t);
            }
            if b1.contains(t) {
                let k = choose|k: int| 0 <= k < b1.len() && b1[k] == t;
                assert(b[k + 1] == t);
                assert(before(b[0], b[k + 1]));
                assert(b.contains(t));
                let m = choose|m: int| 0 <= m < a.len() && a[m] == t;
                if m == 0 {
                    lemma_before_asymmetric(t, t);
                }
                assert(a1[m - 1] == t);
            }
        }
        assert forall|x: int, y: int| 0 <= x < y < a1.len() implies before(#[trigger] a1[x], #[trigger] a1[y]) by {
            assert(a1[x] == a[x + 1] && a1[y] == a[y + 1]);
        }
        assert forall|x: int, y: int| 0 <= x < y < b1.len() implies before(#[trigger] b1[x], #[trigger] b1[y]) by {
            assert(b1[x] == b[x + 1] && b1[y] == b[y + 1]);
        }
        lemma_sorted_unique(a1, b1);
        assert(a.len() == b.len());
        assert forall|k: int| 0 <= k < a.len() implies a[k] == b[k] by {
            if k > 0 {
                assert(a[k] == a1[k - 1]);
                assert(b[k] == b1[k - 1]);
            }
        }
        assert(a =~= b);
    }
}

/// A listing that exists is the one `listing` names.
pub proof fn lemma_listing_is(s: StoreView, f: ShowFilter, out: Seq<TaskView>)
    requires
        s.is_listing(f, out),
    ensures
        s.listing(f) == out,
{
    let l = s.listing(f);
    assert(s.is_listing(f, l));
    lemma_sorted_unique(l, out);
}

/// The full listing, when not empty, starts with the first task.
pub proof fn lemma_listing_head(s: StoreView, out: Seq<TaskView>)
    requires
        s.wf(),
        s.is_listing(ShowFilter::All, out),
    ensures
        out.len() > 0 ==> s.first() == Some(out[0]),
        out.len() == 0 ==> s.first() is None,
{
    let sel = Selection::Shown(ShowFilter::All);
    if out.len() > 0 {
        assert(out.contains(out[0]));
        assert(s.listed(ShowFilter::All, out[0]));
        let i = choose|i: int| 0 <= i < s.rows.len() && shown(#[trigger] s.rows[i], ShowFilter::All) && s.rows[i].task == out[0];
        assert forall|j: int| 0 <= j < s.rows.len() && j != i && #[trigger] selected(sel, s.rows[j]) implies before(s.rows[i].task, s.rows[j].task) by {
            assert(s.listed(ShowFilter::All, s.rows[j].task));
            assert(out.contains(s.rows[j].task));
            let k = choose|k: int| 0 <= k < out.len() && out[k] == s.rows[j].task;
            if k == 0 {
                lemma_unique_ids(s, i, j);
            } else {
                assert(before(out[0], out[k]));
            }
        }
        assert(is_first_where(s.rows, sel, i));
        lemma_first_index(s, sel, i);
    } else {
        if s.has_first(sel) {
            let i = s.first_index(sel);
            assert(s.listed(ShowFilter::All, s.rows[i].task));
            assert(out.contains(s.rows[i].task));
        }
    }
}

/// A row appended with an id above every id so far keeps the queue well formed.
pub proof fn lemma_wf_push_row(s: StoreView, r: TaskRowView)
    requires
        s.wf(),
        s.task_seq < r.task.id,
    ensures
        s.push_row(r).wf(),
{
    let t = s.push_row(r);
    assert forall|a: int, b: int| 0 <= a < b < t.rows.len() implies (#[trigger] t.rows[a]).task.id < (#[trigger] t.rows[b]).task.id by {
        if b < s.rows.len() {
            assert(s.rows[a].task.id < s.rows[b].task.id);
        } else {
            assert(s.rows[a].task.id <= s.task_seq);
        }
    }
    assert forall|a: int| 0 <= a < t.rows.len() implies (#[trigger] t.rows[a]).task.id <= t.task_seq by {
        if a < s.rows.len() {
            assert(s.rows[a].task.id <= s.task_seq);
        }
    }
}

/// The project table after an upsert is still well formed.
pub proof fn lemma_wf_upsert(s: StoreView, path: Seq<char>, now: i64)
    requires
        s.wf(),
        s.has_project(path) || s.project_seq < i64::MAX,
    ensures
        s.with_projects(s.upsert_project(path, now).0, s.upsert_project(path, now).2).wf(),
{
    let (projects, pid, pseq) = s.upsert_project(path, now);
    let t = s.with_projects(projects, pseq);
    if s.has_project(path) {
        let i = s.project_index(path);
        assert forall|a: int, b: int| 0 <= a < b < t.projects.len() implies (#[trigger] t.projects[a]).id < (#[trigger] t.projects[b]).id by {
            assert(s.projects[a].id < s.projects[b].id);
        }
        assert forall|a: int| 0 <= a < t.projects.len() implies (#[trigger] t.projects[a]).id <= t.project_seq by {
            assert(s.projects[a].id <= s.project_seq);
        }
        assert forall|a: int, b: int| 0 <= a < t.projects.len() && 0 <= b < t.projects.len() && a != b
            implies (#[trigger] t.projects[a]).path != (#[trigger] t.projects[b]).path by {
            assert(s.projects[a].path != s.projects[b].path);
        }
    } else {
        let n = s.projects.len();
        assert forall|a: int, b: int| 0 <= a < b < t.projects.len() implies (#[trigger] t.projects[a]).id < (#[trigger] t.projects[b]).id by {
            if b < n {
                assert(s.projects[a].id < s.projects[b].id);
            } else {
                assert(s.projects[a].id <= s.project_seq);
            }
        }
        assert forall|a: int| 0 <= a < t.projects.len() implies (#[trigger] t.projects[a]).id <= t.project_seq by {
            if a < n {
                assert(s.projects[a].id <= s.project_seq);
            }
        }
        assert forall|a: int, b: int| 0 <= a < t.projects.len() && 0 <= b < t.projects.len() && a != b
            implies (#[trigger] t.projects[a]).path != (#[trigger] t.projects[b]).path by {
            if a < n && b < n {
                assert(s.projects[a].path != s.projects[b].path);
            } else if a < n {
                assert(t.projects[b].path == path);
                if s.projects[a].path == path {
                    assert(s.has_project(path));
                }
            } else {
                assert(t.projects[a].path == path);
                if s.projects[b].path == path {
                    assert(s.has_project(path));
                }
            }
        }
    }
}

/// Why stored tables cannot be taken as a queue.
#[derive(Debug, Clone, Copy, PartialEq, Eq, Structural)]
pub enum LoadError {
    /// The task rows are not in strictly increasing id order.
    TasksOutOfOrder,
    /// The project rows are not in strictly increasing id order.
    ProjectsOutOfOrder,
    /// Two projects have the same path.
    DuplicateProjectPath,
}

/// The ids of the rows strictly increase.
pub open spec fn rows_ordered(rows: Seq<TaskRowView>) -> bool {
    forall|i: int, j: int| 0 <= i < j < rows.len() ==> (#[trigger] rows[i]).task.id < (#[trigger] rows[j]).task.id
}

/// The ids of the projects strictly increase.
pub open spec fn projects_ordered(projects: Seq<ProjectView>) -> bool {
    forall|i: int, j: int| 0 <= i < j < projects.len() ==> (#[trigger] projects[i]).id < (#[trigger] projects[j]).id
}

/// No two projects share a path.
pub open spec fn paths_distinct(projects: Seq<ProjectView>) -> bool {
    forall|i: int, j: int|
        0 <= i < projects.len() && 0 <= j < projects.len() && i != j
            ==> (#[trigger] projects[i]).path != (#[trigger] projects[j]).path
}

/// The larger of a recorded sequence value and the last id of a table.
pub open spec fn seq_covering(recorded: i64, last: Option<i64>) -> i64 {
    match last {
        Some(id) => if id > recorded { id } else { recorded },
        None => recorded,
    }
}

/// The queue that stored tables describe: rows and projects as given, each
/// sequence raised to the table's last id when that is larger.
pub open spec fn load_view(
    rows: Seq<TaskRowView>,
    projects: Seq<ProjectView>,
    task_seq: i64,
    project_seq: i64,
) -> Result<StoreView, LoadError> {
    if !rows_ordered(rows) {
        Err(LoadError::TasksOutOfOrder)
    } else if !projects_ordered(projects) {
        Err(LoadError::ProjectsOutOfOrder)
    } else if !paths_distinct(projects) {
        Err(LoadError::DuplicateProjectPath)
    } else {
        Ok(StoreView {
            rows: rows,
            projects: projects,
            task_seq: seq_covering(task_seq, if rows.len() > 0 { Some(rows.last().task.id) } else { None }),
            project_seq: seq_covering(project_seq, if projects.len() > 0 { Some(projects.last().id) } else { None }),
        })
    }
}

} // verus!
