//! What holds of the queue across operations.

use vstd::prelude::*;

use crate::error::TaskError;
use crate::models::{ShowFilter, TaskView};
use crate::order::before;
use crate::tables::{
    count_live, deleted, is_first_where, lemma_listing_head, lemma_live_index, lemma_project_index, lemma_unique_ids,
    lemma_wf_push_row, lemma_wf_update, lemma_wf_upsert, live, load_view, selected, shown, with_detail, with_done,
    cleared, LoadError, Selection, StoreView, TaskRowView,
};

verus! {

/// Toggling the same task twice gives back its completion state; only its
/// update time differs. On an unknown id both toggles are refused alike.
pub proof fn law_toggle_twice_restores(s: StoreView, id: i64, t1: i64, t2: i64)
    requires
        s.wf(),
    ensures
        ({
            let (s1, r1) = s.toggle(id, t1);
            let (s2, r2) = s1.toggle(id, t2);
            &&& r1 == r2
            &&& s.has_live(id) ==> s2 == s.with_rows(
                s.rows.update(s.live_index(id), with_done(s.rows[s.live_index(id)], s.rows[s.live_index(id)].task.done, t2)),
            )
            &&& !s.has_live(id) ==> s2 == s && r2 == Err::<(), TaskError>(TaskError::NotFound(id))
        }),
{
    let (s1, r1) = s.toggle(id, t1);
    if s.has_live(id) {
        let i = s.live_index(id);
        lemma_wf_update(s, i, with_done(s.rows[i], !s.rows[i].task.done, t1));
        lemma_live_index(s1, i);
        assert(s1.rows.update(i, with_done(s1.rows[i], !s1.rows[i].task.done, t2)) =~= s.rows.update(
            i,
            with_done(s.rows[i], s.rows[i].task.done, t2),
        ));
    }
}

/// A refused toggle, deletion or detail update leaves the queue unchanged and
/// answers `NotFound` with the id.
pub proof fn law_refused_requests_change_nothing(s: StoreView, id: i64, detail: Seq<char>, now: i64)
    requires
        s.wf(),
        !s.has_live(id),
    ensures
        s.toggle(id, now) == (s, Err::<(), TaskError>(TaskError::NotFound(id))),
        s.delete(id, now) == (s, Err::<(), TaskError>(TaskError::NotFound(id))),
        s.update_detail(id, detail, now) == (s, Err::<(), TaskError>(TaskError::NotFound(id))),
        s.get(id) == Err::<TaskView, TaskError>(TaskError::NotFound(id)),
{
}

/// A deleted task can no longer be read or listed, yet its row stays in the
/// table, marked with the deletion time; deleting it again is refused.
pub proof fn law_delete_hides(s: StoreView, id: i64, now: i64, later: i64)
    requires
        s.wf(),
        s.has_live(id),
    ensures
        ({
            let (s1, r) = s.delete(id, now);
            &&& r is Ok
            &&& s1.rows.len() == s.rows.len()
            &&& s1.rows[s.live_index(id)].deleted_at == Some(now)
            &&& s1.rows[s.live_index(id)].task.id == id
            &&& s1.get(id) == Err::<TaskView, TaskError>(TaskError::NotFound(id))
            &&& forall|f: ShowFilter, t: TaskView| t.id == id ==> !s1.listed(f, t)
            &&& s1.delete(id, later).1 == Err::<(), TaskError>(TaskError::NotFound(id))
        }),
{
    let (s1, r) = s.delete(id, now);
    let i = s.live_index(id);
    lemma_wf_update(s, i, deleted(s.rows[i], now));
    if s1.has_live(id) {
        let k = s1.live_index(id);
        lemma_unique_ids(s1, i, k);
    }
    assert forall|f: ShowFilter, t: TaskView| t.id == id implies !s1.listed(f, t) by {
        if s1.listed(f, t) {
            let k = choose|k: int| 0 <= k < s1.rows.len() && shown(#[trigger] s1.rows[k], f) && s1.rows[k].task == t;
            lemma_unique_ids(s1, i, k);
        }
    }
}

/// A task just added can be read back as it was returned; its id is above
/// every id handed out before; it belongs to no project and shows in the
/// full and the incomplete listings.
pub proof fn law_read_after_add(s: StoreView, title: Seq<char>, priority: i64, now: i64)
    requires
        s.wf(),
        s.task_seq < i64::MAX,
    ensures
        ({
            let (s1, r) = s.add(title, priority, now);
            &&& r is Ok
            &&& s1.get(r->Ok_0.id) == r
            &&& r->Ok_0.id > s.task_seq
            &&& forall|i: int| 0 <= i < s.rows.len() ==> (#[trigger] s.rows[i]).task.id < r->Ok_0.id
            &&& r->Ok_0.project_id is None
            &&& r->Ok_0.title == title && r->Ok_0.priority == priority && !r->Ok_0.done
            &&& s1.listed(ShowFilter::All, r->Ok_0)
            &&& s1.listed(ShowFilter::Incomplete, r->Ok_0)
        }),
{
    let (s1, r) = s.add(title, priority, now);
    let n = s.rows.len();
    lemma_wf_push_row(s, s1.rows[n as int]);
    assert(s1.rows[n as int].task == r->Ok_0);
    lemma_live_index(s1, n as int);
    assert(shown(s1.rows[n as int], ShowFilter::All));
    assert(shown(s1.rows[n as int], ShowFilter::Incomplete));
}

/// After a detail update the task reads back with the new detail and
/// nothing else of it changed but its update time.
pub proof fn law_read_after_update_detail(s: StoreView, id: i64, detail: Seq<char>, now: i64)
    requires
        s.wf(),
        s.has_live(id),
    ensures
        ({
            let (s1, r) = s.update_detail(id, detail, now);
            let old_task = s.get(id)->Ok_0;
            &&& r is Ok
            &&& s1.get(id) == Ok::<TaskView, TaskError>(TaskView { detail: detail, updated_at: now, ..old_task })
        }),
{
    let (s1, r) = s.update_detail(id, detail, now);
    let i = s.live_index(id);
    lemma_wf_update(s, i, with_detail(s.rows[i], detail, now));
    lemma_live_index(s1, i);
}

/// A clear deletes exactly the live tasks and reports how many there were:
/// afterwards nothing is listed, no first task exists, every row is still
/// stored, and a second clear reports 0.
pub proof fn law_clear_empties(s: StoreView, now: i64, later: i64)
    requires
        s.wf(),
    ensures
        ({
            let (s1, count) = s.clear(now);
            &&& count == count_live(s.rows)
            &&& s1.rows.len() == s.rows.len()
            &&& forall|f: ShowFilter, t: TaskView| !s1.listed(f, t)
            &&& s1.first() is None
            &&& s1.clear(later).1 == 0
        }),
{
    let (s1, count) = s.clear(now);
    assert forall|f: ShowFilter, t: TaskView| !s1.listed(f, t) by {
        if s1.listed(f, t) {
            let k = choose|k: int| 0 <= k < s1.rows.len() && shown(#[trigger] s1.rows[k], f) && s1.rows[k].task == t;
            assert(s1.rows[k] == cleared(s.rows[k], now));
        }
    }
    if s1.has_first(Selection::Shown(ShowFilter::All)) {
        let i = s1.first_index(Selection::Shown(ShowFilter::All));
        assert(s1.listed(ShowFilter::All, s1.rows[i].task));
    }
    lemma_count_live_none(s1.rows);
}

/// A table with no live row counts 0 live rows.
pub proof fn lemma_count_live_none(rows: Seq<TaskRowView>)
    requires
        forall|i: int| 0 <= i < rows.len() ==> !live(#[trigger] rows[i]),
    ensures
        count_live(rows) == 0,
    decreases rows.len(),
{
    if rows.len() > 0 {
        assert(!live(rows[rows.len() - 1]));
        lemma_count_live_none(rows.drop_last());
    }
}

/// The full listing is the incomplete listing together with the completed
/// one, and no task shows in both.
pub proof fn law_all_is_incomplete_and_completed(s: StoreView, t: TaskView)
    ensures
        s.listed(ShowFilter::All, t) <==> (s.listed(ShowFilter::Incomplete, t) || s.listed(ShowFilter::Completed, t)),
        !(s.listed(ShowFilter::Incomplete, t) && s.listed(ShowFilter::Completed, t)),
        s.listed(ShowFilter::Incomplete, t) ==> !t.done,
        s.listed(ShowFilter::Completed, t) ==> t.done,
{
    if s.listed(ShowFilter::All, t) {
        let i = choose|i: int| 0 <= i < s.rows.len() && shown(#[trigger] s.rows[i], ShowFilter::All) && s.rows[i].task == t;
        if t.done {
            assert(shown(s.rows[i], ShowFilter::Completed));
        } else {
            assert(shown(s.rows[i], ShowFilter::Incomplete));
        }
    }
    if s.listed(ShowFilter::Incomplete, t) {
        let i = choose|i: int| 0 <= i < s.rows.len() && shown(#[trigger] s.rows[i], ShowFilter::Incomplete) && s.rows[i].task == t;
        assert(shown(s.rows[i], ShowFilter::All));
    }
    if s.listed(ShowFilter::Completed, t) {
        let i = choose|i: int| 0 <= i < s.rows.len() && shown(#[trigger] s.rows[i], ShowFilter::Completed) && s.rows[i].task == t;
        assert(shown(s.rows[i], ShowFilter::All));
    }
}

/// The first task is the head of the full listing, and there is none
/// exactly when that listing is empty.
pub proof fn law_first_is_head_of_listing(s: StoreView, out: Seq<TaskView>)
    requires
        s.wf(),
        s.is_listing(ShowFilter::All, out),
    ensures
        out.len() > 0 ==> s.first() == Some(out[0]),
        out.len() == 0 ==> s.first() is None,
{
    lemma_listing_head(s, out);
}

/// `next` only ever completes a task of the project with the given path:
/// the first, in queue order, of that project's unfinished live tasks. It
/// changes that one row and nothing else, makes no project, and with an
/// unknown path or an exhausted project it changes nothing.
pub proof fn law_next_is_scoped_to_project(s: StoreView, path: Seq<char>, now: i64)
    requires
        s.wf(),
    ensures
        ({
            let (s1, r) = s.next(path, now);
            &&& s1.projects == s.projects
            &&& s1.rows.len() == s.rows.len()
            &&& !s.has_project(path) ==> s1 == s && r is None
            &&& r is None ==> s1 == s
            &&& r matches Some(t) ==> {
                let i = s.first_index(s.project_selection(path));
                &&& s.has_project(path)
                &&& t.project_id == Some(s.projects[s.project_index(path)].id)
                &&& t.done && t.updated_at == now
                &&& live(s.rows[i]) && !s.rows[i].task.done && s.rows[i].task.id == t.id
                &&& forall|j: int|
                    0 <= j < s.rows.len() && j != i && live(#[trigger] s.rows[j]) && !s.rows[j].task.done
                        && s.rows[j].task.project_id == t.project_id ==> before(s.rows[i].task, s.rows[j].task)
                &&& forall|j: int| 0 <= j < s.rows.len() && j != i ==> (#[trigger] s1.rows[j]) == s.rows[j]
            }
        }),
{
    let (s1, r) = s.next(path, now);
    if let Some(t) = r {
        let sel = s.project_selection(path);
        let i = s.first_index(sel);
        assert(is_first_where(s.rows, sel, i));
        assert forall|j: int|
            0 <= j < s.rows.len() && j != i && live(#[trigger] s.rows[j]) && !s.rows[j].task.done
                && s.rows[j].task.project_id == t.project_id implies before(s.rows[i].task, s.rows[j].task) by {
            assert(selected(sel, s.rows[j]));
        }
    }
}

/// Pushing twice from the same path makes one project, which both tasks
/// belong to.
pub proof fn law_push_reuses_project(
    s: StoreView,
    path: Seq<char>,
    t1: Seq<char>,
    t2: Seq<char>,
    d1: Seq<char>,
    d2: Seq<char>,
    p1: i64,
    p2: i64,
    now1: i64,
    now2: i64,
)
    requires
        s.wf(),
        s.task_seq < i64::MAX - 1,
        s.project_seq < i64::MAX,
    ensures
        ({
            let (s1, r1) = s.push(t1, d1, p1, Some(path), now1);
            let (s2, r2) = s1.push(t2, d2, p2, Some(path), now2);
            &&& r1 is Ok && r2 is Ok
            &&& r1->Ok_0.project_id == r2->Ok_0.project_id
            &&& s2.projects.len() == s.projects.len() + if s.has_project(path) { 0int } else { 1int }
            &&& s2.has_project(path)
            &&& r2->Ok_0.project_id == Some(s2.projects[s2.project_index(path)].id)
        }),
{
    let (s1, r1) = s.push(t1, d1, p1, Some(path), now1);
    lemma_wf_upsert(s, path, now1);
    let (projects, pid, pseq) = s.upsert_project(path, now1);
    let mid = s.with_projects(projects, pseq);
    lemma_wf_push_row(mid, s1.rows.last());
    assert(s1.wf());
    let k = if s.has_project(path) { s.project_index(path) } else { s.projects.len() as int };
    assert(s1.projects[k].path == path);
    assert(s1.projects[k].id == pid);
    lemma_project_index(s1, k);
    let (s2, r2) = s1.push(t2, d2, p2, Some(path), now2);
    lemma_wf_upsert(s1, path, now2);
    let (projects2, pid2, pseq2) = s1.upsert_project(path, now2);
    lemma_wf_push_row(s1.with_projects(projects2, pseq2), s2.rows.last());
    assert(s2.projects[k].path == path);
    lemma_project_index(s2, k);
}

/// A pushed task sits below every listed task of the same priority that
/// was stamped at or after the epoch: pushing puts a task at the bottom of
/// its priority.
pub proof fn law_push_goes_to_bottom(
    s: StoreView,
    title: Seq<char>,
    detail: Seq<char>,
    priority: i64,
    path: Option<Seq<char>>,
    now: i64,
    u: TaskView,
)
    requires
        s.wf(),
        s.push(title, detail, priority, path, now).1 is Ok,
        s.listed(ShowFilter::All, u),
        u.priority == priority,
        u.created_at >= 0,
    ensures
        before(u, s.push(title, detail, priority, path, now).1->Ok_0),
        s.push(title, detail, priority, path, now).1->Ok_0.created_at == 0,
{
    let i = choose|i: int| 0 <= i < s.rows.len() && shown(#[trigger] s.rows[i], ShowFilter::All) && s.rows[i].task == u;
    assert(s.rows[i].task.id <= s.task_seq);
}

/// Stored tables of a well-formed queue load back as the same queue.
pub proof fn law_load_round_trip(s: StoreView)
    requires
        s.wf(),
    ensures
        load_view(s.rows, s.projects, s.task_seq, s.project_seq) == Ok::<StoreView, LoadError>(s),
{
    if s.rows.len() > 0 {
        assert(s.rows.last().task.id <= s.task_seq);
    }
    if s.projects.len() > 0 {
        assert(s.projects.last().id <= s.project_seq);
    }
}

} // verus!
