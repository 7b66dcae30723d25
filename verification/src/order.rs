use vstd::prelude::*;

use crate::models::{Task, TaskView};

verus! {

/// The queue order: higher priority first, then newer (larger `created_at`)
/// first; tasks equal in both keep the order in which they were stored
/// (smaller id first).
pub open spec fn before(a: TaskView, b: TaskView) -> bool {
    ||| a.priority > b.priority
    ||| (a.priority == b.priority && a.created_at > b.created_at)
    ||| (a.priority == b.priority && a.created_at == b.created_at && a.id < b.id)
}

/// A sequence of tasks in strict queue order.
pub open spec fn sorted(s: Seq<TaskView>) -> bool {
    forall|i: int, j: int| 0 <= i < j < s.len() ==> before(#[trigger] s[i], #[trigger] s[j])
}

/// No task comes before itself, and two tasks are never each before the other.
pub proof fn lemma_before_asymmetric(a: TaskView, b: TaskView)
    ensures
        !(before(a, b) && before(b, a)),
        !before(a, a),
{
}

/// The queue order is transitive.
pub proof fn lemma_before_transitive(a: TaskView, b: TaskView, c: TaskView)
    requires
        before(a, b),
        before(b, c),
    ensures
        before(a, c),
{
}

/// Of two tasks with different ids, one comes before the other.
pub proof fn lemma_before_total(a: TaskView, b: TaskView)
    requires
        a.id != b.id,
    ensures
        before(a, b) || before(b, a),
{
}

/// Whether `a` comes before `b` in the queue order.
pub fn task_before(a: &Task, b: &Task) -> (r: bool)
    ensures
        r == before(a@, b@),
{
    a.priority > b.priority
        || (a.priority == b.priority && a.created_at > b.created_at)
        || (a.priority == b.priority && a.created_at == b.created_at && a.id < b.id)
}

} // verus!
