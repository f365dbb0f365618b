use vstd::prelude::*;
use crate::store::{lemma_pick_exists, lemma_release_bounded, lemma_release_distinct, other_than, row_other_than, QueueModel};
use crate::task::{admitted_by, Filters, Task, TaskState, TaskType, Timestamp, ID};

verus! {

/// Filtering keeps a sequence whole when every element passes.
pub proof fn lemma_filter_keeps_all<A>(s: Seq<A>, p: spec_fn(A) -> bool)
    requires
        forall|i: int| 0 <= i < s.len() ==> p(#[trigger] s[i]),
    ensures
        s.filter(p) == s,
    decreases s.len(),
{
    if s.len() == 0 {
        s.lemma_filter_len(p);
        assert(s.filter(p) =~= s);
    } else {
        let init = s.drop_last();
        lemma_filter_keeps_all(init, p);
        assert(s == init.push(s.last()));
        init.lemma_filter_push(s.last(), p);
    }
}

/// Every row with this id sits at position `i`: ids are unique.
proof fn lemma_find_at(m: QueueModel, i: int)
    requires
        m.wf(),
        0 <= i < m.tasks.len(),
    ensures
        m.find(m.tasks[i].id) == Some(m.tasks[i]),
{
    let id = m.tasks[i].id;
    assert(m.has_id(id));
    let k = choose|k: int| 0 <= k < m.tasks.len() && m.tasks[k].id == id;
    if k < i {
        assert(m.tasks[k].id < m.tasks[i].id);
    } else if k > i {
        assert(m.tasks[i].id < m.tasks[k].id);
    }
}

/// A task whose execution time is still ahead of `now` is never the one a claim
/// at `now` selects, and a claim at `now` leaves its lock as it was.
pub proof fn lemma_future_task_not_claimed(m: QueueModel, now: Timestamp, i: int)
    requires
        m.wf(),
        0 <= i < m.tasks.len(),
        m.tasks[i].execution_time > now,
    ensures
        forall|j: int| m.is_pick(j, now) ==> m.tasks[j].id != m.tasks[i].id,
        m.has_work(now) ==> m.pick(now).id != m.tasks[i].id,
        m.claimed(now).locked.contains(m.tasks[i].id) == m.locked.contains(m.tasks[i].id),
        m.claimed(now).tasks == m.tasks,
{
    assert forall|j: int| m.is_pick(j, now) implies m.tasks[j].id != m.tasks[i].id by {
        if j < i {
            assert(m.tasks[j].id < m.tasks[i].id);
        } else if j > i {
            assert(m.tasks[i].id < m.tasks[j].id);
        }
    }
    if m.has_work(now) {
        lemma_pick_exists(m, now);
        let id = m.tasks[i].id;
        let l = m.locked.push(m.pick(now).id);
        if m.locked.contains(id) {
            let w = choose|w: int| 0 <= w < m.locked.len() && m.locked[w] == id;
            assert(l[w] == id);
        }
        if l.contains(id) {
            let w = choose|w: int| 0 <= w < l.len() && l[w] == id;
            assert(w < m.locked.len());
            assert(m.locked[w] == id);
        }
    }
}

/// With exactly one task ready and free, a claim selects that task; every other
/// claim attempt while it is held finds no work and changes nothing; and once
/// the claim commits, the task is completed and there is still no work.
pub proof fn lemma_single_ready_claimed_once(m: QueueModel, now: Timestamp, k: int)
    requires
        m.wf(),
        0 <= k < m.tasks.len(),
        m.claimable(m.tasks[k], now),
        forall|j: int| 0 <= j < m.tasks.len() && m.claimable(#[trigger] m.tasks[j], now) ==> j == k,
    ensures
        m.has_work(now),
        m.pick(now) == m.tasks[k],
        !m.claimed(now).has_work(now),
        m.claimed(now).claimed(now) == m.claimed(now),
        m.claimed(now).completed(m.tasks[k].id, now).find(m.tasks[k].id) == Some(
            QueueModel::mark_completed(m.tasks[k], now),
        ),
        !m.claimed(now).completed(m.tasks[k].id, now).has_work(now),
{
    let id = m.tasks[k].id;
    assert(m.is_pick(k, now));
    lemma_pick_exists(m, now);
    let c = m.claimed(now);
    assert(c.locked[m.locked.len() as int] == id);
    assert forall|j: int| 0 <= j < c.tasks.len() implies !c.claimable(#[trigger] c.tasks[j], now) by {
        if j != k {
            assert(!m.claimable(m.tasks[j], now));
            if m.locked.contains(m.tasks[j].id) {
                let w = choose|w: int| 0 <= w < m.locked.len() && m.locked[w] == m.tasks[j].id;
                assert(c.locked[w] == m.tasks[j].id);
            }
        }
    }
    let d = c.completed(id, now);
    assert forall|j: int| 0 <= j < d.tasks.len() implies d.tasks[j].id == m.tasks[j].id by {}
    assert forall|i: int| 0 <= i < c.locked.len() implies #[trigger] c.locked[i] < c.next_id by {
        if i < m.locked.len() {
            assert(m.locked[i] < m.next_id);
        }
    }
    lemma_release_bounded(c.locked, id, c.next_id);
    lemma_release_distinct(c.locked, id);
    assert(d.wf());
    lemma_find_at(d, k);
    assert forall|j: int| 0 <= j < d.tasks.len() implies !d.claimable(#[trigger] d.tasks[j], now) by {
        if j != k {
            if j < k {
                assert(m.tasks[j].id < id);
            } else {
                assert(id < m.tasks[j].id);
            }
            assert(d.tasks[j] == m.tasks[j]);
            if m.tasks[j].is_ready(now) {
                let w = choose|w: int| 0 <= w < m.locked.len() && m.locked[w] == m.tasks[j].id;
                assert(c.locked[w] == m.tasks[j].id);
                c.locked.lemma_filter_contains(other_than(id), w);
            }
        }
    }
}

/// A task created already due, in a store where nothing else may be claimed,
/// is the one the next claim selects; once that claim commits, the task is
/// completed with an update time later than its creation time, and a second
/// attempt finds no work.
pub proof fn lemma_due_task_runs_once(
    m: QueueModel,
    kind: TaskType,
    execution_time: Timestamp,
    created: Timestamp,
    now: Timestamp,
)
    requires
        m.wf(),
        m.can_create(),
        !m.has_work(now),
        execution_time <= now,
        created < now,
    ensures
        ({
            let c = m.created(kind, execution_time, created);
            let id = m.next_id as ID;
            let d = c.claimed(now).completed(id, now);
            &&& c.has_work(now)
            &&& c.pick(now) == m.new_task(kind, execution_time, created)
            &&& d.find(id) matches Some(t) && t.state == TaskState::Completed && t.updated_at == now
                && t.updated_at > t.created_at
            &&& !d.has_work(now)
        }),
{
    let c = m.created(kind, execution_time, created);
    let k = m.tasks.len() as int;
    assert(c.tasks[k] == m.new_task(kind, execution_time, created));
    assert forall|j: int| 0 <= j < c.tasks.len() && c.claimable(#[trigger] c.tasks[j], now) implies j == k by {
        if j < k {
            assert(c.tasks[j] == m.tasks[j]);
            assert(!m.claimable(m.tasks[j], now));
        }
    }
    assert(c.wf());
    lemma_single_ready_claimed_once(c, now, k);
}

/// Deleting an id twice leaves the store as deleting it once did, and no row
/// with that id remains.
pub proof fn lemma_destroy_idempotent(m: QueueModel, id: ID)
    requires
        m.wf(),
    ensures
        m.destroyed(id).destroyed(id) == m.destroyed(id),
        m.destroyed(id).find(id) is None,
{
    let kept = m.tasks.filter(row_other_than(id));
    assert forall|i: int| 0 <= i < kept.len() implies (row_other_than(id))(#[trigger] kept[i]) by {
        m.tasks.lemma_filter_pred(row_other_than(id), i);
    }
    lemma_filter_keeps_all(kept, row_other_than(id));
    assert(!m.destroyed(id).has_id(id));
}

/// A task read back right after its creation is pending, has the kind and
/// execution time it was created with, and was created and updated at the
/// same instant.
pub proof fn lemma_create_then_read(m: QueueModel, kind: TaskType, execution_time: Timestamp, now: Timestamp)
    requires
        m.wf(),
        m.can_create(),
    ensures
        m.created(kind, execution_time, now).find(m.next_id as ID) == Some(
            Task {
                id: m.next_id as ID,
                kind,
                execution_time,
                state: TaskState::Pending,
                created_at: now,
                updated_at: now,
            },
        ),
{
    let c = m.created(kind, execution_time, now);
    assert(c.wf());
    lemma_find_at(c, m.tasks.len() as int);
}

/// A listing returns exactly the stored tasks that pass its filters, and with
/// no filter it returns the whole table.
pub proof fn lemma_list_filters(m: QueueModel, filters: Filters)
    ensures
        forall|t: Task| #[trigger] m.listed(filters).contains(t) <==> (m.tasks.contains(t) && filters.admits(t)),
        m.listed(Filters { state: None, kind: None }) == m.tasks,
{
    assert forall|t: Task| #[trigger] m.listed(filters).contains(t) <==> (m.tasks.contains(t) && filters.admits(t)) by {
        if m.listed(filters).contains(t) {
            m.tasks.lemma_filter_contains_rev(admitted_by(filters), t);
            let i = choose|i: int| 0 <= i < m.listed(filters).len() && m.listed(filters)[i] == t;
            m.tasks.lemma_filter_pred(admitted_by(filters), i);
        }
        if m.tasks.contains(t) && filters.admits(t) {
            let i = choose|i: int| 0 <= i < m.tasks.len() && m.tasks[i] == t;
            m.tasks.lemma_filter_contains(admitted_by(filters), i);
        }
    }
    let none = Filters { state: None, kind: None };
    assert forall|i: int| 0 <= i < m.tasks.len() implies (admitted_by(none))(#[trigger] m.tasks[i]) by {}
    lemma_filter_keeps_all(m.tasks, admitted_by(none));
}

/// A claim that is rolled back leaves the store exactly as it was: the task is
/// still pending and is the one the next claim selects.
pub proof fn lemma_rollback_restores(m: QueueModel, now: Timestamp)
    requires
        m.wf(),
        m.has_work(now),
    ensures
        m.claimed(now).released(m.pick(now).id) == m,
        m.pick(now).state == TaskState::Pending,
{
    lemma_pick_exists(m, now);
    let id = m.pick(now).id;
    assert forall|i: int| 0 <= i < m.locked.len() implies (other_than(id))(#[trigger] m.locked[i]) by {
        assert(m.locked.contains(m.locked[i]));
    }
    lemma_filter_keeps_all(m.locked, other_than(id));
    m.locked.lemma_filter_push(id, other_than(id));
}

} // verus!
