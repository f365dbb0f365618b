use vstd::prelude::*;
use crate::task::{admitted_by, Filters, StoreError, Task, TaskState, TaskType, Timestamp, ID};

verus! {

/// The contents of a queue store: its task table in id order, the ids held by
/// claims that are still open, and the id the next task will get.
pub struct QueueModel {
    pub tasks: Seq<Task>,
    pub locked: Seq<ID>,
    pub next_id: int,
}

impl QueueModel {
    /// A freshly opened store.
    pub open spec fn empty() -> QueueModel {
        QueueModel { tasks: Seq::empty(), locked: Seq::empty(), next_id: 1 }
    }

    /// Ids are positive, below the next id, and strictly increasing along the
    /// table; held ids are below the next id too, and no id is held twice, so
    /// at most one open claim holds a task.
    pub open spec fn wf(self) -> bool {
        &&& self.locked.no_duplicates()
        &&& 1 <= self.next_id <= i32::MAX + 1
        &&& forall|i: int| 0 <= i < self.locked.len() ==> #[trigger] self.locked[i] < self.next_id
        &&& forall|i: int|
            0 <= i < self.tasks.len() ==> 1 <= #[trigger] self.tasks[i].id < self.next_id
        &&& forall|i: int, j: int|
            0 <= i < j < self.tasks.len() ==> self.tasks[i].id < self.tasks[j].id
    }

    /// Whether the table holds a task with this id.
    pub open spec fn has_id(self, id: ID) -> bool {
        exists|i: int| 0 <= i < self.tasks.len() && self.tasks[i].id == id
    }

    /// The task with this id, if the table holds one.
    pub open spec fn find(self, id: ID) -> Option<Task> {
        if self.has_id(id) {
            Some(self.tasks[choose|i: int| 0 <= i < self.tasks.len() && self.tasks[i].id == id])
        } else {
            None
        }
    }

    /// Whether the id space still has room for a new task.
    pub open spec fn can_create(self) -> bool {
        self.next_id <= i32::MAX
    }

    /// The row that a creation at `now` inserts.
    pub open spec fn new_task(self, kind: TaskType, execution_time: Timestamp, now: Timestamp) -> Task {
        Task {
            id: self.next_id as ID,
            kind,
            execution_time,
            state: TaskState::Pending,
            created_at: now,
            updated_at: now,
        }
    }

    /// The store after a successful creation.
    pub open spec fn created(self, kind: TaskType, execution_time: Timestamp, now: Timestamp) -> QueueModel {
        QueueModel {
            tasks: self.tasks.push(self.new_task(kind, execution_time, now)),
            locked: self.locked,
            next_id: self.next_id + 1,
        }
    }

    /// The tasks that a listing with these filters returns, in id order.
    pub open spec fn listed(self, filters: Filters) -> Seq<Task> {
        self.tasks.filter(admitted_by(filters))
    }

    /// The store after deleting the row with this id, if any.
    pub open spec fn destroyed(self, id: ID) -> QueueModel {
        QueueModel { tasks: self.tasks.filter(row_other_than(id)), locked: self.locked, next_id: self.next_id }
    }

    /// A task may be claimed at `now` when it is ready and no open claim holds it.
    pub open spec fn claimable(self, t: Task, now: Timestamp) -> bool {
        t.is_ready(now) && !self.locked.contains(t.id)
    }

    /// Row `i` comes before row `j` in claim order: earlier execution time first,
    /// then lower position in the table.
    pub open spec fn precedes(self, i: int, j: int) -> bool {
        self.tasks[i].execution_time < self.tasks[j].execution_time || (
        self.tasks[i].execution_time == self.tasks[j].execution_time && i <= j)
    }

    /// Row `i` is the one a claim at `now` selects.
    pub open spec fn is_pick(self, i: int, now: Timestamp) -> bool {
        &&& 0 <= i < self.tasks.len()
        &&& self.claimable(self.tasks[i], now)
        &&& forall|j: int|
            0 <= j < self.tasks.len() && self.claimable(#[trigger] self.tasks[j], now) ==> self.precedes(i, j)
    }

    /// Whether some task may be claimed at `now`.
    pub open spec fn has_work(self, now: Timestamp) -> bool {
        exists|i: int| 0 <= i < self.tasks.len() && self.claimable(#[trigger] self.tasks[i], now)
    }

    /// The task a claim at `now` selects, when there is work.
    pub open spec fn pick(self, now: Timestamp) -> Task {
        self.tasks[choose|i: int| self.is_pick(i, now)]
    }

    /// The store after a claim attempt at `now`: the selected row is locked.
    pub open spec fn claimed(self, now: Timestamp) -> QueueModel {
        if self.has_work(now) {
            QueueModel { tasks: self.tasks, locked: self.locked.push(self.pick(now).id), next_id: self.next_id }
        } else {
            self
        }
    }

    /// The task, marked completed at `now`.
    pub open spec fn mark_completed(t: Task, now: Timestamp) -> Task {
        Task { state: TaskState::Completed, updated_at: now, ..t }
    }

    /// The store after committing the claim on `id` at `now`.
    pub open spec fn completed(self, id: ID, now: Timestamp) -> QueueModel {
        QueueModel {
            tasks: self.tasks.map_values(
                |t: Task|
                    if t.id == id {
                        QueueModel::mark_completed(t, now)
                    } else {
                        t
                    },
            ),
            locked: self.locked.filter(other_than(id)),
            next_id: self.next_id,
        }
    }

    /// The store after rolling back the claim on `id`.
    pub open spec fn released(self, id: ID) -> QueueModel {
        QueueModel { tasks: self.tasks, locked: self.locked.filter(other_than(id)), next_id: self.next_id }
    }

    /// The number of ready tasks at `now`, held or not.
    pub open spec fn backlog(self, now: Timestamp) -> nat {
        self.tasks.filter(|t: Task| t.is_ready(now)).len()
    }
}

/// Holds of every id but `id`.
pub open spec fn other_than(id: ID) -> spec_fn(ID) -> bool {
    |x: ID| x != id
}

/// Holds of every task whose id is not `id`.
pub open spec fn row_other_than(id: ID) -> spec_fn(Task) -> bool {
    |t: Task| t.id != id
}

/// The in-memory queue store: one table of tasks and the row locks of open claims.
pub struct Connection {
    rows: Vec<Task>,
    locked: Vec<ID>,
    next_id: i64,
}

impl View for Connection {
    type V = QueueModel;

    closed spec fn view(&self) -> QueueModel {
        QueueModel { tasks: self.rows@, locked: self.locked@, next_id: self.next_id as int }
    }
}

impl Connection {
    /// Opens an empty store. The name of the data source only labels it: an
    /// in-memory store cannot fail to open.
    pub fn new(_dsn: &str) -> (r: Result<Connection, StoreError>)
        ensures
            r matches Ok(c) && c@ == QueueModel::empty(),
    {
        let c = Connection { rows: Vec::new(), locked: Vec::new(), next_id: 1 };
        assert(c@.tasks =~= Seq::<Task>::empty());
        assert(c@.locked =~= Seq::<ID>::empty());
        Ok(c)
    }
}

/// Inserts a pending task created at `now`, and returns its id. Fails with a
/// constraint error once every positive `i32` has been handed out.
pub fn create(conn: &mut Connection, kind: TaskType, execution_time: Timestamp, now: Timestamp) -> (r: Result<ID, StoreError>)
    requires
        old(conn)@.wf(),
    ensures
        final(conn)@.wf(),
        old(conn)@.can_create() ==> r == Ok::<ID, StoreError>(old(conn)@.next_id as ID)
            && final(conn)@ == old(conn)@.created(kind, execution_time, now),
        !old(conn)@.can_create() ==> r == Err::<ID, StoreError>(StoreError::Constraint)
            && final(conn)@ == old(conn)@,
{
    if conn.next_id > i32::MAX as i64 {
        return Err(StoreError::Constraint);
    }
    let id = conn.next_id as i32;
    let task = Task {
        id,
        kind,
        execution_time,
        state: TaskState::Pending,
        created_at: now,
        updated_at: now,
    };
    let ghost before = conn@;
    conn.rows.push(task);
    conn.next_id = conn.next_id + 1;
    assert(conn@.locked == before.locked);
    assert forall|i: int| 0 <= i < conn@.locked.len() implies #[trigger] conn@.locked[i] < conn@.next_id by {
        assert(before.locked[i] < before.next_id);
    }
    Ok(id)
}

/// Returns the task with this id, or `None` when there is none.
pub fn read(conn: &Connection, id: ID) -> (r: Result<Option<Task>, StoreError>)
    requires
        conn@.wf(),
    ensures
        r == Ok::<Option<Task>, StoreError>(conn@.find(id)),
{
    let mut i: usize = 0;
    while i < conn.rows.len()
        invariant
            conn@.wf(),
            i <= conn.rows@.len(),
            forall|j: int| 0 <= j < i ==> conn.rows@[j].id != id,
        decreases conn.rows@.len() - i,
    {
        if conn.rows[i].id == id {
            let t = conn.rows[i];
            proof {
                let k = choose|k: int| 0 <= k < conn@.tasks.len() && conn@.tasks[k].id == id;
                assert(conn@.tasks[i as int].id == id);
                assert(k == i) by {
                    if k < i {
                        assert(conn@.tasks[k].id < conn@.tasks[i as int].id);
                    } else if k > i {
                        assert(conn@.tasks[i as int].id < conn@.tasks[k].id);
                    }
                }
            }
            return Ok(Some(t));
        }
        i = i + 1;
    }
    Ok(None)
}

/// Returns the tasks that pass the filters, in id order.
pub fn list(conn: &Connection, filters: Filters) -> (r: Result<Vec<Task>, StoreError>)
    requires
        conn@.wf(),
    ensures
        r matches Ok(v) && v@ == conn@.listed(filters),
{
    let mut out: Vec<Task> = Vec::new();
    let mut i: usize = 0;
    while i < conn.rows.len()
        invariant
            i <= conn.rows@.len(),
            out@ == conn.rows@.subrange(0, i as int).filter(admitted_by(filters)),
        decreases conn.rows@.len() - i,
    {
        let t = conn.rows[i];
        proof {
            assert(conn.rows@.subrange(0, i + 1) == conn.rows@.subrange(0, i as int).push(t));
            conn.rows@.subrange(0, i as int).lemma_filter_push(t, admitted_by(filters));
        }
        if filters.matches(&t) {
            out.push(t);
        }
        i = i + 1;
    }
    assert(conn.rows@.subrange(0, i as int) == conn.rows@);
    Ok(out)
}

/// Deletes the task with this id. Deleting an id that is not there is no error.
pub fn destroy(conn: &mut Connection, id: ID) -> (r: Result<(), StoreError>)
    requires
        old(conn)@.wf(),
    ensures
        r == Ok::<(), StoreError>(()),
        final(conn)@ == old(conn)@.destroyed(id),
        final(conn)@.wf(),
{
    let ghost old_rows = conn.rows@;
    let mut kept: Vec<Task> = Vec::new();
    let mut i: usize = 0;
    while i < conn.rows.len()
        invariant
            conn.rows@ == old_rows,
            conn@.wf(),
            i <= old_rows.len(),
            kept@ == old_rows.subrange(0, i as int).filter(row_other_than(id)),
            forall|k: int| 0 <= k < kept@.len() ==> 1 <= #[trigger] kept@[k].id < conn.next_id,
            forall|k: int, j: int| 0 <= k < kept@.len() && i <= j < old_rows.len() ==> kept@[k].id < old_rows[j].id,
            forall|k: int, l: int| 0 <= k < l < kept@.len() ==> kept@[k].id < kept@[l].id,
        decreases old_rows.len() - i,
    {
        let t = conn.rows[i];
        proof {
            assert(old_rows.subrange(0, i + 1) == old_rows.subrange(0, i as int).push(t));
            old_rows.subrange(0, i as int).lemma_filter_push(t, row_other_than(id));
        }
        if t.id != id {
            kept.push(t);
        }
        i = i + 1;
    }
    assert(old_rows.subrange(0, i as int) == old_rows);
    let ghost before = conn@;
    conn.rows = kept;
    assert(conn@.locked == before.locked);
    assert forall|i: int| 0 <= i < conn@.locked.len() implies #[trigger] conn@.locked[i] < conn@.next_id by {
        assert(before.locked[i] < before.next_id);
    }
    Ok(())
}

/// Whether `id` is among `ids`.
fn holds_id(ids: &Vec<ID>, id: ID) -> (r: bool)
    ensures
        r == ids@.contains(id),
{
    let mut i: usize = 0;
    while i < ids.len()
        invariant
            i <= ids@.len(),
            forall|j: int| 0 <= j < i ==> ids@[j] != id,
        decreases ids@.len() - i,
    {
        if ids[i] == id {
            assert(ids@[i as int] == id);
            return true;
        }
        i = i + 1;
    }
    false
}

/// `ids` without any occurrence of `id`.
fn without_id(ids: &Vec<ID>, id: ID) -> (r: Vec<ID>)
    ensures
        r@ == ids@.filter(other_than(id)),
{
    let mut out: Vec<ID> = Vec::new();
    let mut i: usize = 0;
    while i < ids.len()
        invariant
            i <= ids@.len(),
            out@ == ids@.subrange(0, i as int).filter(other_than(id)),
        decreases ids@.len() - i,
    {
        let x = ids[i];
        proof {
            assert(ids@.subrange(0, i + 1) == ids@.subrange(0, i as int).push(x));
            ids@.subrange(0, i as int).lemma_filter_push(x, other_than(id));
        }
        if x != id {
            out.push(x);
        }
        i = i + 1;
    }
    assert(ids@.subrange(0, i as int) == ids@);
    out
}

/// Dropping one id from the held ids keeps them below any bound they were under.
pub proof fn lemma_release_bounded(locked: Seq<ID>, id: ID, bound: int)
    requires
        forall|i: int| 0 <= i < locked.len() ==> #[trigger] locked[i] < bound,
    ensures
        forall|i: int|
            0 <= i < locked.filter(other_than(id)).len() ==> #[trigger] locked.filter(other_than(id))[i] < bound,
{
    assert forall|i: int| 0 <= i < locked.filter(other_than(id)).len() implies #[trigger] locked.filter(
        other_than(id),
    )[i] < bound by {
        let x = locked.filter(other_than(id))[i];
        assert(locked.filter(other_than(id)).contains(x));
        locked.lemma_filter_contains_rev(other_than(id), x);
    }
}

/// Dropping one id from ids that are distinct leaves them distinct.
pub proof fn lemma_release_distinct(locked: Seq<ID>, id: ID)
    requires
        locked.no_duplicates(),
    ensures
        locked.filter(other_than(id)).no_duplicates(),
    decreases locked.len(),
{
    if locked.len() == 0 {
        locked.lemma_filter_len(other_than(id));
    } else {
        let init = locked.drop_last();
        let x = locked.last();
        assert(locked == init.push(x));
        lemma_release_distinct(init, id);
        init.lemma_filter_push(x, other_than(id));
        let f = init.filter(other_than(id));
        if x != id {
            assert(!f.contains(x)) by {
                if f.contains(x) {
                    init.lemma_filter_contains_rev(other_than(id), x);
                    let w = choose|w: int| 0 <= w < init.len() && init[w] == x;
                    assert(locked[w] == locked[locked.len() - 1]);
                }
            }
            assert forall|i: int, j: int| 0 <= i < f.push(x).len() && 0 <= j < f.push(x).len() && i != j
                implies f.push(x)[i] != f.push(x)[j] by {
                if i < f.len() && j < f.len() {
                } else if i < f.len() {
                    assert(f.contains(f[i]));
                } else if j < f.len() {
                    assert(f.contains(f[j]));
                }
            }
        }
    }
}

/// Row `i` and row `j` cannot both be the one a claim selects.
pub proof fn lemma_pick_unique(m: QueueModel, now: Timestamp, i: int, j: int)
    requires
        m.is_pick(i, now),
        m.is_pick(j, now),
    ensures
        i == j,
{
    assert(m.precedes(i, j));
    assert(m.precedes(j, i));
}

/// Whenever some task may be claimed, exactly one row is the one a claim selects.
pub proof fn lemma_pick_exists(m: QueueModel, now: Timestamp)
    requires
        m.has_work(now),
    ensures
        exists|i: int| m.is_pick(i, now),
        m.is_pick(choose|i: int| m.is_pick(i, now), now),
{
    let k = choose|k: int| 0 <= k < m.tasks.len() && m.claimable(m.tasks[k], now);
    let b = lemma_first_in_prefix(m, now, m.tasks.len() as int, k);
    assert(m.is_pick(b, now));
}

/// Among the claimable rows below `n`, one comes before all others in claim order.
proof fn lemma_first_in_prefix(m: QueueModel, now: Timestamp, n: int, k: int) -> (b: int)
    requires
        0 <= k < n <= m.tasks.len(),
        m.claimable(m.tasks[k], now),
    ensures
        0 <= b < n,
        m.claimable(m.tasks[b], now),
        forall|j: int| 0 <= j < n && m.claimable(#[trigger] m.tasks[j], now) ==> m.precedes(b, j),
    decreases n,
{
    if k == n - 1 {
        if exists|j: int| 0 <= j < n - 1 && m.claimable(m.tasks[j], now) {
            let j0 = choose|j: int| 0 <= j < n - 1 && m.claimable(m.tasks[j], now);
            let b0 = lemma_first_in_prefix(m, now, n - 1, j0);
            if m.tasks[n - 1].execution_time < m.tasks[b0].execution_time {
                n - 1
            } else {
                b0
            }
        } else {
            n - 1
        }
    } else {
        let b0 = lemma_first_in_prefix(m, now, n - 1, k);
        if m.claimable(m.tasks[n - 1], now) && m.tasks[n - 1].execution_time < m.tasks[b0].execution_time {
            n - 1
        } else {
            b0
        }
    }
}

/// An exclusive hold on one task, taken by `claim` and ended by `commit` or `rollback`.
pub struct Claim {
    task: Task,
}

impl View for Claim {
    type V = Task;

    closed spec fn view(&self) -> Task {
        self.task
    }
}

impl Claim {
    /// The task as it stood when it was claimed.
    pub fn task(&self) -> (r: Task)
        ensures
            r == self@,
    {
        self.task
    }
}

/// Selects the ready task that no open claim holds, earliest execution time
/// first and then lowest id, and locks it. Rows that are held are skipped, never
/// waited on. Returns `None` when no such task exists.
pub fn claim(conn: &mut Connection, now: Timestamp) -> (r: Option<Claim>)
    requires
        old(conn)@.wf(),
    ensures
        final(conn)@ == old(conn)@.claimed(now),
        final(conn)@.wf(),
        r is Some <==> old(conn)@.has_work(now),
        r matches Some(c) ==> c@ == old(conn)@.pick(now),
{
    let ghost m = conn@;
    let mut best: Option<usize> = None;
    let mut i: usize = 0;
    while i < conn.rows.len()
        invariant
            conn@ == m,
            i <= m.tasks.len(),
            best matches Some(b) ==> b < i && m.claimable(m.tasks[b as int], now) && forall|j: int|
                0 <= j < i && m.claimable(#[trigger] m.tasks[j], now) ==> m.precedes(b as int, j),
            best is None ==> forall|j: int| 0 <= j < i ==> !m.claimable(#[trigger] m.tasks[j], now),
        decreases m.tasks.len() - i,
    {
        let t = conn.rows[i];
        if t.ready_at(now) && !holds_id(&conn.locked, t.id) {
            match best {
                None => {
                    best = Some(i);
                },
                Some(b) => {
                    if t.execution_time < conn.rows[b].execution_time {
                        best = Some(i);
                    }
                },
            }
        }
        i = i + 1;
    }
    match best {
        None => {
            assert(!m.has_work(now));
            None
        },
        Some(b) => {
            let t = conn.rows[b];
            proof {
                assert(m.is_pick(b as int, now));
                assert(m.has_work(now));
                let k = choose|k: int| m.is_pick(k, now);
                lemma_pick_unique(m, now, k, b as int);
            }
            conn.locked.push(t.id);
            Some(Claim { task: t })
        },
    }
}

/// Marks the claimed task completed at `now` and releases its lock, making both
/// durable together.
pub fn commit(conn: &mut Connection, claim: Claim, now: Timestamp)
    requires
        old(conn)@.wf(),
    ensures
        final(conn)@ == old(conn)@.completed(claim@.id, now),
        final(conn)@.wf(),
{
    let id = claim.task.id;
    let ghost old_rows = conn.rows@;
    let mut out: Vec<Task> = Vec::new();
    let mut i: usize = 0;
    while i < conn.rows.len()
        invariant
            conn.rows@ == old_rows,
            i <= old_rows.len(),
            out@.len() == i,
            forall|k: int| 0 <= k < i ==> #[trigger] out@[k] == (if old_rows[k].id == id {
                QueueModel::mark_completed(old_rows[k], now)
            } else {
                old_rows[k]
            }),
        decreases old_rows.len() - i,
    {
        let t = conn.rows[i];
        if t.id == id {
            out.push(Task { state: TaskState::Completed, updated_at: now, ..t });
        } else {
            out.push(t);
        }
        i = i + 1;
    }
    conn.rows = out;
    proof {
        lemma_release_bounded(old(conn)@.locked, id, old(conn)@.next_id);
        lemma_release_distinct(old(conn)@.locked, id);
    }
    conn.locked = without_id(&conn.locked, id);
    assert(conn.rows@ =~= old_rows.map_values(
        |t: Task|
            if t.id == id {
                QueueModel::mark_completed(t, now)
            } else {
                t
            },
    ));
}

/// Ends the claim without changing the task: it stays pending and may be
/// claimed again.
pub fn rollback(conn: &mut Connection, claim: Claim)
    requires
        old(conn)@.wf(),
    ensures
        final(conn)@ == old(conn)@.released(claim@.id),
        final(conn)@.wf(),
{
    proof {
        lemma_release_bounded(conn@.locked, claim.task.id, conn@.next_id);
        lemma_release_distinct(conn@.locked, claim.task.id);
    }
    conn.locked = without_id(&conn.locked, claim.task.id);
}

/// What one claim-and-execute attempt did.
#[derive(Clone, Copy, Debug, PartialEq, Eq, Structural)]
pub enum Attempt {
    /// No task was ready and free: there is no work.
    NoWork,
    /// The task ran and its completion was committed.
    Completed(Task),
    /// The task's run failed: the claim was rolled back and the task is still pending.
    RolledBack(Task),
}

/// One claim-and-execute attempt at `now`: claims the next task as `claim`
/// does, hands it to `run`, and commits it as completed when `run` returns
/// `true`, or rolls the claim back when it returns `false`. The lock is held
/// for the whole run.
pub fn execute_task<F: FnOnce(Task) -> bool>(conn: &mut Connection, now: Timestamp, run: F) -> (r: Result<Attempt, StoreError>)
    requires
        old(conn)@.wf(),
        forall|t: Task| run.requires((t,)),
    ensures
        final(conn)@.wf(),
        !old(conn)@.has_work(now) ==> r == Ok::<Attempt, StoreError>(Attempt::NoWork) && final(conn)@
            == old(conn)@,
        old(conn)@.has_work(now) ==> {
            ||| (r == Ok::<Attempt, StoreError>(Attempt::Completed(old(conn)@.pick(now)))
                && run.ensures((old(conn)@.pick(now),), true)
                && final(conn)@ == old(conn)@.claimed(now).completed(old(conn)@.pick(now).id, now))
            ||| (r == Ok::<Attempt, StoreError>(Attempt::RolledBack(old(conn)@.pick(now)))
                && run.ensures((old(conn)@.pick(now),), false)
                && final(conn)@ == old(conn)@.claimed(now).released(old(conn)@.pick(now).id))
        },
{
    match claim(conn, now) {
        None => Ok(Attempt::NoWork),
        Some(c) => {
            let t = c.task();
            if run(t) {
                commit(conn, c, now);
                Ok(Attempt::Completed(t))
            } else {
                rollback(conn, c);
                Ok(Attempt::RolledBack(t))
            }
        },
    }
}

/// Counts the ready tasks at `now`, whether or not a claim holds them.
pub fn backlog(conn: &Connection, now: Timestamp) -> (r: usize)
    requires
        conn@.wf(),
    ensures
        r == conn@.backlog(now),
{
    let mut n: usize = 0;
    let mut i: usize = 0;
    while i < conn.rows.len()
        invariant
            i <= conn.rows@.len(),
            n == conn.rows@.subrange(0, i as int).filter(|t: Task| t.is_ready(now)).len(),
            n <= i,
        decreases conn.rows@.len() - i,
    {
        let t = conn.rows[i];
        proof {
            assert(conn.rows@.subrange(0, i + 1) == conn.rows@.subrange(0, i as int).push(t));
            conn.rows@.subrange(0, i as int).lemma_filter_push(t, |t: Task| t.is_ready(now));
        }
        if t.ready_at(now) {
            n = n + 1;
        }
        i = i + 1;
    }
    assert(conn.rows@.subrange(0, i as int) == conn.rows@);
    n
}

} // verus!
