//! An in-memory delivery queue and issue store.
//!
//! It keeps the claim discipline of the relational queue: a claim locks one
//! eligible task for one worker and passes over tasks that another worker
//! holds; what a worker writes to its task becomes visible with its commit and
//! is forgotten with its rollback. A write that names a task which is not in
//! the queue succeeds and changes nothing. One thing differs: a write to a
//! task that the writer has not claimed is turned down at once, where the
//! relational queue would make the writer wait for the lock.

use crate::task::{Issue, IssueModel, QueueTask, TaskModel};
use vstd::prelude::*;

verus! {

/// What the holder of a task has asked for and not yet committed.
#[derive(Clone, Copy, Debug, PartialEq, Eq, Structural)]
pub enum Pending {
    /// Nothing.
    Keep,
    /// The task is to be deleted.
    Delete,
    /// The task is to get a new retry count and date.
    Update { retry_count: u16, not_before: i64 },
}

/// Why the store turned a request down.
#[derive(Clone, Copy, Debug, PartialEq, Eq, Structural)]
pub enum StoreError {
    /// The task is in the queue and is not held by the worker that made the
    /// request.
    NotClaimed,
}

/// One row of the queue: the task as last committed, who holds it, and what
/// the holder has asked for.
#[derive(Debug)]
struct Row {
    task: QueueTask,
    holder: Option<u64>,
    pending: Pending,
}

/// What a row of the queue stands for.
pub struct RowModel {
    pub task: TaskModel,
    pub holder: Option<u64>,
    pub pending: Pending,
}

impl View for Row {
    type V = RowModel;

    closed spec fn view(&self) -> RowModel {
        RowModel { task: self.task@, holder: self.holder, pending: self.pending }
    }
}

impl Row {
    /// What is left of the row after a commit of `worker`: nothing where
    /// `worker` asked for its deletion.
    fn committed_by(&self, worker: u64) -> (left: Option<Row>)
        ensures
            match left {
                Some(row) => self@.survives(worker) && row@ == self@.committed_by(worker),
                None => !self@.survives(worker),
            },
    {
        let held: bool = match self.holder {
            Some(holder) => holder == worker,
            None => false,
        };
        let task = self.task.clone();
        if !held {
            Some(Row { task, holder: self.holder, pending: self.pending })
        } else {
            match self.pending {
                Pending::Delete => None,
                Pending::Keep => Some(Row { task, holder: None, pending: Pending::Keep }),
                Pending::Update { retry_count, not_before } => Some(
                    Row {
                        task: QueueTask { retry_count, not_before, ..task },
                        holder: None,
                        pending: Pending::Keep,
                    },
                ),
            }
        }
    }
}

impl RowModel {
    /// A task can be claimed at `now` when nobody holds it and its date has
    /// passed.
    pub open spec fn eligible(self, now: i64) -> bool {
        self.holder is None && self.task.not_before < now
    }

    /// The row once `worker` has locked it.
    pub open spec fn locked_by(self, worker: u64) -> RowModel {
        RowModel { holder: Some(worker), pending: Pending::Keep, ..self }
    }

    /// The row once its holder has let go of it without a commit.
    pub open spec fn released(self) -> RowModel {
        RowModel { holder: None, pending: Pending::Keep, ..self }
    }

    /// Whether the row is still there after a commit of `worker`.
    pub open spec fn survives(self, worker: u64) -> bool {
        !(self.holder == Some(worker) && self.pending == Pending::Delete)
    }

    /// A surviving row after a commit of `worker`.
    pub open spec fn committed_by(self, worker: u64) -> RowModel {
        if self.holder == Some(worker) {
            self.settled()
        } else {
            self
        }
    }

    /// The row after a rollback of `worker`.
    pub open spec fn rolled_back_by(self, worker: u64) -> RowModel {
        if self.holder == Some(worker) {
            self.released()
        } else {
            self
        }
    }

    /// The row once its holder has committed, unless it was to be deleted.
    pub open spec fn settled(self) -> RowModel {
        match self.pending {
            Pending::Update { retry_count, not_before } => RowModel {
                task: TaskModel { retry_count, not_before, ..self.task },
                holder: None,
                pending: Pending::Keep,
            },
            _ => self.released(),
        }
    }
}

/// Filtering keeps the order: two rows that stand one before the other after
/// filtering stood so before. The result names the two places they had.
pub proof fn lemma_filter_keeps_order(
    rows: Seq<RowModel>,
    keep: spec_fn(RowModel) -> bool,
    i: int,
    j: int,
) -> (places: (int, int))
    requires
        0 <= i < j < rows.filter(keep).len(),
    ensures
        0 <= places.0 < places.1 < rows.len(),
        rows[places.0] == rows.filter(keep)[i],
        rows[places.1] == rows.filter(keep)[j],
    decreases rows.len(),
{
    reveal(Seq::filter);
    let front = rows.drop_last();
    let kept = front.filter(keep);
    if j < kept.len() {
        lemma_filter_keeps_order(front, keep, i, j)
    } else {
        assert(kept.contains(kept[i]));
        front.lemma_filter_contains_rev(keep, kept[i]);
        let a = choose|a: int| 0 <= a < front.len() && front[a] == kept[i];
        (a, rows.len() - 1)
    }
}

/// Issue `j` of `issues` is the first one with this id.
pub open spec fn first_with_id(issues: Seq<IssueModel>, issue_id: u128, j: int) -> bool {
    &&& 0 <= j < issues.len()
    &&& issues[j].issue_id == issue_id
    &&& forall|k: int| 0 <= k < j ==> (#[trigger] issues[k]).issue_id != issue_id
}

/// The first of `issues` with this id, if there is one.
pub open spec fn issue_with_id(issues: Seq<IssueModel>, issue_id: u128) -> Option<IssueModel> {
    if exists|j: int| first_with_id(issues, issue_id, j) {
        Some(issues[choose|j: int| first_with_id(issues, issue_id, j)])
    } else {
        None
    }
}

/// What a [`MemoryStore`] stands for: the rows of the queue in the order in
/// which they were enqueued, and the issues.
pub struct StoreModel {
    pub rows: Seq<RowModel>,
    pub issues: Seq<IssueModel>,
}

impl StoreModel {
    /// No two rows share a key, and only a held row has something pending.
    pub open spec fn wf(self) -> bool {
        &&& forall|i: int, j: int|
            0 <= i < j < self.rows.len() ==> self.rows[i].task.key() != self.rows[j].task.key()
        &&& forall|i: int|
            0 <= i < self.rows.len() && (#[trigger] self.rows[i]).holder is None
                ==> self.rows[i].pending == Pending::Keep
    }

    /// Row `i` is the row of `key`.
    pub open spec fn is_at(self, key: (u128, Seq<char>), i: int) -> bool {
        0 <= i < self.rows.len() && self.rows[i].task.key() == key
    }

    /// Where the row of `key` stands, if there is one.
    pub open spec fn position(self, key: (u128, Seq<char>)) -> Option<int> {
        if exists|i: int| self.is_at(key, i) {
            Some(choose|i: int| self.is_at(key, i))
        } else {
            None
        }
    }

    /// Who holds the task of `key`: nobody where the queue has no such task.
    pub open spec fn holder_of(self, key: (u128, Seq<char>)) -> Option<u64> {
        match self.position(key) {
            Some(i) => self.rows[i].holder,
            None => None,
        }
    }

    /// The task of `key` as last committed, if the queue has one.
    pub open spec fn task_of(self, key: (u128, Seq<char>)) -> Option<TaskModel> {
        match self.position(key) {
            Some(i) => Some(self.rows[i].task),
            None => None,
        }
    }

    /// Row `i` is eligible at `now` and no row before it is.
    pub open spec fn is_first_eligible(self, now: i64, i: int) -> bool {
        &&& 0 <= i < self.rows.len()
        &&& self.rows[i].eligible(now)
        &&& forall|j: int| 0 <= j < i ==> !(#[trigger] self.rows[j]).eligible(now)
    }

    /// Where the first row that is eligible at `now` stands, if there is one.
    pub open spec fn first_eligible(self, now: i64) -> Option<int> {
        if exists|i: int| self.is_first_eligible(now, i) {
            Some(choose|i: int| self.is_first_eligible(now, i))
        } else {
            None
        }
    }

    /// In a well-formed store a key has one place at most.
    pub proof fn lemma_position(self, key: (u128, Seq<char>), i: int)
        requires
            self.wf(),
            self.is_at(key, i),
        ensures
            self.position(key) == Some(i),
    {
        let k = choose|k: int| self.is_at(key, k);
        if k < i {
            assert(self.rows[k].task.key() != self.rows[i].task.key());
        } else if i < k {
            assert(self.rows[i].task.key() != self.rows[k].task.key());
        }
    }

    /// The first eligible row is the only first eligible row.
    pub proof fn lemma_first_eligible(self, now: i64, i: int)
        requires
            self.is_first_eligible(now, i),
        ensures
            self.first_eligible(now) == Some(i),
    {
        let k = choose|k: int| self.is_first_eligible(now, k);
        if k < i {
            assert(!self.rows[k].eligible(now));
        } else if i < k {
            assert(!self.rows[i].eligible(now));
        }
    }

    /// The first issue with an id is the only first issue with that id.
    pub proof fn lemma_first_issue(self, issue_id: u128, j: int)
        requires
            self.is_first_issue(issue_id, j),
        ensures
            self.issue(issue_id) == Some(self.issues[j]),
    {
        let k = choose|k: int| first_with_id(self.issues, issue_id, k);
        if k < j {
            assert(self.issues[k].issue_id != issue_id);
        } else if j < k {
            assert(self.issues[j].issue_id != issue_id);
        }
    }

    /// A rollback keeps the store well formed.
    pub proof fn lemma_rollback_wf(self, worker: u64)
        requires
            self.wf(),
        ensures
            self.rollback(worker).wf(),
    {
        let after = self.rollback(worker);
        assert forall|i: int, j: int| 0 <= i < j < after.rows.len() implies after.rows[i].task.key()
            != after.rows[j].task.key() by {
            assert(self.rows[i].task.key() != self.rows[j].task.key());
        }
    }

    /// A commit keeps the store well formed.
    pub proof fn lemma_commit_wf(self, worker: u64)
        requires
            self.wf(),
        ensures
            self.commit(worker).wf(),
    {
        let survives = |row: RowModel| row.survives(worker);
        let after = self.commit(worker);
        assert forall|i: int, j: int| 0 <= i < j < after.rows.len() implies after.rows[i].task.key()
            != after.rows[j].task.key() by {
            let (a, b) = lemma_filter_keeps_order(self.rows, survives, i, j);
            assert(self.rows[a].task.key() != self.rows[b].task.key());
        }
        assert forall|i: int|
            0 <= i < after.rows.len() && (#[trigger] after.rows[i]).holder is None implies after.rows[i].pending
            == Pending::Keep by {
            let kept = self.rows.filter(survives);
            assert(kept.contains(kept[i]));
            self.rows.lemma_filter_contains_rev(survives, kept[i]);
            let a = choose|a: int| 0 <= a < self.rows.len() && self.rows[a] == kept[i];
            assert(self.rows[a].holder is None ==> self.rows[a].pending == Pending::Keep);
        }
    }

    /// A new task joins the end of the queue, unless its key is taken.
    pub open spec fn enqueue(self, task: TaskModel) -> (StoreModel, bool) {
        if self.position(task.key()) is Some {
            (self, false)
        } else {
            (
                StoreModel {
                    rows: self.rows.push(
                        RowModel { task, holder: None, pending: Pending::Keep },
                    ),
                    ..self
                },
                true,
            )
        }
    }

    /// `worker` locks the first eligible row, if there is one, and gets its
    /// task. Rows that are held are passed over.
    pub open spec fn claim(self, worker: u64, now: i64) -> (StoreModel, Option<TaskModel>) {
        match self.first_eligible(now) {
            Some(i) => (
                StoreModel { rows: self.rows.update(i, self.rows[i].locked_by(worker)), ..self },
                Some(self.rows[i].task),
            ),
            None => (self, None),
        }
    }

    /// `worker` asks for `pending` on the row of `key`. Where the queue has
    /// no such row the request succeeds and changes nothing; where it has one,
    /// `worker` must hold it.
    pub open spec fn mark(self, worker: u64, key: (u128, Seq<char>), pending: Pending) -> (
        StoreModel,
        Result<(), StoreError>,
    ) {
        match self.position(key) {
            None => (self, Ok(())),
            Some(i) => if self.rows[i].holder == Some(worker) {
                (
                    StoreModel {
                        rows: self.rows.update(i, RowModel { pending, ..self.rows[i] }),
                        ..self
                    },
                    Ok(()),
                )
            } else {
                (self, Err(StoreError::NotClaimed))
            },
        }
    }

    /// `worker` commits: what it asked for happens, and its rows are free again.
    pub open spec fn commit(self, worker: u64) -> StoreModel {
        StoreModel {
            rows: self.rows.filter(|row: RowModel| row.survives(worker)).map_values(
                |row: RowModel| row.committed_by(worker),
            ),
            ..self
        }
    }

    /// `worker` rolls back: its rows are free again, as they were committed.
    pub open spec fn rollback(self, worker: u64) -> StoreModel {
        StoreModel {
            rows: self.rows.map_values(|row: RowModel| row.rolled_back_by(worker)),
            ..self
        }
    }

    /// Issue `j` is the first one with this id.
    pub open spec fn is_first_issue(self, issue_id: u128, j: int) -> bool {
        first_with_id(self.issues, issue_id, j)
    }

    /// The issue with this id, if the store holds one.
    pub open spec fn issue(self, issue_id: u128) -> Option<IssueModel> {
        issue_with_id(self.issues, issue_id)
    }

    /// A new issue is published, unless its id is taken.
    pub open spec fn publish(self, issue: IssueModel) -> (StoreModel, bool) {
        if self.issue(issue.issue_id) is Some {
            (self, false)
        } else {
            (StoreModel { issues: self.issues.push(issue), ..self }, true)
        }
    }
}

/// An in-memory delivery queue and issue store.
#[derive(Debug)]
pub struct MemoryStore {
    rows: Vec<Row>,
    issues: Vec<Issue>,
}

impl View for MemoryStore {
    type V = StoreModel;

    closed spec fn view(&self) -> StoreModel {
        StoreModel {
            rows: self.rows@.map_values(|row: Row| row@),
            issues: self.issues@.map_values(|issue: Issue| issue@),
        }
    }
}

impl MemoryStore {
    /// The store is well formed when what it stands for is.
    pub open spec fn wf(&self) -> bool {
        self@.wf()
    }

    /// An empty store.
    pub fn new() -> (store: MemoryStore)
        ensures
            store@.rows.len() == 0,
            store@.issues.len() == 0,
            store.wf(),
    {
        MemoryStore { rows: Vec::new(), issues: Vec::new() }
    }

    /// How many tasks the queue holds, claimed ones included.
    pub fn len(&self) -> (n: usize)
        ensures
            n == self@.rows.len(),
    {
        self.rows.len()
    }

    /// Where the row of this issue and recipient stands.
    fn locate(&self, issue_id: u128, recipient: &String) -> (found: Option<usize>)
        requires
            self.wf(),
        ensures
            match found {
                Some(i) => self@.is_at((issue_id, recipient@), i as int) && self@.position(
                    (issue_id, recipient@),
                ) == Some(i as int),
                None => self@.position((issue_id, recipient@)) is None,
            },
    {
        let ghost key = (issue_id, recipient@);
        let mut i: usize = 0;
        while i < self.rows.len()
            invariant
                self.wf(),
                i <= self.rows.len(),
                key == (issue_id, recipient@),
                forall|j: int| 0 <= j < i ==> !self@.is_at(key, j),
            decreases self.rows.len() - i,
        {
            if self.rows[i].task.issue_id == issue_id && self.rows[i].task.recipient == *recipient {
                proof {
                    self@.lemma_position(key, i as int);
                }
                return Some(i);
            }
            i = i + 1;
        }
        None
    }

    /// Adds a task at the end of the queue. Nothing happens, and `false` comes
    /// back, where the queue already holds a task for that issue and recipient.
    pub fn enqueue(&mut self, task: QueueTask) -> (added: bool)
        requires
            old(self).wf(),
        ensures
            (final(self)@, added) == old(self)@.enqueue(task@),
            final(self).wf(),
    {
        match self.locate(task.issue_id, &task.recipient) {
            Some(_) => false,
            None => {
                let ghost before = self@;
                self.rows.push(Row { task, holder: None, pending: Pending::Keep });
                proof {
                    assert(self@.rows =~= before.rows.push(
                        RowModel { task: task@, holder: None, pending: Pending::Keep },
                    ));
                    assert(self@.issues == before.issues);
                    assert forall|i: int, j: int| 0 <= i < j < self@.rows.len() implies self@.rows[i].task.key()
                        != self@.rows[j].task.key() by {
                        if j == before.rows.len() {
                            assert(!before.is_at(task@.key(), i));
                        }
                    }
                }
                true
            },
        }
    }

    /// Locks the first task that is eligible at `now` for `worker` and hands
    /// out a copy of it; tasks that are held are passed over. `None` comes
    /// back, and nothing changes, where no task is eligible.
    pub fn claim(&mut self, worker: u64, now: i64) -> (claimed: Option<QueueTask>)
        requires
            old(self).wf(),
        ensures
            final(self).wf(),
            final(self)@ == old(self)@.claim(worker, now).0,
            match claimed {
                Some(task) => old(self)@.claim(worker, now).1 == Some(task@),
                None => old(self)@.claim(worker, now).1 is None,
            },
    {
        let ghost before = self@;
        let mut i: usize = 0;
        while i < self.rows.len()
            invariant
                self@ == before,
                before == old(self)@,
                before.wf(),
                i <= self.rows.len(),
                forall|j: int| 0 <= j < i ==> !(#[trigger] before.rows[j]).eligible(now),
            decreases self.rows.len() - i,
        {
            if self.rows[i].holder.is_none() && self.rows[i].task.not_before < now {
                proof {
                    before.lemma_first_eligible(now, i as int);
                }
                let task = self.rows[i].task.clone();
                self.rows[i].holder = Some(worker);
                self.rows[i].pending = Pending::Keep;
                proof {
                    assert(self@.rows =~= before.rows.update(
                        i as int,
                        before.rows[i as int].locked_by(worker),
                    ));
                    assert(self@.issues == before.issues);
                }
                return Some(task);
            }
            i = i + 1;
        }
        proof {
            if exists|k: int| before.is_first_eligible(now, k) {
                let k = choose|k: int| before.is_first_eligible(now, k);
                assert(!before.rows[k].eligible(now));
            }
        }
        None
    }

    /// Notes what `worker` asks for on the task of this issue and recipient.
    fn mark(&mut self, worker: u64, issue_id: u128, recipient: &String, pending: Pending) -> (done:
        Result<(), StoreError>)
        requires
            old(self).wf(),
        ensures
            final(self).wf(),
            (final(self)@, done) == old(self)@.mark(worker, (issue_id, recipient@), pending),
    {
        let ghost before = self@;
        match self.locate(issue_id, recipient) {
            None => Ok(()),
            Some(i) => {
                let held: bool = match self.rows[i].holder {
                    Some(holder) => holder == worker,
                    None => false,
                };
                if held {
                    self.rows[i].pending = pending;
                    proof {
                        assert(self@.rows =~= before.rows.update(
                            i as int,
                            RowModel { pending, ..before.rows[i as int] },
                        ));
                        assert(self@.issues == before.issues);
                    }
                    Ok(())
                } else {
                    Err(StoreError::NotClaimed)
                }
            },
        }
    }

    /// Asks for a new retry count and date on the task of this issue and
    /// recipient. A task that `worker` holds changes when `worker` commits.
    /// Where the queue has no such task the request succeeds and changes
    /// nothing.
    pub fn update_task(
        &mut self,
        worker: u64,
        issue_id: u128,
        recipient: &String,
        retry_count: u16,
        not_before: i64,
    ) -> (done: Result<(), StoreError>)
        requires
            old(self).wf(),
        ensures
            final(self).wf(),
            (final(self)@, done) == old(self)@.mark(
                worker,
                (issue_id, recipient@),
                Pending::Update { retry_count, not_before },
            ),
            old(self)@.position((issue_id, recipient@)) is None ==> done is Ok && final(self)@
                == old(self)@,
    {
        self.mark(worker, issue_id, recipient, Pending::Update { retry_count, not_before })
    }

    /// Asks for the deletion of the task of this issue and recipient. A task
    /// that `worker` holds goes when `worker` commits. Where the queue has no
    /// such task the request succeeds and removes nothing.
    pub fn delete_task(&mut self, worker: u64, issue_id: u128, recipient: &String) -> (done: Result<
        (),
        StoreError,
    >)
        requires
            old(self).wf(),
        ensures
            final(self).wf(),
            (final(self)@, done) == old(self)@.mark(
                worker,
                (issue_id, recipient@),
                Pending::Delete,
            ),
            old(self)@.position((issue_id, recipient@)) is None ==> done is Ok && final(self)@
                == old(self)@,
    {
        self.mark(worker, issue_id, recipient, Pending::Delete)
    }

    /// Ends the transaction of `worker` without any change to its tasks.
    pub fn rollback(&mut self, worker: u64)
        requires
            old(self).wf(),
        ensures
            final(self).wf(),
            final(self)@ == old(self)@.rollback(worker),
    {
        let ghost before = self@;
        let mut i: usize = 0;
        while i < self.rows.len()
            invariant
                before == old(self)@,
                before.wf(),
                i <= self.rows.len(),
                self@.issues == before.issues,
                self@.rows.len() == before.rows.len(),
                forall|j: int| 0 <= j < i ==> self@.rows[j] == before.rows[j].rolled_back_by(worker),
                forall|j: int| i <= j < before.rows.len() ==> self@.rows[j] == before.rows[j],
            decreases self.rows.len() - i,
        {
            let ghost earlier = self@;
            let held: bool = match self.rows[i].holder {
                Some(holder) => holder == worker,
                None => false,
            };
            if held {
                self.rows[i].holder = None;
                self.rows[i].pending = Pending::Keep;
                proof {
                    assert(self@.rows =~= earlier.rows.update(
                        i as int,
                        earlier.rows[i as int].released(),
                    ));
                    assert(self@.issues == earlier.issues);
                }
            }
            i = i + 1;
        }
        proof {
            assert(self@.rows =~= before.rollback(worker).rows);
            before.lemma_rollback_wf(worker);
        }
    }

    /// Ends the transaction of `worker`: the tasks it asked to delete go, the
    /// tasks it asked to update change, and all its tasks are free again.
    pub fn commit(&mut self, worker: u64)
        requires
            old(self).wf(),
        ensures
            final(self).wf(),
            final(self)@ == old(self)@.commit(worker),
    {
        let ghost before = self@;
        let mut kept: Vec<Row> = Vec::new();
        let mut i: usize = 0;
        while i < self.rows.len()
            invariant
                self@ == before,
                i <= self.rows.len(),
                kept@.map_values(|row: Row| row@) == before.rows.take(i as int).filter(
                    |row: RowModel| row.survives(worker),
                ).map_values(|row: RowModel| row.committed_by(worker)),
            decreases self.rows.len() - i,
        {
            let ghost done = before.rows.take(i as int);
            let ghost row = before.rows[i as int];
            proof {
                assert(before.rows.take(i + 1) =~= done.push(row));
                done.lemma_filter_push(row, |row: RowModel| row.survives(worker));
            }
            let ghost earlier = kept@.map_values(|row: Row| row@);
            match self.rows[i].committed_by(worker) {
                None => {},
                Some(left) => {
                    kept.push(left);
                    proof {
                        let after = row.committed_by(worker);
                        assert(kept@.map_values(|row: Row| row@) =~= earlier.push(after));
                        assert(done.filter(|row: RowModel| row.survives(worker)).push(
                            row,
                        ).map_values(|row: RowModel| row.committed_by(worker)) =~= earlier.push(
                            after,
                        ));
                    }
                },
            }
            i = i + 1;
        }
        proof {
            assert(before.rows.take(i as int) =~= before.rows);
            before.lemma_commit_wf(worker);
        }
        self.rows = kept;
    }

    /// Publishes an issue. Nothing happens, and `false` comes back, where the
    /// store already holds an issue with that id: a published issue never
    /// changes.
    pub fn publish(&mut self, issue: Issue) -> (added: bool)
        requires
            old(self).wf(),
        ensures
            final(self).wf(),
            (final(self)@, added) == old(self)@.publish(issue@),
    {
        let ghost before = self@;
        match self.get_issue(issue.issue_id) {
            Some(_) => false,
            None => {
                self.issues.push(issue);
                proof {
                    assert(self@.issues =~= before.issues.push(issue@));
                    assert(self@.rows == before.rows);
                }
                true
            },
        }
    }

    /// Reads an issue.
    pub fn get_issue(&self, issue_id: u128) -> (found: Option<Issue>)
        ensures
            match found {
                Some(issue) => self@.issue(issue_id) == Some(issue@),
                None => self@.issue(issue_id) is None,
            },
    {
        let mut j: usize = 0;
        while j < self.issues.len()
            invariant
                j <= self.issues.len(),
                forall|k: int| 0 <= k < j ==> (#[trigger] self@.issues[k]).issue_id != issue_id,
            decreases self.issues.len() - j,
        {
            if self.issues[j].issue_id == issue_id {
                proof {
                    self@.lemma_first_issue(issue_id, j as int);
                }
                return Some(self.issues[j].clone());
            }
            j = j + 1;
        }
        proof {
            if exists|k: int| first_with_id(self@.issues, issue_id, k) {
                let k = choose|k: int| first_with_id(self@.issues, issue_id, k);
                assert(self@.issues[k].issue_id != issue_id);
            }
        }
        None
    }

    /// The task of this issue and recipient as last committed, whether or not
    /// a worker holds it.
    pub fn find(&self, issue_id: u128, recipient: &String) -> (found: Option<QueueTask>)
        requires
            self.wf(),
        ensures
            match found {
                Some(task) => self@.task_of((issue_id, recipient@)) == Some(task@),
                None => self@.task_of((issue_id, recipient@)) is None,
            },
    {
        match self.locate(issue_id, recipient) {
            Some(i) => Some(self.rows[i].task.clone()),
            None => None,
        }
    }

    /// The worker that holds the task of this issue and recipient, if the
    /// queue has such a task and a worker holds it.
    pub fn holder_of(&self, issue_id: u128, recipient: &String) -> (holder: Option<u64>)
        requires
            self.wf(),
        ensures
            holder == self@.holder_of((issue_id, recipient@)),
    {
        match self.locate(issue_id, recipient) {
            Some(i) => self.rows[i].holder,
            None => None,
        }
    }
}

} // verus!
