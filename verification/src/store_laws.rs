//! What holds of the queue whatever its workers do.

use crate::store::{Pending, RowModel, StoreModel};
use crate::task::TaskModel;
use vstd::prelude::*;

verus! {

/// One request of one worker to the queue.
pub enum Request {
    /// Lock one eligible task.
    Claim { worker: u64, now: i64 },
    /// Ask for a deletion or an update of a held task.
    Mark { worker: u64, key: (u128, Seq<char>), pending: Pending },
    /// Commit.
    Commit { worker: u64 },
    /// Roll back.
    Rollback { worker: u64 },
}

impl Request {
    /// The worker that makes the request.
    pub open spec fn worker(self) -> u64 {
        match self {
            Request::Claim { worker, .. } => worker,
            Request::Mark { worker, .. } => worker,
            Request::Commit { worker } => worker,
            Request::Rollback { worker } => worker,
        }
    }

    /// Whether the request ends the transaction of its worker.
    pub open spec fn ends_transaction(self) -> bool {
        self is Commit || self is Rollback
    }
}

/// The queue after one request.
pub open spec fn apply(store: StoreModel, request: Request) -> StoreModel {
    match request {
        Request::Claim { worker, now } => store.claim(worker, now).0,
        Request::Mark { worker, key, pending } => store.mark(worker, key, pending).0,
        Request::Commit { worker } => store.commit(worker),
        Request::Rollback { worker } => store.rollback(worker),
    }
}

/// The queue after a run of requests, made one after the other.
pub open spec fn run(store: StoreModel, requests: Seq<Request>) -> StoreModel
    decreases requests.len(),
{
    if requests.len() == 0 {
        store
    } else {
        apply(run(store, requests.drop_last()), requests.last())
    }
}

/// Where a surviving row stands after a commit.
pub proof fn lemma_commit_keeps(store: StoreModel, worker: u64, i: int) -> (k: int)
    requires
        0 <= i < store.rows.len(),
        store.rows[i].survives(worker),
    ensures
        0 <= k < store.commit(worker).rows.len(),
        store.commit(worker).rows[k] == store.rows[i].committed_by(worker),
{
    let survives = |row: RowModel| row.survives(worker);
    let kept = store.rows.filter(survives);
    store.rows.lemma_filter_contains(survives, i);
    choose|k: int| 0 <= k < kept.len() && kept[k] == store.rows[i]
}

/// Where a row that stands after a commit stood before it.
pub proof fn lemma_commit_origin(store: StoreModel, worker: u64, k: int) -> (i: int)
    requires
        0 <= k < store.commit(worker).rows.len(),
    ensures
        0 <= i < store.rows.len(),
        store.rows[i].survives(worker),
        store.commit(worker).rows[k] == store.rows[i].committed_by(worker),
{
    let survives = |row: RowModel| row.survives(worker);
    let kept = store.rows.filter(survives);
    store.rows.lemma_filter_pred(survives, k);
    assert(kept.contains(kept[k]));
    store.rows.lemma_filter_contains_rev(survives, kept[k]);
    choose|i: int| 0 <= i < store.rows.len() && store.rows[i] == kept[k]
}

/// A claim keeps the queue well formed.
pub proof fn lemma_claim_wf(store: StoreModel, worker: u64, now: i64)
    requires
        store.wf(),
    ensures
        store.claim(worker, now).0.wf(),
{
    let after = store.claim(worker, now).0;
    assert forall|i: int, j: int| 0 <= i < j < after.rows.len() implies after.rows[i].task.key()
        != after.rows[j].task.key() by {
        assert(store.rows[i].task.key() != store.rows[j].task.key());
    }
}

/// A deletion or an update that is asked for keeps the queue well formed.
proof fn lemma_mark_wf(store: StoreModel, worker: u64, key: (u128, Seq<char>), pending: Pending)
    requires
        store.wf(),
    ensures
        store.mark(worker, key, pending).0.wf(),
{
    let after = store.mark(worker, key, pending).0;
    assert forall|i: int, j: int| 0 <= i < j < after.rows.len() implies after.rows[i].task.key()
        != after.rows[j].task.key() by {
        assert(store.rows[i].task.key() != store.rows[j].task.key());
    }
}

/// Every request keeps the queue well formed.
pub proof fn apply_keeps_wf(store: StoreModel, request: Request)
    requires
        store.wf(),
    ensures
        apply(store, request).wf(),
{
    match request {
        Request::Claim { worker, now } => lemma_claim_wf(store, worker, now),
        Request::Mark { worker, key, pending } => lemma_mark_wf(store, worker, key, pending),
        Request::Commit { worker } => store.lemma_commit_wf(worker),
        Request::Rollback { worker } => store.lemma_rollback_wf(worker),
    }
}

/// Every run of requests keeps the queue well formed.
pub proof fn run_keeps_wf(store: StoreModel, requests: Seq<Request>)
    requires
        store.wf(),
    ensures
        run(store, requests).wf(),
    decreases requests.len(),
{
    if requests.len() > 0 {
        run_keeps_wf(store, requests.drop_last());
        apply_keeps_wf(run(store, requests.drop_last()), requests.last());
    }
}

/// A claim hands out only a task that nobody holds and whose date has passed,
/// and from then on the claiming worker holds it. Where the claim hands out
/// nothing, no task was eligible and the queue is as it was.
pub proof fn claim_takes_a_free_task(store: StoreModel, worker: u64, now: i64)
    requires
        store.wf(),
    ensures
        match store.claim(worker, now).1 {
            Some(task) => {
                &&& store.task_of(task.key()) == Some(task)
                &&& store.holder_of(task.key()) is None
                &&& task.not_before < now
                &&& store.claim(worker, now).0.holder_of(task.key()) == Some(worker)
                &&& store.claim(worker, now).0.task_of(task.key()) == Some(task)
            },
            None => {
                &&& store.claim(worker, now).0 == store
                &&& forall|i: int| 0 <= i < store.rows.len() ==> !store.rows[i].eligible(now)
            },
        },
{
    let after = store.claim(worker, now).0;
    match store.first_eligible(now) {
        Some(i) => {
            let key = store.rows[i].task.key();
            store.lemma_position(key, i);
            lemma_claim_wf(store, worker, now);
            after.lemma_position(key, i);
        },
        None => {
            assert forall|i: int| 0 <= i < store.rows.len() implies !store.rows[i].eligible(
                now,
            ) by {
                if store.rows[i].eligible(now) {
                    let first = lemma_some_first_eligible(store, now, i);
                    assert(store.is_first_eligible(now, first));
                }
            }
        },
    }
}

/// Where a row is eligible, some row is the first eligible one.
proof fn lemma_some_first_eligible(store: StoreModel, now: i64, i: int) -> (first: int)
    requires
        0 <= i < store.rows.len(),
        store.rows[i].eligible(now),
    ensures
        store.is_first_eligible(now, first),
    decreases i,
{
    if exists|j: int| 0 <= j < i && store.rows[j].eligible(now) {
        let j = choose|j: int| 0 <= j < i && store.rows[j].eligible(now);
        lemma_some_first_eligible(store, now, j)
    } else {
        i
    }
}

/// A held task stays with its holder, unchanged, whatever any worker asks
/// for, until the holder itself commits or rolls back.
pub proof fn held_task_stays_held(
    store: StoreModel,
    request: Request,
    key: (u128, Seq<char>),
    holder: u64,
)
    requires
        store.wf(),
        store.holder_of(key) == Some(holder),
        !(request.ends_transaction() && request.worker() == holder),
    ensures
        apply(store, request).holder_of(key) == Some(holder),
        apply(store, request).task_of(key) == store.task_of(key),
{
    let after = apply(store, request);
    let i = store.position(key)->0;
    apply_keeps_wf(store, request);
    match request {
        Request::Claim { worker, now } => {
            after.lemma_position(key, i);
        },
        Request::Mark { worker, key: marked, pending } => {
            after.lemma_position(key, i);
        },
        Request::Commit { worker } => {
            let k = lemma_commit_keeps(store, worker, i);
            after.lemma_position(key, k);
        },
        Request::Rollback { worker } => {
            after.lemma_position(key, i);
        },
    }
}

/// The same over a run of requests, none of which ends the holder's
/// transaction.
pub proof fn held_task_stays_held_through(
    store: StoreModel,
    requests: Seq<Request>,
    key: (u128, Seq<char>),
    holder: u64,
)
    requires
        store.wf(),
        store.holder_of(key) == Some(holder),
        forall|i: int|
            0 <= i < requests.len() ==> !((#[trigger] requests[i]).ends_transaction()
                && requests[i].worker() == holder),
    ensures
        run(store, requests).holder_of(key) == Some(holder),
        run(store, requests).task_of(key) == store.task_of(key),
    decreases requests.len(),
{
    if requests.len() > 0 {
        let front = requests.drop_last();
        assert forall|i: int| 0 <= i < front.len() implies !((#[trigger] front[i]).ends_transaction()
            && front[i].worker() == holder) by {
            assert(front[i] == requests[i]);
        }
        held_task_stays_held_through(store, front, key, holder);
        run_keeps_wf(store, front);
        held_task_stays_held(run(store, front), requests.last(), key, holder);
    }
}

/// No double claim: once a worker has claimed a task, no claim of any worker
/// hands out that task again before the first worker has committed or rolled
/// back, whatever else is asked of the queue in between.
pub proof fn claims_are_exclusive(
    store: StoreModel,
    first: u64,
    now: i64,
    between: Seq<Request>,
    second: u64,
    later: i64,
)
    requires
        store.wf(),
        store.claim(first, now).1 is Some,
        forall|i: int|
            0 <= i < between.len() ==> !((#[trigger] between[i]).ends_transaction()
                && between[i].worker() == first),
    ensures
        ({
            let claimed = store.claim(first, now).1->0;
            let reached = run(store.claim(first, now).0, between);
            reached.claim(second, later).1 matches Some(other) ==> other.key() != claimed.key()
        }),
{
    let claimed = store.claim(first, now).1->0;
    let locked = store.claim(first, now).0;
    claim_takes_a_free_task(store, first, now);
    lemma_claim_wf(store, first, now);
    held_task_stays_held_through(locked, between, claimed.key(), first);
    let reached = run(locked, between);
    run_keeps_wf(locked, between);
    claim_takes_a_free_task(reached, second, later);
}

/// No worker's request brings a task into the queue: a key that the queue
/// does not hold is not held after the request either.
pub proof fn no_task_comes_back(store: StoreModel, request: Request, key: (u128, Seq<char>))
    requires
        store.wf(),
        store.position(key) is None,
    ensures
        apply(store, request).position(key) is None,
        apply(store, request).rows.len() <= store.rows.len(),
{
    let after = apply(store, request);
    if after.position(key) is Some {
        let k = after.position(key)->0;
        assert(after.is_at(key, k));
        match request {
            Request::Commit { worker } => {
                let i = lemma_commit_origin(store, worker, k);
                assert(store.is_at(key, i));
            },
            _ => {
                assert(store.is_at(key, k));
            },
        }
    }
    if let Request::Commit { worker } = request {
        store.rows.lemma_filter_len(|row: RowModel| row.survives(worker));
    }
}

/// A task that has left the queue is never claimed again, however long the
/// workers go on: it stays out through every run of requests, and no claim
/// after that run hands it out.
pub proof fn gone_is_gone(
    store: StoreModel,
    requests: Seq<Request>,
    key: (u128, Seq<char>),
    worker: u64,
    now: i64,
)
    requires
        store.wf(),
        store.position(key) is None,
    ensures
        run(store, requests).position(key) is None,
        run(store, requests).rows.len() <= store.rows.len(),
        run(store, requests).claim(worker, now).1 matches Some(task) ==> task.key() != key,
    decreases requests.len(),
{
    if requests.len() > 0 {
        gone_is_gone(store, requests.drop_last(), key, worker, now);
        run_keeps_wf(store, requests.drop_last());
        no_task_comes_back(run(store, requests.drop_last()), requests.last(), key);
    }
    run_keeps_wf(store, requests);
    claim_takes_a_free_task(run(store, requests), worker, now);
}

/// What a commit does to a task that the committing worker holds: a task
/// marked for deletion leaves the queue; a task marked for an update gets its
/// new retry count and date; in both other cases the task is free again.
pub proof fn commit_carries_out(store: StoreModel, worker: u64, key: (u128, Seq<char>))
    requires
        store.wf(),
        store.holder_of(key) == Some(worker),
    ensures
        ({
            let row = store.rows[store.position(key)->0];
            let after = store.commit(worker);
            match row.pending {
                Pending::Delete => after.position(key) is None,
                Pending::Update { retry_count, not_before } => {
                    &&& after.task_of(key) == Some(
                        TaskModel { retry_count, not_before, ..row.task },
                    )
                    &&& after.holder_of(key) is None
                },
                Pending::Keep => {
                    &&& after.task_of(key) == Some(row.task)
                    &&& after.holder_of(key) is None
                },
            }
        }),
{
    let i = store.position(key)->0;
    let row = store.rows[i];
    let after = store.commit(worker);
    store.lemma_commit_wf(worker);
    if row.pending == Pending::Delete {
        if after.position(key) is Some {
            let k = after.position(key)->0;
            assert(after.is_at(key, k));
            let origin = lemma_commit_origin(store, worker, k);
            assert(store.is_at(key, origin));
            store.lemma_position(key, origin);
        }
    } else {
        let k = lemma_commit_keeps(store, worker, i);
        after.lemma_position(key, k);
    }
}

/// A request leaves alone every task that its worker does not hold, but for
/// a claim, which may lock a free one: same retry count, same date, same
/// holder.
pub proof fn others_tasks_untouched(store: StoreModel, request: Request, key: (u128, Seq<char>))
    requires
        store.wf(),
        store.position(key) is Some,
        store.holder_of(key) != Some(request.worker()),
        request is Claim ==> store.claim(request.worker(), request->now).1 != Some(
            store.rows[store.position(key)->0].task,
        ),
    ensures
        apply(store, request).task_of(key) == store.task_of(key),
        apply(store, request).holder_of(key) == store.holder_of(key),
{
    let after = apply(store, request);
    let i = store.position(key)->0;
    assert(store.is_at(key, i));
    apply_keeps_wf(store, request);
    match request {
        Request::Claim { worker, now } => {
            if store.first_eligible(now) is Some {
                let j = store.first_eligible(now)->0;
                assert(store.is_first_eligible(now, j));
            }
            after.lemma_position(key, i);
        },
        Request::Mark { worker, key: marked, pending } => {
            if store.position(marked) is Some {
                assert(store.is_at(marked, store.position(marked)->0));
            }
            after.lemma_position(key, i);
        },
        Request::Commit { worker } => {
            let k = lemma_commit_keeps(store, worker, i);
            after.lemma_position(key, k);
        },
        Request::Rollback { worker } => {
            after.lemma_position(key, i);
        },
    }
}

/// What a worker asks for on a task that it holds is noted, and nothing else
/// changes: the task keeps its place, its values and its holder.
pub proof fn mark_of_held_is_noted(
    store: StoreModel,
    worker: u64,
    key: (u128, Seq<char>),
    pending: Pending,
)
    requires
        store.wf(),
        store.holder_of(key) == Some(worker),
    ensures
        store.mark(worker, key, pending).1 is Ok,
        ({
            let i = store.position(key)->0;
            let after = store.mark(worker, key, pending).0;
            &&& after.wf()
            &&& after.position(key) == Some(i)
            &&& after.rows == store.rows.update(i, RowModel { pending, ..store.rows[i] })
            &&& after.issues == store.issues
        }),
{
    let i = store.position(key)->0;
    assert(store.is_at(key, i));
    lemma_mark_wf(store, worker, key, pending);
    store.mark(worker, key, pending).0.lemma_position(key, i);
}

/// A worker that holds nothing loses nothing by a rollback, and neither does
/// anybody else.
pub proof fn idle_rollback_changes_nothing(store: StoreModel, worker: u64)
    requires
        forall|i: int| 0 <= i < store.rows.len() ==> store.rows[i].holder != Some(worker),
    ensures
        store.rollback(worker) == store,
{
    assert(store.rollback(worker).rows =~= store.rows);
}

/// `worker` holds no task.
pub open spec fn holds_nothing(store: StoreModel, worker: u64) -> bool {
    forall|i: int| 0 <= i < store.rows.len() ==> (#[trigger] store.rows[i]).holder != Some(worker)
}

/// What one transaction does to the queue: a worker that held nothing claims
/// a task, asks for `pending` on it and commits.
pub open spec fn transacted(store: StoreModel, worker: u64, now: i64, pending: Pending)
    -> StoreModel {
    let task = store.claim(worker, now).1->0;
    store.claim(worker, now).0.mark(worker, task.key(), pending).0.commit(worker)
}

/// One transaction changes the claimed task as asked and nothing else: every
/// other task keeps its values and its holder, the issues are as they were,
/// and the worker holds nothing again.
pub proof fn transaction_touches_one_task(
    store: StoreModel,
    worker: u64,
    now: i64,
    pending: Pending,
)
    requires
        store.wf(),
        holds_nothing(store, worker),
        store.claim(worker, now).1 is Some,
    ensures
        ({
            let task = store.claim(worker, now).1->0;
            let after = transacted(store, worker, now, pending);
            &&& after.wf()
            &&& after.issues == store.issues
            &&& holds_nothing(after, worker)
            &&& match pending {
                Pending::Delete => after.position(task.key()) is None,
                Pending::Update { retry_count, not_before } => {
                    &&& after.task_of(task.key()) == Some(
                        TaskModel { retry_count, not_before, ..task },
                    )
                    &&& after.holder_of(task.key()) is None
                },
                Pending::Keep => {
                    &&& after.task_of(task.key()) == Some(task)
                    &&& after.holder_of(task.key()) is None
                },
            }
            &&& forall|other: (u128, Seq<char>)|
                other != task.key() && store.position(other) is Some ==> {
                    &&& #[trigger] after.task_of(other) == store.task_of(other)
                    &&& after.holder_of(other) == store.holder_of(other)
                }
        }),
{
    let task = store.claim(worker, now).1->0;
    let key = task.key();
    let claimed = store.claim(worker, now).0;
    let marked = claimed.mark(worker, key, pending).0;
    let after = marked.commit(worker);
    claim_takes_a_free_task(store, worker, now);
    lemma_claim_wf(store, worker, now);
    mark_of_held_is_noted(claimed, worker, key, pending);
    let i = claimed.position(key)->0;
    assert(claimed.is_at(key, i));
    commit_carries_out(marked, worker, key);
    marked.lemma_commit_wf(worker);
    assert forall|k: int| 0 <= k < after.rows.len() implies (#[trigger] after.rows[k]).holder
        != Some(worker) by {
        let origin = lemma_commit_origin(marked, worker, k);
    }
    assert forall|other: (u128, Seq<char>)|
        other != key && store.position(other) is Some implies {
        &&& #[trigger] after.task_of(other) == store.task_of(other)
        &&& after.holder_of(other) == store.holder_of(other)
    } by {
        let j = store.position(other)->0;
        assert(store.is_at(other, j));
        others_tasks_untouched(store, Request::Claim { worker, now }, other);
        others_tasks_untouched(claimed, Request::Mark { worker, key, pending }, other);
        others_tasks_untouched(marked, Request::Commit { worker }, other);
    }
}

/// Where every row passes, filtering changes nothing.
pub proof fn lemma_filter_keeps_all(rows: Seq<RowModel>, keep: spec_fn(RowModel) -> bool)
    requires
        forall|j: int| 0 <= j < rows.len() ==> keep(#[trigger] rows[j]),
    ensures
        rows.filter(keep) == rows,
    decreases rows.len(),
{
    reveal(Seq::filter);
    if rows.len() > 0 {
        let front = rows.drop_last();
        assert forall|j: int| 0 <= j < front.len() implies keep(#[trigger] front[j]) by {
            assert(front[j] == rows[j]);
        }
        lemma_filter_keeps_all(front, keep);
        assert(front.push(rows.last()) =~= rows);
    } else {
        assert(rows.filter(keep) =~= rows);
    }
}

/// Where every row but row `i` passes, filtering takes out row `i` and
/// nothing else.
pub proof fn lemma_filter_drops_one(rows: Seq<RowModel>, keep: spec_fn(RowModel) -> bool, i: int)
    requires
        0 <= i < rows.len(),
        !keep(rows[i]),
        forall|j: int| 0 <= j < rows.len() && j != i ==> keep(#[trigger] rows[j]),
    ensures
        rows.filter(keep) == rows.remove(i),
    decreases rows.len(),
{
    reveal(Seq::filter);
    let front = rows.drop_last();
    if i == rows.len() - 1 {
        assert forall|j: int| 0 <= j < front.len() implies keep(#[trigger] front[j]) by {
            assert(front[j] == rows[j]);
        }
        lemma_filter_keeps_all(front, keep);
        assert(rows.remove(i) =~= front);
    } else {
        assert forall|j: int| 0 <= j < front.len() && j != i implies keep(
            #[trigger] front[j],
        ) by {
            assert(front[j] == rows[j]);
        }
        assert(front[i] == rows[i]);
        lemma_filter_drops_one(front, keep, i);
        assert(keep(rows[rows.len() - 1]));
        assert(front.remove(i).push(rows.last()) =~= rows.remove(i));
    }
}

/// One transaction, row by row: the claimed task is taken out where its
/// deletion was asked for, and otherwise stands in its old place, free, with
/// the values that were asked for; every other row is what it was.
pub proof fn transaction_is_exact(store: StoreModel, worker: u64, now: i64, pending: Pending)
    requires
        store.wf(),
        holds_nothing(store, worker),
        store.claim(worker, now).1 is Some,
    ensures
        ({
            let i = store.first_eligible(now)->0;
            let asked = RowModel { pending, ..store.rows[i].locked_by(worker) };
            &&& 0 <= i < store.rows.len()
            &&& store.rows[i].task == store.claim(worker, now).1->0
            &&& transacted(store, worker, now, pending) == StoreModel {
                rows: if pending == Pending::Delete {
                    store.rows.remove(i)
                } else {
                    store.rows.update(i, asked.settled())
                },
                ..store
            }
        }),
{
    let i = store.first_eligible(now)->0;
    assert(store.is_first_eligible(now, i));
    let key = store.rows[i].task.key();
    let claimed = store.claim(worker, now).0;
    lemma_claim_wf(store, worker, now);
    claimed.lemma_position(key, i);
    mark_of_held_is_noted(claimed, worker, key, pending);
    let marked = claimed.mark(worker, key, pending).0;
    let asked = RowModel { pending, ..store.rows[i].locked_by(worker) };
    assert(marked.rows =~= store.rows.update(i, asked));
    let survives = |row: RowModel| row.survives(worker);
    let after = marked.commit(worker);
    if pending == Pending::Delete {
        lemma_filter_drops_one(marked.rows, survives, i);
        assert(after.rows =~= store.rows.remove(i));
    } else {
        lemma_filter_keeps_all(marked.rows, survives);
        assert(after.rows =~= store.rows.update(i, asked.settled()));
    }
}

/// Rollback safety: whatever a worker has claimed and asked for since it
/// last held nothing, its rollback leaves every task exactly as it was
/// then: same retry count, same date, nobody's.
pub proof fn rollback_restores(store: StoreModel, worker: u64, requests: Seq<Request>)
    requires
        store.wf(),
        forall|i: int| 0 <= i < store.rows.len() ==> store.rows[i].holder != Some(worker),
        forall|i: int|
            0 <= i < requests.len() ==> (#[trigger] requests[i]).worker() == worker
                && !requests[i].ends_transaction(),
    ensures
        run(store, requests).rollback(worker) == store,
{
    lemma_touched_only_own(store, worker, requests);
    let reached = run(store, requests);
    assert(reached.rollback(worker).rows =~= store.rows);
}

/// The rows of `reached` are those of `store`, but for rows that were free
/// in `store` and that `worker` now holds.
spec fn differs_by_holdings(store: StoreModel, reached: StoreModel, worker: u64) -> bool {
    &&& reached.issues == store.issues
    &&& reached.rows.len() == store.rows.len()
    &&& forall|i: int|
        0 <= i < store.rows.len() ==> (#[trigger] reached.rows[i]) == store.rows[i] || {
            &&& reached.rows[i].holder == Some(worker)
            &&& reached.rows[i].task == store.rows[i].task
            &&& store.rows[i].holder is None
        }
}

proof fn lemma_touches_only_own(
    store: StoreModel,
    before: StoreModel,
    worker: u64,
    request: Request,
)
    requires
        forall|i: int| 0 <= i < store.rows.len() ==> store.rows[i].holder != Some(worker),
        differs_by_holdings(store, before, worker),
        request.worker() == worker,
        !request.ends_transaction(),
    ensures
        differs_by_holdings(store, apply(before, request), worker),
{
    let after = apply(before, request);
    match request {
        Request::Claim { worker: claimer, now } => {
            if before.first_eligible(now) is Some {
                let j = before.first_eligible(now)->0;
                assert(before.is_first_eligible(now, j));
                assert(after.rows == before.rows.update(j, before.rows[j].locked_by(worker)));
                assert forall|i: int| 0 <= i < store.rows.len() implies (#[trigger] after.rows[i])
                    == store.rows[i] || {
                    &&& after.rows[i].holder == Some(worker)
                    &&& after.rows[i].task == store.rows[i].task
                    &&& store.rows[i].holder is None
                } by {
                    assert(before.rows[i] == store.rows[i] || before.rows[i].holder == Some(
                        worker,
                    ));
                }
            }
        },
        Request::Mark { worker: marker, key, pending } => {
            if before.position(key) is Some {
                let j = before.position(key)->0;
                assert(before.is_at(key, j));
                if before.rows[j].holder == Some(worker) {
                    assert(after.rows == before.rows.update(
                        j,
                        RowModel { pending, ..before.rows[j] },
                    ));
                    assert forall|i: int| 0 <= i < store.rows.len() implies (
                    #[trigger] after.rows[i]) == store.rows[i] || {
                        &&& after.rows[i].holder == Some(worker)
                        &&& after.rows[i].task == store.rows[i].task
                        &&& store.rows[i].holder is None
                    } by {
                        assert(before.rows[i] == store.rows[i] || before.rows[i].holder == Some(
                            worker,
                        ));
                    }
                }
            }
        },
        _ => {},
    }
}

proof fn lemma_touched_only_own(store: StoreModel, worker: u64, requests: Seq<Request>)
    requires
        forall|i: int| 0 <= i < store.rows.len() ==> store.rows[i].holder != Some(worker),
        forall|i: int|
            0 <= i < requests.len() ==> (#[trigger] requests[i]).worker() == worker
                && !requests[i].ends_transaction(),
    ensures
        differs_by_holdings(store, run(store, requests), worker),
    decreases requests.len(),
{
    if requests.len() > 0 {
        let front = requests.drop_last();
        assert forall|i: int| 0 <= i < front.len() implies (#[trigger] front[i]).worker() == worker
            && !front[i].ends_transaction() by {
            assert(front[i] == requests[i]);
        }
        lemma_touched_only_own(store, worker, front);
        assert(requests.last() == requests[requests.len() - 1]);
        lemma_touches_only_own(store, run(store, front), worker, requests.last());
    }
}

} // verus!
