//! What holds of a whole claim cycle on the in-memory store.

use crate::address::well_formed;
use crate::carry::{answered, cycle_of, driven, sends_driven, sends_of, Script, LONGEST_CYCLE};
use crate::cycle::{
    delete_of, next, update_to, ActionModel, CycleError, EndingModel, Fate, StateModel,
};
use crate::store::{first_with_id, Pending, RowModel, StoreModel};
use crate::store_laws::{
    claim_takes_a_free_task, holds_nothing, idle_rollback_changes_nothing, lemma_claim_wf,
    mark_of_held_is_noted, rollback_restores, run, transacted, transaction_is_exact,
    transaction_touches_one_task, Request,
};
use crate::task::{rescheduled, TaskModel};
use vstd::prelude::*;

verus! {

/// How far a cycle has come.
spec fn rank(state: StateModel) -> nat {
    match state {
        StateModel::Idle => 0,
        StateModel::Claiming => 1,
        StateModel::LoadingIssue { .. } => 2,
        StateModel::Sending { .. } => 3,
        StateModel::Writing { .. } => 4,
        StateModel::Committing { .. } => 5,
        StateModel::Finished { .. } => 6,
    }
}

/// `action` is what the state machine asks for when it enters `state`.
spec fn paired(state: StateModel, action: ActionModel) -> bool {
    match state {
        StateModel::Idle => false,
        StateModel::Claiming => action is Claim,
        StateModel::LoadingIssue { .. } => action is LoadIssue,
        StateModel::Sending { .. } => action is Send,
        StateModel::Writing { .. } => action is Delete || action is Update,
        StateModel::Committing { .. } => action is Commit,
        StateModel::Finished { .. } => action is Rollback || action is Return,
    }
}

proof fn lemma_driven_finishes(
    store: StoreModel,
    state: StateModel,
    action: ActionModel,
    worker: u64,
    now: i64,
    script: Script,
    steps: nat,
)
    requires
        paired(state, action),
        rank(state) + steps >= 7,
    ensures
        driven(store, state, action, worker, now, script, steps).1 is Finished,
    decreases steps,
{
    if steps > 0 {
        let (after, report) = answered(store, worker, now, script, action);
        if report is Some {
            let (then, asked) = next(state, report->0, script.failed_at, script.wait_seconds);
            lemma_driven_finishes(after, then, asked, worker, now, script, (steps - 1) as nat);
        }
    }
}

/// Every cycle comes to an end: after at most six actions the state machine
/// has nothing left to ask for.
pub proof fn cycle_finishes(store: StoreModel, worker: u64, now: i64, script: Script)
    ensures
        cycle_of(store, worker, now, script).1 is Finished,
{
    lemma_driven_finishes(
        store,
        StateModel::Claiming,
        ActionModel::Claim,
        worker,
        now,
        script,
        LONGEST_CYCLE as nat,
    );
}

/// The write, the commit and the end of a cycle, for a task that the worker
/// holds.
proof fn lemma_settles(
    store: StoreModel,
    worker: u64,
    now: i64,
    script: Script,
    task: TaskModel,
    fate: Fate,
    steps: nat,
)
    requires
        store.wf(),
        store.holder_of(task.key()) == Some(worker),
        steps >= 3,
    ensures
        driven(
            store,
            StateModel::Writing { task, fate },
            delete_of(task),
            worker,
            now,
            script,
            steps,
        ) == (
            store.mark(worker, task.key(), Pending::Delete).0.commit(worker),
            StateModel::Finished { ending: EndingModel::Settled { task, fate } },
        ),
        driven(
            store,
            StateModel::Writing { task, fate },
            update_to(task),
            worker,
            now,
            script,
            steps,
        ) == (
            store.mark(
                worker,
                task.key(),
                Pending::Update { retry_count: task.retry_count, not_before: task.not_before },
            ).0.commit(worker),
            StateModel::Finished { ending: EndingModel::Settled { task, fate } },
        ),
{
    reveal_with_fuel(driven, 4);
    mark_of_held_is_noted(store, worker, task.key(), Pending::Delete);
    mark_of_held_is_noted(
        store,
        worker,
        task.key(),
        Pending::Update { retry_count: task.retry_count, not_before: task.not_before },
    );
}

/// What a cycle of `worker` at `now` comes to: what it asks for on the task
/// it claims, where it commits, and how it ends.
///
/// - No task is eligible: nothing is asked for, the cycle ends empty.
/// - The claimed task has a malformed address: it is deleted, rejected.
/// - The issue of the task is missing: nothing is asked for, the cycle fails.
/// - The delivery client accepts the issue: the task is deleted, delivered.
/// - The delivery fails and the task can be given a new date: the task is
///   updated, rescheduled.
/// - The delivery fails and the task cannot be given a new date: nothing is
///   asked for, the cycle fails.
pub open spec fn verdict(store: StoreModel, worker: u64, now: i64, script: Script) -> (
    Option<Pending>,
    EndingModel,
) {
    match store.claim(worker, now).1 {
        None => (None, EndingModel::Empty),
        Some(task) => if !well_formed(task.recipient) {
            (Some(Pending::Delete), EndingModel::Settled { task, fate: Fate::Rejected })
        } else if store.issue(task.issue_id) is None {
            (None, EndingModel::Failed { error: CycleError::MissingIssue })
        } else if script.delivered {
            (Some(Pending::Delete), EndingModel::Settled { task, fate: Fate::Delivered })
        } else {
            match rescheduled(task, script.failed_at, script.wait_seconds) {
                Ok(later) => (
                    Some(
                        Pending::Update {
                            retry_count: later.retry_count,
                            not_before: later.not_before,
                        },
                    ),
                    EndingModel::Settled { task: later, fate: Fate::Rescheduled },
                ),
                Err(error) => (None, EndingModel::Failed { error: CycleError::Reschedule(error) }),
            }
        },
    }
}

/// The store and the state that [`verdict`] leads to: the store is left as it
/// was where nothing is asked for, and is one transaction further otherwise.
pub open spec fn outcome(store: StoreModel, worker: u64, now: i64, script: Script) -> (
    StoreModel,
    StateModel,
) {
    let (asked, ending) = verdict(store, worker, now, script);
    (
        match asked {
            None => store,
            Some(pending) => transacted(store, worker, now, pending),
        },
        StateModel::Finished { ending },
    )
}

/// The whole of a cycle: for a worker that holds nothing when it starts, the
/// cycle ends as [`verdict`] says, and it either leaves the store exactly as
/// it was or is exactly one transaction on it.
pub proof fn cycle_is_one_transaction(store: StoreModel, worker: u64, now: i64, script: Script)
    requires
        store.wf(),
        holds_nothing(store, worker),
    ensures
        cycle_of(store, worker, now, script) == outcome(store, worker, now, script),
{
    reveal_with_fuel(driven, 5);
    claim_takes_a_free_task(store, worker, now);
    match store.claim(worker, now).1 {
        None => {
            idle_rollback_changes_nothing(store, worker);
        },
        Some(task) => {
            let claimed = store.claim(worker, now).0;
            lemma_claim_wf(store, worker, now);
            if store.issue(task.issue_id) is Some {
                lemma_issue_has_id(store, task.issue_id);
            }
            match verdict(store, worker, now, script).1 {
                EndingModel::Settled { task: settled, fate } => {
                    assert(settled.key() == task.key());
                    lemma_settles(claimed, worker, now, script, settled, fate, 3);
                },
                _ => {
                    let requests = seq![Request::Claim { worker, now }];
                    assert(requests.drop_last() =~= Seq::<Request>::empty());
                    assert(run(store, requests) == claimed) by {
                        reveal_with_fuel(run, 2);
                    }
                    rollback_restores(store, worker, requests);
                },
            }
        },
    }
}

/// The issue that the store hands out for an id bears that id.
proof fn lemma_issue_has_id(store: StoreModel, issue_id: u128)
    requires
        store.issue(issue_id) is Some,
    ensures
        store.issue(issue_id)->0.issue_id == issue_id,
{
    let j = choose|j: int| first_with_id(store.issues, issue_id, j);
    assert(first_with_id(store.issues, issue_id, j));
}

/// With no eligible task the cycle ends empty and the store is as it was.
pub proof fn empty_queue_changes_nothing(store: StoreModel, worker: u64, now: i64, script: Script)
    requires
        store.wf(),
        holds_nothing(store, worker),
        store.claim(worker, now).1 is None,
    ensures
        cycle_of(store, worker, now, script) == (
            store,
            StateModel::Finished { ending: EndingModel::Empty },
        ),
{
    cycle_is_one_transaction(store, worker, now, script);
}

/// A task with a malformed address is deleted in the cycle that claims it,
/// and nothing is sent; every other task is left alone.
pub proof fn malformed_task_is_deleted(store: StoreModel, worker: u64, now: i64, script: Script)
    requires
        store.wf(),
        holds_nothing(store, worker),
        store.claim(worker, now).1 is Some,
        !well_formed(store.claim(worker, now).1->0.recipient),
    ensures
        cycle_of(store, worker, now, script) == (
            transacted(store, worker, now, Pending::Delete),
            StateModel::Finished {
                ending: EndingModel::Settled {
                    task: store.claim(worker, now).1->0,
                    fate: Fate::Rejected,
                },
            },
        ),
        transacted(store, worker, now, Pending::Delete).position(
            store.claim(worker, now).1->0.key(),
        ) is None,
{
    cycle_is_one_transaction(store, worker, now, script);
    transaction_touches_one_task(store, worker, now, Pending::Delete);
}

/// The happy path: a task with a well-formed address whose issue is in the
/// store, and a delivery client that accepts it. The task is deleted, every
/// other task and the issues are left alone.
pub proof fn delivered_task_is_deleted(store: StoreModel, worker: u64, now: i64, script: Script)
    requires
        store.wf(),
        holds_nothing(store, worker),
        store.claim(worker, now).1 is Some,
        well_formed(store.claim(worker, now).1->0.recipient),
        store.issue(store.claim(worker, now).1->0.issue_id) is Some,
        script.delivered,
    ensures
        cycle_of(store, worker, now, script) == (
            transacted(store, worker, now, Pending::Delete),
            StateModel::Finished {
                ending: EndingModel::Settled {
                    task: store.claim(worker, now).1->0,
                    fate: Fate::Delivered,
                },
            },
        ),
        transacted(store, worker, now, Pending::Delete).position(
            store.claim(worker, now).1->0.key(),
        ) is None,
        transacted(store, worker, now, Pending::Delete).issues == store.issues,
{
    cycle_is_one_transaction(store, worker, now, script);
    transaction_touches_one_task(store, worker, now, Pending::Delete);
}

/// A failed delivery: the task stays in the queue with one more retry and a
/// date `wait_seconds` after the failure, and is free again.
pub proof fn failed_task_is_rescheduled(store: StoreModel, worker: u64, now: i64, script: Script)
    requires
        store.wf(),
        holds_nothing(store, worker),
        store.claim(worker, now).1 is Some,
        well_formed(store.claim(worker, now).1->0.recipient),
        store.issue(store.claim(worker, now).1->0.issue_id) is Some,
        !script.delivered,
        rescheduled(store.claim(worker, now).1->0, script.failed_at, script.wait_seconds) is Ok,
    ensures
        ({
            let task = store.claim(worker, now).1->0;
            let later = rescheduled(task, script.failed_at, script.wait_seconds)->Ok_0;
            let after = transacted(
                store,
                worker,
                now,
                Pending::Update { retry_count: later.retry_count, not_before: later.not_before },
            );
            &&& cycle_of(store, worker, now, script) == (
                after,
                StateModel::Finished {
                    ending: EndingModel::Settled { task: later, fate: Fate::Rescheduled },
                },
            )
            &&& after.task_of(task.key()) == Some(later)
            &&& after.holder_of(task.key()) is None
            &&& later.retry_count == task.retry_count + 1
            &&& later.not_before > script.failed_at
        }),
{
    let task = store.claim(worker, now).1->0;
    let later = rescheduled(task, script.failed_at, script.wait_seconds)->Ok_0;
    cycle_is_one_transaction(store, worker, now, script);
    transaction_touches_one_task(
        store,
        worker,
        now,
        Pending::Update { retry_count: later.retry_count, not_before: later.not_before },
    );
}

/// Rollback safety: a cycle that is given up, because the issue is missing or
/// because the task cannot be given a new date, leaves the store exactly as
/// it was before the claim.
pub proof fn failed_cycle_restores(store: StoreModel, worker: u64, now: i64, script: Script)
    requires
        store.wf(),
        holds_nothing(store, worker),
        store.claim(worker, now).1 is Some,
        well_formed(store.claim(worker, now).1->0.recipient),
        store.issue(store.claim(worker, now).1->0.issue_id) is None || (!script.delivered
            && rescheduled(
            store.claim(worker, now).1->0,
            script.failed_at,
            script.wait_seconds,
        ) is Err),
    ensures
        cycle_of(store, worker, now, script).0 == store,
        cycle_of(store, worker, now, script).1 matches StateModel::Finished {
            ending: EndingModel::Failed { error },
        } && (error == CycleError::MissingIssue || error is Reschedule),
{
    cycle_is_one_transaction(store, worker, now, script);
}

/// Nobody holds a task.
pub open spec fn idle(store: StoreModel) -> bool {
    forall|i: int| 0 <= i < store.rows.len() ==> (#[trigger] store.rows[i]).holder is None
}

/// How many tasks a cycle that stopped in `state` has taken out of the queue
/// for good: one where it delivered or rejected a task, none otherwise.
pub open spec fn settled_for_good(state: StateModel) -> nat {
    match state {
        StateModel::Finished { ending: EndingModel::Settled { task, fate } } => if fate
            == Fate::Rescheduled {
            0
        } else {
            1
        },
        _ => 0,
    }
}

/// Every cycle accounts for its task: the queue shrinks by exactly one task
/// where the cycle delivered or rejected one, and keeps its size otherwise;
/// the issues are untouched and, at the end, nobody holds a task.
pub proof fn cycle_accounts(store: StoreModel, worker: u64, now: i64, script: Script)
    requires
        store.wf(),
        idle(store),
    ensures
        ({
            let (after, state) = cycle_of(store, worker, now, script);
            &&& state is Finished
            &&& after.wf()
            &&& idle(after)
            &&& after.issues == store.issues
            &&& after.rows.len() + settled_for_good(state) == store.rows.len()
        }),
{
    assert(holds_nothing(store, worker));
    cycle_is_one_transaction(store, worker, now, script);
    if verdict(store, worker, now, script).0 is Some {
        let pending = verdict(store, worker, now, script).0->0;
        transaction_touches_one_task(store, worker, now, pending);
        transaction_is_exact(store, worker, now, pending);
    }
}

/// One whole cycle: who runs it, when, and what the world answers.
pub struct Turn {
    pub worker: u64,
    pub now: i64,
    pub script: Script,
}

/// The queue after the cycles of `turns`, run one after the other.
pub open spec fn after_turns(store: StoreModel, turns: Seq<Turn>) -> StoreModel
    decreases turns.len(),
{
    if turns.len() == 0 {
        store
    } else {
        let last = turns.last();
        cycle_of(after_turns(store, turns.drop_last()), last.worker, last.now, last.script).0
    }
}

/// How many tasks the cycles of `turns` have delivered or rejected.
pub open spec fn settled_in(store: StoreModel, turns: Seq<Turn>) -> nat
    decreases turns.len(),
{
    if turns.len() == 0 {
        0
    } else {
        let last = turns.last();
        settled_in(store, turns.drop_last()) + settled_for_good(
            cycle_of(after_turns(store, turns.drop_last()), last.worker, last.now, last.script).1,
        )
    }
}

/// However many workers take turns, and whatever the delivery client
/// answers: the tasks that are left and the tasks that were delivered or
/// rejected add up to the tasks there were. No task is settled twice, and
/// none is lost.
pub proof fn every_task_settles_once(store: StoreModel, turns: Seq<Turn>)
    requires
        store.wf(),
        idle(store),
    ensures
        after_turns(store, turns).wf(),
        idle(after_turns(store, turns)),
        after_turns(store, turns).issues == store.issues,
        after_turns(store, turns).rows.len() + settled_in(store, turns) == store.rows.len(),
    decreases turns.len(),
{
    if turns.len() > 0 {
        let last = turns.last();
        every_task_settles_once(store, turns.drop_last());
        cycle_accounts(
            after_turns(store, turns.drop_last()),
            last.worker,
            last.now,
            last.script,
        );
    }
}

/// No cycle brings a task into the queue: a key that the queue does not hold
/// before a cycle is not held after it.
pub proof fn cycle_brings_nothing_back(
    store: StoreModel,
    worker: u64,
    now: i64,
    script: Script,
    key: (u128, Seq<char>),
)
    requires
        store.wf(),
        holds_nothing(store, worker),
        store.position(key) is None,
    ensures
        cycle_of(store, worker, now, script).0.position(key) is None,
{
    let after = cycle_of(store, worker, now, script).0;
    cycle_is_one_transaction(store, worker, now, script);
    if verdict(store, worker, now, script).0 is Some {
        let pending = verdict(store, worker, now, script).0->0;
        transaction_is_exact(store, worker, now, pending);
        if after.position(key) is Some {
            let k = after.position(key)->0;
            let i = store.first_eligible(now)->0;
            assert(after.is_at(key, k));
            if pending == Pending::Delete {
                if k < i {
                    assert(store.is_at(key, k));
                } else {
                    assert(store.is_at(key, k + 1));
                }
            } else {
                assert(store.is_at(key, k));
            }
        }
    }
}

/// Rejected once, gone for good: a task that is not in the queue is not
/// there after any number of cycles either, so no cycle claims it again.
pub proof fn gone_through_every_cycle(store: StoreModel, turns: Seq<Turn>, key: (u128, Seq<char>))
    requires
        store.wf(),
        idle(store),
        store.position(key) is None,
    ensures
        after_turns(store, turns).position(key) is None,
    decreases turns.len(),
{
    if turns.len() > 0 {
        let last = turns.last();
        let before = after_turns(store, turns.drop_last());
        gone_through_every_cycle(store, turns.drop_last(), key);
        every_task_settles_once(store, turns.drop_last());
        assert(holds_nothing(before, last.worker));
        cycle_brings_nothing_back(before, last.worker, last.now, last.script, key);
    }
}

/// The delivery client is asked at most once in a cycle: once where the
/// claimed task has a well-formed address and its issue is in the store, and
/// not at all otherwise.
pub proof fn cycle_sends_once(store: StoreModel, worker: u64, now: i64, script: Script)
    requires
        store.wf(),
        holds_nothing(store, worker),
    ensures
        sends_of(store, worker, now, script) == match store.claim(worker, now).1 {
            Some(task) => if well_formed(task.recipient) && store.issue(task.issue_id) is Some {
                1nat
            } else {
                0nat
            },
            None => 0nat,
        },
{
    reveal_with_fuel(sends_driven, 7);
    claim_takes_a_free_task(store, worker, now);
    if store.claim(worker, now).1 is Some {
        let task = store.claim(worker, now).1->0;
        if store.issue(task.issue_id) is Some {
            lemma_issue_has_id(store, task.issue_id);
        }
    }
}

/// How often the delivery client is asked in the cycles of `turns`.
pub open spec fn sends_in(store: StoreModel, turns: Seq<Turn>) -> nat
    decreases turns.len(),
{
    if turns.len() == 0 {
        0
    } else {
        let last = turns.last();
        sends_in(store, turns.drop_last()) + sends_of(
            after_turns(store, turns.drop_last()),
            last.worker,
            last.now,
            last.script,
        )
    }
}

/// How many of `rows` hold a well-formed address.
pub open spec fn well_formed_among(rows: Seq<RowModel>) -> nat
    decreases rows.len(),
{
    if rows.len() == 0 {
        0
    } else {
        well_formed_among(rows.drop_last()) + if well_formed(rows.last().task.recipient) {
            1nat
        } else {
            0nat
        }
    }
}

proof fn lemma_one_row_less(rows: Seq<RowModel>, i: int)
    requires
        0 <= i < rows.len(),
    ensures
        well_formed_among(rows.remove(i)) + if well_formed(rows[i].task.recipient) {
            1nat
        } else {
            0nat
        } == well_formed_among(rows),
    decreases rows.len(),
{
    if i == rows.len() - 1 {
        assert(rows.remove(i) =~= rows.drop_last());
    } else {
        lemma_one_row_less(rows.drop_last(), i);
        assert(rows.remove(i).drop_last() =~= rows.drop_last().remove(i));
        assert(rows.remove(i).last() == rows.last());
    }
}

/// Nothing stands in the way of the workers: every task of the queue is
/// eligible whenever a cycle starts, its issue is in the store, and the
/// delivery client accepts whatever it is handed.
pub open spec fn nothing_in_the_way(store: StoreModel, turns: Seq<Turn>) -> bool {
    &&& forall|i: int|
        0 <= i < store.rows.len() ==> store.issue((#[trigger] store.rows[i]).task.issue_id) is Some
    &&& forall|i: int, t: int|
        0 <= i < store.rows.len() && 0 <= t < turns.len() ==> (#[trigger] store.rows[i]).task.not_before
            < (#[trigger] turns[t]).now
    &&& forall|t: int| 0 <= t < turns.len() ==> (#[trigger] turns[t]).script.delivered
}

/// Every row of `later` is a row of `store`.
pub open spec fn rows_from(later: StoreModel, store: StoreModel) -> bool {
    forall|j: int| 0 <= j < later.rows.len() ==> store.rows.contains(#[trigger] later.rows[j])
}

/// The queue drains. Where nothing stands in the way, however the workers
/// take turns with their cycles: every cycle that finds a task settles it, so
/// that after as many cycles as there were tasks the queue is empty and every
/// task was delivered or rejected, each once; and the delivery client was
/// asked once for every task with a well-formed address that has left the
/// queue, and never for another.
pub proof fn queue_drains(store: StoreModel, turns: Seq<Turn>)
    requires
        store.wf(),
        idle(store),
        nothing_in_the_way(store, turns),
    ensures
        ({
            let after = after_turns(store, turns);
            &&& rows_from(after, store)
            &&& after.rows.len() == if turns.len() <= store.rows.len() {
                store.rows.len() - turns.len()
            } else {
                0
            }
            &&& after.rows.len() + settled_in(store, turns) == store.rows.len()
            &&& sends_in(store, turns) + well_formed_among(after.rows) == well_formed_among(
                store.rows,
            )
        }),
    decreases turns.len(),
{
    if turns.len() > 0 {
        let front = turns.drop_last();
        let last = turns.last();
        let before = after_turns(store, front);
        let after = after_turns(store, turns);
        assert(nothing_in_the_way(store, front)) by {
            assert forall|i: int, t: int|
                0 <= i < store.rows.len() && 0 <= t < front.len() implies (
            #[trigger] store.rows[i]).task.not_before < (#[trigger] front[t]).now by {
                assert(front[t] == turns[t]);
            }
            assert forall|t: int| 0 <= t < front.len() implies (
            #[trigger] front[t]).script.delivered by {
                assert(front[t] == turns[t]);
            }
        }
        queue_drains(store, front);
        every_task_settles_once(store, front);
        every_task_settles_once(store, turns);
        assert(holds_nothing(before, last.worker));
        cycle_is_one_transaction(before, last.worker, last.now, last.script);
        cycle_sends_once(before, last.worker, last.now, last.script);
        assert(last == turns[turns.len() - 1]);
        if before.rows.len() == 0 {
            claim_takes_a_free_task(before, last.worker, last.now);
        } else {
            let first = before.rows[0];
            let origin = choose|k: int| 0 <= k < store.rows.len() && store.rows[k] == first;
            assert(store.rows[origin].task.not_before < turns[turns.len() - 1].now);
            assert(first.eligible(last.now));
            claim_takes_a_free_task(before, last.worker, last.now);
            let i = before.first_eligible(last.now)->0;
            assert(before.is_first_eligible(last.now, i));
            let claimed = before.rows[i];
            let at = choose|k: int| 0 <= k < store.rows.len() && store.rows[k] == claimed;
            assert(store.issue(store.rows[at].task.issue_id) is Some);
            transaction_is_exact(before, last.worker, last.now, Pending::Delete);
            assert(after.rows == before.rows.remove(i));
            lemma_one_row_less(before.rows, i);
            assert forall|j: int| 0 <= j < after.rows.len() implies store.rows.contains(
                #[trigger] after.rows[j],
            ) by {
                if j < i {
                    assert(after.rows[j] == before.rows[j]);
                } else {
                    assert(after.rows[j] == before.rows[j + 1]);
                }
            }
        }
    }
}

} // verus!
