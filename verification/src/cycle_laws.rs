//! What holds of every run of the claim cycle.

use crate::address::well_formed;
use crate::cycle::{
    delete_of, give_up, next, send_of, ActionModel, CycleError, EndingModel, EventModel, Fate,
    StateModel,
};
use crate::task::{IssueModel, TaskModel};
use vstd::prelude::*;

verus! {

/// One report to the state machine, with the clock reading and the retry
/// scheduler's draw that go with it.
pub struct Input {
    pub event: EventModel,
    pub now: i64,
    pub wait_seconds: u16,
}

/// The state of a cycle that started idle and has been given `inputs`.
pub open spec fn state_after(inputs: Seq<Input>) -> StateModel
    decreases inputs.len(),
{
    if inputs.len() == 0 {
        StateModel::Idle
    } else {
        let last = inputs.last();
        next(state_after(inputs.drop_last()), last.event, last.now, last.wait_seconds).0
    }
}

/// The action with which the state machine answered input `i`.
pub open spec fn action_at(inputs: Seq<Input>, i: int) -> ActionModel
    recommends
        0 <= i < inputs.len(),
{
    next(state_after(inputs.take(i)), inputs[i].event, inputs[i].now, inputs[i].wait_seconds).1
}

/// Input `i` handed over the issue of `task`, and the state machine answered
/// by sending that issue to the recipient of `task`.
pub open spec fn sent_at(inputs: Seq<Input>, task: TaskModel, i: int, issue: IssueModel) -> bool {
    &&& 0 <= i < inputs.len()
    &&& inputs[i].event == EventModel::IssueLoaded(issue)
    &&& issue.issue_id == task.issue_id
    &&& action_at(inputs, i) == send_of(task, issue)
}

/// Somewhere in `inputs` the issue of `task` was sent to its recipient.
pub open spec fn was_sent(inputs: Seq<Input>, task: TaskModel) -> bool {
    exists|i: int, issue: IssueModel| sent_at(inputs, task, i, issue)
}

/// The issue of `task` is with the delivery client, or has been delivered.
pub open spec fn handed_over(state: StateModel, task: TaskModel) -> bool {
    ||| state == StateModel::Sending { task }
    ||| state == StateModel::Writing { task, fate: Fate::Delivered }
    ||| state == StateModel::Committing { task, fate: Fate::Delivered }
    ||| state == StateModel::Finished {
        ending: EndingModel::Settled { task, fate: Fate::Delivered },
    }
}

proof fn lemma_sent_stays_sent(inputs: Seq<Input>, task: TaskModel)
    requires
        inputs.len() > 0,
        was_sent(inputs.drop_last(), task),
    ensures
        was_sent(inputs, task),
{
    let front = inputs.drop_last();
    let (i, issue) = choose|i: int, issue: IssueModel| sent_at(front, task, i, issue);
    assert(front.take(i) =~= inputs.take(i));
    assert(sent_at(inputs, task, i, issue));
}

proof fn lemma_handed_over_was_sent(inputs: Seq<Input>, task: TaskModel)
    requires
        handed_over(state_after(inputs), task),
    ensures
        was_sent(inputs, task),
    decreases inputs.len(),
{
    if inputs.len() > 0 {
        let front = inputs.drop_last();
        let last = inputs.last();
        let before = state_after(front);
        if handed_over(before, task) {
            lemma_handed_over_was_sent(front, task);
            lemma_sent_stays_sent(inputs, task);
        } else {
            assert(before == StateModel::LoadingIssue { task });
            let issue = last.event->IssueLoaded_0;
            assert(inputs.take(inputs.len() - 1) =~= front);
            assert(sent_at(inputs, task, inputs.len() - 1, issue));
        }
    }
}

/// At least once: a cycle ends with `task` delivered only if, earlier in that
/// cycle, the delivery client was handed the issue of `task`, as the issue
/// store gave it, for the address of `task`.
pub proof fn delivered_was_sent(inputs: Seq<Input>, task: TaskModel)
    requires
        state_after(inputs) == (StateModel::Finished {
            ending: EndingModel::Settled { task, fate: Fate::Delivered },
        }),
    ensures
        was_sent(inputs, task),
{
    lemma_handed_over_was_sent(inputs, task);
}

/// A task with a malformed address is rejected at once: the answer to its
/// claim is the request to delete it, and nothing is sent.
pub proof fn malformed_is_rejected(task: TaskModel, now: i64, wait_seconds: u16)
    requires
        !well_formed(task.recipient),
    ensures
        next(StateModel::Claiming, EventModel::Claimed(Some(task)), now, wait_seconds) == (
            StateModel::Writing { task, fate: Fate::Rejected },
            delete_of(task),
        ),
{
}

/// Nothing is ever sent to a malformed address, whatever the cycle is given.
pub proof fn never_sent_to_malformed(inputs: Seq<Input>, i: int)
    requires
        0 <= i < inputs.len(),
        action_at(inputs, i) is Send,
    ensures
        well_formed(action_at(inputs, i)->to),
{
    let reached = inputs.take(i);
    let state = state_after(reached);
    assert(state is LoadingIssue);
    assert(reached.len() > 0);
    assert(state_after(reached.drop_last()) is Claiming);
}

/// A task is deleted for one of two reasons only: it was delivered, or its
/// address is malformed.
pub proof fn deleted_means_delivered_or_rejected(inputs: Seq<Input>, i: int)
    requires
        0 <= i < inputs.len(),
        action_at(inputs, i) is Delete,
    ensures
        ({
            let state = state_after(inputs.take(i + 1));
            &&& state is Writing
            &&& delete_of(state->Writing_task) == action_at(inputs, i)
            &&& state->Writing_fate == Fate::Delivered || (state->Writing_fate == Fate::Rejected
                && !well_formed(state->Writing_task.recipient))
        }),
{
    assert(inputs.take(i + 1).drop_last() =~= inputs.take(i));
}

/// A failure of the queue or of the issue store ends the cycle with a
/// rollback, wherever the cycle stands; after it the state machine asks for
/// nothing more.
pub proof fn failure_rolls_back(state: StateModel, now: i64, wait_seconds: u16)
    requires
        state is Claiming || state is LoadingIssue || state is Writing || state is Committing,
    ensures
        next(state, EventModel::StorageFailed, now, wait_seconds) == give_up(CycleError::Storage),
        forall|event: EventModel|
            (#[trigger] next(give_up(CycleError::Storage).0, event, now, wait_seconds)) == (
                give_up(CycleError::Storage).0,
                ActionModel::Return,
            ),
{
}

/// A missing issue ends the cycle with a rollback: the task is neither
/// deleted nor rescheduled.
pub proof fn missing_issue_rolls_back(task: TaskModel, now: i64, wait_seconds: u16)
    ensures
        next(StateModel::LoadingIssue { task }, EventModel::IssueMissing, now, wait_seconds)
            == give_up(CycleError::MissingIssue),
{
}

/// Nothing is committed in a cycle unless the write before it succeeded: the
/// request to commit is only ever the answer to a write that the queue
/// carried out.
pub proof fn commit_follows_write(inputs: Seq<Input>, i: int)
    requires
        0 <= i < inputs.len(),
        action_at(inputs, i) == ActionModel::Commit,
    ensures
        state_after(inputs.take(i)) is Writing,
        inputs[i].event == EventModel::Stored,
{
}

/// With an empty queue the cycle ends at once, and nothing is written.
pub proof fn empty_queue_ends_cycle(now: i64, wait_seconds: u16)
    ensures
        next(StateModel::Claiming, EventModel::Claimed(None), now, wait_seconds) == (
            StateModel::Finished { ending: EndingModel::Empty },
            ActionModel::Rollback,
        ),
{
}

} // verus!
