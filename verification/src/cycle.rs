//! One claim cycle of a worker, as a state machine.
//!
//! The worker's surroundings do the waiting: they ask the queue for a task,
//! load the issue, call the delivery client and write to the queue. After each
//! of these they report what happened as an [`Event`]; [`step`] answers with
//! the next [`Action`] to carry out.

use crate::address::{validate, well_formed, ValidAddress};
use crate::backoff::{compute_backoff, lemma_max_wait_bounds, wait_in_range, MIN_WAIT};
use crate::clock;
use crate::clock::LATEST_READING;
use crate::task::{
    rescheduled, Issue, IssueModel, QueueTask, RescheduleError, TaskModel, ValidTask,
};
use rand::rngs::StdRng;
use vstd::prelude::*;

verus! {

/// How a claim cycle ended, as the worker loop sees it.
#[derive(Clone, Copy, Debug, PartialEq, Eq, Structural)]
pub enum ExecutionOutcome {
    /// A task was claimed and settled: delivered, rejected or rescheduled.
    TaskCompleted,
    /// No task was eligible.
    EmptyQueue,
}

/// What became of the claimed task.
#[derive(Clone, Copy, Debug, PartialEq, Eq, Structural)]
pub enum Fate {
    /// The delivery client accepted the issue; the task was deleted.
    Delivered,
    /// The stored address is malformed; the task was deleted without an attempt.
    Rejected,
    /// The delivery failed; the task waits for its next attempt.
    Rescheduled,
}

/// Why a claim cycle was given up. The claimed task, if any, is left as it was.
#[derive(Clone, Copy, Debug, PartialEq, Eq, Structural)]
pub enum CycleError {
    /// The queue or the issue store could not be reached or refused a request.
    Storage,
    /// The issue that the task points to is not in the issue store.
    MissingIssue,
    /// The failed task could not be given a new date.
    Reschedule(RescheduleError),
    /// An event arrived that the current state does not wait for.
    UnexpectedEvent,
}

/// How a claim cycle ended, in full.
#[derive(Debug, PartialEq, Eq)]
pub enum Ending {
    /// No task was eligible.
    Empty,
    /// The change to `task` was committed.
    Settled { task: QueueTask, fate: Fate },
    /// The cycle was rolled back.
    Failed { error: CycleError },
}

/// What an [`Ending`] stands for.
pub enum EndingModel {
    Empty,
    Settled { task: TaskModel, fate: Fate },
    Failed { error: CycleError },
}

impl View for Ending {
    type V = EndingModel;

    open spec fn view(&self) -> EndingModel {
        match self {
            Ending::Empty => EndingModel::Empty,
            Ending::Settled { task, fate } => EndingModel::Settled { task: task@, fate: *fate },
            Ending::Failed { error } => EndingModel::Failed { error: *error },
        }
    }
}

impl EndingModel {
    /// The ending as the worker loop sees it.
    pub open spec fn outcome(self) -> Result<ExecutionOutcome, CycleError> {
        match self {
            EndingModel::Empty => Ok(ExecutionOutcome::EmptyQueue),
            EndingModel::Settled { .. } => Ok(ExecutionOutcome::TaskCompleted),
            EndingModel::Failed { error } => Err(error),
        }
    }
}

impl Ending {
    /// The ending as the worker loop sees it.
    pub fn outcome(&self) -> (result: Result<ExecutionOutcome, CycleError>)
        ensures
            result == self@.outcome(),
    {
        match self {
            Ending::Empty => Ok(ExecutionOutcome::EmptyQueue),
            Ending::Settled { .. } => Ok(ExecutionOutcome::TaskCompleted),
            Ending::Failed { error } => Err(*error),
        }
    }
}

/// Where a claim cycle stands.
#[derive(Debug, PartialEq, Eq)]
#[allow(inconsistent_fields)]
pub enum CycleState {
    /// Nothing has been asked for yet.
    Idle,
    /// The queue has been asked for one eligible task.
    Claiming,
    /// The address is valid; the issue store has been asked for the issue.
    LoadingIssue { task: ValidTask },
    /// The delivery client has been handed the issue.
    Sending { task: ValidTask },
    /// The queue has been asked to delete the task, or to update it to `task`.
    Writing { task: QueueTask, fate: Fate },
    /// The queue has been asked to commit.
    Committing { task: QueueTask, fate: Fate },
    /// The cycle is over.
    Finished { ending: Ending },
}

/// What a [`CycleState`] stands for.
pub enum StateModel {
    Idle,
    Claiming,
    LoadingIssue { task: TaskModel },
    Sending { task: TaskModel },
    Writing { task: TaskModel, fate: Fate },
    Committing { task: TaskModel, fate: Fate },
    Finished { ending: EndingModel },
}

impl View for CycleState {
    type V = StateModel;

    open spec fn view(&self) -> StateModel {
        match self {
            CycleState::Idle => StateModel::Idle,
            CycleState::Claiming => StateModel::Claiming,
            CycleState::LoadingIssue { task } => StateModel::LoadingIssue { task: task@ },
            CycleState::Sending { task } => StateModel::Sending { task: task@ },
            CycleState::Writing { task, fate } => StateModel::Writing { task: task@, fate: *fate },
            CycleState::Committing { task, fate } => StateModel::Committing {
                task: task@,
                fate: *fate,
            },
            CycleState::Finished { ending } => StateModel::Finished { ending: ending@ },
        }
    }
}

/// What the surroundings report to the state machine.
#[derive(Debug, PartialEq, Eq)]
pub enum Event {
    /// A new cycle may start.
    Begin,
    /// The queue answered the claim: one locked task, or none eligible.
    Claimed(Option<QueueTask>),
    /// The issue store handed over the issue.
    IssueLoaded(Issue),
    /// The issue store holds no such issue.
    IssueMissing,
    /// The delivery client reported success.
    Delivered,
    /// The delivery client reported anything but success.
    DeliveryFailed,
    /// The queue carried out the last request.
    Stored,
    /// The queue or the issue store failed.
    StorageFailed,
}

/// What an [`Event`] stands for.
pub enum EventModel {
    Begin,
    Claimed(Option<TaskModel>),
    IssueLoaded(IssueModel),
    IssueMissing,
    Delivered,
    DeliveryFailed,
    Stored,
    StorageFailed,
}

impl View for Event {
    type V = EventModel;

    open spec fn view(&self) -> EventModel {
        match self {
            Event::Begin => EventModel::Begin,
            Event::Claimed(None) => EventModel::Claimed(None),
            Event::Claimed(Some(task)) => EventModel::Claimed(Some(task@)),
            Event::IssueLoaded(issue) => EventModel::IssueLoaded(issue@),
            Event::IssueMissing => EventModel::IssueMissing,
            Event::Delivered => EventModel::Delivered,
            Event::DeliveryFailed => EventModel::DeliveryFailed,
            Event::Stored => EventModel::Stored,
            Event::StorageFailed => EventModel::StorageFailed,
        }
    }
}

/// What the state machine asks its surroundings to do next.
#[derive(Debug, PartialEq, Eq)]
pub enum Action {
    /// Open a transaction and lock one eligible task, skipping locked ones.
    Claim,
    /// Read the issue from the issue store.
    LoadIssue { issue_id: u128 },
    /// Hand the issue to the delivery client.
    Send { to: ValidAddress, title: String, html_content: String, text_content: String },
    /// Delete the claimed task, inside the open transaction.
    Delete { issue_id: u128, recipient: String },
    /// Write the new retry count and date, inside the open transaction.
    Update { issue_id: u128, recipient: String, retry_count: u16, not_before: i64 },
    /// Commit the open transaction.
    Commit,
    /// Give up the open transaction, if there is one.
    Rollback,
    /// Nothing is left to do: the cycle is over.
    Return,
}

/// What an [`Action`] stands for.
pub enum ActionModel {
    Claim,
    LoadIssue { issue_id: u128 },
    Send { to: Seq<char>, title: Seq<char>, html_content: Seq<char>, text_content: Seq<char> },
    Delete { issue_id: u128, recipient: Seq<char> },
    Update { issue_id: u128, recipient: Seq<char>, retry_count: u16, not_before: i64 },
    Commit,
    Rollback,
    Return,
}

impl View for Action {
    type V = ActionModel;

    open spec fn view(&self) -> ActionModel {
        match self {
            Action::Claim => ActionModel::Claim,
            Action::LoadIssue { issue_id } => ActionModel::LoadIssue { issue_id: *issue_id },
            Action::Send { to, title, html_content, text_content } => ActionModel::Send {
                to: to@,
                title: title@,
                html_content: html_content@,
                text_content: text_content@,
            },
            Action::Delete { issue_id, recipient } => ActionModel::Delete {
                issue_id: *issue_id,
                recipient: recipient@,
            },
            Action::Update { issue_id, recipient, retry_count, not_before } => ActionModel::Update {
                issue_id: *issue_id,
                recipient: recipient@,
                retry_count: *retry_count,
                not_before: *not_before,
            },
            Action::Commit => ActionModel::Commit,
            Action::Rollback => ActionModel::Rollback,
            Action::Return => ActionModel::Return,
        }
    }
}

/// The cycle is given up: roll back and end with `error`.
pub open spec fn give_up(error: CycleError) -> (StateModel, ActionModel) {
    (StateModel::Finished { ending: EndingModel::Failed { error } }, ActionModel::Rollback)
}

/// The request to delete `task`.
pub open spec fn delete_of(task: TaskModel) -> ActionModel {
    ActionModel::Delete { issue_id: task.issue_id, recipient: task.recipient }
}

/// The request to write the retry count and date of `task`.
pub open spec fn update_to(task: TaskModel) -> ActionModel {
    ActionModel::Update {
        issue_id: task.issue_id,
        recipient: task.recipient,
        retry_count: task.retry_count,
        not_before: task.not_before,
    }
}

/// The request to send `issue` to the recipient of `task`.
pub open spec fn send_of(task: TaskModel, issue: IssueModel) -> ActionModel {
    ActionModel::Send {
        to: task.recipient,
        title: issue.title,
        html_content: issue.html_content,
        text_content: issue.text_content,
    }
}

/// The transition function. `now` and `wait_seconds` are read only when a
/// delivery has failed: `now` is the instant of the failure and `wait_seconds`
/// the wait that the retry scheduler drew.
pub open spec fn next(state: StateModel, event: EventModel, now: i64, wait_seconds: u16) -> (
    StateModel,
    ActionModel,
) {
    match state {
        StateModel::Idle => match event {
            EventModel::Begin => (StateModel::Claiming, ActionModel::Claim),
            _ => give_up(CycleError::UnexpectedEvent),
        },
        StateModel::Claiming => match event {
            EventModel::Claimed(None) => (
                StateModel::Finished { ending: EndingModel::Empty },
                ActionModel::Rollback,
            ),
            EventModel::Claimed(Some(task)) => if well_formed(task.recipient) {
                (StateModel::LoadingIssue { task }, ActionModel::LoadIssue { issue_id: task.issue_id })
            } else {
                (StateModel::Writing { task, fate: Fate::Rejected }, delete_of(task))
            },
            EventModel::StorageFailed => give_up(CycleError::Storage),
            _ => give_up(CycleError::UnexpectedEvent),
        },
        StateModel::LoadingIssue { task } => match event {
            EventModel::IssueLoaded(issue) => if issue.issue_id == task.issue_id {
                (StateModel::Sending { task }, send_of(task, issue))
            } else {
                give_up(CycleError::MissingIssue)
            },
            EventModel::IssueMissing => give_up(CycleError::MissingIssue),
            EventModel::StorageFailed => give_up(CycleError::Storage),
            _ => give_up(CycleError::UnexpectedEvent),
        },
        StateModel::Sending { task } => match event {
            EventModel::Delivered => (
                StateModel::Writing { task, fate: Fate::Delivered },
                delete_of(task),
            ),
            EventModel::DeliveryFailed => match rescheduled(task, now, wait_seconds) {
                Ok(later) => (
                    StateModel::Writing { task: later, fate: Fate::Rescheduled },
                    update_to(later),
                ),
                Err(error) => give_up(CycleError::Reschedule(error)),
            },
            _ => give_up(CycleError::UnexpectedEvent),
        },
        StateModel::Writing { task, fate } => match event {
            EventModel::Stored => (StateModel::Committing { task, fate }, ActionModel::Commit),
            EventModel::StorageFailed => give_up(CycleError::Storage),
            _ => give_up(CycleError::UnexpectedEvent),
        },
        StateModel::Committing { task, fate } => match event {
            EventModel::Stored => (
                StateModel::Finished { ending: EndingModel::Settled { task, fate } },
                ActionModel::Return,
            ),
            EventModel::StorageFailed => give_up(CycleError::Storage),
            _ => give_up(CycleError::UnexpectedEvent),
        },
        StateModel::Finished { ending } => (state, ActionModel::Return),
    }
}

fn abandon(error: CycleError) -> (out: (CycleState, Action))
    ensures
        (out.0@, out.1@) == give_up(error),
{
    (CycleState::Finished { ending: Ending::Failed { error } }, Action::Rollback)
}

fn delete_request(task: &QueueTask) -> (action: Action)
    ensures
        action@ == delete_of(task@),
{
    Action::Delete { issue_id: task.issue_id, recipient: task.recipient.clone() }
}

/// Takes one step of the cycle with the clock reading and the scheduler's
/// draw given by the caller.
pub fn step_with(state: CycleState, event: Event, now: i64, wait_seconds: u16) -> (out: (
    CycleState,
    Action,
))
    ensures
        (out.0@, out.1@) == next(state@, event@, now, wait_seconds),
{
    match state {
        CycleState::Idle => match event {
            Event::Begin => (CycleState::Claiming, Action::Claim),
            _ => abandon(CycleError::UnexpectedEvent),
        },
        CycleState::Claiming => match event {
            Event::Claimed(None) => (
                CycleState::Finished { ending: Ending::Empty },
                Action::Rollback,
            ),
            Event::Claimed(Some(task)) => match validate(task.recipient.clone()) {
                Ok(to) => {
                    let issue_id: u128 = task.issue_id;
                    let task = ValidTask {
                        issue_id,
                        to,
                        retry_count: task.retry_count,
                        not_before: task.not_before,
                    };
                    (CycleState::LoadingIssue { task }, Action::LoadIssue { issue_id })
                },
                Err(_) => {
                    let action = delete_request(&task);
                    (CycleState::Writing { task, fate: Fate::Rejected }, action)
                },
            },
            Event::StorageFailed => abandon(CycleError::Storage),
            _ => abandon(CycleError::UnexpectedEvent),
        },
        CycleState::LoadingIssue { task } => match event {
            Event::IssueLoaded(issue) => if issue.issue_id == task.issue_id {
                let action = Action::Send {
                    to: task.to.clone(),
                    title: issue.title,
                    html_content: issue.html_content,
                    text_content: issue.text_content,
                };
                (CycleState::Sending { task }, action)
            } else {
                abandon(CycleError::MissingIssue)
            },
            Event::IssueMissing => abandon(CycleError::MissingIssue),
            Event::StorageFailed => abandon(CycleError::Storage),
            _ => abandon(CycleError::UnexpectedEvent),
        },
        CycleState::Sending { task } => match event {
            Event::Delivered => {
                let task = task.into_task();
                let action = delete_request(&task);
                (CycleState::Writing { task, fate: Fate::Delivered }, action)
            },
            Event::DeliveryFailed => {
                let task = task.into_task();
                match task.reschedule(now, wait_seconds) {
                    Ok(later) => {
                        let action = Action::Update {
                            issue_id: later.issue_id,
                            recipient: later.recipient.clone(),
                            retry_count: later.retry_count,
                            not_before: later.not_before,
                        };
                        (CycleState::Writing { task: later, fate: Fate::Rescheduled }, action)
                    },
                    Err(error) => abandon(CycleError::Reschedule(error)),
                }
            },
            _ => abandon(CycleError::UnexpectedEvent),
        },
        CycleState::Writing { task, fate } => match event {
            Event::Stored => (CycleState::Committing { task, fate }, Action::Commit),
            Event::StorageFailed => abandon(CycleError::Storage),
            _ => abandon(CycleError::UnexpectedEvent),
        },
        CycleState::Committing { task, fate } => match event {
            Event::Stored => (
                CycleState::Finished { ending: Ending::Settled { task, fate } },
                Action::Return,
            ),
            Event::StorageFailed => abandon(CycleError::Storage),
            _ => abandon(CycleError::UnexpectedEvent),
        },
        CycleState::Finished { ending } => (CycleState::Finished { ending }, Action::Return),
    }
}

/// Whether `wait_seconds` is a wait that the retry scheduler may have drawn in
/// `state`: wherever a task is being sent, it lies in that task's range.
pub open spec fn draw_fits(state: StateModel, wait_seconds: u16) -> bool {
    match state {
        StateModel::Sending { task } => task.retry_count < u16::MAX ==> wait_in_range(
            task.retry_count as nat,
            wait_seconds as nat,
        ),
        _ => true,
    }
}

/// Whether a failed delivery is reported for a task whose retry count can
/// still grow.
pub open spec fn failed_with_retries_left(state: StateModel, event: EventModel) -> bool {
    match state {
        StateModel::Sending { task } => event is DeliveryFailed && task.retry_count < u16::MAX,
        _ => false,
    }
}

/// Takes one step of the cycle. Where a delivery has failed, the wait comes
/// from the retry scheduler and the instant of the failure from the wall
/// clock; whatever they give, the step is the one that [`next`] describes for
/// those two values. A failed delivery is always answered with the request
/// to reschedule the task, as long as its retry count can grow.
pub fn step(state: CycleState, event: Event, rng: &mut StdRng) -> (out: (CycleState, Action))
    ensures
        exists|now: i64, wait_seconds: u16|
            draw_fits(state@, wait_seconds) && 0 <= now <= LATEST_READING && (out.0@, out.1@)
                == next(state@, event@, now, wait_seconds),
        failed_with_retries_left(state@, event@) ==> out.0@ is Writing && out.0@->Writing_fate
            == Fate::Rescheduled && out.1@ is Update,
{
    let mut now: i64 = 0;
    let mut wait_seconds: u16 = MIN_WAIT;
    if let CycleState::Sending { task } = &state {
        proof {
            lemma_max_wait_bounds(task.retry_count as nat);
        }
        if let Event::DeliveryFailed = &event {
            if task.retry_count < u16::MAX {
                let drawn = compute_backoff(task.retry_count, rng);
                wait_seconds = drawn.0;
                now = clock::now();
            }
        }
    }
    let out = step_with(state, event, now, wait_seconds);
    assert(draw_fits(state@, wait_seconds) && 0 <= now <= LATEST_READING && (out.0@, out.1@)
        == next(state@, event@, now, wait_seconds));
    out
}

impl CycleState {
    /// The state in which every cycle starts.
    pub fn start() -> (state: CycleState)
        ensures
            state@ == StateModel::Idle,
    {
        CycleState::Idle
    }

    /// How the cycle ended, once it has.
    pub fn result(&self) -> (result: Option<Result<ExecutionOutcome, CycleError>>)
        ensures
            match self@ {
                StateModel::Finished { ending } => result == Some(ending.outcome()),
                _ => result is None,
            },
    {
        match self {
            CycleState::Finished { ending } => Some(ending.outcome()),
            _ => None,
        }
    }
}

/// How long the worker loop sleeps when there was nothing to do or a cycle
/// failed, in seconds.
pub const IDLE_SECONDS: u64 = 1;

/// What the worker loop does between two cycles.
#[derive(Clone, Copy, Debug, PartialEq, Eq, Structural)]
pub enum NextMove {
    /// Leave the loop.
    Stop,
    /// Start the next cycle at once.
    Claim,
    /// Sleep, then start the next cycle.
    Sleep { seconds: u64 },
}

/// What the worker loop does after a cycle that ended with `result`.
pub open spec fn move_after(result: Result<ExecutionOutcome, CycleError>, stop_requested: bool)
    -> NextMove {
    if stop_requested {
        NextMove::Stop
    } else if result == Ok::<ExecutionOutcome, CycleError>(ExecutionOutcome::TaskCompleted) {
        NextMove::Claim
    } else {
        NextMove::Sleep { seconds: IDLE_SECONDS }
    }
}

/// Decides what the worker loop does after a cycle. A request to stop is
/// honoured here, between two cycles, and nowhere else. After a settled task
/// the next cycle starts at once; after an empty queue and after a failed
/// cycle alike the loop sleeps for the idle interval.
pub fn next_move(result: Result<ExecutionOutcome, CycleError>, stop_requested: bool) -> (decision:
    NextMove)
    ensures
        decision == move_after(result, stop_requested),
{
    if stop_requested {
        NextMove::Stop
    } else {
        match result {
            Ok(ExecutionOutcome::TaskCompleted) => NextMove::Claim,
            _ => NextMove::Sleep { seconds: IDLE_SECONDS },
        }
    }
}

} // verus!
