//! Carrying out, on the in-memory store, what the claim cycle asks for.

use crate::cycle::{
    next, step_with, Action, ActionModel, CycleState, Event, EventModel, StateModel,
};
use crate::store::{MemoryStore, Pending, StoreModel};
use vstd::prelude::*;

verus! {

/// What the in-memory store turns into, and what it reports, when `worker`
/// carries out `action` at `now`. Sending is not the store's business, and
/// after a rollback or at the end of a cycle there is nothing to report.
pub open spec fn carried_out(store: StoreModel, worker: u64, now: i64, action: ActionModel) -> (
    StoreModel,
    Option<EventModel>,
) {
    match action {
        ActionModel::Claim => (
            store.claim(worker, now).0,
            Some(EventModel::Claimed(store.claim(worker, now).1)),
        ),
        ActionModel::LoadIssue { issue_id } => (
            store,
            Some(
                match store.issue(issue_id) {
                    Some(issue) => EventModel::IssueLoaded(issue),
                    None => EventModel::IssueMissing,
                },
            ),
        ),
        ActionModel::Delete { issue_id, recipient } => {
            let marked = store.mark(worker, (issue_id, recipient), Pending::Delete);
            (marked.0, Some(stored_or_failed(marked.1 is Ok)))
        },
        ActionModel::Update { issue_id, recipient, retry_count, not_before } => {
            let marked = store.mark(
                worker,
                (issue_id, recipient),
                Pending::Update { retry_count, not_before },
            );
            (marked.0, Some(stored_or_failed(marked.1 is Ok)))
        },
        ActionModel::Commit => (store.commit(worker), Some(EventModel::Stored)),
        ActionModel::Rollback => (store.rollback(worker), None),
        ActionModel::Send { .. } => (store, None),
        ActionModel::Return => (store, None),
    }
}

/// The report on a write.
pub open spec fn stored_or_failed(stored: bool) -> EventModel {
    if stored {
        EventModel::Stored
    } else {
        EventModel::StorageFailed
    }
}

/// Carries out `action` for `worker` on the in-memory store and reports what
/// happened, as the next event for the worker's cycle.
pub fn carry_out(store: &mut MemoryStore, worker: u64, now: i64, action: &Action) -> (event: Option<
    Event,
>)
    requires
        old(store).wf(),
    ensures
        final(store).wf(),
        final(store)@ == carried_out(old(store)@, worker, now, action@).0,
        match event {
            Some(event) => carried_out(old(store)@, worker, now, action@).1 == Some(event@),
            None => carried_out(old(store)@, worker, now, action@).1 is None,
        },
{
    match action {
        Action::Claim => {
            let claimed = store.claim(worker, now);
            Some(Event::Claimed(claimed))
        },
        Action::LoadIssue { issue_id } => match store.get_issue(*issue_id) {
            Some(issue) => Some(Event::IssueLoaded(issue)),
            None => Some(Event::IssueMissing),
        },
        Action::Delete { issue_id, recipient } => match store.delete_task(
            worker,
            *issue_id,
            recipient,
        ) {
            Ok(_) => Some(Event::Stored),
            Err(_) => Some(Event::StorageFailed),
        },
        Action::Update { issue_id, recipient, retry_count, not_before } => match store.update_task(
            worker,
            *issue_id,
            recipient,
            *retry_count,
            *not_before,
        ) {
            Ok(_) => Some(Event::Stored),
            Err(_) => Some(Event::StorageFailed),
        },
        Action::Commit => {
            store.commit(worker);
            Some(Event::Stored)
        },
        Action::Rollback => {
            store.rollback(worker);
            None
        },
        Action::Send { .. } => None,
        Action::Return => None,
    }
}

/// What the world outside the queue will answer during one cycle: whether
/// the delivery client accepts the issue and, if it does not, the instant of
/// the failure and the wait that the retry scheduler draws.
#[derive(Clone, Copy, Debug, PartialEq, Eq, Structural)]
pub struct Script {
    pub delivered: bool,
    pub failed_at: i64,
    pub wait_seconds: u16,
}

/// The longest run of actions that a cycle can ask for: claim, load, send,
/// write, commit, return.
pub const LONGEST_CYCLE: u8 = 6;

/// What `action` leads to for `worker`: the delivery client answers as the
/// script says, everything else is carried out on the store.
pub open spec fn answered(
    store: StoreModel,
    worker: u64,
    now: i64,
    script: Script,
    action: ActionModel,
) -> (StoreModel, Option<EventModel>) {
    if action is Send {
        (
            store,
            Some(
                if script.delivered {
                    EventModel::Delivered
                } else {
                    EventModel::DeliveryFailed
                },
            ),
        )
    } else {
        carried_out(store, worker, now, action)
    }
}

/// The store and the state of the cycle once `action` and at most
/// `steps - 1` further actions have been carried out.
pub open spec fn driven(
    store: StoreModel,
    state: StateModel,
    action: ActionModel,
    worker: u64,
    now: i64,
    script: Script,
    steps: nat,
) -> (StoreModel, StateModel)
    decreases steps,
{
    if steps == 0 {
        (store, state)
    } else {
        let (after, report) = answered(store, worker, now, script, action);
        match report {
            None => (after, state),
            Some(event) => {
                let (then, asked) = next(state, event, script.failed_at, script.wait_seconds);
                driven(after, then, asked, worker, now, script, (steps - 1) as nat)
            },
        }
    }
}

/// The store and the state after one whole claim cycle of `worker` at `now`.
pub open spec fn cycle_of(store: StoreModel, worker: u64, now: i64, script: Script) -> (
    StoreModel,
    StateModel,
) {
    driven(
        store,
        StateModel::Claiming,
        ActionModel::Claim,
        worker,
        now,
        script,
        LONGEST_CYCLE as nat,
    )
}

/// How often the delivery client is asked while `action` and at most
/// `steps - 1` further actions are carried out, along the run of [`driven`].
pub open spec fn sends_driven(
    store: StoreModel,
    state: StateModel,
    action: ActionModel,
    worker: u64,
    now: i64,
    script: Script,
    steps: nat,
) -> nat
    decreases steps,
{
    if steps == 0 {
        0
    } else {
        let (after, report) = answered(store, worker, now, script, action);
        let here: nat = if action is Send {
            1
        } else {
            0
        };
        match report {
            None => here,
            Some(event) => {
                let (then, asked) = next(state, event, script.failed_at, script.wait_seconds);
                here + sends_driven(after, then, asked, worker, now, script, (steps - 1) as nat)
            },
        }
    }
}

/// How often the delivery client is asked in one whole claim cycle.
pub open spec fn sends_of(store: StoreModel, worker: u64, now: i64, script: Script) -> nat {
    sends_driven(
        store,
        StateModel::Claiming,
        ActionModel::Claim,
        worker,
        now,
        script,
        LONGEST_CYCLE as nat,
    )
}

/// What a cycle on the in-memory store came to.
#[derive(Debug, PartialEq, Eq)]
pub struct Ran {
    /// The state in which the cycle stopped.
    pub reached: CycleState,
    /// How often the delivery client was asked.
    pub sends: u8,
}

/// Runs one whole claim cycle of `worker` on the in-memory store, with a
/// delivery client that answers as the script says, and hands back the state
/// in which the cycle stopped and how often the delivery client was asked.
pub fn run_cycle(store: &mut MemoryStore, worker: u64, now: i64, script: Script) -> (ran: Ran)
    requires
        old(store).wf(),
    ensures
        final(store).wf(),
        (final(store)@, ran.reached@) == cycle_of(old(store)@, worker, now, script),
        ran.sends == sends_of(old(store)@, worker, now, script),
{
    let started = step_with(CycleState::start(), Event::Begin, script.failed_at, script.wait_seconds);
    let mut state = started.0;
    let mut action = started.1;
    let mut steps: u8 = LONGEST_CYCLE;
    let mut sends: u8 = 0;
    while steps > 0
        invariant
            store.wf(),
            steps <= LONGEST_CYCLE,
            sends + steps <= LONGEST_CYCLE,
            driven(store@, state@, action@, worker, now, script, steps as nat) == cycle_of(
                old(store)@,
                worker,
                now,
                script,
            ),
            sends + sends_driven(store@, state@, action@, worker, now, script, steps as nat)
                == sends_of(old(store)@, worker, now, script),
        decreases steps,
    {
        let report = if let Action::Send { .. } = &action {
            sends = sends + 1;
            if script.delivered {
                Some(Event::Delivered)
            } else {
                Some(Event::DeliveryFailed)
            }
        } else {
            carry_out(store, worker, now, &action)
        };
        match report {
            None => {
                return Ran { reached: state, sends };
            },
            Some(event) => {
                let stepped = step_with(state, event, script.failed_at, script.wait_seconds);
                state = stepped.0;
                action = stepped.1;
            },
        }
        steps = steps - 1;
    }
    Ran { reached: state, sends }
}

} // verus!
