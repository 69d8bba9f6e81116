use newsletter::carry::{carry_out, run_cycle, Script};
use newsletter::cycle::{
    next_move, step, Action, CycleError, CycleState, Ending, Event, ExecutionOutcome, Fate,
    NextMove,
};
use newsletter::store::MemoryStore;
use newsletter::task::{Issue, QueueTask, RescheduleError};
use rand::rngs::StdRng;
use rand::SeedableRng;

const SECOND: i64 = 1_000_000;

struct Sent {
    to: String,
    title: String,
    html: String,
    text: String,
}

/// A delivery client that answers from a list and remembers what it was given.
struct Client {
    answers: Vec<bool>,
    sent: Vec<Sent>,
}

impl Client {
    fn new(answers: Vec<bool>) -> Client {
        Client { answers, sent: Vec::new() }
    }

    fn send(&mut self, to: &str, title: &str, html: &str, text: &str) -> bool {
        self.sent.push(Sent {
            to: to.to_string(),
            title: title.to_string(),
            html: html.to_string(),
            text: text.to_string(),
        });
        if self.answers.is_empty() {
            true
        } else {
            self.answers.remove(0)
        }
    }
}

fn wall_clock() -> i64 {
    chrono::Utc::now().timestamp_micros()
}

fn issue(issue_id: u128) -> Issue {
    Issue {
        issue_id,
        title: "Newsletter title".to_string(),
        html_content: "<p>Newsletter body as HTML</p>".to_string(),
        text_content: "Newsletter body as plain text".to_string(),
    }
}

fn task(issue_id: u128, recipient: &str, not_before: i64) -> QueueTask {
    QueueTask { issue_id, recipient: recipient.to_string(), retry_count: 0, not_before }
}

fn name(text: &str) -> String {
    text.to_string()
}

/// One claim cycle, with the real retry scheduler and the real clock.
fn try_execute_task(
    store: &mut MemoryStore,
    worker: u64,
    now: i64,
    client: &mut Client,
    rng: &mut StdRng,
) -> Result<ExecutionOutcome, CycleError> {
    let (mut state, mut action) = step(CycleState::start(), Event::Begin, rng);
    loop {
        let event = match &action {
            Action::Send { to, title, html_content, text_content } => {
                if client.send(to.as_str(), title, html_content, text_content) {
                    Event::Delivered
                } else {
                    Event::DeliveryFailed
                }
            }
            other => match carry_out(store, worker, now, other) {
                Some(event) => event,
                None => return state.result().unwrap(),
            },
        };
        let stepped = step(state, event, rng);
        state = stepped.0;
        action = stepped.1;
    }
}

fn dispatch_all_pending_emails(store: &mut MemoryStore, now: i64, client: &mut Client, rng: &mut StdRng) {
    loop {
        if let ExecutionOutcome::EmptyQueue = try_execute_task(store, 1, now, client, rng).unwrap() {
            break;
        }
    }
}

#[test]
fn newsletters_are_delivered_to_confirmed_subscribers() {
    let mut store = MemoryStore::new();
    let mut rng = StdRng::seed_from_u64(1);
    let mut client = Client::new(vec![true]);
    let published = wall_clock();
    store.publish(issue(1));
    store.enqueue(task(1, "ursula_le_guin@gmail.com", published));

    dispatch_all_pending_emails(&mut store, published + 1, &mut client, &mut rng);

    assert_eq!(client.sent.len(), 1);
    assert_eq!(client.sent[0].to, "ursula_le_guin@gmail.com");
    assert_eq!(client.sent[0].title, "Newsletter title");
    assert_eq!(client.sent[0].html, "<p>Newsletter body as HTML</p>");
    assert_eq!(client.sent[0].text, "Newsletter body as plain text");
    assert_eq!(store.len(), 0);
}

#[test]
fn newsletters_are_not_delivered_to_unconfirmed_subscribers() {
    let mut store = MemoryStore::new();
    let mut rng = StdRng::seed_from_u64(1);
    let mut client = Client::new(vec![]);
    store.publish(issue(1));

    dispatch_all_pending_emails(&mut store, wall_clock(), &mut client, &mut rng);

    assert_eq!(client.sent.len(), 0);
    assert_eq!(store.get_issue(1), Some(issue(1)));
}

#[test]
fn failed_requests_get_retried() {
    let mut store = MemoryStore::new();
    let mut rng = StdRng::seed_from_u64(1);
    let mut client = Client::new(vec![false, false]);
    let published = wall_clock();
    store.publish(issue(1));
    store.enqueue(task(1, "ursula_le_guin@gmail.com", published));

    dispatch_all_pending_emails(&mut store, published + 1, &mut client, &mut rng);
    assert_eq!(client.sent.len(), 1);
    let later = wall_clock() + 3 * SECOND;
    dispatch_all_pending_emails(&mut store, later, &mut client, &mut rng);

    assert_eq!(client.sent.len(), 2);
    let waiting = store.find(1, &name("ursula_le_guin@gmail.com")).unwrap();
    assert_eq!(waiting.retry_count, 2);
    assert!(waiting.not_before > later - 3 * SECOND);
}

#[test]
fn empty_queue_ends_the_cycle_and_the_loop_sleeps() {
    let mut store = MemoryStore::new();
    let mut rng = StdRng::seed_from_u64(1);
    let mut client = Client::new(vec![]);
    store.publish(issue(1));
    store.enqueue(task(1, "reader@example.com", 500));

    let outcome = try_execute_task(&mut store, 1, 500, &mut client, &mut rng);

    assert_eq!(outcome, Ok(ExecutionOutcome::EmptyQueue));
    assert_eq!(next_move(outcome, false), NextMove::Sleep { seconds: 1 });
    assert_eq!(client.sent.len(), 0);
    assert_eq!(store.len(), 1);
    assert_eq!(store.find(1, &name("reader@example.com")), Some(task(1, "reader@example.com", 500)));
    assert_eq!(store.holder_of(1, &name("reader@example.com")), None);
    assert_eq!(store.get_issue(1), Some(issue(1)));
}

#[test]
fn happy_path_deletes_the_task_and_leaves_the_issue() {
    let mut store = MemoryStore::new();
    let mut rng = StdRng::seed_from_u64(1);
    let mut client = Client::new(vec![true]);
    store.publish(issue(1));
    store.enqueue(task(1, "reader@example.com", 0));

    let outcome = try_execute_task(&mut store, 1, 1, &mut client, &mut rng);

    assert_eq!(outcome, Ok(ExecutionOutcome::TaskCompleted));
    assert_eq!(next_move(outcome, false), NextMove::Claim);
    assert_eq!(client.sent.len(), 1);
    assert_eq!(store.len(), 0);
    assert_eq!(store.get_issue(1), Some(issue(1)));
}

#[test]
fn one_failure_then_success() {
    let mut store = MemoryStore::new();
    let mut rng = StdRng::seed_from_u64(1);
    let mut client = Client::new(vec![false, true]);
    store.publish(issue(1));
    store.enqueue(task(1, "reader@example.com", 0));

    let before = wall_clock();
    let outcome = try_execute_task(&mut store, 1, before, &mut client, &mut rng);
    let after = wall_clock();

    assert_eq!(outcome, Ok(ExecutionOutcome::TaskCompleted));
    let waiting = store.find(1, &name("reader@example.com")).unwrap();
    assert_eq!(waiting.retry_count, 1);
    assert!(waiting.not_before >= before + SECOND);
    assert!(waiting.not_before < after + 4 * SECOND);
    assert_eq!(store.holder_of(1, &name("reader@example.com")), None);

    let too_early = try_execute_task(&mut store, 1, waiting.not_before, &mut client, &mut rng);
    assert_eq!(too_early, Ok(ExecutionOutcome::EmptyQueue));
    assert_eq!(client.sent.len(), 1);

    let outcome = try_execute_task(&mut store, 1, after + 4 * SECOND, &mut client, &mut rng);
    assert_eq!(outcome, Ok(ExecutionOutcome::TaskCompleted));
    assert_eq!(client.sent.len(), 2);
    assert_eq!(store.len(), 0);
}

#[test]
fn malformed_address_is_deleted_and_never_sent_to() {
    let mut store = MemoryStore::new();
    let mut rng = StdRng::seed_from_u64(1);
    let mut client = Client::new(vec![]);
    store.publish(issue(1));
    store.enqueue(task(1, "not-an-email", 0));

    let outcome = try_execute_task(&mut store, 1, 1, &mut client, &mut rng);

    assert_eq!(outcome, Ok(ExecutionOutcome::TaskCompleted));
    assert_eq!(client.sent.len(), 0);
    assert_eq!(store.len(), 0);
    for cycle in 0..25 {
        let outcome = try_execute_task(&mut store, 1, 1_000 * cycle, &mut client, &mut rng);
        assert_eq!(outcome, Ok(ExecutionOutcome::EmptyQueue));
    }
    assert_eq!(client.sent.len(), 0);
}

#[test]
fn missing_issue_fails_the_cycle_and_keeps_the_task() {
    let mut store = MemoryStore::new();
    let mut rng = StdRng::seed_from_u64(1);
    let mut client = Client::new(vec![]);
    store.enqueue(QueueTask {
        issue_id: 9,
        recipient: name("reader@example.com"),
        retry_count: 3,
        not_before: 77,
    });

    let outcome = try_execute_task(&mut store, 1, 100, &mut client, &mut rng);

    assert_eq!(outcome, Err(CycleError::MissingIssue));
    assert_eq!(next_move(outcome, false), NextMove::Sleep { seconds: 1 });
    assert_eq!(client.sent.len(), 0);
    assert_eq!(
        store.find(9, &name("reader@example.com")),
        Some(QueueTask { issue_id: 9, recipient: name("reader@example.com"), retry_count: 3, not_before: 77 })
    );
    assert_eq!(store.holder_of(9, &name("reader@example.com")), None);
    assert!(store.claim(2, 100).is_some());
}

#[test]
fn a_failure_before_commit_leaves_the_row_as_it_was() {
    let mut store = MemoryStore::new();
    let mut rng = StdRng::seed_from_u64(1);
    store.publish(issue(1));
    let stored =
        QueueTask { issue_id: 1, recipient: name("reader@example.com"), retry_count: 2, not_before: 40 };
    store.enqueue(stored.clone());

    let (state, action) = step(CycleState::start(), Event::Begin, &mut rng);
    let event = carry_out(&mut store, 1, 50, &action).unwrap();
    let (state, action) = step(state, event, &mut rng);
    let event = carry_out(&mut store, 1, 50, &action).unwrap();
    let (state, action) = step(state, event, &mut rng);
    assert!(matches!(action, Action::Send { .. }));
    let (state, action) = step(state, Event::DeliveryFailed, &mut rng);
    assert!(matches!(action, Action::Update { .. }));
    assert_eq!(carry_out(&mut store, 1, 50, &action).map(|event| event), Some(Event::Stored));
    let (state, action) = step(state, Event::StorageFailed, &mut rng);
    assert_eq!(action, Action::Rollback);
    assert_eq!(carry_out(&mut store, 1, 50, &action), None);

    assert_eq!(state.result(), Some(Err(CycleError::Storage)));
    assert_eq!(store.find(1, &name("reader@example.com")), Some(stored));
    assert_eq!(store.holder_of(1, &name("reader@example.com")), None);
    assert_eq!(store.len(), 1);
}

#[test]
fn deleting_a_task_that_is_gone_is_reported_as_stored() {
    let mut store = MemoryStore::new();
    let gone = Action::Delete { issue_id: 1, recipient: name("reader@example.com") };
    assert_eq!(carry_out(&mut store, 1, 10, &gone), Some(Event::Stored));
    let gone = Action::Update {
        issue_id: 1,
        recipient: name("reader@example.com"),
        retry_count: 1,
        not_before: 5,
    };
    assert_eq!(carry_out(&mut store, 1, 10, &gone), Some(Event::Stored));
    assert_eq!(store.len(), 0);

    store.enqueue(task(1, "reader@example.com", 0));
    let not_ours = Action::Delete { issue_id: 1, recipient: name("reader@example.com") };
    assert_eq!(carry_out(&mut store, 1, 10, &not_ours), Some(Event::StorageFailed));
    assert_eq!(store.len(), 1);
}

#[test]
fn a_task_that_failed_more_often_than_the_column_counts_keeps_its_backoff() {
    let mut rng = StdRng::seed_from_u64(5);
    let read_back = QueueTask::from_row(1, name("reader@example.com"), i16::MAX, 0).unwrap();
    let (state, action) = step(CycleState::Claiming, Event::Claimed(Some(read_back)), &mut rng);
    assert_eq!(action, Action::LoadIssue { issue_id: 1 });
    let (state, _) = step(state, Event::IssueLoaded(issue(1)), &mut rng);
    let before = wall_clock();
    let (_, action) = step(state, Event::DeliveryFailed, &mut rng);
    match action {
        Action::Update { retry_count, not_before, .. } => {
            assert_eq!(retry_count, 32768);
            assert_eq!(QueueTask::stored_retry_count(retry_count), i16::MAX);
            assert!(not_before >= before + SECOND);
            assert!(not_before < wall_clock() + 900 * SECOND);
        }
        other => panic!("expected an update, got {:?}", other),
    }
}

#[test]
fn concurrent_workers_settle_every_task_once() {
    let mut store = MemoryStore::new();
    let mut rng = StdRng::seed_from_u64(8);
    store.publish(issue(1));
    let recipients = ["a@x.org", "broken", "b@x.org", "c@x.org", "@nobody", "d@x.org", "e@x.org"];
    for recipient in recipients {
        store.enqueue(task(1, recipient, 0));
    }

    let workers = 3usize;
    let mut states: Vec<Option<(CycleState, Action)>> = Vec::new();
    let mut held: Vec<Option<String>> = Vec::new();
    for _ in 0..workers {
        states.push(None);
        held.push(None);
    }
    let mut delivered: Vec<String> = Vec::new();
    let mut rejected: Vec<String> = Vec::new();
    let mut sent: Vec<String> = Vec::new();
    let mut empty_in_a_row = 0;
    let mut turn = 0usize;
    while empty_in_a_row < workers {
        let worker = turn % workers;
        turn += 1;
        let (state, action) = match states[worker].take() {
            Some(current) => current,
            None => step(CycleState::start(), Event::Begin, &mut rng),
        };
        let event = match &action {
            Action::Send { to, .. } => {
                sent.push(to.as_str().to_string());
                Some(Event::Delivered)
            }
            other => carry_out(&mut store, worker as u64, 10, other),
        };
        if let Some(Event::Claimed(Some(claimed))) = &event {
            for other in 0..workers {
                assert_ne!(held[other].as_ref(), Some(&claimed.recipient));
            }
            held[worker] = Some(claimed.recipient.clone());
        }
        match event {
            Some(event) => states[worker] = Some(step(state, event, &mut rng)),
            None => {
                held[worker] = None;
                match state {
                    CycleState::Finished { ending: Ending::Settled { task, fate: Fate::Delivered } } => {
                        delivered.push(task.recipient);
                        empty_in_a_row = 0;
                    }
                    CycleState::Finished { ending: Ending::Settled { task, fate: Fate::Rejected } } => {
                        rejected.push(task.recipient);
                        empty_in_a_row = 0;
                    }
                    CycleState::Finished { ending: Ending::Empty } => empty_in_a_row += 1,
                    other => panic!("unexpected end of a cycle: {:?}", other),
                }
            }
        }
    }

    assert_eq!(delivered.len() + rejected.len(), recipients.len());
    delivered.sort();
    rejected.sort();
    sent.sort();
    assert_eq!(delivered, vec!["a@x.org", "b@x.org", "c@x.org", "d@x.org", "e@x.org"]);
    assert_eq!(rejected, vec!["@nobody", "broken"]);
    assert_eq!(sent, delivered);
    assert_eq!(store.len(), 0);
}

#[test]
fn every_cycle_of_the_scripted_run_ends() {
    let mut store = MemoryStore::new();
    store.publish(issue(1));
    store.enqueue(task(1, "reader@example.com", 0));
    store.enqueue(task(1, "not-an-email", 0));
    store.enqueue(task(2, "orphan@example.com", 0));

    let failing = Script { delivered: false, failed_at: 100 * SECOND, wait_seconds: 1 };
    let ran = run_cycle(&mut store, 1, 10, failing);
    assert_eq!(ran.sends, 1);
    let reached = ran.reached;
    assert_eq!(
        reached,
        CycleState::Finished {
            ending: Ending::Settled {
                task: QueueTask {
                    issue_id: 1,
                    recipient: name("reader@example.com"),
                    retry_count: 1,
                    not_before: 101 * SECOND,
                },
                fate: Fate::Rescheduled,
            }
        }
    );

    let accepting = Script { delivered: true, failed_at: 0, wait_seconds: 1 };
    let ran = run_cycle(&mut store, 1, 10, accepting);
    assert_eq!(ran.sends, 0);
    assert_eq!(
        ran.reached,
        CycleState::Finished {
            ending: Ending::Settled { task: task(1, "not-an-email", 0), fate: Fate::Rejected }
        }
    );

    let ran = run_cycle(&mut store, 1, 10, accepting);
    assert_eq!(ran.sends, 0);
    assert_eq!(
        ran.reached,
        CycleState::Finished { ending: Ending::Failed { error: CycleError::MissingIssue } }
    );
    assert_eq!(store.holder_of(2, &name("orphan@example.com")), None);
    assert_eq!(store.len(), 2);

    let ran = run_cycle(&mut store, 1, 0, accepting);
    assert_eq!(ran.sends, 0);
    assert_eq!(ran.reached, CycleState::Finished { ending: Ending::Empty });

    let ran = run_cycle(&mut store, 1, 101 * SECOND + 1, accepting);
    assert_eq!(ran.sends, 1);
    let reached = ran.reached;
    assert_eq!(
        reached,
        CycleState::Finished {
            ending: Ending::Settled {
                task: QueueTask {
                    issue_id: 1,
                    recipient: name("reader@example.com"),
                    retry_count: 1,
                    not_before: 101 * SECOND,
                },
                fate: Fate::Delivered,
            }
        }
    );
    assert_eq!(store.len(), 1);
}

#[test]
fn the_queue_drains_when_nothing_stands_in_the_way() {
    let mut store = MemoryStore::new();
    store.publish(issue(1));
    store.publish(issue(2));
    let recipients = ["a@x.org", "broken", "b@x.org", "@nobody", "c@x.org"];
    for recipient in recipients {
        store.enqueue(task(1, recipient, 0));
    }
    store.enqueue(task(2, "a@x.org", 3));
    let accepting = Script { delivered: true, failed_at: 0, wait_seconds: 1 };

    let mut sends = 0u32;
    let mut delivered = 0;
    let mut rejected = 0;
    for turn in 0..6u64 {
        let ran = run_cycle(&mut store, turn % 4, 10 + turn as i64, accepting);
        sends += ran.sends as u32;
        match ran.reached {
            CycleState::Finished { ending: Ending::Settled { fate: Fate::Delivered, .. } } => {
                delivered += 1
            }
            CycleState::Finished { ending: Ending::Settled { fate: Fate::Rejected, .. } } => {
                rejected += 1
            }
            other => panic!("unexpected end of a cycle: {:?}", other),
        }
        assert_eq!(store.len(), 5 - turn as usize);
    }

    assert_eq!(store.len(), 0);
    assert_eq!(delivered, 4);
    assert_eq!(rejected, 2);
    assert_eq!(sends, 4);
    let ran = run_cycle(&mut store, 9, 100, accepting);
    assert_eq!(ran.sends, 0);
    assert_eq!(ran.reached, CycleState::Finished { ending: Ending::Empty });
}

#[test]
fn a_scripted_wait_out_of_range_rolls_the_cycle_back() {
    let mut store = MemoryStore::new();
    store.publish(issue(1));
    store.enqueue(task(1, "reader@example.com", 0));

    let script = Script { delivered: false, failed_at: 0, wait_seconds: 2 };
    let ran = run_cycle(&mut store, 1, 10, script);
    assert_eq!(ran.sends, 1);
    let reached = ran.reached;

    assert_eq!(
        reached,
        CycleState::Finished {
            ending: Ending::Failed { error: CycleError::Reschedule(RescheduleError::WaitOutOfRange) }
        }
    );
    assert_eq!(store.find(1, &name("reader@example.com")), Some(task(1, "reader@example.com", 0)));
    assert_eq!(store.holder_of(1, &name("reader@example.com")), None);
}

#[test]
fn an_unreachable_recipient_is_retried_without_end_at_the_cap() {
    let mut store = MemoryStore::new();
    let mut rng = StdRng::seed_from_u64(4);
    let mut client = Client::new(vec![false; 40]);
    store.publish(issue(1));
    store.enqueue(task(1, "reader@example.com", 0));

    let mut now = 1;
    for attempt in 0..40u16 {
        let outcome = try_execute_task(&mut store, 1, now, &mut client, &mut rng);
        assert_eq!(outcome, Ok(ExecutionOutcome::TaskCompleted));
        let waiting = store.find(1, &name("reader@example.com")).unwrap();
        assert_eq!(waiting.retry_count, attempt + 1);
        assert!(waiting.not_before < wall_clock() + 900 * SECOND);
        now = waiting.not_before + 1;
    }
    assert_eq!(client.sent.len(), 40);
}
