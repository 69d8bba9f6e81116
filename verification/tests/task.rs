use newsletter::task::{Issue, QueueTask, RescheduleError, RowError};

fn task(retry_count: u16, not_before: i64) -> QueueTask {
    QueueTask { issue_id: 7, recipient: "reader@example.com".to_string(), retry_count, not_before }
}

#[test]
fn row_with_non_negative_retry_count_is_a_task() {
    let row = QueueTask::from_row(9, "a@b.c".to_string(), 3, 1_000);
    assert_eq!(
        row,
        Ok(QueueTask { issue_id: 9, recipient: "a@b.c".to_string(), retry_count: 3, not_before: 1_000 })
    );
    let row = QueueTask::from_row(9, "a@b.c".to_string(), 0, -5);
    assert_eq!(row.unwrap().retry_count, 0);
    let row = QueueTask::from_row(9, "a@b.c".to_string(), i16::MAX, 0);
    assert_eq!(row.unwrap().retry_count, 32767);
}

#[test]
fn row_with_negative_retry_count_is_turned_down() {
    assert_eq!(QueueTask::from_row(9, "a@b.c".to_string(), -1, 0), Err(RowError::NegativeRetryCount));
    assert_eq!(
        QueueTask::from_row(9, "a@b.c".to_string(), i16::MIN, 0),
        Err(RowError::NegativeRetryCount)
    );
}

#[test]
fn reschedule_adds_one_retry_and_the_wait() {
    let next = task(0, 50).reschedule(10_000_000, 1).unwrap();
    assert_eq!(next.retry_count, 1);
    assert_eq!(next.not_before, 11_000_000);
    assert_eq!(next.issue_id, 7);
    assert_eq!(next.recipient, "reader@example.com");

    let next = task(4, 50).reschedule(-3, 31).unwrap();
    assert_eq!(next.retry_count, 5);
    assert_eq!(next.not_before, 30_999_997);

    let next = task(20, 0).reschedule(1_700_000_000_000_000, 899).unwrap();
    assert_eq!(next.retry_count, 21);
    assert_eq!(next.not_before, 1_700_000_899_000_000);
}

#[test]
fn reschedule_turns_down_a_wait_out_of_range() {
    assert_eq!(task(0, 0).reschedule(0, 0), Err(RescheduleError::WaitOutOfRange));
    assert_eq!(task(0, 0).reschedule(0, 2), Err(RescheduleError::WaitOutOfRange));
    assert_eq!(task(1, 0).reschedule(0, 4), Err(RescheduleError::WaitOutOfRange));
    assert_eq!(task(1, 0).reschedule(0, 3).unwrap().not_before, 3_000_000);
    assert_eq!(task(30, 0).reschedule(0, 900), Err(RescheduleError::WaitOutOfRange));
}

#[test]
fn reschedule_turns_down_a_retry_count_that_cannot_grow() {
    assert_eq!(task(u16::MAX, 0).reschedule(0, 1), Err(RescheduleError::RetryCountExhausted));
    assert_eq!(task(u16::MAX - 1, 0).reschedule(0, 1).unwrap().retry_count, u16::MAX);
}

#[test]
fn reschedule_turns_down_a_date_beyond_the_end_of_time() {
    assert_eq!(task(0, 0).reschedule(i64::MAX, 1), Err(RescheduleError::ClockOutOfRange));
    assert_eq!(task(0, 0).reschedule(i64::MAX - 999_999, 1), Err(RescheduleError::ClockOutOfRange));
    assert_eq!(task(0, 0).reschedule(i64::MAX - 1_000_000, 1).unwrap().not_before, i64::MAX);
}

#[test]
fn clones_are_equal() {
    let first = task(3, 4);
    assert_eq!(first.clone(), first);
    let issue = Issue {
        issue_id: 1,
        title: "t".to_string(),
        html_content: "<p>h</p>".to_string(),
        text_content: "x".to_string(),
    };
    assert_eq!(issue.clone(), issue);
}

#[test]
fn retry_counts_are_stored_up_to_the_column_s_largest() {
    assert_eq!(QueueTask::stored_retry_count(0), 0);
    assert_eq!(QueueTask::stored_retry_count(1), 1);
    assert_eq!(QueueTask::stored_retry_count(32766), 32766);
    assert_eq!(QueueTask::stored_retry_count(32767), 32767);
    assert_eq!(QueueTask::stored_retry_count(32768), 32767);
    assert_eq!(QueueTask::stored_retry_count(u16::MAX), 32767);
}

#[test]
fn a_stored_count_reads_back_as_itself() {
    for count in [0u16, 1, 900, 32767] {
        let stored = QueueTask::stored_retry_count(count);
        let row = QueueTask::from_row(1, "a@b".to_string(), stored, 0).unwrap();
        assert_eq!(row.retry_count, count);
    }
}
