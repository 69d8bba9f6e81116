//! The rows of the delivery queue and the issues they point to.

use crate::address::ValidAddress;
use crate::backoff::{max_wait_seconds, wait_in_range, MIN_WAIT};
use crate::clock::{add_seconds, after};
use vstd::prelude::*;

verus! {

/// One pending delivery: one issue, one recipient.
#[derive(Debug, PartialEq, Eq)]
pub struct QueueTask {
    /// The issue to deliver.
    pub issue_id: u128,
    /// The address as it was stored when the recipient subscribed.
    pub recipient: String,
    /// How many delivery attempts have failed so far.
    pub retry_count: u16,
    /// The task may be claimed only at instants later than this one.
    pub not_before: i64,
}

/// What a [`QueueTask`] stands for.
pub struct TaskModel {
    pub issue_id: u128,
    pub recipient: Seq<char>,
    pub retry_count: u16,
    pub not_before: i64,
}

impl View for QueueTask {
    type V = TaskModel;

    open spec fn view(&self) -> TaskModel {
        TaskModel {
            issue_id: self.issue_id,
            recipient: self.recipient@,
            retry_count: self.retry_count,
            not_before: self.not_before,
        }
    }
}

impl TaskModel {
    /// The natural key of the task: at most one task per issue and recipient.
    pub open spec fn key(self) -> (u128, Seq<char>) {
        (self.issue_id, self.recipient)
    }
}

impl Clone for QueueTask {
    fn clone(&self) -> (copy: Self)
        ensures
            copy@ == self@,
    {
        QueueTask {
            issue_id: self.issue_id,
            recipient: self.recipient.clone(),
            retry_count: self.retry_count,
            not_before: self.not_before,
        }
    }
}

/// A task whose address has passed validation.
#[derive(Debug, PartialEq, Eq)]
pub struct ValidTask {
    pub issue_id: u128,
    pub to: ValidAddress,
    pub retry_count: u16,
    pub not_before: i64,
}

impl View for ValidTask {
    type V = TaskModel;

    open spec fn view(&self) -> TaskModel {
        TaskModel {
            issue_id: self.issue_id,
            recipient: self.to@,
            retry_count: self.retry_count,
            not_before: self.not_before,
        }
    }
}

impl ValidTask {
    /// The task as a plain queue row again.
    pub fn into_task(self) -> (task: QueueTask)
        ensures
            task@ == self@,
    {
        QueueTask {
            issue_id: self.issue_id,
            recipient: self.to.into_string(),
            retry_count: self.retry_count,
            not_before: self.not_before,
        }
    }
}

/// One newsletter issue. Issues never change once they are published.
#[derive(Debug, PartialEq, Eq)]
pub struct Issue {
    pub issue_id: u128,
    pub title: String,
    pub html_content: String,
    pub text_content: String,
}

/// What an [`Issue`] stands for.
pub struct IssueModel {
    pub issue_id: u128,
    pub title: Seq<char>,
    pub html_content: Seq<char>,
    pub text_content: Seq<char>,
}

impl View for Issue {
    type V = IssueModel;

    open spec fn view(&self) -> IssueModel {
        IssueModel {
            issue_id: self.issue_id,
            title: self.title@,
            html_content: self.html_content@,
            text_content: self.text_content@,
        }
    }
}

impl Clone for Issue {
    fn clone(&self) -> (copy: Self)
        ensures
            copy@ == self@,
    {
        Issue {
            issue_id: self.issue_id,
            title: self.title.clone(),
            html_content: self.html_content.clone(),
            text_content: self.text_content.clone(),
        }
    }
}

/// Why a stored row is not a task.
#[derive(Clone, Copy, Debug, PartialEq, Eq, Structural)]
pub enum RowError {
    /// The stored retry count is below zero.
    NegativeRetryCount,
}

impl QueueTask {
    /// Builds a task from the columns of a stored row, where the retry count
    /// is a signed 16-bit number. A negative count is turned down.
    pub fn from_row(issue_id: u128, recipient: String, n_retries: i16, execute_after: i64) -> (row:
        Result<QueueTask, RowError>)
        ensures
            n_retries < 0 <==> row == Err::<QueueTask, RowError>(RowError::NegativeRetryCount),
            n_retries >= 0 ==> row is Ok && row->Ok_0@ == (TaskModel {
                issue_id,
                recipient: recipient@,
                retry_count: n_retries as u16,
                not_before: execute_after,
            }),
    {
        if n_retries < 0 {
            Err(RowError::NegativeRetryCount)
        } else {
            Ok(
                QueueTask {
                    issue_id,
                    recipient,
                    retry_count: n_retries as u16,
                    not_before: execute_after,
                },
            )
        }
    }
}

/// The largest retry count that a stored row can hold: its column is a signed
/// 16-bit number.
pub const LARGEST_STORED_RETRY_COUNT: u16 = 32767;

/// The retry count as a stored row holds it.
pub open spec fn stored(retry_count: u16) -> int {
    if retry_count <= LARGEST_STORED_RETRY_COUNT {
        retry_count as int
    } else {
        LARGEST_STORED_RETRY_COUNT as int
    }
}

impl QueueTask {
    /// Turns a retry count into the number that is written to the stored row.
    /// A count beyond the column's range is written as the largest number the
    /// column holds, so that a task which has failed that often still gets
    /// its new date written, and keeps waiting between attempts.
    pub fn stored_retry_count(retry_count: u16) -> (n_retries: i16)
        ensures
            n_retries == stored(retry_count),
            0 <= n_retries,
    {
        if retry_count <= LARGEST_STORED_RETRY_COUNT {
            retry_count as i16
        } else {
            LARGEST_STORED_RETRY_COUNT as i16
        }
    }
}

/// Why a failed task could not be given a new date.
#[derive(Clone, Copy, Debug, PartialEq, Eq, Structural)]
pub enum RescheduleError {
    /// The retry count is at the largest value it can hold.
    RetryCountExhausted,
    /// The wait is not one the retry scheduler allows for that retry count.
    WaitOutOfRange,
    /// The new date lies beyond the last instant that can be written down.
    ClockOutOfRange,
}

/// The task after a delivery attempt that failed at `now`, where the retry
/// scheduler drew `wait_seconds`: one more retry, and eligible again
/// `wait_seconds` after `now`.
pub open spec fn rescheduled(task: TaskModel, now: i64, wait_seconds: u16) -> Result<
    TaskModel,
    RescheduleError,
> {
    if task.retry_count == u16::MAX {
        Err(RescheduleError::RetryCountExhausted)
    } else if !wait_in_range(task.retry_count as nat, wait_seconds as nat) {
        Err(RescheduleError::WaitOutOfRange)
    } else if after(now, wait_seconds) > i64::MAX {
        Err(RescheduleError::ClockOutOfRange)
    } else {
        Ok(
            TaskModel {
                retry_count: (task.retry_count + 1) as u16,
                not_before: after(now, wait_seconds) as i64,
                ..task
            },
        )
    }
}

impl QueueTask {
    /// Gives the task its new retry count and date after a delivery attempt
    /// that failed at `now`, for a wait of `wait_seconds` drawn by the retry
    /// scheduler.
    pub fn reschedule(&self, now: i64, wait_seconds: u16) -> (next: Result<
        QueueTask,
        RescheduleError,
    >)
        ensures
            match next {
                Ok(task) => rescheduled(self@, now, wait_seconds) == Ok::<
                    TaskModel,
                    RescheduleError,
                >(task@),
                Err(error) => rescheduled(self@, now, wait_seconds) == Err::<
                    TaskModel,
                    RescheduleError,
                >(error),
            },
    {
        if self.retry_count == u16::MAX {
            return Err(RescheduleError::RetryCountExhausted);
        }
        if wait_seconds < MIN_WAIT || wait_seconds >= max_wait_seconds(self.retry_count) {
            return Err(RescheduleError::WaitOutOfRange);
        }
        match add_seconds(now, wait_seconds) {
            None => Err(RescheduleError::ClockOutOfRange),
            Some(not_before) => Ok(
                QueueTask {
                    issue_id: self.issue_id,
                    recipient: self.recipient.clone(),
                    retry_count: self.retry_count + 1,
                    not_before,
                },
            ),
        }
    }
}

/// A rescheduled task has strictly more retries than before and becomes
/// eligible strictly after the failed attempt.
pub proof fn reschedule_moves_forward(task: TaskModel, now: i64, wait_seconds: u16)
    requires
        rescheduled(task, now, wait_seconds) is Ok,
    ensures
        rescheduled(task, now, wait_seconds)->Ok_0.retry_count > task.retry_count,
        rescheduled(task, now, wait_seconds)->Ok_0.not_before > now,
        rescheduled(task, now, wait_seconds)->Ok_0.key() == task.key(),
{
}

} // verus!
