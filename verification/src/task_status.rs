//! The life-cycle states of a download task and their stored names.

use vstd::prelude::*;
use crate::text::str_eq;

verus! {

/// The state of a download task.
#[derive(Debug, Clone, Copy, PartialEq, Eq, Structural)]
pub enum TaskStatus {
    Pending,
    Downloading,
    Paused,
    Completed,
    CompletedWithErrors,
    Failed,
    Cancelled,
}

/// The stored name of a state.
pub open spec fn status_name(s: TaskStatus) -> Seq<char> {
    match s {
        TaskStatus::Pending => "pending"@,
        TaskStatus::Downloading => "downloading"@,
        TaskStatus::Paused => "paused"@,
        TaskStatus::Completed => "completed"@,
        TaskStatus::CompletedWithErrors => "completed_with_errors"@,
        TaskStatus::Failed => "failed"@,
        TaskStatus::Cancelled => "cancelled"@,
    }
}

/// The state a stored name stands for.
pub open spec fn status_of_name(n: Seq<char>) -> Option<TaskStatus> {
    if n == "pending"@ {
        Some(TaskStatus::Pending)
    } else if n == "downloading"@ {
        Some(TaskStatus::Downloading)
    } else if n == "paused"@ {
        Some(TaskStatus::Paused)
    } else if n == "completed"@ {
        Some(TaskStatus::Completed)
    } else if n == "completed_with_errors"@ {
        Some(TaskStatus::CompletedWithErrors)
    } else if n == "failed"@ {
        Some(TaskStatus::Failed)
    } else if n == "cancelled"@ {
        Some(TaskStatus::Cancelled)
    } else {
        None
    }
}

impl TaskStatus {
    /// The name under which the state is stored.
    pub fn as_str(&self) -> (r: &'static str)
        ensures
            r@ == status_name(*self),
    {
        match self {
            TaskStatus::Pending => "pending",
            TaskStatus::Downloading => "downloading",
            TaskStatus::Paused => "paused",
            TaskStatus::Completed => "completed",
            TaskStatus::CompletedWithErrors => "completed_with_errors",
            TaskStatus::Failed => "failed",
            TaskStatus::Cancelled => "cancelled",
        }
    }

    /// The state a stored name stands for; `None` for an unknown name.
    pub fn parse(s: &str) -> (r: Option<TaskStatus>)
        ensures
            r == status_of_name(s@),
    {
        if str_eq(s, "pending") {
            Some(TaskStatus::Pending)
        } else if str_eq(s, "downloading") {
            Some(TaskStatus::Downloading)
        } else if str_eq(s, "paused") {
            Some(TaskStatus::Paused)
        } else if str_eq(s, "completed") {
            Some(TaskStatus::Completed)
        } else if str_eq(s, "completed_with_errors") {
            Some(TaskStatus::CompletedWithErrors)
        } else if str_eq(s, "failed") {
            Some(TaskStatus::Failed)
        } else if str_eq(s, "cancelled") {
            Some(TaskStatus::Cancelled)
        } else {
            None
        }
    }
}

/// A stored name that is no state's.
#[derive(Debug, Clone, Copy, PartialEq, Eq, Structural)]
pub struct UnknownStatus;

impl std::str::FromStr for TaskStatus {
    type Err = UnknownStatus;

    fn from_str(s: &str) -> (r: Result<TaskStatus, UnknownStatus>)
        ensures
            r matches Ok(t) ==> status_of_name(s@) == Some(t),
            r is Err ==> status_of_name(s@) is None,
    {
        match TaskStatus::parse(s) {
            Some(t) => Ok(t),
            None => Err(UnknownStatus),
        }
    }
}

/// Reading a state's stored name gives the state back, so distinct states
/// have distinct names.
pub proof fn lemma_status_round_trip(s: TaskStatus)
    ensures
        status_of_name(status_name(s)) == Some(s),
{
    reveal_strlit("pending");
    reveal_strlit("downloading");
    reveal_strlit("paused");
    reveal_strlit("completed");
    reveal_strlit("completed_with_errors");
    reveal_strlit("failed");
    reveal_strlit("cancelled");
    assert forall|a: Seq<char>, b: Seq<char>| a.len() != b.len() implies a != b by {}
    match s {
        TaskStatus::Pending => {
        },
        TaskStatus::Downloading => {
            assert("downloading"@.len() != "pending"@.len());
        },
        TaskStatus::Paused => {
            assert("paused"@.len() != "pending"@.len());
            assert("paused"@.len() != "downloading"@.len());
        },
        TaskStatus::Completed => {
            assert("completed"@.len() != "pending"@.len());
            assert("completed"@.len() != "downloading"@.len());
            assert("completed"@.len() != "paused"@.len());
        },
        TaskStatus::CompletedWithErrors => {
            assert("completed_with_errors"@.len() != "pending"@.len());
            assert("completed_with_errors"@.len() != "downloading"@.len());
            assert("completed_with_errors"@.len() != "paused"@.len());
            assert("completed_with_errors"@.len() != "completed"@.len());
        },
        TaskStatus::Failed => {
            assert("failed"@.len() != "pending"@.len());
            assert("failed"@.len() != "downloading"@.len());
            assert("failed"@[0] != "paused"@[0]);
            assert("failed"@.len() != "completed"@.len());
            assert("failed"@.len() != "completed_with_errors"@.len());
        },
        TaskStatus::Cancelled => {
            assert("cancelled"@.len() != "pending"@.len());
            assert("cancelled"@.len() != "downloading"@.len());
            assert("cancelled"@.len() != "paused"@.len());
            assert("cancelled"@[1] != "completed"@[1]);
            assert("cancelled"@.len() != "completed_with_errors"@.len());
            assert("cancelled"@.len() != "failed"@.len());
        },
    }
}

/// A name that reads as a state is that state's stored name.
pub proof fn lemma_name_round_trip(n: Seq<char>)
    ensures
        status_of_name(n) matches Some(s) ==> status_name(s) == n,
{
}

} // verus!
