//! Task status and its transition table, and task priority.

use vstd::prelude::*;
use vstd::string::*;
use crate::error::TaskError;
use crate::text::{
    decimal, lowercase_of, parse_u64, str_eq, to_lowercase, to_uppercase, u64_numeral,
    u64_to_string, uppercase_of,
};

verus! {

/// Where a task stands. `Pending` is the initial status and `Deleted` the
/// terminal one.
#[derive(Debug, Clone, Copy, PartialEq, Eq, Hash, Structural)]
pub enum TaskStatus {
    Pending,
    Completed,
    Deleted,
    Waiting,
}

impl Default for TaskStatus {
    fn default() -> (s: TaskStatus)
        ensures
            s == TaskStatus::Pending,
    {
        TaskStatus::Pending
    }
}

impl TaskStatus {
    /// The transition table: a task may move from any status but `Deleted`
    /// to any other status.
    pub open spec fn can_become(self, to: TaskStatus) -> bool {
        self != TaskStatus::Deleted && self != to
    }

    /// The lowercase name of the status.
    pub open spec fn name(self) -> Seq<char> {
        match self {
            TaskStatus::Pending => "pending"@,
            TaskStatus::Completed => "completed"@,
            TaskStatus::Deleted => "deleted"@,
            TaskStatus::Waiting => "waiting"@,
        }
    }

    /// The status that a lowercase name denotes.
    pub open spec fn named(lower: Seq<char>) -> Option<TaskStatus> {
        if lower == "pending"@ {
            Some(TaskStatus::Pending)
        } else if lower == "completed"@ {
            Some(TaskStatus::Completed)
        } else if lower == "deleted"@ {
            Some(TaskStatus::Deleted)
        } else if lower == "waiting"@ {
            Some(TaskStatus::Waiting)
        } else {
            None
        }
    }

    /// Pending or waiting.
    pub open spec fn active(self) -> bool {
        self == TaskStatus::Pending || self == TaskStatus::Waiting
    }

    /// Whether the transition table allows a task to move from this status
    /// to `to`.
    pub fn can_transition_to(&self, to: &TaskStatus) -> (r: bool)
        ensures
            r == self.can_become(*to),
    {
        match (self, to) {
            (TaskStatus::Deleted, _) => false,
            (TaskStatus::Pending, TaskStatus::Pending) => false,
            (TaskStatus::Completed, TaskStatus::Completed) => false,
            (TaskStatus::Waiting, TaskStatus::Waiting) => false,
            _ => true,
        }
    }

    /// Whether the status is pending or waiting.
    pub fn is_active(&self) -> (r: bool)
        ensures
            r == self.active(),
    {
        match self {
            TaskStatus::Pending => true,
            TaskStatus::Waiting => true,
            _ => false,
        }
    }

    /// The lowercase name of the status.
    pub fn as_str(&self) -> (r: &'static str)
        ensures
            r@ == self.name(),
    {
        match self {
            TaskStatus::Pending => "pending",
            TaskStatus::Completed => "completed",
            TaskStatus::Deleted => "deleted",
            TaskStatus::Waiting => "waiting",
        }
    }

    /// The lowercase name of the status, as an owned text.
    pub fn to_string(&self) -> (r: String)
        ensures
            r@ == self.name(),
    {
        self.as_str().to_owned()
    }

    /// Reads a status from `text`, of which `lower` is the lowercase form.
    pub fn from_lowercase(text: &str, lower: &str) -> (r: Result<TaskStatus, TaskError>)
        ensures
            match TaskStatus::named(lower@) {
                Some(status) => r matches Ok(s) && s == status,
                None => r matches Err(TaskError::Validation { message }) && message@
                    == "Invalid task status: "@ + text@,
            },
    {
        if str_eq(lower, "pending") {
            Ok(TaskStatus::Pending)
        } else if str_eq(lower, "completed") {
            Ok(TaskStatus::Completed)
        } else if str_eq(lower, "deleted") {
            Ok(TaskStatus::Deleted)
        } else if str_eq(lower, "waiting") {
            Ok(TaskStatus::Waiting)
        } else {
            let mut message = "Invalid task status: ".to_owned();
            message.append(text);
            Err(TaskError::Validation { message })
        }
    }

    /// Reads a status by its name, whatever the case of its letters.
    pub fn parse(text: &str) -> (r: Result<TaskStatus, TaskError>)
        ensures
            match TaskStatus::named(lowercase_of(text@)) {
                Some(status) => r matches Ok(s) && s == status,
                None => r matches Err(TaskError::Validation { message }) && message@
                    == "Invalid task status: "@ + text@,
            },
    {
        let lower = to_lowercase(text);
        TaskStatus::from_lowercase(text, lower.as_str())
    }
}

impl core::str::FromStr for TaskStatus {
    type Err = TaskError;

    fn from_str(s: &str) -> (r: Result<TaskStatus, TaskError>)
        ensures
            match TaskStatus::named(lowercase_of(s@)) {
                Some(status) => r matches Ok(t) && t == status,
                None => r matches Err(TaskError::Validation { message }) && message@
                    == "Invalid task status: "@ + s@,
            },
    {
        TaskStatus::parse(s)
    }
}

/// How much a task matters: three named levels, or a numeric level from 0
/// to 9.
#[derive(Debug, Clone, Copy, PartialEq, Eq, Hash, Structural)]
pub enum Priority {
    High,
    Medium,
    Low,
    Number(u8),
}

impl Default for Priority {
    fn default() -> (p: Priority)
        ensures
            p == Priority::Medium,
    {
        Priority::Medium
    }
}

impl Priority {
    /// A numeric level is at most 9.
    pub open spec fn wf(self) -> bool {
        match self {
            Priority::Number(n) => n <= 9,
            _ => true,
        }
    }

    /// What the priority adds to a task's urgency, which also ranks
    /// priorities against each other.
    pub open spec fn weight(self) -> int {
        match self {
            Priority::High => 10,
            Priority::Medium => 5,
            Priority::Low => 1,
            Priority::Number(n) => n as int,
        }
    }

    /// The short label of the priority.
    pub open spec fn label(self) -> Seq<char> {
        match self {
            Priority::High => "H"@,
            Priority::Medium => "M"@,
            Priority::Low => "L"@,
            Priority::Number(n) => decimal(n as nat),
        }
    }

    /// What an uppercase text reads as: a named level, a numeral, or neither.
    pub open spec fn read(upper: Seq<char>) -> Result<Priority, Seq<char>> {
        if upper == "H"@ || upper == "HIGH"@ {
            Ok(Priority::High)
        } else if upper == "M"@ || upper == "MEDIUM"@ {
            Ok(Priority::Medium)
        } else if upper == "L"@ || upper == "LOW"@ {
            Ok(Priority::Low)
        } else {
            match u64_numeral(upper) {
                Some(n) => if n <= 9 {
                    Ok(Priority::Number(n as u8))
                } else if n <= u8::MAX {
                    Err("Priority number must be 0-9, got: "@ + decimal(n as nat))
                } else {
                    Err("Invalid priority: "@ + upper)
                },
                None => Err("Invalid priority: "@ + upper),
            }
        }
    }

    /// The priority's weight: 10, 5 and 1 for the named levels, and the
    /// level itself for a numeric one.
    pub fn urgency_weight(&self) -> (w: u32)
        ensures
            w == self.weight(),
    {
        match self {
            Priority::High => 10,
            Priority::Medium => 5,
            Priority::Low => 1,
            Priority::Number(n) => *n as u32,
        }
    }

    /// The short label of the priority: `H`, `M`, `L` or the numeral of
    /// the level.
    pub fn to_string(&self) -> (r: String)
        ensures
            r@ == self.label(),
    {
        match self {
            Priority::High => "H".to_owned(),
            Priority::Medium => "M".to_owned(),
            Priority::Low => "L".to_owned(),
            Priority::Number(n) => u64_to_string(*n as u64),
        }
    }

    /// Reads a priority from a text that is already in uppercase.
    pub fn from_uppercase(upper: &str) -> (r: Result<Priority, TaskError>)
        ensures
            match Priority::read(upper@) {
                Ok(p) => r matches Ok(q) && q == p && p.wf(),
                Err(m) => r matches Err(TaskError::Validation { message }) && message@ == m,
            },
    {
        if str_eq(upper, "H") || str_eq(upper, "HIGH") {
            Ok(Priority::High)
        } else if str_eq(upper, "M") || str_eq(upper, "MEDIUM") {
            Ok(Priority::Medium)
        } else if str_eq(upper, "L") || str_eq(upper, "LOW") {
            Ok(Priority::Low)
        } else {
            match parse_u64(upper) {
                Some(n) => {
                    if n <= 9 {
                        Ok(Priority::Number(n as u8))
                    } else if n <= 255 {
                        let mut message = "Priority number must be 0-9, got: ".to_owned();
                        let digits = u64_to_string(n);
                        message.append(digits.as_str());
                        Err(TaskError::Validation { message })
                    } else {
                        let mut message = "Invalid priority: ".to_owned();
                        message.append(upper);
                        Err(TaskError::Validation { message })
                    }
                },
                None => {
                    let mut message = "Invalid priority: ".to_owned();
                    message.append(upper);
                    Err(TaskError::Validation { message })
                },
            }
        }
    }

    /// Reads a priority: `H`, `M`, `L` or their full names in any case, or a
    /// level from 0 to 9.
    pub fn parse(text: &str) -> (r: Result<Priority, TaskError>)
        ensures
            match Priority::read(uppercase_of(text@)) {
                Ok(p) => r matches Ok(q) && q == p && p.wf(),
                Err(m) => r matches Err(TaskError::Validation { message }) && message@ == m,
            },
    {
        let upper = to_uppercase(text);
        Priority::from_uppercase(upper.as_str())
    }
}

impl core::str::FromStr for Priority {
    type Err = TaskError;

    fn from_str(s: &str) -> (r: Result<Priority, TaskError>)
        ensures
            match Priority::read(uppercase_of(s@)) {
                Ok(p) => r matches Ok(q) && q == p && p.wf(),
                Err(m) => r matches Err(TaskError::Validation { message }) && message@ == m,
            },
    {
        Priority::parse(s)
    }
}

/// Every pair of statuses is either in the transition table, exactly when
/// the first is not `Deleted` and the two differ, or outside it.
pub proof fn transition_table(from: TaskStatus, to: TaskStatus)
    ensures
        from.can_become(to) <==> (from == TaskStatus::Pending && (to == TaskStatus::Completed
            || to == TaskStatus::Waiting || to == TaskStatus::Deleted)) || (from
            == TaskStatus::Waiting && (to == TaskStatus::Pending || to == TaskStatus::Completed
            || to == TaskStatus::Deleted)) || (from == TaskStatus::Completed && (to
            == TaskStatus::Pending || to == TaskStatus::Waiting || to == TaskStatus::Deleted)),
{
}

} // verus!
