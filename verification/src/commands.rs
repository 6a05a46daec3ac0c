//! What the commands decide before anything is stored: reading task
//! identifiers, changing one field of a task, and the settings of the
//! GitHub synchronisation.

use vstd::prelude::*;
use vstd::string::*;
use crate::config::{
    collect_ids, ids_in, is_valid_sync_mode, pair_views, set_pair, valid_sync_mode, with_pair,
    GitHubConfig, GitHubConfigView,
};
use crate::engine::{is_validation, rejected, task_views};
use crate::error::{EddaError, EddaResult, SyncError, TaskError};
use crate::status::{Priority, TaskStatus};
use crate::task::{Task, TaskView};
use crate::text::{
    i64_numeral, lowercase_of, parse_i64, parse_u64, split, split_on, str_eq, to_lowercase, trim,
    trimmed, u64_numeral, uppercase_of, texts,
};

verus! {

/// Reads the identifier of a task from an argument of the command line.
pub fn parse_task_id(id: &str) -> (r: EddaResult<i64>)
    ensures
        match i64_numeral(id@) {
            Some(n) => r == Ok::<i64, EddaError>(n),
            None => rejected(r, "Invalid task ID: "@ + id@),
        },
{
    match parse_i64(id) {
        Some(n) => Ok(n),
        None => {
            let mut message = "Invalid task ID: ".to_owned();
            message.append(id);
            Err(EddaError::Task(TaskError::Validation { message }))
        },
    }
}

/// The task after the field named `field_lower` is set to what `value`
/// spells, or the message that says why it cannot be; `field` is the name
/// as it was given.
pub open spec fn modified(
    task: TaskView,
    field: Seq<char>,
    field_lower: Seq<char>,
    value: Seq<char>,
) -> Result<TaskView, Seq<char>> {
    if field_lower == "description"@ {
        Ok(TaskView { description: value, ..task })
    } else if field_lower == "status"@ {
        match TaskStatus::named(lowercase_of(value)) {
            Some(status) => Ok(TaskView { status, ..task }),
            None => Err("Invalid status: Validation error: Invalid task status: "@ + value),
        }
    } else if field_lower == "priority"@ {
        match Priority::read(uppercase_of(value)) {
            Ok(p) => Ok(TaskView { priority: Some(p), ..task }),
            Err(m) => Err("Invalid priority: Validation error: "@ + m),
        }
    } else if field_lower == "project"@ {
        Ok(TaskView { project: Some(value), ..task })
    } else {
        Err("Unknown field: "@ + field)
    }
}

/// Sets one field of a task, `field_lower` being the lowercase form of the
/// field's name `field`.
pub fn modify_field(task: Task, field: &str, field_lower: &str, value: String) -> (r: EddaResult<
    Task,
>)
    ensures
        match modified(task@, field@, field_lower@, value@) {
            Ok(v) => r matches Ok(t) && t@ == v,
            Err(m) => rejected(r, m),
        },
{
    let mut task = task;
    if str_eq(field_lower, "description") {
        task.description = value;
        Ok(task)
    } else if str_eq(field_lower, "status") {
        match TaskStatus::parse(value.as_str()) {
            Ok(status) => {
                task.status = status;
                Ok(task)
            },
            Err(e) => {
                let mut message = "Invalid status: ".to_owned();
                let inner = e.to_string();
                message.append(inner.as_str());
                assert(message@ =~= "Invalid status: Validation error: Invalid task status: "@
                    + value@) by {
                    reveal_strlit("Invalid status: ");
                    reveal_strlit("Validation error: ");
                    reveal_strlit("Invalid status: Validation error: Invalid task status: ");
                    reveal_strlit("Invalid task status: ");
                }
                Err(EddaError::Task(TaskError::Validation { message }))
            },
        }
    } else if str_eq(field_lower, "priority") {
        match Priority::parse(value.as_str()) {
            Ok(p) => {
                task.priority = Some(p);
                Ok(task)
            },
            Err(e) => {
                let mut message = "Invalid priority: ".to_owned();
                let inner = e.to_string();
                message.append(inner.as_str());
                assert(message@ =~= "Invalid priority: Validation error: "@ + Priority::read(
                    uppercase_of(value@),
                )->Err_0) by {
                    reveal_strlit("Invalid priority: ");
                    reveal_strlit("Validation error: ");
                    reveal_strlit("Invalid priority: Validation error: ");
                }
                Err(EddaError::Task(TaskError::Validation { message }))
            },
        }
    } else if str_eq(field_lower, "project") {
        task.project = Some(value);
        Ok(task)
    } else {
        let mut message = "Unknown field: ".to_owned();
        message.append(field);
        Err(EddaError::Task(TaskError::Validation { message }))
    }
}

/// Sets the field `field` of a task, whatever the case of the letters of
/// the field's name.
pub fn modify_task(task: Task, field: &str, value: String) -> (r: EddaResult<Task>)
    ensures
        match modified(task@, field@, lowercase_of(field@), value@) {
            Ok(v) => r matches Ok(t) && t@ == v,
            Err(m) => rejected(r, m),
        },
{
    let lower = to_lowercase(field);
    modify_field(task, field, lower.as_str(), value)
}

/// How many of the tasks have the status `status`.
pub open spec fn count_status(tasks: Seq<TaskView>, status: TaskStatus) -> nat
    decreases tasks.len(),
{
    if tasks.len() == 0 {
        0
    } else if tasks.last().status == status {
        count_status(tasks.drop_last(), status) + 1
    } else {
        count_status(tasks.drop_last(), status)
    }
}

/// Counts the tasks that have the status `status`.
pub fn count_with_status(tasks: &Vec<Task>, status: TaskStatus) -> (n: usize)
    ensures
        n == count_status(task_views(tasks@), status),
{
    let mut n: usize = 0;
    let mut i: usize = 0;
    while i < tasks.len()
        invariant
            i <= tasks.len(),
            n <= i,
            n == count_status(task_views(tasks@).take(i as int), status),
        decreases tasks.len() - i,
    {
        let ghost prefix = task_views(tasks@).take(i as int + 1);
        assert(prefix.drop_last() =~= task_views(tasks@).take(i as int));
        assert(prefix.last() == tasks@[i as int]@);
        if tasks[i].status == status {
            n = n + 1;
        }
        i = i + 1;
    }
    assert(task_views(tasks@).take(tasks.len() as int) =~= task_views(tasks@));
    n
}

/// Whether `e` is the synchronisation-settings error with the message
/// `message`.
pub open spec fn settings_rejected<T>(r: EddaResult<T>, message: Seq<char>) -> bool {
    r matches Err(EddaError::Sync(SyncError::Configuration { message: m })) && m@ == message
}

fn settings_error(message: &str) -> (e: EddaError)
    ensures
        e matches EddaError::Sync(SyncError::Configuration { message: m }) && m@ == message@,
{
    EddaError::Sync(SyncError::Configuration { message: message.to_owned() })
}

/// Whether every piece, without the white space around it, is a numeral
/// within the range of `u64`.
pub open spec fn all_ids(pieces: Seq<Seq<char>>) -> bool {
    forall|i: int| 0 <= i < pieces.len() ==> u64_numeral(trimmed(#[trigger] pieces[i])) is Some
}

/// A status that a column of a project board can stand for.
pub open spec fn valid_column_status(s: Seq<char>) -> bool {
    s == "pending"@ || s == "in_progress"@ || s == "completed"@ || s == "cancelled"@
}

impl GitHubConfig {
    /// Sets the synchronisation mode, which must be `issues`, `projects`
    /// or `both`.
    pub fn set_sync_mode(&mut self, mode: String) -> (r: EddaResult<()>)
        ensures
            valid_sync_mode(mode@) ==> r is Ok && final(self)@ == (GitHubConfigView {
                sync_mode: mode@,
                ..old(self)@
            }),
            !valid_sync_mode(mode@) ==> final(self)@ == old(self)@ && settings_rejected(
                r,
                "Sync mode must be 'issues', 'projects', or 'both'"@,
            ),
    {
        if !is_valid_sync_mode(mode.as_str()) {
            return Err(settings_error("Sync mode must be 'issues', 'projects', or 'both'"));
        }
        self.sync_mode = mode;
        Ok(())
    }

    /// Sets the project boards from a list of identifiers separated by
    /// commas. Every entry must be a numeral.
    pub fn set_project_ids(&mut self, list: &str) -> (r: EddaResult<()>)
        ensures
            all_ids(split_on(list@, ',')) ==> r is Ok && final(self)@ == (GitHubConfigView {
                project_ids: ids_in(split_on(list@, ',')),
                ..old(self)@
            }),
            !all_ids(split_on(list@, ',')) ==> final(self)@ == old(self)@ && settings_rejected(
                r,
                "Invalid project IDs format. Use comma-separated numbers."@,
            ),
    {
        let pieces = split(list, ',');
        let mut i: usize = 0;
        while i < pieces.len()
            invariant
                i <= pieces.len(),
                self@ == old(self)@,
                texts(pieces@) == split_on(list@, ','),
                forall|j: int|
                    0 <= j < i ==> u64_numeral(trimmed(#[trigger] texts(pieces@)[j])) is Some,
            decreases pieces.len() - i,
        {
            let piece = trim(pieces[i].as_str());
            if parse_u64(piece.as_str()).is_none() {
                assert(u64_numeral(trimmed(texts(pieces@)[i as int])) is None);
                return Err(
                    settings_error("Invalid project IDs format. Use comma-separated numbers."),
                );
            }
            i = i + 1;
        }
        self.project_ids = collect_ids(&pieces);
        Ok(())
    }

    /// Lets the column `column` of the project boards stand for `status`,
    /// which must be `pending`, `in_progress`, `completed` or `cancelled`.
    pub fn map_column(&mut self, column: String, status: String) -> (r: EddaResult<()>)
        ensures
            valid_column_status(status@) ==> r is Ok && final(self)@ == (GitHubConfigView {
                column_mapping: with_pair(old(self)@.column_mapping, column@, status@),
                ..old(self)@
            }),
            !valid_column_status(status@) ==> final(self)@ == old(self)@ && settings_rejected(
                r,
                "Status must be 'pending', 'in_progress', 'completed', or 'cancelled'"@,
            ),
    {
        let s = status.as_str();
        if !(str_eq(s, "pending") || str_eq(s, "in_progress") || str_eq(s, "completed") || str_eq(
            s,
            "cancelled",
        )) {
            return Err(
                settings_error(
                    "Status must be 'pending', 'in_progress', 'completed', or 'cancelled'",
                ),
            );
        }
        set_pair(&mut self.column_mapping, column, status);
        Ok(())
    }
}

} // verus!
