//! Tasks as a store keeps them: every value as text or as a number, and
//! the conversion between such a record and a task.

use vstd::prelude::*;
use vstd::string::*;
use crate::engine::rejected;
use crate::error::{EddaError, EddaResult, TaskError};
use crate::status::{Priority, TaskStatus};
use crate::task::{
    annotation_views, clone_annotations, clone_opt_text, distinct, distinct_texts, id_set,
    opt_text, Annotation, Task, TaskView,
};
use crate::text::{i64_to_string, lowercase_of, signed_decimal, texts, uppercase_of};
use crate::time::Timestamp;

verus! {

/// The identifier that `uuid::Uuid::parse_str` reads from a text, or the
/// message of its error.
pub uninterp spec fn uuid_of_text(s: Seq<char>) -> Result<u128, Seq<char>>;

/// The hyphenated lowercase form that `uuid::Uuid` gives an identifier.
pub uninterp spec fn text_of_uuid(id: u128) -> Seq<char>;

/// The instant that `chrono::DateTime::parse_from_rfc3339` reads from a
/// text, or the message of its error.
pub uninterp spec fn instant_of_rfc3339(s: Seq<char>) -> Result<Timestamp, Seq<char>>;

/// The RFC 3339 form that chrono gives an instant; `None` for an instant
/// that chrono cannot hold.
pub uninterp spec fn rfc3339_of_instant(t: Timestamp) -> Option<Seq<char>>;

/// Reads a unique identifier with `uuid::Uuid::parse_str`. The result
/// depends on the text alone.
#[verifier::external_body]
pub(crate) fn parse_uuid(s: &str) -> (r: Result<u128, String>)
    ensures
        uuid_of_text(s@) == (match r {
            Ok(id) => Ok::<u128, Seq<char>>(id),
            Err(m) => Err::<u128, Seq<char>>(m@),
        }),
{
    match uuid::Uuid::parse_str(s) {
        Ok(id) => Ok(id.as_u128()),
        Err(e) => Err(e.to_string()),
    }
}

/// Writes a unique identifier as `uuid::Uuid` displays it. The result
/// depends on the identifier alone.
#[verifier::external_body]
pub(crate) fn format_uuid(id: u128) -> (r: String)
    ensures
        r@ == text_of_uuid(id),
{
    uuid::Uuid::from_u128(id).to_string()
}

/// Reads an instant with `chrono::DateTime::parse_from_rfc3339` and moves
/// it to UTC. The result depends on the text alone.
#[verifier::external_body]
pub(crate) fn parse_rfc3339(s: &str) -> (r: Result<Timestamp, String>)
    ensures
        instant_of_rfc3339(s@) == (match r {
            Ok(t) => Ok::<Timestamp, Seq<char>>(t),
            Err(m) => Err::<Timestamp, Seq<char>>(m@),
        }),
{
    match chrono::DateTime::parse_from_rfc3339(s) {
        Ok(d) => {
            let utc = d.with_timezone(&chrono::Utc);
            Ok(Timestamp { secs: utc.timestamp(), nanos: utc.timestamp_subsec_nanos() })
        },
        Err(e) => Err(e.to_string()),
    }
}

/// Writes an instant with `chrono::DateTime::to_rfc3339`, where
/// `DateTime::from_timestamp` can hold it. The result depends on the
/// instant alone.
#[verifier::external_body]
pub(crate) fn format_rfc3339(t: Timestamp) -> (r: Option<String>)
    ensures
        rfc3339_of_instant(t) == (match r {
            Some(s) => Some(s@),
            None => None,
        }),
{
    chrono::DateTime::from_timestamp(t.secs, t.nanos).map(|d| d.to_rfc3339())
}

/// A task as a row of the store holds it. The three lists come decoded
/// from their JSON text, or with the message of the decoder's error.
#[derive(Debug)]
pub struct TaskRecord {
    pub id: i64,
    pub uuid: String,
    pub description: String,
    pub status: String,
    pub priority: Option<String>,
    pub project: Option<String>,
    pub due_date: Option<String>,
    pub scheduled_date: Option<String>,
    pub start_date: Option<String>,
    pub end_date: Option<String>,
    pub entry_date: String,
    pub modified_date: String,
    pub tags: Result<Vec<String>, String>,
    pub annotations: Result<Vec<Annotation>, String>,
    pub parent_uuid: Option<String>,
    pub depends: Result<Vec<u128>, String>,
    pub recurrence: Option<String>,
    pub effort: Option<i64>,
    pub effort_spent: Option<i64>,
}

/// The fault of an optional date under the name `what`.
pub open spec fn date_fault(date: Option<String>, what: Seq<char>) -> Option<Seq<char>> {
    match date {
        Some(text) => match instant_of_rfc3339(text@) {
            Ok(_) => None,
            Err(m) => Some("Invalid "@ + what + ": "@ + m),
        },
        None => None,
    }
}

/// The instant of an optional date.
pub open spec fn date_value(date: Option<String>) -> Option<Timestamp> {
    match date {
        Some(text) => match instant_of_rfc3339(text@) {
            Ok(t) => Some(t),
            Err(_) => None,
        },
        None => None,
    }
}

/// The fault of an effort: a number outside the range of `u32`.
pub open spec fn effort_fault(effort: Option<i64>) -> Option<Seq<char>> {
    match effort {
        Some(e) => if 0 <= e <= u32::MAX {
            None
        } else {
            Some("Invalid effort: "@ + signed_decimal(e as int))
        },
        None => None,
    }
}

/// The value of an effort.
pub open spec fn effort_value(effort: Option<i64>) -> Option<u32> {
    match effort {
        Some(e) => Some(e as u32),
        None => None,
    }
}

/// The first of two faults.
pub open spec fn or_else(first: Option<Seq<char>>, second: Option<Seq<char>>) -> Option<Seq<char>> {
    match first {
        Some(m) => Some(m),
        None => second,
    }
}

impl TaskRecord {
    /// The fault of the unique identifier.
    pub open spec fn uuid_fault(self) -> Option<Seq<char>> {
        match uuid_of_text(self.uuid@) {
            Ok(_) => None,
            Err(m) => Some("Invalid UUID: "@ + m),
        }
    }

    /// The fault of the status.
    pub open spec fn status_fault(self) -> Option<Seq<char>> {
        match TaskStatus::named(lowercase_of(self.status@)) {
            Some(_) => None,
            None => Some(
                "Invalid status: Validation error: Invalid task status: "@ + self.status@,
            ),
        }
    }

    /// The fault of the priority.
    pub open spec fn priority_fault(self) -> Option<Seq<char>> {
        match self.priority {
            Some(p) => match Priority::read(uppercase_of(p@)) {
                Ok(_) => None,
                Err(m) => Some("Invalid priority: Validation error: "@ + m),
            },
            None => None,
        }
    }

    /// The fault of the lists and of the parent's identifier.
    pub open spec fn list_fault(self) -> Option<Seq<char>> {
        or_else(
            match self.tags {
                Ok(_) => None,
                Err(m) => Some("Invalid tags JSON: "@ + m@),
            },
            or_else(
                match self.annotations {
                    Ok(_) => None,
                    Err(m) => Some("Invalid annotations JSON: "@ + m@),
                },
                or_else(
                    match self.parent_uuid {
                        Some(p) => match uuid_of_text(p@) {
                            Ok(_) => None,
                            Err(m) => Some("Invalid parent UUID: "@ + m),
                        },
                        None => None,
                    },
                    match self.depends {
                        Ok(_) => None,
                        Err(m) => Some("Invalid depends JSON: "@ + m@),
                    },
                ),
            ),
        )
    }

    /// The first fault of the record, in the order of its fields: the
    /// unique identifier, the status, the priority, the six dates, the
    /// tags, the annotations, the parent, the dependencies, the efforts.
    pub open spec fn fault(self) -> Option<Seq<char>> {
        or_else(
            self.uuid_fault(),
            or_else(
                self.status_fault(),
                or_else(
                    self.priority_fault(),
                    or_else(
                        date_fault(self.due_date, "due date"@),
                        or_else(
                            date_fault(self.scheduled_date, "scheduled date"@),
                            or_else(
                                date_fault(self.start_date, "start date"@),
                                or_else(
                                    date_fault(self.end_date, "end date"@),
                                    or_else(
                                        date_fault(Some(self.entry_date), "entry date"@),
                                        or_else(
                                            date_fault(
                                                Some(self.modified_date),
                                                "modified date"@,
                                            ),
                                            or_else(
                                                self.list_fault(),
                                                or_else(
                                                    effort_fault(self.effort),
                                                    effort_fault(self.effort_spent),
                                                ),
                                            ),
                                        ),
                                    ),
                                ),
                            ),
                        ),
                    ),
                ),
            ),
        )
    }

    /// The task that a record without a fault holds: its tags are those of
    /// the record, each once.
    pub open spec fn task(self) -> TaskView {
        TaskView {
            id: Some(self.id),
            uuid: uuid_of_text(self.uuid@)->Ok_0,
            description: self.description@,
            status: TaskStatus::named(lowercase_of(self.status@))->0,
            priority: match self.priority {
                Some(p) => Some(Priority::read(uppercase_of(p@))->Ok_0),
                None => None,
            },
            project: opt_text(self.project),
            due_date: date_value(self.due_date),
            scheduled_date: date_value(self.scheduled_date),
            start_date: date_value(self.start_date),
            end_date: date_value(self.end_date),
            entry_date: instant_of_rfc3339(self.entry_date@)->Ok_0,
            modified_date: instant_of_rfc3339(self.modified_date@)->Ok_0,
            tags: distinct(texts(self.tags->Ok_0@)),
            annotations: annotation_views(self.annotations->Ok_0@),
            parent_uuid: match self.parent_uuid {
                Some(p) => Some(uuid_of_text(p@)->Ok_0),
                None => None,
            },
            depends: self.depends->Ok_0@.to_set(),
            recurrence: opt_text(self.recurrence),
            effort: effort_value(self.effort),
            effort_spent: effort_value(self.effort_spent),
        }
    }
}

fn invalid(prefix: &str, detail: &str) -> (e: EddaError)
    ensures
        e matches EddaError::Task(TaskError::Validation { message }) && message@ == prefix@
            + detail@,
{
    let mut message = prefix.to_owned();
    message.append(detail);
    EddaError::Task(TaskError::Validation { message })
}

/// Reads an optional date of a record, named `what` in the message of a
/// fault.
pub fn read_date(date: &Option<String>, what: &str) -> (r: EddaResult<Option<Timestamp>>)
    ensures
        match date_fault(*date, what@) {
            Some(m) => rejected(r, m),
            None => r == Ok::<Option<Timestamp>, EddaError>(date_value(*date)),
        },
{
    match date {
        Some(text) => match parse_rfc3339(text.as_str()) {
            Ok(t) => Ok(Some(t)),
            Err(m) => {
                let mut prefix = "Invalid ".to_owned();
                prefix.append(what);
                prefix.append(": ");
                let e = invalid(prefix.as_str(), m.as_str());
                assert("Invalid "@ + what@ + ": "@ + m@ =~= prefix@ + m@);
                Err(e)
            },
        },
        None => Ok(None),
    }
}

/// Reads an effort of a record.
pub fn read_effort(effort: Option<i64>) -> (r: EddaResult<Option<u32>>)
    ensures
        match effort_fault(effort) {
            Some(m) => rejected(r, m),
            None => r == Ok::<Option<u32>, EddaError>(effort_value(effort)),
        },
{
    match effort {
        Some(e) => {
            if 0 <= e && e <= 0xFFFF_FFFF {
                Ok(Some(e as u32))
            } else {
                let digits = i64_to_string(e);
                Err(invalid("Invalid effort: ", digits.as_str()))
            }
        },
        None => Ok(None),
    }
}

/// The task that a record holds, or the first fault of the record as a
/// validation error. A tag that the record names more than once is taken
/// once, so that the task holds none twice.
pub fn task_from_record(record: TaskRecord) -> (r: EddaResult<Task>)
    ensures
        match record.fault() {
            Some(m) => rejected(r, m),
            None => r matches Ok(t) && t@ == record.task(),
        },
        r matches Ok(t) ==> t@.tags.no_duplicates(),
{
    let uuid = match parse_uuid(record.uuid.as_str()) {
        Ok(id) => id,
        Err(m) => {
            return Err(invalid("Invalid UUID: ", m.as_str()));
        },
    };
    let status = match TaskStatus::parse(record.status.as_str()) {
        Ok(s) => s,
        Err(e) => {
            let inner = e.to_string();
            let err = invalid("Invalid status: ", inner.as_str());
            assert("Invalid status: "@ + inner@
                =~= "Invalid status: Validation error: Invalid task status: "@
                + record.status@) by {
                reveal_strlit("Invalid status: ");
                reveal_strlit("Validation error: ");
                reveal_strlit("Invalid task status: ");
                reveal_strlit("Invalid status: Validation error: Invalid task status: ");
            }
            return Err(err);
        },
    };
    let priority = match &record.priority {
        Some(p) => match Priority::parse(p.as_str()) {
            Ok(q) => Some(q),
            Err(e) => {
                let inner = e.to_string();
                let err = invalid("Invalid priority: ", inner.as_str());
                assert("Invalid priority: "@ + inner@ =~= "Invalid priority: Validation error: "@
                    + Priority::read(uppercase_of(p@))->Err_0) by {
                    reveal_strlit("Invalid priority: ");
                    reveal_strlit("Validation error: ");
                    reveal_strlit("Invalid priority: Validation error: ");
                }
                return Err(err);
            },
        },
        None => None,
    };
    let due_date = match read_date(&record.due_date, "due date") {
        Ok(d) => d,
        Err(e) => {
            return Err(e);
        },
    };
    let scheduled_date = match read_date(&record.scheduled_date, "scheduled date") {
        Ok(d) => d,
        Err(e) => {
            return Err(e);
        },
    };
    let start_date = match read_date(&record.start_date, "start date") {
        Ok(d) => d,
        Err(e) => {
            return Err(e);
        },
    };
    let end_date = match read_date(&record.end_date, "end date") {
        Ok(d) => d,
        Err(e) => {
            return Err(e);
        },
    };
    let entry_date = match parse_rfc3339(record.entry_date.as_str()) {
        Ok(t) => t,
        Err(m) => {
            let err = invalid("Invalid entry date: ", m.as_str());
            assert("Invalid entry date: "@ + m@ =~= "Invalid "@ + "entry date"@ + ": "@ + m@) by {
                reveal_strlit("Invalid entry date: ");
                reveal_strlit("Invalid ");
                reveal_strlit("entry date");
                reveal_strlit(": ");
            }
            return Err(err);
        },
    };
    let modified_date = match parse_rfc3339(record.modified_date.as_str()) {
        Ok(t) => t,
        Err(m) => {
            let err = invalid("Invalid modified date: ", m.as_str());
            assert("Invalid modified date: "@ + m@ =~= "Invalid "@ + "modified date"@ + ": "@
                + m@) by {
                reveal_strlit("Invalid modified date: ");
                reveal_strlit("Invalid ");
                reveal_strlit("modified date");
                reveal_strlit(": ");
            }
            return Err(err);
        },
    };
    let tags = match &record.tags {
        Ok(t) => distinct_texts(t),
        Err(m) => {
            return Err(invalid("Invalid tags JSON: ", m.as_str()));
        },
    };
    let annotations = match &record.annotations {
        Ok(a) => clone_annotations(a),
        Err(m) => {
            return Err(invalid("Invalid annotations JSON: ", m.as_str()));
        },
    };
    let parent_uuid = match &record.parent_uuid {
        Some(p) => match parse_uuid(p.as_str()) {
            Ok(id) => Some(id),
            Err(m) => {
                return Err(invalid("Invalid parent UUID: ", m.as_str()));
            },
        },
        None => None,
    };
    let depends = match &record.depends {
        Ok(d) => id_set(d),
        Err(m) => {
            return Err(invalid("Invalid depends JSON: ", m.as_str()));
        },
    };
    let effort = match read_effort(record.effort) {
        Ok(e) => e,
        Err(e) => {
            return Err(e);
        },
    };
    let effort_spent = match read_effort(record.effort_spent) {
        Ok(e) => e,
        Err(e) => {
            return Err(e);
        },
    };
    Ok(
        Task {
            id: Some(record.id),
            uuid,
            description: record.description.clone(),
            status,
            priority,
            project: clone_opt_text(&record.project),
            due_date,
            scheduled_date,
            start_date,
            end_date,
            entry_date,
            modified_date,
            tags,
            annotations,
            parent_uuid,
            depends,
            recurrence: clone_opt_text(&record.recurrence),
            effort,
            effort_spent,
        },
    )
}

/// The values that a store binds for a task: the texts of its identifiers,
/// of its status and priority and of its dates.
#[derive(Debug)]
pub struct TaskRow {
    pub uuid: String,
    pub description: String,
    pub status: String,
    pub priority: Option<String>,
    pub project: Option<String>,
    pub due_date: Option<String>,
    pub scheduled_date: Option<String>,
    pub start_date: Option<String>,
    pub end_date: Option<String>,
    pub entry_date: String,
    pub modified_date: String,
    pub parent_uuid: Option<String>,
    pub recurrence: Option<String>,
    pub effort: Option<u32>,
    pub effort_spent: Option<u32>,
}

/// The text of an optional instant; `None` for an instant that is missing
/// or cannot be written.
pub open spec fn date_text(date: Option<Timestamp>) -> Option<Seq<char>> {
    match date {
        Some(t) => rfc3339_of_instant(t),
        None => None,
    }
}

/// Whether an optional instant can be written.
pub open spec fn date_writable(date: Option<Timestamp>) -> bool {
    match date {
        Some(t) => rfc3339_of_instant(t) is Some,
        None => true,
    }
}

/// Whether every instant of a task can be written.
pub open spec fn writable(t: TaskView) -> bool {
    &&& date_writable(t.due_date)
    &&& date_writable(t.scheduled_date)
    &&& date_writable(t.start_date)
    &&& date_writable(t.end_date)
    &&& rfc3339_of_instant(t.entry_date) is Some
    &&& rfc3339_of_instant(t.modified_date) is Some
}

/// Writes an optional instant.
pub fn write_date(date: Option<Timestamp>) -> (r: Option<Option<String>>)
    ensures
        date_writable(date) ==> (r matches Some(text) && opt_text(text) == date_text(date)),
        !date_writable(date) ==> r is None,
{
    match date {
        Some(t) => match format_rfc3339(t) {
            Some(s) => Some(Some(s)),
            None => None,
        },
        None => Some(None),
    }
}

/// The values to bind for a task; `None` where one of its instants cannot
/// be written.
pub fn row_from_task(task: &Task) -> (r: Option<TaskRow>)
    ensures
        writable(task@) ==> (r matches Some(row) && {
            &&& row.uuid@ == text_of_uuid(task@.uuid)
            &&& row.description@ == task@.description
            &&& row.status@ == task@.status.name()
            &&& opt_text(row.priority) == match task@.priority {
                Some(p) => Some(p.label()),
                None => None,
            }
            &&& opt_text(row.project) == task@.project
            &&& opt_text(row.due_date) == date_text(task@.due_date)
            &&& opt_text(row.scheduled_date) == date_text(task@.scheduled_date)
            &&& opt_text(row.start_date) == date_text(task@.start_date)
            &&& opt_text(row.end_date) == date_text(task@.end_date)
            &&& Some(row.entry_date@) == rfc3339_of_instant(task@.entry_date)
            &&& Some(row.modified_date@) == rfc3339_of_instant(task@.modified_date)
            &&& opt_text(row.parent_uuid) == match task@.parent_uuid {
                Some(p) => Some(text_of_uuid(p)),
                None => None,
            }
            &&& opt_text(row.recurrence) == task@.recurrence
            &&& row.effort == task@.effort
            &&& row.effort_spent == task@.effort_spent
        }),
        !writable(task@) ==> r is None,
{
    let due_date = match write_date(task.due_date) {
        Some(d) => d,
        None => {
            return None;
        },
    };
    let scheduled_date = match write_date(task.scheduled_date) {
        Some(d) => d,
        None => {
            return None;
        },
    };
    let start_date = match write_date(task.start_date) {
        Some(d) => d,
        None => {
            return None;
        },
    };
    let end_date = match write_date(task.end_date) {
        Some(d) => d,
        None => {
            return None;
        },
    };
    let entry_date = match format_rfc3339(task.entry_date) {
        Some(d) => d,
        None => {
            return None;
        },
    };
    let modified_date = match format_rfc3339(task.modified_date) {
        Some(d) => d,
        None => {
            return None;
        },
    };
    Some(
        TaskRow {
            uuid: format_uuid(task.uuid),
            description: task.description.clone(),
            status: task.status.to_string(),
            priority: match task.priority {
                Some(p) => Some(p.to_string()),
                None => None,
            },
            project: clone_opt_text(&task.project),
            due_date,
            scheduled_date,
            start_date,
            end_date,
            entry_date,
            modified_date,
            parent_uuid: match task.parent_uuid {
                Some(p) => Some(format_uuid(p)),
                None => None,
            },
            recurrence: clone_opt_text(&task.recurrence),
            effort: task.effort,
            effort_spent: task.effort_spent,
        },
    )
}

/// The texts of the unique identifiers of a list, as a store keeps them.
pub fn format_uuids(ids: &Vec<u128>) -> (r: Vec<String>)
    ensures
        texts(r@) == Seq::new(ids@.len(), |i: int| text_of_uuid(ids@[i])),
{
    let mut r: Vec<String> = Vec::new();
    let mut i: usize = 0;
    while i < ids.len()
        invariant
            i <= ids.len(),
            r.len() == i,
            forall|j: int| 0 <= j < i ==> r@[j]@ == text_of_uuid(ids@[j]),
        decreases ids.len() - i,
    {
        r.push(format_uuid(ids[i]));
        i = i + 1;
    }
    assert(texts(r@) =~= Seq::new(ids@.len(), |i: int| text_of_uuid(ids@[i])));
    r
}

} // verus!
