//! The task engine: validation and the status rules in front of a store.

use vstd::prelude::*;
use vstd::std_specs::hash::*;
use vstd::string::*;
use crate::error::{EddaError, EddaResult, TaskError};
use crate::status::TaskStatus;
use crate::storage::{TaskFilter, TaskStorage};
use crate::task::{Task, TaskView};
use crate::text::{blank, i64_to_string, is_blank, signed_decimal};
use crate::time::Timestamp;

verus! {

broadcast use vstd::std_specs::hash::group_hash_axioms;

/// The models of a sequence of tasks.
pub open spec fn task_views(v: Seq<Task>) -> Seq<TaskView> {
    Seq::new(v.len(), |i: int| v[i]@)
}

/// The members of a sequence that satisfy `pred`, in order.
pub open spec fn keep<A>(s: Seq<A>, pred: spec_fn(A) -> bool) -> Seq<A>
    decreases s.len(),
{
    if s.len() == 0 {
        s
    } else if pred(s.last()) {
        keep(s.drop_last(), pred).push(s.last())
    } else {
        keep(s.drop_last(), pred)
    }
}

/// Whether `e` is the validation error with the message `message`.
pub open spec fn is_validation(e: EddaError, message: Seq<char>) -> bool {
    e matches EddaError::Task(TaskError::Validation { message: m }) && m@ == message
}

/// Whether `e` says that no task has the identifier `id`.
pub open spec fn is_not_found(e: EddaError, id: i64) -> bool {
    e matches EddaError::Task(TaskError::NotFound { id: text }) && text@ == signed_decimal(
        id as int,
    )
}

/// Whether `r` is the validation error with the message `message`.
pub open spec fn rejected<T>(r: EddaResult<T>, message: Seq<char>) -> bool {
    r matches Err(e) && is_validation(e, message)
}

/// The message for a change of status that the transition table forbids.
pub open spec fn transition_message(from: TaskStatus, to: TaskStatus) -> Seq<char> {
    "Invalid status transition from "@ + from.name() + " to "@ + to.name()
}

fn validation(message: &str) -> (e: EddaError)
    ensures
        is_validation(e, message@),
{
    EddaError::Task(TaskError::Validation { message: message.to_owned() })
}

/// Rejects a blank text with the validation error `message`.
pub fn require_text(text: &str, message: &str) -> (r: EddaResult<()>)
    ensures
        blank(text@) ==> rejected(r, message@),
        !blank(text@) ==> r is Ok,
{
    if is_blank(text) {
        Err(validation(message))
    } else {
        Ok(())
    }
}

/// Rejects an identifier that is not positive.
pub fn require_id(id: i64) -> (r: EddaResult<()>)
    ensures
        id <= 0 ==> rejected(r, "Task ID must be positive"@),
        id > 0 ==> r is Ok,
{
    if id <= 0 {
        Err(validation("Task ID must be positive"))
    } else {
        Ok(())
    }
}

/// The task that the store answered with, or the error that the store has
/// no task `id`.
pub fn require_found(fetched: Option<Task>, id: i64) -> (r: EddaResult<Task>)
    ensures
        match fetched {
            Some(task) => r == Ok::<Task, EddaError>(task),
            None => r matches Err(e) && is_not_found(e, id),
        },
{
    match fetched {
        Some(task) => Ok(task),
        None => Err(EddaError::Task(TaskError::NotFound { id: i64_to_string(id) })),
    }
}

/// Decides an update: the description must not be blank, and where the
/// stored task has another status than the requested one, the transition
/// table must allow the change.
pub fn check_update(existing: &Option<Task>, task: &Task) -> (r: EddaResult<()>)
    ensures
        blank(task@.description) ==> rejected(r, "Task description cannot be empty"@),
        !blank(task@.description) ==> match *existing {
            Some(stored) => if stored@.status == task@.status || stored@.status.can_become(
                task@.status,
            ) {
                r is Ok
            } else {
                rejected(r, transition_message(stored@.status, task@.status),
                )
            },
            None => r is Ok,
        },
{
    if is_blank(task.description.as_str()) {
        return Err(validation("Task description cannot be empty"));
    }
    match existing {
        Some(stored) => {
            if stored.status != task.status && !stored.status.can_transition_to(&task.status) {
                let mut message = "Invalid status transition from ".to_owned();
                message.append(stored.status.as_str());
                message.append(" to ");
                message.append(task.status.as_str());
                assert(message@ =~= transition_message(stored@.status, task@.status));
                Err(EddaError::Task(TaskError::Validation { message }))
            } else {
                Ok(())
            }
        },
        None => Ok(()),
    }
}

/// Whether `e` says that a task cannot move from `from` to `to`.
pub open spec fn is_transition_error(e: EddaError, from: TaskStatus, to: Seq<char>) -> bool {
    e matches EddaError::Task(TaskError::InvalidStatusTransition { from: f, to: t }) && f@
        == from.name() && t@ == to
}

/// Why the engine refuses an operation on a task before the store is
/// asked to keep anything.
pub ghost enum Refusal {
    /// The store has no task with the identifier.
    NotFound { id: i64 },
    /// The task's status does not allow the move.
    Transition { from: TaskStatus, to: Seq<char> },
    /// The input is not valid.
    Invalid { message: Seq<char> },
}

/// Whether `e` is the error of the refusal `why`.
pub open spec fn is_refusal(e: EddaError, why: Refusal) -> bool {
    match why {
        Refusal::NotFound { id } => is_not_found(e, id),
        Refusal::Transition { from, to } => is_transition_error(e, from, to),
        Refusal::Invalid { message } => is_validation(e, message),
    }
}

/// Whether `r` carries out `plan`: it is the planned task, or the error of
/// the refusal.
pub open spec fn follows(r: EddaResult<Task>, plan: Result<TaskView, Refusal>) -> bool {
    match plan {
        Ok(task) => r matches Ok(t) && t@ == task,
        Err(why) => r matches Err(e) && is_refusal(e, why),
    }
}

/// The model of an optional task.
pub open spec fn view_of(found: Option<Task>) -> Option<TaskView> {
    match found {
        Some(task) => Some(task@),
        None => None,
    }
}

/// The model of the task that a store found, if it found one.
pub open spec fn found_view(found: EddaResult<Option<Task>>) -> Option<TaskView> {
    match found {
        Ok(Some(task)) => Some(task@),
        _ => None,
    }
}

/// The identifier under which a task is looked up: its own, or 0 while it
/// has none.
pub open spec fn lookup_id(task: TaskView) -> i64 {
    match task.id {
        Some(id) => id,
        None => 0,
    }
}

/// The task that was found, or the refusal that there is none.
pub open spec fn found_plan(found: Option<TaskView>, id: i64) -> Result<TaskView, Refusal> {
    match found {
        Some(task) => Ok(task),
        None => Err(Refusal::NotFound { id }),
    }
}

/// Completing the task that was found under `id`: the completed task, or
/// the refusal that there is no such task or that its status does not
/// allow it.
pub open spec fn complete_plan(found: Option<TaskView>, id: i64, now: Timestamp) -> Result<
    TaskView,
    Refusal,
> {
    match found {
        Some(task) => if task.status.can_become(TaskStatus::Completed) {
            Ok(task.completed(now))
        } else {
            Err(Refusal::Transition { from: task.status, to: "completed"@ })
        },
        None => Err(Refusal::NotFound { id }),
    }
}

/// Deleting the task that was found under `id`.
pub open spec fn delete_plan(found: Option<TaskView>, id: i64, now: Timestamp) -> Result<
    TaskView,
    Refusal,
> {
    match found {
        Some(task) => if task.status.can_become(TaskStatus::Deleted) {
            Ok(task.deleted(now))
        } else {
            Err(Refusal::Transition { from: task.status, to: "deleted"@ })
        },
        None => Err(Refusal::NotFound { id }),
    }
}

/// Starting the task that was found under `id`.
pub open spec fn start_plan(found: Option<TaskView>, id: i64, now: Timestamp) -> Result<
    TaskView,
    Refusal,
> {
    match found {
        Some(task) => if task.status.active() {
            Ok(task.started(now))
        } else {
            Err(Refusal::Transition { from: task.status, to: "started"@ })
        },
        None => Err(Refusal::NotFound { id }),
    }
}

/// Stopping the task that was found under `id`.
pub open spec fn stop_plan(found: Option<TaskView>, id: i64, now: Timestamp) -> Result<
    TaskView,
    Refusal,
> {
    match found {
        Some(task) => Ok(task.stopped(now)),
        None => Err(Refusal::NotFound { id }),
    }
}

/// Annotating the task that was found under `id` with `note`.
pub open spec fn annotate_plan(
    found: Option<TaskView>,
    id: i64,
    note: Seq<char>,
    now: Timestamp,
) -> Result<TaskView, Refusal> {
    match found {
        Some(task) => Ok(task.annotated(note, now)),
        None => Err(Refusal::NotFound { id }),
    }
}

/// Tagging the task that was found under `id` with `tag`.
pub open spec fn tag_plan(found: Option<TaskView>, id: i64, tag: Seq<char>, now: Timestamp)
    -> Result<TaskView, Refusal> {
    match found {
        Some(task) => Ok(task.with_tag(tag, now)),
        None => Err(Refusal::NotFound { id }),
    }
}

/// Taking the tag `tag` from the task that was found under `id`.
pub open spec fn untag_plan(found: Option<TaskView>, id: i64, tag: Seq<char>, now: Timestamp)
    -> Result<TaskView, Refusal> {
    match found {
        Some(task) => Ok(task.without_tag(tag, now)),
        None => Err(Refusal::NotFound { id }),
    }
}

/// Updating a task to `task`, `existing` being what the store holds under
/// its identifier: the description must not be blank, and where the stored
/// task has another status than the requested one, the transition table
/// must allow the change; the task is then stored with its modification
/// timestamp moved to `now`.
pub open spec fn update_plan(existing: Option<TaskView>, task: TaskView, now: Timestamp) -> Result<
    TaskView,
    Refusal,
> {
    if blank(task.description) {
        Err(Refusal::Invalid { message: "Task description cannot be empty"@ })
    } else {
        match existing {
            Some(stored) => if stored.status == task.status || stored.status.can_become(
                task.status,
            ) {
                Ok(task.touched(now))
            } else {
                Err(Refusal::Invalid { message: transition_message(stored.status, task.status) })
            },
            None => Ok(task.touched(now)),
        }
    }
}

/// What completing the fetched task `id` at `now` gives: the completed
/// task to store, or the error that there is no such task or that its
/// status does not allow it.
pub fn complete_fetched(fetched: Option<Task>, id: i64, now: Timestamp) -> (r: EddaResult<Task>)
    ensures
        follows(r, complete_plan(view_of(fetched), id, now)),
{
    match require_found(fetched, id) {
        Err(e) => Err(e),
        Ok(task) => {
            let mut task = task;
            match task.complete_at(now) {
                Err(e) => Err(EddaError::Task(e)),
                Ok(()) => Ok(task),
            }
        },
    }
}

/// What deleting the fetched task `id` at `now` gives: the deleted task
/// to store, or the error that there is no such task or that it is
/// deleted already.
pub fn delete_fetched(fetched: Option<Task>, id: i64, now: Timestamp) -> (r: EddaResult<Task>)
    ensures
        follows(r, delete_plan(view_of(fetched), id, now)),
{
    match require_found(fetched, id) {
        Err(e) => Err(e),
        Ok(task) => {
            let mut task = task;
            match task.delete_at(now) {
                Err(e) => Err(EddaError::Task(e)),
                Ok(()) => Ok(task),
            }
        },
    }
}

/// What starting the fetched task `id` at `now` gives: the started task
/// to store, or the error that there is no such task or that it is
/// neither pending nor waiting.
pub fn start_fetched(fetched: Option<Task>, id: i64, now: Timestamp) -> (r: EddaResult<Task>)
    ensures
        follows(r, start_plan(view_of(fetched), id, now)),
{
    match require_found(fetched, id) {
        Err(e) => Err(e),
        Ok(task) => {
            let mut task = task;
            match task.start_at(now) {
                Err(e) => Err(EddaError::Task(e)),
                Ok(()) => Ok(task),
            }
        },
    }
}

/// What stopping the fetched task `id` at `now` gives: the task without
/// its start timestamp, or the error that there is no such task.
pub fn stop_fetched(fetched: Option<Task>, id: i64, now: Timestamp) -> (r: EddaResult<Task>)
    ensures
        follows(r, stop_plan(view_of(fetched), id, now)),
{
    match require_found(fetched, id) {
        Err(e) => Err(e),
        Ok(task) => {
            let mut task = task;
            task.stop_at(now);
            Ok(task)
        },
    }
}

/// What annotating the fetched task `id` at `now` gives: the task with
/// the note as its last annotation, or the error that there is no such
/// task.
pub fn annotate_fetched(fetched: Option<Task>, id: i64, note: String, now: Timestamp) -> (r:
    EddaResult<Task>)
    ensures
        follows(r, annotate_plan(view_of(fetched), id, note@, now)),
{
    match require_found(fetched, id) {
        Err(e) => Err(e),
        Ok(task) => {
            let mut task = task;
            task.add_annotation_at(note, now);
            Ok(task)
        },
    }
}

/// What tagging the fetched task `id` at `now` gives: the task with the
/// tag, or the error that there is no such task.
pub fn tag_fetched(fetched: Option<Task>, id: i64, tag: String, now: Timestamp) -> (r: EddaResult<
    Task,
>)
    ensures
        follows(r, tag_plan(view_of(fetched), id, tag@, now)),
{
    match require_found(fetched, id) {
        Err(e) => Err(e),
        Ok(task) => {
            let mut task = task;
            task.add_tag_at(tag, now);
            Ok(task)
        },
    }
}

/// What untagging the fetched task `id` at `now` gives: the task without
/// the tag, or the error that there is no such task.
pub fn untag_fetched(fetched: Option<Task>, id: i64, tag: &str, now: Timestamp) -> (r: EddaResult<
    Task,
>)
    ensures
        follows(r, untag_plan(view_of(fetched), id, tag@, now)),
{
    match require_found(fetched, id) {
        Err(e) => Err(e),
        Ok(task) => {
            let mut task = task;
            task.remove_tag_at(tag, now);
            Ok(task)
        },
    }
}

/// What updating a task at `now` gives, `existing` being what the store
/// holds under its identifier: the task with its modification timestamp
/// moved to `now`, or the validation error of `check_update`.
pub fn update_checked(existing: &Option<Task>, task: Task, now: Timestamp) -> (r: EddaResult<Task>)
    ensures
        follows(r, update_plan(view_of(*existing), task@, now)),
{
    match check_update(existing, &task) {
        Err(e) => Err(e),
        Ok(()) => {
            let mut task = task;
            task.touch(now);
            Ok(task)
        },
    }
}

/// The test for a task whose parent is the task `uuid`.
pub open spec fn child_of(uuid: u128) -> spec_fn(TaskView) -> bool {
    |t: TaskView| t.parent_uuid == Some(uuid)
}

/// The test for a task that depends on the task `uuid`.
pub open spec fn dependent_on(uuid: u128) -> spec_fn(TaskView) -> bool {
    |t: TaskView| t.depends.contains(uuid)
}

/// How a task can be related to another.
pub ghost enum Relation {
    /// It is a child of the other task.
    Child,
    /// It depends on the other task.
    Dependent,
}

/// The test for a task that stands in `relation` to the task `uuid`.
pub open spec fn related(relation: Relation, uuid: u128) -> spec_fn(TaskView) -> bool {
    match relation {
        Relation::Child => child_of(uuid),
        Relation::Dependent => dependent_on(uuid),
    }
}

/// The tasks of `all` whose parent is the task `uuid`, in order.
pub fn children_of(all: Vec<Task>, uuid: u128) -> (r: Vec<Task>)
    ensures
        task_views(r@) == keep(task_views(all@), child_of(uuid)),
{
    let ghost pred = child_of(uuid);
    let mut r: Vec<Task> = Vec::new();
    let mut i: usize = 0;
    while i < all.len()
        invariant
            i <= all.len(),
            pred == child_of(uuid),
            task_views(r@) == keep(task_views(all@).take(i as int), pred),
        decreases all.len() - i,
    {
        let ghost prefix = task_views(all@).take(i as int + 1);
        assert(prefix.drop_last() =~= task_views(all@).take(i as int));
        assert(prefix.last() == all@[i as int]@);
        let is_child = match all[i].parent_uuid {
            Some(parent) => parent == uuid,
            None => false,
        };
        assert(is_child == pred(all@[i as int]@));
        if is_child {
            let ghost earlier = task_views(r@);
            r.push(all[i].clone());
            assert(task_views(r@) =~= earlier.push(all@[i as int]@));
        }
        i = i + 1;
    }
    assert(task_views(all@).take(all.len() as int) =~= task_views(all@));
    r
}

/// The tasks of `all` that depend on the task `uuid`, in order.
pub fn dependents_of(all: Vec<Task>, uuid: u128) -> (r: Vec<Task>)
    ensures
        task_views(r@) == keep(task_views(all@), dependent_on(uuid)),
{
    let ghost pred = dependent_on(uuid);
    let mut r: Vec<Task> = Vec::new();
    let mut i: usize = 0;
    while i < all.len()
        invariant
            i <= all.len(),
            pred == dependent_on(uuid),
            task_views(r@) == keep(task_views(all@).take(i as int), pred),
        decreases all.len() - i,
    {
        let ghost prefix = task_views(all@).take(i as int + 1);
        assert(prefix.drop_last() =~= task_views(all@).take(i as int));
        assert(prefix.last() == all@[i as int]@);
        let depends = all[i].depends.contains(&uuid);
        assert(depends == pred(all@[i as int]@));
        if depends {
            let ghost earlier = task_views(r@);
            r.push(all[i].clone());
            assert(task_views(r@) =~= earlier.push(all@[i as int]@));
        }
        i = i + 1;
    }
    assert(task_views(all@).take(all.len() as int) =~= task_views(all@));
    r
}

/// Whether `r` is what the engine returns for a task that it looks up
/// before it changes it: `found` being the store's answer to the lookup
/// and `plan` what the engine decides on that answer, the result is the
/// store's error; or the error of the refusal; or the store's answer when
/// it is asked to keep the planned task.
pub open spec fn passes_on<S: TaskStorage>(
    store: S,
    found: EddaResult<Option<Task>>,
    plan: Result<TaskView, Refusal>,
    r: EddaResult<Task>,
) -> bool {
    match found {
        Err(e) => r == Err::<Task, EddaError>(e),
        Ok(_) => match plan {
            Ok(task) => store.updates(task, r),
            Err(why) => r matches Err(e) && is_refusal(e, why),
        },
    }
}

/// Whether `r` is what the engine returns for a lookup that the store
/// answered with `found`: the store's error, the task it found, or the
/// error that there is no task `id`.
pub open spec fn fetched_as(found: EddaResult<Option<Task>>, id: i64, r: EddaResult<Task>) -> bool {
    match found {
        Err(e) => r == Err::<Task, EddaError>(e),
        Ok(Some(task)) => r == Ok::<Task, EddaError>(task),
        Ok(None) => r matches Err(e) && is_not_found(e, id),
    }
}

/// Whether `r` is what the engine returns for the tasks related to the
/// task `id`: `found` being the store's answer to the lookup of that task
/// and `listed` its answer when asked for all tasks, the result is the
/// first error among the two, or the error that there is no task `id`, or
/// the listed tasks that stand in `relation` to the task found.
pub open spec fn selects<S: TaskStorage>(
    store: S,
    found: EddaResult<Option<Task>>,
    listed: EddaResult<Vec<Task>>,
    id: i64,
    relation: Relation,
    r: EddaResult<Vec<Task>>,
) -> bool {
    match found {
        Err(e) => r == Err::<Vec<Task>, EddaError>(e),
        Ok(None) => r matches Err(e) && is_not_found(e, id),
        Ok(Some(task)) => store.lists(None::<TaskFilter>, listed) && match listed {
            Err(e) => r == Err::<Vec<Task>, EddaError>(e),
            Ok(all) => r matches Ok(v) && task_views(v@) == keep(
                task_views(all@),
                related(relation, task@.uuid),
            ),
        },
    }
}

/// Task management on top of a store: every input is validated and every
/// change of status held to the transition table before the store is
/// asked to keep anything.
pub struct TaskEngine<S: TaskStorage> {
    storage: S,
}

impl<S: TaskStorage> TaskEngine<S> {
    /// The store behind the engine.
    pub closed spec fn store(&self) -> S {
        self.storage
    }

    /// An engine in front of `storage`.
    pub fn new(storage: S) -> (engine: TaskEngine<S>)
        ensures
            engine.store() == storage,
    {
        TaskEngine { storage }
    }

    /// The store, for reading.
    pub fn storage(&self) -> (s: &S)
        ensures
            *s == self.store(),
    {
        &self.storage
    }

    /// Whether the transition table allows a task to move from `from` to
    /// `to`.
    pub fn is_valid_status_transition(&self, from: &TaskStatus, to: &TaskStatus) -> (r: bool)
        ensures
            r == from.can_become(*to),
    {
        from.can_transition_to(to)
    }

    /// Stores a new pending task. A blank description is rejected before
    /// the store is asked. Otherwise the store is asked to keep a fresh
    /// task with that description, a random unique identifier and the
    /// clock's reading as its timestamps, and its answer is the result.
    pub fn create_task(&self, description: String) -> (r: EddaResult<Task>)
        ensures
            blank(description@) ==> rejected(r, "Task description cannot be empty"@),
            !blank(description@) ==> exists|task: TaskView|
                task == TaskView::fresh(description@, task.uuid, task.entry_date) && task.uuid
                    != 0 && #[trigger] self.store().creates(task, r),
    {
        match require_text(description.as_str(), "Task description cannot be empty") {
            Err(e) => Err(e),
            Ok(()) => {
                let task = Task::new(description);
                let ghost fresh = task@;
                let r = self.storage.create_task(task);
                assert(self.store().creates(fresh, r));
                r
            },
        }
    }

    /// The task `id`. An identifier that is not positive is rejected before
    /// the store is asked; otherwise the store is asked for the task, and
    /// its answer is the result.
    pub fn get_task(&self, id: i64) -> (r: EddaResult<Option<Task>>)
        ensures
            id <= 0 ==> rejected(r, "Task ID must be positive"@),
            id > 0 ==> self.store().finds_by_id(id, r),
    {
        match require_id(id) {
            Err(e) => Err(e),
            Ok(()) => self.storage.get_task_by_id(id),
        }
    }

    /// The task with the unique identifier `uuid`: what the store answers
    /// when it is asked for it.
    pub fn get_task_by_uuid(&self, uuid: u128) -> (r: EddaResult<Option<Task>>)
        ensures
            self.store().finds_by_uuid(uuid, r),
    {
        self.storage.get_task_by_uuid(uuid)
    }

    /// The stored task `id`: the task that the store finds, the store's
    /// error, or the error that there is none.
    pub fn fetch_task(&self, id: i64) -> (r: EddaResult<Task>)
        ensures
            id <= 0 ==> rejected(r, "Task ID must be positive"@),
            id > 0 ==> exists|found: EddaResult<Option<Task>>|
                self.store().finds_by_id(id, found) && #[trigger] fetched_as(found, id, r),
    {
        let found = self.get_task(id);
        let ghost answer = found;
        let r = match found {
            Err(e) => Err(e),
            Ok(fetched) => require_found(fetched, id),
        };
        assert(id > 0 ==> self.store().finds_by_id(id, answer) && fetched_as(answer, id, r));
        r
    }

    /// Stores the new state of `task`. A blank description is rejected
    /// before the store is asked. Otherwise the store is asked for the
    /// task under the same identifier; the update is rejected where the
    /// stored task has another status from which the transition table does
    /// not lead to the requested one; and otherwise the store is asked to
    /// keep the task with its modification timestamp moved to the clock's
    /// reading, and its answer is the result.
    pub fn update_task(&self, task: Task) -> (r: EddaResult<Task>)
        ensures
            blank(task@.description) ==> rejected(r, "Task description cannot be empty"@),
            !blank(task@.description) ==> exists|
                found: EddaResult<Option<Task>>,
                now: Timestamp,
            |
                self.store().finds_by_id(lookup_id(task@), found) && #[trigger] passes_on(
                    self.store(),
                    found,
                    update_plan(found_view(found), task@, now),
                    r,
                ),
    {
        let key: i64 = match task.id {
            Some(id) => id,
            None => 0,
        };
        if is_blank(task.description.as_str()) {
            return Err(validation("Task description cannot be empty"));
        }
        let ghost requested = task@;
        let found = self.storage.get_task_by_id(key);
        let now = Timestamp::now();
        let ghost answer = found;
        let r = match found {
            Err(e) => Err(e),
            Ok(existing) => {
                match update_checked(&existing, task, now) {
                    Err(e) => Err(e),
                    Ok(task) => self.storage.update_task(task),
                }
            },
        };
        assert(passes_on(self.store(), answer, update_plan(found_view(answer), requested, now), r));
        r
    }

    /// Completes the task `id`: the store is asked for the task and then,
    /// unless the task is missing or cannot be completed, to keep the
    /// completed task; its answer is the result.
    pub fn complete_task(&self, id: i64) -> (r: EddaResult<Task>)
        ensures
            id <= 0 ==> rejected(r, "Task ID must be positive"@),
            id > 0 ==> exists|found: EddaResult<Option<Task>>, now: Timestamp|
                self.store().finds_by_id(id, found) && #[trigger] passes_on(
                    self.store(),
                    found,
                    complete_plan(found_view(found), id, now),
                    r,
                ),
    {
        let found = self.get_task(id);
        let now = Timestamp::now();
        let ghost answer = found;
        let r = match found {
            Err(e) => Err(e),
            Ok(fetched) => {
                match complete_fetched(fetched, id, now) {
                    Err(e) => Err(e),
                    Ok(task) => self.storage.update_task(task),
                }
            },
        };
        assert(id > 0 ==> passes_on(
            self.store(),
            answer,
            complete_plan(found_view(answer), id, now),
            r,
        ));
        r
    }

    /// Marks the task `id` as deleted: the store is asked for the task and
    /// then, unless the task is missing or deleted already, to keep the
    /// deleted task; its answer is the result.
    pub fn delete_task(&self, id: i64) -> (r: EddaResult<Task>)
        ensures
            id <= 0 ==> rejected(r, "Task ID must be positive"@),
            id > 0 ==> exists|found: EddaResult<Option<Task>>, now: Timestamp|
                self.store().finds_by_id(id, found) && #[trigger] passes_on(
                    self.store(),
                    found,
                    delete_plan(found_view(found), id, now),
                    r,
                ),
    {
        let found = self.get_task(id);
        let now = Timestamp::now();
        let ghost answer = found;
        let r = match found {
            Err(e) => Err(e),
            Ok(fetched) => {
                match delete_fetched(fetched, id, now) {
                    Err(e) => Err(e),
                    Ok(task) => self.storage.update_task(task),
                }
            },
        };
        assert(id > 0 ==> passes_on(
            self.store(),
            answer,
            delete_plan(found_view(answer), id, now),
            r,
        ));
        r
    }

    /// Starts time tracking for the task `id`: the store is asked for the
    /// task and then, unless the task is missing or neither pending nor
    /// waiting, to keep the started task; its answer is the result.
    pub fn start_task(&self, id: i64) -> (r: EddaResult<Task>)
        ensures
            id <= 0 ==> rejected(r, "Task ID must be positive"@),
            id > 0 ==> exists|found: EddaResult<Option<Task>>, now: Timestamp|
                self.store().finds_by_id(id, found) && #[trigger] passes_on(
                    self.store(),
                    found,
                    start_plan(found_view(found), id, now),
                    r,
                ),
    {
        let found = self.get_task(id);
        let now = Timestamp::now();
        let ghost answer = found;
        let r = match found {
            Err(e) => Err(e),
            Ok(fetched) => {
                match start_fetched(fetched, id, now) {
                    Err(e) => Err(e),
                    Ok(task) => self.storage.update_task(task),
                }
            },
        };
        assert(id > 0 ==> passes_on(
            self.store(),
            answer,
            start_plan(found_view(answer), id, now),
            r,
        ));
        r
    }

    /// Stops time tracking for the task `id`: the store is asked for the
    /// task and then, unless the task is missing, to keep it without its
    /// start timestamp; its answer is the result.
    pub fn stop_task(&self, id: i64) -> (r: EddaResult<Task>)
        ensures
            id <= 0 ==> rejected(r, "Task ID must be positive"@),
            id > 0 ==> exists|found: EddaResult<Option<Task>>, now: Timestamp|
                self.store().finds_by_id(id, found) && #[trigger] passes_on(
                    self.store(),
                    found,
                    stop_plan(found_view(found), id, now),
                    r,
                ),
    {
        let found = self.get_task(id);
        let now = Timestamp::now();
        let ghost answer = found;
        let r = match found {
            Err(e) => Err(e),
            Ok(fetched) => {
                match stop_fetched(fetched, id, now) {
                    Err(e) => Err(e),
                    Ok(task) => self.storage.update_task(task),
                }
            },
        };
        assert(id > 0 ==> passes_on(
            self.store(),
            answer,
            stop_plan(found_view(answer), id, now),
            r,
        ));
        r
    }

    /// Adds a note to the task `id`. A blank note is rejected before the
    /// store is asked. Otherwise the store is asked for the task and then,
    /// unless the task is missing, to keep it with the note; its answer is
    /// the result.
    pub fn annotate_task(&self, id: i64, description: String) -> (r: EddaResult<Task>)
        ensures
            blank(description@) ==> rejected(r, "Annotation description cannot be empty"@),
            !blank(description@) && id <= 0 ==> rejected(r, "Task ID must be positive"@),
            !blank(description@) && id > 0 ==> exists|
                found: EddaResult<Option<Task>>,
                now: Timestamp,
            |
                self.store().finds_by_id(id, found) && #[trigger] passes_on(
                    self.store(),
                    found,
                    annotate_plan(found_view(found), id, description@, now),
                    r,
                ),
    {
        match require_text(description.as_str(), "Annotation description cannot be empty") {
            Err(e) => Err(e),
            Ok(()) => {
                let found = self.get_task(id);
                let now = Timestamp::now();
                let ghost answer = found;
                let ghost note = description@;
                let r = match found {
                    Err(e) => Err(e),
                    Ok(fetched) => {
                        match annotate_fetched(fetched, id, description, now) {
                            Err(e) => Err(e),
                            Ok(task) => self.storage.update_task(task),
                        }
                    },
                };
                assert(id > 0 ==> passes_on(
                    self.store(),
                    answer,
                    annotate_plan(found_view(answer), id, note, now),
                    r,
                ));
                r
            },
        }
    }

    /// Adds a tag to the task `id`. A blank tag is rejected before the
    /// store is asked. Otherwise the store is asked for the task and then,
    /// unless the task is missing, to keep it with the tag; its answer is
    /// the result.
    pub fn add_tag(&self, id: i64, tag: String) -> (r: EddaResult<Task>)
        ensures
            blank(tag@) ==> rejected(r, "Tag cannot be empty"@),
            !blank(tag@) && id <= 0 ==> rejected(r, "Task ID must be positive"@),
            !blank(tag@) && id > 0 ==> exists|found: EddaResult<Option<Task>>, now: Timestamp|
                self.store().finds_by_id(id, found) && #[trigger] passes_on(
                    self.store(),
                    found,
                    tag_plan(found_view(found), id, tag@, now),
                    r,
                ),
    {
        match require_text(tag.as_str(), "Tag cannot be empty") {
            Err(e) => Err(e),
            Ok(()) => {
                let found = self.get_task(id);
                let now = Timestamp::now();
                let ghost answer = found;
                let ghost name = tag@;
                let r = match found {
                    Err(e) => Err(e),
                    Ok(fetched) => {
                        match tag_fetched(fetched, id, tag, now) {
                            Err(e) => Err(e),
                            Ok(task) => self.storage.update_task(task),
                        }
                    },
                };
                assert(id > 0 ==> passes_on(
                    self.store(),
                    answer,
                    tag_plan(found_view(answer), id, name, now),
                    r,
                ));
                r
            },
        }
    }

    /// Removes a tag from the task `id`: the store is asked for the task
    /// and then, unless the task is missing, to keep it without the tag;
    /// its answer is the result.
    pub fn remove_tag(&self, id: i64, tag: &str) -> (r: EddaResult<Task>)
        ensures
            id <= 0 ==> rejected(r, "Task ID must be positive"@),
            id > 0 ==> exists|found: EddaResult<Option<Task>>, now: Timestamp|
                self.store().finds_by_id(id, found) && #[trigger] passes_on(
                    self.store(),
                    found,
                    untag_plan(found_view(found), id, tag@, now),
                    r,
                ),
    {
        let found = self.get_task(id);
        let now = Timestamp::now();
        let ghost answer = found;
        let r = match found {
            Err(e) => Err(e),
            Ok(fetched) => {
                match untag_fetched(fetched, id, tag, now) {
                    Err(e) => Err(e),
                    Ok(task) => self.storage.update_task(task),
                }
            },
        };
        assert(id > 0 ==> passes_on(
            self.store(),
            answer,
            untag_plan(found_view(answer), id, tag@, now),
            r,
        ));
        r
    }

    /// The tasks that `filter` selects: what the store answers when it is
    /// asked for them.
    pub fn list_tasks(&self, filter: Option<TaskFilter>) -> (r: EddaResult<Vec<Task>>)
        ensures
            self.store().lists(filter, r),
    {
        self.storage.list_tasks(filter)
    }

    /// The number of tasks that `filter` selects: what the store answers
    /// when it is asked for it.
    pub fn count_tasks(&self, filter: Option<TaskFilter>) -> (r: EddaResult<u64>)
        ensures
            self.store().counts(filter, r),
    {
        self.storage.count_tasks(filter)
    }

    /// The tasks whose parent is the task `parent_id`: the store is asked
    /// for that task and then for all tasks, without a filter, and those
    /// of them are returned whose parent it is.
    pub fn get_child_tasks(&self, parent_id: i64) -> (r: EddaResult<Vec<Task>>)
        ensures
            parent_id <= 0 ==> rejected(r, "Task ID must be positive"@),
            parent_id > 0 ==> exists|
                found: EddaResult<Option<Task>>,
                listed: EddaResult<Vec<Task>>,
            |
                self.store().finds_by_id(parent_id, found) && #[trigger] selects(
                    self.store(),
                    found,
                    listed,
                    parent_id,
                    Relation::Child,
                    r,
                ),
    {
        let found = self.get_task(parent_id);
        let ghost answer = found;
        match found {
            Err(e) => {
                let r = Err(e);
                assert(parent_id > 0 ==> selects(
                    self.store(),
                    answer,
                    arbitrary(),
                    parent_id,
                    Relation::Child,
                    r,
                ));
                r
            },
            Ok(None) => {
                let r = match require_found(None, parent_id) {
                    Err(e) => Err(e),
                    Ok(_) => Ok(Vec::new()),
                };
                assert(parent_id > 0 ==> selects(
                    self.store(),
                    answer,
                    arbitrary(),
                    parent_id,
                    Relation::Child,
                    r,
                ));
                r
            },
            Ok(Some(parent)) => {
                let listed = self.storage.list_tasks(None);
                let ghost all = listed;
                let r = match listed {
                    Err(e) => Err(e),
                    Ok(tasks) => Ok(children_of(tasks, parent.uuid)),
                };
                assert(parent_id > 0 ==> selects(
                    self.store(),
                    answer,
                    all,
                    parent_id,
                    Relation::Child,
                    r,
                ));
                r
            },
        }
    }

    /// The tasks that depend on the task `task_id`: the store is asked for
    /// that task and then for all tasks, without a filter, and those of
    /// them are returned that depend on it.
    pub fn get_dependent_tasks(&self, task_id: i64) -> (r: EddaResult<Vec<Task>>)
        ensures
            task_id <= 0 ==> rejected(r, "Task ID must be positive"@),
            task_id > 0 ==> exists|
                found: EddaResult<Option<Task>>,
                listed: EddaResult<Vec<Task>>,
            |
                self.store().finds_by_id(task_id, found) && #[trigger] selects(
                    self.store(),
                    found,
                    listed,
                    task_id,
                    Relation::Dependent,
                    r,
                ),
    {
        let found = self.get_task(task_id);
        let ghost answer = found;
        match found {
            Err(e) => {
                let r = Err(e);
                assert(task_id > 0 ==> selects(
                    self.store(),
                    answer,
                    arbitrary(),
                    task_id,
                    Relation::Dependent,
                    r,
                ));
                r
            },
            Ok(None) => {
                let r = match require_found(None, task_id) {
                    Err(e) => Err(e),
                    Ok(_) => Ok(Vec::new()),
                };
                assert(task_id > 0 ==> selects(
                    self.store(),
                    answer,
                    arbitrary(),
                    task_id,
                    Relation::Dependent,
                    r,
                ));
                r
            },
            Ok(Some(task)) => {
                let listed = self.storage.list_tasks(None);
                let ghost all = listed;
                let r = match listed {
                    Err(e) => Err(e),
                    Ok(tasks) => Ok(dependents_of(tasks, task.uuid)),
                };
                assert(task_id > 0 ==> selects(
                    self.store(),
                    answer,
                    all,
                    task_id,
                    Relation::Dependent,
                    r,
                ));
                r
            },
        }
    }
}

} // verus!
