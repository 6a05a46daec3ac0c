//! The contract of the task store, and the filter of its queries.

use vstd::prelude::*;
use vstd::string::*;
use crate::config::EddaConfig;
use crate::error::EddaResult;
use crate::status::{Priority, TaskStatus};
use crate::task::{Task, TaskView};
use crate::text::{decimal, u64_to_string};

verus! {

/// What a query of the store selects.
#[derive(Debug)]
pub struct TaskFilter {
    pub status: Option<TaskStatus>,
    pub project: Option<String>,
    pub tags: Option<Vec<String>>,
    pub priority: Option<Priority>,
    pub include_deleted: bool,
    pub limit: Option<u32>,
    pub offset: Option<u32>,
}

impl Default for TaskFilter {
    /// The filter that selects every task that is not deleted.
    fn default() -> (f: TaskFilter)
        ensures
            f.status is None,
            f.project is None,
            f.tags is None,
            f.priority is None,
            !f.include_deleted,
            f.limit is None,
            f.offset is None,
    {
        TaskFilter {
            status: None,
            project: None,
            tags: None,
            priority: None,
            include_deleted: false,
            limit: None,
            offset: None,
        }
    }
}

/// The conditions of a query for what a filter selects: deleted tasks are
/// left out unless the filter includes them, and the status, the project
/// and the priority are each compared with a bound value where the filter
/// names one.
pub open spec fn filter_conditions(
    include_deleted: bool,
    status: bool,
    project: bool,
    priority: bool,
) -> Seq<char> {
    (if include_deleted {
        Seq::empty()
    } else {
        " AND status != 'deleted'"@
    }) + (if status {
        " AND status = ?"@
    } else {
        Seq::empty()
    }) + (if project {
        " AND project = ?"@
    } else {
        Seq::empty()
    }) + (if priority {
        " AND priority = ?"@
    } else {
        Seq::empty()
    })
}

/// The limit and the offset of a query, where the filter names them.
pub open spec fn filter_window(limit: Option<u32>, offset: Option<u32>) -> Seq<char> {
    (match limit {
        Some(n) => " LIMIT "@ + decimal(n as nat),
        None => Seq::empty(),
    }) + (match offset {
        Some(n) => " OFFSET "@ + decimal(n as nat),
        None => Seq::empty(),
    })
}

impl TaskFilter {
    /// The conditions of this filter.
    pub open spec fn conditions_text(&self) -> Seq<char> {
        filter_conditions(
            self.include_deleted,
            self.status is Some,
            self.project is Some,
            self.priority is Some,
        )
    }

    /// The conditions of a query for what the filter selects. The values
    /// to bind are the status, the project and the priority, in that
    /// order, as far as the filter names them.
    pub fn conditions(&self) -> (r: String)
        ensures
            r@ == self.conditions_text(),
    {
        let mut r = String::new();
        if !self.include_deleted {
            r.append(" AND status != 'deleted'");
        }
        if self.status.is_some() {
            r.append(" AND status = ?");
        }
        if self.project.is_some() {
            r.append(" AND project = ?");
        }
        if self.priority.is_some() {
            r.append(" AND priority = ?");
        }
        assert(r@ =~= self.conditions_text());
        r
    }

    /// The query that lists what the filter selects, the task modified
    /// last first.
    pub fn list_query(&self) -> (r: String)
        ensures
            r@ == "SELECT * FROM tasks WHERE 1=1"@ + self.conditions_text()
                + " ORDER BY modified_date DESC"@ + filter_window(self.limit, self.offset),
    {
        let mut r = "SELECT * FROM tasks WHERE 1=1".to_owned();
        let conditions = self.conditions();
        r.append(conditions.as_str());
        r.append(" ORDER BY modified_date DESC");
        let ghost ordered = r@;
        match self.limit {
            Some(n) => {
                r.append(" LIMIT ");
                let digits = u64_to_string(n as u64);
                r.append(digits.as_str());
            },
            None => {},
        }
        match self.offset {
            Some(n) => {
                r.append(" OFFSET ");
                let digits = u64_to_string(n as u64);
                r.append(digits.as_str());
            },
            None => {},
        }
        assert(r@ =~= ordered + filter_window(self.limit, self.offset));
        r
    }

    /// The query that counts what the filter selects.
    pub fn count_query(&self) -> (r: String)
        ensures
            r@ == "SELECT COUNT(*) FROM tasks WHERE 1=1"@ + self.conditions_text(),
    {
        let mut r = "SELECT COUNT(*) FROM tasks WHERE 1=1".to_owned();
        let conditions = self.conditions();
        r.append(conditions.as_str());
        r
    }
}

/// A store of tasks. Each method comes with a relation between what the
/// store is asked and what it answers. The relation is the store's own to
/// define, and where a store defines none, every answer is one: the engine
/// and the synchronisation manager promise nothing of an answer, and state
/// for each question which answer they pass on.
pub trait TaskStorage {
    /// Whether `answer` is one that this store gives when it is asked to
    /// keep the new task `task`.
    open spec fn creates(&self, task: TaskView, answer: EddaResult<Task>) -> bool {
        true
    }

    /// Whether `answer` is one that this store gives when it is asked for
    /// the task with the identifier `id`.
    open spec fn finds_by_id(&self, id: i64, answer: EddaResult<Option<Task>>) -> bool {
        true
    }

    /// Whether `answer` is one that this store gives when it is asked for
    /// the task with the unique identifier `uuid`.
    open spec fn finds_by_uuid(&self, uuid: u128, answer: EddaResult<Option<Task>>) -> bool {
        true
    }

    /// Whether `answer` is one that this store gives when it is asked to
    /// keep the new state `task` of a task.
    open spec fn updates(&self, task: TaskView, answer: EddaResult<Task>) -> bool {
        true
    }

    /// Whether `answer` is one that this store gives when it is asked to
    /// remove the task with the identifier `id`.
    open spec fn deletes(&self, id: i64, answer: EddaResult<bool>) -> bool {
        true
    }

    /// Whether `answer` is one that this store gives when it is asked for
    /// the tasks that `filter` selects.
    open spec fn lists(&self, filter: Option<TaskFilter>, answer: EddaResult<Vec<Task>>) -> bool {
        true
    }

    /// Whether `answer` is one that this store gives when it is asked for
    /// the number of tasks that `filter` selects.
    open spec fn counts(&self, filter: Option<TaskFilter>, answer: EddaResult<u64>) -> bool {
        true
    }

    /// Stores a new task and returns it with the identifier it was given.
    fn create_task(&self, task: Task) -> (r: EddaResult<Task>)
        ensures
            self.creates(task@, r),
    ;

    /// The task with the identifier `id`, if the store has it.
    fn get_task_by_id(&self, id: i64) -> (r: EddaResult<Option<Task>>)
        ensures
            self.finds_by_id(id, r),
    ;

    /// The task with the unique identifier `uuid`, if the store has it.
    fn get_task_by_uuid(&self, uuid: u128) -> (r: EddaResult<Option<Task>>)
        ensures
            self.finds_by_uuid(uuid, r),
    ;

    /// Stores the new state of a task and returns it.
    fn update_task(&self, task: Task) -> (r: EddaResult<Task>)
        ensures
            self.updates(task@, r),
    ;

    /// Removes the task with the identifier `id`, and says whether there
    /// was one.
    fn delete_task(&self, id: i64) -> (r: EddaResult<bool>)
        ensures
            self.deletes(id, r),
    ;

    /// The tasks that `filter` selects; without a filter, those that the
    /// default filter selects.
    fn list_tasks(&self, filter: Option<TaskFilter>) -> (r: EddaResult<Vec<Task>>)
        ensures
            self.lists(filter, r),
    ;

    /// The number of tasks that `filter` selects.
    fn count_tasks(&self, filter: Option<TaskFilter>) -> (r: EddaResult<u64>)
        ensures
            self.counts(filter, r),
    ;
}

/// A path with one more component, with `/` between components: a
/// component that begins with a slash stands alone, as does any component
/// after an empty path; otherwise the result is the path, a slash unless
/// the path ends in one, and the component.
pub open spec fn path_join(base: Seq<char>, child: Seq<char>) -> Seq<char> {
    if child.len() > 0 && child[0] == '/' {
        child
    } else if base.len() == 0 {
        child
    } else if base.last() == '/' {
        base + child
    } else {
        base + seq!['/'] + child
    }
}

/// Appends the component `child` to the path `base`.
pub fn join_path(base: &str, child: &str) -> (r: String)
    ensures
        r@ == path_join(base@, child@),
{
    let mut first: Option<char> = None;
    for c in it: child.chars()
        invariant
            it.seq() == child@,
            it.index() == 0 ==> first is None,
            it.index() > 0 ==> first == Some(child@[0]),
    {
        if first.is_none() {
            first = Some(c);
        }
    }
    match first {
        Some(c) => {
            if c == '/' {
                return child.to_owned();
            }
        },
        None => {},
    }
    let mut last: Option<char> = None;
    for c in it: base.chars()
        invariant
            it.seq() == base@,
            it.index() == 0 ==> last is None,
            it.index() > 0 ==> last == Some(base@[it.index() - 1]),
    {
        last = Some(c);
    }
    let mut r = base.to_owned();
    match last {
        None => {},
        Some(c) => {
            if c != '/' {
                r.append("/");
                proof {
                    reveal_strlit("/");
                }
            }
        },
    }
    r.append(child);
    assert(r@ =~= path_join(base@, child@));
    r
}

/// Where the data of an installation lies: the data directory and, below
/// it, the database, the logs, the backups and the cache.
#[derive(Debug)]
pub struct StorageManager {
    config: EddaConfig,
    data_dir: String,
}

impl StorageManager {
    /// The data directory.
    pub closed spec fn root(&self) -> Seq<char> {
        self.data_dir@
    }

    /// The configuration that the layout was made for.
    pub closed spec fn settings(&self) -> crate::config::ConfigView {
        self.config@
    }

    /// The storage layout below the data directory of `config`.
    pub fn new(config: EddaConfig) -> (m: StorageManager)
        ensures
            m.root() == config.data_dir@,
            m.settings() == config@,
    {
        let data_dir = config.data_dir.clone();
        StorageManager { config, data_dir }
    }

    /// The configuration that the layout was made for.
    pub fn config(&self) -> (c: &EddaConfig)
        ensures
            c@ == self.settings(),
    {
        &self.config
    }

    /// The data directory.
    pub fn data_dir(&self) -> (r: &String)
        ensures
            r@ == self.root(),
    {
        &self.data_dir
    }

    /// The database file: `db/edda.db` below the data directory.
    pub fn database_path(&self) -> (r: String)
        ensures
            r@ == path_join(path_join(self.root(), "db"@), "edda.db"@),
    {
        let db = join_path(self.data_dir.as_str(), "db");
        join_path(db.as_str(), "edda.db")
    }

    /// The directory of the database: `db` below the data directory.
    pub fn db_dir(&self) -> (r: String)
        ensures
            r@ == path_join(self.root(), "db"@),
    {
        join_path(self.data_dir.as_str(), "db")
    }

    /// The directory of the logs: `logs` below the data directory.
    pub fn logs_dir(&self) -> (r: String)
        ensures
            r@ == path_join(self.root(), "logs"@),
    {
        join_path(self.data_dir.as_str(), "logs")
    }

    /// The directory of the backups: `backups` below the data directory.
    pub fn backups_dir(&self) -> (r: String)
        ensures
            r@ == path_join(self.root(), "backups"@),
    {
        join_path(self.data_dir.as_str(), "backups")
    }

    /// The directory of the cache: `cache` below the data directory.
    pub fn cache_dir(&self) -> (r: String)
        ensures
            r@ == path_join(self.root(), "cache"@),
    {
        join_path(self.data_dir.as_str(), "cache")
    }

    /// The directories that an initialised installation has: the data
    /// directory, then `db`, `logs`, `backups` and `cache` below it.
    pub fn required_dirs(&self) -> (r: Vec<String>)
        ensures
            r@.len() == 5,
            r@[0]@ == self.root(),
            r@[1]@ == path_join(self.root(), "db"@),
            r@[2]@ == path_join(self.root(), "logs"@),
            r@[3]@ == path_join(self.root(), "backups"@),
            r@[4]@ == path_join(self.root(), "cache"@),
    {
        let mut r: Vec<String> = Vec::new();
        r.push(self.data_dir.clone());
        r.push(self.db_dir());
        r.push(self.logs_dir());
        r.push(self.backups_dir());
        r.push(self.cache_dir());
        r
    }

    /// Whether the installation is initialised, given for each of the
    /// required directories, in their order, whether it exists.
    pub fn is_initialized(&self, present: &[bool]) -> (r: bool)
        ensures
            r == (present@.len() >= 5 && forall|i: int| 0 <= i < 5 ==> present@[i]),
    {
        if present.len() < 5 {
            return false;
        }
        present[0] && present[1] && present[2] && present[3] && present[4]
    }
}

} // verus!
