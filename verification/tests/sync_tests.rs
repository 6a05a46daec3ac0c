use std::cell::{Cell, RefCell};

use edda::cache::{CachedTask, LocalCache, SyncStatus};
use edda::document::Document;
use edda::engine::{children_of, dependents_of, TaskEngine};
use edda::error::{EddaError, EddaResult, SyncError, TaskError};
use edda::manager::{SyncManager, SyncProvider};
use edda::queue::{OfflineQueue, SyncOperation};
use edda::resolver::{ConflictResolution, ConflictResolver};
use edda::status::{Priority, TaskStatus};
use edda::storage::{TaskFilter, TaskStorage};
use edda::task::{Annotation, Task};
use edda::time::Timestamp;

fn at(secs: i64) -> Timestamp {
    Timestamp::new(secs, 0)
}

fn task(description: &str, id: Option<i64>, uuid: u128) -> Task {
    let mut t = Task::create(description.to_string(), uuid, at(0));
    t.id = id;
    t
}

/// A store that keeps its tasks in memory.
struct MemoryStore {
    tasks: RefCell<Vec<Task>>,
    next_id: Cell<i64>,
}

impl MemoryStore {
    fn new() -> Self {
        MemoryStore { tasks: RefCell::new(Vec::new()), next_id: Cell::new(1) }
    }
}

impl TaskStorage for MemoryStore {
    fn create_task(&self, task: Task) -> EddaResult<Task> {
        let mut task = task;
        task.id = Some(self.next_id.get());
        self.next_id.set(self.next_id.get() + 1);
        self.tasks.borrow_mut().push(task.clone());
        Ok(task)
    }

    fn get_task_by_id(&self, id: i64) -> EddaResult<Option<Task>> {
        Ok(self.tasks.borrow().iter().find(|t| t.id == Some(id)).cloned())
    }

    fn get_task_by_uuid(&self, uuid: u128) -> EddaResult<Option<Task>> {
        Ok(self.tasks.borrow().iter().find(|t| t.uuid == uuid).cloned())
    }

    fn update_task(&self, task: Task) -> EddaResult<Task> {
        let mut tasks = self.tasks.borrow_mut();
        match tasks.iter_mut().find(|t| t.id == task.id) {
            Some(slot) => {
                *slot = task.clone();
                Ok(task)
            }
            None => Err(EddaError::Task(TaskError::Validation {
                message: "Task must have an ID to update".to_string(),
            })),
        }
    }

    fn delete_task(&self, id: i64) -> EddaResult<bool> {
        let mut tasks = self.tasks.borrow_mut();
        let before = tasks.len();
        tasks.retain(|t| t.id != Some(id));
        Ok(tasks.len() < before)
    }

    fn list_tasks(&self, filter: Option<TaskFilter>) -> EddaResult<Vec<Task>> {
        let filter = filter.unwrap_or_default();
        Ok(self
            .tasks
            .borrow()
            .iter()
            .filter(|t| filter.include_deleted || t.status != TaskStatus::Deleted)
            .cloned()
            .collect())
    }

    fn count_tasks(&self, filter: Option<TaskFilter>) -> EddaResult<u64> {
        Ok(self.list_tasks(filter)?.len() as u64)
    }
}

/// A store that refuses everything.
struct BrokenStore;

fn broken<T>() -> EddaResult<T> {
    Err(EddaError::Database("down".to_string()))
}

impl TaskStorage for BrokenStore {
    fn create_task(&self, _task: Task) -> EddaResult<Task> {
        broken()
    }

    fn get_task_by_id(&self, _id: i64) -> EddaResult<Option<Task>> {
        broken()
    }

    fn get_task_by_uuid(&self, _uuid: u128) -> EddaResult<Option<Task>> {
        broken()
    }

    fn update_task(&self, _task: Task) -> EddaResult<Task> {
        broken()
    }

    fn delete_task(&self, _id: i64) -> EddaResult<bool> {
        broken()
    }

    fn list_tasks(&self, _filter: Option<TaskFilter>) -> EddaResult<Vec<Task>> {
        broken()
    }

    fn count_tasks(&self, _filter: Option<TaskFilter>) -> EddaResult<u64> {
        broken()
    }
}

/// A provider that records what it is given and fails where told to.
struct ScriptedProvider {
    pushed: RefCell<Vec<String>>,
    remote: Vec<Task>,
    reachable: bool,
    pull_works: bool,
    fail_on: Option<String>,
}

impl ScriptedProvider {
    fn accepting() -> Self {
        ScriptedProvider {
            pushed: RefCell::new(Vec::new()),
            remote: Vec::new(),
            reachable: true,
            pull_works: true,
            fail_on: None,
        }
    }
}

impl SyncProvider for ScriptedProvider {
    fn name(&self) -> String {
        "scripted".to_string()
    }

    fn pull_tasks(&self) -> EddaResult<Vec<Task>> {
        if self.pull_works {
            Ok(self.remote.clone())
        } else {
            Err(EddaError::Sync(SyncError::Network { message: "pull".to_string() }))
        }
    }

    fn push_tasks(&self, tasks: &[Task]) -> EddaResult<()> {
        for t in tasks {
            if Some(&t.description) == self.fail_on.as_ref() {
                return Err(EddaError::Sync(SyncError::Network { message: "refused".to_string() }));
            }
            self.pushed.borrow_mut().push(t.description.clone());
        }
        Ok(())
    }

    fn get_status(&self) -> EddaResult<SyncStatus> {
        Ok(SyncStatus::Completed)
    }

    fn test_connection(&self) -> EddaResult<()> {
        if self.reachable {
            Ok(())
        } else {
            Err(EddaError::Sync(SyncError::Authentication { message: "no token".to_string() }))
        }
    }
}

fn create_op(description: &str, id: i64) -> SyncOperation {
    SyncOperation::CreateTask { task: task(description, Some(id), id as u128), timestamp: at(1) }
}

fn descriptions(ops: &[SyncOperation]) -> Vec<String> {
    ops.iter()
        .map(|op| match op {
            SyncOperation::CreateTask { task, .. } => format!("create {}", task.description),
            SyncOperation::UpdateTask { task, .. } => format!("update {}", task.description),
            SyncOperation::DeleteTask { task_id, .. } => format!("delete {}", task_id),
            SyncOperation::CreateDocument { document, .. } => {
                format!("create doc {}", document.title)
            }
            SyncOperation::UpdateDocument { document, .. } => {
                format!("update doc {}", document.title)
            }
            SyncOperation::DeleteDocument { document_id, .. } => {
                format!("delete doc {}", document_id)
            }
        })
        .collect()
}

fn document(title: &str, id: Option<i64>) -> Document {
    Document {
        id,
        uuid: 1,
        title: title.to_string(),
        content: None,
        content_type: None,
        file_path: None,
        metadata: None,
        created_at: at(0),
        updated_at: at(0),
    }
}

fn status_of(entry: &Option<CachedTask>) -> String {
    match entry {
        Some(e) => match &e.sync_status {
            SyncStatus::Pending => "pending".to_string(),
            SyncStatus::InProgress => "in progress".to_string(),
            SyncStatus::Completed => "completed".to_string(),
            SyncStatus::Failed { error } => format!("failed: {}", error),
        },
        None => "none".to_string(),
    }
}

#[test]
fn test_offline_queue_operations() {
    let mut queue = OfflineQueue::new(10);

    // Test enqueue
    let task = Task::new("Test task".to_string());
    let operation = SyncOperation::CreateTask { task: task.clone(), timestamp: Timestamp::now() };

    assert!(queue.enqueue(operation).is_ok());
    assert_eq!(queue.len(), 1);
    assert!(!queue.is_empty());

    // Test get pending operations
    let operations = queue.get_pending_operations();
    assert_eq!(operations.len(), 1);

    // Test clear
    queue.clear();
    assert!(queue.is_empty());
}

#[test]
fn test_local_cache_operations() {
    let mut cache = LocalCache::new();

    // Test cache task
    let task = Task::new("Test task".to_string());
    cache.cache_task(task.clone(), 1);

    // Test get cached task
    let cached_task = cache.get_cached_task(task.id.unwrap_or(0));
    assert!(cached_task.is_some());

    // Test update sync status
    cache.update_task_sync_status(task.id.unwrap_or(0), SyncStatus::Completed);
    let cached_task = cache.get_cached_task(task.id.unwrap_or(0));
    assert!(matches!(cached_task.unwrap().sync_status, SyncStatus::Completed));
}

#[test]
fn test_conflict_resolution() {
    let resolver = ConflictResolver::new(ConflictResolution::LocalWins);

    let local_task = Task::new("Local task".to_string());
    let mut remote_task = Task::new("Remote task".to_string());
    remote_task.description = "Remote description".to_string();

    // Test local wins strategy
    let resolved = resolver.resolve_task_conflict(&local_task, &remote_task, None);
    assert_eq!(resolved.description, local_task.description);

    // Test remote wins strategy
    let resolved = resolver.resolve_task_conflict(
        &local_task,
        &remote_task,
        Some(ConflictResolution::RemoteWins),
    );
    assert_eq!(resolved.description, remote_task.description);
}

#[test]
fn test_sync_manager_operations() {
    let storage = MemoryStore::new();
    let mut manager = SyncManager::new(storage, 100, ConflictResolution::LocalWins);

    // Test create task
    let task = Task::new("Test task".to_string());
    let created_task = manager.create_task(task).unwrap();
    assert!(created_task.id.is_some());

    // Test get tasks
    let tasks = manager.get_tasks().unwrap();
    assert!(!tasks.is_empty());

    // Test pending operations
    assert!(manager.has_pending_operations());
    assert_eq!(manager.pending_operation_count(), 1);

    // Test sync
    assert!(manager.sync(&ScriptedProvider::accepting()).is_ok());
    assert!(!manager.has_pending_operations());
}

#[test]
fn test_create_task_with_validation() {
    let engine = TaskEngine::new(MemoryStore::new());

    // Test valid task creation
    let task = engine.create_task("Valid task".to_string()).unwrap();
    assert_eq!(task.description, "Valid task");

    // Test invalid task creation
    let result = engine.create_task("".to_string());
    assert!(result.is_err());
    assert!(matches!(result.unwrap_err(), EddaError::Task(TaskError::Validation { .. })));
}

#[test]
fn test_complete_task() {
    let engine = TaskEngine::new(MemoryStore::new());

    let task = engine.create_task("Test task".to_string()).unwrap();
    let task_id = task.id.unwrap();

    let completed_task = engine.complete_task(task_id).unwrap();
    assert_eq!(completed_task.status, TaskStatus::Completed);
    assert!(completed_task.end_date.is_some());
}

#[test]
fn test_start_stop_task() {
    let engine = TaskEngine::new(MemoryStore::new());

    let task = engine.create_task("Test task".to_string()).unwrap();
    let task_id = task.id.unwrap();

    let started_task = engine.start_task(task_id).unwrap();
    assert!(started_task.start_date.is_some());

    let stopped_task = engine.stop_task(task_id).unwrap();
    assert!(stopped_task.start_date.is_none());
}

#[test]
fn test_add_remove_tag() {
    let engine = TaskEngine::new(MemoryStore::new());

    let task = engine.create_task("Test task".to_string()).unwrap();
    let task_id = task.id.unwrap();

    let task_with_tag = engine.add_tag(task_id, "important".to_string()).unwrap();
    assert!(task_with_tag.has_tag("important"));

    let task_without_tag = engine.remove_tag(task_id, "important").unwrap();
    assert!(!task_without_tag.has_tag("important"));
}

#[test]
fn test_annotate_task() {
    let engine = TaskEngine::new(MemoryStore::new());

    let task = engine.create_task("Test task".to_string()).unwrap();
    let task_id = task.id.unwrap();

    let annotated_task = engine.annotate_task(task_id, "This is a note".to_string()).unwrap();
    assert_eq!(annotated_task.annotations.len(), 1);
    assert_eq!(annotated_task.annotations[0].description, "This is a note");
}

#[test]
fn test_status_transitions() {
    let engine = TaskEngine::new(MemoryStore::new());

    let task = engine.create_task("Test task".to_string()).unwrap();
    let mut task = engine.get_task(task.id.unwrap()).unwrap().unwrap();

    task.status = TaskStatus::Completed;
    let updated_task = engine.update_task(task.clone()).unwrap();
    assert_eq!(updated_task.status, TaskStatus::Completed);

    task.status = TaskStatus::Deleted;
    let updated_task = engine.update_task(task).unwrap();
    assert_eq!(updated_task.status, TaskStatus::Deleted);
}

#[test]
fn create_rejects_blank_descriptions() {
    let engine = TaskEngine::new(MemoryStore::new());
    for blank in ["", "   ", "\t\n", "\u{2003}\u{00A0}"] {
        match engine.create_task(blank.to_string()) {
            Err(EddaError::Task(TaskError::Validation { message })) => {
                assert_eq!(message, "Task description cannot be empty");
            }
            _ => panic!("expected a validation error"),
        }
    }
    assert_eq!(engine.count_tasks(None).unwrap(), 0);
    let a = engine.create_task("valid".to_string()).unwrap();
    let b = engine.create_task("valid".to_string()).unwrap();
    assert_eq!(a.status, TaskStatus::Pending);
    assert_ne!(a.uuid, b.uuid);
    assert_ne!(a.id, b.id);
}

#[test]
fn get_rejects_identifiers_that_are_not_positive() {
    let engine = TaskEngine::new(MemoryStore::new());
    for id in [0, -1, i64::MIN] {
        match engine.get_task(id) {
            Err(EddaError::Task(TaskError::Validation { message })) => {
                assert_eq!(message, "Task ID must be positive");
            }
            _ => panic!("expected a validation error"),
        }
    }
    assert!(engine.get_task(1).unwrap().is_none());
}

#[test]
fn operations_on_a_missing_task_say_not_found() {
    let engine = TaskEngine::new(MemoryStore::new());
    let results = vec![
        engine.complete_task(42),
        engine.delete_task(42),
        engine.start_task(42),
        engine.stop_task(42),
        engine.annotate_task(42, "n".to_string()),
        engine.add_tag(42, "t".to_string()),
        engine.remove_tag(42, "t"),
    ];
    for r in results {
        match r {
            Err(EddaError::Task(TaskError::NotFound { id })) => assert_eq!(id, "42"),
            _ => panic!("expected not found"),
        }
    }
    assert!(matches!(engine.get_child_tasks(42), Err(EddaError::Task(TaskError::NotFound { .. }))));
    assert!(matches!(
        engine.get_dependent_tasks(42),
        Err(EddaError::Task(TaskError::NotFound { .. }))
    ));
}

#[test]
fn blank_notes_and_tags_are_rejected() {
    let engine = TaskEngine::new(MemoryStore::new());
    let id = engine.create_task("t".to_string()).unwrap().id.unwrap();
    match engine.annotate_task(id, " ".to_string()) {
        Err(EddaError::Task(TaskError::Validation { message })) => {
            assert_eq!(message, "Annotation description cannot be empty");
        }
        _ => panic!("expected a validation error"),
    }
    match engine.add_tag(id, "".to_string()) {
        Err(EddaError::Task(TaskError::Validation { message })) => {
            assert_eq!(message, "Tag cannot be empty");
        }
        _ => panic!("expected a validation error"),
    }
}

#[test]
fn update_holds_status_changes_to_the_table() {
    let engine = TaskEngine::new(MemoryStore::new());
    let created = engine.create_task("t".to_string()).unwrap();
    let id = created.id.unwrap();
    engine.delete_task(id).unwrap();

    let mut revived = engine.get_task(id).unwrap().unwrap();
    revived.status = TaskStatus::Pending;
    match engine.update_task(revived) {
        Err(EddaError::Task(TaskError::Validation { message })) => {
            assert_eq!(message, "Invalid status transition from deleted to pending");
        }
        _ => panic!("expected a validation error"),
    }
    assert_eq!(engine.get_task(id).unwrap().unwrap().status, TaskStatus::Deleted);

    // the same status is no transition
    let mut same = engine.get_task(id).unwrap().unwrap();
    same.project = Some("p".to_string());
    let updated = engine.update_task(same).unwrap();
    assert_eq!(updated.project, Some("p".to_string()));

    let mut blank = engine.get_task(id).unwrap().unwrap();
    blank.description = "  ".to_string();
    match engine.update_task(blank) {
        Err(EddaError::Task(TaskError::Validation { message })) => {
            assert_eq!(message, "Task description cannot be empty");
        }
        _ => panic!("expected a validation error"),
    }
}

#[test]
fn end_to_end_create_list_complete() {
    let engine = TaskEngine::new(MemoryStore::new());
    let created = engine.create_task("Buy milk".to_string()).unwrap();
    let id = created.id.unwrap();

    let listed = engine.list_tasks(None).unwrap();
    assert_eq!(listed.len(), 1);
    assert_eq!(listed[0].description, "Buy milk");
    assert_eq!(listed[0].status, TaskStatus::Pending);

    engine.complete_task(id).unwrap();
    let fetched = engine.get_task(id).unwrap().unwrap();
    assert_eq!(fetched.status, TaskStatus::Completed);
    assert!(fetched.end_date.is_some());

    match engine.complete_task(id) {
        Err(EddaError::Task(TaskError::InvalidStatusTransition { from, to })) => {
            assert_eq!(from, "completed");
            assert_eq!(to, "completed");
        }
        _ => panic!("expected an invalid transition"),
    }
    assert!(engine.is_valid_status_transition(&TaskStatus::Completed, &TaskStatus::Pending));
    assert!(!engine.is_valid_status_transition(&TaskStatus::Deleted, &TaskStatus::Pending));
}

#[test]
fn store_failures_are_passed_on() {
    let engine = TaskEngine::new(BrokenStore);
    assert!(matches!(engine.create_task("t".to_string()), Err(EddaError::Database(_))));
    assert!(matches!(engine.complete_task(1), Err(EddaError::Database(_))));
    assert!(matches!(engine.get_task_by_uuid(1), Err(EddaError::Database(_))));
    assert!(matches!(engine.list_tasks(None), Err(EddaError::Database(_))));
    let mut manager = SyncManager::new(BrokenStore, 5, ConflictResolution::Merge);
    assert!(manager.create_task(task("t", None, 1)).is_err());
    assert!(manager.update_task(task("t", Some(1), 1)).is_err());
    assert!(manager.delete_task(1).is_err());
    assert!(manager.get_tasks().is_err());
    assert!(!manager.has_pending_operations());
    assert!(manager.cache().get_all_cached_tasks().is_empty());
}

#[test]
fn children_and_dependents_are_selected_in_order() {
    let parent = task("parent", Some(1), 100);
    let mut a = task("a", Some(2), 101);
    a.parent_uuid = Some(100);
    let mut b = task("b", Some(3), 102);
    b.depends.insert(100);
    let mut c = task("c", Some(4), 103);
    c.parent_uuid = Some(100);
    c.depends.insert(5);
    c.depends.insert(100);
    let all = vec![parent.clone(), a.clone(), b.clone(), c.clone()];
    let kids: Vec<String> =
        children_of(all.clone(), 100).iter().map(|t| t.description.clone()).collect();
    assert_eq!(kids, vec!["a".to_string(), "c".to_string()]);
    let deps: Vec<String> =
        dependents_of(all, 100).iter().map(|t| t.description.clone()).collect();
    assert_eq!(deps, vec!["b".to_string(), "c".to_string()]);

    let store = MemoryStore::new();
    let stored_parent = store.create_task(parent).unwrap();
    store.create_task(a).unwrap();
    store.create_task(b).unwrap();
    store.create_task(c).unwrap();
    let engine = TaskEngine::new(store);
    let id = stored_parent.id.unwrap();
    assert_eq!(engine.get_child_tasks(id).unwrap().len(), 2);
    assert_eq!(engine.get_dependent_tasks(id).unwrap().len(), 2);
}

#[test]
fn full_queue_drops_its_oldest_entry() {
    for capacity in 0..5usize {
        let mut queue = OfflineQueue::new(capacity);
        for i in 0..=capacity {
            assert!(queue.enqueue(create_op(&format!("t{}", i), i as i64 + 1)).is_ok());
        }
        assert_eq!(queue.len(), capacity);
        let expected: Vec<String> = (1..=capacity).map(|i| format!("create t{}", i)).collect();
        assert_eq!(descriptions(&queue.get_pending_operations()), expected);
    }
}

#[test]
fn queue_keeps_insertion_order_and_snapshots_do_not_drain() {
    let mut queue = OfflineQueue::new(3);
    queue.enqueue(create_op("a", 1)).unwrap();
    queue.enqueue(SyncOperation::DeleteTask { task_id: 9, timestamp: at(2) }).unwrap();
    queue
        .enqueue(SyncOperation::UpdateDocument { document: document("d", Some(3)), timestamp: at(3) })
        .unwrap();
    let expected = vec!["create a".to_string(), "delete 9".to_string(), "update doc d".to_string()];
    assert_eq!(descriptions(&queue.get_pending_operations()), expected);
    assert_eq!(descriptions(&queue.get_pending_operations()), expected);
    assert_eq!(queue.len(), 3);
}

#[test]
fn remove_operations_removes_the_named_positions() {
    let mut queue = OfflineQueue::new(10);
    for i in 0..6 {
        queue.enqueue(create_op(&format!("t{}", i), i + 1)).unwrap();
    }
    queue.remove_operations(&[4, 1, 1, 17]);
    assert_eq!(
        descriptions(&queue.get_pending_operations()),
        vec!["create t0".to_string(), "create t2".to_string(), "create t3".to_string(), "create t5".to_string()]
    );
    queue.remove_operations(&[]);
    assert_eq!(queue.len(), 4);
    queue.remove_operations(&[0, 1, 2, 3]);
    assert!(queue.is_empty());
}

#[test]
fn cache_overwrites_by_identifier_and_stamps_pending() {
    let mut cache = LocalCache::new();
    cache.cache_task_at(task("a", Some(1), 1), 1, at(10));
    cache.cache_task_at(task("b", Some(2), 2), 1, at(11));
    cache.update_task_sync_status_at(1, SyncStatus::Completed, at(12));
    assert_eq!(status_of(&cache.get_cached_task(1)), "completed");
    assert_eq!(cache.get_cached_task(1).unwrap().last_modified, at(12));

    cache.cache_task_at(task("a2", Some(1), 1), 4, at(13));
    let entry = cache.get_cached_task(1).unwrap();
    assert_eq!(entry.task.description, "a2");
    assert_eq!(entry.version, 4);
    assert_eq!(entry.last_modified, at(13));
    assert_eq!(status_of(&Some(entry)), "pending");

    let mut all: Vec<String> =
        cache.get_all_cached_tasks().iter().map(|e| e.task.description.clone()).collect();
    all.sort();
    assert_eq!(all, vec!["a2".to_string(), "b".to_string()]);

    cache.update_task_sync_status_at(99, SyncStatus::Failed { error: "x".to_string() }, at(14));
    assert!(cache.get_cached_task(99).is_none());
    assert_eq!(cache.get_all_cached_tasks().len(), 2);

    cache.update_task_sync_status_at(2, SyncStatus::Failed { error: "x".to_string() }, at(15));
    assert_eq!(status_of(&cache.get_cached_task(2)), "failed: x");

    // a task that was never stored is cached under 0
    cache.cache_task_at(task("unsaved", None, 3), 1, at(16));
    assert_eq!(cache.get_cached_task(0).unwrap().task.description, "unsaved");
}

#[test]
fn cache_keeps_documents_and_the_last_sync_time() {
    let mut cache = LocalCache::new();
    assert_eq!(cache.get_last_sync(), None);
    cache.set_last_sync(at(5));
    assert_eq!(cache.get_last_sync(), Some(at(5)));
    cache.cache_document_at(document("d1", Some(1)), 1, at(6));
    cache.cache_document(document("d2", Some(2)), 1);
    cache.cache_document_at(document("d1b", Some(1)), 2, at(7));
    assert_eq!(cache.get_cached_document(1).unwrap().document.title, "d1b");
    assert_eq!(cache.get_cached_document(1).unwrap().version, 2);
    assert!(matches!(cache.get_cached_document(1).unwrap().sync_status, SyncStatus::Pending));
    cache.update_document_sync_status_at(1, SyncStatus::InProgress, at(8));
    assert!(matches!(cache.get_cached_document(1).unwrap().sync_status, SyncStatus::InProgress));
    cache.update_document_sync_status(2, SyncStatus::Completed);
    assert!(matches!(cache.get_cached_document(2).unwrap().sync_status, SyncStatus::Completed));
    assert!(cache.get_cached_document(3).is_none());
    assert_eq!(cache.get_all_cached_documents().len(), 2);
    cache.cache_task_at(task("t", Some(1), 1), 1, at(9));
    cache.clear();
    assert!(cache.get_all_cached_documents().is_empty());
    assert!(cache.get_all_cached_tasks().is_empty());
    assert_eq!(cache.get_last_sync(), None);
}

#[test]
fn merge_unites_tags_and_appends_annotations() {
    let resolver = ConflictResolver::new(ConflictResolution::Merge);
    let mut local = task("local", Some(1), 1);
    local.tags = vec!["a".to_string(), "b".to_string()];
    local.annotations.push(Annotation { entry: at(1), description: "x".to_string() });
    local.modified_date = at(10);
    let mut remote = task("remote", Some(1), 1);
    remote.tags = vec!["b".to_string(), "c".to_string()];
    remote.annotations.push(Annotation { entry: at(2), description: "y".to_string() });
    remote.modified_date = at(20);

    let merged = resolver.resolve_task_conflict(&local, &remote, None);
    assert_eq!(merged.description, "local");
    assert_eq!(merged.tags, vec!["a".to_string(), "b".to_string(), "c".to_string()]);
    let notes: Vec<String> = merged.annotations.iter().map(|a| a.description.clone()).collect();
    assert_eq!(notes, vec!["x".to_string(), "y".to_string()]);
    assert_eq!(merged.modified_date, at(20));

    let back = resolver.merge_tasks(&remote, &local);
    assert_eq!(back.tags, vec!["b".to_string(), "c".to_string(), "a".to_string()]);
    assert_eq!(back.modified_date, at(20));
    assert_eq!(back.description, "remote");
}

#[test]
fn merge_takes_the_higher_priority_or_the_one_present() {
    let resolver = ConflictResolver::new(ConflictResolution::Merge);
    let cases = vec![
        (None, None, None),
        (Some(Priority::Low), None, Some(Priority::Low)),
        (None, Some(Priority::Low), Some(Priority::Low)),
        (Some(Priority::Low), Some(Priority::High), Some(Priority::High)),
        (Some(Priority::High), Some(Priority::Medium), Some(Priority::High)),
        (Some(Priority::Medium), Some(Priority::Number(5)), Some(Priority::Medium)),
        (Some(Priority::Number(5)), Some(Priority::Medium), Some(Priority::Number(5))),
        (Some(Priority::Number(9)), Some(Priority::High), Some(Priority::High)),
        (Some(Priority::Number(0)), Some(Priority::Low), Some(Priority::Low)),
    ];
    for (l, r, expected) in cases {
        let mut local = task("l", Some(1), 1);
        local.priority = l;
        let mut remote = task("r", Some(1), 1);
        remote.priority = r;
        assert_eq!(resolver.merge_tasks(&local, &remote).priority, expected);
    }
}

#[test]
fn manual_resolution_takes_the_version_modified_last() {
    let resolver = ConflictResolver::new(ConflictResolution::Manual);
    let mut local = task("local", Some(1), 1);
    let mut remote = task("remote", Some(1), 1);
    local.modified_date = at(5);
    remote.modified_date = at(4);
    assert_eq!(resolver.resolve_task_conflict(&local, &remote, None).description, "local");
    remote.modified_date = at(5);
    assert_eq!(resolver.resolve_task_conflict(&local, &remote, None).description, "remote");
    remote.modified_date = at(6);
    assert_eq!(resolver.resolve_task_conflict(&local, &remote, None).description, "remote");
    assert_eq!(
        resolver
            .resolve_task_conflict(&local, &remote, Some(ConflictResolution::LocalWins))
            .description,
        "local"
    );
}

fn json_object(pairs: &[(&str, i64)]) -> serde_json::Value {
    let mut map = serde_json::Map::new();
    for (k, v) in pairs {
        map.insert(k.to_string(), serde_json::Value::from(*v));
    }
    serde_json::Value::Object(map)
}

#[test]
fn documents_merge_metadata_key_by_key() {
    let resolver = ConflictResolver::new(ConflictResolution::Merge);
    let mut local = document("local", Some(1));
    local.metadata = Some(json_object(&[("a", 1), ("b", 2)]));
    local.updated_at = at(10);
    let mut remote = document("remote", Some(1));
    remote.metadata = Some(json_object(&[("b", 3), ("c", 4)]));
    remote.updated_at = at(20);

    let merged = resolver.resolve_document_conflict(&local, &remote, None);
    assert_eq!(merged.title, "local");
    assert_eq!(merged.updated_at, at(20));
    assert_eq!(merged.metadata, Some(json_object(&[("a", 1), ("b", 3), ("c", 4)])));

    // metadata that is no object on one side leaves the local metadata
    remote.metadata = Some(serde_json::Value::from(7));
    let merged = resolver.merge_documents(&local, &remote);
    assert_eq!(merged.metadata, local.metadata);
    remote.metadata = None;
    let merged = resolver.merge_documents(&local, &remote);
    assert_eq!(merged.metadata, local.metadata);

    local.updated_at = at(30);
    assert_eq!(resolver.merge_documents(&local, &remote).updated_at, at(30));
}

#[test]
fn document_strategies_pick_a_side() {
    let resolver = ConflictResolver::new(ConflictResolution::RemoteWins);
    let mut local = document("local", Some(1));
    local.metadata = Some(json_object(&[("a", 1)]));
    let mut remote = document("remote", Some(1));
    assert_eq!(resolver.resolve_document_conflict(&local, &remote, None).title, "remote");
    let kept = resolver.resolve_document_conflict(
        &local,
        &remote,
        Some(ConflictResolution::LocalWins),
    );
    assert_eq!(kept.title, "local");
    assert_eq!(kept.metadata, local.metadata);
    local.updated_at = at(2);
    remote.updated_at = at(1);
    assert_eq!(
        resolver
            .resolve_document_conflict(&local, &remote, Some(ConflictResolution::Manual))
            .title,
        "local"
    );
    remote.updated_at = at(2);
    assert_eq!(
        resolver
            .resolve_document_conflict(&local, &remote, Some(ConflictResolution::Manual))
            .title,
        "remote"
    );
}

#[test]
fn sync_confirms_three_queued_creations() {
    let mut manager = SyncManager::new(MemoryStore::new(), 10, ConflictResolution::LocalWins);
    let mut ids = Vec::new();
    for name in ["one", "two", "three"] {
        ids.push(manager.create_task(Task::new(name.to_string())).unwrap().id.unwrap());
    }
    assert_eq!(manager.pending_operation_count(), 3);
    for id in &ids {
        assert_eq!(status_of(&manager.cache().get_cached_task(*id)), "pending");
    }
    assert_eq!(manager.get_last_sync_time(), None);

    let provider = ScriptedProvider::accepting();
    assert!(manager.sync(&provider).is_ok());

    assert!(!manager.has_pending_operations());
    assert_eq!(manager.pending_operation_count(), 0);
    for id in &ids {
        assert_eq!(status_of(&manager.cache().get_cached_task(*id)), "completed");
    }
    assert_eq!(
        *provider.pushed.borrow(),
        vec!["one".to_string(), "two".to_string(), "three".to_string()]
    );
    assert!(manager.get_last_sync_time().is_some());
}

#[test]
fn sync_with_nothing_queued_does_nothing() {
    let mut manager = SyncManager::new(MemoryStore::new(), 10, ConflictResolution::LocalWins);
    let mut provider = ScriptedProvider::accepting();
    provider.reachable = false;
    assert!(manager.sync(&provider).is_ok());
    assert_eq!(manager.get_last_sync_time(), None);
}

#[test]
fn sync_pushes_every_operation_and_keeps_the_refused_ones_queued() {
    let mut manager = SyncManager::new(MemoryStore::new(), 10, ConflictResolution::LocalWins);
    let a = manager.create_task(Task::new("a".to_string())).unwrap().id.unwrap();
    let b = manager.create_task(Task::new("b".to_string())).unwrap().id.unwrap();
    let c = manager.create_task(Task::new("c".to_string())).unwrap().id.unwrap();

    let mut provider = ScriptedProvider::accepting();
    provider.fail_on = Some("b".to_string());
    match manager.sync(&provider) {
        Err(EddaError::Sync(SyncError::Network { message })) => assert_eq!(message, "refused"),
        _ => panic!("expected the provider's error"),
    }
    assert_eq!(*provider.pushed.borrow(), vec!["a".to_string(), "c".to_string()]);
    assert_eq!(
        descriptions(&manager.queue().get_pending_operations()),
        vec!["create b".to_string()]
    );
    assert_eq!(status_of(&manager.cache().get_cached_task(a)), "completed");
    assert_eq!(
        status_of(&manager.cache().get_cached_task(b)),
        "failed: Sync error: Network error: refused"
    );
    assert_eq!(status_of(&manager.cache().get_cached_task(c)), "completed");

    // a later pass takes up what was left
    let retry = ScriptedProvider::accepting();
    assert!(manager.sync(&retry).is_ok());
    assert_eq!(*retry.pushed.borrow(), vec!["b".to_string()]);
    assert!(!manager.has_pending_operations());
    assert_eq!(status_of(&manager.cache().get_cached_task(b)), "completed");
}

#[test]
fn sync_keeps_a_refused_first_operation_alone() {
    let mut manager = SyncManager::new(MemoryStore::new(), 10, ConflictResolution::LocalWins);
    let first = manager.create_task(Task::new("first".to_string())).unwrap().id.unwrap();
    let second = manager.create_task(Task::new("second".to_string())).unwrap().id.unwrap();

    let mut provider = ScriptedProvider::accepting();
    provider.fail_on = Some("first".to_string());
    assert!(manager.sync(&provider).is_err());
    assert_eq!(*provider.pushed.borrow(), vec!["second".to_string()]);
    assert_eq!(
        descriptions(&manager.queue().get_pending_operations()),
        vec!["create first".to_string()]
    );
    assert_eq!(
        status_of(&manager.cache().get_cached_task(first)),
        "failed: Sync error: Network error: refused"
    );
    assert_eq!(status_of(&manager.cache().get_cached_task(second)), "completed");
}

#[test]
fn sync_returns_the_first_refusal_and_keeps_the_refused_in_order() {
    let mut manager = SyncManager::new(MemoryStore::new(), 10, ConflictResolution::LocalWins);
    for name in ["a", "refuse", "b", "refuse", "c"] {
        manager.create_task(Task::new(name.to_string())).unwrap();
    }
    assert!(manager.delete_task(1).unwrap());
    let provider = CountingProvider { batches: RefCell::new(Vec::new()) };
    match manager.sync(&provider) {
        Err(EddaError::Sync(SyncError::Conflict { message })) => assert_eq!(message, "no"),
        _ => panic!("expected the first refusal"),
    }
    assert_eq!(provider.batches.borrow().len(), 5);
    assert_eq!(
        descriptions(&manager.queue().get_pending_operations()),
        vec!["create refuse".to_string(), "create refuse".to_string()]
    );
    assert_eq!(manager.pending_operation_count(), 2);
    assert_eq!(
        status_of(&manager.cache().get_cached_task(2)),
        "failed: Sync error: Conflict resolution failed: no"
    );
    assert_eq!(
        status_of(&manager.cache().get_cached_task(4)),
        "failed: Sync error: Conflict resolution failed: no"
    );
    assert_eq!(status_of(&manager.cache().get_cached_task(3)), "completed");
    assert_eq!(status_of(&manager.cache().get_cached_task(5)), "completed");
}

#[test]
fn sync_changes_nothing_when_the_provider_cannot_be_reached() {
    let mut manager = SyncManager::new(MemoryStore::new(), 10, ConflictResolution::LocalWins);
    let id = manager.create_task(Task::new("a".to_string())).unwrap().id.unwrap();
    let mut provider = ScriptedProvider::accepting();
    provider.reachable = false;
    assert!(matches!(
        manager.sync(&provider),
        Err(EddaError::Sync(SyncError::Authentication { .. }))
    ));
    assert_eq!(manager.pending_operation_count(), 1);
    assert_eq!(status_of(&manager.cache().get_cached_task(id)), "pending");
    assert_eq!(manager.get_last_sync_time(), None);

    let mut provider = ScriptedProvider::accepting();
    provider.pull_works = false;
    assert!(matches!(manager.sync(&provider), Err(EddaError::Sync(SyncError::Network { .. }))));
    assert_eq!(manager.pending_operation_count(), 1);
    assert_eq!(manager.get_last_sync_time(), None);
    assert!(provider.pushed.borrow().is_empty());
}

#[test]
fn sync_takes_remote_tasks_into_the_cache() {
    let mut manager = SyncManager::new(MemoryStore::new(), 10, ConflictResolution::Merge);
    let mut local = Task::new("local".to_string());
    local.tags = vec!["a".to_string()];
    let created = manager.create_task(local).unwrap();
    let id = created.id.unwrap();

    let mut remote = created.clone();
    remote.description = "remote".to_string();
    remote.tags = vec!["b".to_string()];
    let mut unknown = task("new remote", Some(77), 77);
    unknown.tags = vec!["z".to_string()];
    let mut provider = ScriptedProvider::accepting();
    provider.remote = vec![remote, unknown];

    assert!(manager.sync(&provider).is_ok());
    let entry = manager.cache().get_cached_task(id).unwrap();
    assert_eq!(entry.task.description, "local");
    assert_eq!(entry.task.tags, vec!["a".to_string(), "b".to_string()]);
    assert_eq!(entry.version, 2);
    assert!(matches!(entry.sync_status, SyncStatus::Completed));
    let taken = manager.cache().get_cached_task(77).unwrap();
    assert_eq!(taken.task.description, "new remote");
    assert_eq!(taken.version, 1);
    assert!(matches!(taken.sync_status, SyncStatus::Pending));
}

#[test]
fn update_and_delete_are_queued_in_order() {
    let mut manager = SyncManager::new(MemoryStore::new(), 10, ConflictResolution::LocalWins);
    let mut created = manager.create_task(Task::new("a".to_string())).unwrap();
    let id = created.id.unwrap();
    created.description = "a2".to_string();
    manager.update_task(created).unwrap();
    assert!(manager.delete_task(id).unwrap());
    assert!(!manager.delete_task(id).unwrap());
    assert_eq!(
        descriptions(&manager.queue().get_pending_operations()),
        vec!["create a".to_string(), "update a2".to_string(), format!("delete {}", id)]
    );
    assert_eq!(manager.cache().get_cached_task(id).unwrap().task.description, "a2");

    let provider = ScriptedProvider::accepting();
    assert!(manager.sync(&provider).is_ok());
    assert_eq!(*provider.pushed.borrow(), vec!["a".to_string(), "a2".to_string()]);
    assert!(!manager.has_pending_operations());
}

#[test]
fn get_tasks_reads_the_cache_first_and_fills_it_from_the_store() {
    let store = MemoryStore::new();
    store.create_task(task("stored one", None, 1)).unwrap();
    store.create_task(task("stored two", None, 2)).unwrap();
    let mut manager = SyncManager::new(store, 10, ConflictResolution::LocalWins);
    assert!(manager.cache().get_all_cached_tasks().is_empty());
    let tasks = manager.get_tasks().unwrap();
    assert_eq!(tasks.len(), 2);
    assert_eq!(manager.cache().get_all_cached_tasks().len(), 2);
    assert!(!manager.has_pending_operations());

    manager.create_task(task("new", None, 3)).unwrap();
    let mut names: Vec<String> =
        manager.get_tasks().unwrap().iter().map(|t| t.description.clone()).collect();
    names.sort();
    assert_eq!(names, vec!["new".to_string(), "stored one".to_string(), "stored two".to_string()]);
}

#[test]
fn manager_queue_is_bounded() {
    let mut manager = SyncManager::new(MemoryStore::new(), 2, ConflictResolution::LocalWins);
    for name in ["a", "b", "c"] {
        manager.create_task(Task::new(name.to_string())).unwrap();
    }
    assert_eq!(manager.pending_operation_count(), 2);
    assert_eq!(
        descriptions(&manager.queue().get_pending_operations()),
        vec!["create b".to_string(), "create c".to_string()]
    );
    assert_eq!(manager.cache().get_all_cached_tasks().len(), 3);
}

#[test]
fn provider_contract_is_callable() {
    let provider = ScriptedProvider::accepting();
    assert_eq!(provider.name(), "scripted");
    assert!(matches!(provider.get_status(), Ok(SyncStatus::Completed)));
    assert!(SyncManager::<MemoryStore>::push_operation(
        &provider,
        &SyncOperation::DeleteTask { task_id: 1, timestamp: at(0) }
    )
    .is_ok());
    assert!(provider.pushed.borrow().is_empty());
}

/// A provider that records how many tasks each push hands over.
struct CountingProvider {
    batches: RefCell<Vec<Vec<String>>>,
}

impl SyncProvider for CountingProvider {
    fn name(&self) -> String {
        "counting".to_string()
    }

    fn pull_tasks(&self) -> EddaResult<Vec<Task>> {
        Ok(Vec::new())
    }

    fn push_tasks(&self, tasks: &[Task]) -> EddaResult<()> {
        self.batches.borrow_mut().push(tasks.iter().map(|t| t.description.clone()).collect());
        if tasks.iter().any(|t| t.description == "refuse") {
            Err(EddaError::Sync(SyncError::Conflict { message: "no".to_string() }))
        } else {
            Ok(())
        }
    }

    fn get_status(&self) -> EddaResult<SyncStatus> {
        Ok(SyncStatus::Pending)
    }

    fn test_connection(&self) -> EddaResult<()> {
        Ok(())
    }
}

#[test]
fn push_hands_over_the_task_of_the_operation_alone() {
    let provider = CountingProvider { batches: RefCell::new(Vec::new()) };
    assert!(SyncManager::<MemoryStore>::push_operation(&provider, &create_op("a", 1)).is_ok());
    let update = SyncOperation::UpdateTask { task: task("b", Some(2), 2), timestamp: at(1) };
    assert!(SyncManager::<MemoryStore>::push_operation(&provider, &update).is_ok());
    match SyncManager::<MemoryStore>::push_operation(&provider, &create_op("refuse", 3)) {
        Err(EddaError::Sync(SyncError::Conflict { message })) => assert_eq!(message, "no"),
        _ => panic!("expected the provider's answer"),
    }
    let document_op =
        SyncOperation::CreateDocument { document: document("d", Some(1)), timestamp: at(1) };
    assert!(SyncManager::<MemoryStore>::push_operation(&provider, &document_op).is_ok());
    let removal = SyncOperation::DeleteDocument { document_id: 4, timestamp: at(1) };
    assert!(SyncManager::<MemoryStore>::push_operation(&provider, &removal).is_ok());
    assert_eq!(
        *provider.batches.borrow(),
        vec![vec!["a".to_string()], vec!["b".to_string()], vec!["refuse".to_string()]]
    );
}

#[test]
fn engine_passes_the_answers_of_the_store_on() {
    let store = MemoryStore::new();
    let kept = store.create_task(task("kept", None, 41)).unwrap();
    let mut gone = task("gone", None, 42);
    gone.status = TaskStatus::Deleted;
    store.create_task(gone).unwrap();
    let engine = TaskEngine::new(store);

    let found = engine.get_task_by_uuid(41).unwrap().unwrap();
    assert_eq!(found.id, kept.id);
    assert_eq!(found.description, "kept");
    assert!(engine.get_task_by_uuid(43).unwrap().is_none());

    let listed = engine.list_tasks(None).unwrap();
    assert_eq!(listed.len(), 1);
    assert_eq!(listed[0].description, "kept");
    let mut all = TaskFilter::default();
    all.include_deleted = true;
    assert_eq!(engine.list_tasks(Some(all)).unwrap().len(), 2);

    assert_eq!(engine.count_tasks(None).unwrap(), 1);
    let mut all = TaskFilter::default();
    all.include_deleted = true;
    assert_eq!(engine.count_tasks(Some(all)).unwrap(), 2);
    assert_eq!(engine.storage().count_tasks(None).unwrap(), 1);
}

#[test]
fn manager_returns_the_answers_of_the_store() {
    let mut manager = SyncManager::new(MemoryStore::new(), 10, ConflictResolution::LocalWins);
    let created = manager.create_task(task("a", None, 5)).unwrap();
    assert_eq!(created.id, Some(1));
    assert_eq!(created.uuid, 5);
    assert_eq!(created.description, "a");

    let mut changed = created.clone();
    changed.description = "b".to_string();
    let updated = manager.update_task(changed).unwrap();
    assert_eq!(updated.id, Some(1));
    assert_eq!(updated.description, "b");

    // the store knows no task without an identifier
    match manager.update_task(task("stray", None, 6)) {
        Err(EddaError::Task(TaskError::Validation { message })) => {
            assert_eq!(message, "Task must have an ID to update");
        }
        _ => panic!("expected the store's answer"),
    }
    assert_eq!(manager.pending_operation_count(), 2);

    assert_eq!(manager.delete_task(1).unwrap(), true);
    assert_eq!(manager.delete_task(1).unwrap(), false);
    assert_eq!(manager.pending_operation_count(), 3);
}
