//! The synchronisation manager: every local mutation goes to the store, then
//! to the cache and the queue; a synchronisation pass pulls the remote
//! changes, pushes the queued operations in order, and settles both.

use vstd::prelude::*;
use crate::cache::{
    cache_key, cached_task_views, lists_all, CacheView, CachedTask, CachedTaskView, LocalCache,
    SyncStatus,
    SyncStatusView, lemma_with_task, lemma_with_task_status, lemma_with_document_status,
};
use crate::engine::task_views;
use crate::error::{EddaError, EddaResult};
use crate::queue::{
    enqueued, index_set, operation_views, unlisted, OfflineQueue, SyncOperation, SyncOperationView,
};
use crate::resolver::{resolved_task, ConflictResolution, ConflictResolver};
use crate::storage::{TaskFilter, TaskStorage};
use crate::task::{Task, TaskView};
use crate::time::Timestamp;

verus! {

/// A remote tracker. Nothing is promised of what an implementation
/// answers: the manager states what it does with each answer. Of a push it
/// also states what it hands over, by a relation that is the provider's
/// own to define and that holds of every answer where a provider defines
/// none.
pub trait SyncProvider {
    /// Whether `answer` is one that this provider gives when it is asked
    /// to create or update `tasks` on the remote side.
    open spec fn pushes(&self, tasks: Seq<TaskView>, answer: EddaResult<()>) -> bool {
        true
    }

    /// The name of the provider.
    fn name(&self) -> String;

    /// The remote tasks, as local task values.
    fn pull_tasks(&self) -> EddaResult<Vec<Task>>;

    /// Creates or updates each of `tasks` on the remote side.
    fn push_tasks(&self, tasks: &[Task]) -> (r: EddaResult<()>)
        ensures
            self.pushes(task_views(tasks@), r),
    ;

    /// A summary of the provider's health.
    fn get_status(&self) -> EddaResult<SyncStatus>;

    /// Succeeds where the remote side can be reached, and fails fast
    /// where it cannot.
    fn test_connection(&self) -> EddaResult<()>;
}

/// The model of a [`SyncManager`]: its queue with the queue's capacity,
/// and its cache.
pub ghost struct ManagerView {
    pub queue: Seq<SyncOperationView>,
    pub capacity: nat,
    pub cache: CacheView,
}

impl ManagerView {
    /// The manager after `operation` is queued.
    pub open spec fn queued(self, operation: SyncOperationView) -> ManagerView {
        ManagerView { queue: enqueued(self.queue, self.capacity, operation), ..self }
    }

    /// The manager after the store has kept a new task: the task is cached
    /// in its first version and its creation queued.
    pub open spec fn after_create(
        self,
        task: TaskView,
        cached_at: Timestamp,
        queued_at: Timestamp,
    ) -> ManagerView {
        ManagerView { cache: self.cache.with_task(task, 1, cached_at), ..self }.queued(
            SyncOperationView::CreateTask { task, timestamp: queued_at },
        )
    }

    /// The manager after the store has kept a changed task: the task is
    /// cached anew and its update queued.
    pub open spec fn after_update(
        self,
        task: TaskView,
        cached_at: Timestamp,
        queued_at: Timestamp,
    ) -> ManagerView {
        ManagerView { cache: self.cache.with_task(task, 1, cached_at), ..self }.queued(
            SyncOperationView::UpdateTask { task, timestamp: queued_at },
        )
    }

    /// The manager after the store has removed a task: the removal is
    /// queued, and the cache stays as it is.
    pub open spec fn after_delete(self, task_id: i64, queued_at: Timestamp) -> ManagerView {
        self.queued(SyncOperationView::DeleteTask { task_id, timestamp: queued_at })
    }
}

/// The tasks of the cached entries, in the order of the entries.
pub open spec fn cached_tasks(entries: Seq<CachedTaskView>) -> Seq<TaskView> {
    Seq::new(entries.len(), |i: int| entries[i].task)
}

/// Whether `tasks` are the tasks that the cache holds: the task of every
/// entry, once, in some order.
pub open spec fn is_cached_list(cache: CacheView, tasks: Seq<TaskView>) -> bool {
    exists|entries: Seq<CachedTaskView>|
        #[trigger] lists_all(cache.tasks, entries) && tasks == cached_tasks(entries)
}

/// The cache after each of `tasks` is cached in turn at `now`.
pub open spec fn with_tasks(cache: CacheView, tasks: Seq<TaskView>, version: u64, now: Timestamp)
    -> CacheView
    decreases tasks.len(),
{
    if tasks.len() == 0 {
        cache
    } else {
        with_tasks(cache, tasks.drop_last(), version, now).with_task(tasks.last(), version, now)
    }
}

/// The cache after the entry that `operation` speaks of takes `status`.
pub open spec fn marked(
    cache: CacheView,
    operation: SyncOperationView,
    status: SyncStatusView,
    now: Timestamp,
) -> CacheView {
    match operation {
        SyncOperationView::CreateTask { task, .. } => cache.with_task_status(
            cache_key(task.id),
            status,
            now,
        ),
        SyncOperationView::UpdateTask { task, .. } => cache.with_task_status(
            cache_key(task.id),
            status,
            now,
        ),
        SyncOperationView::DeleteTask { task_id, .. } => cache.with_task_status(
            task_id,
            status,
            now,
        ),
        SyncOperationView::CreateDocument { document, .. } => cache.with_document_status(
            cache_key(document.id),
            status,
            now,
        ),
        SyncOperationView::UpdateDocument { document, .. } => cache.with_document_status(
            cache_key(document.id),
            status,
            now,
        ),
        SyncOperationView::DeleteDocument { document_id, .. } => cache.with_document_status(
            document_id,
            status,
            now,
        ),
    }
}

/// The cache after each of `operations` is confirmed in turn.
pub open spec fn confirmed_all(
    cache: CacheView,
    operations: Seq<SyncOperationView>,
    now: Timestamp,
) -> CacheView
    decreases operations.len(),
{
    if operations.len() == 0 {
        cache
    } else {
        marked(
            confirmed_all(cache, operations.drop_last(), now),
            operations.last(),
            SyncStatusView::Completed,
            now,
        )
    }
}

/// The version after `version`; the counter stays at its greatest value.
pub open spec fn next_version(version: u64) -> u64 {
    if version < u64::MAX {
        (version + 1) as u64
    } else {
        version
    }
}

/// The cache after one remote task is taken in: where the cache has an
/// entry under the task's identifier, the conflict between the cached and
/// the remote version is resolved and the result cached in the next
/// version; otherwise the remote task is cached in its first version.
pub open spec fn refreshed(
    cache: CacheView,
    remote: TaskView,
    strategy: ConflictResolution,
    now: Timestamp,
) -> CacheView {
    match cache.task(cache_key(remote.id)) {
        Some(entry) => cache.with_task(
            resolved_task(entry.task, remote, strategy),
            next_version(entry.version),
            now,
        ),
        None => cache.with_task(remote, 1, now),
    }
}

/// The cache after each of the remote tasks is taken in, in turn.
pub open spec fn reconciled(
    cache: CacheView,
    remote: Seq<TaskView>,
    strategy: ConflictResolution,
    now: Timestamp,
) -> CacheView
    decreases remote.len(),
{
    if remote.len() == 0 {
        cache
    } else {
        refreshed(
            reconciled(cache, remote.drop_last(), strategy, now),
            remote.last(),
            strategy,
            now,
        )
    }
}

/// The cache after a synchronisation pass at `now` in which the provider
/// accepted every queued operation: the pass is stamped, the remote tasks
/// are taken in, and then every operation is confirmed.
pub open spec fn synchronised(
    cache: CacheView,
    remote: Seq<TaskView>,
    strategy: ConflictResolution,
    operations: Seq<SyncOperationView>,
    now: Timestamp,
) -> CacheView {
    confirmed_all(
        reconciled(CacheView { last_sync: Some(now), ..cache }, remote, strategy, now),
        operations,
        now,
    )
}

/// The task that has to reach the remote side for `operation`, if any.
pub open spec fn pushed_task(operation: SyncOperationView) -> Option<TaskView> {
    match operation {
        SyncOperationView::CreateTask { task, .. } => Some(task),
        SyncOperationView::UpdateTask { task, .. } => Some(task),
        _ => None,
    }
}

/// Whether `outcome` is an answer to the push of `operation`: the answer
/// of the provider to a push of the operation's task alone, or success for
/// an operation that carries no task.
pub open spec fn answered<P: SyncProvider>(
    provider: P,
    operation: SyncOperationView,
    outcome: EddaResult<()>,
) -> bool {
    match pushed_task(operation) {
        Some(task) => provider.pushes(seq![task], outcome),
        None => outcome is Ok,
    }
}

/// The cache after the push of `operation` was answered with `outcome`:
/// the entry that the operation speaks of is `Completed` where the push
/// was accepted, and `Failed` with the message of the error where it was
/// refused.
pub open spec fn settled(
    cache: CacheView,
    operation: SyncOperationView,
    outcome: EddaResult<()>,
    now: Timestamp,
) -> CacheView {
    match outcome {
        Ok(_) => marked(cache, operation, SyncStatusView::Completed, now),
        Err(e) => marked(
            cache,
            operation,
            SyncStatusView::Failed { error: e.message_text() },
            now,
        ),
    }
}

/// The cache after each of `operations` was pushed in turn, the push of
/// the operation at position `i` answered with `outcomes[i]`.
pub open spec fn settled_all(
    cache: CacheView,
    operations: Seq<SyncOperationView>,
    outcomes: Seq<EddaResult<()>>,
    now: Timestamp,
) -> CacheView
    decreases operations.len(),
{
    if operations.len() == 0 {
        cache
    } else {
        settled(
            settled_all(cache, operations.drop_last(), outcomes, now),
            operations.last(),
            outcomes[operations.len() - 1],
            now,
        )
    }
}

/// The operations whose push was refused, in their order.
pub open spec fn retained(
    operations: Seq<SyncOperationView>,
    outcomes: Seq<EddaResult<()>>,
) -> Seq<SyncOperationView>
    decreases operations.len(),
{
    if operations.len() == 0 {
        operations
    } else if outcomes[operations.len() - 1] is Err {
        retained(operations.drop_last(), outcomes).push(operations.last())
    } else {
        retained(operations.drop_last(), outcomes)
    }
}

/// Whether every push was accepted.
pub open spec fn all_accepted(outcomes: Seq<EddaResult<()>>) -> bool {
    forall|i: int| 0 <= i < outcomes.len() ==> (#[trigger] outcomes[i]) is Ok
}

/// Whether `error` is the error of the first push that was refused.
pub open spec fn first_refusal(outcomes: Seq<EddaResult<()>>, error: EddaError) -> bool {
    exists|i: int|
        0 <= i < outcomes.len() && #[trigger] outcomes[i] == Err::<(), EddaError>(error) && (
        forall|j: int| 0 <= j < i ==> (#[trigger] outcomes[j]) is Ok)
}

/// Whether a manager that was `before` is `after` a synchronisation pass at
/// `now` with the result `r`, in which the provider had pulled `remote`
/// and answered the push of the queued operation at position `i` with
/// `outcomes[i]`: the pass is stamped and the remote tasks are taken in;
/// then every queued operation is pushed, oldest first, and settled in the
/// cache; the operations whose push was refused stay queued, in their
/// order, and the others leave the queue; the result is the error of the
/// first refusal, or success where nothing was refused.
pub open spec fn is_pass<P: SyncProvider>(
    provider: P,
    strategy: ConflictResolution,
    before: ManagerView,
    remote: Seq<TaskView>,
    outcomes: Seq<EddaResult<()>>,
    now: Timestamp,
    after: ManagerView,
    r: EddaResult<()>,
) -> bool {
    &&& outcomes.len() == before.queue.len()
    &&& forall|i: int|
        0 <= i < before.queue.len() ==> answered(provider, before.queue[i], #[trigger] outcomes[i])
    &&& after.capacity == before.capacity
    &&& after.queue == retained(before.queue, outcomes)
    &&& after.cache == settled_all(
        reconciled(CacheView { last_sync: Some(now), ..before.cache }, remote, strategy, now),
        before.queue,
        outcomes,
        now,
    )
    &&& match r {
        Ok(_) => all_accepted(outcomes),
        Err(e) => first_refusal(outcomes, e),
    }
}

/// Offline-first task management: the store, the cache and the queue
/// behind one interface, and the pass that synchronises them with a
/// provider.
pub struct SyncManager<S: TaskStorage> {
    queue: OfflineQueue,
    cache: LocalCache,
    resolver: ConflictResolver,
    storage: S,
}

impl<S: TaskStorage> View for SyncManager<S> {
    type V = ManagerView;

    closed spec fn view(&self) -> ManagerView {
        ManagerView { queue: self.queue@, capacity: self.queue.capacity(), cache: self.cache@ }
    }
}

impl<S: TaskStorage> SyncManager<S> {
    /// The strategy by which the manager resolves conflicts.
    pub closed spec fn strategy(&self) -> ConflictResolution {
        self.resolver.strategy()
    }

    /// The store behind the manager.
    pub closed spec fn store(&self) -> S {
        self.storage
    }

    /// A manager on `storage` with an empty cache and an empty queue of the
    /// given capacity, which resolves conflicts by the given strategy.
    pub fn new(
        storage: S,
        max_queue_size: usize,
        default_conflict_strategy: ConflictResolution,
    ) -> (m: SyncManager<S>)
        ensures
            m@.queue.len() == 0,
            m@.capacity == max_queue_size,
            m@.cache.tasks.len() == 0,
            m@.cache.documents.len() == 0,
            m@.cache.last_sync is None,
            m@.cache.wf(),
            m.strategy() == default_conflict_strategy,
    {
        SyncManager {
            queue: OfflineQueue::new(max_queue_size),
            cache: LocalCache::new(),
            resolver: ConflictResolver::new(default_conflict_strategy),
            storage,
        }
    }

    /// The cache, for reading.
    pub fn cache(&self) -> (c: &LocalCache)
        ensures
            c@ == self@.cache,
    {
        &self.cache
    }

    /// The queue, for reading.
    pub fn queue(&self) -> (q: &OfflineQueue)
        ensures
            q@ == self@.queue,
            q.capacity() == self@.capacity,
    {
        &self.queue
    }

    /// Caches a task that the store has just created and queues its
    /// creation.
    pub fn record_create(&mut self, created: &Task, cached_at: Timestamp, queued_at: Timestamp)
        ensures
            final(self)@ == old(self)@.after_create(created@, cached_at, queued_at),
            final(self).strategy() == old(self).strategy(),
            final(self).store() == old(self).store(),
    {
        self.cache.cache_task_at(created.clone(), 1, cached_at);
        let _ = self.queue.enqueue(
            SyncOperation::CreateTask { task: created.clone(), timestamp: queued_at },
        );
    }

    /// Caches a task that the store has just updated and queues its
    /// update.
    pub fn record_update(&mut self, updated: &Task, cached_at: Timestamp, queued_at: Timestamp)
        ensures
            final(self)@ == old(self)@.after_update(updated@, cached_at, queued_at),
            final(self).strategy() == old(self).strategy(),
            final(self).store() == old(self).store(),
    {
        self.cache.cache_task_at(updated.clone(), 1, cached_at);
        let _ = self.queue.enqueue(
            SyncOperation::UpdateTask { task: updated.clone(), timestamp: queued_at },
        );
    }

    /// Queues the removal of a task that the store has just removed.
    pub fn record_delete(&mut self, task_id: i64, queued_at: Timestamp)
        ensures
            final(self)@ == old(self)@.after_delete(task_id, queued_at),
            final(self).strategy() == old(self).strategy(),
            final(self).store() == old(self).store(),
    {
        let _ = self.queue.enqueue(SyncOperation::DeleteTask { task_id, timestamp: queued_at });
    }

    /// Creates a task: the store is asked to keep `task`, and its answer
    /// is the result. Where the store has kept the task, the stored task
    /// is then cached and its creation queued; where the store fails,
    /// nothing changes.
    pub fn create_task(&mut self, task: Task) -> (r: EddaResult<Task>)
        ensures
            old(self).store().creates(task@, r),
            final(self).strategy() == old(self).strategy(),
            final(self).store() == old(self).store(),
            r is Err ==> final(self)@ == old(self)@,
            r matches Ok(created) ==> exists|cached_at: Timestamp, queued_at: Timestamp|
                final(self)@ == #[trigger] old(self)@.after_create(
                    created@,
                    cached_at,
                    queued_at,
                ),
    {
        match self.storage.create_task(task) {
            Err(e) => Err(e),
            Ok(created) => {
                let cached_at = Timestamp::now();
                let queued_at = Timestamp::now();
                self.record_create(&created, cached_at, queued_at);
                Ok(created)
            },
        }
    }

    /// Updates a task: the store is asked to keep the new state `task`,
    /// and its answer is the result. Where the store has kept the change,
    /// the stored task is then cached and its update queued; where the
    /// store fails, nothing changes.
    pub fn update_task(&mut self, task: Task) -> (r: EddaResult<Task>)
        ensures
            old(self).store().updates(task@, r),
            final(self).strategy() == old(self).strategy(),
            final(self).store() == old(self).store(),
            r is Err ==> final(self)@ == old(self)@,
            r matches Ok(updated) ==> exists|cached_at: Timestamp, queued_at: Timestamp|
                final(self)@ == #[trigger] old(self)@.after_update(
                    updated@,
                    cached_at,
                    queued_at,
                ),
    {
        match self.storage.update_task(task) {
            Err(e) => Err(e),
            Ok(updated) => {
                let cached_at = Timestamp::now();
                let queued_at = Timestamp::now();
                self.record_update(&updated, cached_at, queued_at);
                Ok(updated)
            },
        }
    }

    /// Removes a task: the store is asked to remove the task `task_id`,
    /// and its answer is the result. Where the store had the task, the
    /// removal is then queued; where the store fails or had no such task,
    /// nothing changes.
    pub fn delete_task(&mut self, task_id: i64) -> (r: EddaResult<bool>)
        ensures
            old(self).store().deletes(task_id, r),
            final(self).strategy() == old(self).strategy(),
            final(self).store() == old(self).store(),
            r is Err || r == Ok::<bool, EddaError>(false) ==> final(self)@ == old(self)@,
            r == Ok::<bool, EddaError>(true) ==> exists|queued_at: Timestamp|
                final(self)@ == #[trigger] old(self)@.after_delete(task_id, queued_at),
    {
        match self.storage.delete_task(task_id) {
            Err(e) => Err(e),
            Ok(deleted) => {
                if deleted {
                    let queued_at = Timestamp::now();
                    self.record_delete(task_id, queued_at);
                }
                Ok(deleted)
            },
        }
    }

    /// The tasks of the cache: the task of every entry, once, in no
    /// particular order.
    pub fn cached_task_list(&self) -> (r: Vec<Task>)
        ensures
            is_cached_list(self@.cache, task_views(r@)),
            r@.len() == self@.cache.tasks.len(),
    {
        let entries = self.cache.get_all_cached_tasks();
        let mut r: Vec<Task> = Vec::new();
        let mut i: usize = 0;
        while i < entries.len()
            invariant
                i <= entries.len(),
                r.len() == i,
                forall|j: int| 0 <= j < i ==> r@[j]@ == entries@[j]@.task,
            decreases entries.len() - i,
        {
            r.push(entries[i].task.clone());
            i = i + 1;
        }
        proof {
            assert(task_views(r@) =~= cached_tasks(cached_task_views(entries@)));
            assert(lists_all(self@.cache.tasks, cached_task_views(entries@)));
        }
        r
    }

    /// Caches each of `tasks` in its first version at `now`.
    pub fn cache_tasks(&mut self, tasks: &Vec<Task>, now: Timestamp)
        ensures
            final(self)@ == (ManagerView {
                cache: with_tasks(old(self)@.cache, task_views(tasks@), 1, now),
                ..old(self)@
            }),
            final(self).strategy() == old(self).strategy(),
            final(self).store() == old(self).store(),
    {
        let ghost before = self@;
        let mut i: usize = 0;
        while i < tasks.len()
            invariant
                i <= tasks.len(),
                self.strategy() == old(self).strategy(),
                self.store() == old(self).store(),
                self@ == (ManagerView {
                    cache: with_tasks(before.cache, task_views(tasks@).take(i as int), 1, now),
                    ..before
                }),
            decreases tasks.len() - i,
        {
            let ghost prefix = task_views(tasks@).take(i as int + 1);
            assert(prefix.drop_last() =~= task_views(tasks@).take(i as int));
            assert(prefix.last() == tasks@[i as int]@);
            self.cache.cache_task_at(tasks[i].clone(), 1, now);
            i = i + 1;
        }
        assert(task_views(tasks@).take(tasks.len() as int) =~= task_views(tasks@));
    }

    /// The tasks: those of the cache where it holds any, in no particular
    /// order. Otherwise the store
    /// is asked for its tasks without a filter, and its answer is the
    /// result; the tasks it lists are then cached. Where the store fails,
    /// nothing changes.
    pub fn get_tasks(&mut self) -> (r: EddaResult<Vec<Task>>)
        ensures
            final(self).strategy() == old(self).strategy(),
            final(self).store() == old(self).store(),
            old(self)@.cache.tasks.len() == 0 ==> old(self).store().lists(
                None::<TaskFilter>,
                r,
            ),
            old(self)@.cache.tasks.len() > 0 ==> final(self)@ == old(self)@ && (r matches Ok(
                tasks,
            ) && is_cached_list(old(self)@.cache, task_views(tasks@))),
            old(self)@.cache.tasks.len() == 0 ==> match r {
                Ok(tasks) => exists|now: Timestamp|
                    final(self)@ == (ManagerView {
                        cache: #[trigger] with_tasks(
                            old(self)@.cache,
                            task_views(tasks@),
                            1,
                            now,
                        ),
                        ..old(self)@
                    }),
                Err(_) => final(self)@ == old(self)@,
            },
    {
        let cached = self.cached_task_list();
        if cached.len() > 0 {
            return Ok(cached);
        }
        match self.storage.list_tasks(None) {
            Err(e) => Err(e),
            Ok(tasks) => {
                let now = Timestamp::now();
                self.cache_tasks(&tasks, now);
                Ok(tasks)
            },
        }
    }

    /// Gives the cached entry that `operation` speaks of the status
    /// `status` as of `now`.
    pub fn mark(&mut self, operation: &SyncOperation, status: SyncStatus, now: Timestamp)
        ensures
            final(self)@ == (ManagerView {
                cache: marked(old(self)@.cache, operation@, status@, now),
                ..old(self)@
            }),
            final(self).strategy() == old(self).strategy(),
            final(self).store() == old(self).store(),
    {
        match operation {
            SyncOperation::CreateTask { task, .. } => {
                let key: i64 = match task.id {
                    Some(id) => id,
                    None => 0,
                };
                self.cache.update_task_sync_status_at(key, status, now);
            },
            SyncOperation::UpdateTask { task, .. } => {
                let key: i64 = match task.id {
                    Some(id) => id,
                    None => 0,
                };
                self.cache.update_task_sync_status_at(key, status, now);
            },
            SyncOperation::DeleteTask { task_id, .. } => {
                self.cache.update_task_sync_status_at(*task_id, status, now);
            },
            SyncOperation::CreateDocument { document, .. } => {
                let key: i64 = match document.id {
                    Some(id) => id,
                    None => 0,
                };
                self.cache.update_document_sync_status_at(key, status, now);
            },
            SyncOperation::UpdateDocument { document, .. } => {
                let key: i64 = match document.id {
                    Some(id) => id,
                    None => 0,
                };
                self.cache.update_document_sync_status_at(key, status, now);
            },
            SyncOperation::DeleteDocument { document_id, .. } => {
                self.cache.update_document_sync_status_at(*document_id, status, now);
            },
        }
    }

    /// Takes one remote task into the cache at `now`.
    pub fn refresh(&mut self, remote: &Task, now: Timestamp)
        ensures
            final(self)@ == (ManagerView {
                cache: refreshed(old(self)@.cache, remote@, old(self).strategy(), now),
                ..old(self)@
            }),
            final(self).strategy() == old(self).strategy(),
            final(self).store() == old(self).store(),
    {
        let key: i64 = match remote.id {
            Some(id) => id,
            None => 0,
        };
        match self.cache.get_cached_task(key) {
            Some(entry) => {
                let resolved = self.resolver.resolve_task_conflict(&entry.task, remote, None);
                let version: u64 = if entry.version < u64::MAX {
                    entry.version + 1
                } else {
                    entry.version
                };
                self.cache.cache_task_at(resolved, version, now);
            },
            None => {
                self.cache.cache_task_at(remote.clone(), 1, now);
            },
        }
    }

    /// Takes the remote tasks into the cache at `now`, one after the
    /// other.
    pub fn reconcile(&mut self, remote: &Vec<Task>, now: Timestamp)
        ensures
            final(self)@ == (ManagerView {
                cache: reconciled(
                    old(self)@.cache,
                    task_views(remote@),
                    old(self).strategy(),
                    now,
                ),
                ..old(self)@
            }),
            final(self).strategy() == old(self).strategy(),
            final(self).store() == old(self).store(),
    {
        let ghost before = self@;
        let mut i: usize = 0;
        while i < remote.len()
            invariant
                i <= remote.len(),
                self.strategy() == old(self).strategy(),
                self.store() == old(self).store(),
                self@ == (ManagerView {
                    cache: reconciled(
                        before.cache,
                        task_views(remote@).take(i as int),
                        old(self).strategy(),
                        now,
                    ),
                    ..before
                }),
            decreases remote.len() - i,
        {
            let ghost prefix = task_views(remote@).take(i as int + 1);
            assert(prefix.drop_last() =~= task_views(remote@).take(i as int));
            assert(prefix.last() == remote@[i as int]@);
            self.refresh(&remote[i], now);
            i = i + 1;
        }
        assert(task_views(remote@).take(remote.len() as int) =~= task_views(remote@));
    }

    /// Hands the task of one queued operation to the provider, alone, and
    /// returns the provider's answer. An operation that carries no task, a
    /// removal or a document operation, needs no remote call and counts as
    /// handled.
    pub fn push_operation<P: SyncProvider>(provider: &P, operation: &SyncOperation) -> (r:
        EddaResult<()>)
        ensures
            answered(*provider, operation@, r),
    {
        match operation {
            SyncOperation::CreateTask { task, .. } => {
                let mut batch: Vec<Task> = Vec::new();
                batch.push(task.clone());
                assert(task_views(batch@) =~= seq![task@]);
                provider.push_tasks(batch.as_slice())
            },
            SyncOperation::UpdateTask { task, .. } => {
                let mut batch: Vec<Task> = Vec::new();
                batch.push(task.clone());
                assert(task_views(batch@) =~= seq![task@]);
                provider.push_tasks(batch.as_slice())
            },
            _ => Ok(()),
        }
    }

    /// One synchronisation pass. With nothing queued it does nothing.
    /// Otherwise it tests the connection and pulls the remote tasks; where
    /// either fails, it returns the error and changes nothing. It then
    /// stamps the pass, takes the remote tasks into the cache, and pushes
    /// every queued operation, oldest first. An operation that the
    /// provider accepts is confirmed in the cache and leaves the queue;
    /// one that it refuses has the failure recorded in the cache and stays
    /// queued for a later pass. The pass succeeds where nothing was
    /// refused, and otherwise returns the error of the first refusal.
    pub fn sync<P: SyncProvider>(&mut self, provider: &P) -> (r: EddaResult<()>)
        ensures
            final(self).strategy() == old(self).strategy(),
            final(self).store() == old(self).store(),
            final(self)@.capacity == old(self)@.capacity,
            old(self)@.queue.len() == 0 ==> r is Ok && final(self)@ == old(self)@,
            old(self)@.queue.len() > 0 ==> (r is Err && final(self)@ == old(self)@) || exists|
                remote: Seq<TaskView>,
                outcomes: Seq<EddaResult<()>>,
                now: Timestamp,
            |
                #[trigger] is_pass(
                    *provider,
                    old(self).strategy(),
                    old(self)@,
                    remote,
                    outcomes,
                    now,
                    final(self)@,
                    r,
                ),
            r is Ok ==> final(self)@.queue.len() == 0,
            r is Err ==> final(self)@.queue.len() > 0,
            r is Ok && old(self)@.queue.len() > 0 ==> exists|
                remote: Seq<TaskView>,
                now: Timestamp,
            |
                final(self)@.cache == #[trigger] synchronised(
                    old(self)@.cache,
                    remote,
                    old(self).strategy(),
                    old(self)@.queue,
                    now,
                ),
    {
        let ghost before = self@;
        let operations = self.queue.get_pending_operations();
        if operations.len() == 0 {
            return Ok(());
        }
        match provider.test_connection() {
            Err(e) => {
                return Err(e);
            },
            Ok(()) => {},
        }
        let remote = match provider.pull_tasks() {
            Err(e) => {
                return Err(e);
            },
            Ok(remote) => remote,
        };
        let now = Timestamp::now();
        self.cache.set_last_sync(now);
        self.reconcile(&remote, now);
        let ghost base = self@.cache;
        let ghost mut outcomes: Seq<EddaResult<()>> = Seq::empty();
        let ghost mut first: int = 0;
        let mut handled: Vec<usize> = Vec::new();
        let mut failure: Option<EddaError> = None;
        let mut k: usize = 0;
        while k < operations.len()
            invariant
                k <= operations.len(),
                operation_views(operations@) == before.queue,
                self@.queue == before.queue,
                self@.capacity == before.capacity,
                self.strategy() == old(self).strategy(),
                self.store() == old(self).store(),
                outcomes.len() == k,
                forall|i: int|
                    0 <= i < k ==> answered(*provider, before.queue[i], #[trigger] outcomes[i]),
                forall|i: int|
                    0 <= i < k ==> (index_set(handled@).contains(i) <==> (
                    #[trigger] outcomes[i]) is Ok),
                forall|j: int| 0 <= j < handled@.len() ==> #[trigger] handled@[j] < k,
                self@.cache == settled_all(base, before.queue.take(k as int), outcomes, now),
                failure is None ==> all_accepted(outcomes),
                failure matches Some(e) ==> 0 <= first < k && outcomes[first] == Err::<
                    (),
                    EddaError,
                >(e) && (forall|j: int| 0 <= j < first ==> (#[trigger] outcomes[j]) is Ok),
            decreases operations.len() - k,
        {
            let ghost earlier = outcomes;
            let ghost listed = handled@;
            let ghost prefix = before.queue.take(k as int + 1);
            assert(prefix.drop_last() =~= before.queue.take(k as int));
            assert(prefix.last() == operations@[k as int]@);
            let outcome = Self::push_operation(provider, &operations[k]);
            proof {
                outcomes = earlier.push(outcome);
                lemma_settled_all_same(base, before.queue.take(k as int), earlier, outcomes, now);
            }
            match outcome {
                Ok(()) => {
                    self.mark(&operations[k], SyncStatus::Completed, now);
                    handled.push(k);
                    proof {
                        assert forall|i: int| 0 <= i < k + 1 implies (index_set(
                            handled@,
                        ).contains(i) <==> (#[trigger] outcomes[i]) is Ok) by {
                            lemma_index_set_push(listed, k, i);
                            if i < k {
                                assert(outcomes[i] == earlier[i]);
                            }
                        }
                    }
                },
                Err(e) => {
                    self.mark(&operations[k], SyncStatus::Failed { error: e.to_string() }, now);
                    proof {
                        assert forall|i: int| 0 <= i < k + 1 implies (index_set(
                            handled@,
                        ).contains(i) <==> (#[trigger] outcomes[i]) is Ok) by {
                            if i < k {
                                assert(outcomes[i] == earlier[i]);
                            } else if index_set(listed).contains(i) {
                                let j = choose|j: int| 0 <= j < listed.len() && listed[j] == i;
                                assert(listed[j] < k);
                            }
                        }
                    }
                    if failure.is_none() {
                        failure = Some(e);
                        proof {
                            first = k as int;
                            assert forall|j: int| 0 <= j < first implies (
                            #[trigger] outcomes[j]) is Ok by {
                                assert(outcomes[j] == earlier[j]);
                            }
                        }
                    } else {
                        proof {
                            assert(outcomes[first] == earlier[first]);
                            assert forall|j: int| 0 <= j < first implies (
                            #[trigger] outcomes[j]) is Ok by {
                                assert(outcomes[j] == earlier[j]);
                            }
                        }
                    }
                },
            }
            proof {
                assert forall|i: int| 0 <= i < k + 1 implies answered(
                    *provider,
                    before.queue[i],
                    #[trigger] outcomes[i],
                ) by {
                    if i < k {
                        assert(outcomes[i] == earlier[i]);
                    }
                }
                if failure is None {
                    assert forall|i: int| 0 <= i < outcomes.len() implies (
                    #[trigger] outcomes[i]) is Ok by {
                        if i < k {
                            assert(outcomes[i] == earlier[i]);
                        }
                    }
                }
            }
            k = k + 1;
        }
        proof {
            assert(before.queue.take(operations.len() as int) =~= before.queue);
            lemma_unlisted_retained(before.queue, index_set(handled@), outcomes);
            lemma_retained(before.queue, outcomes);
            if failure is None {
                lemma_settled_all_accepted(base, before.queue, outcomes, now);
            }
        }
        self.queue.remove_operations(handled.as_slice());
        let r = match failure {
            None => {
                assert(self@.cache == synchronised(
                    before.cache,
                    task_views(remote@),
                    old(self).strategy(),
                    before.queue,
                    now,
                ));
                Ok(())
            },
            Some(e) => Err(e),
        };
        assert(is_pass(
            *provider,
            old(self).strategy(),
            before,
            task_views(remote@),
            outcomes,
            now,
            self@,
            r,
        ));
        r
    }

    /// Whether operations await synchronisation.
    pub fn has_pending_operations(&self) -> (r: bool)
        ensures
            r == (self@.queue.len() > 0),
    {
        !self.queue.is_empty()
    }

    /// The number of operations that await synchronisation.
    pub fn pending_operation_count(&self) -> (n: usize)
        ensures
            n == self@.queue.len(),
    {
        self.queue.len()
    }

    /// When the last synchronisation pass began, if there was one.
    pub fn get_last_sync_time(&self) -> (r: Option<Timestamp>)
        ensures
            r == self@.cache.last_sync,
    {
        self.cache.get_last_sync()
    }
}

/// Whether the cache holds the task `id` with the status `Completed`.
pub open spec fn is_confirmed(cache: CacheView, id: i64) -> bool {
    cache.task(id) matches Some(entry) && entry.sync_status == SyncStatusView::Completed
}

/// The identifier of the cached task that `operation` speaks of, if it
/// speaks of a task.
pub open spec fn task_of(operation: SyncOperationView) -> Option<i64> {
    match operation {
        SyncOperationView::CreateTask { task, .. } => Some(cache_key(task.id)),
        SyncOperationView::UpdateTask { task, .. } => Some(cache_key(task.id)),
        SyncOperationView::DeleteTask { task_id, .. } => Some(task_id),
        _ => None,
    }
}

/// Confirming an operation keeps the cache well formed and every cached
/// task cached, keeps every confirmed task confirmed, and confirms the
/// task that the operation speaks of where the cache holds it.
pub proof fn lemma_confirm(
    cache: CacheView,
    operation: SyncOperationView,
    now: Timestamp,
    id: i64,
)
    requires
        cache.wf(),
    ensures
        marked(cache, operation, SyncStatusView::Completed, now).wf(),
        cache.task(id) is Some ==> marked(
            cache,
            operation,
            SyncStatusView::Completed,
            now,
        ).task(id) is Some,
        is_confirmed(cache, id) ==> is_confirmed(
            marked(cache, operation, SyncStatusView::Completed, now),
            id,
        ),
        cache.task(id) is Some && task_of(operation) == Some(id) ==> is_confirmed(
            marked(cache, operation, SyncStatusView::Completed, now),
            id,
        ),
{
    match task_of(operation) {
        Some(key) => {
            lemma_with_task_status(cache, key, SyncStatusView::Completed, now);
        },
        None => {
            match operation {
                SyncOperationView::CreateDocument { document, .. } => {
                    lemma_with_document_status(
                        cache,
                        cache_key(document.id),
                        SyncStatusView::Completed,
                        now,
                    );
                },
                SyncOperationView::UpdateDocument { document, .. } => {
                    lemma_with_document_status(
                        cache,
                        cache_key(document.id),
                        SyncStatusView::Completed,
                        now,
                    );
                },
                SyncOperationView::DeleteDocument { document_id, .. } => {
                    lemma_with_document_status(
                        cache,
                        document_id,
                        SyncStatusView::Completed,
                        now,
                    );
                },
                _ => {},
            }
        },
    }
}

/// Confirming a run of operations keeps the cache well formed and every
/// cached task cached, and leaves confirmed each cached task that one of
/// the operations speaks of.
pub proof fn lemma_confirmed_all(
    cache: CacheView,
    operations: Seq<SyncOperationView>,
    now: Timestamp,
    id: i64,
)
    requires
        cache.wf(),
    ensures
        confirmed_all(cache, operations, now).wf(),
        cache.task(id) is Some ==> confirmed_all(cache, operations, now).task(id) is Some,
        is_confirmed(cache, id) ==> is_confirmed(confirmed_all(cache, operations, now), id),
        cache.task(id) is Some && (exists|i: int|
            0 <= i < operations.len() && task_of(#[trigger] operations[i]) == Some(id))
            ==> is_confirmed(confirmed_all(cache, operations, now), id),
    decreases operations.len(),
{
    if operations.len() > 0 {
        let init = operations.drop_last();
        lemma_confirmed_all(cache, init, now, id);
        lemma_confirm(confirmed_all(cache, init, now), operations.last(), now, id);
        if cache.task(id) is Some && (exists|i: int|
            0 <= i < operations.len() && task_of(#[trigger] operations[i]) == Some(id)) {
            let i = choose|i: int|
                0 <= i < operations.len() && task_of(#[trigger] operations[i]) == Some(id);
            if i < init.len() {
                assert(task_of(init[i]) == Some(id));
            }
        }
    }
}

/// Taking remote tasks in keeps the cache well formed and every cached
/// task cached.
pub proof fn lemma_reconciled(
    cache: CacheView,
    remote: Seq<TaskView>,
    strategy: ConflictResolution,
    now: Timestamp,
    id: i64,
)
    requires
        cache.wf(),
    ensures
        reconciled(cache, remote, strategy, now).wf(),
        cache.task(id) is Some ==> reconciled(cache, remote, strategy, now).task(id) is Some,
    decreases remote.len(),
{
    if remote.len() > 0 {
        let earlier = reconciled(cache, remote.drop_last(), strategy, now);
        lemma_reconciled(cache, remote.drop_last(), strategy, now, id);
        let task = remote.last();
        match earlier.task(cache_key(task.id)) {
            Some(entry) => {
                lemma_with_task(
                    earlier,
                    resolved_task(entry.task, task, strategy),
                    next_version(entry.version),
                    now,
                );
                assert(cache_key(resolved_task(entry.task, task, strategy).id) == cache_key(
                    task.id,
                )) by {
                    lemma_cached_under_key(earlier, cache_key(task.id));
                }
            },
            None => {
                lemma_with_task(earlier, task, 1, now);
            },
        }
    }
}

/// An entry found under an identifier is cached under that identifier.
pub proof fn lemma_cached_under_key(cache: CacheView, id: i64)
    requires
        cache.wf(),
    ensures
        cache.task(id) matches Some(entry) ==> entry.key() == id,
{
}

/// After a synchronisation pass in which the provider accepted every
/// queued operation, the cache is well formed, still holds every task it
/// held, and holds as `Completed` each of them that a queued operation
/// speaks of.
pub proof fn pass_confirms_queued_tasks(
    cache: CacheView,
    remote: Seq<TaskView>,
    strategy: ConflictResolution,
    operations: Seq<SyncOperationView>,
    now: Timestamp,
    i: int,
)
    requires
        cache.wf(),
        0 <= i < operations.len(),
        task_of(operations[i]) matches Some(id) && cache.task(id) is Some,
    ensures
        synchronised(cache, remote, strategy, operations, now).wf(),
        is_confirmed(
            synchronised(cache, remote, strategy, operations, now),
            task_of(operations[i])->0,
        ),
{
    let id = task_of(operations[i])->0;
    let stamped = CacheView { last_sync: Some(now), ..cache };
    assert(stamped.task(id) == cache.task(id));
    lemma_reconciled(stamped, remote, strategy, now, id);
    lemma_confirmed_all(reconciled(stamped, remote, strategy, now), operations, now, id);
}

/// The cache after a run of pushes depends on the outcomes of those
/// pushes alone.
pub proof fn lemma_settled_all_same(
    cache: CacheView,
    operations: Seq<SyncOperationView>,
    a: Seq<EddaResult<()>>,
    b: Seq<EddaResult<()>>,
    now: Timestamp,
)
    requires
        forall|i: int| 0 <= i < operations.len() ==> a[i] == b[i],
    ensures
        settled_all(cache, operations, a, now) == settled_all(cache, operations, b, now),
    decreases operations.len(),
{
    if operations.len() > 0 {
        lemma_settled_all_same(cache, operations.drop_last(), a, b, now);
    }
}

/// Where every push was accepted, settling the operations confirms them
/// all.
pub proof fn lemma_settled_all_accepted(
    cache: CacheView,
    operations: Seq<SyncOperationView>,
    outcomes: Seq<EddaResult<()>>,
    now: Timestamp,
)
    requires
        operations.len() <= outcomes.len(),
        all_accepted(outcomes),
    ensures
        settled_all(cache, operations, outcomes, now) == confirmed_all(cache, operations, now),
    decreases operations.len(),
{
    if operations.len() > 0 {
        lemma_settled_all_accepted(cache, operations.drop_last(), outcomes, now);
        assert(outcomes[operations.len() - 1] is Ok);
    }
}

/// Nothing stays queued where every push was accepted, and something does
/// where one was refused.
pub proof fn lemma_retained(operations: Seq<SyncOperationView>, outcomes: Seq<EddaResult<()>>)
    requires
        outcomes.len() >= operations.len(),
    ensures
        retained(operations, outcomes).len() <= operations.len(),
        (forall|i: int| 0 <= i < operations.len() ==> (#[trigger] outcomes[i]) is Ok)
            ==> retained(operations, outcomes).len() == 0,
        (exists|i: int| 0 <= i < operations.len() && (#[trigger] outcomes[i]) is Err)
            ==> retained(operations, outcomes).len() > 0,
    decreases operations.len(),
{
    if operations.len() > 0 {
        let init = operations.drop_last();
        lemma_retained(init, outcomes);
        if exists|i: int| 0 <= i < operations.len() && (#[trigger] outcomes[i]) is Err {
            let i = choose|i: int| 0 <= i < operations.len() && (#[trigger] outcomes[i]) is Err;
            if i < init.len() {
                assert(outcomes[i] is Err);
            }
        }
    }
}

/// Removing from a queue the positions of the accepted pushes leaves the
/// operations whose push was refused.
pub proof fn lemma_unlisted_retained(
    operations: Seq<SyncOperationView>,
    listed: Set<int>,
    outcomes: Seq<EddaResult<()>>,
)
    requires
        forall|i: int|
            0 <= i < operations.len() ==> (listed.contains(i) <==> (#[trigger] outcomes[i]) is Ok),
    ensures
        unlisted(operations, listed) == retained(operations, outcomes),
    decreases operations.len(),
{
    if operations.len() > 0 {
        lemma_unlisted_retained(operations.drop_last(), listed, outcomes);
        assert(listed.contains(operations.len() - 1) <==> outcomes[operations.len() - 1] is Ok);
    }
}

/// A list of positions with one more names that position and the ones it
/// named.
pub proof fn lemma_index_set_push(indices: Seq<usize>, x: usize, i: int)
    ensures
        index_set(indices.push(x)).contains(i) <==> index_set(indices).contains(i) || i == x,
{
    let more = indices.push(x);
    if index_set(more).contains(i) {
        let k = choose|k: int| 0 <= k < more.len() && more[k] == i;
        if k < indices.len() {
            assert(indices[k] == i);
        }
    }
    if index_set(indices).contains(i) {
        let k = choose|k: int| 0 <= k < indices.len() && indices[k] == i;
        assert(more[k] == i);
    }
    if i == x {
        assert(more[indices.len() as int] == i);
    }
}

} // verus!
