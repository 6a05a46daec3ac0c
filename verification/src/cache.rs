//! The local cache: the last-known state of each task and document with its
//! synchronisation status, and the time of the last synchronisation.

use std::collections::HashMap;
use vstd::prelude::*;
use vstd::std_specs::hash::*;
use vstd::std_specs::iter::IteratorSpec;
use crate::document::{Document, DocumentView};
use crate::task::{Task, TaskView};
use crate::time::Timestamp;

verus! {

broadcast use vstd::std_specs::hash::group_hash_axioms;

/// How far the synchronisation of a cached record has come.
#[derive(Debug)]
pub enum SyncStatus {
    Pending,
    InProgress,
    Completed,
    Failed { error: String },
}

/// The model of a [`SyncStatus`].
pub ghost enum SyncStatusView {
    Pending,
    InProgress,
    Completed,
    Failed { error: Seq<char> },
}

impl View for SyncStatus {
    type V = SyncStatusView;

    open spec fn view(&self) -> SyncStatusView {
        match self {
            SyncStatus::Pending => SyncStatusView::Pending,
            SyncStatus::InProgress => SyncStatusView::InProgress,
            SyncStatus::Completed => SyncStatusView::Completed,
            SyncStatus::Failed { error } => SyncStatusView::Failed { error: error@ },
        }
    }
}

impl Clone for SyncStatus {
    fn clone(&self) -> (r: SyncStatus)
        ensures
            r@ == self@,
    {
        match self {
            SyncStatus::Pending => SyncStatus::Pending,
            SyncStatus::InProgress => SyncStatus::InProgress,
            SyncStatus::Completed => SyncStatus::Completed,
            SyncStatus::Failed { error } => SyncStatus::Failed { error: error.clone() },
        }
    }
}

/// A task snapshot with its synchronisation metadata.
#[derive(Debug)]
pub struct CachedTask {
    pub task: Task,
    pub last_modified: Timestamp,
    pub sync_status: SyncStatus,
    pub version: u64,
}

/// The model of a [`CachedTask`].
pub ghost struct CachedTaskView {
    pub task: TaskView,
    pub last_modified: Timestamp,
    pub sync_status: SyncStatusView,
    pub version: u64,
}

impl View for CachedTask {
    type V = CachedTaskView;

    open spec fn view(&self) -> CachedTaskView {
        CachedTaskView {
            task: self.task@,
            last_modified: self.last_modified,
            sync_status: self.sync_status@,
            version: self.version,
        }
    }
}

impl Clone for CachedTask {
    fn clone(&self) -> (r: CachedTask)
        ensures
            r@ == self@,
    {
        CachedTask {
            task: self.task.clone(),
            last_modified: self.last_modified,
            sync_status: self.sync_status.clone(),
            version: self.version,
        }
    }
}

/// A document snapshot with its synchronisation metadata.
#[derive(Debug)]
pub struct CachedDocument {
    pub document: Document,
    pub last_modified: Timestamp,
    pub sync_status: SyncStatus,
    pub version: u64,
}

/// The model of a [`CachedDocument`].
pub ghost struct CachedDocumentView {
    pub document: DocumentView,
    pub last_modified: Timestamp,
    pub sync_status: SyncStatusView,
    pub version: u64,
}

impl View for CachedDocument {
    type V = CachedDocumentView;

    open spec fn view(&self) -> CachedDocumentView {
        CachedDocumentView {
            document: self.document@,
            last_modified: self.last_modified,
            sync_status: self.sync_status@,
            version: self.version,
        }
    }
}

impl Clone for CachedDocument {
    fn clone(&self) -> (r: CachedDocument)
        ensures
            r@ == self@,
    {
        CachedDocument {
            document: self.document.clone(),
            last_modified: self.last_modified,
            sync_status: self.sync_status.clone(),
            version: self.version,
        }
    }
}

/// The identifier under which a record is cached: the one the store
/// assigned, or 0 for a record that was never stored.
pub open spec fn cache_key(id: Option<i64>) -> i64 {
    match id {
        Some(i) => i,
        None => 0,
    }
}

impl CachedTaskView {
    /// The identifier under which the entry is cached.
    pub open spec fn key(self) -> i64 {
        cache_key(self.task.id)
    }
}

impl CachedDocumentView {
    /// The identifier under which the entry is cached.
    pub open spec fn key(self) -> i64 {
        cache_key(self.document.id)
    }
}

/// The models of the cached tasks of a map.
pub open spec fn task_entries(m: Map<i64, CachedTask>) -> Map<i64, CachedTaskView> {
    Map::new(|id: i64| m.contains_key(id), |id: i64| m[id]@)
}

/// The models of the cached documents of a map.
pub open spec fn document_entries(m: Map<i64, CachedDocument>) -> Map<i64, CachedDocumentView> {
    Map::new(|id: i64| m.contains_key(id), |id: i64| m[id]@)
}

/// The models of a sequence of cached tasks.
pub open spec fn cached_task_views(v: Seq<CachedTask>) -> Seq<CachedTaskView> {
    Seq::new(v.len(), |i: int| v[i]@)
}

/// The models of a sequence of cached documents.
pub open spec fn cached_document_views(v: Seq<CachedDocument>) -> Seq<CachedDocumentView> {
    Seq::new(v.len(), |i: int| v[i]@)
}

/// Whether `entries` are the entries of `m` under the identifiers `ids`,
/// which are all the identifiers of `m`, each once.
pub open spec fn listed_under<V>(m: Map<i64, V>, ids: Seq<i64>, entries: Seq<V>) -> bool {
    &&& ids.no_duplicates()
    &&& ids.to_set() == m.dom()
    &&& entries.len() == ids.len()
    &&& forall|i: int| 0 <= i < ids.len() ==> entries[i] == m[#[trigger] ids[i]]
}

/// Whether `entries` lists what `m` holds: every entry once, in some
/// order.
pub open spec fn lists_all<V>(m: Map<i64, V>, entries: Seq<V>) -> bool {
    exists|ids: Seq<i64>| #[trigger] listed_under(m, ids, entries)
}

/// The model of a [`LocalCache`]: the entries by their identifiers, and
/// the time of the last synchronisation.
pub ghost struct CacheView {
    pub tasks: Map<i64, CachedTaskView>,
    pub documents: Map<i64, CachedDocumentView>,
    pub last_sync: Option<Timestamp>,
}

impl CacheView {
    /// The cache holds finitely many entries, each under the identifier of
    /// its record.
    pub open spec fn wf(self) -> bool {
        &&& self.tasks.dom().finite()
        &&& self.documents.dom().finite()
        &&& forall|id: i64| self.tasks.contains_key(id) ==> (#[trigger] self.tasks[id]).key() == id
        &&& forall|id: i64|
            self.documents.contains_key(id) ==> (#[trigger] self.documents[id]).key() == id
    }

    /// The task entry cached under `id`.
    pub open spec fn task(self, id: i64) -> Option<CachedTaskView> {
        if self.tasks.contains_key(id) {
            Some(self.tasks[id])
        } else {
            None
        }
    }

    /// The document entry cached under `id`.
    pub open spec fn document(self, id: i64) -> Option<CachedDocumentView> {
        if self.documents.contains_key(id) {
            Some(self.documents[id])
        } else {
            None
        }
    }

    /// The cache after `task` is cached at `now`: its entry, with status
    /// `Pending`, stands under its identifier, in place of any other.
    pub open spec fn with_task(self, task: TaskView, version: u64, now: Timestamp) -> CacheView {
        CacheView {
            tasks: self.tasks.insert(
                cache_key(task.id),
                CachedTaskView {
                    task,
                    last_modified: now,
                    sync_status: SyncStatusView::Pending,
                    version,
                },
            ),
            ..self
        }
    }

    /// The cache after `document` is cached at `now`.
    pub open spec fn with_document(
        self,
        document: DocumentView,
        version: u64,
        now: Timestamp,
    ) -> CacheView {
        CacheView {
            documents: self.documents.insert(
                cache_key(document.id),
                CachedDocumentView {
                    document,
                    last_modified: now,
                    sync_status: SyncStatusView::Pending,
                    version,
                },
            ),
            ..self
        }
    }

    /// The cache after the task entry under `id`, if any, takes `status`
    /// at `now`.
    pub open spec fn with_task_status(
        self,
        id: i64,
        status: SyncStatusView,
        now: Timestamp,
    ) -> CacheView {
        if self.tasks.contains_key(id) {
            CacheView {
                tasks: self.tasks.insert(
                    id,
                    CachedTaskView { sync_status: status, last_modified: now, ..self.tasks[id] },
                ),
                ..self
            }
        } else {
            self
        }
    }

    /// The cache after the document entry under `id`, if any, takes
    /// `status` at `now`.
    pub open spec fn with_document_status(
        self,
        id: i64,
        status: SyncStatusView,
        now: Timestamp,
    ) -> CacheView {
        if self.documents.contains_key(id) {
            CacheView {
                documents: self.documents.insert(
                    id,
                    CachedDocumentView {
                        sync_status: status,
                        last_modified: now,
                        ..self.documents[id]
                    },
                ),
                ..self
            }
        } else {
            self
        }
    }
}

/// Caching a task keeps the cache well formed, makes the new entry the
/// one under its identifier, and leaves every other identifier's entry.
pub proof fn lemma_with_task(c: CacheView, task: TaskView, version: u64, now: Timestamp)
    requires
        c.wf(),
    ensures
        c.with_task(task, version, now).wf(),
        c.with_task(task, version, now).task(cache_key(task.id)) == Some(
            CachedTaskView {
                task,
                last_modified: now,
                sync_status: SyncStatusView::Pending,
                version,
            },
        ),
        forall|id: i64|
            id != cache_key(task.id) ==> #[trigger] c.with_task(task, version, now).task(id)
                == c.task(id),
{
}

/// Changing the status of a task entry keeps the cache well formed,
/// changes the entry under `id` alone, and changes none where `id` has no
/// entry.
pub proof fn lemma_with_task_status(c: CacheView, id: i64, status: SyncStatusView, now: Timestamp)
    requires
        c.wf(),
    ensures
        c.with_task_status(id, status, now).wf(),
        c.with_task_status(id, status, now).task(id) == match c.task(id) {
            Some(e) => Some(CachedTaskView { sync_status: status, last_modified: now, ..e }),
            None => None,
        },
        forall|other: i64|
            other != id ==> #[trigger] c.with_task_status(id, status, now).task(other) == c.task(
                other,
            ),
{
}

/// Caching a document keeps the cache well formed, makes the new entry
/// the one under its identifier, and leaves every other identifier's
/// entry.
pub proof fn lemma_with_document(
    c: CacheView,
    document: DocumentView,
    version: u64,
    now: Timestamp,
)
    requires
        c.wf(),
    ensures
        c.with_document(document, version, now).wf(),
        c.with_document(document, version, now).document(cache_key(document.id)) == Some(
            CachedDocumentView {
                document,
                last_modified: now,
                sync_status: SyncStatusView::Pending,
                version,
            },
        ),
        forall|id: i64|
            id != cache_key(document.id) ==> #[trigger] c.with_document(
                document,
                version,
                now,
            ).document(id) == c.document(id),
{
}

/// Changing the status of a document entry keeps the cache well formed,
/// changes the entry under `id` alone, and changes none where `id` has no
/// entry.
pub proof fn lemma_with_document_status(
    c: CacheView,
    id: i64,
    status: SyncStatusView,
    now: Timestamp,
)
    requires
        c.wf(),
    ensures
        c.with_document_status(id, status, now).wf(),
        c.with_document_status(id, status, now).document(id) == match c.document(id) {
            Some(e) => Some(CachedDocumentView { sync_status: status, last_modified: now, ..e }),
            None => None,
        },
        forall|other: i64|
            other != id ==> #[trigger] c.with_document_status(id, status, now).document(other)
                == c.document(other),
{
}

/// The read-through cache of the synchronisation engine.
#[derive(Debug)]
pub struct LocalCache {
    tasks: HashMap<i64, CachedTask>,
    documents: HashMap<i64, CachedDocument>,
    last_sync: Option<Timestamp>,
}

impl View for LocalCache {
    type V = CacheView;

    closed spec fn view(&self) -> CacheView {
        CacheView {
            tasks: task_entries(self.tasks@),
            documents: document_entries(self.documents@),
            last_sync: self.last_sync,
        }
    }
}

impl LocalCache {
    #[verifier::type_invariant]
    spec fn keyed(&self) -> bool {
        self@.wf()
    }

    /// An empty cache that has never been synchronised.
    pub fn new() -> (c: LocalCache)
        ensures
            c@.wf(),
            c@.tasks == Map::<i64, CachedTaskView>::empty(),
            c@.documents == Map::<i64, CachedDocumentView>::empty(),
            c@.tasks.len() == 0,
            c@.documents.len() == 0,
            c@.last_sync is None,
    {
        let tasks: HashMap<i64, CachedTask> = HashMap::new();
        let documents: HashMap<i64, CachedDocument> = HashMap::new();
        assert(task_entries(tasks@) =~= Map::<i64, CachedTaskView>::empty());
        assert(document_entries(documents@) =~= Map::<i64, CachedDocumentView>::empty());
        LocalCache { tasks, documents, last_sync: None }
    }

    /// Caches `task` as of `now`, with status `Pending`, in place of any
    /// entry under the same identifier.
    pub fn cache_task_at(&mut self, task: Task, version: u64, now: Timestamp)
        ensures
            final(self)@ == old(self)@.with_task(task@, version, now),
            final(self)@.wf(),
            final(self)@.task(cache_key(task@.id)) == Some(
                CachedTaskView {
                    task: task@,
                    last_modified: now,
                    sync_status: SyncStatusView::Pending,
                    version,
                },
            ),
            forall|id: i64|
                id != cache_key(task@.id) ==> #[trigger] final(self)@.task(id) == old(self)@.task(
                    id,
                ),
    {
        proof {
            use_type_invariant(&*self);
        }
        let ghost before = self@;
        let key: i64 = match task.id {
            Some(k) => k,
            None => 0,
        };
        let entry = CachedTask {
            task,
            last_modified: now,
            sync_status: SyncStatus::Pending,
            version,
        };
        let mut tasks: HashMap<i64, CachedTask> = HashMap::new();
        assert(task_entries(tasks@) =~= Map::<i64, CachedTaskView>::empty());
        core::mem::swap(&mut self.tasks, &mut tasks);
        assert(task_entries(tasks@) == before.tasks);
        tasks.insert(key, entry);
        assert(task_entries(tasks@) =~= before.with_task(task@, version, now).tasks);
        self.tasks = tasks;
    }

    /// Caches `task` as of the clock's reading.
    pub fn cache_task(&mut self, task: Task, version: u64)
        ensures
            final(self)@.task(cache_key(task@.id)) is Some,
            final(self)@ == old(self)@.with_task(
                task@,
                version,
                final(self)@.task(cache_key(task@.id))->0.last_modified,
            ),
            final(self)@.wf(),
    {
        let now = Timestamp::now();
        self.cache_task_at(task, version, now);
    }

    /// The entry cached for the task `task_id`.
    pub fn get_cached_task(&self, task_id: i64) -> (r: Option<CachedTask>)
        ensures
            match r {
                Some(e) => self@.task(task_id) == Some(e@),
                None => self@.task(task_id) is None,
            },
    {
        match self.tasks.get(&task_id) {
            Some(e) => Some(e.clone()),
            None => None,
        }
    }

    /// Gives the entry of the task `task_id` the status `status` as of
    /// `now`; without such an entry nothing changes.
    pub fn update_task_sync_status_at(&mut self, task_id: i64, status: SyncStatus, now: Timestamp)
        ensures
            final(self)@ == old(self)@.with_task_status(task_id, status@, now),
            final(self)@.wf(),
            final(self)@.task(task_id) == match old(self)@.task(task_id) {
                Some(e) => Some(
                    CachedTaskView { sync_status: status@, last_modified: now, ..e },
                ),
                None => None,
            },
            forall|id: i64|
                id != task_id ==> #[trigger] final(self)@.task(id) == old(self)@.task(id),
    {
        proof {
            use_type_invariant(&*self);
        }
        let ghost before = self@;
        let changed = match self.tasks.get(&task_id) {
            Some(e) => Some(
                CachedTask {
                    task: e.task.clone(),
                    last_modified: now,
                    sync_status: status,
                    version: e.version,
                },
            ),
            None => None,
        };
        match changed {
            Some(entry) => {
                let mut tasks: HashMap<i64, CachedTask> = HashMap::new();
                assert(task_entries(tasks@) =~= Map::<i64, CachedTaskView>::empty());
                core::mem::swap(&mut self.tasks, &mut tasks);
                assert(task_entries(tasks@) == before.tasks);
                tasks.insert(task_id, entry);
                assert(task_entries(tasks@) =~= before.with_task_status(
                    task_id,
                    status@,
                    now,
                ).tasks);
                self.tasks = tasks;
            },
            None => {},
        }
    }

    /// Gives the entry of the task `task_id` a new status as of the
    /// clock's reading.
    pub fn update_task_sync_status(&mut self, task_id: i64, status: SyncStatus)
        ensures
            final(self)@.wf(),
            old(self)@.task(task_id) is None ==> final(self)@ == old(self)@,
            old(self)@.task(task_id) is Some ==> final(self)@.task(task_id) is Some && final(self)@
                == old(self)@.with_task_status(
                task_id,
                status@,
                final(self)@.task(task_id)->0.last_modified,
            ),
    {
        let now = Timestamp::now();
        self.update_task_sync_status_at(task_id, status, now);
    }

    /// Caches `document` as of `now`, with status `Pending`, in place of
    /// any entry under the same identifier.
    pub fn cache_document_at(&mut self, document: Document, version: u64, now: Timestamp)
        ensures
            final(self)@ == old(self)@.with_document(document@, version, now),
            final(self)@.wf(),
            final(self)@.document(cache_key(document@.id)) == Some(
                CachedDocumentView {
                    document: document@,
                    last_modified: now,
                    sync_status: SyncStatusView::Pending,
                    version,
                },
            ),
            forall|id: i64|
                id != cache_key(document@.id) ==> #[trigger] final(self)@.document(id)
                    == old(self)@.document(id),
    {
        proof {
            use_type_invariant(&*self);
        }
        let ghost before = self@;
        let key: i64 = match document.id {
            Some(k) => k,
            None => 0,
        };
        let entry = CachedDocument {
            document,
            last_modified: now,
            sync_status: SyncStatus::Pending,
            version,
        };
        let mut documents: HashMap<i64, CachedDocument> = HashMap::new();
        assert(document_entries(documents@) =~= Map::<i64, CachedDocumentView>::empty());
        core::mem::swap(&mut self.documents, &mut documents);
        assert(document_entries(documents@) == before.documents);
        documents.insert(key, entry);
        assert(document_entries(documents@) =~= before.with_document(
            document@,
            version,
            now,
        ).documents);
        self.documents = documents;
    }

    /// Caches `document` as of the clock's reading.
    pub fn cache_document(&mut self, document: Document, version: u64)
        ensures
            final(self)@.document(cache_key(document@.id)) is Some,
            final(self)@ == old(self)@.with_document(
                document@,
                version,
                final(self)@.document(cache_key(document@.id))->0.last_modified,
            ),
            final(self)@.wf(),
    {
        let now = Timestamp::now();
        self.cache_document_at(document, version, now);
    }

    /// The entry cached for the document `document_id`.
    pub fn get_cached_document(&self, document_id: i64) -> (r: Option<CachedDocument>)
        ensures
            match r {
                Some(e) => self@.document(document_id) == Some(e@),
                None => self@.document(document_id) is None,
            },
    {
        match self.documents.get(&document_id) {
            Some(e) => Some(e.clone()),
            None => None,
        }
    }

    /// Gives the entry of the document `document_id` the status `status`
    /// as of `now`; without such an entry nothing changes.
    pub fn update_document_sync_status_at(
        &mut self,
        document_id: i64,
        status: SyncStatus,
        now: Timestamp,
    )
        ensures
            final(self)@ == old(self)@.with_document_status(document_id, status@, now),
            final(self)@.wf(),
            final(self)@.document(document_id) == match old(self)@.document(document_id) {
                Some(e) => Some(
                    CachedDocumentView { sync_status: status@, last_modified: now, ..e },
                ),
                None => None,
            },
            forall|id: i64|
                id != document_id ==> #[trigger] final(self)@.document(id) == old(self)@.document(
                    id,
                ),
    {
        proof {
            use_type_invariant(&*self);
        }
        let ghost before = self@;
        let changed = match self.documents.get(&document_id) {
            Some(e) => Some(
                CachedDocument {
                    document: e.document.clone(),
                    last_modified: now,
                    sync_status: status,
                    version: e.version,
                },
            ),
            None => None,
        };
        match changed {
            Some(entry) => {
                let mut documents: HashMap<i64, CachedDocument> = HashMap::new();
                assert(document_entries(documents@) =~= Map::<i64, CachedDocumentView>::empty());
                core::mem::swap(&mut self.documents, &mut documents);
                assert(document_entries(documents@) == before.documents);
                documents.insert(document_id, entry);
                assert(document_entries(documents@) =~= before.with_document_status(
                    document_id,
                    status@,
                    now,
                ).documents);
                self.documents = documents;
            },
            None => {},
        }
    }

    /// Gives the entry of the document `document_id` a new status as of
    /// the clock's reading.
    pub fn update_document_sync_status(&mut self, document_id: i64, status: SyncStatus)
        ensures
            final(self)@.wf(),
            old(self)@.document(document_id) is None ==> final(self)@ == old(self)@,
            old(self)@.document(document_id) is Some ==> final(self)@.document(document_id)
                is Some && final(self)@ == old(self)@.with_document_status(
                document_id,
                status@,
                final(self)@.document(document_id)->0.last_modified,
            ),
    {
        let now = Timestamp::now();
        self.update_document_sync_status_at(document_id, status, now);
    }

    /// Records when the last synchronisation pass began.
    pub fn set_last_sync(&mut self, timestamp: Timestamp)
        ensures
            final(self)@ == (CacheView { last_sync: Some(timestamp), ..old(self)@ }),
            final(self)@.wf(),
    {
        proof {
            use_type_invariant(&*self);
        }
        self.last_sync = Some(timestamp);
    }

    /// When the last synchronisation pass began, if there was one.
    pub fn get_last_sync(&self) -> (r: Option<Timestamp>)
        ensures
            r == self@.last_sync,
    {
        self.last_sync
    }

    /// Every cached task, once, in no particular order.
    pub fn get_all_cached_tasks(&self) -> (r: Vec<CachedTask>)
        ensures
            lists_all(self@.tasks, cached_task_views(r@)),
            r@.len() == self@.tasks.len(),
    {
        let mut r: Vec<CachedTask> = Vec::new();
        let ghost ids = self.tasks.keys().remaining().unref();
        for id in it: self.tasks.keys()
            invariant
                it.seq().unref() == ids,
                ids.no_duplicates(),
                ids.to_set() == self.tasks@.dom(),
                ids.len() == self.tasks@.dom().len(),
                r.len() == it.index(),
                forall|i: int|
                    0 <= i < it.index() ==> r@[i]@ == task_entries(self.tasks@)[#[trigger] ids[i]],
        {
            assert(ids.contains(*id));
            assert(self.tasks@.dom().contains(*id));
            match self.tasks.get(id) {
                Some(e) => {
                    r.push(e.clone());
                },
                None => {
                    assert(false);
                },
            }
        }
        proof {
            assert(self@.tasks.dom() =~= self.tasks@.dom());
            assert(listed_under(self@.tasks, ids, cached_task_views(r@)));
        }
        r
    }

    /// Every cached document, once, in no particular order.
    pub fn get_all_cached_documents(&self) -> (r: Vec<CachedDocument>)
        ensures
            lists_all(self@.documents, cached_document_views(r@)),
            r@.len() == self@.documents.len(),
    {
        let mut r: Vec<CachedDocument> = Vec::new();
        let ghost ids = self.documents.keys().remaining().unref();
        for id in it: self.documents.keys()
            invariant
                it.seq().unref() == ids,
                ids.no_duplicates(),
                ids.to_set() == self.documents@.dom(),
                ids.len() == self.documents@.dom().len(),
                r.len() == it.index(),
                forall|i: int|
                    0 <= i < it.index() ==> r@[i]@ == document_entries(
                        self.documents@,
                    )[#[trigger] ids[i]],
        {
            assert(ids.contains(*id));
            assert(self.documents@.dom().contains(*id));
            match self.documents.get(id) {
                Some(e) => {
                    r.push(e.clone());
                },
                None => {
                    assert(false);
                },
            }
        }
        proof {
            assert(self@.documents.dom() =~= self.documents@.dom());
            assert(listed_under(self@.documents, ids, cached_document_views(r@)));
        }
        r
    }

    /// Forgets every entry and the time of the last synchronisation.
    pub fn clear(&mut self)
        ensures
            final(self)@.tasks.len() == 0,
            final(self)@.documents.len() == 0,
            final(self)@.last_sync is None,
            final(self)@.wf(),
    {
        proof {
            use_type_invariant(&*self);
        }
        let tasks: HashMap<i64, CachedTask> = HashMap::new();
        let documents: HashMap<i64, CachedDocument> = HashMap::new();
        assert(task_entries(tasks@) =~= Map::<i64, CachedTaskView>::empty());
        assert(document_entries(documents@) =~= Map::<i64, CachedDocumentView>::empty());
        self.tasks = tasks;
        self.documents = documents;
        self.last_sync = None;
    }
}

} // verus!
