//! Pending mutations, and the bounded queue that holds them until they are
//! synchronised.

use vstd::prelude::*;
use crate::document::{Document, DocumentView};
use crate::error::EddaResult;
use crate::task::{Task, TaskView};
use crate::time::Timestamp;

verus! {

/// One local mutation that the remote side has not seen yet, with the time
/// at which it was queued.
#[derive(Debug)]
pub enum SyncOperation {
    CreateTask { task: Task, timestamp: Timestamp },
    UpdateTask { task: Task, timestamp: Timestamp },
    DeleteTask { task_id: i64, timestamp: Timestamp },
    CreateDocument { document: Document, timestamp: Timestamp },
    UpdateDocument { document: Document, timestamp: Timestamp },
    DeleteDocument { document_id: i64, timestamp: Timestamp },
}

/// The model of a [`SyncOperation`].
pub ghost enum SyncOperationView {
    CreateTask { task: TaskView, timestamp: Timestamp },
    UpdateTask { task: TaskView, timestamp: Timestamp },
    DeleteTask { task_id: i64, timestamp: Timestamp },
    CreateDocument { document: DocumentView, timestamp: Timestamp },
    UpdateDocument { document: DocumentView, timestamp: Timestamp },
    DeleteDocument { document_id: i64, timestamp: Timestamp },
}

impl View for SyncOperation {
    type V = SyncOperationView;

    open spec fn view(&self) -> SyncOperationView {
        match self {
            SyncOperation::CreateTask { task, timestamp } => SyncOperationView::CreateTask {
                task: task@,
                timestamp: *timestamp,
            },
            SyncOperation::UpdateTask { task, timestamp } => SyncOperationView::UpdateTask {
                task: task@,
                timestamp: *timestamp,
            },
            SyncOperation::DeleteTask { task_id, timestamp } => SyncOperationView::DeleteTask {
                task_id: *task_id,
                timestamp: *timestamp,
            },
            SyncOperation::CreateDocument {
                document,
                timestamp,
            } => SyncOperationView::CreateDocument { document: document@, timestamp: *timestamp },
            SyncOperation::UpdateDocument {
                document,
                timestamp,
            } => SyncOperationView::UpdateDocument { document: document@, timestamp: *timestamp },
            SyncOperation::DeleteDocument {
                document_id,
                timestamp,
            } => SyncOperationView::DeleteDocument {
                document_id: *document_id,
                timestamp: *timestamp,
            },
        }
    }
}

impl Clone for SyncOperation {
    fn clone(&self) -> (r: SyncOperation)
        ensures
            r@ == self@,
    {
        match self {
            SyncOperation::CreateTask { task, timestamp } => SyncOperation::CreateTask {
                task: task.clone(),
                timestamp: *timestamp,
            },
            SyncOperation::UpdateTask { task, timestamp } => SyncOperation::UpdateTask {
                task: task.clone(),
                timestamp: *timestamp,
            },
            SyncOperation::DeleteTask { task_id, timestamp } => SyncOperation::DeleteTask {
                task_id: *task_id,
                timestamp: *timestamp,
            },
            SyncOperation::CreateDocument { document, timestamp } => {
                SyncOperation::CreateDocument { document: document.clone(), timestamp: *timestamp }
            },
            SyncOperation::UpdateDocument { document, timestamp } => {
                SyncOperation::UpdateDocument { document: document.clone(), timestamp: *timestamp }
            },
            SyncOperation::DeleteDocument { document_id, timestamp } => {
                SyncOperation::DeleteDocument {
                    document_id: *document_id,
                    timestamp: *timestamp,
                }
            },
        }
    }
}

/// The models of a sequence of operations.
pub open spec fn operation_views(v: Seq<SyncOperation>) -> Seq<SyncOperationView> {
    Seq::new(v.len(), |i: int| v[i]@)
}

/// A queue of at most `capacity` entries after one more is enqueued: the
/// new entry goes to the back, and the oldest leaves where the queue is
/// full. A queue without capacity holds nothing.
pub open spec fn enqueued<A>(queue: Seq<A>, capacity: nat, entry: A) -> Seq<A> {
    if capacity == 0 {
        queue
    } else if queue.len() >= capacity {
        queue.drop_first().push(entry)
    } else {
        queue.push(entry)
    }
}

/// A queue after each of `entries` is enqueued in turn.
pub open spec fn enqueued_all<A>(queue: Seq<A>, capacity: nat, entries: Seq<A>) -> Seq<A>
    decreases entries.len(),
{
    if entries.len() == 0 {
        queue
    } else {
        enqueued(enqueued_all(queue, capacity, entries.drop_last()), capacity, entries.last())
    }
}

/// The entries whose positions are not in `listed`, in order.
pub open spec fn unlisted<A>(s: Seq<A>, listed: Set<int>) -> Seq<A>
    decreases s.len(),
{
    if s.len() == 0 {
        s
    } else if listed.contains(s.len() - 1) {
        unlisted(s.drop_last(), listed)
    } else {
        unlisted(s.drop_last(), listed).push(s.last())
    }
}

/// The positions that a list of indices names.
pub open spec fn index_set(indices: Seq<usize>) -> Set<int> {
    Set::new(|i: int| exists|k: int| 0 <= k < indices.len() && indices[k] == i)
}

/// The insertion-ordered log of mutations that await synchronisation,
/// bounded by a capacity fixed at construction.
#[derive(Debug)]
pub struct OfflineQueue {
    operations: Vec<SyncOperation>,
    max_operations: usize,
}

impl View for OfflineQueue {
    type V = Seq<SyncOperationView>;

    closed spec fn view(&self) -> Seq<SyncOperationView> {
        operation_views(self.operations@)
    }
}

fn listed(indices: &[usize], position: usize) -> (r: bool)
    ensures
        r == index_set(indices@).contains(position as int),
{
    let mut k: usize = 0;
    while k < indices.len()
        invariant
            k <= indices.len(),
            forall|j: int| 0 <= j < k ==> indices@[j] != position,
        decreases indices.len() - k,
    {
        if indices[k] == position {
            return true;
        }
        k = k + 1;
    }
    false
}

impl OfflineQueue {
    /// The capacity the queue was made with.
    pub closed spec fn capacity(&self) -> nat {
        self.max_operations as nat
    }

    /// The queue never holds more than its capacity.
    #[verifier::type_invariant]
    spec fn within_capacity(&self) -> bool {
        self.operations@.len() <= self.max_operations
    }

    /// An empty queue that holds at most `max_operations` entries.
    pub fn new(max_operations: usize) -> (q: OfflineQueue)
        ensures
            q@ == Seq::<SyncOperationView>::empty(),
            q.capacity() == max_operations,
    {
        let q = OfflineQueue { operations: Vec::new(), max_operations };
        assert(q@ =~= Seq::empty());
        q
    }

    /// Appends an operation; a full queue first drops its oldest entry.
    pub fn enqueue(&mut self, operation: SyncOperation) -> (r: EddaResult<()>)
        ensures
            r is Ok,
            final(self).capacity() == old(self).capacity(),
            final(self)@ == enqueued(old(self)@, old(self).capacity(), operation@),
            final(self)@.len() <= final(self).capacity(),
    {
        proof {
            use_type_invariant(&*self);
        }
        let ghost before = self@;
        if self.max_operations == 0 {
            return Ok(());
        }
        let mut operations: Vec<SyncOperation> = Vec::new();
        core::mem::swap(&mut self.operations, &mut operations);
        assert(operation_views(operations@) == before);
        if operations.len() >= self.max_operations {
            operations.remove(0);
            assert(operation_views(operations@) =~= before.drop_first());
        }
        let ghost middle = operation_views(operations@);
        operations.push(operation);
        assert(operation_views(operations@) =~= middle.push(operation@));
        self.operations = operations;
        Ok(())
    }

    /// A snapshot of the queue, oldest entry first; the queue keeps its
    /// entries.
    pub fn get_pending_operations(&self) -> (r: Vec<SyncOperation>)
        ensures
            operation_views(r@) == self@,
    {
        let mut r: Vec<SyncOperation> = Vec::new();
        let mut i: usize = 0;
        while i < self.operations.len()
            invariant
                i <= self.operations.len(),
                r.len() == i,
                forall|j: int| 0 <= j < i ==> r@[j]@ == self.operations@[j]@,
            decreases self.operations.len() - i,
        {
            r.push(self.operations[i].clone());
            i = i + 1;
        }
        assert(operation_views(r@) =~= self@);
        r
    }

    /// Removes the entries at the given positions and keeps the others in
    /// order. A position beyond the end names nothing.
    pub fn remove_operations(&mut self, indices: &[usize])
        ensures
            final(self).capacity() == old(self).capacity(),
            final(self)@ == unlisted(old(self)@, index_set(indices@)),
    {
        proof {
            use_type_invariant(&*self);
        }
        let ghost before = self@;
        let ghost drop = index_set(indices@);
        let mut kept: Vec<SyncOperation> = Vec::new();
        let mut i: usize = 0;
        while i < self.operations.len()
            invariant
                i <= self.operations.len(),
                self@ == before,
                before.len() == self.operations.len(),
                drop == index_set(indices@),
                kept.len() <= i,
                self.operations.len() <= self.max_operations,
                operation_views(kept@) == unlisted(before.take(i as int), drop),
            decreases self.operations.len() - i,
        {
            let ghost prefix = before.take(i as int + 1);
            assert(prefix.drop_last() =~= before.take(i as int));
            assert(prefix.last() == before[i as int]);
            if !listed(indices, i) {
                let ghost old_kept = operation_views(kept@);
                kept.push(self.operations[i].clone());
                assert(operation_views(kept@) =~= old_kept.push(before[i as int]));
            }
            i = i + 1;
        }
        assert(before.take(before.len() as int) =~= before);
        self.operations = kept;
    }

    /// Empties the queue.
    pub fn clear(&mut self)
        ensures
            final(self).capacity() == old(self).capacity(),
            final(self)@ == Seq::<SyncOperationView>::empty(),
    {
        self.operations = Vec::new();
        assert(self@ =~= Seq::empty());
    }

    /// The number of queued operations.
    pub fn len(&self) -> (n: usize)
        ensures
            n == self@.len(),
            n <= self.capacity(),
    {
        proof {
            use_type_invariant(self);
        }
        self.operations.len()
    }

    /// Whether nothing is queued.
    pub fn is_empty(&self) -> (r: bool)
        ensures
            r == (self@.len() == 0),
    {
        self.operations.len() == 0
    }
}

/// The last `n` entries of a sequence, or all of it where it has fewer.
pub open spec fn newest<A>(s: Seq<A>, n: nat) -> Seq<A> {
    if s.len() <= n {
        s
    } else {
        s.subrange(s.len() - n, s.len() as int)
    }
}

/// Enqueuing any entries into a queue within its capacity leaves the newest
/// ones: of the old entries followed by the new ones, the last `capacity`.
pub proof fn lemma_enqueued_all<A>(queue: Seq<A>, capacity: nat, entries: Seq<A>)
    requires
        queue.len() <= capacity,
    ensures
        enqueued_all(queue, capacity, entries) == newest(queue + entries, capacity),
        enqueued_all(queue, capacity, entries).len() <= capacity,
    decreases entries.len(),
{
    if entries.len() == 0 {
        assert(queue + entries =~= queue);
    } else {
        let init = entries.drop_last();
        lemma_enqueued_all(queue, capacity, init);
        let before = enqueued_all(queue, capacity, init);
        assert(queue + entries =~= (queue + init).push(entries.last()));
        assert(enqueued(before, capacity, entries.last()) =~= newest(
            queue + entries,
            capacity,
        ));
    }
}

/// A queue of capacity `n` that starts empty and takes `n + 1` entries ends
/// with `n` entries: all but the one enqueued first.
pub proof fn overflow_drops_oldest<A>(capacity: nat, entries: Seq<A>)
    requires
        entries.len() == capacity + 1,
    ensures
        enqueued_all(Seq::<A>::empty(), capacity, entries).len() == capacity,
        enqueued_all(Seq::<A>::empty(), capacity, entries) == entries.drop_first(),
{
    lemma_enqueued_all(Seq::<A>::empty(), capacity, entries);
    assert(Seq::<A>::empty() + entries =~= entries);
    assert(newest(entries, capacity) =~= entries.drop_first());
}

} // verus!
