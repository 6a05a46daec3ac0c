//! Reconciling a local and a remote version of one record.

use vstd::prelude::*;
use crate::document::{merge_json_objects, json_members, Document, DocumentView};
use crate::status::Priority;
use crate::task::{
    clone_annotations, clone_texts, contains_text, lemma_push_contains, lemma_push_no_duplicates,
    annotation_views, Task, TaskView,
};
use crate::text::texts;

verus! {

/// How a conflict between a local and a remote version is settled.
#[derive(Debug, Clone, Copy, PartialEq, Eq, Structural)]
pub enum ConflictResolution {
    /// The local version stands.
    LocalWins,
    /// The remote version stands.
    RemoteWins,
    /// The version modified last stands; the remote one where both were
    /// modified at the same instant.
    Manual,
    /// The two versions are merged field by field.
    Merge,
}

/// The tags of `local`, then each tag of `remote` that did not come before.
pub open spec fn union_tags(local: Seq<Seq<char>>, remote: Seq<Seq<char>>) -> Seq<Seq<char>>
    decreases remote.len(),
{
    if remote.len() == 0 {
        local
    } else {
        let earlier = union_tags(local, remote.drop_last());
        if earlier.contains(remote.last()) {
            earlier
        } else {
            earlier.push(remote.last())
        }
    }
}

/// The priority with the greater weight, the local one where the weights
/// are equal; the one that is present where the other is missing.
pub open spec fn higher_priority(local: Option<Priority>, remote: Option<Priority>) -> Option<
    Priority,
> {
    match (local, remote) {
        (Some(l), Some(r)) => if r.weight() > l.weight() {
            Some(r)
        } else {
            Some(l)
        },
        (Some(l), None) => Some(l),
        (None, r) => r,
    }
}

/// The merge of two versions of a task: the local version with the later
/// of the two modification timestamps, the union of the tags, the local
/// annotations followed by the remote ones, and the higher priority.
pub open spec fn merged_task(local: TaskView, remote: TaskView) -> TaskView {
    TaskView {
        modified_date: local.modified_date.spec_latest(remote.modified_date),
        tags: union_tags(local.tags, remote.tags),
        annotations: local.annotations + remote.annotations,
        priority: higher_priority(local.priority, remote.priority),
        ..local
    }
}

/// What a strategy makes of two versions of a task.
pub open spec fn resolved_task(
    local: TaskView,
    remote: TaskView,
    strategy: ConflictResolution,
) -> TaskView {
    match strategy {
        ConflictResolution::LocalWins => local,
        ConflictResolution::RemoteWins => remote,
        ConflictResolution::Manual => if local.modified_date.is_after(remote.modified_date) {
            local
        } else {
            remote
        },
        ConflictResolution::Merge => merged_task(local, remote),
    }
}

/// Whether `merged` is the merge of two versions of a document: the local
/// version with the later of the two update timestamps and, where both
/// carry a JSON object as metadata, an object with the members of both, the
/// remote value standing where both have the key.
pub open spec fn is_merged_document(
    local: DocumentView,
    remote: DocumentView,
    merged: DocumentView,
) -> bool {
    &&& merged == DocumentView {
        updated_at: local.updated_at.spec_latest(remote.updated_at),
        metadata: merged.metadata,
        ..local
    }
    &&& match (local.metadata, remote.metadata) {
        (Some(l), Some(r)) => if json_members(l) is Some && json_members(r) is Some {
            merged.metadata matches Some(m) && json_members(m) == Some(
                json_members(l)->0.union_prefer_right(json_members(r)->0),
            )
        } else {
            merged.metadata == local.metadata
        },
        _ => merged.metadata == local.metadata,
    }
}

/// Whether `resolved` is what a strategy makes of two versions of a
/// document.
pub open spec fn is_resolved_document(
    local: DocumentView,
    remote: DocumentView,
    strategy: ConflictResolution,
    resolved: DocumentView,
) -> bool {
    match strategy {
        ConflictResolution::LocalWins => resolved == local,
        ConflictResolution::RemoteWins => resolved == remote,
        ConflictResolution::Manual => resolved == if local.updated_at.is_after(
            remote.updated_at,
        ) {
            local
        } else {
            remote
        },
        ConflictResolution::Merge => is_merged_document(local, remote, resolved),
    }
}

/// The union of two tag lists holds exactly the tags of either, and none
/// twice where the local list holds none twice.
pub proof fn lemma_union_tags(local: Seq<Seq<char>>, remote: Seq<Seq<char>>)
    ensures
        union_tags(local, remote).to_set() == local.to_set().union(remote.to_set()),
        local.no_duplicates() ==> union_tags(local, remote).no_duplicates(),
        local.len() <= union_tags(local, remote).len() <= local.len() + remote.len(),
        union_tags(local, remote).subrange(0, local.len() as int) == local,
    decreases remote.len(),
{
    if remote.len() == 0 {
        assert(remote.to_set() =~= Set::empty());
        assert(local.to_set().union(remote.to_set()) =~= local.to_set());
        assert(union_tags(local, remote).subrange(0, local.len() as int) =~= local);
    } else {
        let init = remote.drop_last();
        let earlier = union_tags(local, init);
        lemma_union_tags(local, init);
        assert(remote =~= init.push(remote.last()));
        assert(union_tags(local, remote).to_set() =~= local.to_set().union(remote.to_set())) by {
            assert forall|x: Seq<char>|
                union_tags(local, remote).to_set().contains(x) <==> local.to_set().union(
                    remote.to_set(),
                ).contains(x) by {
                lemma_push_contains(init, remote.last(), x);
                lemma_push_contains(earlier, remote.last(), x);
                assert(earlier.to_set().contains(x) <==> local.to_set().contains(x)
                    || init.to_set().contains(x));
            }
        }
        if local.no_duplicates() && !earlier.contains(remote.last()) {
            lemma_push_no_duplicates(earlier, remote.last());
        }
        assert(union_tags(local, remote).subrange(0, local.len() as int) =~= earlier.subrange(
            0,
            local.len() as int,
        ));
    }
}

/// The tags of a merged task are exactly the tags of either version, and
/// its annotations are the local ones followed by the remote ones.
pub proof fn merge_unites(local: TaskView, remote: TaskView)
    ensures
        merged_task(local, remote).tag_set() == local.tag_set().union(remote.tag_set()),
        merged_task(local, remote).annotations == local.annotations + remote.annotations,
{
    lemma_union_tags(local.tags, remote.tags);
}

/// Merging two well-formed versions of a task gives a well-formed task.
pub proof fn merge_preserves_invariants(local: TaskView, remote: TaskView)
    requires
        local.wf(),
        remote.wf(),
    ensures
        merged_task(local, remote).wf(),
{
    lemma_union_tags(local.tags, remote.tags);
}

/// Settles conflicts by a strategy chosen at construction, which each call
/// may override.
#[derive(Debug)]
pub struct ConflictResolver {
    default_strategy: ConflictResolution,
}

impl ConflictResolver {
    /// The strategy used where a call names none.
    pub closed spec fn strategy(&self) -> ConflictResolution {
        self.default_strategy
    }

    /// The strategy that a call uses.
    pub open spec fn chosen(&self, strategy: Option<ConflictResolution>) -> ConflictResolution {
        match strategy {
            Some(s) => s,
            None => self.strategy(),
        }
    }

    /// A resolver that uses `default_strategy` where a call names none.
    pub fn new(default_strategy: ConflictResolution) -> (r: ConflictResolver)
        ensures
            r.strategy() == default_strategy,
    {
        ConflictResolver { default_strategy }
    }

    /// The version of a task that stands after a conflict.
    pub fn resolve_task_conflict(
        &self,
        local_task: &Task,
        remote_task: &Task,
        strategy: Option<ConflictResolution>,
    ) -> (r: Task)
        ensures
            r@ == resolved_task(local_task@, remote_task@, self.chosen(strategy)),
    {
        let strategy = match strategy {
            Some(s) => s,
            None => self.default_strategy,
        };
        match strategy {
            ConflictResolution::LocalWins => local_task.clone(),
            ConflictResolution::RemoteWins => remote_task.clone(),
            ConflictResolution::Manual => {
                if local_task.modified_date.after(&remote_task.modified_date) {
                    local_task.clone()
                } else {
                    remote_task.clone()
                }
            },
            ConflictResolution::Merge => self.merge_tasks(local_task, remote_task),
        }
    }

    /// The merge of two versions of a task.
    pub fn merge_tasks(&self, local_task: &Task, remote_task: &Task) -> (r: Task)
        ensures
            r@ == merged_task(local_task@, remote_task@),
    {
        let mut merged = local_task.clone();
        merged.modified_date = local_task.modified_date.latest(remote_task.modified_date);

        let mut tags = clone_texts(&local_task.tags);
        let mut i: usize = 0;
        while i < remote_task.tags.len()
            invariant
                i <= remote_task.tags.len(),
                texts(tags@) == union_tags(local_task@.tags, remote_task@.tags.take(i as int)),
            decreases remote_task.tags.len() - i,
        {
            let ghost prefix = remote_task@.tags.take(i as int + 1);
            assert(prefix.drop_last() =~= remote_task@.tags.take(i as int));
            assert(prefix.last() == remote_task.tags@[i as int]@);
            if !contains_text(&tags, remote_task.tags[i].as_str()) {
                let ghost earlier = texts(tags@);
                tags.push(remote_task.tags[i].clone());
                assert(texts(tags@) =~= earlier.push(remote_task.tags@[i as int]@));
            }
            i = i + 1;
        }
        assert(remote_task@.tags.take(remote_task.tags.len() as int) =~= remote_task@.tags);
        merged.tags = tags;

        let mut annotations = clone_annotations(&local_task.annotations);
        let mut k: usize = 0;
        while k < remote_task.annotations.len()
            invariant
                k <= remote_task.annotations.len(),
                annotation_views(annotations@) == local_task@.annotations
                    + remote_task@.annotations.take(k as int),
            decreases remote_task.annotations.len() - k,
        {
            let ghost earlier = annotation_views(annotations@);
            annotations.push(remote_task.annotations[k].clone());
            assert(annotation_views(annotations@) =~= earlier.push(
                remote_task.annotations@[k as int]@,
            ));
            assert(annotation_views(annotations@) =~= local_task@.annotations
                + remote_task@.annotations.take(k as int + 1));
            k = k + 1;
        }
        assert(remote_task@.annotations.take(remote_task.annotations.len() as int)
            =~= remote_task@.annotations);
        merged.annotations = annotations;

        merged.priority = match (local_task.priority, remote_task.priority) {
            (Some(l), Some(r)) => {
                if r.urgency_weight() > l.urgency_weight() {
                    Some(r)
                } else {
                    Some(l)
                }
            },
            (Some(l), None) => Some(l),
            (None, r) => r,
        };
        merged
    }

    /// The version of a document that stands after a conflict.
    pub fn resolve_document_conflict(
        &self,
        local_document: &Document,
        remote_document: &Document,
        strategy: Option<ConflictResolution>,
    ) -> (r: Document)
        ensures
            is_resolved_document(
                local_document@,
                remote_document@,
                self.chosen(strategy),
                r@,
            ),
    {
        let strategy = match strategy {
            Some(s) => s,
            None => self.default_strategy,
        };
        match strategy {
            ConflictResolution::LocalWins => local_document.clone(),
            ConflictResolution::RemoteWins => remote_document.clone(),
            ConflictResolution::Manual => {
                if local_document.updated_at.after(&remote_document.updated_at) {
                    local_document.clone()
                } else {
                    remote_document.clone()
                }
            },
            ConflictResolution::Merge => self.merge_documents(local_document, remote_document),
        }
    }

    /// The merge of two versions of a document.
    pub fn merge_documents(&self, local_document: &Document, remote_document: &Document) -> (r:
        Document)
        ensures
            is_merged_document(local_document@, remote_document@, r@),
    {
        let mut merged = local_document.clone();
        merged.updated_at = local_document.updated_at.latest(remote_document.updated_at);
        match (&local_document.metadata, &remote_document.metadata) {
            (Some(l), Some(r)) => {
                match merge_json_objects(l, r) {
                    Some(m) => {
                        merged.metadata = Some(m);
                    },
                    None => {},
                }
            },
            _ => {},
        }
        merged
    }
}

} // verus!
