//! The task entity: its fields, its model, and the mutations that keep its
//! invariants.

use std::collections::HashSet;
use vstd::prelude::*;
use vstd::std_specs::hash::*;
use vstd::std_specs::iter::IteratorSpec;
use vstd::string::*;
use crate::error::TaskError;
use crate::status::{Priority, TaskStatus};
use crate::text::{blank, i64_to_string, join, joined, signed_decimal, str_eq, texts};
use crate::time::{Timestamp, NANOS_PER_DAY};

verus! {

broadcast use vstd::std_specs::hash::group_hash_axioms;

/// A note attached to a task.
#[derive(Debug, PartialEq, Eq)]
pub struct Annotation {
    pub entry: Timestamp,
    pub description: String,
}

/// The model of an [`Annotation`].
pub ghost struct AnnotationView {
    pub entry: Timestamp,
    pub description: Seq<char>,
}

impl View for Annotation {
    type V = AnnotationView;

    open spec fn view(&self) -> AnnotationView {
        AnnotationView { entry: self.entry, description: self.description@ }
    }
}

impl Clone for Annotation {
    fn clone(&self) -> (r: Annotation)
        ensures
            r@ == self@,
    {
        Annotation { entry: self.entry, description: self.description.clone() }
    }
}

/// A trackable unit of work.
#[derive(Debug, PartialEq, Eq)]
pub struct Task {
    /// Identifier assigned by the store; `None` until the task is stored.
    pub id: Option<i64>,
    /// Globally unique identifier, fixed at creation.
    pub uuid: u128,
    pub description: String,
    pub status: TaskStatus,
    pub priority: Option<Priority>,
    pub project: Option<String>,
    pub due_date: Option<Timestamp>,
    pub scheduled_date: Option<Timestamp>,
    pub start_date: Option<Timestamp>,
    pub end_date: Option<Timestamp>,
    pub entry_date: Timestamp,
    pub modified_date: Timestamp,
    /// The tags, each once, in the order in which they were added.
    pub tags: Vec<String>,
    pub annotations: Vec<Annotation>,
    pub parent_uuid: Option<u128>,
    /// Unique identifiers of the tasks this one depends on.
    pub depends: HashSet<u128>,
    pub recurrence: Option<String>,
    /// Estimated effort in minutes.
    pub effort: Option<u32>,
    /// Effort spent in minutes.
    pub effort_spent: Option<u32>,
}

/// The model of a [`Task`]: its fields with every text as a sequence of
/// characters.
pub ghost struct TaskView {
    pub id: Option<i64>,
    pub uuid: u128,
    pub description: Seq<char>,
    pub status: TaskStatus,
    pub priority: Option<Priority>,
    pub project: Option<Seq<char>>,
    pub due_date: Option<Timestamp>,
    pub scheduled_date: Option<Timestamp>,
    pub start_date: Option<Timestamp>,
    pub end_date: Option<Timestamp>,
    pub entry_date: Timestamp,
    pub modified_date: Timestamp,
    pub tags: Seq<Seq<char>>,
    pub annotations: Seq<AnnotationView>,
    pub parent_uuid: Option<u128>,
    pub depends: Set<u128>,
    pub recurrence: Option<Seq<char>>,
    pub effort: Option<u32>,
    pub effort_spent: Option<u32>,
}

/// The characters of an optional text.
pub open spec fn opt_text(o: Option<String>) -> Option<Seq<char>> {
    match o {
        Some(s) => Some(s@),
        None => None,
    }
}

/// The models of a sequence of annotations.
pub open spec fn annotation_views(v: Seq<Annotation>) -> Seq<AnnotationView> {
    Seq::new(v.len(), |i: int| v[i]@)
}

/// A sequence without every occurrence of `x`, the rest in order.
pub open spec fn without(s: Seq<Seq<char>>, x: Seq<char>) -> Seq<Seq<char>>
    decreases s.len(),
{
    if s.len() == 0 {
        s
    } else if s.last() == x {
        without(s.drop_last(), x)
    } else {
        without(s.drop_last(), x).push(s.last())
    }
}

impl View for Task {
    type V = TaskView;

    open spec fn view(&self) -> TaskView {
        TaskView {
            id: self.id,
            uuid: self.uuid,
            description: self.description@,
            status: self.status,
            priority: self.priority,
            project: opt_text(self.project),
            due_date: self.due_date,
            scheduled_date: self.scheduled_date,
            start_date: self.start_date,
            end_date: self.end_date,
            entry_date: self.entry_date,
            modified_date: self.modified_date,
            tags: texts(self.tags@),
            annotations: annotation_views(self.annotations@),
            parent_uuid: self.parent_uuid,
            depends: self.depends@,
            recurrence: opt_text(self.recurrence),
            effort: self.effort,
            effort_spent: self.effort_spent,
        }
    }
}

impl TaskView {
    /// The invariants of a task: a description that is not blank, a
    /// modification no earlier than the entry, no tag twice, and a numeric
    /// priority within 0 to 9.
    pub open spec fn wf(self) -> bool {
        &&& !blank(self.description)
        &&& !self.entry_date.is_after(self.modified_date)
        &&& self.tags.no_duplicates()
        &&& match self.priority {
            Some(p) => p.wf(),
            None => true,
        }
    }

    /// A task as it is created: pending, unstored, with nothing set but
    /// its description, its unique identifier and its two timestamps.
    pub open spec fn fresh(description: Seq<char>, uuid: u128, now: Timestamp) -> TaskView {
        TaskView {
            id: None,
            uuid,
            description,
            status: TaskStatus::Pending,
            priority: None,
            project: None,
            due_date: None,
            scheduled_date: None,
            start_date: None,
            end_date: None,
            entry_date: now,
            modified_date: now,
            tags: Seq::empty(),
            annotations: Seq::empty(),
            parent_uuid: None,
            depends: Set::empty(),
            recurrence: None,
            effort: None,
            effort_spent: None,
        }
    }

    /// The tags as a set.
    pub open spec fn tag_set(self) -> Set<Seq<char>> {
        self.tags.to_set()
    }

    /// The task after a mutation at `now`: the modification timestamp moves
    /// to `now` unless it is already later.
    pub open spec fn touched(self, now: Timestamp) -> TaskView {
        TaskView { modified_date: self.modified_date.spec_latest(now), ..self }
    }

    /// The task after `tag` is added at `now`, unless it has the tag.
    pub open spec fn with_tag(self, tag: Seq<char>, now: Timestamp) -> TaskView {
        let tags = if self.tags.contains(tag) {
            self.tags
        } else {
            self.tags.push(tag)
        };
        TaskView { tags, ..self }.touched(now)
    }

    /// The task after `tag` is removed at `now`; the task itself where it
    /// lacks the tag.
    pub open spec fn without_tag(self, tag: Seq<char>, now: Timestamp) -> TaskView {
        if self.tags.contains(tag) {
            TaskView { tags: without(self.tags, tag), ..self }.touched(now)
        } else {
            self
        }
    }

    /// The task after a note is appended at `now`.
    pub open spec fn annotated(self, text: Seq<char>, now: Timestamp) -> TaskView {
        TaskView {
            annotations: self.annotations.push(AnnotationView { entry: now, description: text }),
            ..self
        }.touched(now)
    }

    /// The task after it is started at `now`.
    pub open spec fn started(self, now: Timestamp) -> TaskView {
        TaskView { start_date: Some(now), ..self }.touched(now)
    }

    /// The task after its start timestamp is cleared at `now`.
    pub open spec fn stopped(self, now: Timestamp) -> TaskView {
        TaskView { start_date: None, ..self }.touched(now)
    }

    /// The task after it is completed at `now`.
    pub open spec fn completed(self, now: Timestamp) -> TaskView {
        TaskView { status: TaskStatus::Completed, end_date: Some(now), ..self }.touched(now)
    }

    /// The task after it is deleted at `now`.
    pub open spec fn deleted(self, now: Timestamp) -> TaskView {
        TaskView { status: TaskStatus::Deleted, ..self }.touched(now)
    }

    /// Active, with a due date that `now` has passed.
    pub open spec fn overdue(self, now: Timestamp) -> bool {
        match self.due_date {
            Some(due) => self.status.active() && now.is_after(due),
            None => false,
        }
    }

    /// The tags in one line: each after a plus sign, with a blank between
    /// two.
    pub open spec fn tag_line(self) -> Seq<char> {
        joined(Seq::new(self.tags.len(), |i: int| "+"@ + self.tags[i]), " "@)
    }

    /// The one-line label of the task: its identifier (0 while it has
    /// none), the label of its priority, its project in brackets, and its
    /// tags, each after a plus sign.
    pub open spec fn label(self) -> Seq<char> {
        signed_decimal(
            match self.id {
                Some(i) => i as int,
                None => 0,
            },
        ) + (match self.priority {
            Some(p) => p.label(),
            None => Seq::empty(),
        }) + (match self.project {
            Some(p) => " ["@ + p + "]"@,
            None => Seq::empty(),
        }) + (if self.tags.len() == 0 {
            Seq::empty()
        } else {
            " "@ + self.tag_line()
        })
    }

    /// Whole days from the entry to `now`.
    pub open spec fn age_days(self, now: Timestamp) -> int {
        now.spec_days_since(self.entry_date)
    }

    /// What the priority adds to the urgency.
    pub open spec fn priority_urgency(self) -> int {
        match self.priority {
            Some(p) => p.weight(),
            None => 0,
        }
    }

    /// What the due date adds to the urgency: 15 once it has passed, 10
    /// while it is at most one day away, 5 while it is at most seven days
    /// away, and nothing before that.
    pub open spec fn due_urgency(self, now: Timestamp) -> int {
        match self.due_date {
            Some(due) => if now.is_after(due) {
                15
            } else if due.as_nanos() - now.as_nanos() <= NANOS_PER_DAY {
                10
            } else if due.as_nanos() - now.as_nanos() <= 7 * NANOS_PER_DAY {
                5
            } else {
                0
            },
            None => 0,
        }
    }

    /// What the age adds to the urgency: 2 once the entry lies more than
    /// 30 days back, 1 once it lies more than 7 days back.
    pub open spec fn age_urgency(self, now: Timestamp) -> int {
        if now.as_nanos() - self.entry_date.as_nanos() > 30 * NANOS_PER_DAY {
            2
        } else if now.as_nanos() - self.entry_date.as_nanos() > 7 * NANOS_PER_DAY {
            1
        } else {
            0
        }
    }

    /// The urgency score at `now`.
    pub open spec fn urgency(self, now: Timestamp) -> int {
        self.priority_urgency() + self.due_urgency(now) + self.age_urgency(now)
    }
}

/// The bits of a unique identifier that hold its version and its variant.
pub const UUID_FORM_MASK: u128 = 0x0000_0000_0000_F000_C000_0000_0000_0000;

/// The version and variant bits of a random identifier: version 4, and the
/// variant of RFC 4122.
pub const UUID_RANDOM_FORM: u128 = 0x0000_0000_0000_4000_8000_0000_0000_0000;

/// Whether an identifier has the form of a random one: its version is 4
/// and its variant that of RFC 4122. The nil identifier has not.
pub open spec fn random_form(id: u128) -> bool {
    id & UUID_FORM_MASK == UUID_RANDOM_FORM
}

/// Draws a random identifier with `uuid::Uuid::new_v4`, which sets the
/// version bits to 4 and the variant bits to the variant of RFC 4122
/// whatever it has drawn; the identifier therefore differs from the nil
/// one.
#[verifier::external_body]
pub(crate) fn random_uuid() -> (id: u128)
    ensures
        id != 0,
        random_form(id),
{
    uuid::Uuid::new_v4().as_u128()
}

/// A random unique identifier: one of version 4 and of the variant of
/// RFC 4122, and so never the nil identifier.
pub fn new_uuid() -> (id: u128)
    ensures
        id != 0,
        random_form(id),
{
    random_uuid()
}

/// A copy of an optional text.
pub fn clone_opt_text(o: &Option<String>) -> (r: Option<String>)
    ensures
        opt_text(r) == opt_text(*o),
{
    match o {
        Some(s) => Some(s.clone()),
        None => None,
    }
}

/// A copy of a list of texts.
pub fn clone_texts(v: &Vec<String>) -> (r: Vec<String>)
    ensures
        texts(r@) == texts(v@),
{
    let mut r: Vec<String> = Vec::new();
    let mut i: usize = 0;
    while i < v.len()
        invariant
            i <= v.len(),
            r.len() == i,
            forall|j: int| 0 <= j < i ==> r@[j]@ == v@[j]@,
        decreases v.len() - i,
    {
        r.push(v[i].clone());
        i = i + 1;
    }
    assert(texts(r@) =~= texts(v@));
    r
}

/// A copy of a list of annotations.
pub fn clone_annotations(v: &Vec<Annotation>) -> (r: Vec<Annotation>)
    ensures
        annotation_views(r@) == annotation_views(v@),
{
    let mut r: Vec<Annotation> = Vec::new();
    let mut i: usize = 0;
    while i < v.len()
        invariant
            i <= v.len(),
            r.len() == i,
            forall|j: int| 0 <= j < i ==> r@[j]@ == v@[j]@,
        decreases v.len() - i,
    {
        r.push(v[i].clone());
        i = i + 1;
    }
    assert(annotation_views(r@) =~= annotation_views(v@));
    r
}

/// A sequence with each of its values once, at the place where the value
/// comes first.
pub open spec fn distinct<A>(s: Seq<A>) -> Seq<A>
    decreases s.len(),
{
    if s.len() == 0 {
        s
    } else if distinct(s.drop_last()).contains(s.last()) {
        distinct(s.drop_last())
    } else {
        distinct(s.drop_last()).push(s.last())
    }
}

/// What `distinct` leaves holds every value of the sequence, none twice,
/// and is the sequence itself where that holds none twice.
pub proof fn lemma_distinct<A>(s: Seq<A>)
    ensures
        distinct(s).no_duplicates(),
        distinct(s).to_set() == s.to_set(),
        s.no_duplicates() ==> distinct(s) == s,
    decreases s.len(),
{
    if s.len() == 0 {
    } else {
        let init = s.drop_last();
        lemma_distinct(init);
        let d = distinct(init);
        assert(s =~= init.push(s.last()));
        if !d.contains(s.last()) {
            lemma_push_no_duplicates(d, s.last());
        }
        assert(distinct(s).to_set() =~= s.to_set()) by {
            assert forall|x: A| distinct(s).to_set().contains(x) <==> s.to_set().contains(x) by {
                lemma_push_contains(init, s.last(), x);
                lemma_push_contains(d, s.last(), x);
                assert(d.to_set().contains(x) <==> init.to_set().contains(x));
            }
        }
        if s.no_duplicates() {
            assert(init.no_duplicates());
            assert(!init.contains(s.last())) by {
                if init.contains(s.last()) {
                    let i = choose|i: int| 0 <= i < init.len() && init[i] == s.last();
                    assert(s[i] == s[s.len() - 1]);
                }
            }
            assert(!d.to_set().contains(s.last()));
            assert(distinct(s) =~= s);
        }
    }
}

/// The texts of `v`, each once, in the order in which they come first.
pub fn distinct_texts(v: &Vec<String>) -> (r: Vec<String>)
    ensures
        texts(r@) == distinct(texts(v@)),
        texts(r@).no_duplicates(),
{
    let mut r: Vec<String> = Vec::new();
    let mut i: usize = 0;
    assert(texts(r@) =~= distinct(texts(v@).take(0)));
    while i < v.len()
        invariant
            i <= v.len(),
            texts(r@) == distinct(texts(v@).take(i as int)),
        decreases v.len() - i,
    {
        let ghost prefix = texts(v@).take(i as int + 1);
        assert(prefix.drop_last() =~= texts(v@).take(i as int));
        assert(prefix.last() == v@[i as int]@);
        if !contains_text(&r, v[i].as_str()) {
            let ghost earlier = texts(r@);
            r.push(v[i].clone());
            assert(texts(r@) =~= earlier.push(v@[i as int]@));
        }
        i = i + 1;
    }
    proof {
        assert(texts(v@).take(v.len() as int) =~= texts(v@));
        lemma_distinct(texts(v@));
    }
    r
}

/// The identifiers of `v` as a set.
pub fn id_set(v: &Vec<u128>) -> (r: HashSet<u128>)
    ensures
        r@ == v@.to_set(),
{
    let mut r: HashSet<u128> = HashSet::new();
    let mut i: usize = 0;
    assert(r@ =~= v@.take(0).to_set());
    while i < v.len()
        invariant
            i <= v.len(),
            r@ == v@.take(i as int).to_set(),
        decreases v.len() - i,
    {
        let ghost earlier = v@.take(i as int);
        r.insert(v[i]);
        assert(r@ =~= v@.take(i as int + 1).to_set()) by {
            assert(v@.take(i as int + 1) =~= earlier.push(v@[i as int]));
            assert forall|x: u128|
                earlier.push(v@[i as int]).to_set().contains(x) <==> earlier.to_set().insert(
                    v@[i as int],
                ).contains(x) by {
                lemma_push_contains(earlier, v@[i as int], x);
            }
        }
        i = i + 1;
    }
    assert(v@.take(v.len() as int) =~= v@);
    r
}

/// A copy of a set of unique identifiers.
pub fn clone_id_set(s: &HashSet<u128>) -> (r: HashSet<u128>)
    ensures
        r@ == s@,
{
    let mut r: HashSet<u128> = HashSet::new();
    let ghost ids = s.iter().remaining().unref();
    assert(r@ =~= ids.take(0).to_set());
    for id in it: s.iter()
        invariant
            it.seq().unref() == ids,
            ids.to_set() == s@,
            r@ == ids.take(it.index() as int).to_set(),
    {
        let ghost k = it.index() as int;
        let ghost earlier = ids.take(k);
        r.insert(*id);
        assert(r@ =~= ids.take(k + 1).to_set()) by {
            assert(ids.take(k + 1) =~= earlier.push(ids[k]));
            assert forall|x: u128|
                earlier.push(ids[k]).to_set().contains(x) <==> earlier.to_set().insert(
                    ids[k],
                ).contains(x) by {
                lemma_push_contains(earlier, ids[k], x);
            }
        }
    }
    assert(ids.take(ids.len() as int) =~= ids);
    r
}

/// Whether one of the texts of `v` is `text`.
pub fn contains_text(v: &Vec<String>, text: &str) -> (r: bool)
    ensures
        r == texts(v@).contains(text@),
{
    let mut i: usize = 0;
    while i < v.len()
        invariant
            i <= v.len(),
            forall|j: int| 0 <= j < i ==> texts(v@)[j] != text@,
        decreases v.len() - i,
    {
        if str_eq(v[i].as_str(), text) {
            assert(texts(v@)[i as int] == text@);
            return true;
        }
        i = i + 1;
    }
    false
}

impl Clone for Task {
    fn clone(&self) -> (r: Task)
        ensures
            r@ == self@,
    {
        Task {
            id: self.id,
            uuid: self.uuid,
            description: self.description.clone(),
            status: self.status,
            priority: self.priority,
            project: clone_opt_text(&self.project),
            due_date: self.due_date,
            scheduled_date: self.scheduled_date,
            start_date: self.start_date,
            end_date: self.end_date,
            entry_date: self.entry_date,
            modified_date: self.modified_date,
            tags: clone_texts(&self.tags),
            annotations: clone_annotations(&self.annotations),
            parent_uuid: self.parent_uuid,
            depends: clone_id_set(&self.depends),
            recurrence: clone_opt_text(&self.recurrence),
            effort: self.effort,
            effort_spent: self.effort_spent,
        }
    }
}

/// A value is in a sequence with one more element exactly when it is in
/// the sequence or is that element.
pub proof fn lemma_push_contains<T>(a: Seq<T>, e: T, y: T)
    ensures
        a.push(e).contains(y) <==> a.contains(y) || e == y,
{
    if a.push(e).contains(y) {
        let i = choose|i: int| 0 <= i < a.push(e).len() && a.push(e)[i] == y;
        if i < a.len() {
            assert(a[i] == y);
        }
    }
    if a.contains(y) {
        let i = choose|i: int| 0 <= i < a.len() && a[i] == y;
        assert(a.push(e)[i] == y);
    }
    if e == y {
        assert(a.push(e)[a.len() as int] == y);
    }
}

/// Adding a value that a duplicate-free sequence lacks keeps it free of
/// duplicates.
pub proof fn lemma_push_no_duplicates<T>(a: Seq<T>, e: T)
    requires
        a.no_duplicates(),
        !a.contains(e),
    ensures
        a.push(e).no_duplicates(),
{
    assert forall|i: int, j: int|
        0 <= i < a.push(e).len() && 0 <= j < a.push(e).len() && i != j implies a.push(e)[i]
        != a.push(e)[j] by {
        if i < a.len() && j < a.len() {
        } else if i < a.len() {
            assert(a.contains(a[i]));
        } else {
            assert(a.contains(a[j]));
        }
    }
}

/// What is left after removing `x` holds `y` exactly when the sequence
/// held `y` and `y` is not `x`.
pub proof fn lemma_without_member(s: Seq<Seq<char>>, x: Seq<char>, y: Seq<char>)
    ensures
        without(s, x).contains(y) <==> s.contains(y) && y != x,
    decreases s.len(),
{
    if s.len() > 0 {
        let init = s.drop_last();
        lemma_without_member(init, x, y);
        assert(s =~= init.push(s.last()));
        lemma_push_contains(init, s.last(), y);
        if s.last() != x {
            lemma_push_contains(without(init, x), s.last(), y);
        }
    }
}

/// Removing a value keeps a sequence free of duplicates, and changes
/// nothing where the value does not occur.
pub proof fn lemma_without(s: Seq<Seq<char>>, x: Seq<char>)
    ensures
        s.no_duplicates() ==> without(s, x).no_duplicates(),
        !s.contains(x) ==> without(s, x) == s,
        without(s, x).to_set() == s.to_set().remove(x),
    decreases s.len(),
{
    assert(without(s, x).to_set() =~= s.to_set().remove(x)) by {
        assert forall|y: Seq<char>|
            without(s, x).to_set().contains(y) <==> s.to_set().remove(x).contains(y) by {
            lemma_without_member(s, x, y);
        }
    }
    if s.len() > 0 {
        let init = s.drop_last();
        lemma_without(init, x);
        assert(s =~= init.push(s.last()));
        if s.no_duplicates() {
            assert(init.no_duplicates());
            if s.last() != x {
                lemma_without_member(init, x, s.last());
                assert(!init.contains(s.last())) by {
                    if init.contains(s.last()) {
                        let i = choose|i: int| 0 <= i < init.len() && init[i] == s.last();
                        assert(s[i] == s[s.len() - 1]);
                    }
                }
                lemma_push_no_duplicates(without(init, x), s.last());
            }
        }
        if !s.contains(x) {
            lemma_push_contains(init, s.last(), x);
            assert(without(s, x) =~= s);
        }
    }
}

impl Task {
    /// Whether the task meets the invariants of its model.
    pub open spec fn wf(&self) -> bool {
        self@.wf()
    }

    /// A new task for `description`, with a random unique identifier and
    /// the clock's reading as its entry and modification timestamps.
    pub fn new(description: String) -> (t: Task)
        ensures
            t@ == TaskView::fresh(description@, t@.uuid, t@.entry_date),
            t@.uuid != 0,
            !blank(description@) ==> t.wf(),
    {
        let uuid = random_uuid();
        let now = Timestamp::now();
        Task::create(description, uuid, now)
    }

    /// A new task for `description` with the given unique identifier,
    /// entered at `now`.
    pub fn create(description: String, uuid: u128, now: Timestamp) -> (t: Task)
        ensures
            t@ == TaskView::fresh(description@, uuid, now),
            !blank(description@) ==> t.wf(),
    {
        let t = Task {
            id: None,
            uuid,
            description,
            status: TaskStatus::Pending,
            priority: None,
            project: None,
            due_date: None,
            scheduled_date: None,
            start_date: None,
            end_date: None,
            entry_date: now,
            modified_date: now,
            tags: Vec::new(),
            annotations: Vec::new(),
            parent_uuid: None,
            depends: HashSet::new(),
            recurrence: None,
            effort: None,
            effort_spent: None,
        };
        assert(t@.tags =~= Seq::empty());
        assert(t@.annotations =~= Seq::empty());
        t
    }

    /// Moves the modification timestamp to `now` unless it is later already.
    pub fn touch(&mut self, now: Timestamp)
        ensures
            final(self)@ == old(self)@.touched(now),
            old(self).wf() ==> final(self).wf(),
    {
        self.modified_date = self.modified_date.latest(now);
    }

    /// Whether the task has the tag `tag`.
    pub fn has_tag(&self, tag: &str) -> (r: bool)
        ensures
            r == self@.tags.contains(tag@),
    {
        contains_text(&self.tags, tag)
    }

    /// Adds `tag` unless the task has it, at `now`.
    pub fn add_tag_at(&mut self, tag: String, now: Timestamp)
        ensures
            final(self)@ == old(self)@.with_tag(tag@, now),
            final(self)@.tag_set() == old(self)@.tag_set().insert(tag@),
            old(self).wf() ==> final(self).wf(),
    {
        let ghost before = self@.tags;
        if !self.has_tag(tag.as_str()) {
            self.tags.push(tag);
            assert(self@.tags =~= before.push(tag@));
            proof {
                assert(before.push(tag@).to_set() =~= before.to_set().insert(tag@)) by {
                    assert forall|x: Seq<char>|
                        before.push(tag@).to_set().contains(x) <==> before.to_set().insert(
                            tag@,
                        ).contains(x) by {
                        lemma_push_contains(before, tag@, x);
                    }
                }
                if before.no_duplicates() {
                    lemma_push_no_duplicates(before, tag@);
                }
            }
        } else {
            assert(before.to_set() =~= before.to_set().insert(tag@));
        }
        self.modified_date = self.modified_date.latest(now);
    }

    /// Adds a tag; the task then has it once.
    pub fn add_tag(&mut self, tag: String)
        ensures
            final(self)@ == old(self)@.with_tag(tag@, final(self)@.modified_date),
            final(self)@.tag_set() == old(self)@.tag_set().insert(tag@),
            old(self).wf() ==> final(self).wf(),
    {
        let now = Timestamp::now();
        self.add_tag_at(tag, now);
    }

    /// Removes `tag` at `now`, and says whether the task had it. A task
    /// without the tag is left as it is.
    pub fn remove_tag_at(&mut self, tag: &str, now: Timestamp) -> (removed: bool)
        ensures
            removed == old(self)@.tags.contains(tag@),
            final(self)@ == old(self)@.without_tag(tag@, now),
            final(self)@.tag_set() == old(self)@.tag_set().remove(tag@),
            old(self).wf() ==> final(self).wf(),
    {
        let ghost before = self@.tags;
        proof {
            lemma_without(before, tag@);
        }
        if !self.has_tag(tag) {
            assert(before.to_set() =~= before.to_set().remove(tag@));
            return false;
        }
        let mut kept: Vec<String> = Vec::new();
        let mut i: usize = 0;
        while i < self.tags.len()
            invariant
                i <= self.tags.len(),
                self@.tags == before,
                texts(kept@) == without(before.take(i as int), tag@),
            decreases self.tags.len() - i,
        {
            let ghost prefix = before.take(i as int + 1);
            assert(prefix.drop_last() =~= before.take(i as int));
            assert(prefix.last() == before[i as int]);
            if !str_eq(self.tags[i].as_str(), tag) {
                let ghost old_kept = texts(kept@);
                kept.push(self.tags[i].clone());
                assert(texts(kept@) =~= old_kept.push(before[i as int]));
            }
            i = i + 1;
        }
        assert(before.take(before.len() as int) =~= before);
        self.tags = kept;
        self.modified_date = self.modified_date.latest(now);
        true
    }

    /// Removes a tag, and says whether the task had it.
    pub fn remove_tag(&mut self, tag: &str) -> (removed: bool)
        ensures
            removed == old(self)@.tags.contains(tag@),
            final(self)@ == old(self)@.without_tag(tag@, final(self)@.modified_date),
            final(self)@.tag_set() == old(self)@.tag_set().remove(tag@),
            old(self).wf() ==> final(self).wf(),
    {
        let now = Timestamp::now();
        self.remove_tag_at(tag, now)
    }

    /// Appends a note entered at `now`.
    pub fn add_annotation_at(&mut self, description: String, now: Timestamp)
        ensures
            final(self)@ == old(self)@.annotated(description@, now),
            old(self).wf() ==> final(self).wf(),
    {
        let ghost before = self@.annotations;
        self.annotations.push(Annotation { entry: now, description });
        assert(self@.annotations =~= before.push(
            AnnotationView { entry: now, description: description@ },
        ));
        self.modified_date = self.modified_date.latest(now);
    }

    /// Appends a note entered at the clock's reading.
    pub fn add_annotation(&mut self, description: String)
        ensures
            final(self)@.annotations.len() == old(self)@.annotations.len() + 1,
            final(self)@ == old(self)@.annotated(
                description@,
                final(self)@.annotations.last().entry,
            ),
            old(self).wf() ==> final(self).wf(),
    {
        let now = Timestamp::now();
        self.add_annotation_at(description, now);
    }

    /// Marks the task as started at `now`. Only a pending or waiting task
    /// can start; its status stays as it is.
    pub fn start_at(&mut self, now: Timestamp) -> (r: Result<(), TaskError>)
        ensures
            old(self)@.status.active() ==> r is Ok && final(self)@ == old(self)@.started(now),
            !old(self)@.status.active() ==> final(self)@ == old(self)@ && (r matches Err(
                TaskError::InvalidStatusTransition { from, to },
            ) && from@ == old(self)@.status.name() && to@ == "started"@),
            old(self).wf() ==> final(self).wf(),
    {
        if !self.status.is_active() {
            return Err(
                TaskError::InvalidStatusTransition {
                    from: self.status.to_string(),
                    to: "started".to_owned(),
                },
            );
        }
        self.start_date = Some(now);
        self.modified_date = self.modified_date.latest(now);
        Ok(())
    }

    /// Marks the task as started at the clock's reading.
    pub fn start(&mut self) -> (r: Result<(), TaskError>)
        ensures
            old(self)@.status.active() ==> r is Ok && final(self)@.start_date is Some
                && final(self)@ == old(self)@.started(final(self)@.start_date->0),
            !old(self)@.status.active() ==> final(self)@ == old(self)@ && (r matches Err(
                TaskError::InvalidStatusTransition { from, to },
            ) && from@ == old(self)@.status.name() && to@ == "started"@),
            old(self).wf() ==> final(self).wf(),
    {
        let now = Timestamp::now();
        self.start_at(now)
    }

    /// Clears the start timestamp at `now`, whatever the status.
    pub fn stop_at(&mut self, now: Timestamp)
        ensures
            final(self)@ == old(self)@.stopped(now),
            old(self).wf() ==> final(self).wf(),
    {
        self.start_date = None;
        self.modified_date = self.modified_date.latest(now);
    }

    /// Moves the task to `to` at `now` if the transition table allows it,
    /// and leaves it unchanged otherwise.
    pub fn transition_at(&mut self, to: TaskStatus, now: Timestamp) -> (r: Result<(), TaskError>)
        ensures
            old(self)@.status.can_become(to) ==> r is Ok && final(self)@ == (TaskView {
                status: to,
                ..old(self)@
            }).touched(now),
            !old(self)@.status.can_become(to) ==> final(self)@ == old(self)@ && (r matches Err(
                TaskError::InvalidStatusTransition { from, to: target },
            ) && from@ == old(self)@.status.name() && target@ == to.name()),
            old(self).wf() ==> final(self).wf(),
    {
        if !self.status.can_transition_to(&to) {
            return Err(
                TaskError::InvalidStatusTransition {
                    from: self.status.to_string(),
                    to: to.to_string(),
                },
            );
        }
        self.status = to;
        self.modified_date = self.modified_date.latest(now);
        Ok(())
    }

    /// Completes the task at `now`: the status becomes `Completed` and the
    /// end timestamp `now`. A completed or deleted task is left as it is.
    pub fn complete_at(&mut self, now: Timestamp) -> (r: Result<(), TaskError>)
        ensures
            old(self)@.status.can_become(TaskStatus::Completed) ==> r is Ok && final(self)@
                == old(self)@.completed(now),
            !old(self)@.status.can_become(TaskStatus::Completed) ==> final(self)@ == old(self)@
                && (r matches Err(TaskError::InvalidStatusTransition { from, to }) && from@
                == old(self)@.status.name() && to@ == "completed"@),
            old(self).wf() ==> final(self).wf(),
    {
        match self.transition_at(TaskStatus::Completed, now) {
            Ok(()) => {
                self.end_date = Some(now);
                Ok(())
            },
            Err(e) => Err(e),
        }
    }

    /// Completes the task at the clock's reading.
    pub fn complete(&mut self) -> (r: Result<(), TaskError>)
        ensures
            old(self)@.status.can_become(TaskStatus::Completed) ==> r is Ok
                && final(self)@.end_date is Some && final(self)@ == old(self)@.completed(
                final(self)@.end_date->0,
            ),
            !old(self)@.status.can_become(TaskStatus::Completed) ==> final(self)@ == old(self)@
                && (r matches Err(TaskError::InvalidStatusTransition { from, to }) && from@
                == old(self)@.status.name() && to@ == "completed"@),
            old(self).wf() ==> final(self).wf(),
    {
        let now = Timestamp::now();
        self.complete_at(now)
    }

    /// Deletes the task at `now`: the status becomes `Deleted`. A deleted
    /// task is left as it is.
    pub fn delete_at(&mut self, now: Timestamp) -> (r: Result<(), TaskError>)
        ensures
            old(self)@.status.can_become(TaskStatus::Deleted) ==> r is Ok && final(self)@
                == old(self)@.deleted(now),
            !old(self)@.status.can_become(TaskStatus::Deleted) ==> final(self)@ == old(self)@
                && (r matches Err(TaskError::InvalidStatusTransition { from, to }) && from@
                == old(self)@.status.name() && to@ == "deleted"@),
            old(self).wf() ==> final(self).wf(),
    {
        self.transition_at(TaskStatus::Deleted, now)
    }

    /// Deletes the task at the clock's reading.
    pub fn delete(&mut self) -> (r: Result<(), TaskError>)
        ensures
            old(self)@.status.can_become(TaskStatus::Deleted) ==> r is Ok && final(self)@
                == old(self)@.deleted(final(self)@.modified_date),
            !old(self)@.status.can_become(TaskStatus::Deleted) ==> final(self)@ == old(self)@
                && (r matches Err(TaskError::InvalidStatusTransition { from, to }) && from@
                == old(self)@.status.name() && to@ == "deleted"@),
            old(self).wf() ==> final(self).wf(),
    {
        let now = Timestamp::now();
        self.delete_at(now)
    }

    /// The tags in one line: each after a plus sign, with a blank between
    /// two.
    pub fn tags_text(&self) -> (r: String)
        ensures
            r@ == self@.tag_line(),
    {
        let mut parts: Vec<String> = Vec::new();
        let mut i: usize = 0;
        while i < self.tags.len()
            invariant
                i <= self.tags.len(),
                parts.len() == i,
                forall|j: int| 0 <= j < i ==> parts@[j]@ == "+"@ + self.tags@[j]@,
            decreases self.tags.len() - i,
        {
            let mut part = "+".to_owned();
            part.append(self.tags[i].as_str());
            parts.push(part);
            i = i + 1;
        }
        assert(texts(parts@) =~= Seq::new(self@.tags.len(), |i: int| "+"@ + self@.tags[i]));
        join(&parts, " ")
    }

    /// The one-line label of the task.
    pub fn to_string(&self) -> (r: String)
        ensures
            r@ == self@.label(),
    {
        let id: i64 = match self.id {
            Some(i) => i,
            None => 0,
        };
        let mut r = i64_to_string(id);
        match self.priority {
            Some(p) => {
                let label = p.to_string();
                r.append(label.as_str());
            },
            None => {
                assert(r@ + Seq::<char>::empty() =~= r@);
            },
        }
        let ghost with_priority = r@;
        match &self.project {
            Some(p) => {
                r.append(" [");
                r.append(p.as_str());
                r.append("]");
                assert(r@ =~= with_priority + (" ["@ + p@ + "]"@));
            },
            None => {
                assert(r@ + Seq::<char>::empty() =~= r@);
            },
        }
        let ghost with_project = r@;
        if self.tags.len() > 0 {
            let all = self.tags_text();
            r.append(" ");
            r.append(all.as_str());
            assert(r@ =~= with_project + (" "@ + all@));
        } else {
            assert(r@ + Seq::<char>::empty() =~= r@);
        }
        r
    }

    /// Whether the task is pending or waiting.
    pub fn is_active(&self) -> (r: bool)
        ensures
            r == self@.status.active(),
    {
        self.status.is_active()
    }

    /// Whether the task is completed.
    pub fn is_completed(&self) -> (r: bool)
        ensures
            r == (self@.status == TaskStatus::Completed),
    {
        match self.status {
            TaskStatus::Completed => true,
            _ => false,
        }
    }

    /// Whether the task is deleted.
    pub fn is_deleted(&self) -> (r: bool)
        ensures
            r == (self@.status == TaskStatus::Deleted),
    {
        match self.status {
            TaskStatus::Deleted => true,
            _ => false,
        }
    }

    /// Whether the task is active and its due date has passed at `now`.
    pub fn is_overdue_at(&self, now: Timestamp) -> (r: bool)
        ensures
            r == self@.overdue(now),
    {
        match self.due_date {
            Some(due) => self.is_active() && now.after(&due),
            None => false,
        }
    }

    /// Whether the task is overdue at the instant that the clock reads:
    /// active, with a due date that the instant has passed. A task that is
    /// not active or has no due date never is overdue.
    pub fn is_overdue(&self) -> (r: bool)
        ensures
            exists|now: Timestamp|
                now.nanos < 1_000_000_000 && r == #[trigger] self@.overdue(now),
            r ==> self@.due_date is Some && self@.status.active(),
    {
        let now = Timestamp::now();
        let r = self.is_overdue_at(now);
        assert(now.nanos < 1_000_000_000 && r == self@.overdue(now));
        r
    }

    /// Whole days from the entry to `now`.
    pub fn age_days_at(&self, now: Timestamp) -> (d: i64)
        ensures
            d == self@.age_days(now),
    {
        now.days_since(&self.entry_date)
    }

    /// Whole days from the entry to the instant that the clock reads,
    /// rounded toward zero.
    pub fn age_days(&self) -> (d: i64)
        ensures
            exists|now: Timestamp|
                now.nanos < 1_000_000_000 && d == #[trigger] self@.age_days(now),
    {
        let now = Timestamp::now();
        let d = self.age_days_at(now);
        assert(now.nanos < 1_000_000_000 && d == self@.age_days(now));
        d
    }

    /// The urgency score at `now`: the priority's weight; plus 15 for a due
    /// date that has passed, 10 for one at most a day away and 5 for one
    /// at most seven days away; plus 2 for an entry more than 30 days back
    /// and 1 for one more than 7 days back.
    pub fn urgency_score_at(&self, now: Timestamp) -> (score: u32)
        ensures
            score == self@.urgency(now),
    {
        let mut score: u32 = match self.priority {
            Some(p) => p.urgency_weight(),
            None => 0,
        };
        match self.due_date {
            Some(due) => {
                if now.after(&due) {
                    score = score + 15;
                } else {
                    let ahead: i128 = due.total_nanos() - now.total_nanos();
                    if ahead <= NANOS_PER_DAY {
                        score = score + 10;
                    } else if ahead <= 7 * NANOS_PER_DAY {
                        score = score + 5;
                    }
                }
            },
            None => {},
        }
        let age: i128 = now.total_nanos() - self.entry_date.total_nanos();
        if age > 30 * NANOS_PER_DAY {
            score = score + 2;
        } else if age > 7 * NANOS_PER_DAY {
            score = score + 1;
        }
        score
    }

    /// The urgency score at the instant that the clock reads: the
    /// priority's weight, plus what the due date and the age add at that
    /// instant.
    pub fn urgency_score(&self) -> (score: u32)
        ensures
            exists|now: Timestamp|
                now.nanos < 1_000_000_000 && score == #[trigger] self@.urgency(now),
            self@.priority_urgency() <= score <= self@.priority_urgency() + 17,
            self@.due_date is None ==> score <= self@.priority_urgency() + 2,
    {
        let now = Timestamp::now();
        let score = self.urgency_score_at(now);
        assert(now.nanos < 1_000_000_000 && score == self@.urgency(now));
        score
    }
}

/// At any moment, a high-priority task whose due date has passed scores
/// higher than the same task without a due date, which scores higher than
/// the same task with low priority and no due date.
pub proof fn urgency_ordering(t: TaskView, due: Timestamp, now: Timestamp)
    requires
        now.is_after(due),
    ensures
        (TaskView { priority: Some(Priority::High), due_date: Some(due), ..t }).urgency(now)
            > (TaskView { priority: Some(Priority::High), due_date: None, ..t }).urgency(now),
        (TaskView { priority: Some(Priority::High), due_date: None, ..t }).urgency(now)
            > (TaskView { priority: Some(Priority::Low), due_date: None, ..t }).urgency(now),
{
}

} // verus!
