//! GitHub issues and project cards as plain values, and their mapping to
//! tasks and back.

use vstd::prelude::*;
use vstd::string::*;
use crate::cache::{SyncStatus, SyncStatusView};
use crate::config::pair_views;
use crate::status::TaskStatus;
use crate::task::{opt_text, random_uuid, Task, TaskView};
use crate::text::{decimal, push_char, str_eq, u64_to_string};
use crate::time::Timestamp;

verus! {

/// A label of an issue.
#[derive(Debug)]
pub struct GitHubLabel {
    pub id: u64,
    pub name: String,
    pub color: String,
    pub description: Option<String>,
}

/// A GitHub account.
#[derive(Debug)]
pub struct GitHubUser {
    pub id: u64,
    pub login: String,
    pub avatar_url: String,
    pub html_url: String,
}

/// A milestone of a repository.
#[derive(Debug)]
pub struct GitHubMilestone {
    pub id: u64,
    pub number: u64,
    pub title: String,
    pub description: Option<String>,
    pub state: String,
    pub due_on: Option<Timestamp>,
}

/// An issue of a repository.
#[derive(Debug)]
pub struct GitHubIssue {
    pub id: u64,
    pub number: u64,
    pub title: String,
    pub body: Option<String>,
    /// `open` or `closed`.
    pub state: String,
    pub labels: Vec<GitHubLabel>,
    pub assignees: Vec<GitHubUser>,
    pub created_at: Timestamp,
    pub updated_at: Timestamp,
    pub closed_at: Option<Timestamp>,
    pub milestone: Option<GitHubMilestone>,
    pub comments: u64,
    pub html_url: String,
}

/// A card of a project board.
#[derive(Debug)]
pub struct GitHubProjectCard {
    pub id: u64,
    pub note: Option<String>,
    pub content_url: Option<String>,
    pub column_id: u64,
    pub created_at: Timestamp,
    pub updated_at: Timestamp,
}

/// A column of a project board.
#[derive(Debug)]
pub struct GitHubProjectColumn {
    pub id: u64,
    pub name: String,
    pub cards: Vec<GitHubProjectCard>,
}

/// The names of the labels, in order.
pub open spec fn label_names(labels: Seq<GitHubLabel>) -> Seq<Seq<char>> {
    Seq::new(labels.len(), |i: int| labels[i].name@)
}

/// The logins of the accounts, in order.
pub open spec fn logins(users: Seq<GitHubUser>) -> Seq<Seq<char>> {
    Seq::new(users.len(), |i: int| users[i].login@)
}

/// The task after each of `tags` is added in turn at `now`.
pub open spec fn with_tags(task: TaskView, tags: Seq<Seq<char>>, now: Timestamp) -> TaskView
    decreases tags.len(),
{
    if tags.len() == 0 {
        task
    } else {
        with_tags(task, tags.drop_last(), now).with_tag(tags.last(), now)
    }
}

/// The description of the task for an issue: the title, and after it the
/// body where the issue has one that is not empty.
pub open spec fn issue_description(title: Seq<char>, body: Option<Seq<char>>) -> Seq<char> {
    match body {
        Some(text) => if text.len() > 0 {
            title + "\n\nGitHub Issue: "@ + text
        } else {
            title
        },
        None => title,
    }
}

/// The status of the task for an issue in the state `state`.
pub open spec fn issue_status(state: Seq<char>) -> TaskStatus {
    if state == "closed"@ {
        TaskStatus::Completed
    } else {
        TaskStatus::Pending
    }
}

/// The status that a column of a project board stands for.
pub open spec fn column_status(column_name: Seq<char>) -> TaskStatus {
    if column_name == "Done"@ {
        TaskStatus::Completed
    } else {
        TaskStatus::Pending
    }
}

/// The state of the issue for a task with the status `status`.
pub open spec fn status_issue_state(status: TaskStatus) -> Seq<char> {
    if status == TaskStatus::Completed {
        "closed"@
    } else {
        "open"@
    }
}

/// The task for `issue` before it is tagged and annotated.
pub open spec fn issue_base(issue: GitHubIssue, uuid: u128, now: Timestamp) -> TaskView {
    TaskView {
        status: issue_status(issue.state@),
        ..TaskView::fresh(issue_description(issue.title@, opt_text(issue.body)), uuid, now)
    }
}

/// The task for `issue`, with the unique identifier `uuid` and entered at
/// `now`: described by the title and the body, completed where the issue
/// is closed and pending otherwise, tagged with the names of the labels
/// and the logins of the assignees, and annotated with the address of the
/// issue.
pub open spec fn task_of_issue(issue: GitHubIssue, uuid: u128, now: Timestamp) -> TaskView {
    with_tags(
        with_tags(issue_base(issue, uuid, now), label_names(issue.labels@), now),
        logins(issue.assignees@),
        now,
    ).annotated("GitHub Issue: "@ + issue.html_url@, now)
}

/// The task for `card` in the column `column_name`: described by the
/// card's note, with the status that the column stands for, and annotated
/// with the card's identifier.
pub open spec fn task_of_card(
    card: GitHubProjectCard,
    column_name: Seq<char>,
    uuid: u128,
    now: Timestamp,
) -> TaskView {
    let note = match opt_text(card.note) {
        Some(n) => n,
        None => Seq::empty(),
    };
    (TaskView { status: column_status(column_name), ..TaskView::fresh(note, uuid, now) }).annotated(
        "GitHub Project Card: "@ + decimal(card.id as nat),
        now,
    )
}

/// The task for an issue, with the unique identifier `uuid` and entered
/// at `now`.
pub fn issue_to_task_at(issue: &GitHubIssue, uuid: u128, now: Timestamp) -> (t: Task)
    ensures
        t@ == task_of_issue(*issue, uuid, now),
{
    let mut description = issue.title.clone();
    match &issue.body {
        Some(body) => {
            if body.as_str().unicode_len() > 0 {
                description.append("\n\nGitHub Issue: ");
                description.append(body.as_str());
            }
        },
        None => {},
    }
    let mut task = Task::create(description, uuid, now);
    task.status = if str_eq(issue.state.as_str(), "closed") {
        TaskStatus::Completed
    } else {
        TaskStatus::Pending
    };
    let ghost base = task@;
    let mut i: usize = 0;
    while i < issue.labels.len()
        invariant
            i <= issue.labels.len(),
            task@ == with_tags(base, label_names(issue.labels@).take(i as int), now),
        decreases issue.labels.len() - i,
    {
        let ghost prefix = label_names(issue.labels@).take(i as int + 1);
        assert(prefix.drop_last() =~= label_names(issue.labels@).take(i as int));
        assert(prefix.last() == issue.labels@[i as int].name@);
        task.add_tag_at(issue.labels[i].name.clone(), now);
        i = i + 1;
    }
    assert(label_names(issue.labels@).take(issue.labels.len() as int) =~= label_names(
        issue.labels@,
    ));
    let ghost labelled = task@;
    let mut k: usize = 0;
    while k < issue.assignees.len()
        invariant
            k <= issue.assignees.len(),
            task@ == with_tags(labelled, logins(issue.assignees@).take(k as int), now),
        decreases issue.assignees.len() - k,
    {
        let ghost prefix = logins(issue.assignees@).take(k as int + 1);
        assert(prefix.drop_last() =~= logins(issue.assignees@).take(k as int));
        assert(prefix.last() == issue.assignees@[k as int].login@);
        task.add_tag_at(issue.assignees[k].login.clone(), now);
        k = k + 1;
    }
    assert(logins(issue.assignees@).take(issue.assignees.len() as int) =~= logins(
        issue.assignees@,
    ));
    let mut note = "GitHub Issue: ".to_owned();
    note.append(issue.html_url.as_str());
    task.add_annotation_at(note, now);
    task
}

/// The task for an issue, with a random unique identifier and entered at
/// the clock's reading.
pub fn issue_to_task(issue: &GitHubIssue) -> (t: Task)
    ensures
        t@ == task_of_issue(*issue, t@.uuid, t@.entry_date),
        t@.uuid != 0,
{
    let uuid = random_uuid();
    let now = Timestamp::now();
    let t = issue_to_task_at(issue, uuid, now);
    proof {
        lemma_with_tags_keeps(issue_base(*issue, uuid, now), label_names(issue.labels@), now);
        lemma_with_tags_keeps(
            with_tags(issue_base(*issue, uuid, now), label_names(issue.labels@), now),
            logins(issue.assignees@),
            now,
        );
    }
    t
}

/// Adding tags changes neither the unique identifier nor the entry
/// timestamp of a task.
pub proof fn lemma_with_tags_keeps(task: TaskView, tags: Seq<Seq<char>>, now: Timestamp)
    ensures
        with_tags(task, tags, now).uuid == task.uuid,
        with_tags(task, tags, now).entry_date == task.entry_date,
    decreases tags.len(),
{
    if tags.len() > 0 {
        lemma_with_tags_keeps(task, tags.drop_last(), now);
    }
}

/// The task for a card in the column `column_name`, with the unique
/// identifier `uuid` and entered at `now`.
pub fn card_to_task_at(
    card: &GitHubProjectCard,
    column_name: &str,
    uuid: u128,
    now: Timestamp,
) -> (t: Task)
    ensures
        t@ == task_of_card(*card, column_name@, uuid, now),
{
    let description = match &card.note {
        Some(n) => n.clone(),
        None => String::new(),
    };
    let mut task = Task::create(description, uuid, now);
    task.status = if str_eq(column_name, "Done") {
        TaskStatus::Completed
    } else {
        TaskStatus::Pending
    };
    let mut note = "GitHub Project Card: ".to_owned();
    let id = u64_to_string(card.id);
    note.append(id.as_str());
    task.add_annotation_at(note, now);
    task
}

/// The task for a card, with a random unique identifier and entered at
/// the clock's reading.
pub fn card_to_task(card: &GitHubProjectCard, column_name: &str) -> (t: Task)
    ensures
        t@ == task_of_card(*card, column_name@, t@.uuid, t@.entry_date),
        t@.uuid != 0,
{
    let uuid = random_uuid();
    let now = Timestamp::now();
    card_to_task_at(card, column_name, uuid, now)
}

/// The state of the issue that stands for `task`: `closed` for a completed
/// task, `open` for any other.
pub fn task_to_issue_state(task: &Task) -> (r: &'static str)
    ensures
        r@ == status_issue_state(task@.status),
{
    if task.status == TaskStatus::Completed {
        "closed"
    } else {
        "open"
    }
}

/// The fields of the issue that stands for `task`: its title, which is the
/// task's description, and its state.
pub fn task_to_issue_data(task: &Task) -> (r: Vec<(String, String)>)
    ensures
        r@.len() == 2,
        r@[0].0@ == "title"@ && r@[0].1@ == task@.description,
        r@[1].0@ == "state"@ && r@[1].1@ == status_issue_state(task@.status),
{
    let mut r: Vec<(String, String)> = Vec::new();
    r.push(("title".to_owned(), task.description.clone()));
    r.push(("state".to_owned(), task_to_issue_state(task).to_owned()));
    r
}

/// The note of the card that stands for `task`: its description.
pub fn task_to_card_note(task: &Task) -> (r: String)
    ensures
        r@ == task@.description,
{
    task.description.clone()
}

/// The position of the first slash of a text.
pub open spec fn first_slash(s: Seq<char>) -> Option<int> {
    s.index_of_first('/')
}

/// Splits `owner/repo` at its first slash; `None` for a text without a
/// slash.
pub fn split_repository(repository: &str) -> (r: Option<(String, String)>)
    ensures
        match first_slash(repository@) {
            Some(i) => r matches Some(pair) && pair.0@ == repository@.subrange(0, i) && pair.1@
                == repository@.subrange(i + 1, repository@.len() as int),
            None => r is None,
        },
{
    let mut owner = String::new();
    let mut repo = String::new();
    let mut found: bool = false;
    let ghost mut at: int = 0;
    for c in it: repository.chars()
        invariant
            it.seq() == repository@,
            !found ==> owner@ == repository@.take(it.index() as int) && repo@.len() == 0 && (
            forall|j: int| 0 <= j < it.index() ==> repository@[j] != '/'),
            found ==> 0 <= at < it.index() && repository@[at] == '/' && (forall|j: int|
                0 <= j < at ==> repository@[j] != '/') && owner@ == repository@.take(at) && repo@
                == repository@.subrange(at + 1, it.index() as int),
    {
        let ghost k = it.index() as int;
        if found {
            push_char(&mut repo, c);
            assert(repo@ =~= repository@.subrange(at + 1, k + 1));
        } else if c == '/' {
            found = true;
            proof {
                at = k;
            }
            assert(repo@ =~= repository@.subrange(at + 1, k + 1));
        } else {
            push_char(&mut owner, c);
            assert(owner@ =~= repository@.take(k + 1));
        }
    }
    proof {
        repository@.index_of_first_ensures('/');
        if found {
            assert(repository@.contains('/'));
            let i = repository@.index_of_first('/')->0;
            assert(i == at) by {
                if i < at {
                    assert(repository@[i] != '/');
                }
                if at < i {
                    assert(repository@[at] == '/');
                }
            }
            assert(repository@.take(at) =~= repository@.subrange(0, at));
        } else {
            assert(!repository@.contains('/'));
        }
    }
    if found {
        Some((owner, repo))
    } else {
        None
    }
}

/// What a synchronisation with GitHub covers.
#[derive(Debug, Clone, Copy, PartialEq, Eq, Structural)]
pub enum SyncMode {
    Issues,
    Projects,
    Both,
}

/// The mode that a name denotes.
pub open spec fn mode_named(name: Seq<char>) -> Option<SyncMode> {
    if name == "issues"@ {
        Some(SyncMode::Issues)
    } else if name == "projects"@ {
        Some(SyncMode::Projects)
    } else if name == "both"@ {
        Some(SyncMode::Both)
    } else {
        None
    }
}

impl SyncMode {
    /// Reads a mode by its name.
    pub fn parse(name: &str) -> (r: Option<SyncMode>)
        ensures
            r == mode_named(name@),
    {
        if str_eq(name, "issues") {
            Some(SyncMode::Issues)
        } else if str_eq(name, "projects") {
            Some(SyncMode::Projects)
        } else if str_eq(name, "both") {
            Some(SyncMode::Both)
        } else {
            None
        }
    }

    /// Whether the mode covers issues.
    pub fn uses_issues(&self) -> (r: bool)
        ensures
            r == (*self != SyncMode::Projects),
    {
        match self {
            SyncMode::Projects => false,
            _ => true,
        }
    }

    /// Whether the mode covers project boards.
    pub fn uses_projects(&self) -> (r: bool)
        ensures
            r == (*self != SyncMode::Issues),
    {
        match self {
            SyncMode::Issues => false,
            _ => true,
        }
    }
}

/// The name by which a column mapping speaks of a status.
pub open spec fn mapped_name(status: TaskStatus) -> Seq<char> {
    match status {
        TaskStatus::Pending => "todo"@,
        TaskStatus::Completed => "done"@,
        TaskStatus::Deleted => "deleted"@,
        TaskStatus::Waiting => "waiting"@,
    }
}

/// The name of the column that stands for a status where no mapping says
/// otherwise.
pub open spec fn default_column(status: TaskStatus) -> Seq<char> {
    match status {
        TaskStatus::Pending => "To Do"@,
        TaskStatus::Completed => "Done"@,
        TaskStatus::Deleted => "Done"@,
        TaskStatus::Waiting => "To Do"@,
    }
}

/// The identifier of the first column with the name `name`.
pub open spec fn column_named(columns: Seq<(u64, Seq<char>)>, name: Seq<char>) -> Option<u64>
    decreases columns.len(),
{
    if columns.len() == 0 {
        None
    } else if columns[0].1 == name {
        Some(columns[0].0)
    } else {
        column_named(columns.drop_first(), name)
    }
}

/// The column of the first pair of the mapping that stands for `target`
/// and names a column that exists.
pub open spec fn column_mapped(
    columns: Seq<(u64, Seq<char>)>,
    mapping: Seq<(Seq<char>, Seq<char>)>,
    target: Seq<char>,
) -> Option<u64>
    decreases mapping.len(),
{
    if mapping.len() == 0 {
        None
    } else if mapping[0].1 == target && column_named(columns, mapping[0].0) is Some {
        column_named(columns, mapping[0].0)
    } else {
        column_mapped(columns, mapping.drop_first(), target)
    }
}

/// The column for a task with the status `status`: the one that the
/// mapping gives, or else the one that stands for the status by default.
pub open spec fn column_of_status(
    columns: Seq<(u64, Seq<char>)>,
    mapping: Seq<(Seq<char>, Seq<char>)>,
    status: TaskStatus,
) -> Option<u64> {
    match column_mapped(columns, mapping, mapped_name(status)) {
        Some(id) => Some(id),
        None => column_named(columns, default_column(status)),
    }
}

/// The identifiers and names of a list of columns.
pub open spec fn column_views(columns: Seq<(u64, String)>) -> Seq<(u64, Seq<char>)> {
    Seq::new(columns.len(), |i: int| (columns[i].0, columns[i].1@))
}

/// Finds the first column with the name `name`.
pub fn find_column(columns: &Vec<(u64, String)>, name: &str) -> (r: Option<u64>)
    ensures
        r == column_named(column_views(columns@), name@),
{
    let ghost all = column_views(columns@);
    let mut i: usize = 0;
    assert(all.skip(0) =~= all);
    while i < columns.len()
        invariant
            i <= columns.len(),
            all == column_views(columns@),
            column_named(all, name@) == column_named(all.skip(i as int), name@),
        decreases columns.len() - i,
    {
        let ghost rest = all.skip(i as int);
        assert(rest[0] == all[i as int]);
        assert(rest.drop_first() =~= all.skip(i as int + 1));
        if str_eq(columns[i].1.as_str(), name) {
            return Some(columns[i].0);
        }
        i = i + 1;
    }
    None
}

/// Finds the column for a task with the status `status`.
pub fn column_for_status(
    columns: &Vec<(u64, String)>,
    mapping: &Vec<(String, String)>,
    status: TaskStatus,
) -> (r: Option<u64>)
    ensures
        r == column_of_status(column_views(columns@), pair_views(mapping@), status),
{
    let target = match status {
        TaskStatus::Pending => "todo",
        TaskStatus::Completed => "done",
        TaskStatus::Deleted => "deleted",
        TaskStatus::Waiting => "waiting",
    };
    let ghost pairs = pair_views(mapping@);
    let ghost all = column_views(columns@);
    let mut i: usize = 0;
    assert(pairs.skip(0) =~= pairs);
    while i < mapping.len()
        invariant
            i <= mapping.len(),
            pairs == pair_views(mapping@),
            all == column_views(columns@),
            target@ == mapped_name(status),
            column_mapped(all, pairs, target@) == column_mapped(
                all,
                pairs.skip(i as int),
                target@,
            ),
        decreases mapping.len() - i,
    {
        let ghost rest = pairs.skip(i as int);
        assert(rest[0] == pairs[i as int]);
        assert(rest.drop_first() =~= pairs.skip(i as int + 1));
        if str_eq(mapping[i].1.as_str(), target) {
            match find_column(columns, mapping[i].0.as_str()) {
                Some(id) => {
                    return Some(id);
                },
                None => {},
            }
        }
        i = i + 1;
    }
    let fallback = match status {
        TaskStatus::Pending => "To Do",
        TaskStatus::Completed => "Done",
        TaskStatus::Deleted => "Done",
        TaskStatus::Waiting => "To Do",
    };
    find_column(columns, fallback)
}

/// The health of a provider in the mode `mode`, given whether the issues
/// could be read and which of the project boards, if any, could not. A
/// mode of `None` is one that the configuration misspelt as `name`.
pub open spec fn health(
    mode: Option<SyncMode>,
    name: Seq<char>,
    issues_ok: bool,
    projects: nat,
    failed_project: Option<u64>,
) -> SyncStatusView {
    match mode {
        Some(SyncMode::Issues) => if issues_ok {
            SyncStatusView::Completed
        } else {
            SyncStatusView::Failed { error: "Failed to connect to GitHub Issues"@ }
        },
        Some(SyncMode::Projects) => if projects == 0 {
            SyncStatusView::Failed { error: "No project_ids configured"@ }
        } else {
            match failed_project {
                Some(id) => SyncStatusView::Failed {
                    error: "Failed to connect to GitHub Project ID "@ + decimal(id as nat),
                },
                None => SyncStatusView::Completed,
            }
        },
        Some(SyncMode::Both) => if issues_ok && projects > 0 && failed_project is None {
            SyncStatusView::Completed
        } else {
            SyncStatusView::Failed {
                error: "Failed to connect to one or more GitHub services"@,
            }
        },
        None => SyncStatusView::Failed { error: "Invalid sync_mode: "@ + name },
    }
}

/// Sums up the health of a provider.
pub fn health_report(
    mode: Option<SyncMode>,
    name: &str,
    issues_ok: bool,
    projects: usize,
    failed_project: Option<u64>,
) -> (r: SyncStatus)
    ensures
        r@ == health(mode, name@, issues_ok, projects as nat, failed_project),
{
    match mode {
        Some(SyncMode::Issues) => {
            if issues_ok {
                SyncStatus::Completed
            } else {
                SyncStatus::Failed { error: "Failed to connect to GitHub Issues".to_owned() }
            }
        },
        Some(SyncMode::Projects) => {
            if projects == 0 {
                SyncStatus::Failed { error: "No project_ids configured".to_owned() }
            } else {
                match failed_project {
                    Some(id) => {
                        let mut error = "Failed to connect to GitHub Project ID ".to_owned();
                        let digits = u64_to_string(id);
                        error.append(digits.as_str());
                        SyncStatus::Failed { error }
                    },
                    None => SyncStatus::Completed,
                }
            }
        },
        Some(SyncMode::Both) => {
            if issues_ok && projects > 0 && failed_project.is_none() {
                SyncStatus::Completed
            } else {
                SyncStatus::Failed {
                    error: "Failed to connect to one or more GitHub services".to_owned(),
                }
            }
        },
        None => {
            let mut error = "Invalid sync_mode: ".to_owned();
            error.append(name);
            SyncStatus::Failed { error }
        },
    }
}

} // verus!
