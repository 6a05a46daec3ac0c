use std::collections::HashSet;

use edda::cache::SyncStatus;
use edda::error::{EddaError, SyncError, TaskError};
use edda::github::{column_for_status, find_column, health_report, SyncMode};
use edda::retry::RetryPolicy;
use edda::record::{
    format_uuids, read_date, read_effort, row_from_task, task_from_record, write_date, TaskRecord,
};
use edda::status::{Priority, TaskStatus};
use edda::storage::TaskFilter;
use edda::task::{distinct_texts, id_set, Annotation, Task};
use edda::time::Timestamp;

const UUID_TEXT: &str = "67e55044-10b1-426f-9247-bb680e5fe0c8";
const UUID_VALUE: u128 = 0x67e5504410b1426f9247bb680e5fe0c8;

fn record() -> TaskRecord {
    TaskRecord {
        id: 7,
        uuid: UUID_TEXT.to_string(),
        description: "Stored".to_string(),
        status: "pending".to_string(),
        priority: Some("H".to_string()),
        project: Some("home".to_string()),
        due_date: Some("2024-01-02T03:04:05+00:00".to_string()),
        scheduled_date: None,
        start_date: None,
        end_date: None,
        entry_date: "2024-01-01T00:00:00+00:00".to_string(),
        modified_date: "2024-01-01T01:00:00.5+01:00".to_string(),
        tags: Ok(vec!["a".to_string()]),
        annotations: Ok(vec![Annotation {
            entry: Timestamp::new(5, 0),
            description: "n".to_string(),
        }]),
        parent_uuid: None,
        depends: Ok(vec![3]),
        recurrence: None,
        effort: Some(30),
        effort_spent: None,
    }
}

fn message(r: Result<Task, EddaError>) -> String {
    match r {
        Err(EddaError::Task(TaskError::Validation { message })) => message,
        other => panic!("expected a validation error, got {:?}", other),
    }
}

#[test]
fn record_becomes_a_task() {
    let task = task_from_record(record()).unwrap();
    assert_eq!(task.id, Some(7));
    assert_eq!(task.uuid, UUID_VALUE);
    assert_eq!(task.description, "Stored");
    assert_eq!(task.status, TaskStatus::Pending);
    assert_eq!(task.priority, Some(Priority::High));
    assert_eq!(task.project, Some("home".to_string()));
    assert_eq!(task.due_date, Some(Timestamp::new(1_704_164_645, 0)));
    assert_eq!(task.entry_date, Timestamp::new(1_704_067_200, 0));
    assert_eq!(task.modified_date, Timestamp::new(1_704_067_200, 500_000_000));
    assert_eq!(task.tags, vec!["a".to_string()]);
    assert_eq!(task.annotations.len(), 1);
    assert_eq!(task.depends, HashSet::from([3]));
    assert_eq!(task.effort, Some(30));
    assert_eq!(task.effort_spent, None);
}

#[test]
fn record_faults_are_reported_in_order() {
    let mut r = record();
    r.uuid = "nope".to_string();
    r.status = "done".to_string();
    assert!(message(task_from_record(r)).starts_with("Invalid UUID: "));

    let mut r = record();
    r.status = "done".to_string();
    r.priority = Some("12".to_string());
    assert_eq!(
        message(task_from_record(r)),
        "Invalid status: Validation error: Invalid task status: done"
    );

    let mut r = record();
    r.priority = Some("12".to_string());
    r.due_date = Some("tomorrow".to_string());
    assert_eq!(
        message(task_from_record(r)),
        "Invalid priority: Validation error: Priority number must be 0-9, got: 12"
    );

    let mut r = record();
    r.due_date = Some("tomorrow".to_string());
    r.scheduled_date = Some("x".to_string());
    assert!(message(task_from_record(r)).starts_with("Invalid due date: "));
    let mut r = record();
    r.scheduled_date = Some("x".to_string());
    assert!(message(task_from_record(r)).starts_with("Invalid scheduled date: "));
    let mut r = record();
    r.start_date = Some("x".to_string());
    assert!(message(task_from_record(r)).starts_with("Invalid start date: "));
    let mut r = record();
    r.end_date = Some("x".to_string());
    r.entry_date = "x".to_string();
    assert!(message(task_from_record(r)).starts_with("Invalid end date: "));
    let mut r = record();
    r.entry_date = "x".to_string();
    r.modified_date = "x".to_string();
    assert!(message(task_from_record(r)).starts_with("Invalid entry date: "));
    let mut r = record();
    r.modified_date = "x".to_string();
    r.tags = Err("bad".to_string());
    assert!(message(task_from_record(r)).starts_with("Invalid modified date: "));

    let mut r = record();
    r.tags = Err("bad tags".to_string());
    r.annotations = Err("bad notes".to_string());
    assert_eq!(message(task_from_record(r)), "Invalid tags JSON: bad tags");
    let mut r = record();
    r.annotations = Err("bad notes".to_string());
    r.parent_uuid = Some("p".to_string());
    assert_eq!(message(task_from_record(r)), "Invalid annotations JSON: bad notes");
    let mut r = record();
    r.parent_uuid = Some("p".to_string());
    r.depends = Err("bad deps".to_string());
    assert!(message(task_from_record(r)).starts_with("Invalid parent UUID: "));
    let mut r = record();
    r.depends = Err("bad deps".to_string());
    r.effort = Some(-1);
    assert_eq!(message(task_from_record(r)), "Invalid depends JSON: bad deps");
    let mut r = record();
    r.effort = Some(-1);
    r.effort_spent = Some(5_000_000_000);
    assert_eq!(message(task_from_record(r)), "Invalid effort: -1");
    let mut r = record();
    r.effort_spent = Some(5_000_000_000);
    assert_eq!(message(task_from_record(r)), "Invalid effort: 5000000000");
}

#[test]
fn record_messages_carry_the_parsers_words() {
    let mut r = record();
    r.uuid = "nope".to_string();
    let expected = uuid::Uuid::parse_str("nope").unwrap_err().to_string();
    assert_eq!(message(task_from_record(r)), format!("Invalid UUID: {}", expected));

    let mut r = record();
    r.due_date = Some("tomorrow".to_string());
    let expected = chrono::DateTime::parse_from_rfc3339("tomorrow").unwrap_err().to_string();
    assert_eq!(message(task_from_record(r)), format!("Invalid due date: {}", expected));
}

#[test]
fn dates_and_efforts_are_read() {
    assert_eq!(read_date(&None, "due date").unwrap(), None);
    assert_eq!(
        read_date(&Some("1970-01-01T00:00:01Z".to_string()), "due date").unwrap(),
        Some(Timestamp::new(1, 0))
    );
    assert_eq!(
        read_date(&Some("1970-01-01T01:00:00.25+01:00".to_string()), "due date").unwrap(),
        Some(Timestamp::new(0, 250_000_000))
    );
    assert!(read_date(&Some("1970-01-01".to_string()), "due date").is_err());
    assert_eq!(read_effort(None).unwrap(), None);
    assert_eq!(read_effort(Some(0)).unwrap(), Some(0));
    assert_eq!(read_effort(Some(4_294_967_295)).unwrap(), Some(u32::MAX));
    assert!(read_effort(Some(4_294_967_296)).is_err());
    assert!(read_effort(Some(-1)).is_err());
}

#[test]
fn task_becomes_a_row() {
    let mut task = Task::create("Stored".to_string(), UUID_VALUE, Timestamp::new(1_704_067_200, 0));
    task.priority = Some(Priority::Number(4));
    task.project = Some("home".to_string());
    task.due_date = Some(Timestamp::new(1_704_164_645, 500_000_000));
    task.parent_uuid = Some(1);
    task.status = TaskStatus::Waiting;
    task.effort = Some(9);
    let row = row_from_task(&task).unwrap();
    assert_eq!(row.uuid, UUID_TEXT);
    assert_eq!(row.description, "Stored");
    assert_eq!(row.status, "waiting");
    assert_eq!(row.priority, Some("4".to_string()));
    assert_eq!(row.project, Some("home".to_string()));
    assert_eq!(row.due_date, Some("2024-01-02T03:04:05.500+00:00".to_string()));
    assert_eq!(row.scheduled_date, None);
    assert_eq!(row.entry_date, "2024-01-01T00:00:00+00:00");
    assert_eq!(row.modified_date, "2024-01-01T00:00:00+00:00");
    assert_eq!(row.parent_uuid, Some("00000000-0000-0000-0000-000000000001".to_string()));
    assert_eq!(row.effort, Some(9));
    assert_eq!(row.effort_spent, None);

    task.end_date = Some(Timestamp::new(i64::MAX, 0));
    assert!(row_from_task(&task).is_none());
    task.end_date = None;
    task.entry_date = Timestamp::new(i64::MIN, 0);
    assert!(row_from_task(&task).is_none());
}

#[test]
fn rows_and_records_round_trip() {
    let mut task = Task::create("Round".to_string(), UUID_VALUE, Timestamp::new(1_700_000_000, 123));
    task.id = Some(3);
    task.start_date = Some(Timestamp::new(1_700_000_100, 0));
    task.parent_uuid = Some(UUID_VALUE + 1);
    let row = row_from_task(&task).unwrap();
    let read = task_from_record(TaskRecord {
        id: 3,
        uuid: row.uuid,
        description: row.description,
        status: row.status,
        priority: row.priority,
        project: row.project,
        due_date: row.due_date,
        scheduled_date: row.scheduled_date,
        start_date: row.start_date,
        end_date: row.end_date,
        entry_date: row.entry_date,
        modified_date: row.modified_date,
        tags: Ok(Vec::new()),
        annotations: Ok(Vec::new()),
        parent_uuid: row.parent_uuid,
        depends: Ok(Vec::new()),
        recurrence: row.recurrence,
        effort: row.effort.map(|e| e as i64),
        effort_spent: row.effort_spent.map(|e| e as i64),
    })
    .unwrap();
    assert_eq!(read, task);
}

#[test]
fn optional_dates_and_identifiers_are_written() {
    assert_eq!(write_date(None), Some(None));
    assert_eq!(
        write_date(Some(Timestamp::new(0, 0))),
        Some(Some("1970-01-01T00:00:00+00:00".to_string()))
    );
    assert_eq!(write_date(Some(Timestamp::new(i64::MAX, 0))), None);
    assert_eq!(
        format_uuids(&vec![0, UUID_VALUE]),
        vec!["00000000-0000-0000-0000-000000000000".to_string(), UUID_TEXT.to_string()]
    );
    assert!(format_uuids(&Vec::new()).is_empty());
}

#[test]
fn filters_spell_their_queries() {
    let mut f = TaskFilter::default();
    assert_eq!(f.conditions(), " AND status != 'deleted'");
    assert_eq!(
        f.list_query(),
        "SELECT * FROM tasks WHERE 1=1 AND status != 'deleted' ORDER BY modified_date DESC"
    );
    assert_eq!(f.count_query(), "SELECT COUNT(*) FROM tasks WHERE 1=1 AND status != 'deleted'");
    f.include_deleted = true;
    assert_eq!(f.conditions(), "");
    f.status = Some(TaskStatus::Pending);
    f.priority = Some(Priority::High);
    f.limit = Some(10);
    assert_eq!(
        f.list_query(),
        "SELECT * FROM tasks WHERE 1=1 AND status = ? AND priority = ? ORDER BY modified_date DESC LIMIT 10"
    );
    f.project = Some("p".to_string());
    f.offset = Some(20);
    f.include_deleted = false;
    assert_eq!(
        f.list_query(),
        "SELECT * FROM tasks WHERE 1=1 AND status != 'deleted' AND status = ? AND project = ? AND priority = ? ORDER BY modified_date DESC LIMIT 10 OFFSET 20"
    );
    f.limit = None;
    assert_eq!(
        f.count_query(),
        "SELECT COUNT(*) FROM tasks WHERE 1=1 AND status != 'deleted' AND status = ? AND project = ? AND priority = ?"
    );
    assert!(f.list_query().ends_with("DESC OFFSET 20"));
}

#[test]
fn columns_are_found_for_statuses() {
    let columns = vec![
        (1, "To Do".to_string()),
        (2, "Doing".to_string()),
        (3, "Done".to_string()),
        (4, "Done".to_string()),
        (5, "Bin".to_string()),
    ];
    assert_eq!(find_column(&columns, "Done"), Some(3));
    assert_eq!(find_column(&columns, "Nowhere"), None);
    assert_eq!(find_column(&Vec::new(), "Done"), None);

    let none: Vec<(String, String)> = Vec::new();
    assert_eq!(column_for_status(&columns, &none, TaskStatus::Pending), Some(1));
    assert_eq!(column_for_status(&columns, &none, TaskStatus::Waiting), Some(1));
    assert_eq!(column_for_status(&columns, &none, TaskStatus::Completed), Some(3));
    assert_eq!(column_for_status(&columns, &none, TaskStatus::Deleted), Some(3));

    let mapping = vec![
        ("Missing".to_string(), "todo".to_string()),
        ("Doing".to_string(), "todo".to_string()),
        ("To Do".to_string(), "todo".to_string()),
        ("Bin".to_string(), "deleted".to_string()),
        ("Gone".to_string(), "waiting".to_string()),
    ];
    assert_eq!(column_for_status(&columns, &mapping, TaskStatus::Pending), Some(2));
    assert_eq!(column_for_status(&columns, &mapping, TaskStatus::Deleted), Some(5));
    assert_eq!(column_for_status(&columns, &mapping, TaskStatus::Waiting), Some(1));
    assert_eq!(column_for_status(&columns, &mapping, TaskStatus::Completed), Some(3));
    let bare = vec![(9, "Other".to_string())];
    assert_eq!(column_for_status(&bare, &mapping, TaskStatus::Pending), None);
}

fn failure(status: SyncStatus) -> Option<String> {
    match status {
        SyncStatus::Completed => None,
        SyncStatus::Failed { error } => Some(error),
        _ => panic!("unexpected status"),
    }
}

#[test]
fn provider_health_is_summed_up() {
    assert_eq!(SyncMode::parse("issues"), Some(SyncMode::Issues));
    assert_eq!(SyncMode::parse("projects"), Some(SyncMode::Projects));
    assert_eq!(SyncMode::parse("both"), Some(SyncMode::Both));
    assert_eq!(SyncMode::parse("Both"), None);
    assert!(SyncMode::Issues.uses_issues() && !SyncMode::Issues.uses_projects());
    assert!(!SyncMode::Projects.uses_issues() && SyncMode::Projects.uses_projects());
    assert!(SyncMode::Both.uses_issues() && SyncMode::Both.uses_projects());

    let issues = Some(SyncMode::Issues);
    assert_eq!(failure(health_report(issues, "issues", true, 0, None)), None);
    assert_eq!(
        failure(health_report(issues, "issues", false, 0, None)),
        Some("Failed to connect to GitHub Issues".to_string())
    );
    let projects = Some(SyncMode::Projects);
    assert_eq!(
        failure(health_report(projects, "projects", false, 0, None)),
        Some("No project_ids configured".to_string())
    );
    assert_eq!(
        failure(health_report(projects, "projects", false, 2, Some(17))),
        Some("Failed to connect to GitHub Project ID 17".to_string())
    );
    assert_eq!(failure(health_report(projects, "projects", false, 2, None)), None);
    let both = Some(SyncMode::Both);
    assert_eq!(failure(health_report(both, "both", true, 1, None)), None);
    for (ok, count, failed) in [(false, 1, None), (true, 0, None), (true, 1, Some(3))] {
        assert_eq!(
            failure(health_report(both, "both", ok, count, failed)),
            Some("Failed to connect to one or more GitHub services".to_string())
        );
    }
    assert_eq!(
        failure(health_report(None, "all", true, 1, None)),
        Some("Invalid sync_mode: all".to_string())
    );
}

#[test]
fn retry_delays_double_up_to_the_limit() {
    let policy = RetryPolicy::standard();
    assert_eq!(policy.max_attempts, 3);
    assert_eq!(policy.delay_ms(0), 0);
    assert_eq!(policy.delay_ms(1), 500);
    assert_eq!(policy.delay_ms(2), 1_000);
    assert_eq!(policy.delay_ms(3), 2_000);
    assert_eq!(policy.delay_ms(5), 8_000);
    assert_eq!(policy.delay_ms(6), 10_000);
    assert_eq!(policy.delay_ms(u32::MAX), 10_000);

    let wide = RetryPolicy { max_attempts: 1, base_delay_ms: u64::MAX, max_delay_ms: u64::MAX };
    assert_eq!(wide.delay_ms(1), u64::MAX);
    assert_eq!(wide.delay_ms(9), u64::MAX);
    let inverted = RetryPolicy { max_attempts: 1, base_delay_ms: 9, max_delay_ms: 4 };
    assert_eq!(inverted.delay_ms(1), 4);
    let odd = RetryPolicy { max_attempts: 1, base_delay_ms: 3, max_delay_ms: 7 };
    assert_eq!(odd.delay_ms(1), 3);
    assert_eq!(odd.delay_ms(2), 6);
    assert_eq!(odd.delay_ms(3), 7);
    let none = RetryPolicy { max_attempts: 1, base_delay_ms: 0, max_delay_ms: 0 };
    assert_eq!(none.delay_ms(4), 0);

    let network = EddaError::Sync(SyncError::Network { message: "n".to_string() });
    let auth = EddaError::Sync(SyncError::Authentication { message: "a".to_string() });
    let other = EddaError::Database("d".to_string());
    assert!(policy.should_retry(1, &network));
    assert!(policy.should_retry(2, &network));
    assert!(!policy.should_retry(3, &network));
    assert!(!policy.should_retry(1, &auth));
    assert!(!policy.should_retry(1, &other));
}

#[test]
fn record_tags_and_dependencies_are_taken_once() {
    let mut r = record();
    r.tags = Ok(vec!["a".to_string(), "b".to_string(), "a".to_string(), "c".to_string(), "b".to_string()]);
    r.depends = Ok(vec![3, 3, 9, 3, 4, 9]);
    let task = task_from_record(r).unwrap();
    assert_eq!(task.tags, vec!["a".to_string(), "b".to_string(), "c".to_string()]);
    assert_eq!(task.depends, HashSet::from([3, 4, 9]));

    assert_eq!(distinct_texts(&Vec::new()), Vec::<String>::new());
    assert_eq!(id_set(&vec![1, 2, 1]), HashSet::from([1, 2]));
    assert_eq!(id_set(&vec![5]), HashSet::from([5]));
    assert!(id_set(&Vec::new()).is_empty());
}
