use edda::status::{Priority, TaskStatus};

#[test]
fn test_task_status_display() {
    assert_eq!(TaskStatus::Pending.to_string(), "pending");
    assert_eq!(TaskStatus::Completed.to_string(), "completed");
    assert_eq!(TaskStatus::Deleted.to_string(), "deleted");
    assert_eq!(TaskStatus::Waiting.to_string(), "waiting");
}

#[test]
fn test_task_status_from_str() {
    assert_eq!("pending".parse::<TaskStatus>().unwrap(), TaskStatus::Pending);
    assert_eq!("COMPLETED".parse::<TaskStatus>().unwrap(), TaskStatus::Completed);
    assert_eq!("Deleted".parse::<TaskStatus>().unwrap(), TaskStatus::Deleted);
    assert_eq!("waiting".parse::<TaskStatus>().unwrap(), TaskStatus::Waiting);

    assert!("invalid".parse::<TaskStatus>().is_err());
}

#[test]
fn test_priority_display() {
    assert_eq!(Priority::High.to_string(), "H");
    assert_eq!(Priority::Medium.to_string(), "M");
    assert_eq!(Priority::Low.to_string(), "L");
    assert_eq!(Priority::Number(5).to_string(), "5");
}

#[test]
fn test_priority_from_str() {
    assert_eq!("H".parse::<Priority>().unwrap(), Priority::High);
    assert_eq!("high".parse::<Priority>().unwrap(), Priority::High);
    assert_eq!("M".parse::<Priority>().unwrap(), Priority::Medium);
    assert_eq!("medium".parse::<Priority>().unwrap(), Priority::Medium);
    assert_eq!("L".parse::<Priority>().unwrap(), Priority::Low);
    assert_eq!("low".parse::<Priority>().unwrap(), Priority::Low);
    assert_eq!("5".parse::<Priority>().unwrap(), Priority::Number(5));
    assert_eq!("0".parse::<Priority>().unwrap(), Priority::Number(0));
    assert_eq!("9".parse::<Priority>().unwrap(), Priority::Number(9));

    assert!("10".parse::<Priority>().is_err());
    assert!("invalid".parse::<Priority>().is_err());
}
