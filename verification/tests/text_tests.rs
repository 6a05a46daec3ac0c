use edda::commands::{count_with_status, modify_task, parse_task_id};
use edda::config::{
    collect_ids, collect_mapping, parse_log_level, strip_leading, validate_config, EddaConfig,
    GitHubConfig, LogLevel,
};
use edda::error::{ConfigError, EddaError, SyncError, TaskError};
use edda::status::{Priority, TaskStatus};
use edda::task::Task;
use edda::text::{
    first_chars, i64_to_string, is_blank, join, parse_i64, parse_u64, split, starts_with, trim,
    u64_to_string,
};
use edda::time::Timestamp;
use edda::validation::{sanitize_string, validate_task_data};

fn strings(parts: &[&str]) -> Vec<String> {
    parts.iter().map(|s| s.to_string()).collect()
}

fn validation_message<T: std::fmt::Debug>(r: Result<T, EddaError>) -> String {
    match r {
        Err(EddaError::Task(TaskError::Validation { message })) => message,
        other => panic!("expected a validation error, got {:?}", other),
    }
}

fn config_message<T: std::fmt::Debug>(r: Result<T, EddaError>) -> String {
    match r {
        Err(EddaError::Config(ConfigError::Validation { message })) => message,
        other => panic!("expected a configuration error, got {:?}", other),
    }
}

fn settings_message<T: std::fmt::Debug>(r: Result<T, EddaError>) -> String {
    match r {
        Err(EddaError::Sync(SyncError::Configuration { message })) => message,
        other => panic!("expected a settings error, got {:?}", other),
    }
}

#[test]
fn blank_means_white_space_only() {
    assert!(is_blank(""));
    assert!(is_blank("   "));
    assert!(is_blank(" \t\r\n\u{000B}\u{000C}"));
    assert!(is_blank("\u{0085}\u{00A0}\u{1680}\u{2000}\u{200A}\u{2028}\u{2029}\u{202F}\u{205F}\u{3000}"));
    assert!(!is_blank("a"));
    assert!(!is_blank("  a  "));
    assert!(!is_blank("\u{200B}"));
    assert!(!is_blank("\u{0000}"));
}

#[test]
fn blank_agrees_with_the_standard_library() {
    for n in 0u32..0x3100 {
        if let Some(c) = char::from_u32(n) {
            let s = c.to_string();
            assert_eq!(is_blank(&s), c.is_whitespace(), "code point {:x}", n);
            assert_eq!(trim(&s), s.trim(), "code point {:x}", n);
        }
    }
}

#[test]
fn numerals_of_integers() {
    assert_eq!(u64_to_string(0), "0");
    assert_eq!(u64_to_string(9), "9");
    assert_eq!(u64_to_string(10), "10");
    assert_eq!(u64_to_string(1234567890), "1234567890");
    assert_eq!(u64_to_string(u64::MAX), "18446744073709551615");
    assert_eq!(i64_to_string(0), "0");
    assert_eq!(i64_to_string(-1), "-1");
    assert_eq!(i64_to_string(42), "42");
    assert_eq!(i64_to_string(i64::MIN), "-9223372036854775808");
    assert_eq!(i64_to_string(i64::MAX), "9223372036854775807");
}

#[test]
fn parsing_numerals_agrees_with_the_standard_library() {
    let cases = [
        "", "+", "-", "0", "7", "+7", "-7", "007", "12a", "a12", " 12", "12 ", "1 2", "++1", "+-1",
        "-+1", "--1", "18446744073709551615", "18446744073709551616", "99999999999999999999999",
        "9223372036854775807", "9223372036854775808", "-9223372036854775808",
        "-9223372036854775809", "-0", "+0", "١٢", "1_000", "0x10", "1e3", ".5",
    ];
    for text in cases {
        assert_eq!(parse_u64(text), text.parse::<u64>().ok(), "u64 of {:?}", text);
        assert_eq!(parse_i64(text), text.parse::<i64>().ok(), "i64 of {:?}", text);
    }
}

#[test]
fn split_join_and_trim() {
    assert_eq!(split("a,b,,c", ','), strings(&["a", "b", "", "c"]));
    assert_eq!(split("", ','), strings(&[""]));
    assert_eq!(split(",", ','), strings(&["", ""]));
    assert_eq!(split("abc", ','), strings(&["abc"]));
    assert_eq!(split("a=b=c", '='), strings(&["a", "b", "c"]));
    assert_eq!(join(&strings(&["a", "b", "c"]), ", "), "a, b, c");
    assert_eq!(join(&strings(&["a"]), ","), "a");
    assert_eq!(join(&strings(&[]), ","), "");
    assert_eq!(join(&strings(&["", ""]), "-"), "-");
    assert_eq!(trim("  a b \t"), "a b");
    assert_eq!(trim(""), "");
    assert_eq!(trim(" \n "), "");
    assert_eq!(trim("x"), "x");
    assert!(starts_with("sqlite:x", "sqlite:"));
    assert!(starts_with("abc", ""));
    assert!(!starts_with("sqlit", "sqlite:"));
    assert!(!starts_with("xsqlite:", "sqlite:"));
    for text in ["a,b,,c", "", ",", ",,", "abc", "a,", ",a"] {
        let expected: Vec<String> = text.split(',').map(|s| s.to_string()).collect();
        assert_eq!(split(text, ','), expected);
    }
}

#[test]
fn first_characters_are_taken() {
    assert_eq!(first_chars("abcdef", 3), "abc");
    assert_eq!(first_chars("abc", 3), "abc");
    assert_eq!(first_chars("ab", 3), "ab");
    assert_eq!(first_chars("", 3), "");
    assert_eq!(first_chars("abc", 0), "");
    assert_eq!(first_chars("äöüß", 2), "äö");
    assert_eq!(first_chars("abc", usize::MAX), "abc");
}

#[test]
fn sanitize_removes_control_codes() {
    assert_eq!(sanitize_string("plain"), "plain");
    assert_eq!(sanitize_string("a\0b"), "ab");
    assert_eq!(sanitize_string("a\tb\nc\r"), "abc");
    assert_eq!(sanitize_string("\u{7f}x\u{80}y\u{9f}z\u{a0}"), "xyz\u{a0}");
    assert_eq!(sanitize_string(""), "");
    assert_eq!(sanitize_string("é ü 漢"), "é ü 漢");
}

#[test]
fn sanitize_agrees_with_the_standard_library() {
    for n in 0u32..0x400 {
        if let Some(c) = char::from_u32(n) {
            let s = format!("a{}b", c);
            let expected: String = s.chars().filter(|&c| c != '\0' && !c.is_control()).collect();
            assert_eq!(sanitize_string(&s), expected, "code point {:x}", n);
        }
    }
}

#[test]
fn task_data_is_checked_in_order() {
    assert!(validate_task_data("ok", None, &[]).is_ok());
    assert!(validate_task_data("ok", Some("p"), &strings(&["a", "b"])).is_ok());
    assert_eq!(
        validation_message(validate_task_data("  ", Some(&"p".repeat(200)), &strings(&[""]))),
        "Task description cannot be empty"
    );
    assert!(validate_task_data(&"d".repeat(1000), None, &[]).is_ok());
    assert_eq!(
        validation_message(validate_task_data(&"d".repeat(1001), None, &[])),
        "Task description too long (max 1000 characters)"
    );
    // the limit counts bytes
    assert_eq!(
        validation_message(validate_task_data(&"é".repeat(501), None, &[])),
        "Task description too long (max 1000 characters)"
    );
    assert!(validate_task_data("ok", Some(&"p".repeat(100)), &[]).is_ok());
    assert_eq!(
        validation_message(validate_task_data("ok", Some(&"p".repeat(101)), &strings(&[""]))),
        "Project name too long (max 100 characters)"
    );
    assert_eq!(
        validation_message(validate_task_data("ok", None, &strings(&["a", " ", &"t".repeat(51)]))),
        "Tag cannot be empty"
    );
    let long = "t".repeat(51);
    assert_eq!(
        validation_message(validate_task_data("ok", None, &strings(&["a", &long, ""]))),
        format!("Tag '{}' too long (max 50 characters)", long)
    );
    assert!(validate_task_data("ok", None, &strings(&[&"t".repeat(50)])).is_ok());
}

#[test]
fn task_identifiers_are_read_from_text() {
    assert_eq!(parse_task_id("12").unwrap(), 12);
    assert_eq!(parse_task_id("-3").unwrap(), -3);
    assert_eq!(parse_task_id("+4").unwrap(), 4);
    assert_eq!(validation_message(parse_task_id("x1")), "Invalid task ID: x1");
    assert_eq!(validation_message(parse_task_id("")), "Invalid task ID: ");
}

#[test]
fn one_field_of_a_task_is_set() {
    let task = Task::create("t".to_string(), 1, Timestamp::new(0, 0));
    let t = modify_task(task.clone(), "Description", "new".to_string()).unwrap();
    assert_eq!(t.description, "new");
    let t = modify_task(task.clone(), "STATUS", "Waiting".to_string()).unwrap();
    assert_eq!(t.status, TaskStatus::Waiting);
    let t = modify_task(task.clone(), "priority", "h".to_string()).unwrap();
    assert_eq!(t.priority, Some(Priority::High));
    let t = modify_task(task.clone(), "priority", "3".to_string()).unwrap();
    assert_eq!(t.priority, Some(Priority::Number(3)));
    let t = modify_task(task.clone(), "project", "home".to_string()).unwrap();
    assert_eq!(t.project, Some("home".to_string()));
    assert_eq!(
        validation_message(modify_task(task.clone(), "status", "done".to_string())),
        "Invalid status: Validation error: Invalid task status: done"
    );
    assert_eq!(
        validation_message(modify_task(task.clone(), "priority", "12".to_string())),
        "Invalid priority: Validation error: Priority number must be 0-9, got: 12"
    );
    assert_eq!(
        validation_message(modify_task(task.clone(), "priority", "urgent".to_string())),
        "Invalid priority: Validation error: Invalid priority: URGENT"
    );
    assert_eq!(
        validation_message(modify_task(task.clone(), "priority", "300".to_string())),
        "Invalid priority: Validation error: Invalid priority: 300"
    );
    assert_eq!(
        validation_message(modify_task(task, "Colour", "red".to_string())),
        "Unknown field: Colour"
    );
}

#[test]
fn tasks_are_counted_by_status() {
    let mut tasks = Vec::new();
    for status in [TaskStatus::Pending, TaskStatus::Completed, TaskStatus::Pending, TaskStatus::Deleted] {
        let mut t = Task::create("t".to_string(), 1, Timestamp::new(0, 0));
        t.status = status;
        tasks.push(t);
    }
    assert_eq!(count_with_status(&tasks, TaskStatus::Pending), 2);
    assert_eq!(count_with_status(&tasks, TaskStatus::Completed), 1);
    assert_eq!(count_with_status(&tasks, TaskStatus::Waiting), 0);
    assert_eq!(count_with_status(&Vec::new(), TaskStatus::Pending), 0);
}

#[test]
fn set_value_sets_every_key() {
    let mut c = EddaConfig::new("d".to_string());
    c.set_value("data_dir", "/x").unwrap();
    assert_eq!(c.data_dir, "/x");
    c.set_value("log_level", "debug").unwrap();
    assert_eq!(c.log_level, "debug");
    c.set_value("output_format", "yaml").unwrap();
    assert_eq!(c.output_format, "yaml");
    c.set_value("database.url", "sqlite:other.db").unwrap();
    assert_eq!(c.database.url, "sqlite:other.db");
    c.set_value("database.max_connections", "12").unwrap();
    assert_eq!(c.database.max_connections, 12);
    c.set_value("github.repository", "o/r").unwrap();
    assert_eq!(c.github.repository, Some("o/r".to_string()));
    c.set_value("github.sync_interval", "600").unwrap();
    assert_eq!(c.github.sync_interval, 600);
    c.set_value("github.sync_mode", "both").unwrap();
    assert_eq!(c.github.sync_mode, "both");
    c.set_value("github.project_ids", "1, 2,x,,3 ").unwrap();
    assert_eq!(c.github.project_ids, vec![1, 2, 3]);
    c.set_value("github.column_mapping", "A=todo,B=done,bad,x=y=z,A=later,=e").unwrap();
    assert_eq!(
        c.github.column_mapping,
        vec![
            ("A".to_string(), "later".to_string()),
            ("B".to_string(), "done".to_string()),
            ("".to_string(), "e".to_string()),
        ]
    );
    assert_eq!(c.get_value("github.column_mapping"), Some("A=later,B=done,=e".to_string()));
}

#[test]
fn set_value_rejects_what_it_cannot_read() {
    let mut c = EddaConfig::new("d".to_string());
    assert_eq!(config_message(c.set_value("log_level", "loud")), "Invalid log level: loud");
    assert_eq!(config_message(c.set_value("log_level", "INFO")), "Invalid log level: INFO");
    assert_eq!(config_message(c.set_value("output_format", "xml")), "Invalid output format: xml");
    assert_eq!(
        config_message(c.set_value("database.max_connections", "many")),
        "Invalid max_connections value: many"
    );
    assert_eq!(
        config_message(c.set_value("database.max_connections", "4294967296")),
        "Invalid max_connections value: 4294967296"
    );
    assert_eq!(
        config_message(c.set_value("github.sync_interval", "-5")),
        "Invalid sync_interval value: -5"
    );
    assert_eq!(config_message(c.set_value("github.sync_mode", "all")), "Invalid sync_mode: all");
    assert_eq!(config_message(c.set_value("colour", "red")), "Unknown configuration key: colour");
    assert_eq!(c.log_level, "info");
    assert_eq!(c.output_format, "text");
    assert_eq!(c.database.max_connections, 5);
    assert_eq!(c.github.sync_interval, 300);
    assert_eq!(c.github.sync_mode, "issues");
    c.set_value("database.max_connections", "4294967295").unwrap();
    assert_eq!(c.database.max_connections, u32::MAX);
}

#[test]
fn test_validate_config_success() {
    let config = EddaConfig::new("d".to_string());
    assert!(validate_config(&config).is_ok());
}

#[test]
fn test_validate_config_invalid_log_level() {
    let mut config = EddaConfig::new("d".to_string());
    config.log_level = "invalid".to_string();
    let result = validate_config(&config);
    assert!(result.is_err());
    assert!(matches!(result.unwrap_err(), EddaError::Config(ConfigError::Validation { .. })));
}

#[test]
fn test_validate_config_invalid_output_format() {
    let mut config = EddaConfig::new("d".to_string());
    config.output_format = "invalid".to_string();
    let result = validate_config(&config);
    assert!(result.is_err());
    assert!(matches!(result.unwrap_err(), EddaError::Config(ConfigError::Validation { .. })));
}

#[test]
fn validation_reports_the_first_fault() {
    let mut c = EddaConfig::new("d".to_string());
    c.log_level = "x".to_string();
    c.output_format = "y".to_string();
    assert_eq!(config_message(validate_config(&c)), "Invalid log level: x");
    c.log_level = "warn".to_string();
    assert_eq!(config_message(validate_config(&c)), "Invalid output format: y");
    c.output_format = "json".to_string();
    c.github.sync_mode = "z".to_string();
    assert_eq!(config_message(validate_config(&c)), "Invalid sync_mode: z");
    c.github.sync_mode = "projects".to_string();
    assert_eq!(
        config_message(validate_config(&c)),
        "project_ids is required when sync_mode is 'projects' or 'both'"
    );
    c.github.sync_mode = "both".to_string();
    assert_eq!(
        config_message(validate_config(&c)),
        "project_ids is required when sync_mode is 'projects' or 'both'"
    );
    c.github.project_ids = vec![1];
    assert!(validate_config(&c).is_ok());
    c.github.column_mapping.push(("Later".to_string(), "".to_string()));
    c.github.column_mapping.push(("".to_string(), "x".to_string()));
    assert_eq!(config_message(validate_config(&c)), "Invalid column_mapping entry: Later=");
}

#[test]
fn log_levels_are_read_in_any_case() {
    assert_eq!(parse_log_level("trace"), Ok(LogLevel::Trace));
    assert_eq!(parse_log_level("DEBUG"), Ok(LogLevel::Debug));
    assert_eq!(parse_log_level("Info"), Ok(LogLevel::Info));
    assert_eq!(parse_log_level("warn"), Ok(LogLevel::Warn));
    assert_eq!(parse_log_level("ERROR"), Ok(LogLevel::Error));
    assert_eq!(parse_log_level("Loud"), Err("Invalid log level: Loud".to_string()));
}

#[test]
fn overrides_replace_what_is_given() {
    let mut c = EddaConfig::new("d".to_string());
    c.override_from_env(None, Some("debug".to_string()), None, Some("o/r".to_string()), None);
    assert_eq!(c.data_dir, "d");
    assert_eq!(c.log_level, "debug");
    assert_eq!(c.output_format, "text");
    assert_eq!(c.github.repository, Some("o/r".to_string()));
    assert_eq!(c.database.url, "sqlite:edda.db");
    c.override_from_env(
        Some("e".to_string()),
        None,
        Some("json".to_string()),
        None,
        Some("sqlite:x".to_string()),
    );
    assert_eq!(c.data_dir, "e");
    assert_eq!(c.log_level, "debug");
    assert_eq!(c.output_format, "json");
    assert_eq!(c.github.repository, Some("o/r".to_string()));
    assert_eq!(c.database.url, "sqlite:x");

    let mut c = EddaConfig::new("d".to_string());
    c.apply_options(Some("/data".to_string()), Some("yaml".to_string()), true);
    assert_eq!(c.data_dir, "/data");
    assert_eq!(c.output_format, "yaml");
    assert_eq!(c.log_level, "debug");
    c.log_level = "warn".to_string();
    c.apply_options(None, None, false);
    assert_eq!(c.data_dir, "/data");
    assert_eq!(c.output_format, "yaml");
    assert_eq!(c.log_level, "warn");
}

#[test]
fn database_file_follows_the_address() {
    let mut c = EddaConfig::new("/data".to_string());
    assert_eq!(c.database_file(), "edda.db");
    c.database.url = "sqlite:sqlite:a.db".to_string();
    assert_eq!(c.database_file(), "a.db");
    c.database.url = "postgres://x".to_string();
    assert_eq!(c.database_file(), "/data/edda.db");
    assert_eq!(strip_leading("ababc", "ab"), "c");
    assert_eq!(strip_leading("abc", ""), "abc");
    assert_eq!(strip_leading("abab", "ab"), "");
    for (s, p) in [("sqlite:sqlite:a", "sqlite:"), ("aaa", "a"), ("aab", "aa"), ("x", "xy")] {
        assert_eq!(strip_leading(s, p), s.trim_start_matches(p));
    }
}

#[test]
fn lists_of_the_settings_are_read() {
    assert_eq!(collect_ids(&strings(&["1", " 2 ", "x", "", "+3"])), vec![1, 2, 3]);
    assert_eq!(
        collect_mapping(&strings(&["a=b", "c", "d=e=f", "a=z"])),
        vec![("a".to_string(), "z".to_string())]
    );
}

#[test]
fn github_settings_are_validated() {
    let mut g = GitHubConfig::default();
    g.set_sync_mode("projects".to_string()).unwrap();
    assert_eq!(g.sync_mode, "projects");
    assert_eq!(
        settings_message(g.set_sync_mode("everything".to_string())),
        "Sync mode must be 'issues', 'projects', or 'both'"
    );
    assert_eq!(g.sync_mode, "projects");

    g.set_project_ids("3, 4,5").unwrap();
    assert_eq!(g.project_ids, vec![3, 4, 5]);
    assert_eq!(
        settings_message(g.set_project_ids("3,x")),
        "Invalid project IDs format. Use comma-separated numbers."
    );
    assert_eq!(
        settings_message(g.set_project_ids("")),
        "Invalid project IDs format. Use comma-separated numbers."
    );
    assert_eq!(g.project_ids, vec![3, 4, 5]);

    g.map_column("Done".to_string(), "completed".to_string()).unwrap();
    g.map_column("Blocked".to_string(), "cancelled".to_string()).unwrap();
    assert_eq!(
        g.column_mapping,
        vec![
            ("To Do".to_string(), "todo".to_string()),
            ("In Progress".to_string(), "in_progress".to_string()),
            ("Done".to_string(), "completed".to_string()),
            ("Blocked".to_string(), "cancelled".to_string()),
        ]
    );
    assert_eq!(
        settings_message(g.map_column("X".to_string(), "done".to_string())),
        "Status must be 'pending', 'in_progress', 'completed', or 'cancelled'"
    );
    assert_eq!(g.column_mapping.len(), 4);
}
