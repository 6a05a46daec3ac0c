use edda::config::{DatabaseConfig, EddaConfig, GitHubConfig};
use edda::storage::{join_path, StorageManager};

#[test]
fn test_default_config() {
    let config = EddaConfig::new("/tmp/edda".to_string());
    assert_eq!(config.log_level, "info");
    assert_eq!(config.output_format, "text");
    assert_eq!(config.github.sync_interval, 300);
    assert_eq!(config.database.max_connections, 5);
    assert_eq!(config.github.sync_mode, "issues");
    assert_eq!(config.github.project_ids.len(), 0);
    assert_eq!(config.github.column_mapping.len(), 3);
    assert_eq!(config.data_dir, "/tmp/edda");
}

#[test]
fn test_github_config_default() {
    let config = GitHubConfig::default();
    assert_eq!(config.repository, None);
    assert_eq!(config.sync_interval, 300);
    assert_eq!(config.sync_mode, "issues");
    assert_eq!(config.project_ids.len(), 0);
    assert_eq!(config.column_mapping.len(), 3);
}

#[test]
fn test_database_config_default() {
    let config = DatabaseConfig::default();
    assert_eq!(config.url, "sqlite:edda.db");
    assert_eq!(config.max_connections, 5);
}

#[test]
fn default_column_mapping_names_three_columns() {
    let config = GitHubConfig::default();
    assert_eq!(
        config.column_mapping,
        vec![
            ("To Do".to_string(), "todo".to_string()),
            ("In Progress".to_string(), "in_progress".to_string()),
            ("Done".to_string(), "done".to_string()),
        ]
    );
}

#[test]
fn get_value_reads_every_key() {
    let mut config = EddaConfig::new("/data".to_string());
    config.github.project_ids = vec![12, 7, 300];
    assert_eq!(config.get_value("data_dir"), Some("/data".to_string()));
    assert_eq!(config.get_value("log_level"), Some("info".to_string()));
    assert_eq!(config.get_value("output_format"), Some("text".to_string()));
    assert_eq!(config.get_value("database.url"), Some("sqlite:edda.db".to_string()));
    assert_eq!(config.get_value("database.max_connections"), Some("5".to_string()));
    assert_eq!(config.get_value("github.repository"), None);
    assert_eq!(config.get_value("github.sync_interval"), Some("300".to_string()));
    assert_eq!(config.get_value("github.sync_mode"), Some("issues".to_string()));
    assert_eq!(config.get_value("github.project_ids"), Some("12,7,300".to_string()));
    assert_eq!(
        config.get_value("github.column_mapping"),
        Some("To Do=todo,In Progress=in_progress,Done=done".to_string())
    );
    assert_eq!(config.get_value("unknown"), None);
    config.github.repository = Some("owner/repo".to_string());
    assert_eq!(config.get_value("github.repository"), Some("owner/repo".to_string()));
}

#[test]
fn get_value_of_empty_lists_is_empty() {
    let mut config = EddaConfig::new("d".to_string());
    config.github.column_mapping = Vec::new();
    assert_eq!(config.get_value("github.project_ids"), Some(String::new()));
    assert_eq!(config.get_value("github.column_mapping"), Some(String::new()));
}

#[test]
fn storage_paths_lie_below_the_data_directory() {
    let manager = StorageManager::new(EddaConfig::new("/var/edda".to_string()));
    assert_eq!(manager.data_dir(), "/var/edda");
    assert_eq!(manager.database_path(), "/var/edda/db/edda.db");
    assert_eq!(manager.logs_dir(), "/var/edda/logs");
    assert_eq!(manager.backups_dir(), "/var/edda/backups");
    assert_eq!(manager.cache_dir(), "/var/edda/cache");
    assert_eq!(
        manager.required_dirs(),
        vec![
            "/var/edda".to_string(),
            "/var/edda/db".to_string(),
            "/var/edda/logs".to_string(),
            "/var/edda/backups".to_string(),
            "/var/edda/cache".to_string(),
        ]
    );
    assert_eq!(manager.config().log_level, "info");
}

#[test]
fn join_path_adds_one_separator() {
    assert_eq!(join_path("a", "b"), "a/b");
    assert_eq!(join_path("a/", "b"), "a/b");
    assert_eq!(join_path("", "b"), "b");
    assert_eq!(join_path("/", "b"), "/b");
    assert_eq!(join_path("a", "/b"), "/b");
    assert_eq!(join_path("a", ""), "a/");
}

#[test]
fn join_path_agrees_with_the_standard_library() {
    for base in ["a", "a/", "", "/", "x/y", "x/y/", "/x"] {
        for child in ["db", "db/edda.db", "/abs", "/", "", "a b"] {
            let expected = std::path::Path::new(base).join(child);
            assert_eq!(join_path(base, child), expected.to_string_lossy(), "{base:?} {child:?}");
        }
    }
}

#[test]
fn installation_is_initialised_when_all_five_directories_exist() {
    let manager = StorageManager::new(EddaConfig::new("d".to_string()));
    assert!(manager.is_initialized(&[true, true, true, true, true]));
    assert!(!manager.is_initialized(&[true, true, false, true, true]));
    assert!(!manager.is_initialized(&[true, true, true, true]));
    assert!(!manager.is_initialized(&[]));
}
