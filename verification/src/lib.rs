//! Offline-first task tracking: the task entity and its status machine, the
//! validating task engine, and the synchronisation core (pending-operation
//! queue, local cache, conflict resolver and the manager that composes them).
//!
//! Every function that reads the clock or draws a random identifier has a
//! twin that takes the instant or the identifier as an argument; the twin's
//! contract is exact, and the first states what holds of every reading.

pub mod cache;
pub mod commands;
pub mod config;
pub mod document;
pub mod engine;
pub mod error;
pub mod github;
pub mod manager;
pub mod queue;
pub mod record;
pub mod resolver;
pub mod retry;
pub mod status;
pub mod storage;
pub mod task;
pub mod text;
pub mod time;
pub mod validation;

pub use cache::{CachedDocument, CachedTask, LocalCache, SyncStatus};
pub use config::{DatabaseConfig, EddaConfig, GitHubConfig};
pub use document::Document;
pub use engine::TaskEngine;
pub use error::{ConfigError, EddaError, EddaResult, StorageError, SyncError, TaskError};
pub use manager::{SyncManager, SyncProvider};
pub use queue::{OfflineQueue, SyncOperation};
pub use resolver::{ConflictResolution, ConflictResolver};
pub use retry::RetryPolicy;
pub use status::{Priority, TaskStatus};
pub use storage::{StorageManager, TaskFilter, TaskStorage};
pub use task::{Annotation, Task};
pub use time::Timestamp;
