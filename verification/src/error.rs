//! The error taxonomy, and the one-line message of each error.

use vstd::prelude::*;
use vstd::string::*;

verus! {

/// What can go wrong with a task.
#[derive(Debug)]
pub enum TaskError {
    NotFound { id: String },
    InvalidStatusTransition { from: String, to: String },
    Validation { message: String },
    AlreadyExists { id: String },
    Storage { message: String },
}

impl TaskError {
    /// The message shown for this error.
    pub open spec fn message_text(self) -> Seq<char> {
        match self {
            TaskError::NotFound { id } => "Task not found: "@ + id@,
            TaskError::InvalidStatusTransition { from, to } => "Invalid status transition from "@
                + from@ + " to "@ + to@,
            TaskError::Validation { message } => "Validation error: "@ + message@,
            TaskError::AlreadyExists { id } => "Task already exists: "@ + id@,
            TaskError::Storage { message } => "Storage error: "@ + message@,
        }
    }

    /// The message shown for this error, as text.
    pub fn to_string(&self) -> (r: String)
        ensures
            r@ == self.message_text(),
    {
        match self {
            TaskError::NotFound { id } => {
                let mut r = "Task not found: ".to_owned();
                r.append(id.as_str());
                r
            },
            TaskError::InvalidStatusTransition { from, to } => {
                let mut r = "Invalid status transition from ".to_owned();
                r.append(from.as_str());
                r.append(" to ");
                r.append(to.as_str());
                r
            },
            TaskError::Validation { message } => {
                let mut r = "Validation error: ".to_owned();
                r.append(message.as_str());
                r
            },
            TaskError::AlreadyExists { id } => {
                let mut r = "Task already exists: ".to_owned();
                r.append(id.as_str());
                r
            },
            TaskError::Storage { message } => {
                let mut r = "Storage error: ".to_owned();
                r.append(message.as_str());
                r
            },
        }
    }
}

/// What can go wrong in the storage layer.
#[derive(Debug)]
pub enum StorageError {
    Connection { message: String },
    Migration { message: String },
    Corruption { message: String },
    Initialization { message: String },
    Backup { message: String },
}

impl StorageError {
    /// The message shown for this error.
    pub open spec fn message_text(self) -> Seq<char> {
        match self {
            StorageError::Connection { message } => "Database connection failed: "@ + message@,
            StorageError::Migration { message } => "Database migration failed: "@ + message@,
            StorageError::Corruption { message } => "Data corruption detected: "@ + message@,
            StorageError::Initialization { message } => "Storage initialization failed: "@
                + message@,
            StorageError::Backup { message } => "Backup error: "@ + message@,
        }
    }

    /// The message shown for this error, as text.
    pub fn to_string(&self) -> (r: String)
        ensures
            r@ == self.message_text(),
    {
        match self {
            StorageError::Connection { message } => {
                let mut r = "Database connection failed: ".to_owned();
                r.append(message.as_str());
                r
            },
            StorageError::Migration { message } => {
                let mut r = "Database migration failed: ".to_owned();
                r.append(message.as_str());
                r
            },
            StorageError::Corruption { message } => {
                let mut r = "Data corruption detected: ".to_owned();
                r.append(message.as_str());
                r
            },
            StorageError::Initialization { message } => {
                let mut r = "Storage initialization failed: ".to_owned();
                r.append(message.as_str());
                r
            },
            StorageError::Backup { message } => {
                let mut r = "Backup error: ".to_owned();
                r.append(message.as_str());
                r
            },
        }
    }
}

/// What can go wrong with the configuration.
#[derive(Debug)]
pub enum ConfigError {
    FileNotFound { path: String },
    InvalidFormat { message: String },
    MissingRequired { key: String },
    Validation { message: String },
}

impl ConfigError {
    /// The message shown for this error.
    pub open spec fn message_text(self) -> Seq<char> {
        match self {
            ConfigError::FileNotFound { path } => "Configuration file not found: "@ + path@,
            ConfigError::InvalidFormat { message } => "Invalid configuration format: "@ + message@,
            ConfigError::MissingRequired { key } => "Missing required configuration: "@ + key@,
            ConfigError::Validation { message } => "Configuration validation failed: "@ + message@,
        }
    }

    /// The message shown for this error, as text.
    pub fn to_string(&self) -> (r: String)
        ensures
            r@ == self.message_text(),
    {
        match self {
            ConfigError::FileNotFound { path } => {
                let mut r = "Configuration file not found: ".to_owned();
                r.append(path.as_str());
                r
            },
            ConfigError::InvalidFormat { message } => {
                let mut r = "Invalid configuration format: ".to_owned();
                r.append(message.as_str());
                r
            },
            ConfigError::MissingRequired { key } => {
                let mut r = "Missing required configuration: ".to_owned();
                r.append(key.as_str());
                r
            },
            ConfigError::Validation { message } => {
                let mut r = "Configuration validation failed: ".to_owned();
                r.append(message.as_str());
                r
            },
        }
    }
}

/// What can go wrong while synchronising with a remote tracker.
#[derive(Debug)]
pub enum SyncError {
    ProviderNotFound { provider: String },
    Authentication { message: String },
    Network { message: String },
    Conflict { message: String },
    Configuration { message: String },
}

impl SyncError {
    /// The message shown for this error.
    pub open spec fn message_text(self) -> Seq<char> {
        match self {
            SyncError::ProviderNotFound { provider } => "Sync provider not found: "@ + provider@,
            SyncError::Authentication { message } => "Authentication failed: "@ + message@,
            SyncError::Network { message } => "Network error: "@ + message@,
            SyncError::Conflict { message } => "Conflict resolution failed: "@ + message@,
            SyncError::Configuration { message } => "Configuration error: "@ + message@,
        }
    }

    /// The message shown for this error, as text.
    pub fn to_string(&self) -> (r: String)
        ensures
            r@ == self.message_text(),
    {
        match self {
            SyncError::ProviderNotFound { provider } => {
                let mut r = "Sync provider not found: ".to_owned();
                r.append(provider.as_str());
                r
            },
            SyncError::Authentication { message } => {
                let mut r = "Authentication failed: ".to_owned();
                r.append(message.as_str());
                r
            },
            SyncError::Network { message } => {
                let mut r = "Network error: ".to_owned();
                r.append(message.as_str());
                r
            },
            SyncError::Conflict { message } => {
                let mut r = "Conflict resolution failed: ".to_owned();
                r.append(message.as_str());
                r
            },
            SyncError::Configuration { message } => {
                let mut r = "Configuration error: ".to_owned();
                r.append(message.as_str());
                r
            },
        }
    }
}

/// Any error of the library. Failures of the file system, the database and
/// the serialiser are carried by their messages.
#[derive(Debug)]
pub enum EddaError {
    Task(TaskError),
    Storage(StorageError),
    Config(ConfigError),
    Sync(SyncError),
    Io(String),
    Database(String),
    Serialization(String),
    Logging(String),
}

/// The result of a fallible operation of the library.
pub type EddaResult<T> = Result<T, EddaError>;

impl EddaError {
    /// The message shown for this error.
    pub open spec fn message_text(self) -> Seq<char> {
        match self {
            EddaError::Task(e) => "Task error: "@ + e.message_text(),
            EddaError::Storage(e) => "Storage error: "@ + e.message_text(),
            EddaError::Config(e) => "Configuration error: "@ + e.message_text(),
            EddaError::Sync(e) => "Sync error: "@ + e.message_text(),
            EddaError::Io(m) => "IO error: "@ + m@,
            EddaError::Database(m) => "Database error: "@ + m@,
            EddaError::Serialization(m) => "Serialization error: "@ + m@,
            EddaError::Logging(m) => "Logging error: "@ + m@,
        }
    }

    /// The message shown for this error, as text.
    pub fn to_string(&self) -> (r: String)
        ensures
            r@ == self.message_text(),
    {
        match self {
            EddaError::Task(e) => {
                let mut r = "Task error: ".to_owned();
                let inner = e.to_string();
                r.append(inner.as_str());
                r
            },
            EddaError::Storage(e) => {
                let mut r = "Storage error: ".to_owned();
                let inner = e.to_string();
                r.append(inner.as_str());
                r
            },
            EddaError::Config(e) => {
                let mut r = "Configuration error: ".to_owned();
                let inner = e.to_string();
                r.append(inner.as_str());
                r
            },
            EddaError::Sync(e) => {
                let mut r = "Sync error: ".to_owned();
                let inner = e.to_string();
                r.append(inner.as_str());
                r
            },
            EddaError::Io(m) => {
                let mut r = "IO error: ".to_owned();
                r.append(m.as_str());
                r
            },
            EddaError::Database(m) => {
                let mut r = "Database error: ".to_owned();
                r.append(m.as_str());
                r
            },
            EddaError::Serialization(m) => {
                let mut r = "Serialization error: ".to_owned();
                r.append(m.as_str());
                r
            },
            EddaError::Logging(m) => {
                let mut r = "Logging error: ".to_owned();
                r.append(m.as_str());
                r
            },
        }
    }
}

impl From<TaskError> for EddaError {
    fn from(e: TaskError) -> (r: EddaError) {
        EddaError::Task(e)
    }
}

impl vstd::std_specs::convert::FromSpecImpl<TaskError> for EddaError {
    open spec fn obeys_from_spec() -> bool {
        true
    }

    open spec fn from_spec(e: TaskError) -> EddaError {
        EddaError::Task(e)
    }
}

impl From<StorageError> for EddaError {
    fn from(e: StorageError) -> (r: EddaError) {
        EddaError::Storage(e)
    }
}

impl vstd::std_specs::convert::FromSpecImpl<StorageError> for EddaError {
    open spec fn obeys_from_spec() -> bool {
        true
    }

    open spec fn from_spec(e: StorageError) -> EddaError {
        EddaError::Storage(e)
    }
}

impl From<ConfigError> for EddaError {
    fn from(e: ConfigError) -> (r: EddaError) {
        EddaError::Config(e)
    }
}

impl vstd::std_specs::convert::FromSpecImpl<ConfigError> for EddaError {
    open spec fn obeys_from_spec() -> bool {
        true
    }

    open spec fn from_spec(e: ConfigError) -> EddaError {
        EddaError::Config(e)
    }
}

impl From<SyncError> for EddaError {
    fn from(e: SyncError) -> (r: EddaError) {
        EddaError::Sync(e)
    }
}

impl vstd::std_specs::convert::FromSpecImpl<SyncError> for EddaError {
    open spec fn obeys_from_spec() -> bool {
        true
    }

    open spec fn from_spec(e: SyncError) -> EddaError {
        EddaError::Sync(e)
    }
}

} // verus!
