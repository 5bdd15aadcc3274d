//! Error types of the library and the conversions between them.
//!
//! Each error has a `message` method that gives the text its display form
//! shows ("Memory not found: ..." and so on).

use vstd::prelude::*;
use crate::text::{decimal, decimal_spec, join2, join3};

verus! {

/// `std::io::Error`, carried opaquely.
#[verifier::external_type_specification]
#[verifier::external_body]
pub struct ExIoError(std::io::Error);

/// `serde_json::Error`, carried opaquely.
#[verifier::external_type_specification]
#[verifier::external_body]
pub struct ExJsonError(serde_json::Error);

/// `rusqlite::Error`, carried opaquely.
#[verifier::external_type_specification]
#[verifier::external_body]
pub struct ExSqliteError(rusqlite::Error);

/// Calls `ToString::to_string` on a `std::io::Error`. The text comes from the
/// error's kind or the operating system's description of its code, which
/// may depend on the locale; nothing is stated of it.
#[verifier::external_body]
fn io_error_text(e: &std::io::Error) -> String {
    e.to_string()
}

/// Calls `ToString::to_string` on a `serde_json::Error`; nothing is stated
/// of the text.
#[verifier::external_body]
fn json_error_text(e: &serde_json::Error) -> String {
    e.to_string()
}

/// Calls `ToString::to_string` on a `rusqlite::Error`; nothing is stated of
/// the text.
#[verifier::external_body]
fn sqlite_error_text(e: &rusqlite::Error) -> String {
    e.to_string()
}

/// Errors of the core memory operations.
#[derive(Debug)]
pub enum MemoryError {
    NotFound(String),
    StorageError(String),
    IndexError(String),
    SerializationError(String),
    InvalidOperation(String),
    WorkspaceError(String),
    TrainingError(String),
    IoError(std::io::Error),
    SerdeError(serde_json::Error),
}

/// The display text of a memory error that carries a text.
pub open spec fn memory_error_message(e: MemoryError) -> Seq<char> {
    match e {
        MemoryError::NotFound(m) => "Memory not found: "@ + m@,
        MemoryError::StorageError(m) => "Storage error: "@ + m@,
        MemoryError::IndexError(m) => "Index error: "@ + m@,
        MemoryError::SerializationError(m) => "Serialization error: "@ + m@,
        MemoryError::InvalidOperation(m) => "Invalid operation: "@ + m@,
        MemoryError::WorkspaceError(m) => "Workspace error: "@ + m@,
        MemoryError::TrainingError(m) => "Training error: "@ + m@,
        MemoryError::IoError(_) => "IO error: "@,
        MemoryError::SerdeError(_) => "Serialization error: "@,
    }
}

impl MemoryError {
    /// The display text of the error. For the variants that carry a text it
    /// is the variant's prefix and the text; for the two that carry an
    /// outside error it is the prefix followed by that error's own text.
    pub fn message(&self) -> (r: String)
        ensures
            !(self is IoError) && !(self is SerdeError) ==> r@ == memory_error_message(*self),
            (self is IoError) || (self is SerdeError) ==> r@.len() >= memory_error_message(
                *self,
            ).len() && r@.subrange(0, memory_error_message(*self).len() as int)
                == memory_error_message(*self),
    {
        match self {
            MemoryError::NotFound(m) => join2("Memory not found: ", m.as_str()),
            MemoryError::StorageError(m) => join2("Storage error: ", m.as_str()),
            MemoryError::IndexError(m) => join2("Index error: ", m.as_str()),
            MemoryError::SerializationError(m) => join2("Serialization error: ", m.as_str()),
            MemoryError::InvalidOperation(m) => join2("Invalid operation: ", m.as_str()),
            MemoryError::WorkspaceError(m) => join2("Workspace error: ", m.as_str()),
            MemoryError::TrainingError(m) => join2("Training error: ", m.as_str()),
            MemoryError::IoError(e) => {
                let t = io_error_text(e);
                let r = join2("IO error: ", t.as_str());
                assert(r@.subrange(0, "IO error: "@.len() as int) =~= "IO error: "@);
                r
            },
            MemoryError::SerdeError(e) => {
                let t = json_error_text(e);
                let r = join2("Serialization error: ", t.as_str());
                assert(r@.subrange(0, "Serialization error: "@.len() as int)
                    =~= "Serialization error: "@);
                r
            },
        }
    }
}

/// Index-related errors.
#[derive(Debug)]
pub enum IndexError {
    NotFound(String),
    AlreadyExists(String),
    OperationFailed(String),
    InvalidDimension { expected: usize, got: usize },
    InvalidQuery(String),
    SerializationError(String),
    IoError(std::io::Error),
    TantivyError(String),
    HnswError(String),
}

/// The display text of an index error that does not carry an I/O error.
pub open spec fn index_error_message(e: IndexError) -> Seq<char> {
    match e {
        IndexError::NotFound(m) => "Index not found: "@ + m@,
        IndexError::AlreadyExists(m) => "Index already exists: "@ + m@,
        IndexError::OperationFailed(m) => "Index operation failed: "@ + m@,
        IndexError::InvalidDimension { expected, got } => "Invalid dimension: expected "@
            + decimal_spec(expected as nat) + ", got "@ + decimal_spec(got as nat),
        IndexError::InvalidQuery(m) => "Invalid query: "@ + m@,
        IndexError::SerializationError(m) => "Serialization error: "@ + m@,
        IndexError::IoError(_) => "IO error: "@,
        IndexError::TantivyError(m) => "Tantivy error: "@ + m@,
        IndexError::HnswError(m) => "HNSW error: "@ + m@,
    }
}

impl IndexError {
    /// An operation failure with the given text (what `From<&str>` and
    /// `From<String>` give).
    pub fn from_text(s: &str) -> (r: IndexError)
        ensures
            r matches IndexError::OperationFailed(m) && m@ == s@,
    {
        IndexError::OperationFailed(s.to_string())
    }

    /// The display text of the error; for an I/O error it is "IO error: "
    /// followed by that error's own text.
    pub fn message(&self) -> (r: String)
        ensures
            !(self is IoError) ==> r@ == index_error_message(*self),
            self is IoError ==> r@.len() >= 10 && r@.subrange(0, 10) == "IO error: "@,
    {
        match self {
            IndexError::NotFound(m) => join2("Index not found: ", m.as_str()),
            IndexError::AlreadyExists(m) => join2("Index already exists: ", m.as_str()),
            IndexError::OperationFailed(m) => join2("Index operation failed: ", m.as_str()),
            IndexError::InvalidDimension { expected, got } => {
                let e = decimal(*expected as u64);
                let g = decimal(*got as u64);
                let mut r = join3("Invalid dimension: expected ", e.as_str(), ", got ");
                r.append(g.as_str());
                r
            },
            IndexError::InvalidQuery(m) => join2("Invalid query: ", m.as_str()),
            IndexError::SerializationError(m) => join2("Serialization error: ", m.as_str()),
            IndexError::IoError(e) => {
                let t = io_error_text(e);
                let r = join2("IO error: ", t.as_str());
                proof {
                    reveal_strlit("IO error: ");
                }
                assert(r@.subrange(0, 10) =~= "IO error: "@);
                r
            },
            IndexError::TantivyError(m) => join2("Tantivy error: ", m.as_str()),
            IndexError::HnswError(m) => join2("HNSW error: ", m.as_str()),
        }
    }
}

/// Lifecycle-specific errors.
#[derive(Debug)]
pub enum LifecycleError {
    TransitionError(String),
    PolicyError(String),
    SchedulerError(String),
    StorageError(String),
    InvalidTransition(String, String),
    NotFound(String),
}

/// The display text of a lifecycle error.
pub open spec fn lifecycle_error_message(e: LifecycleError) -> Seq<char> {
    match e {
        LifecycleError::TransitionError(m) => "Transition error: "@ + m@,
        LifecycleError::PolicyError(m) => "Policy error: "@ + m@,
        LifecycleError::SchedulerError(m) => "Scheduler error: "@ + m@,
        LifecycleError::StorageError(m) => "Storage error: "@ + m@,
        LifecycleError::InvalidTransition(a, b) => "Invalid status transition: "@ + a@ + " -> "@
            + b@,
        LifecycleError::NotFound(m) => "Memory not found: "@ + m@,
    }
}

/// The memory error a lifecycle error becomes, as kind and text.
pub open spec fn lifecycle_to_memory_spec(e: LifecycleError) -> (ErrorKind, Seq<char>) {
    match e {
        LifecycleError::TransitionError(m) => (ErrorKind::InvalidOperation, "Transition: "@ + m@),
        LifecycleError::PolicyError(m) => (ErrorKind::InvalidOperation, "Policy: "@ + m@),
        LifecycleError::SchedulerError(m) => (ErrorKind::InvalidOperation, "Scheduler: "@ + m@),
        LifecycleError::StorageError(m) => (ErrorKind::StorageError, m@),
        LifecycleError::InvalidTransition(a, b) => (
            ErrorKind::InvalidOperation,
            "Invalid transition: "@ + a@ + " -> "@ + b@,
        ),
        LifecycleError::NotFound(m) => (ErrorKind::NotFound, m@),
    }
}

/// The variants of `MemoryError` that carry a text.
#[derive(PartialEq, Eq, Structural, Clone, Copy, Debug)]
pub enum ErrorKind {
    NotFound,
    StorageError,
    IndexError,
    SerializationError,
    InvalidOperation,
    WorkspaceError,
    TrainingError,
}

/// The kind and text of a memory error that carries a text.
pub open spec fn memory_error_parts(e: MemoryError) -> Option<(ErrorKind, Seq<char>)> {
    match e {
        MemoryError::NotFound(m) => Some((ErrorKind::NotFound, m@)),
        MemoryError::StorageError(m) => Some((ErrorKind::StorageError, m@)),
        MemoryError::IndexError(m) => Some((ErrorKind::IndexError, m@)),
        MemoryError::SerializationError(m) => Some((ErrorKind::SerializationError, m@)),
        MemoryError::InvalidOperation(m) => Some((ErrorKind::InvalidOperation, m@)),
        MemoryError::WorkspaceError(m) => Some((ErrorKind::WorkspaceError, m@)),
        MemoryError::TrainingError(m) => Some((ErrorKind::TrainingError, m@)),
        _ => None,
    }
}

impl LifecycleError {
    /// The display text of the error.
    pub fn message(&self) -> (r: String)
        ensures
            r@ == lifecycle_error_message(*self),
    {
        match self {
            LifecycleError::TransitionError(m) => join2("Transition error: ", m.as_str()),
            LifecycleError::PolicyError(m) => join2("Policy error: ", m.as_str()),
            LifecycleError::SchedulerError(m) => join2("Scheduler error: ", m.as_str()),
            LifecycleError::StorageError(m) => join2("Storage error: ", m.as_str()),
            LifecycleError::InvalidTransition(a, b) => {
                let mut r = join3("Invalid status transition: ", a.as_str(), " -> ");
                r.append(b.as_str());
                r
            },
            LifecycleError::NotFound(m) => join2("Memory not found: ", m.as_str()),
        }
    }

    /// The memory error that this error converts to.
    pub fn into_memory_error(self) -> (r: MemoryError)
        ensures
            memory_error_parts(r) == Some(lifecycle_to_memory_spec(self)),
    {
        match self {
            LifecycleError::TransitionError(m) => MemoryError::InvalidOperation(
                join2("Transition: ", m.as_str()),
            ),
            LifecycleError::PolicyError(m) => MemoryError::InvalidOperation(
                join2("Policy: ", m.as_str()),
            ),
            LifecycleError::SchedulerError(m) => MemoryError::InvalidOperation(
                join2("Scheduler: ", m.as_str()),
            ),
            LifecycleError::StorageError(m) => MemoryError::StorageError(m),
            LifecycleError::InvalidTransition(a, b) => {
                let mut r = join3("Invalid transition: ", a.as_str(), " -> ");
                r.append(b.as_str());
                MemoryError::InvalidOperation(r)
            },
            LifecycleError::NotFound(m) => MemoryError::NotFound(m),
        }
    }
}

/// Storage layer errors.
#[derive(Debug)]
pub enum StorageError {
    HotError(String),
    ColdError(String),
    ZombieError(String),
    DatabaseError(String),
    SerializationError(String),
    IoError(std::io::Error),
    SqliteError(rusqlite::Error),
    JsonError(serde_json::Error),
}

/// The display text of a storage error that carries a text.
pub open spec fn storage_error_message(e: StorageError) -> Seq<char> {
    match e {
        StorageError::HotError(m) => "Hot storage error: "@ + m@,
        StorageError::ColdError(m) => "Cold storage error: "@ + m@,
        StorageError::ZombieError(m) => "Zombie storage error: "@ + m@,
        StorageError::DatabaseError(m) => "Database error: "@ + m@,
        StorageError::SerializationError(m) => "Serialization error: "@ + m@,
        StorageError::IoError(_) => "IO error: "@,
        StorageError::SqliteError(_) => "SQLite error: "@,
        StorageError::JsonError(_) => "JSON error: "@,
    }
}

/// The error carries a text of its own rather than an outside error.
pub open spec fn storage_error_has_text(e: StorageError) -> bool {
    !(e is IoError) && !(e is SqliteError) && !(e is JsonError)
}

impl StorageError {
    /// The display text of the error; for an outside error it is the
    /// variant's prefix followed by that error's own text.
    pub fn message(&self) -> (r: String)
        ensures
            storage_error_has_text(*self) ==> r@ == storage_error_message(*self),
            !storage_error_has_text(*self) ==> r@.len() >= storage_error_message(*self).len()
                && r@.subrange(0, storage_error_message(*self).len() as int)
                == storage_error_message(*self),
    {
        match self {
            StorageError::HotError(m) => join2("Hot storage error: ", m.as_str()),
            StorageError::ColdError(m) => join2("Cold storage error: ", m.as_str()),
            StorageError::ZombieError(m) => join2("Zombie storage error: ", m.as_str()),
            StorageError::DatabaseError(m) => join2("Database error: ", m.as_str()),
            StorageError::SerializationError(m) => join2("Serialization error: ", m.as_str()),
            StorageError::IoError(e) => {
                let t = io_error_text(e);
                let r = join2("IO error: ", t.as_str());
                assert(r@.subrange(0, "IO error: "@.len() as int) =~= "IO error: "@);
                r
            },
            StorageError::SqliteError(e) => {
                let t = sqlite_error_text(e);
                let r = join2("SQLite error: ", t.as_str());
                assert(r@.subrange(0, "SQLite error: "@.len() as int) =~= "SQLite error: "@);
                r
            },
            StorageError::JsonError(e) => {
                let t = json_error_text(e);
                let r = join2("JSON error: ", t.as_str());
                assert(r@.subrange(0, "JSON error: "@.len() as int) =~= "JSON error: "@);
                r
            },
        }
    }

    /// The memory error that this error converts to: the tier errors become
    /// storage errors with the tier's prefix, a database error keeps its
    /// text, I/O and JSON errors are carried over, and a SQLite error becomes
    /// a storage error with that error's text.
    pub fn into_memory_error(self) -> (r: MemoryError)
        ensures
            self is HotError ==> memory_error_parts(r) == Some(
                (ErrorKind::StorageError, "Hot: "@ + self->HotError_0@),
            ),
            self is ColdError ==> memory_error_parts(r) == Some(
                (ErrorKind::StorageError, "Cold: "@ + self->ColdError_0@),
            ),
            self is ZombieError ==> memory_error_parts(r) == Some(
                (ErrorKind::StorageError, "Zombie: "@ + self->ZombieError_0@),
            ),
            self is DatabaseError ==> memory_error_parts(r) == Some(
                (ErrorKind::StorageError, self->DatabaseError_0@),
            ),
            self is SerializationError ==> memory_error_parts(r) == Some(
                (ErrorKind::SerializationError, self->SerializationError_0@),
            ),
            self is IoError ==> r is IoError && r->IoError_0 == self->IoError_0,
            self is SqliteError ==> r is StorageError,
            self is JsonError ==> r is SerdeError && r->SerdeError_0 == self->JsonError_0,
    {
        match self {
            StorageError::HotError(m) => MemoryError::StorageError(join2("Hot: ", m.as_str())),
            StorageError::ColdError(m) => MemoryError::StorageError(join2("Cold: ", m.as_str())),
            StorageError::ZombieError(m) => MemoryError::StorageError(
                join2("Zombie: ", m.as_str()),
            ),
            StorageError::DatabaseError(m) => MemoryError::StorageError(m),
            StorageError::SerializationError(m) => MemoryError::SerializationError(m),
            StorageError::IoError(e) => MemoryError::IoError(e),
            StorageError::SqliteError(e) => MemoryError::StorageError(sqlite_error_text(&e)),
            StorageError::JsonError(e) => MemoryError::SerdeError(e),
        }
    }
}

/// Errors that can occur during training operations.
#[derive(Debug)]
pub enum TrainError {
    DataPreparationError(String),
    TrainingError(String),
    ModelNotFound(String),
    ModelLoadError(String),
    ModelSaveError(String),
    InsufficientData(String),
    InvalidParameters(String),
    IoError(std::io::Error),
    SerializationError(serde_json::Error),
}

/// The display text of a training error that carries a text.
pub open spec fn train_error_message(e: TrainError) -> Seq<char> {
    match e {
        TrainError::DataPreparationError(m) => "Data preparation error: "@ + m@,
        TrainError::TrainingError(m) => "Training error: "@ + m@,
        TrainError::ModelNotFound(m) => "Model not found: "@ + m@,
        TrainError::ModelLoadError(m) => "Model loading error: "@ + m@,
        TrainError::ModelSaveError(m) => "Model saving error: "@ + m@,
        TrainError::InsufficientData(m) => "Insufficient data for training: "@ + m@,
        TrainError::InvalidParameters(m) => "Invalid parameters: "@ + m@,
        TrainError::IoError(_) => "IO error: "@,
        TrainError::SerializationError(_) => "Serialization error: "@,
    }
}

impl TrainError {
    /// The display text of the error; for an outside error it is the
    /// variant's prefix followed by that error's own text.
    pub fn message(&self) -> (r: String)
        ensures
            !(self is IoError) && !(self is SerializationError) ==> r@ == train_error_message(
                *self,
            ),
            (self is IoError) || (self is SerializationError) ==> r@.len()
                >= train_error_message(*self).len() && r@.subrange(
                0,
                train_error_message(*self).len() as int,
            ) == train_error_message(*self),
    {
        match self {
            TrainError::DataPreparationError(m) => join2("Data preparation error: ", m.as_str()),
            TrainError::TrainingError(m) => join2("Training error: ", m.as_str()),
            TrainError::ModelNotFound(m) => join2("Model not found: ", m.as_str()),
            TrainError::ModelLoadError(m) => join2("Model loading error: ", m.as_str()),
            TrainError::ModelSaveError(m) => join2("Model saving error: ", m.as_str()),
            TrainError::InsufficientData(m) => join2(
                "Insufficient data for training: ",
                m.as_str(),
            ),
            TrainError::InvalidParameters(m) => join2("Invalid parameters: ", m.as_str()),
            TrainError::IoError(e) => {
                let t = io_error_text(e);
                let r = join2("IO error: ", t.as_str());
                assert(r@.subrange(0, "IO error: "@.len() as int) =~= "IO error: "@);
                r
            },
            TrainError::SerializationError(e) => {
                let t = json_error_text(e);
                let r = join2("Serialization error: ", t.as_str());
                assert(r@.subrange(0, "Serialization error: "@.len() as int)
                    =~= "Serialization error: "@);
                r
            },
        }
    }
}

/// API-specific errors.
#[derive(Debug)]
pub enum ApiError {
    ClientNotInitialized(String),
    ConfigError(String),
    InvalidParameter(String),
    ConnectionError(String),
    Timeout(String),
    BackendError(String),
    CoreError(MemoryError),
}

/// The display text of an API error that carries a text.
pub open spec fn api_error_message(e: ApiError) -> Seq<char> {
    match e {
        ApiError::ClientNotInitialized(m) => "Client not initialized: "@ + m@,
        ApiError::ConfigError(m) => "Configuration error: "@ + m@,
        ApiError::InvalidParameter(m) => "Invalid parameter: "@ + m@,
        ApiError::ConnectionError(m) => "Connection error: "@ + m@,
        ApiError::Timeout(m) => "Timeout: "@ + m@,
        ApiError::BackendError(m) => "Backend error: "@ + m@,
        ApiError::CoreError(inner) => "Core error: "@ + memory_error_message(inner),
    }
}

impl ApiError {
    /// The display text of the error; a core error shows "Core error: "
    /// followed by the inner error's display text.
    pub fn message(&self) -> (r: String)
        ensures
            !(self is CoreError) ==> r@ == api_error_message(*self),
            self matches ApiError::CoreError(inner) && !(inner is IoError) && !(inner is SerdeError)
                ==> r@ == api_error_message(*self),
    {
        match self {
            ApiError::ClientNotInitialized(m) => join2("Client not initialized: ", m.as_str()),
            ApiError::ConfigError(m) => join2("Configuration error: ", m.as_str()),
            ApiError::InvalidParameter(m) => join2("Invalid parameter: ", m.as_str()),
            ApiError::ConnectionError(m) => join2("Connection error: ", m.as_str()),
            ApiError::Timeout(m) => join2("Timeout: ", m.as_str()),
            ApiError::BackendError(m) => join2("Backend error: ", m.as_str()),
            ApiError::CoreError(inner) => {
                let t = inner.message();
                join2("Core error: ", t.as_str())
            },
        }
    }

    /// The memory error that this error converts to: a core error is
    /// unwrapped, configuration and parameter errors become invalid
    /// operations, and connection, timeout and backend errors become storage
    /// errors, each keeping its text.
    pub fn into_memory_error(self) -> (r: MemoryError)
        ensures
            self matches ApiError::CoreError(inner) ==> r == inner,
            self matches ApiError::ClientNotInitialized(m) ==> memory_error_parts(r) == Some(
                (ErrorKind::InvalidOperation, m@),
            ),
            self matches ApiError::ConfigError(m) ==> memory_error_parts(r) == Some(
                (ErrorKind::InvalidOperation, m@),
            ),
            self matches ApiError::InvalidParameter(m) ==> memory_error_parts(r) == Some(
                (ErrorKind::InvalidOperation, m@),
            ),
            self matches ApiError::ConnectionError(m) ==> memory_error_parts(r) == Some(
                (ErrorKind::StorageError, m@),
            ),
            self matches ApiError::Timeout(m) ==> memory_error_parts(r) == Some(
                (ErrorKind::StorageError, m@),
            ),
            self matches ApiError::BackendError(m) ==> memory_error_parts(r) == Some(
                (ErrorKind::StorageError, m@),
            ),
    {
        match self {
            ApiError::CoreError(e) => e,
            ApiError::ClientNotInitialized(m) => MemoryError::InvalidOperation(m),
            ApiError::ConfigError(m) => MemoryError::InvalidOperation(m),
            ApiError::InvalidParameter(m) => MemoryError::InvalidOperation(m),
            ApiError::ConnectionError(m) => MemoryError::StorageError(m),
            ApiError::Timeout(m) => MemoryError::StorageError(m),
            ApiError::BackendError(m) => MemoryError::StorageError(m),
        }
    }
}

} // verus!
