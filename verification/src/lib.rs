use vstd::prelude::*;

pub mod codec;
pub mod db;
pub mod detect;
pub mod dispatch;
pub mod config;
pub mod laws;
pub mod models;
pub mod order;
pub mod store;
pub mod strutil;

verus! {

/// The error taxonomy of the library: every fallible operation of the store,
/// the dispatcher and the configuration manager reports one of these.
#[derive(Clone, Copy, Debug, PartialEq, Eq, Structural)]
pub enum AppError {
    /// A lookup by id matched no row.
    NotFound,
    /// A request was malformed, e.g. a partial update with no fields supplied.
    InvalidRequest,
    /// A NOT NULL or size-limit constraint was violated.
    ConstraintViolation,
    /// No candidate program could be launched in automatic dispatch mode.
    ProgramNotFound,
    /// A required custom path or script is missing, or validation failed.
    ConfigError,
    /// The shared store lock could not be acquired.
    LockContention,
    /// The underlying file or database reported a read/write failure.
    StorageIo,
}

} // verus!
