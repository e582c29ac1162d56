//! The kinds of failure that a mapper or the pool can report.

use vstd::prelude::*;

verus! {

/// Why a request could not be answered with an entity.
#[derive(Clone, Copy, Debug, PartialEq, Eq, Structural)]
pub enum MapperError {
    /// The addressed key has no matching entity.
    NotFound,
    /// A uniqueness or concurrent-modification rule was violated.
    Conflict,
    /// No connection became available within the pool's bounded wait.
    PoolExhaustedTimeout,
    /// The pool has permanently stopped handing out connections.
    PoolClosed,
    /// A failure of the storage call that is not classified further.
    BackendError,
}

impl MapperError {
    /// Whether the error ends the dispatcher's loop: only a closed pool does.
    pub open spec fn fatal(self) -> bool {
        self == MapperError::PoolClosed
    }

    pub fn is_fatal(&self) -> (b: bool)
        ensures
            b == self.fatal(),
    {
        match self {
            MapperError::PoolClosed => true,
            _ => false,
        }
    }
}

/// `sqlx::Error`, the error type of the database driver, taken as an opaque
/// value: only `signal_of` looks into it.
#[verifier::external_type_specification]
#[verifier::external_body]
pub struct ExSqlxError(sqlx::Error);

/// What a failure reported by the database driver amounts to.
#[derive(Clone, Copy, Debug, PartialEq, Eq, Structural)]
pub enum BackendSignal {
    /// A query that expected a row found none.
    RowNotFound,
    /// Waiting for a connection of the pool timed out.
    PoolTimedOut,
    /// The pool was closed.
    PoolClosed,
    /// The database itself reported an error; `unique_violation` says
    /// whether it was the violation of a unique or primary key constraint.
    Database { unique_violation: bool },
    /// Any other failure.
    Other,
}

/// Tells the variants of `sqlx::Error` apart: `RowNotFound`, `PoolTimedOut`,
/// `PoolClosed` and `Database` each give the signal of the same name, every
/// other variant gives `Other`. For `Database` the flag is what
/// `sqlx::error::DatabaseError::is_unique_violation` says of the reported
/// error. Nothing is promised of which signal comes.
#[verifier::external_body]
fn signal_of(error: &sqlx::Error) -> (signal: BackendSignal) {
    match error {
        sqlx::Error::RowNotFound => BackendSignal::RowNotFound,
        sqlx::Error::PoolTimedOut => BackendSignal::PoolTimedOut,
        sqlx::Error::PoolClosed => BackendSignal::PoolClosed,
        sqlx::Error::Database(reported) => BackendSignal::Database {
            unique_violation: reported.is_unique_violation(),
        },
        _ => BackendSignal::Other,
    }
}

impl MapperError {
    /// The kind of error that a signal of the driver stands for. Of the
    /// errors of the database only the violation of a uniqueness constraint
    /// is told apart; every other failure is a `BackendError`.
    pub open spec fn classified(signal: BackendSignal) -> MapperError {
        match signal {
            BackendSignal::RowNotFound => MapperError::NotFound,
            BackendSignal::PoolTimedOut => MapperError::PoolExhaustedTimeout,
            BackendSignal::PoolClosed => MapperError::PoolClosed,
            BackendSignal::Database { unique_violation } => if unique_violation {
                MapperError::Conflict
            } else {
                MapperError::BackendError
            },
            BackendSignal::Other => MapperError::BackendError,
        }
    }

    /// Classifies a signal of the driver.
    pub fn classify(signal: BackendSignal) -> (kind: MapperError)
        ensures
            kind == MapperError::classified(signal),
    {
        match signal {
            BackendSignal::RowNotFound => MapperError::NotFound,
            BackendSignal::PoolTimedOut => MapperError::PoolExhaustedTimeout,
            BackendSignal::PoolClosed => MapperError::PoolClosed,
            BackendSignal::Database { unique_violation } => {
                if unique_violation {
                    MapperError::Conflict
                } else {
                    MapperError::BackendError
                }
            },
            BackendSignal::Other => MapperError::BackendError,
        }
    }

    /// The kind of an error of the database driver: `classify` of the signal
    /// that the error amounts to, which only the driver's own code tells.
    pub fn from_backend(error: &sqlx::Error) -> (kind: MapperError) {
        MapperError::classify(signal_of(error))
    }
}

} // verus!
