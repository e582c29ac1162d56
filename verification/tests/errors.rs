use url_mapper::error::{BackendSignal, MapperError};

#[derive(Debug)]
struct Reported {
    unique: bool,
}

impl std::fmt::Display for Reported {
    fn fmt(&self, f: &mut std::fmt::Formatter<'_>) -> std::fmt::Result {
        f.write_str("reported by the database")
    }
}

impl std::error::Error for Reported {}

impl sqlx::error::DatabaseError for Reported {
    fn message(&self) -> &str {
        "reported by the database"
    }

    fn as_error(&self) -> &(dyn std::error::Error + Send + Sync + 'static) {
        self
    }

    fn as_error_mut(&mut self) -> &mut (dyn std::error::Error + Send + Sync + 'static) {
        self
    }

    fn into_error(self: Box<Self>) -> Box<dyn std::error::Error + Send + Sync + 'static> {
        self
    }

    fn kind(&self) -> sqlx::error::ErrorKind {
        if self.unique {
            sqlx::error::ErrorKind::UniqueViolation
        } else {
            sqlx::error::ErrorKind::ForeignKeyViolation
        }
    }
}

#[test]
fn only_a_closed_pool_is_fatal() {
    assert!(MapperError::PoolClosed.is_fatal());
    for e in [
        MapperError::NotFound,
        MapperError::Conflict,
        MapperError::PoolExhaustedTimeout,
        MapperError::BackendError,
    ] {
        assert!(!e.is_fatal());
    }
}

#[test]
fn classify_names_each_signal() {
    assert_eq!(MapperError::classify(BackendSignal::RowNotFound), MapperError::NotFound);
    assert_eq!(
        MapperError::classify(BackendSignal::PoolTimedOut),
        MapperError::PoolExhaustedTimeout
    );
    assert_eq!(MapperError::classify(BackendSignal::PoolClosed), MapperError::PoolClosed);
    assert_eq!(MapperError::classify(BackendSignal::Other), MapperError::BackendError);
    assert_eq!(
        MapperError::classify(BackendSignal::Database { unique_violation: true }),
        MapperError::Conflict
    );
    assert_eq!(
        MapperError::classify(BackendSignal::Database { unique_violation: false }),
        MapperError::BackendError
    );
}

#[test]
fn from_backend_reads_the_errors_of_the_driver() {
    assert_eq!(MapperError::from_backend(&sqlx::Error::RowNotFound), MapperError::NotFound);
    assert_eq!(
        MapperError::from_backend(&sqlx::Error::PoolTimedOut),
        MapperError::PoolExhaustedTimeout
    );
    assert_eq!(MapperError::from_backend(&sqlx::Error::PoolClosed), MapperError::PoolClosed);
    assert_eq!(
        MapperError::from_backend(&sqlx::Error::Protocol("garbled".to_string())),
        MapperError::BackendError
    );
    assert_eq!(MapperError::from_backend(&sqlx::Error::WorkerCrashed), MapperError::BackendError);
    assert_eq!(
        MapperError::from_backend(&sqlx::Error::ColumnNotFound("url".to_string())),
        MapperError::BackendError
    );
}

#[test]
fn from_backend_tells_a_uniqueness_violation_apart() {
    let taken = sqlx::Error::Database(Box::new(Reported { unique: true }));
    assert_eq!(MapperError::from_backend(&taken), MapperError::Conflict);
    let other = sqlx::Error::Database(Box::new(Reported { unique: false }));
    assert_eq!(MapperError::from_backend(&other), MapperError::BackendError);
}
