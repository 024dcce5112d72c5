//! The errors of the query layer.
use vstd::prelude::*;
use vstd::string::StringExecFns;

verus! {

/// Why a query did not produce a stream.
///
/// The first three kinds are the caller's to act on. The last two are
/// defects or a shutdown: they are not retried, and the caller is told no
/// more than that something internal went wrong.
#[derive(Debug, PartialEq, Eq)]
pub enum Error {
    /// The catalog holds no database of that name.
    DatabaseNotFound { db_name: String },
    /// The query text is malformed or asks for what is not supported; holds
    /// the planning engine's diagnostic.
    PlanError(String),
    /// Physical execution failed, for one because the store could not be
    /// read; holds the diagnostic.
    ExecutionError(String),
    /// The catalog contradicts itself: it lists a table without a schema, or
    /// a chunk does not fit the schema of its table.
    CatalogInvariantViolation { table: String },
    /// No permit could be asked for: the admission controller is closed.
    AdmissionFailure,
}

/// The mathematical value of an error.
pub enum ErrorView {
    DatabaseNotFound { db_name: Seq<char> },
    PlanError(Seq<char>),
    ExecutionError(Seq<char>),
    CatalogInvariantViolation { table: Seq<char> },
    AdmissionFailure,
}

impl ErrorView {
    /// Whether the error is a defect or a shutdown rather than something the
    /// caller can act on.
    pub open spec fn is_fatal(self) -> bool {
        self is CatalogInvariantViolation || self is AdmissionFailure
    }

    /// What the caller is shown.
    pub open spec fn message(self) -> Seq<char> {
        match self {
            ErrorView::DatabaseNotFound { db_name } => "database not found: "@ + db_name,
            ErrorView::PlanError(diagnostic) => "plan error: "@ + diagnostic,
            ErrorView::ExecutionError(diagnostic) => "execution error: "@ + diagnostic,
            ErrorView::CatalogInvariantViolation { .. } => "internal error"@,
            ErrorView::AdmissionFailure => "internal error"@,
        }
    }
}

impl View for Error {
    type V = ErrorView;

    open spec fn view(&self) -> ErrorView {
        match self {
            Error::DatabaseNotFound { db_name } => ErrorView::DatabaseNotFound {
                db_name: db_name@,
            },
            Error::PlanError(diagnostic) => ErrorView::PlanError(diagnostic@),
            Error::ExecutionError(diagnostic) => ErrorView::ExecutionError(diagnostic@),
            Error::CatalogInvariantViolation { table } => ErrorView::CatalogInvariantViolation {
                table: table@,
            },
            Error::AdmissionFailure => ErrorView::AdmissionFailure,
        }
    }
}

impl Error {
    /// Whether the error is fatal: a defect or a shutdown, not retried.
    pub fn is_fatal(&self) -> (r: bool)
        ensures
            r == self@.is_fatal(),
    {
        match self {
            Error::CatalogInvariantViolation { .. } => true,
            Error::AdmissionFailure => true,
            _ => false,
        }
    }

    /// The text shown to the caller. A recoverable error names the database
    /// or carries the diagnostic; a fatal one shows nothing of its cause.
    pub fn message(&self) -> (r: String)
        ensures
            r@ == self@.message(),
    {
        match self {
            Error::DatabaseNotFound { db_name } => String::from_str("database not found: ").concat(
                db_name.as_str(),
            ),
            Error::PlanError(diagnostic) => String::from_str("plan error: ").concat(
                diagnostic.as_str(),
            ),
            Error::ExecutionError(diagnostic) => String::from_str("execution error: ").concat(
                diagnostic.as_str(),
            ),
            Error::CatalogInvariantViolation { .. } => String::from_str("internal error"),
            Error::AdmissionFailure => String::from_str("internal error"),
        }
    }
}

} // verus!
