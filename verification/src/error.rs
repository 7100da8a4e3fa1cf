//! Failures: what the store reports, what the services return, and what may
//! be shown at the boundary.

use vstd::prelude::*;
use vstd::std_specs::convert::FromSpecImpl;
use vstd::string::StringExecFns;

verus! {

/// The kinds of failure that the store reports.
#[derive(Debug, Clone, Copy, PartialEq, Eq, Structural)]
pub enum StorageErrorKind {
    /// A query that needs a row found none.
    RowNotFound,
    /// A write would have put one value twice into a column that holds each
    /// value once.
    UniqueViolation,
    /// Any other failure of the engine.
    Other,
}

/// A failure that the store reports: its kind, and the engine's own words.
#[derive(Debug)]
pub struct StorageError {
    pub kind: StorageErrorKind,
    pub detail: String,
}

/// What a `StorageError` holds.
pub struct StorageErrorView {
    pub kind: StorageErrorKind,
    pub detail: Seq<char>,
}

impl View for StorageError {
    type V = StorageErrorView;

    open spec fn view(&self) -> StorageErrorView {
        StorageErrorView { kind: self.kind, detail: self.detail@ }
    }
}

impl StorageErrorView {
    /// The failure of a write that would have put a value twice into a
    /// column that holds each value once.
    pub open spec fn unique_violation() -> StorageErrorView {
        StorageErrorView {
            kind: StorageErrorKind::UniqueViolation,
            detail: "UNIQUE constraint failed"@,
        }
    }

    /// The failure of a query that needs a row and found none.
    pub open spec fn row_not_found() -> StorageErrorView {
        StorageErrorView {
            kind: StorageErrorKind::RowNotFound,
            detail: "no rows returned by a query that expected to return at least one row"@,
        }
    }
}

impl StorageError {
    /// The failure of a write that would have put a value twice into a
    /// column that holds each value once.
    pub fn unique_violation() -> (e: StorageError)
        ensures
            e@ == StorageErrorView::unique_violation(),
    {
        StorageError {
            kind: StorageErrorKind::UniqueViolation,
            detail: "UNIQUE constraint failed".to_string(),
        }
    }

    /// The failure of a query that needs a row and found none.
    pub fn row_not_found() -> (e: StorageError)
        ensures
            e@ == StorageErrorView::row_not_found(),
    {
        StorageError {
            kind: StorageErrorKind::RowNotFound,
            detail: "no rows returned by a query that expected to return at least one row".to_string(),
        }
    }
}

/// A failure of a service.
#[derive(Debug)]
pub enum AppError {
    /// The store failed.
    Database(StorageError),
    /// A record that had to be there is not; the text says which.
    NotFound(String),
}

/// What an `AppError` holds.
pub enum AppErrorView {
    Database(StorageErrorView),
    NotFound(Seq<char>),
}

impl View for AppError {
    type V = AppErrorView;

    open spec fn view(&self) -> AppErrorView {
        match self {
            AppError::Database(e) => AppErrorView::Database(e@),
            AppError::NotFound(context) => AppErrorView::NotFound(context@),
        }
    }
}

/// The result of a service.
pub type AppResult<T> = Result<T, AppError>;

/// A failure as the boundary shows it: a message for people and, where
/// there is one, a code for programs.
#[derive(Debug)]
pub struct FrontendError {
    pub message: String,
    pub code: Option<String>,
}

/// What a `FrontendError` holds.
pub struct FrontendErrorView {
    pub message: Seq<char>,
    pub code: Option<Seq<char>>,
}

impl View for FrontendError {
    type V = FrontendErrorView;

    open spec fn view(&self) -> FrontendErrorView {
        FrontendErrorView {
            message: self.message@,
            code: match self.code {
                Some(c) => Some(c@),
                None => None,
            },
        }
    }
}

/// The code of a missing record.
pub open spec fn code_not_found() -> Seq<char> {
    "NOT_FOUND"@
}

/// The code of every other failure.
pub open spec fn code_database_error() -> Seq<char> {
    "DATABASE_ERROR"@
}

/// The message shown for a query that found no row.
pub open spec fn message_row_not_found() -> Seq<char> {
    "Note not found"@
}

/// The message shown for every other failure of the store.
pub open spec fn message_database_error() -> Seq<char> {
    "A database error occurred. Please try again."@
}

impl AppErrorView {
    /// What the boundary shows for this failure. A missing record keeps its
    /// own text; of a failure of the store only the kind is used.
    pub open spec fn shown(self) -> FrontendErrorView {
        match self {
            AppErrorView::NotFound(context) => FrontendErrorView {
                message: context,
                code: Some(code_not_found()),
            },
            AppErrorView::Database(e) => if e.kind == StorageErrorKind::RowNotFound {
                FrontendErrorView { message: message_row_not_found(), code: Some(code_not_found()) }
            } else {
                FrontendErrorView {
                    message: message_database_error(),
                    code: Some(code_database_error()),
                }
            },
        }
    }

    /// This failure in words, for a log.
    pub open spec fn described(self) -> Seq<char> {
        match self {
            AppErrorView::Database(e) => "Database error: "@ + e.detail,
            AppErrorView::NotFound(context) => "Not found: "@ + context,
        }
    }
}

impl AppError {
    /// This failure in words, for a log: the engine's detail is part of it.
    pub fn message(&self) -> (text: String)
        ensures
            text@ == self@.described(),
    {
        match self {
            AppError::Database(e) => "Database error: ".to_string().concat(e.detail.as_str()),
            AppError::NotFound(context) => "Not found: ".to_string().concat(context.as_str()),
        }
    }
}

impl From<StorageError> for AppError {
    fn from(err: StorageError) -> (wrapped: AppError)
        ensures
            wrapped@ == AppErrorView::Database(err@),
    {
        AppError::Database(err)
    }
}

impl FromSpecImpl<StorageError> for AppError {
    open spec fn obeys_from_spec() -> bool {
        true
    }

    open spec fn from_spec(err: StorageError) -> AppError {
        AppError::Database(err)
    }
}

impl From<AppError> for FrontendError {
    /// Translates a failure for the boundary.
    fn from(err: AppError) -> (shown: FrontendError)
        ensures
            shown@ == err@.shown(),
    {
        match err {
            AppError::NotFound(context) => FrontendError {
                message: context,
                code: Some("NOT_FOUND".to_string()),
            },
            AppError::Database(e) => match e.kind {
                StorageErrorKind::RowNotFound => FrontendError {
                    message: "Note not found".to_string(),
                    code: Some("NOT_FOUND".to_string()),
                },
                _ => FrontendError {
                    message: "A database error occurred. Please try again.".to_string(),
                    code: Some("DATABASE_ERROR".to_string()),
                },
            },
        }
    }
}

/// `from` says what it returns by the characters that the result holds;
/// no value of the result is named here, since two texts of the same
/// characters need not be one value.
impl FromSpecImpl<AppError> for FrontendError {
    open spec fn obeys_from_spec() -> bool {
        false
    }

    open spec fn from_spec(err: AppError) -> FrontendError {
        arbitrary()
    }
}

impl From<StorageError> for FrontendError {
    /// Translates a failure of the store for the boundary.
    fn from(err: StorageError) -> (shown: FrontendError)
        ensures
            shown@ == AppErrorView::Database(err@).shown(),
    {
        FrontendError::from(AppError::Database(err))
    }
}

/// As for a failure of a service: `from` speaks of the characters that
/// the result holds.
impl FromSpecImpl<StorageError> for FrontendError {
    open spec fn obeys_from_spec() -> bool {
        false
    }

    open spec fn from_spec(err: StorageError) -> FrontendError {
        arbitrary()
    }
}

/// The boundary never shows the engine's words: two failures of the store
/// of one kind are shown alike, whatever detail each carries.
pub proof fn lemma_detail_not_shown(a: StorageErrorView, b: StorageErrorView)
    requires
        a.kind == b.kind,
    ensures
        AppErrorView::Database(a).shown() == AppErrorView::Database(b).shown(),
{
}

} // verus!
