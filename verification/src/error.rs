use vstd::prelude::*;

verus! {

/// Kinds of failure that cross component boundaries.
#[derive(Debug, Clone, Copy, PartialEq, Eq, Hash, Structural)]
pub enum AppErrorCode {
    InvalidInput,
    InvalidJsonFormat,
    EmptyInputData,
    DataCorruption,
    MissingDataStore,
    DataTableNotExist,
    AcquireLockFailure,
    RemoteDbServerFailure,
    NotImplemented,
    PermissionDenied,
    NotFound,
}

/// How a failure is answered over HTTP.
#[derive(Debug, Clone, Copy, PartialEq, Eq, Hash, Structural)]
pub enum HttpStatusClass {
    /// 400: the request is at fault.
    BadRequest,
    /// 403: the user may not do this.
    Forbidden,
    /// 404: what was asked for is not there.
    NotFound,
    /// 5xx: the service is at fault.
    ServerError,
}

impl AppErrorCode {
    /// How an error of this kind is answered over HTTP, for the kinds that
    /// have an answer of their own.
    pub open spec fn status_class(self) -> Option<HttpStatusClass> {
        match self {
            AppErrorCode::InvalidInput => Some(HttpStatusClass::BadRequest),
            AppErrorCode::EmptyInputData => Some(HttpStatusClass::BadRequest),
            AppErrorCode::PermissionDenied => Some(HttpStatusClass::Forbidden),
            AppErrorCode::AcquireLockFailure => Some(HttpStatusClass::ServerError),
            AppErrorCode::RemoteDbServerFailure => Some(HttpStatusClass::ServerError),
            _ => None,
        }
    }

    /// How an error of this kind is answered over HTTP.
    pub fn http_status_class(&self) -> (r: Option<HttpStatusClass>)
        ensures
            r == self.status_class(),
    {
        match self {
            AppErrorCode::InvalidInput => Some(HttpStatusClass::BadRequest),
            AppErrorCode::EmptyInputData => Some(HttpStatusClass::BadRequest),
            AppErrorCode::PermissionDenied => Some(HttpStatusClass::Forbidden),
            AppErrorCode::AcquireLockFailure => Some(HttpStatusClass::ServerError),
            AppErrorCode::RemoteDbServerFailure => Some(HttpStatusClass::ServerError),
            _ => None,
        }
    }
}

/// An error kind together with an optional human-readable detail.
#[derive(Debug, Clone, PartialEq, Eq)]
pub struct AppError {
    pub code: AppErrorCode,
    pub detail: Option<String>,
}

impl AppError {
    /// The detail text as a sequence of characters, if there is one.
    pub open spec fn detail_text(self) -> Option<Seq<char>> {
        match self.detail {
            Some(d) => Some(d@),
            None => None,
        }
    }

    /// Whether this error carries `code` and exactly the detail `text`.
    pub open spec fn is(self, code: AppErrorCode, text: Seq<char>) -> bool {
        self.code == code && self.detail_text() == Some(text)
    }

    pub fn new(code: AppErrorCode, detail: String) -> (e: AppError)
        ensures
            e.is(code, detail@),
    {
        AppError { code, detail: Some(detail) }
    }

    pub fn bare(code: AppErrorCode) -> (e: AppError)
        ensures
            e.code == code,
            e.detail is None,
    {
        AppError { code, detail: None }
    }
}

} // verus!
