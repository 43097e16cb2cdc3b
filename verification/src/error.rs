//! The error taxonomy: absence is the only domain-distinguishable
//! failure; everything else collapses to an opaque storage failure.

use vstd::prelude::*;

verus! {

/// The requested paste does not exist, has expired, or has exhausted
/// its view limit; the three cases are deliberately indistinguishable
/// to the caller.
#[derive(Debug)]
pub struct NotFoundError;

/// How far a caller may learn why an operation failed.
#[derive(Debug)]
pub enum AppErrorKind {
    /// The resource is absent: never existed, expired, or exhausted.
    NotFound,
    /// The storage layer failed in a way this core does not interpret.
    Storage,
}

/// The error surfaced by the service operations.
#[derive(Debug)]
pub struct AppError {
    pub kind: AppErrorKind,
}

impl AppError {
    /// The error for an absent resource.
    pub fn not_found() -> (r: AppError)
        ensures
            r.kind is NotFound,
    {
        AppError { kind: AppErrorKind::NotFound }
    }

    /// The error for an uninterpreted storage failure.
    pub fn storage() -> (r: AppError)
        ensures
            r.kind is Storage,
    {
        AppError { kind: AppErrorKind::Storage }
    }

    /// The transport-agnostic response for this error: a status code
    /// and a body. Absence maps to 404 "Not Found"; every other
    /// failure collapses to an opaque 500, deliberately hiding
    /// internal detail from the caller.
    pub fn response_parts(&self) -> (r: (u16, String))
        ensures
            self.kind is NotFound ==> r.0 == 404 && r.1@ == "Not Found"@,
            !(self.kind is NotFound) ==> r.0 == 500 && r.1@ == "Something went wrong"@,
    {
        match self.kind {
            AppErrorKind::NotFound => (404, "Not Found".to_owned()),
            AppErrorKind::Storage => (500, "Something went wrong".to_owned()),
        }
    }
}

} // verus!
