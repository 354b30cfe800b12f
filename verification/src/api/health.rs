//! The health endpoint: the server runs and reaches its database.

use vstd::prelude::*;

use crate::error::AppError;

verus! {

/// The body of a healthy answer.
#[derive(Debug, PartialEq, Eq)]
pub struct HealthResponse {
    pub status: String,
    pub version: String,
}

/// Answers a health check from the outcome of a trivial database query:
/// `status: "ok"` with the server's version when the query succeeded, the
/// database error (kept for the log) otherwise.
pub fn health_outcome(database: Result<(), String>, version: &str) -> (r: Result<
    HealthResponse,
    AppError,
>)
    ensures
        match database {
            Ok(()) => r matches Ok(h) && h.status@ == "ok"@ && h.version@ == version@,
            Err(detail) => r == Err::<HealthResponse, AppError>(AppError::Database { detail }),
        },
{
    match database {
        Ok(()) => Ok(HealthResponse { status: String::from_str("ok"), version: String::from_str(version) }),
        Err(detail) => Err(AppError::Database { detail }),
    }
}

} // verus!
