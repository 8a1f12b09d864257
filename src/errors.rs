//! The error taxonomy of the query surface and how each kind is answered.
use vstd::prelude::*;
use vstd::string::*;

verus! {

/// What went wrong while answering a request.
#[derive(Debug)]
pub enum AppError {
    Database(String),
    BadRequest(String),
    Internal(String),
    VaisalaApi(String),
    Config(String),
    ServiceUnavailable(String),
    NotFound(String),
}

impl AppError {
    /// The refusal of a bulk request when every bulk permit is taken.
    pub fn bulk_refused() -> (r: AppError)
        ensures
            r matches AppError::ServiceUnavailable(m) && m@
                == "Too many concurrent bulk requests. Please try again later."@,
    {
        AppError::ServiceUnavailable(
            String::from_str("Too many concurrent bulk requests. Please try again later."),
        )
    }

    /// The HTTP status of the answer.
    pub fn status_code(&self) -> (r: u16)
        ensures
            *self is Database ==> r == 500,
            *self is BadRequest ==> r == 400,
            *self is Internal ==> r == 500,
            *self is VaisalaApi ==> r == 502,
            *self is Config ==> r == 500,
            *self is ServiceUnavailable ==> r == 503,
            *self is NotFound ==> r == 404,
    {
        match self {
            AppError::Database(_) => 500,
            AppError::BadRequest(_) => 400,
            AppError::Internal(_) => 500,
            AppError::VaisalaApi(_) => 502,
            AppError::Config(_) => 500,
            AppError::ServiceUnavailable(_) => 503,
            AppError::NotFound(_) => 404,
        }
    }

    /// The message put in the answer's `error` field: database, internal
    /// and configuration details are withheld.
    pub fn public_message(&self) -> (r: String)
        ensures
            *self is Database ==> r@ == "Database error"@,
            *self is Internal ==> r@ == "Internal server error"@,
            *self is Config ==> r@ == "Configuration error"@,
            *self matches AppError::VaisalaApi(m) ==> r@ == "Vaisala API error: "@ + m@,
            *self matches AppError::BadRequest(m) ==> r@ == m@,
            *self matches AppError::ServiceUnavailable(m) ==> r@ == m@,
            *self matches AppError::NotFound(m) ==> r@ == m@,
    {
        match self {
            AppError::Database(_) => String::from_str("Database error"),
            AppError::Internal(_) => String::from_str("Internal server error"),
            AppError::Config(_) => String::from_str("Configuration error"),
            AppError::VaisalaApi(m) => {
                let mut s = String::from_str("Vaisala API error: ");
                s.append(m.as_str());
                s
            },
            AppError::BadRequest(m) => m.clone(),
            AppError::ServiceUnavailable(m) => m.clone(),
            AppError::NotFound(m) => m.clone(),
        }
    }
}

} // verus!
