use vstd::prelude::*;

verus! {

/// Errors that the service reports to its clients.
#[derive(Clone, Copy, Debug, PartialEq, Eq, Structural)]
pub enum ServiceError {
    UsernameTaken,
    InvalidLogin,
    UnavailableLogin,
    NoSession,
    Database,
}

/// Short name of [`ServiceError`].
pub type SvcErr = ServiceError;

/// Result of a service operation.
pub type SvcResult<T, E = ServiceError> = Result<T, E>;

/// The HTTP status code that goes with each error.
pub open spec fn spec_status_code(e: ServiceError) -> u16 {
    match e {
        ServiceError::UsernameTaken => 409,
        ServiceError::InvalidLogin => 401,
        ServiceError::UnavailableLogin => 400,
        ServiceError::NoSession => 401,
        ServiceError::Database => 500,
    }
}

impl ServiceError {
    /// HTTP status code of the response that reports this error.
    pub fn status_code(&self) -> (code: u16)
        ensures
            code == spec_status_code(*self),
            *self == ServiceError::UsernameTaken ==> code == 409,
            *self == ServiceError::InvalidLogin ==> code == 401,
            *self == ServiceError::UnavailableLogin ==> code == 400,
            *self == ServiceError::NoSession ==> code == 401,
            *self == ServiceError::Database ==> code == 500,
            (*self == ServiceError::Database) <==> (500 <= code < 600),
            (*self != ServiceError::Database) <==> (400 <= code < 500),
    {
        match self {
            ServiceError::UsernameTaken => 409,
            ServiceError::InvalidLogin => 401,
            ServiceError::UnavailableLogin => 400,
            ServiceError::NoSession => 401,
            ServiceError::Database => 500,
        }
    }
}

} // verus!
