use vstd::prelude::*;

verus! {

/// Why an authentication or logout did not succeed.
#[derive(Debug, PartialEq, Eq)]
pub enum AuthError {
    /// The credentials were rejected.
    InvalidCredentials,
    /// The credential store failed; the detail is kept for logging.
    StoreError(String),
    /// The credential store did not answer in time.
    Timeout,
}

impl Clone for AuthError {
    fn clone(&self) -> (r: Self)
        ensures
            r == *self,
    {
        match self {
            AuthError::InvalidCredentials => AuthError::InvalidCredentials,
            AuthError::StoreError(detail) => AuthError::StoreError(detail.clone()),
            AuthError::Timeout => AuthError::Timeout,
        }
    }
}

} // verus!
