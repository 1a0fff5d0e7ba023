use vstd::prelude::*;

verus! {

/// The failures a storage or service operation can report.
///
/// `ObjectNotFound` means a looked-up aggregate or sub-entity is absent.
/// `UserError` is a client-triggered rule violation such as a duplicate join.
/// `UserUnauthorized` means the caller's credentials do not prove who they
/// claim to act for, and `UserForbidden` that an authenticated caller lacks
/// the right to the operation. `DataIntegrityError` reports a backend whose
/// records contradict each other. `BackendError` carries a transport or
/// storage failure from a remote backend.
#[derive(Debug, Clone)]
pub enum Error {
    ObjectNotFound(String),
    UserError(String),
    UserUnauthorized,
    UserForbidden(String),
    DataIntegrityError(String),
    BackendError(String),
}

impl Error {
    /// A short description of the failure, for logs and transports.
    pub fn message(&self) -> (r: &str)
        ensures
            r@ == (match *self {
                Error::ObjectNotFound(_) => "could not find object in data backend"@,
                Error::UserError(_) => "user attempted invalid operation"@,
                Error::UserUnauthorized => "user could not be authenticated"@,
                Error::UserForbidden(_) => "user attempted operation without proper credentials"@,
                Error::DataIntegrityError(_) => "the internal data store is inconsistent"@,
                Error::BackendError(_) => "the data backend failed"@,
            }),
    {
        match *self {
            Error::ObjectNotFound(_) => "could not find object in data backend",
            Error::UserError(_) => "user attempted invalid operation",
            Error::UserUnauthorized => "user could not be authenticated",
            Error::UserForbidden(_) => "user attempted operation without proper credentials",
            Error::DataIntegrityError(_) => "the internal data store is inconsistent",
            Error::BackendError(_) => "the data backend failed",
        }
    }
}

} // verus!
