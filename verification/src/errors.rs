//! Error taxonomy of the repository and its translation for the transport
//! adapter.

use vstd::prelude::*;
use vstd::string::StringExecFns;

verus! {

/// The outcomes a repository call can fail with.
///
/// `ValidationError` covers a sort column or direction outside the whitelist
/// and non-positive pagination parameters; it never reaches the store.
/// `NotFound` means no row matched the given id. `StoreError` stands for a
/// failure of the store itself (connection, constraint, timeout) and never
/// carries the store's own error text outward.
#[derive(Clone, Copy, PartialEq, Eq, Structural, Debug)]
pub enum RepoError {
    ValidationError,
    NotFound,
    StoreError,
}

/// Whether an outcome is reported to the caller as its own fault (a bad
/// request or a missing row) rather than as a failure of the service.
pub open spec fn client_fault(e: RepoError) -> bool {
    match e {
        RepoError::ValidationError => true,
        RepoError::NotFound => true,
        RepoError::StoreError => false,
    }
}

/// The message each error is translated to at the boundary.
pub open spec fn message_of(e: RepoError) -> Seq<char> {
    match e {
        RepoError::ValidationError => "Invalid query parameters"@,
        RepoError::NotFound => "User not found"@,
        RepoError::StoreError => "Error trying to access the user store"@,
    }
}

impl RepoError {
    /// True exactly when the error is the caller's fault.
    pub fn is_client_fault(&self) -> (r: bool)
        ensures
            r == client_fault(*self),
    {
        match self {
            RepoError::ValidationError => true,
            RepoError::NotFound => true,
            RepoError::StoreError => false,
        }
    }

    /// The client-facing text for this error; store detail never leaks out.
    pub fn message(&self) -> (r: String)
        ensures
            r@ == message_of(*self),
    {
        match self {
            RepoError::ValidationError => String::from_str("Invalid query parameters"),
            RepoError::NotFound => String::from_str("User not found"),
            RepoError::StoreError => String::from_str("Error trying to access the user store"),
        }
    }
}

} // verus!
